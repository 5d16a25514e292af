//! SSH-agent wire-protocol codec.
//!
//! A frame is a 4-byte big-endian length, a 1-byte message type, and a
//! type-specific body; the length counts the type byte plus the body.
//! String and numeric fields inside a body use the same 4-byte big-endian
//! prefix convention.

use vstd::prelude::*;

verus! {

/// Request: list the identities the agent holds.
pub const SSH_AGENTC_REQUEST_IDENTITIES: u8 = 11;

/// Request: sign data with one of the agent's keys.
pub const SSH_AGENTC_SIGN_REQUEST: u8 = 13;

/// Request: forget every identity.
pub const SSH_AGENTC_REMOVE_ALL_IDENTITIES: u8 = 19;

/// Response: the request was refused or could not be served.
pub const SSH_AGENT_FAILURE: u8 = 5;

/// Why a byte string failed to decode.
///
/// `Truncated` means fewer bytes were available than the frame declares:
/// the caller may read more bytes and retry. `Malformed` means the bytes
/// can never become a well-formed frame, however many more arrive.
#[derive(Clone, Copy, Debug, PartialEq, Eq, Structural)]
pub enum DecodeError {
    Truncated,
    Malformed,
}

/// The value of four big-endian bytes.
pub open spec fn be_u32_value(b0: u8, b1: u8, b2: u8, b3: u8) -> u32 {
    ((b0 as u32) << 24) | ((b1 as u32) << 16) | ((b2 as u32) << 8) | (b3 as u32)
}

/// The four big-endian bytes of a 32-bit value.
pub open spec fn be_u32_bytes(v: u32) -> Seq<u8> {
    seq![
        ((v >> 24) & 0xff) as u8,
        ((v >> 16) & 0xff) as u8,
        ((v >> 8) & 0xff) as u8,
        (v & 0xff) as u8,
    ]
}

/// Reading back the four big-endian bytes of a value gives the value.
pub proof fn lemma_be_u32_round_trip(v: u32)
    ensures
        be_u32_value(
            be_u32_bytes(v)[0],
            be_u32_bytes(v)[1],
            be_u32_bytes(v)[2],
            be_u32_bytes(v)[3],
        ) == v,
{
    assert(((((v >> 24) & 0xff) as u8 as u32) << 24) | ((((v >> 16) & 0xff) as u8 as u32) << 16)
        | ((((v >> 8) & 0xff) as u8 as u32) << 8) | ((v & 0xff) as u8 as u32) == v) by (bit_vector);
}

/// SSH Agent message, parsed from one frame.
///
/// `Unknown` keeps only the type tag of a message this proxy does not
/// model; such frames are forwarded untouched, never rejected.
#[derive(Clone, Debug)]
pub enum SshMessage {
    RequestIdentities,
    SignRequest { key_blob: Vec<u8>, data: Vec<u8>, flags: u32 },
    RemoveAllIdentities,
    Unknown(u8),
}

/// Mathematical model of an [`SshMessage`]: byte strings become sequences.
#[verifier::ext_equal]
pub enum SshMessageModel {
    RequestIdentities,
    SignRequest { key_blob: Seq<u8>, data: Seq<u8>, flags: u32 },
    RemoveAllIdentities,
    Unknown { msg_type: u8 },
}

impl View for SshMessage {
    type V = SshMessageModel;

    open spec fn view(&self) -> SshMessageModel {
        match self {
            SshMessage::RequestIdentities => SshMessageModel::RequestIdentities,
            SshMessage::SignRequest { key_blob, data, flags } => SshMessageModel::SignRequest {
                key_blob: key_blob@,
                data: data@,
                flags: *flags,
            },
            SshMessage::RemoveAllIdentities => SshMessageModel::RemoveAllIdentities,
            SshMessage::Unknown(t) => SshMessageModel::Unknown { msg_type: *t },
        }
    }
}

/// A length-prefixed byte-string field: 4-byte big-endian length, then the bytes.
pub open spec fn spec_write_string(s: Seq<u8>) -> Seq<u8> {
    be_u32_bytes(s.len() as u32) + s
}

/// The type byte and body of a message, without the outer length prefix.
pub open spec fn spec_payload(m: SshMessageModel) -> Seq<u8> {
    match m {
        SshMessageModel::RequestIdentities => seq![SSH_AGENTC_REQUEST_IDENTITIES],
        SshMessageModel::SignRequest { key_blob, data, flags } => seq![SSH_AGENTC_SIGN_REQUEST]
            + spec_write_string(key_blob) + spec_write_string(data) + be_u32_bytes(flags),
        SshMessageModel::RemoveAllIdentities => seq![SSH_AGENTC_REMOVE_ALL_IDENTITIES],
        SshMessageModel::Unknown { msg_type } => seq![msg_type],
    }
}

/// A whole frame: the payload behind its big-endian length prefix.
pub open spec fn spec_serialize(m: SshMessageModel) -> Seq<u8> {
    be_u32_bytes(spec_payload(m).len() as u32) + spec_payload(m)
}

/// Body of a sign request: `string key_blob, string data, u32 flags`.
/// Bytes past the flags field are tolerated, as the agent protocol asks
/// readers to take just the fields they know.
pub open spec fn spec_parse_sign_body(body: Seq<u8>) -> Result<SshMessageModel, DecodeError> {
    if body.len() < 4 {
        Err(DecodeError::Malformed)
    } else {
        let klen = be_u32_value(body[0], body[1], body[2], body[3]) as int;
        if body.len() < 4 + klen {
            Err(DecodeError::Malformed)
        } else {
            let key_blob = body.subrange(4, 4 + klen);
            let p = 4 + klen;
            if body.len() < p + 4 {
                Err(DecodeError::Malformed)
            } else {
                let dlen = be_u32_value(body[p], body[p + 1], body[p + 2], body[p + 3]) as int;
                if body.len() < p + 4 + dlen {
                    Err(DecodeError::Malformed)
                } else {
                    let data = body.subrange(p + 4, p + 4 + dlen);
                    let q = p + 4 + dlen;
                    if body.len() < q + 4 {
                        Err(DecodeError::Malformed)
                    } else {
                        Ok(SshMessageModel::SignRequest {
                            key_blob,
                            data,
                            flags: be_u32_value(body[q], body[q + 1], body[q + 2], body[q + 3]),
                        })
                    }
                }
            }
        }
    }
}

/// What parsing a byte string yields: one message, or why it cannot.
///
/// A declared length of zero leaves no room for the type byte, and no
/// further bytes can mend that, so it is `Malformed`; every shortage of
/// bytes against the declared length is `Truncated`.
pub open spec fn spec_parse(data: Seq<u8>) -> Result<SshMessageModel, DecodeError> {
    if data.len() < 4 {
        Err(DecodeError::Truncated)
    } else {
        let flen = be_u32_value(data[0], data[1], data[2], data[3]) as int;
        if flen == 0 {
            Err(DecodeError::Malformed)
        } else if data.len() < 4 + flen {
            Err(DecodeError::Truncated)
        } else {
            let t = data[4];
            if t == SSH_AGENTC_REQUEST_IDENTITIES {
                Ok(SshMessageModel::RequestIdentities)
            } else if t == SSH_AGENTC_REMOVE_ALL_IDENTITIES {
                Ok(SshMessageModel::RemoveAllIdentities)
            } else if t == SSH_AGENTC_SIGN_REQUEST {
                spec_parse_sign_body(data.subrange(5, 4 + flen))
            } else {
                Ok(SshMessageModel::Unknown { msg_type: t })
            }
        }
    }
}

/// Reads the byte at `pos`, if there is one.
pub fn read_u8(data: &[u8], pos: usize) -> (r: Option<(u8, usize)>)
    ensures
        pos < data@.len() ==> r == Some((data@[pos as int], (pos + 1) as usize)),
        pos >= data@.len() ==> r is None,
{
    if pos < data.len() {
        Some((data[pos], pos + 1))
    } else {
        None
    }
}

/// Reads a 4-byte big-endian unsigned integer at `pos`, if the bytes are there.
pub fn read_u32(data: &[u8], pos: usize) -> (r: Option<(u32, usize)>)
    ensures
        pos + 4 <= data@.len() ==> r == Some(
            (
                be_u32_value(
                    data@[pos as int],
                    data@[pos + 1],
                    data@[pos + 2],
                    data@[pos + 3],
                ),
                (pos + 4) as usize,
            ),
        ),
        pos + 4 > data@.len() ==> r is None,
{
    if data.len() >= 4 && pos <= data.len() - 4 {
        let b0 = data[pos];
        let b1 = data[pos + 1];
        let b2 = data[pos + 2];
        let b3 = data[pos + 3];
        Some((((b0 as u32) << 24) | ((b1 as u32) << 16) | ((b2 as u32) << 8) | (b3 as u32), pos + 4))
    } else {
        None
    }
}

/// Whether a length-prefixed byte string starts at `pos` and lies wholly inside `data`.
pub open spec fn string_at(data: Seq<u8>, pos: int) -> bool {
    &&& pos + 4 <= data.len()
    &&& pos + 4 + be_u32_value(data[pos], data[pos + 1], data[pos + 2], data[pos + 3]) as int
        <= data.len()
}

/// The bytes of the length-prefixed byte string starting at `pos`.
pub open spec fn string_at_bytes(data: Seq<u8>, pos: int) -> Seq<u8> {
    data.subrange(
        pos + 4,
        pos + 4 + be_u32_value(data[pos], data[pos + 1], data[pos + 2], data[pos + 3]) as int,
    )
}

/// Reads a length-prefixed byte string at `pos`, if it lies wholly inside `data`.
pub fn read_string(data: &[u8], pos: usize) -> (r: Option<(Vec<u8>, usize)>)
    ensures
        string_at(data@, pos as int) ==> (r matches Some((s, next)) && s@ == string_at_bytes(
            data@,
            pos as int,
        ) && next == pos + 4 + string_at_bytes(data@, pos as int).len()),
        !string_at(data@, pos as int) ==> r is None,
{
    match read_u32(data, pos) {
        None => None,
        Some((len32, p)) => {
            let len = len32 as usize;
            if len <= data.len() - p {
                let s = vstd::slice::slice_to_vec(&data[p..p + len]);
                Some((s, p + len))
            } else {
                None
            }
        },
    }
}

/// Appends one byte.
pub fn write_u8(buf: &mut Vec<u8>, val: u8)
    ensures
        final(buf)@ == old(buf)@.push(val),
{
    buf.push(val);
}

/// Appends a 4-byte big-endian unsigned integer.
pub fn write_u32(buf: &mut Vec<u8>, val: u32)
    ensures
        final(buf)@ == old(buf)@ + be_u32_bytes(val),
{
    proof {
        assert((val >> 24) & 0xff < 256 && (val >> 16) & 0xff < 256 && (val >> 8) & 0xff < 256
            && val & 0xff < 256) by (bit_vector);
    }
    buf.push(((val >> 24) & 0xff) as u8);
    buf.push(((val >> 16) & 0xff) as u8);
    buf.push(((val >> 8) & 0xff) as u8);
    buf.push((val & 0xff) as u8);
    assert(buf@ =~= old(buf)@ + be_u32_bytes(val));
}

/// Appends a length-prefixed byte string.
pub fn write_string(buf: &mut Vec<u8>, data: &[u8])
    requires
        data@.len() <= u32::MAX,
    ensures
        final(buf)@ == old(buf)@ + spec_write_string(data@),
{
    write_u32(buf, data.len() as u32);
    let ghost mid = buf@;
    let mut i: usize = 0;
    while i < data.len()
        invariant
            i <= data@.len(),
            buf@ == mid + data@.subrange(0, i as int),
        decreases data@.len() - i,
    {
        buf.push(data[i]);
        i = i + 1;
        assert(buf@ =~= mid + data@.subrange(0, i as int));
    }
    assert(buf@ =~= old(buf)@ + spec_write_string(data@));
}

/// The type byte a message serializes under.
pub open spec fn spec_message_type(m: SshMessageModel) -> u8 {
    match m {
        SshMessageModel::RequestIdentities => SSH_AGENTC_REQUEST_IDENTITIES,
        SshMessageModel::SignRequest { .. } => SSH_AGENTC_SIGN_REQUEST,
        SshMessageModel::RemoveAllIdentities => SSH_AGENTC_REMOVE_ALL_IDENTITIES,
        SshMessageModel::Unknown { msg_type } => msg_type,
    }
}

impl SshMessage {
    /// The type byte this message serializes under.
    pub fn message_type(&self) -> (t: u8)
        ensures
            t == spec_message_type(self@),
    {
        match self {
            SshMessage::RequestIdentities => SSH_AGENTC_REQUEST_IDENTITIES,
            SshMessage::SignRequest { .. } => SSH_AGENTC_SIGN_REQUEST,
            SshMessage::RemoveAllIdentities => SSH_AGENTC_REMOVE_ALL_IDENTITIES,
            SshMessage::Unknown(t) => *t,
        }
    }

    /// Whether this is the one message kind that is gated on approval.
    pub fn is_sign_request(&self) -> (r: bool)
        ensures
            r == (self@ is SignRequest),
    {
        match self {
            SshMessage::SignRequest { .. } => true,
            _ => false,
        }
    }

    /// Serializes the message as one frame.
    ///
    /// The length bound is what the 4-byte length prefix forces: a sign
    /// request's payload must fit in a `u32`.
    pub fn to_bytes(&self) -> (r: Vec<u8>)
        requires
            (self@ matches SshMessageModel::SignRequest { key_blob, data, .. } ==> 13
                + key_blob.len() + data.len() <= u32::MAX),
        ensures
            r@ == spec_serialize(self@),
    {
        let mut payload: Vec<u8> = Vec::new();
        write_u8(&mut payload, self.message_type());
        match self {
            SshMessage::SignRequest { key_blob, data, flags } => {
                write_string(&mut payload, key_blob.as_slice());
                write_string(&mut payload, data.as_slice());
                write_u32(&mut payload, *flags);
            },
            _ => {},
        }
        assert(payload@ =~= spec_payload(self@));
        let mut msg: Vec<u8> = Vec::new();
        write_u32(&mut msg, payload.len() as u32);
        msg.append(&mut payload);
        assert(msg@ =~= spec_serialize(self@));
        msg
    }
}

/// Body parser for a sign request; used once a frame is known to carry one.
fn parse_sign_body(body: &[u8]) -> (r: Result<SshMessage, DecodeError>)
    ensures
        match r {
            Ok(m) => spec_parse_sign_body(body@) == Ok::<SshMessageModel, DecodeError>(m@),
            Err(e) => spec_parse_sign_body(body@) == Err::<SshMessageModel, DecodeError>(e),
        },
{
    let (key_blob, p) = match read_string(body, 0) {
        Some(x) => x,
        None => {
            return Err(DecodeError::Malformed);
        },
    };
    let (data, q) = match read_string(body, p) {
        Some(x) => x,
        None => {
            return Err(DecodeError::Malformed);
        },
    };
    let (flags, _) = match read_u32(body, q) {
        Some(x) => x,
        None => {
            return Err(DecodeError::Malformed);
        },
    };
    Ok(SshMessage::SignRequest { key_blob, data, flags })
}

/// Parses one frame out of `data`.
///
/// Bytes past the declared frame length are left alone; the result
/// describes the first frame only.
pub fn parse_message(data: &[u8]) -> (r: Result<SshMessage, DecodeError>)
    ensures
        match r {
            Ok(m) => spec_parse(data@) == Ok::<SshMessageModel, DecodeError>(m@),
            Err(e) => spec_parse(data@) == Err::<SshMessageModel, DecodeError>(e),
        },
{
    let flen32 = match read_u32(data, 0) {
        Some((v, _)) => v,
        None => {
            return Err(DecodeError::Truncated);
        },
    };
    if flen32 == 0 {
        return Err(DecodeError::Malformed);
    }
    let flen = flen32 as usize;
    if data.len() - 4 < flen {
        return Err(DecodeError::Truncated);
    }
    let t = data[4];
    if t == SSH_AGENTC_REQUEST_IDENTITIES {
        Ok(SshMessage::RequestIdentities)
    } else if t == SSH_AGENTC_REMOVE_ALL_IDENTITIES {
        Ok(SshMessage::RemoveAllIdentities)
    } else if t == SSH_AGENTC_SIGN_REQUEST {
        parse_sign_body(&data[5..4 + flen])
    } else {
        Ok(SshMessage::Unknown(t))
    }
}

/// The whole length of the frame that starts with `header`: the 4-byte
/// prefix plus the declared remainder. Tells a reader how many bytes the
/// frame needs before parsing can succeed.
pub fn frame_total_len(header: &[u8]) -> (r: Option<u64>)
    ensures
        header@.len() >= 4 ==> r == Some(
            (4 + be_u32_value(header@[0], header@[1], header@[2], header@[3])) as u64,
        ),
        header@.len() < 4 ==> r is None,
{
    match read_u32(header, 0) {
        Some((v, _)) => Some(4u64 + v as u64),
        None => None,
    }
}

/// The canonical failure frame: declared length 1, type `SSH_AGENT_FAILURE`.
/// It is the one refusal this protocol can express.
pub open spec fn spec_failure_frame() -> Seq<u8> {
    seq![0u8, 0u8, 0u8, 1u8, SSH_AGENT_FAILURE]
}

/// Builds the canonical 5-byte failure frame.
pub fn failure_frame() -> (r: Vec<u8>)
    ensures
        r@ == spec_failure_frame(),
{
    let mut f: Vec<u8> = Vec::new();
    f.push(0u8);
    f.push(0u8);
    f.push(0u8);
    f.push(1u8);
    f.push(SSH_AGENT_FAILURE);
    assert(f@ =~= spec_failure_frame());
    f
}

/// A sign-request body parses back to the fields it was written from.
proof fn lemma_sign_body_round_trip(k: Seq<u8>, d: Seq<u8>, flags: u32)
    requires
        k.len() <= u32::MAX,
        d.len() <= u32::MAX,
    ensures
        spec_parse_sign_body(spec_write_string(k) + spec_write_string(d) + be_u32_bytes(flags))
            == Ok::<SshMessageModel, DecodeError>(
            SshMessageModel::SignRequest { key_blob: k, data: d, flags },
        ),
{
    let body = spec_write_string(k) + spec_write_string(d) + be_u32_bytes(flags);
    let klen = k.len() as int;
    let dlen = d.len() as int;
    assert(body.len() == 12 + klen + dlen);
    lemma_be_u32_round_trip(k.len() as u32);
    assert(be_u32_value(body[0], body[1], body[2], body[3]) as int == klen);
    assert(body.subrange(4, 4 + klen) =~= k);
    let p = 4 + klen;
    lemma_be_u32_round_trip(d.len() as u32);
    assert(be_u32_value(body[p], body[p + 1], body[p + 2], body[p + 3]) as int == dlen);
    assert(body.subrange(p + 4, p + 4 + dlen) =~= d);
    let q = p + 4 + dlen;
    lemma_be_u32_round_trip(flags);
    assert(be_u32_value(body[q], body[q + 1], body[q + 2], body[q + 3]) == flags);
}

/// Round trip: parsing a serialized message gives the message back, for
/// every constructible message but `Unknown`, whose tag may collide with
/// a recognized type. The length bound is what the wire format's 4-byte
/// length prefix forces.
pub proof fn lemma_parse_serialize_round_trip(m: SshMessageModel)
    requires
        !(m is Unknown),
        (m matches SshMessageModel::SignRequest { key_blob, data, .. } ==> 13 + key_blob.len()
            + data.len() <= u32::MAX),
    ensures
        spec_parse(spec_serialize(m)) == Ok::<SshMessageModel, DecodeError>(m),
{
    let p = spec_payload(m);
    let f = spec_serialize(m);
    assert(p.len() >= 1 && p.len() <= u32::MAX);
    lemma_be_u32_round_trip(p.len() as u32);
    assert(f.len() == 4 + p.len());
    assert(be_u32_value(f[0], f[1], f[2], f[3]) as int == p.len());
    assert(f[4] == p[0]);
    match m {
        SshMessageModel::RequestIdentities => {
        },
        SshMessageModel::RemoveAllIdentities => {
        },
        SshMessageModel::SignRequest { key_blob, data, flags } => {
            let body = spec_write_string(key_blob) + spec_write_string(data) + be_u32_bytes(flags);
            assert(f.subrange(5, 4 + p.len() as int) =~= body);
            lemma_sign_body_round_trip(key_blob, data, flags);
        },
        SshMessageModel::Unknown { .. } => {
        },
    }
}

/// A well-formed frame: at least the header and type byte, with the
/// declared length counting exactly the bytes after the length prefix.
pub open spec fn valid_frame(f: Seq<u8>) -> bool {
    &&& f.len() >= 5
    &&& be_u32_value(f[0], f[1], f[2], f[3]) as int == f.len() - 4
}

/// Serialization emits well-formed frames.
pub proof fn lemma_serialize_valid_frame(m: SshMessageModel)
    requires
        (m matches SshMessageModel::SignRequest { key_blob, data, .. } ==> 13 + key_blob.len()
            + data.len() <= u32::MAX),
    ensures
        valid_frame(spec_serialize(m)),
{
    let p = spec_payload(m);
    assert(p.len() >= 1 && p.len() <= u32::MAX);
    lemma_be_u32_round_trip(p.len() as u32);
}

/// Truncation: every strict prefix of a well-formed frame parses to
/// `Truncated`, never to `Malformed` or to a message.
pub proof fn lemma_parse_strict_prefix(f: Seq<u8>, n: int)
    requires
        valid_frame(f),
        0 <= n < f.len(),
    ensures
        spec_parse(f.subrange(0, n)) == Err::<SshMessageModel, DecodeError>(DecodeError::Truncated),
{
    let p = f.subrange(0, n);
    if n >= 4 {
        assert(be_u32_value(p[0], p[1], p[2], p[3]) as int == f.len() - 4);
    }
}

} // verus!
