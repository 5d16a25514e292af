//! Git credential protocol parsing.
//!
//! A request is a run of `key=value` lines ended by a blank line. Later
//! lines overwrite earlier ones; lines without `=` say nothing; nothing
//! after the blank line counts.

use vstd::prelude::*;
use vstd::string::*;

verus! {

/// Credential attributes read from one git credential request.
#[derive(Clone, Debug)]
pub struct CredentialRequest {
    pub protocol: String,
    pub host: String,
    pub username: Option<String>,
    pub password: Option<String>,
}

/// The index of the first `=` at or after `i` in `l`, or `l.len()` when
/// there is none.
pub open spec fn first_eq(l: Seq<char>, i: int) -> int
    decreases l.len() - i,
{
    if i < 0 || i >= l.len() {
        l.len() as int
    } else if l[i] == '=' {
        i
    } else {
        first_eq(l, i + 1)
    }
}

/// Whether the line carries a `key=value` pair.
pub open spec fn has_eq(l: Seq<char>) -> bool {
    first_eq(l, 0) < l.len()
}

/// The key of a `key=value` line: everything before the first `=`.
pub open spec fn key_of(l: Seq<char>) -> Seq<char> {
    l.take(first_eq(l, 0))
}

/// The value of a `key=value` line: everything after the first `=`.
pub open spec fn value_of(l: Seq<char>) -> Seq<char> {
    l.subrange(first_eq(l, 0) + 1, l.len() as int)
}

/// The value the request carries under `key`: the last `key=value` line
/// before the first blank line wins; lines after the blank line say
/// nothing.
pub open spec fn attr_lookup(lines: Seq<Seq<char>>, key: Seq<char>) -> Option<Seq<char>>
    decreases lines.len(),
{
    if lines.len() == 0 {
        None
    } else if lines[0].len() == 0 {
        None
    } else {
        let rest = attr_lookup(lines.drop_first(), key);
        if rest is Some {
            rest
        } else if has_eq(lines[0]) && key_of(lines[0]) == key {
            Some(value_of(lines[0]))
        } else {
            None
        }
    }
}

/// The looked-up value, with a missing key read as the empty string.
pub open spec fn attr_or_empty(lines: Seq<Seq<char>>, key: Seq<char>) -> Seq<char> {
    match attr_lookup(lines, key) {
        Some(v) => v,
        None => Seq::empty(),
    }
}

/// The first of the two options that holds a value, if either does.
pub open spec fn first_some(a: Option<Seq<char>>, b: Option<Seq<char>>) -> Option<Seq<char>> {
    if a is Some {
        a
    } else {
        b
    }
}

/// The view of an optional owned string.
pub open spec fn view_opt(o: Option<String>) -> Option<Seq<char>> {
    match o {
        Some(s) => Some(s@),
        None => None,
    }
}

/// Peeling one non-blank line off the front: a later value wins over the
/// line's own, which wins over nothing.
proof fn lemma_attr_step(lines: Seq<Seq<char>>, i: int, key: Seq<char>)
    requires
        0 <= i < lines.len(),
        lines[i].len() != 0,
    ensures
        attr_lookup(lines.subrange(i, lines.len() as int), key) == first_some(
            attr_lookup(lines.subrange(i + 1, lines.len() as int), key),
            if has_eq(lines[i]) && key_of(lines[i]) == key {
                Some(value_of(lines[i]))
            } else {
                None
            },
        ),
{
    let suf = lines.subrange(i, lines.len() as int);
    assert(suf[0] == lines[i]);
    assert(suf.drop_first() =~= lines.subrange(i + 1, lines.len() as int));
}

/// Finds the first `=` of `line`, as [`first_eq`] names it.
fn find_eq(line: &str) -> (r: usize)
    ensures
        r == first_eq(line@, 0),
        r <= line@.len(),
{
    let n = line.unicode_len();
    let mut j: usize = 0;
    while j < n
        invariant
            j <= n,
            n == line@.len(),
            first_eq(line@, 0) == first_eq(line@, j as int),
        decreases n - j,
    {
        if line.get_char(j) == '=' {
            return j;
        }
        j = j + 1;
    }
    n
}

/// Parses one git credential request from its lines, in the order they
/// were read. The protocol and host default to the empty string; a
/// username or password is kept only when a line supplies one.
#[verifier::rlimit(50)]
pub fn parse_credential_request(lines: &Vec<String>) -> (r: CredentialRequest)
    ensures
        r.protocol@ == attr_or_empty(lines.deep_view(), "protocol"@),
        r.host@ == attr_or_empty(lines.deep_view(), "host"@),
        view_opt(r.username) == attr_lookup(lines.deep_view(), "username"@),
        view_opt(r.password) == attr_lookup(lines.deep_view(), "password"@),
{
    let ghost all = lines.deep_view();
    let key_protocol: String = "protocol".to_owned();
    let key_host: String = "host".to_owned();
    let key_username: String = "username".to_owned();
    let key_password: String = "password".to_owned();
    let mut protocol: Option<String> = None;
    let mut host: Option<String> = None;
    let mut username: Option<String> = None;
    let mut password: Option<String> = None;
    let mut i: usize = 0;
    let mut done = false;
    proof {
        assert(all.subrange(0, all.len() as int) =~= all);
    }
    while i < lines.len() && !done
        invariant
            i <= lines@.len(),
            all == lines.deep_view(),
            all.len() == lines@.len(),
            key_protocol@ == "protocol"@,
            key_host@ == "host"@,
            key_username@ == "username"@,
            key_password@ == "password"@,
            done ==> attr_lookup(all.subrange(i as int, all.len() as int), "protocol"@) is None
                && attr_lookup(all.subrange(i as int, all.len() as int), "host"@) is None
                && attr_lookup(all.subrange(i as int, all.len() as int), "username"@) is None
                && attr_lookup(all.subrange(i as int, all.len() as int), "password"@) is None,
            attr_lookup(all, "protocol"@) == first_some(
                attr_lookup(all.subrange(i as int, all.len() as int), "protocol"@),
                view_opt(protocol),
            ),
            attr_lookup(all, "host"@) == first_some(
                attr_lookup(all.subrange(i as int, all.len() as int), "host"@),
                view_opt(host),
            ),
            attr_lookup(all, "username"@) == first_some(
                attr_lookup(all.subrange(i as int, all.len() as int), "username"@),
                view_opt(username),
            ),
            attr_lookup(all, "password"@) == first_some(
                attr_lookup(all.subrange(i as int, all.len() as int), "password"@),
                view_opt(password),
            ),
        decreases lines@.len() - i + (if done { 0int } else { 1int }),
    {
        let line: &String = &lines[i];
        proof {
            assert(all[i as int] == line@);
        }
        let n = line.as_str().unicode_len();
        if n == 0 {
            proof {
                assert(all.subrange(i as int, all.len() as int)[0] == all[i as int]);
            }
            done = true;
        } else {
            let eqpos = find_eq(line.as_str());
            proof {
                reveal_strlit("protocol");
                reveal_strlit("host");
                reveal_strlit("username");
                reveal_strlit("password");
                lemma_attr_step(all, i as int, "protocol"@);
                lemma_attr_step(all, i as int, "host"@);
                lemma_attr_step(all, i as int, "username"@);
                lemma_attr_step(all, i as int, "password"@);
                assert("protocol"@[0] == 'p' && "protocol"@[1] == 'r');
                assert("host"@[0] == 'h');
                assert("username"@[0] == 'u');
                assert("password"@[0] == 'p' && "password"@[1] == 'a');
            }
            if eqpos < n {
                let key = line.as_str().substring_char(0, eqpos).to_owned();
                let value = line.as_str().substring_char(eqpos + 1, n).to_owned();
                proof {
                    assert(key@ =~= key_of(line@));
                    assert(value@ =~= value_of(line@));
                }
                if key == key_protocol {
                    protocol = Some(value);
                } else if key == key_host {
                    host = Some(value);
                } else if key == key_username {
                    username = Some(value);
                } else if key == key_password {
                    password = Some(value);
                }
            } else {
                proof {
                    assert(!has_eq(line@));
                }
            }
            i = i + 1;
        }
    }
    proof {
        if !done {
            assert(all.subrange(i as int, all.len() as int) =~= Seq::<Seq<char>>::empty());
        }
    }
    let protocol_s = match protocol {
        Some(p) => p,
        None => String::new(),
    };
    let host_s = match host {
        Some(h) => h,
        None => String::new(),
    };
    CredentialRequest { protocol: protocol_s, host: host_s, username, password }
}

} // verus!
