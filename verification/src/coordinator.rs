//! Approval coordinator: the registry of in-flight signing requests.
//!
//! Each registered request id waits for exactly one decision. A decision
//! moves the entry from the pending registry to a delivery slot its waiter
//! drains; a timeout removes the entry outright. Check-and-remove is a
//! single step on the registry value, so a resolution and a timeout can
//! never both claim the same id.

use vstd::prelude::*;

verus! {

/// A human decision on one signing request.
#[derive(Clone, Copy, Debug, PartialEq, Eq, Structural)]
pub enum Decision {
    Approved,
    Denied,
}

/// How one wait for a decision ends.
#[derive(Clone, Copy, Debug, PartialEq, Eq, Structural)]
pub enum Outcome {
    Approved,
    Denied,
    TimedOut,
    CoordinatorError,
}

/// Why a resolution was refused. A stale or duplicate callback is
/// expected and non-fatal: its id is simply no longer registered.
#[derive(Clone, Copy, Debug, PartialEq, Eq, Structural)]
pub enum ResolveError {
    NotFound,
}

/// Why a registration was refused.
#[derive(Clone, Copy, Debug, PartialEq, Eq, Structural)]
pub enum RegisterError {
    IdCollision,
}

/// One signing request awaiting a decision.
#[derive(Clone, Copy, Debug)]
pub struct PendingApproval {
    pub request_id: u128,
    pub created_at: u64,
}

/// The outcome a decision delivers to its waiter.
pub open spec fn outcome_of(d: Decision) -> Outcome {
    match d {
        Decision::Approved => Outcome::Approved,
        Decision::Denied => Outcome::Denied,
    }
}

/// The registry of in-flight signing requests and of decisions not yet
/// drained by their waiters.
pub struct Coordinator {
    pending: Vec<PendingApproval>,
    delivered: Vec<(u128, Decision)>,
}

/// Whether some entry of `s` carries `id`.
spec fn pending_has(s: Seq<PendingApproval>, id: u128) -> bool {
    exists|i: int| 0 <= i < s.len() && s[i].request_id == id
}

/// The registration time of the entry of `s` that carries `id`.
spec fn pending_time(s: Seq<PendingApproval>, id: u128) -> u64 {
    s[choose|i: int| 0 <= i < s.len() && s[i].request_id == id].created_at
}

/// Whether some entry of `s` records a decision under `id`.
spec fn delivered_has(s: Seq<(u128, Decision)>, id: u128) -> bool {
    exists|i: int| 0 <= i < s.len() && s[i].0 == id
}

/// The decision recorded in `s` under `id`, if one is.
spec fn delivered_lookup(s: Seq<(u128, Decision)>, id: u128) -> Option<Decision> {
    if delivered_has(s, id) {
        Some(s[choose|i: int| 0 <= i < s.len() && s[i].0 == id].1)
    } else {
        None
    }
}

impl Coordinator {
    /// Whether `id` is registered and still undecided.
    pub closed spec fn is_pending(self, id: u128) -> bool {
        pending_has(self.pending@, id)
    }

    /// When the pending request `id` was registered.
    pub closed spec fn created_at(self, id: u128) -> u64 {
        pending_time(self.pending@, id)
    }

    /// The decision delivered for `id` and not yet drained by its waiter.
    pub closed spec fn delivered_for(self, id: u128) -> Option<Decision> {
        delivered_lookup(self.delivered@, id)
    }

    /// Every id appears at most once, and never both pending and delivered.
    pub closed spec fn wf(self) -> bool {
        &&& (forall|i: int, j: int|
            0 <= i < j < self.pending@.len() ==> self.pending@[i].request_id
                != self.pending@[j].request_id)
        &&& (forall|i: int, j: int|
            0 <= i < j < self.delivered@.len() ==> self.delivered@[i].0 != self.delivered@[j].0)
        &&& (forall|i: int, j: int|
            0 <= i < self.pending@.len() && 0 <= j < self.delivered@.len()
                ==> self.pending@[i].request_id != self.delivered@[j].0)
    }

    /// An empty registry.
    pub fn new() -> (r: Coordinator)
        ensures
            r.wf(),
            forall|id: u128| !r.is_pending(id),
            forall|id: u128| r.delivered_for(id) is None,
    {
        Coordinator { pending: Vec::new(), delivered: Vec::new() }
    }

    /// Whether `id` is registered and still undecided.
    pub fn contains_pending(&self, id: u128) -> (r: bool)
        ensures
            r == self.is_pending(id),
    {
        let mut i: usize = 0;
        while i < self.pending.len()
            invariant
                i <= self.pending@.len(),
                forall|k: int| 0 <= k < i ==> self.pending@[k].request_id != id,
            decreases self.pending@.len() - i,
        {
            if self.pending[i].request_id == id {
                return true;
            }
            i = i + 1;
        }
        false
    }
}

/// No id's registration or undrained decision differs between two
/// registry states.
pub open spec fn same_entries(pre: Coordinator, post: Coordinator) -> bool {
    &&& (forall|j: u128| post.is_pending(j) == pre.is_pending(j))
    &&& (forall|j: u128| pre.is_pending(j) ==> post.created_at(j) == pre.created_at(j))
    &&& (forall|j: u128| post.delivered_for(j) == pre.delivered_for(j))
}

/// No id but `id` has its registration or undrained decision touched.
pub open spec fn others_unchanged(pre: Coordinator, post: Coordinator, id: u128) -> bool {
    &&& (forall|j: u128| j != id ==> post.is_pending(j) == pre.is_pending(j))
    &&& (forall|j: u128| j != id && pre.is_pending(j) ==> post.created_at(j) == pre.created_at(j))
    &&& (forall|j: u128| j != id ==> post.delivered_for(j) == pre.delivered_for(j))
}

/// What `register_with_id` establishes: a fresh id is registered at
/// `now`; an id already pending or awaiting its waiter is refused.
pub open spec fn register_post(
    pre: Coordinator,
    post: Coordinator,
    id: u128,
    now: u64,
    r: Result<(), RegisterError>,
) -> bool {
    &&& (r is Ok <==> !pre.is_pending(id) && pre.delivered_for(id) is None)
    &&& (r is Ok ==> r == Ok::<(), RegisterError>(()))
    &&& (r is Err ==> r == Err::<(), RegisterError>(RegisterError::IdCollision) && same_entries(
        pre,
        post,
    ))
    &&& (r is Ok ==> post.is_pending(id) && post.created_at(id) == now && post.delivered_for(id)
        is None)
    &&& others_unchanged(pre, post, id)
}

/// What `resolve` establishes: the first resolution of a pending id
/// claims it; every other call is refused with `NotFound` and changes
/// nothing. Either way the id is pending no longer.
pub open spec fn resolve_post(
    pre: Coordinator,
    post: Coordinator,
    id: u128,
    d: Decision,
    r: Result<(), ResolveError>,
) -> bool {
    &&& (r is Ok <==> pre.is_pending(id))
    &&& (r is Ok ==> r == Ok::<(), ResolveError>(()))
    &&& (r is Err ==> r == Err::<(), ResolveError>(ResolveError::NotFound) && same_entries(
        pre,
        post,
    ))
    &&& !post.is_pending(id)
    &&& (pre.is_pending(id) ==> post.delivered_for(id) == Some(d))
    &&& others_unchanged(pre, post, id)
}

/// What `await_decision` establishes: a delivered decision is drained and
/// reported; an undecided id past its deadline is removed and reported
/// `TimedOut`; an undecided id before it waits on; an unknown id is an
/// error. After `TimedOut` the registry holds nothing for the id, so a
/// later decision finds nothing to resolve.
pub open spec fn await_post(
    pre: Coordinator,
    post: Coordinator,
    id: u128,
    now: u64,
    timeout: u64,
    r: Option<Outcome>,
) -> bool {
    &&& (match pre.delivered_for(id) {
        Some(d) => r == Some(outcome_of(d)) && post.delivered_for(id) is None
            && post.is_pending(id) == pre.is_pending(id),
        None => if pre.is_pending(id) {
            if now >= pre.created_at(id) + timeout {
                &&& r == Some(Outcome::TimedOut)
                &&& !post.is_pending(id)
                &&& post.delivered_for(id) is None
            } else {
                &&& r is None
                &&& post.is_pending(id)
                &&& post.created_at(id) == pre.created_at(id)
                &&& post.delivered_for(id) is None
            }
        } else {
            &&& r == Some(Outcome::CoordinatorError)
            &&& !post.is_pending(id)
            &&& post.delivered_for(id) is None
        },
    })
    &&& others_unchanged(pre, post, id)
}

/// Relies on uuid::Uuid::new_v4, an identifier drawn from the process's
/// random source, read back as its 128-bit value; nothing is promised of
/// the value, and freshness is checked against the registry instead.
#[verifier::external_body]
fn fresh_request_id() -> (r: u128) {
    uuid::Uuid::new_v4().as_u128()
}

impl Coordinator {
    /// Registers `id` as pending from time `now`, unless the registry
    /// already holds it.
    pub fn register_with_id(&mut self, id: u128, now: u64) -> (r: Result<(), RegisterError>)
        requires
            old(self).wf(),
        ensures
            final(self).wf(),
            register_post(*old(self), *final(self), id, now, r),
    {
        if self.contains_pending(id) {
            return Err(RegisterError::IdCollision);
        }
        let mut i: usize = 0;
        while i < self.delivered.len()
            invariant
                old(self).wf(),
                self.pending@ == old(self).pending@,
                self.delivered@ == old(self).delivered@,
                i <= self.delivered@.len(),
                forall|k: int| 0 <= k < i ==> self.delivered@[k].0 != id,
            decreases self.delivered@.len() - i,
        {
            if self.delivered[i].0 == id {
                return Err(RegisterError::IdCollision);
            }
            i = i + 1;
        }
        self.pending.push(PendingApproval { request_id: id, created_at: now });
        proof {
            let n = self.pending@.len() - 1;
            assert(self.pending@[n].request_id == id);
            assert(forall|j: u128|
                j != id ==> self.is_pending(j) == old(self).is_pending(j)) by {
                assert(forall|k: int| 0 <= k < n ==> self.pending@[k] == old(self).pending@[k]);
            }
            assert(self.created_at(id) == now) by {
                assert(forall|k: int| 0 <= k < n ==> self.pending@[k].request_id != id);
            }
            assert(forall|j: u128|
                j != id && old(self).is_pending(j) ==> self.created_at(j) == old(self).created_at(
                    j,
                )) by {
                assert(forall|k: int| 0 <= k < n ==> self.pending@[k] == old(self).pending@[k]);
            }
        }
        Ok(())
    }

    /// Allocates a fresh request id, registers it as pending from time
    /// `now`, and returns it. Ids are drawn at random, so a collision with
    /// a live id is possible and reported rather than resolved silently.
    pub fn register(&mut self, now: u64) -> (r: Result<u128, RegisterError>)
        requires
            old(self).wf(),
        ensures
            final(self).wf(),
            match r {
                Ok(id) => register_post(
                    *old(self),
                    *final(self),
                    id,
                    now,
                    Ok::<(), RegisterError>(()),
                ),
                Err(e) => e == RegisterError::IdCollision && same_entries(*old(self), *final(self)),
            },
    {
        let id = fresh_request_id();
        let r = self.register_with_id(id, now);
        match r {
            Ok(u) => {
                proof {
                    assert(r == Ok::<(), RegisterError>(()));
                }
                Ok(id)
            },
            Err(e) => Err(e),
        }
    }
}

/// Removing the one entry that carries `id` from a duplicate-free
/// registry leaves every other id's entry, and `id`'s none.
proof fn lemma_pending_remove(op: Seq<PendingApproval>, i: int, id: u128)
    requires
        0 <= i < op.len(),
        op[i].request_id == id,
        forall|a: int, b: int| 0 <= a < b < op.len() ==> op[a].request_id != op[b].request_id,
    ensures
        !pending_has(op.remove(i), id),
        forall|j: u128| j != id ==> pending_has(op.remove(i), j) == pending_has(op, j),
        forall|j: u128|
            j != id && pending_has(op, j) ==> pending_time(op.remove(i), j) == pending_time(op, j),
        forall|a: int, b: int|
            0 <= a < b < op.remove(i).len() ==> op.remove(i)[a].request_id
                != op.remove(i)[b].request_id,
        forall|k: int|
            0 <= k < op.remove(i).len() ==> #[trigger] pending_has(op, op.remove(i)[k].request_id),
{
    let np = op.remove(i);
    assert forall|k: int| 0 <= k < np.len() implies #[trigger] pending_has(
        op,
        np[k].request_id,
    ) by {
        if k < i {
            assert(np[k] == op[k]);
        } else {
            assert(np[k] == op[k + 1]);
        }
    }
    assert forall|k: int| 0 <= k < np.len() implies np[k].request_id != id by {
        if k < i {
            assert(np[k] == op[k]);
        } else {
            assert(np[k] == op[k + 1]);
        }
    }
    assert forall|j: u128| j != id implies pending_has(np, j) == pending_has(op, j) by {
        if pending_has(op, j) {
            let w = choose|k: int| 0 <= k < op.len() && op[k].request_id == j;
            if w < i {
                assert(np[w] == op[w]);
            } else {
                assert(np[w - 1] == op[w]);
            }
        }
        if pending_has(np, j) {
            let w = choose|k: int| 0 <= k < np.len() && np[k].request_id == j;
            if w < i {
                assert(np[w] == op[w]);
            } else {
                assert(np[w] == op[w + 1]);
            }
        }
    }
    assert forall|j: u128| j != id && pending_has(op, j) implies pending_time(np, j)
        == pending_time(op, j) by {
        let co = choose|k: int| 0 <= k < op.len() && op[k].request_id == j;
        assert(pending_has(np, j));
        let cn = choose|k: int| 0 <= k < np.len() && np[k].request_id == j;
        if cn < i {
            assert(np[cn] == op[cn]);
        } else {
            assert(np[cn] == op[cn + 1]);
        }
    }
    assert forall|a: int, b: int| 0 <= a < b < np.len() implies np[a].request_id
        != np[b].request_id by {
        if b < i {
            assert(np[a] == op[a] && np[b] == op[b]);
        } else if a < i {
            assert(np[a] == op[a] && np[b] == op[b + 1]);
        } else {
            assert(np[a] == op[a + 1] && np[b] == op[b + 1]);
        }
    }
}

/// Removing the one entry that carries `id` from a duplicate-free
/// delivery list leaves every other id's decision, and `id`'s none.
proof fn lemma_delivered_remove(od: Seq<(u128, Decision)>, i: int, id: u128)
    requires
        0 <= i < od.len(),
        od[i].0 == id,
        forall|a: int, b: int| 0 <= a < b < od.len() ==> od[a].0 != od[b].0,
    ensures
        delivered_lookup(od.remove(i), id) is None,
        forall|j: u128|
            j != id ==> delivered_lookup(od.remove(i), j) == delivered_lookup(od, j),
        forall|a: int, b: int| 0 <= a < b < od.remove(i).len() ==> od.remove(i)[a].0
            != od.remove(i)[b].0,
        forall|k: int|
            0 <= k < od.remove(i).len() ==> #[trigger] delivered_has(od, od.remove(i)[k].0),
{
    let nd = od.remove(i);
    assert forall|k: int| 0 <= k < nd.len() implies #[trigger] delivered_has(od, nd[k].0) by {
        if k < i {
            assert(nd[k] == od[k]);
        } else {
            assert(nd[k] == od[k + 1]);
        }
    }
    assert forall|k: int| 0 <= k < nd.len() implies nd[k].0 != id by {
        if k < i {
            assert(nd[k] == od[k]);
        } else {
            assert(nd[k] == od[k + 1]);
        }
    }
    assert forall|j: u128| j != id implies delivered_lookup(nd, j) == delivered_lookup(od, j) by {
        if exists|k: int| 0 <= k < od.len() && od[k].0 == j {
            let w = choose|k: int| 0 <= k < od.len() && od[k].0 == j;
            if w < i {
                assert(nd[w] == od[w]);
            } else {
                assert(nd[w - 1] == od[w]);
            }
            let cn = choose|k: int| 0 <= k < nd.len() && nd[k].0 == j;
            if cn < i {
                assert(nd[cn] == od[cn]);
            } else {
                assert(nd[cn] == od[cn + 1]);
            }
        } else {
            if exists|k: int| 0 <= k < nd.len() && nd[k].0 == j {
                let w = choose|k: int| 0 <= k < nd.len() && nd[k].0 == j;
                if w < i {
                    assert(nd[w] == od[w]);
                } else {
                    assert(nd[w] == od[w + 1]);
                }
            }
        }
    }
    assert forall|a: int, b: int| 0 <= a < b < nd.len() implies nd[a].0 != nd[b].0 by {
        if b < i {
            assert(nd[a] == od[a] && nd[b] == od[b]);
        } else if a < i {
            assert(nd[a] == od[a] && nd[b] == od[b + 1]);
        } else {
            assert(nd[a] == od[a + 1] && nd[b] == od[b + 1]);
        }
    }
}

/// Recording a decision under an id the delivery list does not hold
/// makes it the one decision for that id and touches no other.
proof fn lemma_delivered_push(od: Seq<(u128, Decision)>, id: u128, d: Decision)
    requires
        forall|k: int| 0 <= k < od.len() ==> od[k].0 != id,
        forall|a: int, b: int| 0 <= a < b < od.len() ==> od[a].0 != od[b].0,
    ensures
        delivered_lookup(od.push((id, d)), id) == Some(d),
        forall|j: u128| j != id ==> delivered_lookup(od.push((id, d)), j) == delivered_lookup(od, j),
        forall|a: int, b: int| 0 <= a < b < od.push((id, d)).len() ==> od.push((id, d))[a].0
            != od.push((id, d))[b].0,
{
    let nd = od.push((id, d));
    assert(nd[od.len() as int].0 == id);
    assert(delivered_lookup(nd, id) == Some(d)) by {
        let c = choose|k: int| 0 <= k < nd.len() && nd[k].0 == id;
        assert(c == od.len());
    }
    assert forall|j: u128| j != id implies delivered_lookup(nd, j) == delivered_lookup(od, j) by {
        if exists|k: int| 0 <= k < od.len() && od[k].0 == j {
            let w = choose|k: int| 0 <= k < od.len() && od[k].0 == j;
            assert(nd[w].0 == j);
            let cn = choose|k: int| 0 <= k < nd.len() && nd[k].0 == j;
            assert(cn < od.len());
            assert(nd[cn] == od[cn]);
        } else {
            if exists|k: int| 0 <= k < nd.len() && nd[k].0 == j {
                let w = choose|k: int| 0 <= k < nd.len() && nd[k].0 == j;
                assert(w < od.len());
                assert(nd[w] == od[w]);
            }
        }
    }
}

impl Coordinator {
    /// Delivers `d` for `id` if `id` is pending: the entry leaves the
    /// pending registry and the decision waits for its waiter. A stale,
    /// duplicate or unknown id is refused with `NotFound` and nothing
    /// changes. Lookup and removal are one step, so no decision is ever
    /// delivered twice.
    pub fn resolve(&mut self, id: u128, d: Decision) -> (r: Result<(), ResolveError>)
        requires
            old(self).wf(),
        ensures
            final(self).wf(),
            resolve_post(*old(self), *final(self), id, d, r),
    {
        let mut i: usize = 0;
        while i < self.pending.len()
            invariant
                old(self).wf(),
                self.pending@ == old(self).pending@,
                self.delivered@ == old(self).delivered@,
                i <= self.pending@.len(),
                forall|k: int| 0 <= k < i ==> self.pending@[k].request_id != id,
            decreases self.pending@.len() - i,
        {
            if self.pending[i].request_id == id {
                self.pending.remove(i);
                self.delivered.push((id, d));
                proof {
                    lemma_pending_remove(old(self).pending@, i as int, id);
                    assert(forall|k: int|
                        0 <= k < old(self).delivered@.len() ==> old(self).delivered@[k].0 != id);
                    lemma_delivered_push(old(self).delivered@, id, d);
                    assert forall|a: int, b: int|
                        0 <= a < self.pending@.len() && 0 <= b < self.delivered@.len() implies self
                        .pending@[a].request_id != self.delivered@[b].0 by {
                        assert(pending_has(old(self).pending@, self.pending@[a].request_id));
                        let m = choose|m: int|
                            0 <= m < old(self).pending@.len() && old(self).pending@[m].request_id
                                == self.pending@[a].request_id;
                        if b < old(self).delivered@.len() {
                            assert(self.delivered@[b] == old(self).delivered@[b]);
                        } else {
                            assert(self.delivered@[b].0 == id);
                            assert(!pending_has(self.pending@, id));
                        }
                    }
                }
                return Ok(());
            }
            i = i + 1;
        }
        Err(ResolveError::NotFound)
    }

    /// One poll of the wait for `id`'s decision, at time `now` under the
    /// configured `timeout`. A delivered decision is drained and turned
    /// into its outcome; an undecided id whose deadline has passed is
    /// removed for good and reported `TimedOut`; an undecided id within
    /// its deadline keeps waiting (`None`); an id the registry does not
    /// know is a coordinator error.
    pub fn await_decision(&mut self, id: u128, now: u64, timeout: u64) -> (r: Option<Outcome>)
        requires
            old(self).wf(),
        ensures
            final(self).wf(),
            await_post(*old(self), *final(self), id, now, timeout, r),
    {
        let mut i: usize = 0;
        while i < self.delivered.len()
            invariant
                old(self).wf(),
                self.pending@ == old(self).pending@,
                self.delivered@ == old(self).delivered@,
                i <= self.delivered@.len(),
                forall|k: int| 0 <= k < i ==> self.delivered@[k].0 != id,
            decreases self.delivered@.len() - i,
        {
            if self.delivered[i].0 == id {
                let d = self.delivered[i].1;
                self.delivered.remove(i);
                proof {
                    let od = old(self).delivered@;
                    assert(delivered_has(od, id));
                    let c = choose|k: int| 0 <= k < od.len() && od[k].0 == id;
                    assert(c == i) by {
                        if c < i {
                            assert(od[c].0 != od[i as int].0);
                        } else if c > i {
                            assert(od[i as int].0 != od[c].0);
                        }
                    }
                    assert(old(self).delivered_for(id) == Some(d));
                    lemma_delivered_remove(od, i as int, id);
                }
                return Some(
                    match d {
                        Decision::Approved => Outcome::Approved,
                        Decision::Denied => Outcome::Denied,
                    },
                );
            }
            i = i + 1;
        }
        let mut p: usize = 0;
        while p < self.pending.len()
            invariant
                old(self).wf(),
                self.pending@ == old(self).pending@,
                self.delivered@ == old(self).delivered@,
                forall|k: int| 0 <= k < self.delivered@.len() ==> self.delivered@[k].0 != id,
                p <= self.pending@.len(),
                forall|k: int| 0 <= k < p ==> self.pending@[k].request_id != id,
            decreases self.pending@.len() - p,
        {
            if self.pending[p].request_id == id {
                let created = self.pending[p].created_at;
                proof {
                    let op = old(self).pending@;
                    let c = choose|k: int| 0 <= k < op.len() && op[k].request_id == id;
                    assert(c == p) by {
                        if c < p {
                            assert(op[c].request_id != op[p as int].request_id);
                        } else if c > p {
                            assert(op[p as int].request_id != op[c].request_id);
                        }
                    }
                    assert(old(self).created_at(id) == created);
                }
                if now >= created && now - created >= timeout {
                    self.pending.remove(p);
                    proof {
                        lemma_pending_remove(old(self).pending@, p as int, id);
                    }
                    return Some(Outcome::TimedOut);
                } else {
                    return None;
                }
            }
            p = p + 1;
        }
        Some(Outcome::CoordinatorError)
    }
}

/// At-most-one resolution: the first resolve of a pending id succeeds
/// and claims the id; a second resolve of the same id, whatever decision
/// it carries, is refused with `NotFound`.
pub proof fn lemma_at_most_one_resolution(
    pre: Coordinator,
    mid: Coordinator,
    post: Coordinator,
    id: u128,
    d1: Decision,
    d2: Decision,
    r1: Result<(), ResolveError>,
    r2: Result<(), ResolveError>,
)
    requires
        pre.is_pending(id),
        resolve_post(pre, mid, id, d1, r1),
        resolve_post(mid, post, id, d2, r2),
    ensures
        r1 == Ok::<(), ResolveError>(()),
        r2 == Err::<(), ResolveError>(ResolveError::NotFound),
{
    match r2 {
        Ok(u) => {
            assert(r2 == Ok::<(), ResolveError>(()));
        },
        Err(e) => {
        },
    }
}

/// A wait that ended `TimedOut` has removed the id for good: a decision
/// arriving afterwards finds nothing to resolve and is refused.
pub proof fn lemma_no_resolution_after_timeout(
    pre: Coordinator,
    mid: Coordinator,
    post: Coordinator,
    id: u128,
    now: u64,
    timeout: u64,
    d: Decision,
    r: Result<(), ResolveError>,
)
    requires
        await_post(pre, mid, id, now, timeout, Some(Outcome::TimedOut)),
        resolve_post(mid, post, id, d, r),
    ensures
        r == Err::<(), ResolveError>(ResolveError::NotFound),
{
    match pre.delivered_for(id) {
        Some(d0) => {
            assert(outcome_of(d0) != Outcome::TimedOut);
        },
        None => {
        },
    }
    match r {
        Ok(u) => {
            assert(r == Ok::<(), ResolveError>(()));
        },
        Err(e) => {
        },
    }
}

/// Timeout determinism: when no decision has been delivered for a
/// pending id and its deadline has passed, the wait ends `TimedOut` and
/// the registry no longer holds the id in any form.
pub proof fn lemma_timeout_determinism(
    pre: Coordinator,
    post: Coordinator,
    id: u128,
    now: u64,
    timeout: u64,
    r: Option<Outcome>,
)
    requires
        pre.is_pending(id),
        pre.delivered_for(id) is None,
        now >= pre.created_at(id) + timeout,
        await_post(pre, post, id, now, timeout, r),
    ensures
        r == Some(Outcome::TimedOut),
        !post.is_pending(id),
        post.delivered_for(id) is None,
{
}

/// The other face of timeout determinism: a decision delivered in time
/// is what the wait reports, never `TimedOut`.
pub proof fn lemma_decision_delivered_in_time(
    pre: Coordinator,
    post: Coordinator,
    id: u128,
    now: u64,
    timeout: u64,
    d: Decision,
    r: Option<Outcome>,
)
    requires
        pre.delivered_for(id) == Some(d),
        await_post(pre, post, id, now, timeout, r),
    ensures
        r == Some(outcome_of(d)),
        r != Some(Outcome::TimedOut),
{
}

} // verus!
