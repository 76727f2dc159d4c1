//! What holds of the registry whatever is reserved and released, stated
//! over the table of holders.

use vstd::prelude::*;
use crate::base::Holders;
use crate::id::ResourceIdView;
use crate::location::LocationView;
use crate::manager::{consistent, feasible, granted, holders_of, holds_any, released, same_holders, Table};
use crate::set::Request;

verus! {

/// `who` holds nothing in `t`.
pub open spec fn absent_from(t: Table, who: LocationView) -> bool {
    forall|id: ResourceIdView| !(#[trigger] holders_of(t, id)).held_by(who)
}

/// `who` holds nothing in `t` outside `held`.
pub open spec fn holds_within(t: Table, held: Set<ResourceIdView>, who: LocationView) -> bool {
    forall|id: ResourceIdView| (#[trigger] holders_of(t, id)).held_by(who) ==> held.contains(id)
}

/// The two requests cannot be held at once: one of them wants
/// exclusively what the other mentions.
pub open spec fn conflicting(a: Request, b: Request) -> bool {
    exists|id: ResourceIdView|
        #![trigger a.mentions(id), b.mentions(id)]
        a.mentions(id) && b.mentions(id) && (a.exclusive.contains(id) || b.exclusive.contains(id))
}

/// A table without entries is consistent.
pub proof fn lemma_empty_consistent()
    ensures
        consistent(Map::<ResourceIdView, Holders>::empty()),
{
}

/// Granting a feasible request keeps every entry consistent: no entry
/// ends up with an owner and users.
pub proof fn lemma_granted_consistent(t: Table, req: Request, who: LocationView)
    requires
        consistent(t),
        feasible(t, req),
    ensures
        consistent(granted(t, req, who)),
{
    let g = granted(t, req, who);
    assert forall|id: ResourceIdView| #[trigger] holders_of(g, id).consistent() by {
        assert(holders_of(t, id).consistent());
        if req.exclusive.contains(id) {
            assert(holders_of(t, id).admits_exclusive());
        } else if req.shared.contains(id) {
            assert(holders_of(t, id).admits_shared());
        }
    }
}

/// Releasing keeps every entry consistent.
pub proof fn lemma_released_consistent(t: Table, held: Set<ResourceIdView>, who: LocationView)
    requires
        consistent(t),
    ensures
        consistent(released(t, held, who)),
{
    let r = released(t, held, who);
    assert forall|id: ResourceIdView| #[trigger] holders_of(r, id).consistent() by {
        assert(holders_of(t, id).consistent());
        if t.dom().contains(id) && held.contains(id) && t[id].owner is Some {
            assert(t[id].users.remove(who) =~= Set::<LocationView>::empty());
        }
    }
}

/// After a grant the holder owns every resource it asked for
/// exclusively, is a user of every resource it asked to share, and no
/// other entry has changed.
pub proof fn lemma_granted_holds(t: Table, req: Request, who: LocationView)
    requires
        req.normal(),
    ensures
        forall|id: ResourceIdView|
            req.exclusive.contains(id) ==> (#[trigger] holders_of(granted(t, req, who), id)).owner
                == Some(who),
        forall|id: ResourceIdView|
            req.shared.contains(id) ==> (#[trigger] holders_of(granted(t, req, who), id)).users.contains(
                who,
            ) && holders_of(granted(t, req, who), id).owner == holders_of(t, id).owner,
        forall|id: ResourceIdView|
            !req.mentions(id) ==> #[trigger] holders_of(granted(t, req, who), id) == holders_of(
                t,
                id,
            ),
{
}

/// A holder that held nothing before a grant holds, after it, exactly
/// the resources of its request.
pub proof fn lemma_granted_holds_exactly(t: Table, req: Request, who: LocationView)
    requires
        req.normal(),
        absent_from(t, who),
    ensures
        forall|id: ResourceIdView|
            (#[trigger] holders_of(granted(t, req, who), id)).held_by(who) <==> req.mentions(id),
        holds_within(granted(t, req, who), req.all(), who),
{
    let g = granted(t, req, who);
    assert forall|id: ResourceIdView| (#[trigger] holders_of(g, id)).held_by(who) <==> req.mentions(
        id,
    ) by {
        assert(!holders_of(t, id).held_by(who));
    }
}

/// Other holders' grants and releases do not touch what `who` holds.
pub proof fn lemma_others_keep_holdings(
    t: Table,
    req: Request,
    held: Set<ResourceIdView>,
    who: LocationView,
    other: LocationView,
)
    requires
        who != other,
        feasible(t, req),
    ensures
        forall|id: ResourceIdView|
            (#[trigger] holders_of(granted(t, req, other), id)).held_by(who) == holders_of(
                t,
                id,
            ).held_by(who),
        forall|id: ResourceIdView|
            (#[trigger] holders_of(released(t, held, other), id)).held_by(who) == holders_of(
                t,
                id,
            ).held_by(who),
{
    assert forall|id: ResourceIdView|
        (#[trigger] holders_of(granted(t, req, other), id)).held_by(who) == holders_of(
            t,
            id,
        ).held_by(who) by {
        if req.exclusive.contains(id) {
            assert(holders_of(t, id).admits_exclusive());
        }
    }
}

/// After a release the holder is in no entry of the released resources,
/// in either role; and where it held nothing else, it is in no entry at
/// all.
pub proof fn lemma_released_scrubs(t: Table, held: Set<ResourceIdView>, who: LocationView)
    ensures
        forall|id: ResourceIdView|
            held.contains(id) ==> !(#[trigger] holders_of(released(t, held, who), id)).held_by(who),
        holds_within(t, held, who) ==> absent_from(released(t, held, who), who),
{
    let r = released(t, held, who);
    if holds_within(t, held, who) {
        assert forall|id: ResourceIdView| !(#[trigger] holders_of(r, id)).held_by(who) by {
            assert(holders_of(t, id).held_by(who) ==> held.contains(id));
        }
    }
}

/// Reserving and then releasing leaves every resource held as before,
/// for a holder that held nothing to begin with.
pub proof fn lemma_release_undoes_grant(t: Table, req: Request, who: LocationView)
    requires
        feasible(t, req),
        absent_from(t, who),
    ensures
        same_holders(released(granted(t, req, who), req.all(), who), t),
{
    let g = granted(t, req, who);
    let r = released(g, req.all(), who);
    assert forall|id: ResourceIdView| #[trigger] holders_of(r, id) == holders_of(t, id) by {
        let h = holders_of(t, id);
        assert(!h.held_by(who));
        if req.exclusive.contains(id) {
            assert(h.admits_exclusive());
            assert(h.owned_by(who).without(who).users =~= h.users);
        } else if req.shared.contains(id) {
            assert(h.admits_shared());
            assert(h.used_by(who).without(who).users =~= h.users);
        }
    }
}

/// While a granted request is held, no request that conflicts with it is
/// feasible.
pub proof fn lemma_conflict_blocks(t: Table, held: Request, who: LocationView, other: Request)
    requires
        conflicting(held, other),
    ensures
        !feasible(granted(t, held, who), other),
{
    let g = granted(t, held, who);
    let id = choose|id: ResourceIdView|
        #![trigger held.mentions(id), other.mentions(id)]
        held.mentions(id) && other.mentions(id) && (held.exclusive.contains(id)
            || other.exclusive.contains(id));
    let h = holders_of(g, id);
    if held.exclusive.contains(id) {
        assert(h.owner == Some(who));
        assert(!h.admits_shared() && !h.admits_exclusive());
    } else {
        assert(held.shared.contains(id));
        assert(other.exclusive.contains(id));
        assert(h.users.contains(who));
        assert(!h.admits_exclusive());
    }
}

/// A grant never makes another request feasible: what was refused stays
/// refused until something is released.
pub proof fn lemma_grant_never_unblocks(t: Table, req: Request, who: LocationView, other: Request)
    requires
        !feasible(t, other),
    ensures
        !feasible(granted(t, req, who), other),
{
    let g = granted(t, req, who);
    if feasible(g, other) {
        assert forall|id: ResourceIdView| other.exclusive.contains(id) implies (
        #[trigger] holders_of(t, id)).admits_exclusive() by {
            assert(holders_of(g, id).admits_exclusive());
            if !req.exclusive.contains(id) && req.shared.contains(id) {
                assert(holders_of(g, id).users.contains(who));
            }
        }
        assert forall|id: ResourceIdView| other.shared.contains(id) implies (#[trigger] holders_of(
            t,
            id,
        )).admits_shared() by {
            assert(holders_of(g, id).admits_shared());
        }
    }
}

/// A refused attempt changes nothing that feasibility depends on.
pub proof fn lemma_same_holders_feasible(a: Table, b: Table, req: Request)
    requires
        same_holders(a, b),
    ensures
        feasible(a, req) == feasible(b, req),
{
    assert forall|id: ResourceIdView| #[trigger] holders_of(b, id) == holders_of(a, id) by {
        assert(holders_of(a, id) == holders_of(b, id));
    }
    if feasible(a, req) {
        assert forall|id: ResourceIdView| req.exclusive.contains(id) implies (
        #[trigger] holders_of(b, id)).admits_exclusive() by {
            assert(holders_of(a, id).admits_exclusive());
        }
        assert forall|id: ResourceIdView| req.shared.contains(id) implies (#[trigger] holders_of(
            b,
            id,
        )).admits_shared() by {
            assert(holders_of(a, id).admits_shared());
        }
    }
    if feasible(b, req) {
        assert forall|id: ResourceIdView| req.exclusive.contains(id) implies (
        #[trigger] holders_of(a, id)).admits_exclusive() by {
            assert(holders_of(b, id).admits_exclusive());
        }
        assert forall|id: ResourceIdView| req.shared.contains(id) implies (#[trigger] holders_of(
            a,
            id,
        )).admits_shared() by {
            assert(holders_of(b, id).admits_shared());
        }
    }
}

/// Tables that say the same of every resource still do so after the
/// same grant and after the same release: entries that nobody holds make
/// no difference.
pub proof fn lemma_same_holders_kept(
    a: Table,
    b: Table,
    req: Request,
    held: Set<ResourceIdView>,
    who: LocationView,
)
    requires
        same_holders(a, b),
    ensures
        same_holders(granted(a, req, who), granted(b, req, who)),
        same_holders(released(a, held, who), released(b, held, who)),
{
    assert forall|id: ResourceIdView| #[trigger]
        holders_of(granted(a, req, who), id) == holders_of(granted(b, req, who), id) by {
        assert(holders_of(a, id) == holders_of(b, id));
    }
    assert forall|id: ResourceIdView| #[trigger]
        holders_of(released(a, held, who), id) == holders_of(released(b, held, who), id) by {
        assert(holders_of(a, id) == holders_of(b, id));
        assert(Holders::free().without(who).users =~= Holders::free().users);
    }
}

/// Releasing nothing changes nothing and wakes nobody: a guard that was
/// released already can be released again without effect.
pub proof fn lemma_released_nothing(t: Table, who: LocationView)
    ensures
        released(t, Set::<ResourceIdView>::empty(), who) == t,
        !holds_any(t, Set::<ResourceIdView>::empty(), who),
{
    assert(released(t, Set::<ResourceIdView>::empty(), who) =~= t);
}

/// A request for nothing is always feasible, and granting it changes
/// nothing.
pub proof fn lemma_empty_request(t: Table, req: Request, who: LocationView)
    requires
        req.is_empty(),
    ensures
        feasible(t, req),
        granted(t, req, who) == t,
        req.all() == Set::<ResourceIdView>::empty(),
{
    assert(granted(t, req, who) =~= t);
    assert(req.all() =~= Set::<ResourceIdView>::empty());
}

/// Requests that share resources without wanting any of them
/// exclusively can all be held at once.
pub proof fn lemma_sharing_is_compatible(t: Table, held: Request, who: LocationView, other: Request)
    requires
        feasible(t, other),
        !conflicting(held, other),
    ensures
        feasible(granted(t, held, who), other),
{
    let g = granted(t, held, who);
    assert forall|id: ResourceIdView| other.exclusive.contains(id) implies (#[trigger] holders_of(
        g,
        id,
    )).admits_exclusive() by {
        assert(holders_of(t, id).admits_exclusive());
        assert(other.mentions(id));
        if held.mentions(id) {
            assert(held.mentions(id) && other.mentions(id));
        }
    }
    assert forall|id: ResourceIdView| other.shared.contains(id) implies (#[trigger] holders_of(
        g,
        id,
    )).admits_shared() by {
        assert(holders_of(t, id).admits_shared());
        assert(other.mentions(id));
        if held.exclusive.contains(id) {
            assert(held.mentions(id) && other.mentions(id));
        }
    }
}

/// One thing that happens to the registry.
pub enum Step {
    /// An attempt to reserve `request` for `who`, granted if feasible.
    Reserve { request: Request, who: LocationView },
    /// The release of `held` by `who`.
    Release { held: Set<ResourceIdView>, who: LocationView },
}

/// The table after `step`. A refused attempt leaves every holder as it
/// was.
pub open spec fn after_step(t: Table, step: Step) -> Table {
    match step {
        Step::Reserve { request, who } => if feasible(t, request) {
            granted(t, request, who)
        } else {
            t
        },
        Step::Release { held, who } => released(t, held, who),
    }
}

/// The table after the steps of `trace`, in order, from `t` on.
pub open spec fn after(t: Table, trace: Seq<Step>) -> Table
    decreases trace.len(),
{
    if trace.len() == 0 {
        t
    } else {
        after_step(after(t, trace.drop_last()), trace.last())
    }
}

/// The table just before step `i` of `trace`.
pub open spec fn before(t: Table, trace: Seq<Step>, i: int) -> Table {
    after(t, trace.subrange(0, i))
}

/// Step `i` of `trace` is an attempt that is granted.
pub open spec fn granted_at(t: Table, trace: Seq<Step>, i: int) -> bool {
    trace[i] matches Step::Reserve { request, .. } && feasible(before(t, trace, i), request)
}

/// None of the steps from `from` up to `to` is a release.
pub open spec fn no_release(trace: Seq<Step>, from: int, to: int) -> bool {
    forall|k: int| from <= k < to ==> !(#[trigger] trace[k] is Release)
}

/// The request of step `i`, if that is an attempt to reserve.
pub open spec fn request_at(trace: Seq<Step>, i: int) -> Request {
    match trace[i] {
        Step::Reserve { request, .. } => request,
        Step::Release { .. } => Request { shared: Set::empty(), exclusive: Set::empty() },
    }
}

proof fn lemma_before_next(t: Table, trace: Seq<Step>, i: int)
    requires
        0 <= i < trace.len(),
    ensures
        before(t, trace, i + 1) == after_step(before(t, trace, i), trace[i]),
{
    let upto = trace.subrange(0, i + 1);
    assert(upto.drop_last() =~= trace.subrange(0, i));
    assert(upto.last() == trace[i]);
}

/// Whatever is reserved and released, in whatever order, starting from
/// a consistent table: at every point an owner excludes users in every
/// entry.
pub proof fn lemma_always_consistent(t: Table, trace: Seq<Step>)
    requires
        consistent(t),
    ensures
        consistent(after(t, trace)),
    decreases trace.len(),
{
    if trace.len() > 0 {
        let prev = after(t, trace.drop_last());
        lemma_always_consistent(t, trace.drop_last());
        match trace.last() {
            Step::Reserve { request, who } => {
                if feasible(prev, request) {
                    lemma_granted_consistent(prev, request, who);
                }
            },
            Step::Release { held, who } => {
                lemma_released_consistent(prev, held, who);
            },
        }
    }
}

/// A request that is refused stays refused as long as nothing is
/// released.
pub proof fn lemma_blocked_until_release(
    t: Table,
    trace: Seq<Step>,
    from: int,
    to: int,
    other: Request,
)
    requires
        0 <= from <= to <= trace.len(),
        !feasible(before(t, trace, from), other),
        no_release(trace, from, to),
    ensures
        !feasible(before(t, trace, to), other),
    decreases to - from,
{
    if from < to {
        lemma_blocked_until_release(t, trace, from, to - 1, other);
        lemma_before_next(t, trace, to - 1);
        let prev = before(t, trace, to - 1);
        match trace[to - 1] {
            Step::Reserve { request, who } => {
                if feasible(prev, request) {
                    lemma_grant_never_unblocks(prev, request, who, other);
                }
            },
            Step::Release { .. } => {
                assert(!(trace[to - 1] is Release));
            },
        }
    }
}

/// Between two granted attempts whose requests conflict, something was
/// released.
pub proof fn lemma_release_between(t: Table, trace: Seq<Step>, i: int, j: int)
    requires
        0 <= i < j < trace.len(),
        granted_at(t, trace, i),
        granted_at(t, trace, j),
        conflicting(request_at(trace, i), request_at(trace, j)),
    ensures
        exists|k: int| i < k < j && #[trigger] trace[k] is Release,
{
    if no_release(trace, i + 1, j) {
        lemma_before_next(t, trace, i);
        match trace[i] {
            Step::Reserve { request, who } => {
                lemma_conflict_blocks(before(t, trace, i), request, who, request_at(trace, j));
            },
            Step::Release { .. } => {},
        }
        lemma_blocked_until_release(t, trace, i + 1, j, request_at(trace, j));
    }
}

} // verus!
