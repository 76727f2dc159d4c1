//! The registry of resources and the all-or-nothing reservation.

use vstd::prelude::*;
use crate::base::{Holders, Resource};
use crate::id::{ResourceId, ResourceIdView};
use crate::location::{Location, LocationView};
use crate::lock::ResourceLockGuard;
use crate::notify::{NotifyToken, ResourceManagerNotify};
use crate::set::{Request, ResourceSet};
use crate::vecset;

verus! {

/// The registry as a map from resources to their holders. A resource
/// without an entry is free.
pub type Table = Map<ResourceIdView, Holders>;

/// Who holds `id`: what the entry says, and nobody where there is no
/// entry.
pub open spec fn holders_of(t: Table, id: ResourceIdView) -> Holders {
    if t.dom().contains(id) {
        t[id]
    } else {
        Holders::free()
    }
}

/// In every entry an owner excludes users.
pub open spec fn consistent(t: Table) -> bool {
    forall|id: ResourceIdView| #[trigger] holders_of(t, id).consistent()
}

/// Both tables say the same of every resource, entry or not.
pub open spec fn same_holders(a: Table, b: Table) -> bool {
    forall|id: ResourceIdView| #[trigger] holders_of(a, id) == holders_of(b, id)
}

/// The whole request can be granted at once: what it wants exclusively
/// is free, and what it wants to share has no owner.
pub open spec fn feasible(t: Table, req: Request) -> bool {
    &&& forall|id: ResourceIdView|
        req.exclusive.contains(id) ==> (#[trigger] holders_of(t, id)).admits_exclusive()
    &&& forall|id: ResourceIdView|
        req.shared.contains(id) ==> (#[trigger] holders_of(t, id)).admits_shared()
}

/// The table after `who` was granted `req`: owner of what was asked
/// exclusively, user of what was asked shared, with an entry for every
/// resource of the request; nothing else differs.
pub open spec fn granted(t: Table, req: Request, who: LocationView) -> Table {
    Map::new(
        |id: ResourceIdView| t.dom().contains(id) || req.mentions(id),
        |id: ResourceIdView|
            if req.exclusive.contains(id) {
                holders_of(t, id).owned_by(who)
            } else if req.shared.contains(id) {
                holders_of(t, id).used_by(who)
            } else {
                holders_of(t, id)
            },
    )
}

/// The table after `who` let go of the resources in `held`: scrubbed
/// from their entries in both roles; nothing else differs.
pub open spec fn released(t: Table, held: Set<ResourceIdView>, who: LocationView) -> Table {
    Map::new(
        |id: ResourceIdView| t.dom().contains(id),
        |id: ResourceIdView|
            if held.contains(id) {
                t[id].without(who)
            } else {
                t[id]
            },
    )
}

/// `who` holds one of the resources in `held`.
pub open spec fn holds_any(t: Table, held: Set<ResourceIdView>, who: LocationView) -> bool {
    exists|id: ResourceIdView| held.contains(id) && (#[trigger] holders_of(t, id)).held_by(who)
}

spec fn table_of(s: Seq<Resource>) -> Table {
    Map::new(
        |id: ResourceIdView| exists|i: int| 0 <= i < s.len() && #[trigger] s[i].id() == id,
        |id: ResourceIdView|
            s[choose|i: int| 0 <= i < s.len() && #[trigger] s[i].id() == id].holders(),
    )
}

spec fn entries_wf(s: Seq<Resource>) -> bool {
    &&& forall|i: int| 0 <= i < s.len() ==> #[trigger] s[i].wf()
    &&& forall|i: int, j: int| 0 <= i < j < s.len() ==> s[i].id() != s[j].id()
    &&& forall|i: int| 0 <= i < s.len() ==> #[trigger] s[i].id() != ResourceIdView::Absent
}

proof fn lemma_table_entry(s: Seq<Resource>, i: int)
    requires
        entries_wf(s),
        0 <= i < s.len(),
    ensures
        table_of(s).dom().contains(s[i].id()),
        table_of(s)[s[i].id()] == s[i].holders(),
{
    let id = s[i].id();
    let k = choose|k: int| 0 <= k < s.len() && #[trigger] s[k].id() == id;
    assert(k == i);
}

proof fn lemma_table_push(s: Seq<Resource>, e: Resource)
    requires
        entries_wf(s),
        !table_of(s).dom().contains(e.id()),
        e.wf(),
        e.id() != ResourceIdView::Absent,
    ensures
        entries_wf(s.push(e)),
        table_of(s.push(e)) == table_of(s).insert(e.id(), e.holders()),
{
    let t = s.push(e);
    assert forall|i: int, j: int| 0 <= i < j < t.len() implies t[i].id() != t[j].id() by {
        if j == s.len() {
            assert(s[i].id() != e.id());
        }
    }
    assert(entries_wf(t));
    assert forall|id: ResourceIdView|
        table_of(t).dom().contains(id) == table_of(s).insert(e.id(), e.holders()).dom().contains(
            id,
        ) by {
        if table_of(s).dom().contains(id) {
            let k = choose|k: int| 0 <= k < s.len() && #[trigger] s[k].id() == id;
            assert(t[k].id() == id);
        }
        if id == e.id() {
            assert(t[s.len() as int].id() == id);
        }
        if table_of(t).dom().contains(id) {
            let k = choose|k: int| 0 <= k < t.len() && #[trigger] t[k].id() == id;
            if k < s.len() {
                assert(s[k].id() == id);
            }
        }
    }
    assert forall|id: ResourceIdView| table_of(t).dom().contains(id) implies table_of(t)[id]
        == table_of(s).insert(e.id(), e.holders())[id] by {
        let k = choose|k: int| 0 <= k < t.len() && #[trigger] t[k].id() == id;
        lemma_table_entry(t, k);
        if k < s.len() {
            lemma_table_entry(s, k);
        }
    }
    assert(table_of(t) =~= table_of(s).insert(e.id(), e.holders()));
}

proof fn lemma_table_update(s: Seq<Resource>, i: int, e: Resource)
    requires
        entries_wf(s),
        0 <= i < s.len(),
        e.id() == s[i].id(),
        e.wf(),
    ensures
        entries_wf(s.update(i, e)),
        table_of(s.update(i, e)) == table_of(s).insert(e.id(), e.holders()),
{
    let t = s.update(i, e);
    assert forall|a: int, b: int| 0 <= a < b < t.len() implies t[a].id() != t[b].id() by {
        assert(s[a].id() != s[b].id());
    }
    assert forall|k: int| 0 <= k < t.len() implies #[trigger] t[k].id() != ResourceIdView::Absent by {
        assert(s[k].id() != ResourceIdView::Absent);
    }
    assert forall|k: int| 0 <= k < t.len() implies #[trigger] t[k].wf() by {
        if k != i {
            assert(s[k].wf());
        }
    }
    assert(entries_wf(t));
    assert forall|id: ResourceIdView|
        table_of(t).dom().contains(id) == table_of(s).insert(e.id(), e.holders()).dom().contains(
            id,
        ) by {
        if table_of(s).dom().contains(id) {
            let k = choose|k: int| 0 <= k < s.len() && #[trigger] s[k].id() == id;
            assert(t[k].id() == id);
        }
        if id == e.id() {
            assert(t[i].id() == id);
        }
        if table_of(t).dom().contains(id) {
            let k = choose|k: int| 0 <= k < t.len() && #[trigger] t[k].id() == id;
            assert(s[k].id() == id);
        }
    }
    assert forall|id: ResourceIdView| table_of(t).dom().contains(id) implies table_of(t)[id]
        == table_of(s).insert(e.id(), e.holders())[id] by {
        let k = choose|k: int| 0 <= k < t.len() && #[trigger] t[k].id() == id;
        lemma_table_entry(t, k);
        if k != i {
            assert(s[k].id() == id);
            lemma_table_entry(s, k);
        }
    }
    assert(table_of(t) =~= table_of(s).insert(e.id(), e.holders()));
}

proof fn lemma_table_consistent(s: Seq<Resource>)
    requires
        entries_wf(s),
    ensures
        consistent(table_of(s)),
        !table_of(s).dom().contains(ResourceIdView::Absent),
{
    assert forall|id: ResourceIdView| #[trigger] holders_of(table_of(s), id).consistent() by {
        if table_of(s).dom().contains(id) {
            let k = choose|k: int| 0 <= k < s.len() && #[trigger] s[k].id() == id;
            lemma_table_entry(s, k);
            s[k].lemma_consistent();
        }
    }
}

/// What one attempt to reserve gave.
pub enum Reservation {
    /// The request was granted; the guard holds it.
    Acquired(ResourceLockGuard),
    /// The request cannot be granted now. The token tells when it is worth
    /// trying again: once the registry's counter has moved past it.
    Blocked(NotifyToken),
}

/// The process-wide registry: one record per resource that was ever
/// mentioned, and the change counter.
pub struct ResourceManager {
    resources: Vec<Resource>,
    notify: ResourceManagerNotify,
}

impl View for ResourceManager {
    type V = Table;

    closed spec fn view(&self) -> Table {
        table_of(self.resources@)
    }
}

impl Default for ResourceManager {
    fn default() -> (r: Self)
        ensures
            r.wf(),
            r@ == Map::<ResourceIdView, Holders>::empty(),
            r.serial() == 0,
            r.can_notify(),
    {
        ResourceManager::new()
    }
}

impl ResourceManager {
    /// The registry is well formed: one record per resource, none for the
    /// empty resource, each record well formed. Every registry that this
    /// crate hands out is well formed, and its methods keep it so.
    pub closed spec fn wf(&self) -> bool {
        entries_wf(self.resources@)
    }

    /// The value of the change counter.
    pub closed spec fn serial(&self) -> nat {
        self.notify.serial()
    }

    /// True while the change counter can still advance.
    pub open spec fn can_notify(&self) -> bool {
        self.serial() < u64::MAX
    }

    /// Tests whether the registry is well formed.
    pub fn check(&self) -> (r: bool)
        ensures
            r == self.wf(),
    {
        let mut j: usize = 0;
        while j < self.resources.len()
            invariant
                j <= self.resources.len(),
                forall|a: int| 0 <= a < j ==> (#[trigger] self.resources@[a]).wf(),
                forall|a: int|
                    0 <= a < j ==> (#[trigger] self.resources@[a]).id() != ResourceIdView::Absent,
                forall|a: int, b: int|
                    0 <= a < b < j ==> self.resources@[a].id() != self.resources@[b].id(),
            decreases self.resources.len() - j,
        {
            let entry = &self.resources[j];
            if !entry.check() || entry.is_for(&ResourceId::Absent) {
                return false;
            }
            let mut i: usize = 0;
            while i < j
                invariant
                    i <= j < self.resources.len(),
                    forall|a: int|
                        0 <= a < i ==> self.resources@[a].id() != self.resources@[j as int].id(),
                decreases j - i,
            {
                if self.resources[i].is_same_resource(&self.resources[j]) {
                    return false;
                }
                i += 1;
            }
            j += 1;
        }
        true
    }

    /// In a well-formed registry an owner excludes users in every entry,
    /// and the empty resource has no entry.
    pub proof fn lemma_consistent(&self)
        requires
            self.wf(),
        ensures
            consistent(self@),
            !self@.dom().contains(ResourceIdView::Absent),
    {
        lemma_table_consistent(self.resources@);
    }

    /// A registry without entries, its counter at zero.
    pub fn new() -> (r: Self)
        ensures
            r.wf(),
            r@ == Map::<ResourceIdView, Holders>::empty(),
            r.serial() == 0,
            r.can_notify(),
    {
        let r = ResourceManager { resources: Vec::new(), notify: ResourceManagerNotify::new() };
        assert(r@ =~= Map::<ResourceIdView, Holders>::empty());
        r
    }

    /// The change counter.
    pub fn notify(&self) -> (r: &ResourceManagerNotify)
        ensures
            r.serial() == self.serial(),
            r.can_notify() == self.can_notify(),
    {
        &self.notify
    }

    fn index_of(&self, id: &ResourceId) -> (r: Option<usize>)
        requires
            self.wf(),
        ensures
            match r {
                Some(i) => i < self.resources@.len() && self.resources@[i as int].id() == id@,
                None => !self@.dom().contains(id@),
            },
    {
        let mut i: usize = 0;
        while i < self.resources.len()
            invariant
                i <= self.resources.len(),
                forall|j: int| 0 <= j < i ==> (#[trigger] self.resources@[j].id()) != id@,
            decreases self.resources.len() - i,
        {
            if self.resources[i].is_for(id) {
                return Some(i);
            }
            i += 1;
        }
        None
    }

    /// Tells whether `id` has an entry.
    pub fn has_entry(&self, id: &ResourceId) -> (r: bool)
        requires
            self.wf(),
        ensures
            r == self@.dom().contains(id@),
    {
        match self.index_of(id) {
            Some(i) => {
                proof {
                    lemma_table_entry(self.resources@, i as int);
                }
                true
            },
            None => false,
        }
    }

    /// Tells whether nobody holds `id`.
    pub fn is_free(&self, id: &ResourceId) -> (r: bool)
        requires
            self.wf(),
        ensures
            r == holders_of(self@, id@).admits_exclusive(),
    {
        match self.index_of(id) {
            Some(i) => {
                proof {
                    lemma_table_entry(self.resources@, i as int);
                }
                !self.resources[i].has_owner() && !self.resources[i].has_users()
            },
            None => true,
        }
    }

    /// Tells whether `who` is the exclusive owner of `id`.
    pub fn is_owned_by(&self, id: &ResourceId, who: &Location) -> (r: bool)
        requires
            self.wf(),
        ensures
            r == (holders_of(self@, id@).owner == Some(who@)),
    {
        match self.index_of(id) {
            Some(i) => {
                proof {
                    lemma_table_entry(self.resources@, i as int);
                }
                self.resources[i].is_owned_by(who)
            },
            None => false,
        }
    }

    /// Tells whether `who` is among the shared users of `id`.
    pub fn is_used_by(&self, id: &ResourceId, who: &Location) -> (r: bool)
        requires
            self.wf(),
        ensures
            r == holders_of(self@, id@).users.contains(who@),
    {
        match self.index_of(id) {
            Some(i) => {
                proof {
                    lemma_table_entry(self.resources@, i as int);
                }
                self.resources[i].is_used_by(who)
            },
            None => false,
        }
    }

    /// Number of shared users of `id`.
    pub fn user_count(&self, id: &ResourceId) -> (r: usize)
        requires
            self.wf(),
        ensures
            holders_of(self@, id@).users.finite(),
            r == holders_of(self@, id@).users.len(),
    {
        match self.index_of(id) {
            Some(i) => {
                proof {
                    lemma_table_entry(self.resources@, i as int);
                }
                self.resources[i].user_count()
            },
            None => 0,
        }
    }

    /// Index of the record of `id`, which is created if there is none.
    fn find_or_insert_resource(&mut self, id: &ResourceId) -> (idx: usize)
        requires
            old(self).wf(),
            id@ != ResourceIdView::Absent,
        ensures
            final(self).wf(),
            final(self).serial() == old(self).serial(),
            final(self).can_notify() == old(self).can_notify(),
            idx < final(self).resources@.len(),
            final(self).resources@[idx as int].id() == id@,
            final(self).resources@[idx as int].holders() == holders_of(old(self)@, id@),
            same_holders(final(self)@, old(self)@),
            final(self)@.dom() == old(self)@.dom().insert(id@),
    {
        match self.index_of(id) {
            Some(i) => {
                proof {
                    lemma_table_entry(self.resources@, i as int);
                    assert(self@.dom() =~= self@.dom().insert(id@));
                }
                i
            },
            None => {
                let entry = Resource::new(id);
                proof {
                    lemma_table_push(self.resources@, entry);
                }
                self.resources.push(entry);
                proof {
                    assert(final(self)@.dom() =~= old(self)@.dom().insert(id@));
                    lemma_table_entry(self.resources@, self.resources@.len() - 1);
                }
                self.resources.len() - 1
            },
        }
    }

    /// Makes `who` the owner of the free resource `id`.
    fn grant_exclusive(&mut self, id: &ResourceId, who: &Location)
        requires
            old(self).wf(),
            old(self)@.dom().contains(id@),
            holders_of(old(self)@, id@).admits_exclusive(),
        ensures
            final(self).wf(),
            final(self).serial() == old(self).serial(),
            final(self).can_notify() == old(self).can_notify(),
            final(self)@ == old(self)@.insert(id@, old(self)@[id@].owned_by(who@)),
    {
        match self.index_of(id) {
            Some(i) => {
                let ghost before = self.resources@;
                proof {
                    lemma_table_entry(before, i as int);
                }
                self.resources[i].set_owner(who);
                proof {
                    let after = self.resources@;
                    assert(after =~= before.update(i as int, after[i as int]));
                    lemma_table_update(before, i as int, after[i as int]);
                }
            },
            None => {},
        }
    }

    /// Adds `who` to the users of the unowned resource `id`.
    fn grant_shared(&mut self, id: &ResourceId, who: &Location)
        requires
            old(self).wf(),
            old(self)@.dom().contains(id@),
            holders_of(old(self)@, id@).admits_shared(),
        ensures
            final(self).wf(),
            final(self).serial() == old(self).serial(),
            final(self).can_notify() == old(self).can_notify(),
            final(self)@ == old(self)@.insert(id@, old(self)@[id@].used_by(who@)),
    {
        match self.index_of(id) {
            Some(i) => {
                let ghost before = self.resources@;
                proof {
                    lemma_table_entry(before, i as int);
                }
                self.resources[i].add_user(who);
                proof {
                    let after = self.resources@;
                    assert(after =~= before.update(i as int, after[i as int]));
                    lemma_table_update(before, i as int, after[i as int]);
                }
            },
            None => {},
        }
    }

    /// Scrubs `who` from the entry of `id` in both roles, and tells
    /// whether that changed the entry. The change counter stays.
    pub(crate) fn scrub(&mut self, id: &ResourceId, who: &Location) -> (changed: bool)
        requires
            old(self).wf(),
        ensures
            final(self).wf(),
            final(self).serial() == old(self).serial(),
            final(self).can_notify() == old(self).can_notify(),
            final(self)@ == released(old(self)@, set![id@], who@),
            changed == holders_of(old(self)@, id@).held_by(who@),
    {
        match self.index_of(id) {
            Some(i) => {
                let ghost before = self.resources@;
                proof {
                    lemma_table_entry(before, i as int);
                }
                let changed = self.resources[i].scrub(who);
                proof {
                    let after = self.resources@;
                    assert(after =~= before.update(i as int, after[i as int]));
                    lemma_table_update(before, i as int, after[i as int]);
                    assert(final(self)@ =~= released(old(self)@, set![id@], who@));
                }
                changed
            },
            None => {
                proof {
                    assert(final(self)@ =~= released(old(self)@, set![id@], who@));
                }
                false
            },
        }
    }

    /// One attempt to grant the whole of `request` to `owner`, all or
    /// nothing. First every resource of the request is looked up, its
    /// entry created where there was none, and the attempt fails, with no
    /// holder changed, as soon as one of them is not available. Only then
    /// is `owner` entered into the entries. The change counter stays.
    pub fn try_reserve(&mut self, request: &ResourceSet, owner: &Location) -> (r: Option<
        ResourceLockGuard,
    >)
        requires
            old(self).wf(),
            request.wf(),
        ensures
            final(self).wf(),
            final(self).serial() == old(self).serial(),
            final(self).can_notify() == old(self).can_notify(),
            r is Some <==> feasible(old(self)@, request@),
            r matches Some(g) ==> {
                &&& final(self)@ == granted(old(self)@, request@, owner@)
                &&& g.held() == request@.all()
                &&& g.holder() == owner@
            },
            r is None ==> {
                &&& same_holders(final(self)@, old(self)@)
                &&& old(self)@.dom().subset_of(final(self)@.dom())
                &&& final(self)@.dom().subset_of(old(self)@.dom().union(request@.all()))
            },
    {
        let ghost t0 = self@;
        let ghost who = owner@;
        let excl = request.exclusive();
        let shared = request.shared();
        proof {
            request.lemma_normal();
        }
        let mut k: usize = 0;
        while k < excl.len()
            invariant
                k <= excl.len(),
                self.wf(),
                self.serial() == old(self).serial(),
                self.can_notify() == old(self).can_notify(),
                t0 == old(self)@,
                same_holders(self@, t0),
                t0.dom().subset_of(self@.dom()),
                self@.dom().subset_of(t0.dom().union(request@.all())),
                vecset::elements(excl@) == request@.exclusive,
                request@.normal(),
                forall|j: int|
                    0 <= j < k ==> holders_of(t0, #[trigger] excl@[j]@).admits_exclusive()
                        && self@.dom().contains(excl@[j]@),
            decreases excl.len() - k,
        {
            let id = &excl[k];
            proof {
                vecset::lemma_elements_member(excl@, k as int);
            }
            let idx = self.find_or_insert_resource(id);
            if self.resources[idx].has_owner() || self.resources[idx].has_users() {
                proof {
                    assert(!holders_of(t0, id@).admits_exclusive());
                }
                return None;
            }
            k += 1;
        }
        let mut n: usize = 0;
        while n < shared.len()
            invariant
                n <= shared.len(),
                self.wf(),
                self.serial() == old(self).serial(),
                self.can_notify() == old(self).can_notify(),
                t0 == old(self)@,
                same_holders(self@, t0),
                t0.dom().subset_of(self@.dom()),
                self@.dom().subset_of(t0.dom().union(request@.all())),
                vecset::elements(excl@) == request@.exclusive,
                vecset::elements(shared@) == request@.shared,
                request@.normal(),
                forall|j: int|
                    0 <= j < excl@.len() ==> holders_of(t0, #[trigger] excl@[j]@).admits_exclusive()
                        && self@.dom().contains(excl@[j]@),
                forall|j: int|
                    0 <= j < n ==> holders_of(t0, #[trigger] shared@[j]@).admits_shared()
                        && self@.dom().contains(shared@[j]@),
            decreases shared.len() - n,
        {
            let id = &shared[n];
            proof {
                vecset::lemma_elements_member(shared@, n as int);
            }
            let idx = self.find_or_insert_resource(id);
            if self.resources[idx].has_owner() {
                proof {
                    assert(!holders_of(t0, id@).admits_shared());
                }
                return None;
            }
            n += 1;
        }
        let ghost t1 = self@;
        proof {
            assert(feasible(t0, request@));
            assert(t1.dom() =~= t0.dom().union(request@.all()));
        }
        let mut managed: Vec<ResourceId> = Vec::new();
        proof {
            vecset::lemma_elements_empty(managed@);
            vecset::lemma_elements_empty(excl@.subrange(0, 0));
        }
        k = 0;
        while k < excl.len()
            invariant
                k <= excl.len(),
                self.wf(),
                self.serial() == old(self).serial(),
                self.can_notify() == old(self).can_notify(),
                self@.dom() == t1.dom(),
                t1.dom() == t0.dom().union(request@.all()),
                vecset::elements(excl@) == request@.exclusive,
                vecset::distinct(excl@),
                feasible(t0, request@),
                who == owner@,
                vecset::elements(managed@) == vecset::elements(excl@.subrange(0, k as int)),
                forall|id: ResourceIdView|
                    #[trigger] holders_of(self@, id) == if vecset::elements(
                        excl@.subrange(0, k as int),
                    ).contains(id) {
                        holders_of(t0, id).owned_by(who)
                    } else {
                        holders_of(t0, id)
                    },
            decreases excl.len() - k,
        {
            let id = &excl[k];
            let ghost done = excl@.subrange(0, k as int);
            proof {
                vecset::lemma_elements_member(excl@, k as int);
                assert(excl@.subrange(0, k + 1) =~= done.push(*id));
                vecset::lemma_elements_push(done, *id);
                vecset::lemma_elements_push(managed@, *id);
                if vecset::elements(done).contains(id@) {
                    let j = choose|j: int| 0 <= j < done.len() && #[trigger] done[j]@ == id@;
                    assert(excl@[j]@ == excl@[k as int]@);
                }
                assert(holders_of(self@, id@) == holders_of(t0, id@));
            }
            let ghost prev = self@;
            self.grant_exclusive(id, owner);
            managed.push(id.clone());
            proof {
                assert forall|x: ResourceIdView|
                    #[trigger] holders_of(self@, x) == if vecset::elements(
                        excl@.subrange(0, k + 1),
                    ).contains(x) {
                        holders_of(t0, x).owned_by(who)
                    } else {
                        holders_of(t0, x)
                    } by {
                    assert(holders_of(prev, x) == if vecset::elements(done).contains(x) {
                        holders_of(t0, x).owned_by(who)
                    } else {
                        holders_of(t0, x)
                    });
                }
                assert(self@.dom() =~= t1.dom());
            }
            k += 1;
        }
        proof {
            assert(excl@.subrange(0, k as int) =~= excl@);
            vecset::lemma_elements_empty(shared@.subrange(0, 0));
        }
        n = 0;
        while n < shared.len()
            invariant
                n <= shared.len(),
                self.wf(),
                self.serial() == old(self).serial(),
                self.can_notify() == old(self).can_notify(),
                self@.dom() == t1.dom(),
                t1.dom() == t0.dom().union(request@.all()),
                vecset::elements(shared@) == request@.shared,
                vecset::distinct(shared@),
                request@.normal(),
                feasible(t0, request@),
                who == owner@,
                vecset::elements(managed@) == request@.exclusive.union(
                    vecset::elements(shared@.subrange(0, n as int)),
                ),
                forall|id: ResourceIdView|
                    #[trigger] holders_of(self@, id) == if request@.exclusive.contains(id) {
                        holders_of(t0, id).owned_by(who)
                    } else if vecset::elements(shared@.subrange(0, n as int)).contains(id) {
                        holders_of(t0, id).used_by(who)
                    } else {
                        holders_of(t0, id)
                    },
            decreases shared.len() - n,
        {
            let id = &shared[n];
            let ghost done = shared@.subrange(0, n as int);
            proof {
                vecset::lemma_elements_member(shared@, n as int);
                assert(shared@.subrange(0, n + 1) =~= done.push(*id));
                vecset::lemma_elements_push(done, *id);
                vecset::lemma_elements_push(managed@, *id);
                if vecset::elements(done).contains(id@) {
                    let j = choose|j: int| 0 <= j < done.len() && #[trigger] done[j]@ == id@;
                    assert(shared@[j]@ == shared@[n as int]@);
                }
                assert(holders_of(self@, id@) == holders_of(t0, id@));
            }
            let ghost prev = self@;
            self.grant_shared(id, owner);
            managed.push(id.clone());
            proof {
                assert forall|x: ResourceIdView|
                    #[trigger] holders_of(self@, x) == if request@.exclusive.contains(x) {
                        holders_of(t0, x).owned_by(who)
                    } else if vecset::elements(shared@.subrange(0, n + 1)).contains(x) {
                        holders_of(t0, x).used_by(who)
                    } else {
                        holders_of(t0, x)
                    } by {
                    assert(holders_of(prev, x) == if request@.exclusive.contains(x) {
                        holders_of(t0, x).owned_by(who)
                    } else if vecset::elements(done).contains(x) {
                        holders_of(t0, x).used_by(who)
                    } else {
                        holders_of(t0, x)
                    });
                }
                assert(self@.dom() =~= t1.dom());
                assert(vecset::elements(managed@) =~= request@.exclusive.union(
                    vecset::elements(shared@.subrange(0, n + 1)),
                ));
            }
            n += 1;
        }
        proof {
            assert(shared@.subrange(0, n as int) =~= shared@);
            let g = granted(t0, request@, who);
            assert forall|x: ResourceIdView| self@.dom().contains(x) implies #[trigger] self@[x]
                == g[x] by {
                assert(self@[x] == holders_of(self@, x));
            }
            assert(self@ =~= g);
        }
        Some(ResourceLockGuard::from_parts(managed, owner.clone()))
    }

    /// One round of a blocking reservation: reads the change counter,
    /// then tries to reserve. Where the request cannot be granted, the
    /// token that is handed back was taken before the attempt, so a
    /// release that happens at any time after it moves the counter past
    /// the token.
    pub fn reserve(&mut self, request: &ResourceSet, owner: &Location) -> (r: Reservation)
        requires
            old(self).wf(),
            request.wf(),
        ensures
            final(self).wf(),
            final(self).serial() == old(self).serial(),
            final(self).can_notify() == old(self).can_notify(),
            r is Acquired <==> feasible(old(self)@, request@),
            r matches Reservation::Acquired(g) ==> {
                &&& final(self)@ == granted(old(self)@, request@, owner@)
                &&& g.held() == request@.all()
                &&& g.holder() == owner@
            },
            r matches Reservation::Blocked(token) ==> {
                &&& token.serial() == old(self).serial()
                &&& same_holders(final(self)@, old(self)@)
                &&& old(self)@.dom().subset_of(final(self)@.dom())
                &&& final(self)@.dom().subset_of(old(self)@.dom().union(request@.all()))
            },
    {
        let token = self.notify.token();
        match self.try_reserve(request, owner) {
            Some(guard) => Reservation::Acquired(guard),
            None => Reservation::Blocked(token),
        }
    }

    /// Advances the change counter by one.
    pub(crate) fn bump(&mut self)
        requires
            old(self).wf(),
            old(self).can_notify(),
        ensures
            final(self).wf(),
            final(self)@ == old(self)@,
            final(self).serial() == old(self).serial() + 1,
    {
        self.notify.notify();
    }
}

} // verus!
