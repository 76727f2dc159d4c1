//! Collects the resources of a test and turns them into a request.

use vstd::prelude::*;
use crate::id::{ResourceId, ResourceIdView};
use crate::location::Location;
use crate::manager::{feasible, granted, same_holders, Reservation, ResourceManager};
use crate::set::{Request, ResourceSet};
use crate::vecset;

verus! {

/// Accumulates `uses` and `consumes` in any order.
pub struct ResourceBuilder {
    uses: Vec<ResourceId>,
    consumes: Vec<ResourceId>,
}

impl ResourceBuilder {
    /// The builder lists no resource twice in either role. Every builder
    /// that this crate hands out is well formed.
    pub closed spec fn wf(&self) -> bool {
        &&& vecset::distinct(self.uses@)
        &&& vecset::distinct(self.consumes@)
    }

    /// Tests whether the builder is well formed.
    pub fn check(&self) -> (r: bool)
        ensures
            r == self.wf(),
    {
        vecset::all_distinct(&self.uses) && vecset::all_distinct(&self.consumes)
    }

    /// The resources named by `uses` so far.
    pub closed spec fn uses_ids(&self) -> Set<ResourceIdView> {
        vecset::elements(self.uses@)
    }

    /// The resources named by `consumes` so far.
    pub closed spec fn consumes_ids(&self) -> Set<ResourceIdView> {
        vecset::elements(self.consumes@)
    }

    /// A builder that names nothing.
    pub fn new() -> (r: Self)
        ensures
            r.wf(),
            r.uses_ids() == Set::<ResourceIdView>::empty(),
            r.consumes_ids() == Set::<ResourceIdView>::empty(),
    {
        let r = ResourceBuilder { uses: Vec::new(), consumes: Vec::new() };
        proof {
            vecset::lemma_elements_empty(r.uses@);
            vecset::lemma_elements_empty(r.consumes@);
        }
        r
    }

    /// Names a resource to hold exclusively.
    pub fn consumes(self, id: ResourceId) -> (r: Self)
        requires
            self.wf(),
        ensures
            r.wf(),
            r.uses_ids() == self.uses_ids(),
            r.consumes_ids() == self.consumes_ids().insert(id@),
    {
        let mut this = self;
        vecset::insert(&mut this.consumes, id);
        this
    }

    /// Names a resource to share.
    pub fn uses(self, id: ResourceId) -> (r: Self)
        requires
            self.wf(),
        ensures
            r.wf(),
            r.consumes_ids() == self.consumes_ids(),
            r.uses_ids() == self.uses_ids().insert(id@),
    {
        let mut this = self;
        vecset::insert(&mut this.uses, id);
        this
    }

    /// The normalized request: what was named by `consumes` is held
    /// exclusively, what was named only by `uses` is shared, and the empty
    /// resource is left out.
    pub fn finish(self) -> (r: ResourceSet)
        requires
            self.wf(),
        ensures
            r.wf(),
            r@ == Request::normalized(self.uses_ids(), self.consumes_ids()),
    {
        let mut shared: Vec<ResourceId> = Vec::new();
        let mut exclusive: Vec<ResourceId> = Vec::new();
        let absent = ResourceId::Absent;
        proof {
            vecset::lemma_elements_empty(shared@);
            vecset::lemma_elements_empty(exclusive@);
        }
        let mut i: usize = 0;
        while i < self.consumes.len()
            invariant
                i <= self.consumes.len(),
                absent@ == ResourceIdView::Absent,
                vecset::distinct(exclusive@),
                vecset::elements(exclusive@) == vecset::elements(
                    self.consumes@.subrange(0, i as int),
                ).remove(ResourceIdView::Absent),
            decreases self.consumes.len() - i,
        {
            let id = &self.consumes[i];
            proof {
                assert(self.consumes@.subrange(0, i + 1) =~= self.consumes@.subrange(
                    0,
                    i as int,
                ).push(*id));
                vecset::lemma_elements_push(self.consumes@.subrange(0, i as int), *id);
            }
            if id.is_some() {
                vecset::insert(&mut exclusive, id.clone());
            }
            assert(vecset::elements(exclusive@) =~= vecset::elements(
                self.consumes@.subrange(0, i + 1),
            ).remove(ResourceIdView::Absent));
            i += 1;
        }
        assert(self.consumes@.subrange(0, i as int) =~= self.consumes@);
        let mut j: usize = 0;
        while j < self.uses.len()
            invariant
                j <= self.uses.len(),
                vecset::distinct(shared@),
                vecset::elements(shared@) == vecset::elements(
                    self.uses@.subrange(0, j as int),
                ).difference(vecset::elements(self.consumes@)).remove(ResourceIdView::Absent),
            decreases self.uses.len() - j,
        {
            let id = &self.uses[j];
            proof {
                assert(self.uses@.subrange(0, j + 1) =~= self.uses@.subrange(0, j as int).push(
                    *id,
                ));
                vecset::lemma_elements_push(self.uses@.subrange(0, j as int), *id);
            }
            if id.is_some() && vecset::find(&self.consumes, id).is_none() {
                vecset::insert(&mut shared, id.clone());
            }
            assert(vecset::elements(shared@) =~= vecset::elements(
                self.uses@.subrange(0, j + 1),
            ).difference(vecset::elements(self.consumes@)).remove(ResourceIdView::Absent));
            j += 1;
        }
        assert(self.uses@.subrange(0, j as int) =~= self.uses@);
        ResourceSet::from_parts(shared, exclusive)
    }

    /// Finishes the request and makes one attempt to reserve it for
    /// `owner`. The finished request comes back with the outcome, for the
    /// caller to try again with once the registry has changed.
    pub fn reserve(self, manager: &mut ResourceManager, owner: &Location) -> (r: (
        ResourceSet,
        Reservation,
    ))
        requires
            self.wf(),
            old(manager).wf(),
        ensures
            final(manager).wf(),
            final(manager).serial() == old(manager).serial(),
            final(manager).can_notify() == old(manager).can_notify(),
            r.0.wf(),
            r.0@ == Request::normalized(self.uses_ids(), self.consumes_ids()),
            r.1 is Acquired <==> feasible(old(manager)@, r.0@),
            r.1 matches Reservation::Acquired(g) ==> {
                &&& final(manager)@ == granted(old(manager)@, r.0@, owner@)
                &&& g.held() == r.0@.all()
                &&& g.holder() == owner@
            },
            r.1 matches Reservation::Blocked(token) ==> {
                &&& token.serial() == old(manager).serial()
                &&& same_holders(final(manager)@, old(manager)@)
                &&& old(manager)@.dom().subset_of(final(manager)@.dom())
                &&& final(manager)@.dom().subset_of(old(manager)@.dom().union(r.0@.all()))
            },
    {
        let set = self.finish();
        let outcome = manager.reserve(&set, owner);
        (set, outcome)
    }
}

} // verus!
