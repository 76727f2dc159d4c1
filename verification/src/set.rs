//! A normalized request for resources.

use vstd::prelude::*;
use crate::id::{ResourceId, ResourceIdView};
use crate::vecset;

verus! {

/// A request as two sets of resources: those to share and those to hold
/// exclusively.
pub struct Request {
    pub shared: Set<ResourceIdView>,
    pub exclusive: Set<ResourceIdView>,
}

impl Request {
    /// The request mentions `id` in either role.
    pub open spec fn mentions(self, id: ResourceIdView) -> bool {
        self.shared.contains(id) || self.exclusive.contains(id)
    }

    /// All resources of the request.
    pub open spec fn all(self) -> Set<ResourceIdView> {
        self.shared.union(self.exclusive)
    }

    /// No resource is asked for in both roles, and the empty resource is
    /// not asked for at all.
    pub open spec fn normal(self) -> bool {
        &&& self.shared.disjoint(self.exclusive)
        &&& !self.shared.contains(ResourceIdView::Absent)
        &&& !self.exclusive.contains(ResourceIdView::Absent)
    }

    /// The request asks for nothing.
    pub open spec fn is_empty(self) -> bool {
        self.shared =~= Set::<ResourceIdView>::empty() && self.exclusive =~= Set::<
            ResourceIdView,
        >::empty()
    }

    /// What is asked for when `uses` are to be shared and `consumes` to be
    /// held exclusively: exclusive wins over shared, and the empty
    /// resource is dropped.
    pub open spec fn normalized(
        uses: Set<ResourceIdView>,
        consumes: Set<ResourceIdView>,
    ) -> Request {
        Request {
            shared: uses.difference(consumes).remove(ResourceIdView::Absent),
            exclusive: consumes.remove(ResourceIdView::Absent),
        }
    }
}

/// Normalizing always gives a normal request.
pub proof fn lemma_normalized_is_normal(uses: Set<ResourceIdView>, consumes: Set<ResourceIdView>)
    ensures
        Request::normalized(uses, consumes).normal(),
{
}

/// The resources that a test shares and those that it consumes.
pub struct ResourceSet {
    uses: Vec<ResourceId>,
    consumes: Vec<ResourceId>,
}

impl View for ResourceSet {
    type V = Request;

    closed spec fn view(&self) -> Request {
        Request { shared: vecset::elements(self.uses@), exclusive: vecset::elements(self.consumes@) }
    }
}

impl ResourceSet {
    /// The set is well formed: it lists no resource twice and its request
    /// is normal. Every set that this crate hands out is well formed.
    pub closed spec fn wf(&self) -> bool {
        &&& vecset::distinct(self.uses@)
        &&& vecset::distinct(self.consumes@)
        &&& self@.normal()
    }

    /// Tests whether the set is well formed.
    pub fn check(&self) -> (r: bool)
        ensures
            r == self.wf(),
    {
        let absent = ResourceId::Absent;
        if !vecset::all_distinct(&self.uses) || !vecset::all_distinct(&self.consumes) {
            return false;
        }
        if vecset::find(&self.uses, &absent).is_some() || vecset::find(
            &self.consumes,
            &absent,
        ).is_some() {
            return false;
        }
        let mut i: usize = 0;
        while i < self.uses.len()
            invariant
                i <= self.uses.len(),
                forall|k: int|
                    0 <= k < i ==> !vecset::elements(self.consumes@).contains(
                        #[trigger] self.uses@[k]@,
                    ),
            decreases self.uses.len() - i,
        {
            if vecset::find(&self.consumes, &self.uses[i]).is_some() {
                proof {
                    vecset::lemma_elements_member(self.uses@, i as int);
                }
                return false;
            }
            i += 1;
        }
        true
    }

    /// A well-formed set is a normal request.
    pub proof fn lemma_normal(&self)
        requires
            self.wf(),
        ensures
            self@.normal(),
    {
    }

    /// Builds the set from its two lists.
    pub(crate) fn from_parts(uses: Vec<ResourceId>, consumes: Vec<ResourceId>) -> (r: Self)
        requires
            vecset::distinct(uses@),
            vecset::distinct(consumes@),
            (Request {
                shared: vecset::elements(uses@),
                exclusive: vecset::elements(consumes@),
            }).normal(),
        ensures
            r.wf(),
            r@.shared == vecset::elements(uses@),
            r@.exclusive == vecset::elements(consumes@),
    {
        ResourceSet { uses, consumes }
    }

    /// The resources to share, each once.
    pub fn shared(&self) -> (r: &Vec<ResourceId>)
        requires
            self.wf(),
        ensures
            vecset::distinct(r@),
            vecset::elements(r@) == self@.shared,
    {
        &self.uses
    }

    /// The resources to hold exclusively, each once.
    pub fn exclusive(&self) -> (r: &Vec<ResourceId>)
        requires
            self.wf(),
        ensures
            vecset::distinct(r@),
            vecset::elements(r@) == self@.exclusive,
    {
        &self.consumes
    }

    /// Tells whether nothing is asked for.
    pub fn is_empty(&self) -> (r: bool)
        requires
            self.wf(),
        ensures
            r == self@.is_empty(),
    {
        proof {
            if self.uses@.len() == 0 {
                vecset::lemma_elements_empty(self.uses@);
            } else {
                vecset::lemma_elements_member(self.uses@, 0);
            }
            if self.consumes@.len() == 0 {
                vecset::lemma_elements_empty(self.consumes@);
            } else {
                vecset::lemma_elements_member(self.consumes@, 0);
            }
        }
        self.uses.len() == 0 && self.consumes.len() == 0
    }
}

} // verus!
