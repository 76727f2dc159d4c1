//! The state of one resource: who owns it, and who uses it.

use vstd::prelude::*;
use crate::id::{ResourceId, ResourceIdView};
use crate::location::{Location, LocationView};
use crate::vecset;

verus! {

/// Who holds a resource: at most one exclusive owner, and the shared
/// users.
pub struct Holders {
    pub owner: Option<LocationView>,
    pub users: Set<LocationView>,
}

impl Holders {
    /// Nobody holds the resource.
    pub open spec fn free() -> Holders {
        Holders { owner: None, users: Set::empty() }
    }

    /// An owned resource has no users.
    pub open spec fn consistent(self) -> bool {
        self.owner is Some ==> self.users =~= Set::<LocationView>::empty()
    }

    /// `who` holds the resource, as owner or as user.
    pub open spec fn held_by(self, who: LocationView) -> bool {
        self.owner == Some(who) || self.users.contains(who)
    }

    /// The resource can be taken exclusively.
    pub open spec fn admits_exclusive(self) -> bool {
        self.owner is None && self.users =~= Set::<LocationView>::empty()
    }

    /// The resource can be shared.
    pub open spec fn admits_shared(self) -> bool {
        self.owner is None
    }

    /// The holders once `who` owns the resource.
    pub open spec fn owned_by(self, who: LocationView) -> Holders {
        Holders { owner: Some(who), users: self.users }
    }

    /// The holders once `who` uses the resource.
    pub open spec fn used_by(self, who: LocationView) -> Holders {
        Holders { owner: self.owner, users: self.users.insert(who) }
    }

    /// The holders once `who` has let go of the resource in both roles.
    pub open spec fn without(self, who: LocationView) -> Holders {
        Holders {
            owner: if self.owner == Some(who) {
                None
            } else {
                self.owner
            },
            users: self.users.remove(who),
        }
    }
}

/// Per-resource record of the registry.
pub struct Resource {
    id: ResourceId,
    owner: Option<Location>,
    users: Vec<Location>,
}

impl Resource {
    /// The record is well formed: an owner excludes users, and no user
    /// is listed twice. Every record that this module hands out is well
    /// formed, and its methods keep it so.
    pub closed spec fn wf(&self) -> bool {
        &&& self.owner is Some ==> self.users@.len() == 0
        &&& vecset::distinct(self.users@)
    }

    /// Tests whether the record is well formed.
    pub fn check(&self) -> (r: bool)
        ensures
            r == self.wf(),
    {
        (self.owner.is_none() || self.users.len() == 0) && vecset::all_distinct(&self.users)
    }

    /// In a well-formed record an owned resource has no users.
    pub proof fn lemma_consistent(&self)
        requires
            self.wf(),
        ensures
            self.holders().consistent(),
    {
        if self.owner is Some {
            vecset::lemma_elements_empty(self.users@);
        }
    }

    /// The resource that this record is about.
    pub closed spec fn id(&self) -> ResourceIdView {
        self.id@
    }

    /// Who holds the resource.
    pub closed spec fn holders(&self) -> Holders {
        Holders {
            owner: match self.owner {
                Some(l) => Some(l@),
                None => None,
            },
            users: vecset::elements(self.users@),
        }
    }

    /// A record for `id` that nobody holds.
    pub fn new(id: &ResourceId) -> (r: Self)
        ensures
            r.id() == id@,
            r.holders() == Holders::free(),
            r.wf(),
    {
        let r = Resource { id: id.clone(), owner: None, users: Vec::new() };
        proof {
            vecset::lemma_elements_empty(r.users@);
        }
        r
    }

    /// Tells whether this is the record of `id`.
    pub fn is_for(&self, id: &ResourceId) -> (r: bool)
        ensures
            r == (self.id() == id@),
    {
        self.id == *id
    }

    /// Tells whether both records are about the same resource.
    pub fn is_same_resource(&self, other: &Resource) -> (r: bool)
        ensures
            r == (self.id() == other.id()),
    {
        self.id == other.id
    }

    /// Tells whether the resource has an exclusive owner.
    pub fn has_owner(&self) -> (r: bool)
        ensures
            r == (self.holders().owner is Some),
    {
        self.owner.is_some()
    }

    /// Tells whether the resource has shared users.
    pub fn has_users(&self) -> (r: bool)
        requires
            self.wf(),
        ensures
            r == !(self.holders().users =~= Set::<LocationView>::empty()),
    {
        proof {
            if self.users@.len() == 0 {
                vecset::lemma_elements_empty(self.users@);
            } else {
                vecset::lemma_elements_member(self.users@, 0);
            }
        }
        self.users.len() > 0
    }

    /// Tells whether `who` is the exclusive owner.
    pub fn is_owned_by(&self, who: &Location) -> (r: bool)
        ensures
            r == (self.holders().owner == Some(who@)),
    {
        match &self.owner {
            Some(l) => *l == *who,
            None => false,
        }
    }

    /// Tells whether `who` is among the shared users.
    pub fn is_used_by(&self, who: &Location) -> (r: bool)
        ensures
            r == self.holders().users.contains(who@),
    {
        vecset::find(&self.users, who).is_some()
    }

    /// Number of shared users.
    pub fn user_count(&self) -> (r: usize)
        requires
            self.wf(),
        ensures
            self.holders().users.finite(),
            r == self.holders().users.len(),
    {
        proof {
            vecset::lemma_elements_len(self.users@);
        }
        self.users.len()
    }

    /// Makes `who` the exclusive owner.
    pub fn set_owner(&mut self, who: &Location)
        requires
            old(self).wf(),
            old(self).holders().admits_exclusive(),
        ensures
            final(self).id() == old(self).id(),
            final(self).holders() == old(self).holders().owned_by(who@),
            final(self).wf(),
    {
        proof {
            if self.users@.len() > 0 {
                vecset::lemma_elements_member(self.users@, 0);
            }
        }
        self.owner = Some(who.clone());
    }

    /// Adds `who` to the shared users.
    pub fn add_user(&mut self, who: &Location)
        requires
            old(self).wf(),
            old(self).holders().admits_shared(),
        ensures
            final(self).id() == old(self).id(),
            final(self).holders() == old(self).holders().used_by(who@),
            final(self).wf(),
    {
        vecset::insert(&mut self.users, who.clone());
    }

    /// Removes `who` from the record in both roles, and tells whether
    /// that changed anything.
    pub fn scrub(&mut self, who: &Location) -> (changed: bool)
        requires
            old(self).wf(),
        ensures
            final(self).id() == old(self).id(),
            final(self).holders() == old(self).holders().without(who@),
            changed == old(self).holders().held_by(who@),
            final(self).wf(),
    {
        proof {
            if self.owner is Some {
                vecset::lemma_elements_empty(self.users@);
            }
        }
        let mut changed = false;
        let owned = match &self.owner {
            Some(l) => *l == *who,
            None => false,
        };
        if owned {
            self.owner = None;
            changed = true;
        }
        let removed = vecset::remove(&mut self.users, who);
        changed || removed
    }
}

} // verus!
