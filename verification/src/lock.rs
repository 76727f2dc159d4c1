//! The guard of a granted reservation.

use vstd::prelude::*;
use crate::id::{ResourceId, ResourceIdView};
use crate::location::{Location, LocationView};
use crate::manager::{holders_of, holds_any, released, ResourceManager, Table};
use crate::vecset;

verus! {

/// Letting go of `held` and then of `id` is letting go of both at once.
proof fn lemma_released_step(t: Table, held: Set<ResourceIdView>, id: ResourceIdView, who: LocationView)
    ensures
        released(released(t, held, who), set![id], who) == released(t, held.insert(id), who),
        holders_of(released(t, held, who), id).held_by(who) == (!held.contains(id) && holders_of(
            t,
            id,
        ).held_by(who)),
{
    let a = released(released(t, held, who), set![id], who);
    let b = released(t, held.insert(id), who);
    assert forall|x: ResourceIdView| a.dom().contains(x) implies #[trigger] a[x] == b[x] by {
        if x == id && held.contains(id) {
            assert(t[x].users.remove(who).remove(who) =~= t[x].users.remove(who));
        }
    }
    assert(a =~= b);
}

/// Holds what one reservation acquired, until it is released.
pub struct ResourceLockGuard {
    managed: Vec<ResourceId>,
    owner: Location,
}

impl ResourceLockGuard {
    /// The resources that the guard still holds.
    pub closed spec fn held(&self) -> Set<ResourceIdView> {
        vecset::elements(self.managed@)
    }

    /// The holder on whose behalf the guard was made.
    pub closed spec fn holder(&self) -> LocationView {
        self.owner@
    }

    pub(crate) fn from_parts(managed: Vec<ResourceId>, owner: Location) -> (r: Self)
        ensures
            r.held() == vecset::elements(managed@),
            r.holder() == owner@,
    {
        ResourceLockGuard { managed, owner }
    }

    /// Tells whether the guard holds nothing any more.
    pub fn is_released(&self) -> (r: bool)
        ensures
            r == (self.held() =~= Set::<ResourceIdView>::empty()),
    {
        proof {
            if self.managed@.len() == 0 {
                vecset::lemma_elements_empty(self.managed@);
            } else {
                vecset::lemma_elements_member(self.managed@, 0);
            }
        }
        self.managed.len() == 0
    }

    /// The holder on whose behalf the guard was made.
    pub fn owner(&self) -> (r: &Location)
        ensures
            r@ == self.holder(),
    {
        &self.owner
    }

    /// Tells whether the guard holds `id`.
    pub fn holds(&self, id: &ResourceId) -> (r: bool)
        ensures
            r == self.held().contains(id@),
    {
        vecset::find(&self.managed, id).is_some()
    }

    /// Lets go of everything the guard holds: the holder is scrubbed, in
    /// both roles, from the entry of each held resource, and the guard
    /// holds nothing afterwards. Where that changed an entry the change
    /// counter advances by one, after all entries are done, and the
    /// result is true: waiters are to be woken. A second release finds
    /// nothing to do. The counter must have room for the step where
    /// there is something to release.
    pub fn release(&mut self, registry: &mut ResourceManager) -> (changed: bool)
        requires
            old(registry).wf(),
            holds_any(old(registry)@, old(self).held(), old(self).holder())
                ==> old(registry).can_notify(),
        ensures
            final(registry).wf(),
            final(registry)@ == released(old(registry)@, old(self).held(), old(self).holder()),
            changed == holds_any(old(registry)@, old(self).held(), old(self).holder()),
            final(registry).serial() == old(registry).serial() + if changed {
                1nat
            } else {
                0nat
            },
            final(self).held() == Set::<ResourceIdView>::empty(),
            final(self).holder() == old(self).holder(),
    {
        let ghost t0 = registry@;
        let ghost who = self.owner@;
        let mut changed = false;
        let mut k: usize = 0;
        proof {
            vecset::lemma_elements_empty(self.managed@.subrange(0, 0));
            assert(registry@ =~= released(t0, Set::<ResourceIdView>::empty(), who));
        }
        while k < self.managed.len()
            invariant
                k <= self.managed.len(),
                registry.wf(),
                registry.serial() == old(registry).serial(),
                t0 == old(registry)@,
                who == self.owner@,
                self.managed@ == old(self).managed@,
                registry@ == released(t0, vecset::elements(self.managed@.subrange(0, k as int)), who),
                changed == holds_any(
                    t0,
                    vecset::elements(self.managed@.subrange(0, k as int)),
                    who,
                ),
            decreases self.managed.len() - k,
        {
            let ghost done = vecset::elements(self.managed@.subrange(0, k as int));
            let ghost id = self.managed@[k as int];
            proof {
                assert(self.managed@.subrange(0, k + 1) =~= self.managed@.subrange(
                    0,
                    k as int,
                ).push(id));
                vecset::lemma_elements_push(self.managed@.subrange(0, k as int), id);
                lemma_released_step(t0, done, id@, who);
            }
            let step = registry.scrub(&self.managed[k], &self.owner);
            proof {
                let next = done.insert(id@);
                if holds_any(t0, next, who) {
                    let x = choose|x: ResourceIdView|
                        next.contains(x) && (#[trigger] holders_of(t0, x)).held_by(who);
                    if x != id@ {
                        assert(done.contains(x) && holders_of(t0, x).held_by(who));
                    } else if done.contains(id@) {
                        assert(done.contains(id@) && holders_of(t0, id@).held_by(who));
                    }
                }
                if changed {
                    let x = choose|x: ResourceIdView|
                        done.contains(x) && (#[trigger] holders_of(t0, x)).held_by(who);
                    assert(next.contains(x) && holders_of(t0, x).held_by(who));
                }
                if step {
                    assert(next.contains(id@) && holders_of(t0, id@).held_by(who));
                }
            }
            changed = changed || step;
            k += 1;
        }
        proof {
            assert(self.managed@.subrange(0, k as int) =~= self.managed@);
        }
        self.managed.clear();
        proof {
            vecset::lemma_elements_empty(self.managed@);
        }
        if changed {
            registry.bump();
        }
        changed
    }
}

} // verus!
