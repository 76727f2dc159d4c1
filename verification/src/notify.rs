//! Serial-number notification channel: a counter that moves on every
//! release, and tokens that remember where it stood.

use vstd::prelude::*;

verus! {

/// Snapshot of the change counter, taken before a reservation attempt.
#[derive(Clone, Copy, Debug)]
pub struct NotifyToken(u64);

impl NotifyToken {
    /// The counter value this token remembers.
    pub closed spec fn serial(&self) -> nat {
        self.0 as nat
    }
}

/// The change counter of a registry.
pub struct ResourceManagerNotify {
    serial: u64,
}

impl Default for ResourceManagerNotify {
    fn default() -> (r: Self)
        ensures
            r.serial() == 0,
            r.can_notify(),
    {
        ResourceManagerNotify::new()
    }
}

impl ResourceManagerNotify {
    /// Number of notifications issued so far.
    pub closed spec fn serial(&self) -> nat {
        self.serial as nat
    }

    /// True while another notification still fits into the counter.
    pub open spec fn can_notify(&self) -> bool {
        self.serial() < u64::MAX
    }

    /// A channel on which nothing has been notified yet.
    pub fn new() -> (r: Self)
        ensures
            r.serial() == 0,
            r.can_notify(),
    {
        ResourceManagerNotify { serial: 0 }
    }

    /// Exec test for [`Self::can_notify`].
    pub fn has_room(&self) -> (r: bool)
        ensures
            r == self.can_notify(),
    {
        self.serial < u64::MAX
    }

    /// Records one change: the counter advances by exactly one, so every
    /// token taken before this call stops matching.
    pub fn notify(&mut self)
        requires
            old(self).can_notify(),
        ensures
            final(self).serial() == old(self).serial() + 1,
    {
        self.serial = self.serial + 1;
    }

    /// Reads the counter.
    pub fn token(&self) -> (t: NotifyToken)
        ensures
            t.serial() == self.serial(),
    {
        NotifyToken(self.serial)
    }

    /// Decides whether the holder of `token` has to go on sleeping: true
    /// exactly when nothing was notified since the token was taken.
    pub fn wait(&self, token: NotifyToken) -> (blocked: bool)
        ensures
            blocked == (self.serial() == token.serial()),
    {
        self.serial == token.0
    }
}

/// No wakeup is lost: a token taken when the counter stood at `taken`
/// does not block any more once the counter has moved on, however far.
pub proof fn lemma_moved_counter_wakes(token: NotifyToken, taken: nat, now: ResourceManagerNotify)
    requires
        token.serial() == taken,
        now.serial() > taken,
    ensures
        now.serial() != token.serial(),
{
}

} // verus!
