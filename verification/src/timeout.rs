//! How long a test may run.

use vstd::prelude::*;
use vstd::std_specs::convert::FromSpecImpl;

verus! {

/// Nanoseconds in a second.
pub const NANOS_PER_SEC: u32 = 1_000_000_000;

/// Nanoseconds in a millisecond.
pub const NANOS_PER_MILLI: u32 = 1_000_000;

/// Milliseconds in a second.
pub const MILLIS_PER_SEC: u64 = 1_000;

/// A span of time, kept as whole seconds and the nanoseconds beyond
/// them. Its view is the span in nanoseconds.
#[derive(Clone, Copy, Debug)]
pub struct Timeout {
    secs: u64,
    nanos: u32,
}

impl View for Timeout {
    type V = nat;

    closed spec fn view(&self) -> nat {
        (self.secs * 1_000_000_000 + self.nanos) as nat
    }
}

impl Timeout {
    #[verifier::type_invariant]
    spec fn inv(self) -> bool {
        self.nanos < 1_000_000_000
    }

    /// The timeout of `ms` milliseconds.
    pub closed spec fn of_millis(ms: nat) -> Timeout {
        Timeout { secs: (ms / 1_000) as u64, nanos: ((ms % 1_000) * 1_000_000) as u32 }
    }

    /// A timeout of milliseconds lasts a million nanoseconds for each.
    pub proof fn lemma_of_millis(ms: u64)
        ensures
            Timeout::of_millis(ms as nat)@ == ms * 1_000_000,
    {
        let q = ms as nat / 1_000;
        let r = ms as nat % 1_000;
        assert(ms as nat == q * 1_000 + r);
        assert(r * 1_000_000 < 1_000_000_000);
        assert((q * 1_000 + r) * 1_000_000 == q * 1_000_000_000 + r * 1_000_000) by (nonlinear_arith);
    }

    /// The timeout of `secs` seconds and `nanos` nanoseconds. A billion
    /// nanoseconds or more carry over into the seconds.
    pub fn new(secs: u64, nanos: u32) -> (r: Self)
        requires
            secs + nanos / 1_000_000_000 <= u64::MAX,
        ensures
            r@ == secs * 1_000_000_000 + nanos,
    {
        let carry: u32 = nanos / NANOS_PER_SEC;
        let rest: u32 = nanos % NANOS_PER_SEC;
        let carry_secs: u64 = carry as u64;
        Timeout { secs: secs + carry_secs, nanos: rest }
    }

    /// The timeout of `ms` milliseconds.
    pub fn from_millis(ms: u64) -> (r: Self)
        ensures
            r == Timeout::of_millis(ms as nat),
            r@ == ms * 1_000_000,
    {
        proof {
            Timeout::lemma_of_millis(ms);
        }
        let rest: u64 = ms % MILLIS_PER_SEC;
        let rest_small: u32 = rest as u32;
        Timeout { secs: ms / MILLIS_PER_SEC, nanos: rest_small * NANOS_PER_MILLI }
    }

    /// The timeout of `ms` milliseconds, for a count that is not negative.
    pub fn from_signed_millis(ms: i32) -> (r: Self)
        requires
            ms >= 0,
        ensures
            r@ == ms * 1_000_000,
    {
        Timeout::from_millis(ms as u64)
    }

    /// The span as whole seconds and the nanoseconds beyond them, fewer
    /// than a billion.
    pub fn duration(self) -> (r: (u64, u32))
        ensures
            r.0 * 1_000_000_000 + r.1 == self@,
            r.1 < 1_000_000_000,
    {
        proof {
            use_type_invariant(&self);
        }
        (self.secs, self.nanos)
    }

    /// Whole milliseconds of the span.
    pub fn as_millis(self) -> (r: u128)
        ensures
            r == self@ / 1_000_000,
    {
        proof {
            use_type_invariant(&self);
        }
        let secs: u128 = self.secs as u128;
        let nanos: u128 = self.nanos as u128;
        let r = secs * 1_000 + nanos / 1_000_000;
        assert(r == (secs * 1_000_000_000 + nanos) / 1_000_000) by (nonlinear_arith)
            requires
                r == secs * 1_000 + nanos / 1_000_000,
                nanos < 1_000_000_000,
        ;
        r
    }

    /// Tells whether the span is empty.
    pub fn is_zero(self) -> (r: bool)
        ensures
            r == (self@ == 0),
    {
        self.secs == 0 && self.nanos == 0
    }
}

/// Converts a milliseconds value in a [`Timeout`].
impl From<u64> for Timeout {
    fn from(value: u64) -> (r: Self)
        ensures
            r@ == value * 1_000_000,
    {
        Timeout::from_millis(value)
    }
}

impl FromSpecImpl<u64> for Timeout {
    open spec fn obeys_from_spec() -> bool {
        true
    }

    open spec fn from_spec(v: u64) -> Self {
        Timeout::of_millis(v as nat)
    }
}

/// Converts a milliseconds value in a [`Timeout`].
impl From<u32> for Timeout {
    fn from(value: u32) -> (r: Self)
        ensures
            r@ == value * 1_000_000,
    {
        Timeout::from_millis(value as u64)
    }
}

impl FromSpecImpl<u32> for Timeout {
    open spec fn obeys_from_spec() -> bool {
        true
    }

    open spec fn from_spec(v: u32) -> Self {
        Timeout::of_millis(v as nat)
    }
}

} // verus!
