//! The value that a skipped test returns.

use vstd::prelude::*;

verus! {

/// Allows to construct the return value when a test is skipped and no
/// explicit value was configured. Implement it for return types that
/// are not covered here.
pub trait DefaultReturn: Sized {
    fn default_return() -> Self;
}

impl DefaultReturn for () {
    fn default_return() -> (r: Self)
        ensures
            r == (),
    {
        ()
    }
}

impl<T: Default, E> DefaultReturn for Result<T, E> {
    fn default_return() -> (r: Self)
        ensures
            r is Ok,
            call_ensures(T::default, (), r->Ok_0),
    {
        Ok(T::default())
    }
}

} // verus!
