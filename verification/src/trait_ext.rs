//! Small extensions of std types.
use vstd::prelude::*;

verus! {

/// The value inside a result whose two sides have the same type, as a
/// short-circuiting fold leaves it.
pub trait ExtractResult<T> {
    fn extract(self) -> T;
}

impl<T> ExtractResult<T> for Result<T, T> {
    fn extract(self) -> (r: T)
        ensures
            r == match self {
                Ok(v) => v,
                Err(v) => v,
            },
    {
        match self {
            Ok(val) => val,
            Err(val) => val,
        }
    }
}

} // verus!
