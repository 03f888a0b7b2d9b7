//! Conversions between wrapper types and the values they carry, named so
//! that the direction and the cost are visible at the call site.

use vstd::prelude::*;

verus! {

/// Borrows the carried value.
pub trait AsInner<Inner> {
    fn as_inner(&self) -> &Inner;
}

/// Borrows the carried value mutably.
pub trait AsInnerMut<Inner> {
    fn as_inner_mut(&mut self) -> &mut Inner;
}

/// Unwraps the carried value.
pub trait IntoInner<Inner> {
    fn into_inner(self) -> Inner;
}

/// Wraps a value without validation.
pub trait FromInner<Inner>: Sized {
    fn from_inner(inner: Inner) -> Self;
}

/// Wraps a value, validating it first.
pub trait TryFromInner<Inner>: Sized {
    type Error;

    fn try_from_inner(inner: Inner) -> Result<Self, Self::Error>;
}

} // verus!
