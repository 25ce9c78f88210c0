//! Keeping secrets and paths out of logs.
use vstd::prelude::*;
use crate::text::copy_str;

verus! {

/// A value to be logged only as `<redacted>`.
pub struct Redact<T>(T);

impl<T> Redact<T> {
    /// The value held.
    pub closed spec fn inner(self) -> T {
        self.0
    }

    pub fn new(value: T) -> (r: Self)
        ensures
            r.inner() == value,
    {
        Redact(value)
    }

    /// What is logged in place of the value.
    pub fn shown(&self) -> (r: String)
        ensures
            r@ == "<redacted>"@,
    {
        copy_str("<redacted>")
    }
}

} // verus!
