//! Errors reporting a violation of the single-trailing-nul invariant.

use vstd::prelude::*;

verus! {

/// An error returned when an unexpected nul is found in the string, slice or
/// vector provided.
#[derive(Clone, PartialEq, Eq, Debug)]
pub struct NulError {
    position: usize,
    units: Option<Vec<u16>>,
}

/// An error returned when an expected nul is not found in the string, slice
/// or vector provided.
#[derive(Clone, PartialEq, Eq, Debug)]
pub struct NoNulError {
    units: Option<Vec<u16>>,
}

/// Build a [`NulError`] recording the offset of the offending nul and, when
/// the caller handed ownership in, the rejected data.
pub fn nul(p: usize, s: Option<Vec<u16>>) -> (r: NulError)
    ensures
        r.spec_position() == p,
        r.spec_units() == s.deep_view(),
{
    NulError { position: p, units: s }
}

/// Build a [`NoNulError`], optionally carrying the rejected data back to the
/// caller.
pub fn no_nul(s: Option<Vec<u16>>) -> (r: NoNulError)
    ensures
        r.spec_units() == s.deep_view(),
{
    NoNulError { units: s }
}

impl NulError {
    /// The offset of the unexpected nul, in code units.
    pub closed spec fn spec_position(&self) -> int {
        self.position as int
    }

    /// The rejected data, present only when ownership was passed in.
    pub closed spec fn spec_units(&self) -> Option<Seq<u16>> {
        self.units.deep_view()
    }

    /// Return the position of the nul in u16 units.
    pub fn nul_position(&self) -> (r: usize)
        ensures
            r == self.spec_position(),
    {
        self.position
    }

    /// Consume this error, returning the underlying buffer that contains the
    /// nul. The buffer is present only when one was passed in by value to the
    /// failed operation; otherwise this returns `None`.
    pub fn into_vec(self) -> (r: Option<Vec<u16>>)
        ensures
            r.deep_view() == self.spec_units(),
    {
        self.units
    }

    /// A short description of the failure.
    pub fn description(&self) -> (r: &'static str)
        ensures
            r@ == "nul found"@,
    {
        "nul found"
    }
}

impl NoNulError {
    /// The rejected data, present only when ownership was passed in.
    pub closed spec fn spec_units(&self) -> Option<Seq<u16>> {
        self.units.deep_view()
    }

    /// Consume this error, returning the underlying buffer in which no nul
    /// was found. The buffer is present only when one was passed in by value
    /// to the failed operation; otherwise this returns `None`.
    pub fn into_vec(self) -> (r: Option<Vec<u16>>)
        ensures
            r.deep_view() == self.spec_units(),
    {
        self.units
    }

    /// A short description of the failure.
    pub fn description(&self) -> (r: &'static str)
        ensures
            r@ == "no nul found"@,
    {
        "no nul found"
    }
}

} // verus!
