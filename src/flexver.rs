use vstd::prelude::*;

use std::cmp::Ordering;

use crate::order::{compare, compare_versions, try_compare};
use crate::token::numeric_runs_fit;

verus! {

/// A version string that compares, and tests equal, by version order. Two
/// versions whose digit runs do not all fit in an `i64` are not comparable:
/// `partial_cmp` gives `None` and `==` gives `false`.
#[derive(Debug, Clone, Copy)]
pub struct FlexVer<'a>(pub &'a str);

/// How two versions compare, where both are comparable.
pub open spec fn flex_partial_cmp(a: Seq<char>, b: Seq<char>) -> Option<Ordering> {
    if numeric_runs_fit(a) && numeric_runs_fit(b) {
        Some(compare_versions(a, b))
    } else {
        None
    }
}

impl<'a> FlexVer<'a> {
    /// How this version orders against `other`.
    pub fn cmp(&self, other: &Self) -> (r: Ordering)
        requires
            numeric_runs_fit(self.0@),
            numeric_runs_fit(other.0@),
        ensures
            r == compare_versions(self.0@, other.0@),
    {
        compare(self.0, other.0)
    }

    /// The lesser of two versions; `self` where they are equal.
    pub fn min(self, other: Self) -> (r: Self)
        requires
            numeric_runs_fit(self.0@),
            numeric_runs_fit(other.0@),
        ensures
            r == (if compare_versions(self.0@, other.0@) == Ordering::Greater {
                other
            } else {
                self
            }),
    {
        match compare(self.0, other.0) {
            Ordering::Greater => other,
            _ => self,
        }
    }

    /// The greater of two versions; `other` where they are equal.
    pub fn max(self, other: Self) -> (r: Self)
        requires
            numeric_runs_fit(self.0@),
            numeric_runs_fit(other.0@),
        ensures
            r == (if compare_versions(self.0@, other.0@) == Ordering::Greater {
                self
            } else {
                other
            }),
    {
        match compare(self.0, other.0) {
            Ordering::Greater => self,
            _ => other,
        }
    }

    /// This version, raised to `min` or lowered to `max` where it lies outside them.
    pub fn clamp(self, min: Self, max: Self) -> (r: Self)
        requires
            numeric_runs_fit(self.0@),
            numeric_runs_fit(min.0@),
            numeric_runs_fit(max.0@),
            compare_versions(min.0@, max.0@) != Ordering::Greater,
        ensures
            r == (if compare_versions(self.0@, min.0@) == Ordering::Less {
                min
            } else if compare_versions(self.0@, max.0@) == Ordering::Greater {
                max
            } else {
                self
            }),
    {
        match compare(self.0, min.0) {
            Ordering::Less => min,
            _ => match compare(self.0, max.0) {
                Ordering::Greater => max,
                _ => self,
            },
        }
    }
}

impl<'a> PartialEq for FlexVer<'a> {
    fn eq(&self, other: &Self) -> (r: bool) {
        match try_compare(self.0, other.0) {
            Some(Ordering::Equal) => true,
            _ => false,
        }
    }
}

impl<'a> vstd::std_specs::cmp::PartialEqSpecImpl for FlexVer<'a> {
    open spec fn obeys_eq_spec() -> bool {
        true
    }

    open spec fn eq_spec(&self, other: &FlexVer<'a>) -> bool {
        flex_partial_cmp(self.0@, other.0@) == Some(Ordering::Equal)
    }
}

impl<'a> PartialOrd for FlexVer<'a> {
    fn partial_cmp(&self, other: &Self) -> (r: Option<Ordering>) {
        try_compare(self.0, other.0)
    }
}

impl<'a> vstd::std_specs::cmp::PartialOrdSpecImpl for FlexVer<'a> {
    open spec fn obeys_partial_cmp_spec() -> bool {
        true
    }

    open spec fn partial_cmp_spec(&self, other: &FlexVer<'a>) -> Option<Ordering> {
        flex_partial_cmp(self.0@, other.0@)
    }
}

} // verus!
