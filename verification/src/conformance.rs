//! The conformance gate: a pure predicate, consulted only after a full
//! decode, that checks the reconstructed object against a caller-supplied
//! parameter set before it is released.
use vstd::prelude::*;

verus! {

/// A type whose values can be checked against a type-specific parameter
/// set after decoding.
pub trait ParameterSetConformant: View {
    type ParameterSet;

    /// The predicate the exec check decides.
    spec fn spec_is_conformant(v: Self::V, parameter_set: Self::ParameterSet) -> bool;

    /// Pure check of the decoded object against the parameter set; no
    /// side effects, cannot mutate the object.
    fn is_conformant(&self, parameter_set: &Self::ParameterSet) -> (r: bool)
        ensures
            r == Self::spec_is_conformant(self@, *parameter_set),
    ;
}

/// A constraint on the number of elements of a decoded list: an inclusive
/// range of accepted sizes.
#[derive(Debug, Clone, Copy, PartialEq, Eq, Structural)]
pub struct ListSizeConstraint {
    pub min_inclusive: usize,
    pub max_inclusive: usize,
}

impl ListSizeConstraint {
    /// Accepts exactly `size` elements.
    pub fn exact_size(size: usize) -> (r: Self)
        ensures
            r.min_inclusive == size,
            r.max_inclusive == size,
    {
        ListSizeConstraint { min_inclusive: size, max_inclusive: size }
    }

    /// Accepts any count between the two bounds, inclusive; rejects an
    /// empty range.
    pub fn try_size_in_range(min_inclusive: usize, max_inclusive: usize) -> (r: Result<
        Self,
        String,
    >)
        ensures
            match r {
                Ok(c) => min_inclusive <= max_inclusive && c.min_inclusive == min_inclusive
                    && c.max_inclusive == max_inclusive,
                Err(_) => min_inclusive > max_inclusive,
            },
    {
        if min_inclusive > max_inclusive {
            Err("invalid size range".to_owned())
        } else {
            Ok(ListSizeConstraint { min_inclusive, max_inclusive })
        }
    }

    /// Whether `len` lies inside the accepted range.
    pub open spec fn spec_accepts(self, len: int) -> bool {
        self.min_inclusive <= len <= self.max_inclusive
    }
}

} // verus!
