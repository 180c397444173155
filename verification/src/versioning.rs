//! The type-versioning engine. Every persisted structure has a closed,
//! ordered set of historical shapes carried by a dispatch enum; encoding
//! always tags the current shape, and decoding folds any legally tagged
//! historical shape into the current one through its upgrade chain.
use vstd::prelude::*;

use crate::fields::{
    SerializableCubicExtField, SerializableFp, SerializableFp2, SerializableFp6,
    SerializableQuadExtField,
};
use crate::points::SerializableAffine;

verus! {

/// A structure that can evolve its persisted shape across releases.
///
/// `Versioned` is the dispatch enum over every shape the structure ever
/// had; `versionize` always tags the current shape, and `unversionize`
/// runs the upgrade chain from whatever shape was decoded. Implementations
/// prove the round trip: folding back a freshly tagged value is the
/// identity, for every value of every structure.
pub trait Versionize: View + Sized {
    type Versioned: View;

    /// The tagged value that encoding emits for abstract value `v`.
    spec fn spec_versionize(v: Self::V) -> <Self::Versioned as View>::V;

    /// What the upgrade chain yields for a tagged value: the current
    /// in-memory value, or nothing when a declared upgrade step fails.
    spec fn spec_unversionize(w: <Self::Versioned as View>::V) -> Option<Self::V>;

    /// Tags the value with the current shape.
    fn versionize(self) -> (r: Self::Versioned)
        ensures
            r@ == Self::spec_versionize(self@),
    ;

    /// Folds a tagged value into the current shape, applying the upgrade
    /// steps registered for its tag.
    fn unversionize(w: Self::Versioned) -> (r: Result<Self, String>)
        ensures
            match Self::spec_unversionize(w@) {
                Some(v) => r matches Ok(x) && x@ == v,
                None => r is Err,
            },
    ;

    /// Round trip: a value tagged with the current shape always folds
    /// back to itself.
    proof fn versionize_unversionize(v: Self::V)
        ensures
            Self::spec_unversionize(Self::spec_versionize(v)) == Some(v),
    ;
}

#[derive(Debug, Clone, PartialEq, Eq)]
pub enum SerializableFpVersions {
    V0(SerializableFp),
}

impl View for SerializableFpVersions {
    type V = Seq<u64>;

    open spec fn view(&self) -> Seq<u64> {
        match self {
            SerializableFpVersions::V0(fp) => fp@,
        }
    }
}

impl Versionize for SerializableFp {
    type Versioned = SerializableFpVersions;

    open spec fn spec_versionize(v: Seq<u64>) -> Seq<u64> {
        v
    }

    open spec fn spec_unversionize(w: Seq<u64>) -> Option<Seq<u64>> {
        Some(w)
    }

    fn versionize(self) -> (r: SerializableFpVersions) {
        SerializableFpVersions::V0(self)
    }

    fn unversionize(w: SerializableFpVersions) -> (r: Result<Self, String>) {
        match w {
            SerializableFpVersions::V0(fp) => Ok(fp),
        }
    }

    proof fn versionize_unversionize(v: Seq<u64>) {
    }
}

#[derive(Debug, Clone, PartialEq, Eq)]
pub enum SerializableAffineVersions<F> {
    V0(SerializableAffine<F>),
}

impl<F: View> View for SerializableAffineVersions<F> {
    type V = <SerializableAffine<F> as View>::V;

    open spec fn view(&self) -> Self::V {
        match self {
            SerializableAffineVersions::V0(a) => a@,
        }
    }
}

impl<F: View> Versionize for SerializableAffine<F> {
    type Versioned = SerializableAffineVersions<F>;

    open spec fn spec_versionize(v: Self::V) -> Self::V {
        v
    }

    open spec fn spec_unversionize(w: Self::V) -> Option<Self::V> {
        Some(w)
    }

    fn versionize(self) -> (r: SerializableAffineVersions<F>) {
        SerializableAffineVersions::V0(self)
    }

    fn unversionize(w: SerializableAffineVersions<F>) -> (r: Result<Self, String>) {
        match w {
            SerializableAffineVersions::V0(a) => Ok(a),
        }
    }

    proof fn versionize_unversionize(v: Self::V) {
    }
}

#[derive(Debug, Clone, PartialEq, Eq)]
pub enum SerializableQuadExtFieldVersions<F> {
    V0(SerializableQuadExtField<F>),
}

impl<F: View> View for SerializableQuadExtFieldVersions<F> {
    type V = <SerializableQuadExtField<F> as View>::V;

    open spec fn view(&self) -> Self::V {
        match self {
            SerializableQuadExtFieldVersions::V0(q) => q@,
        }
    }
}

impl<F: View> Versionize for SerializableQuadExtField<F> {
    type Versioned = SerializableQuadExtFieldVersions<F>;

    open spec fn spec_versionize(v: Self::V) -> Self::V {
        v
    }

    open spec fn spec_unversionize(w: Self::V) -> Option<Self::V> {
        Some(w)
    }

    fn versionize(self) -> (r: SerializableQuadExtFieldVersions<F>) {
        SerializableQuadExtFieldVersions::V0(self)
    }

    fn unversionize(w: SerializableQuadExtFieldVersions<F>) -> (r: Result<Self, String>) {
        match w {
            SerializableQuadExtFieldVersions::V0(q) => Ok(q),
        }
    }

    proof fn versionize_unversionize(v: Self::V) {
    }
}

#[derive(Debug, Clone, PartialEq, Eq)]
pub enum SerializableCubicExtFieldVersions<F> {
    V0(SerializableCubicExtField<F>),
}

impl<F: View> View for SerializableCubicExtFieldVersions<F> {
    type V = <SerializableCubicExtField<F> as View>::V;

    open spec fn view(&self) -> Self::V {
        match self {
            SerializableCubicExtFieldVersions::V0(c) => c@,
        }
    }
}

impl<F: View> Versionize for SerializableCubicExtField<F> {
    type Versioned = SerializableCubicExtFieldVersions<F>;

    open spec fn spec_versionize(v: Self::V) -> Self::V {
        v
    }

    open spec fn spec_unversionize(w: Self::V) -> Option<Self::V> {
        Some(w)
    }

    fn versionize(self) -> (r: SerializableCubicExtFieldVersions<F>) {
        SerializableCubicExtFieldVersions::V0(self)
    }

    fn unversionize(w: SerializableCubicExtFieldVersions<F>) -> (r: Result<Self, String>) {
        match w {
            SerializableCubicExtFieldVersions::V0(c) => Ok(c),
        }
    }

    proof fn versionize_unversionize(v: Self::V) {
    }
}

/// Dispatch enum for an opaque proof payload, carried for encoding and
/// decoding only.
#[derive(Debug, Clone, PartialEq, Eq)]
pub enum ProofVersions<P> {
    V0(P),
}

impl<P: View> View for ProofVersions<P> {
    type V = P::V;

    open spec fn view(&self) -> Self::V {
        match self {
            ProofVersions::V0(p) => p@,
        }
    }
}

pub type SerializableG1AffineVersions = SerializableAffineVersions<SerializableFp>;

pub type SerializableG2AffineVersions = SerializableAffineVersions<SerializableFp2>;

pub type SerializableFp12Versions = SerializableQuadExtFieldVersions<SerializableFp6>;

} // verus!
