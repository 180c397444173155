//! The zero-knowledge scheme's public parameters and their fixed-shape
//! serializable representation. The native shape holds ten 256-byte hash
//! commitments as fixed arrays; the serializable shape holds them as
//! plain vectors, whose lengths are validated on the way back.
#![allow(non_snake_case)]
use vstd::prelude::*;

use crate::errors::InvalidArraySizeError;
use crate::fields::try_vec_to_array;
use crate::points::{SerializableAffineView, SerializableG1Affine, SerializableG2Affine};
use crate::versioning::Versionize;

verus! {

broadcast use vstd::array::axiom_spec_array_as_slice;

/// Number of bytes in one hash commitment.
pub const HASH_LEN: usize = 256;

/// The two lists of group elements the proof scheme commits to.
#[derive(Debug, Clone, PartialEq, Eq)]
pub struct GroupElements {
    pub g_list: Vec<SerializableG1Affine>,
    pub g_hat_list: Vec<SerializableG2Affine>,
}

/// Abstract value of [`GroupElements`].
pub struct GroupElementsView {
    pub g_list: Seq<SerializableAffineView<Seq<u64>>>,
    pub g_hat_list: Seq<SerializableAffineView<(Seq<u64>, Seq<u64>)>>,
}

impl View for GroupElements {
    type V = GroupElementsView;

    open spec fn view(&self) -> GroupElementsView {
        GroupElementsView {
            g_list: Seq::new(self.g_list@.len(), |i: int| self.g_list@[i]@),
            g_hat_list: Seq::new(self.g_hat_list@.len(), |i: int| self.g_hat_list@[i]@),
        }
    }
}

/// Abstract value shared by [`PublicParams`] and
/// [`SerializablePublicParams`]: the conversions between the two shapes
/// preserve it exactly.
pub struct PublicParamsView {
    pub g_lists: GroupElementsView,
    pub D: int,
    pub n: int,
    pub d: int,
    pub k: int,
    pub B: u64,
    pub B_r: u64,
    pub B_bound: u64,
    pub m_bound: int,
    pub q: u64,
    pub t: u64,
    pub hash: Seq<u8>,
    pub hash_R: Seq<u8>,
    pub hash_t: Seq<u8>,
    pub hash_w: Seq<u8>,
    pub hash_agg: Seq<u8>,
    pub hash_lmap: Seq<u8>,
    pub hash_phi: Seq<u8>,
    pub hash_xi: Seq<u8>,
    pub hash_z: Seq<u8>,
    pub hash_chi: Seq<u8>,
}

/// The native public parameters: group element lists, size and bound
/// scalars, and ten fixed-size hash commitments.
#[derive(Debug, Clone, PartialEq, Eq)]
pub struct PublicParams {
    pub g_lists: GroupElements,
    pub D: usize,
    pub n: usize,
    pub d: usize,
    pub k: usize,
    pub B: u64,
    pub B_r: u64,
    pub B_bound: u64,
    pub m_bound: usize,
    pub q: u64,
    pub t: u64,
    pub hash: [u8; 256],
    pub hash_R: [u8; 256],
    pub hash_t: [u8; 256],
    pub hash_w: [u8; 256],
    pub hash_agg: [u8; 256],
    pub hash_lmap: [u8; 256],
    pub hash_phi: [u8; 256],
    pub hash_xi: [u8; 256],
    pub hash_z: [u8; 256],
    pub hash_chi: [u8; 256],
}

impl View for PublicParams {
    type V = PublicParamsView;

    open spec fn view(&self) -> PublicParamsView {
        PublicParamsView {
            g_lists: self.g_lists@,
            D: self.D as int,
            n: self.n as int,
            d: self.d as int,
            k: self.k as int,
            B: self.B,
            B_r: self.B_r,
            B_bound: self.B_bound,
            m_bound: self.m_bound as int,
            q: self.q,
            t: self.t,
            hash: self.hash@,
            hash_R: self.hash_R@,
            hash_t: self.hash_t@,
            hash_w: self.hash_w@,
            hash_agg: self.hash_agg@,
            hash_lmap: self.hash_lmap@,
            hash_phi: self.hash_phi@,
            hash_xi: self.hash_xi@,
            hash_z: self.hash_z@,
            hash_chi: self.hash_chi@,
        }
    }
}

/// Serialization equivalent of [`PublicParams`], holding the hash
/// commitments as plain vectors.
#[derive(Debug, Clone, PartialEq, Eq)]
pub struct SerializablePublicParams {
    pub g_lists: GroupElements,
    pub D: usize,
    pub n: usize,
    pub d: usize,
    pub k: usize,
    pub B: u64,
    pub B_r: u64,
    pub B_bound: u64,
    pub m_bound: usize,
    pub q: u64,
    pub t: u64,
    pub hash: Vec<u8>,
    pub hash_R: Vec<u8>,
    pub hash_t: Vec<u8>,
    pub hash_w: Vec<u8>,
    pub hash_agg: Vec<u8>,
    pub hash_lmap: Vec<u8>,
    pub hash_phi: Vec<u8>,
    pub hash_xi: Vec<u8>,
    pub hash_z: Vec<u8>,
    pub hash_chi: Vec<u8>,
}

impl View for SerializablePublicParams {
    type V = PublicParamsView;

    open spec fn view(&self) -> PublicParamsView {
        PublicParamsView {
            g_lists: self.g_lists@,
            D: self.D as int,
            n: self.n as int,
            d: self.d as int,
            k: self.k as int,
            B: self.B,
            B_r: self.B_r,
            B_bound: self.B_bound,
            m_bound: self.m_bound as int,
            q: self.q,
            t: self.t,
            hash: self.hash@,
            hash_R: self.hash_R@,
            hash_t: self.hash_t@,
            hash_w: self.hash_w@,
            hash_agg: self.hash_agg@,
            hash_lmap: self.hash_lmap@,
            hash_phi: self.hash_phi@,
            hash_xi: self.hash_xi@,
            hash_z: self.hash_z@,
            hash_chi: self.hash_chi@,
        }
    }
}

/// The length of the first hash commitment whose size is wrong, walking
/// the ten commitments in field order.
pub open spec fn first_bad_hash_len(v: PublicParamsView) -> int {
    if v.hash.len() != HASH_LEN {
        v.hash.len() as int
    } else if v.hash_R.len() != HASH_LEN {
        v.hash_R.len() as int
    } else if v.hash_t.len() != HASH_LEN {
        v.hash_t.len() as int
    } else if v.hash_w.len() != HASH_LEN {
        v.hash_w.len() as int
    } else if v.hash_agg.len() != HASH_LEN {
        v.hash_agg.len() as int
    } else if v.hash_lmap.len() != HASH_LEN {
        v.hash_lmap.len() as int
    } else if v.hash_phi.len() != HASH_LEN {
        v.hash_phi.len() as int
    } else if v.hash_xi.len() != HASH_LEN {
        v.hash_xi.len() as int
    } else if v.hash_z.len() != HASH_LEN {
        v.hash_z.len() as int
    } else {
        v.hash_chi.len() as int
    }
}

/// All ten hash commitments of a serialized view have the expected size.
pub open spec fn hashes_ok(v: PublicParamsView) -> bool {
    &&& v.hash.len() == HASH_LEN
    &&& v.hash_R.len() == HASH_LEN
    &&& v.hash_t.len() == HASH_LEN
    &&& v.hash_w.len() == HASH_LEN
    &&& v.hash_agg.len() == HASH_LEN
    &&& v.hash_lmap.len() == HASH_LEN
    &&& v.hash_phi.len() == HASH_LEN
    &&& v.hash_xi.len() == HASH_LEN
    &&& v.hash_z.len() == HASH_LEN
    &&& v.hash_chi.len() == HASH_LEN
}

impl SerializablePublicParams {
    /// The serializable form of the native parameters: every field moves
    /// across, the hash arrays become vectors.
    pub fn from(value: PublicParams) -> (r: Self)
        ensures
            r@ == value@,
    {
        let PublicParams {
            g_lists,
            D,
            n,
            d,
            k,
            B,
            B_r,
            B_bound,
            m_bound,
            q,
            t,
            hash,
            hash_R,
            hash_t,
            hash_w,
            hash_agg,
            hash_lmap,
            hash_phi,
            hash_xi,
            hash_z,
            hash_chi,
        } = value;
        SerializablePublicParams {
            g_lists,
            D,
            n,
            d,
            k,
            B,
            B_r,
            B_bound,
            m_bound,
            q,
            t,
            hash: vstd::slice::slice_to_vec(vstd::array::array_as_slice(&hash)),
            hash_R: vstd::slice::slice_to_vec(vstd::array::array_as_slice(&hash_R)),
            hash_t: vstd::slice::slice_to_vec(vstd::array::array_as_slice(&hash_t)),
            hash_w: vstd::slice::slice_to_vec(vstd::array::array_as_slice(&hash_w)),
            hash_agg: vstd::slice::slice_to_vec(vstd::array::array_as_slice(&hash_agg)),
            hash_lmap: vstd::slice::slice_to_vec(vstd::array::array_as_slice(&hash_lmap)),
            hash_phi: vstd::slice::slice_to_vec(vstd::array::array_as_slice(&hash_phi)),
            hash_xi: vstd::slice::slice_to_vec(vstd::array::array_as_slice(&hash_xi)),
            hash_z: vstd::slice::slice_to_vec(vstd::array::array_as_slice(&hash_z)),
            hash_chi: vstd::slice::slice_to_vec(vstd::array::array_as_slice(&hash_chi)),
        }
    }
}

impl PublicParams {
    /// Recovers the native parameters; fails exactly when one of the ten
    /// hash vectors does not hold [`HASH_LEN`] bytes, reporting the first
    /// offender.
    pub fn try_from(value: SerializablePublicParams) -> (r: Result<
        PublicParams,
        InvalidArraySizeError,
    >)
        ensures
            match r {
                Ok(p) => hashes_ok(value@) && p@ == value@,
                Err(e) => {
                    &&& !hashes_ok(value@)
                    &&& e.expected_len == HASH_LEN
                    &&& e.found_len == first_bad_hash_len(value@)
                },
            },
    {
        let SerializablePublicParams {
            g_lists,
            D,
            n,
            d,
            k,
            B,
            B_r,
            B_bound,
            m_bound,
            q,
            t,
            hash,
            hash_R,
            hash_t,
            hash_w,
            hash_agg,
            hash_lmap,
            hash_phi,
            hash_xi,
            hash_z,
            hash_chi,
        } = value;
        let hash = match try_vec_to_array::<u8, 256>(hash) {
            Ok(a) => a,
            Err(e) => {
                return Err(e);
            },
        };
        let hash_R = match try_vec_to_array::<u8, 256>(hash_R) {
            Ok(a) => a,
            Err(e) => {
                return Err(e);
            },
        };
        let hash_t = match try_vec_to_array::<u8, 256>(hash_t) {
            Ok(a) => a,
            Err(e) => {
                return Err(e);
            },
        };
        let hash_w = match try_vec_to_array::<u8, 256>(hash_w) {
            Ok(a) => a,
            Err(e) => {
                return Err(e);
            },
        };
        let hash_agg = match try_vec_to_array::<u8, 256>(hash_agg) {
            Ok(a) => a,
            Err(e) => {
                return Err(e);
            },
        };
        let hash_lmap = match try_vec_to_array::<u8, 256>(hash_lmap) {
            Ok(a) => a,
            Err(e) => {
                return Err(e);
            },
        };
        let hash_phi = match try_vec_to_array::<u8, 256>(hash_phi) {
            Ok(a) => a,
            Err(e) => {
                return Err(e);
            },
        };
        let hash_xi = match try_vec_to_array::<u8, 256>(hash_xi) {
            Ok(a) => a,
            Err(e) => {
                return Err(e);
            },
        };
        let hash_z = match try_vec_to_array::<u8, 256>(hash_z) {
            Ok(a) => a,
            Err(e) => {
                return Err(e);
            },
        };
        let hash_chi = match try_vec_to_array::<u8, 256>(hash_chi) {
            Ok(a) => a,
            Err(e) => {
                return Err(e);
            },
        };
        Ok(
            PublicParams {
                g_lists,
                D,
                n,
                d,
                k,
                B,
                B_r,
                B_bound,
                m_bound,
                q,
                t,
                hash,
                hash_R,
                hash_t,
                hash_w,
                hash_agg,
                hash_lmap,
                hash_phi,
                hash_xi,
                hash_z,
                hash_chi,
            },
        )
    }
}

/// Dispatch enum over every persisted shape of the serializable public
/// parameters.
#[derive(Debug, Clone, PartialEq, Eq)]
pub enum SerializablePublicParamsVersions {
    V0(SerializablePublicParams),
}

impl View for SerializablePublicParamsVersions {
    type V = PublicParamsView;

    open spec fn view(&self) -> PublicParamsView {
        match self {
            SerializablePublicParamsVersions::V0(p) => p@,
        }
    }
}

impl Versionize for SerializablePublicParams {
    type Versioned = SerializablePublicParamsVersions;

    open spec fn spec_versionize(v: PublicParamsView) -> PublicParamsView {
        v
    }

    open spec fn spec_unversionize(w: PublicParamsView) -> Option<PublicParamsView> {
        Some(w)
    }

    fn versionize(self) -> (r: SerializablePublicParamsVersions) {
        SerializablePublicParamsVersions::V0(self)
    }

    fn unversionize(w: SerializablePublicParamsVersions) -> (r: Result<Self, String>) {
        match w {
            SerializablePublicParamsVersions::V0(p) => Ok(p),
        }
    }

    proof fn versionize_unversionize(v: PublicParamsView) {
    }
}

} // verus!
