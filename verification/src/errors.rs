//! Typed errors of the codec layer. Every failure carries the expected and
//! found quantities, and `message` — which replaces a `Display` rendering
//! with a plain `String` — is pinned to render exactly those quantities,
//! through a verified decimal renderer.
use vstd::prelude::*;

use crate::codec::{ascii_chars, ascii_only};

verus! {

use vstd::string::StringExecFns;

/// The ASCII bytes of the decimal rendering of `n`, most significant
/// digit first.
pub open spec fn dec_bytes(n: nat) -> Seq<u8>
    decreases n,
{
    if n < 10 {
        seq![(48 + n) as u8]
    } else {
        dec_bytes(n / 10) + seq![(48 + (n % 10)) as u8]
    }
}

/// The characters of the decimal rendering of `n`.
pub open spec fn dec_chars(n: nat) -> Seq<char> {
    ascii_chars(dec_bytes(n))
}

/// Every byte of a decimal rendering is an ASCII digit.
pub proof fn lemma_dec_bytes_ascii(n: nat)
    ensures
        ascii_only(dec_bytes(n)),
    decreases n,
{
    if n >= 10 {
        lemma_dec_bytes_ascii(n / 10);
    }
}

/// The decimal rendering of `n`, as bytes.
pub fn dec_bytes_of(n: usize) -> (r: Vec<u8>)
    ensures
        r@ == dec_bytes(n as nat),
    decreases n,
{
    if n < 10 {
        let mut v: Vec<u8> = Vec::new();
        v.push((48 + n) as u8);
        proof {
            assert(v@ =~= dec_bytes(n as nat));
        }
        v
    } else {
        proof {
            assert(n as int / 10 < n as int) by (nonlinear_arith)
                requires
                    n as int >= 10,
            ;
        }
        let mut v = dec_bytes_of(n / 10);
        v.push((48 + (n % 10)) as u8);
        proof {
            assert(v@ =~= dec_bytes(n as nat));
        }
        v
    }
}

/// Relies on `String::from_utf8_lossy`: ASCII bytes come back as the
/// matching characters, one per byte.
#[verifier::external_body]
pub(crate) fn bytes_to_string(v: &Vec<u8>) -> (r: String)
    ensures
        ascii_only(v@) ==> r@ == ascii_chars(v@),
{
    String::from_utf8_lossy(v.as_slice()).into_owned()
}

/// The decimal rendering of `n`, as a string.
fn render_usize(n: usize) -> (r: String)
    ensures
        r@ == dec_chars(n as nat),
{
    proof {
        lemma_dec_bytes_ascii(n as nat);
    }
    bytes_to_string(&dec_bytes_of(n))
}

/// Error returned when a conversion from a vec to a fixed size array failed
/// because the vec size is incorrect.
#[derive(Debug, Clone, Copy, PartialEq, Eq, Structural)]
pub struct InvalidArraySizeError {
    pub expected_len: usize,
    pub found_len: usize,
}

/// The shape of an array-size message: the found length's digits, then
/// the expected length's digits, in the fixed running text.
pub open spec fn array_size_message(found_digits: Seq<char>, expected_digits: Seq<char>) -> Seq<
    char,
> {
    "Invalid serialized array: found array of size "@ + found_digits + ", expected "@
        + expected_digits
}

impl InvalidArraySizeError {
    /// Human-readable rendering of the two length fields: the found
    /// length's digits, then the expected length's digits, in the fixed
    /// running text.
    pub fn message(&self) -> (r: String)
        ensures
            r@ == array_size_message(
                dec_chars(self.found_len as nat),
                dec_chars(self.expected_len as nat),
            ),
    {
        let mut s = String::from_str("Invalid serialized array: found array of size ");
        let found = render_usize(self.found_len);
        s.append(found.as_str());
        s.append(", expected ");
        let expected = render_usize(self.expected_len);
        s.append(expected.as_str());
        s
    }
}

/// Error returned when a serialized field element has the wrong limb count.
#[derive(Debug, Clone, Copy, PartialEq, Eq, Structural)]
pub struct InvalidSerializedFpError {
    pub expected_len: usize,
    pub found_len: usize,
}

/// The shape of a field-element-size message.
pub open spec fn fp_size_message(found_digits: Seq<char>, expected_digits: Seq<char>) -> Seq<char> {
    "Invalid serialized FP: found array of size "@ + found_digits + ", expected "@
        + expected_digits
}

impl InvalidSerializedFpError {
    /// Human-readable rendering of the two length fields: the found
    /// length's digits, then the expected length's digits, in the fixed
    /// running text.
    pub fn message(&self) -> (r: String)
        ensures
            r@ == fp_size_message(
                dec_chars(self.found_len as nat),
                dec_chars(self.expected_len as nat),
            ),
    {
        let mut s = String::from_str("Invalid serialized FP: found array of size ");
        let found = render_usize(self.found_len);
        s.append(found.as_str());
        s.append(", expected ");
        let expected = render_usize(self.expected_len);
        s.append(expected.as_str());
        s
    }
}

/// Error returned when a serialized affine point cannot be turned back into
/// a curve point.
#[derive(Debug, Clone, Copy, PartialEq, Eq, Structural)]
pub enum InvalidSerializedAffineError {
    InvalidFp(InvalidArraySizeError),
    InvalidCompressedXCoordinate,
}

impl InvalidSerializedAffineError {
    /// Human-readable rendering, one sentence per variant: the nested
    /// array-size message, with its exact lengths, for a bad coordinate;
    /// a fixed sentence for an x coordinate off the curve.
    pub fn message(&self) -> (r: String)
        ensures
            match self {
                InvalidSerializedAffineError::InvalidFp(e) => r@
                    == "Invalid fp element in affine: "@ + array_size_message(
                    dec_chars(e.found_len as nat),
                    dec_chars(e.expected_len as nat),
                ),
                InvalidSerializedAffineError::InvalidCompressedXCoordinate => r@
                    == "Cannot uncompress affine: X coordinate does not belong to the curve"@,
            },
    {
        match self {
            InvalidSerializedAffineError::InvalidFp(fp_error) => {
                let mut s = String::from_str("Invalid fp element in affine: ");
                let inner = fp_error.message();
                s.append(inner.as_str());
                s
            },
            InvalidSerializedAffineError::InvalidCompressedXCoordinate => {
                String::from_str(
                    "Cannot uncompress affine: X coordinate does not belong to the curve",
                )
            },
        }
    }
}

impl From<InvalidArraySizeError> for InvalidSerializedAffineError {
    fn from(value: InvalidArraySizeError) -> (r: Self) {
        InvalidSerializedAffineError::InvalidFp(value)
    }
}

impl vstd::std_specs::convert::FromSpecImpl<InvalidArraySizeError> for InvalidSerializedAffineError {
    open spec fn obeys_from_spec() -> bool {
        true
    }

    open spec fn from_spec(t: InvalidArraySizeError) -> Self {
        InvalidSerializedAffineError::InvalidFp(t)
    }
}

} // verus!
