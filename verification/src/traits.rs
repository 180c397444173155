//! Generic traits of the high-level encryption API surface. The library
//! only declares them: their implementations belong to the encryption
//! engine, an external collaborator, and carry no contracts here.
use vstd::prelude::*;

verus! {

/// A generic way of creating a value of an encrypted type from a native
/// value, for types that support the same number of bits of precision;
/// the key is required as it performs the actual encryption.
pub trait FheEncrypt<T, Key>: Sized {
    fn encrypt(value: T, key: &Key) -> Self;
}

/// Creation of an encrypted value that trivially wraps a native value,
/// without a key.
pub trait FheTrivialEncrypt<T>: Sized {
    fn encrypt_trivial(value: T) -> Self;
}

/// A generic fallible way of creating a value of an encrypted type, for
/// types that may not be able to represent every native value.
pub trait FheTryEncrypt<T, Key>: Sized {
    type Error;

    fn try_encrypt(value: T, key: &Key) -> Result<Self, Self::Error>;
}

/// Fallible trivial encryption.
pub trait FheTryTrivialEncrypt<T>: Sized {
    type Error;

    fn try_encrypt_trivial(value: T) -> Result<Self, Self::Error>;
}

/// Key switch a ciphertext into a new ciphertext of the same type,
/// encrypted under a different key.
pub trait FheKeyswitch<T> {
    fn keyswitch(&self, input: &T) -> T;
}

pub trait FheMin<Rhs> {
    type Output;

    fn min(&self, other: Rhs) -> Self::Output;
}

pub trait FheMax<Rhs> {
    type Output;

    fn max(&self, other: Rhs) -> Self::Output;
}

pub trait RotateLeft<Rhs>: Sized {
    type Output;

    fn rotate_left(self, amount: Rhs) -> Self::Output;
}

pub trait RotateRight<Rhs>: Sized {
    type Output;

    fn rotate_right(self, amount: Rhs) -> Self::Output;
}

pub trait RotateLeftAssign<Rhs> {
    fn rotate_left_assign(&mut self, amount: Rhs);
}

pub trait RotateRightAssign<Rhs> {
    fn rotate_right_assign(&mut self, amount: Rhs);
}

pub trait DivRem<Rhs>: Sized {
    type Output;

    fn div_rem(self, amount: Rhs) -> Self::Output;
}

/// Application of a univariate function over an encrypted message.
pub trait FheBootstrap: Sized {
    /// Computes a function over an encrypted message, returning a new
    /// encrypted value containing the result.
    fn map<F: Fn(u64) -> u64>(&self, func: F) -> Self;

    /// Computes a function over the encrypted message in place.
    fn apply<F: Fn(u64) -> u64>(&mut self, func: F);
}

/// The clear-value bounds and modulus of an encrypted numeric type.
pub trait FheNumberConstant {
    const MIN: u64;

    const MAX: u64;

    const MODULUS: u64;
}

/// Selection between two ciphertexts under an encrypted condition.
pub trait IfThenElse<Ciphertext> {
    fn if_then_else(&self, ct_then: &Ciphertext, ct_else: &Ciphertext) -> Ciphertext;

    fn select(&self, ct_when_true: &Ciphertext, ct_when_false: &Ciphertext) -> Ciphertext {
        self.if_then_else(ct_when_true, ct_when_false)
    }

    fn cmux(&self, ct_then: &Ciphertext, ct_else: &Ciphertext) -> Ciphertext {
        self.if_then_else(ct_then, ct_else)
    }
}

} // verus!
