//! A cryptographic artifact persistence layer: keys, ciphertext
//! containers, proof parameters and curve elements are encoded to bytes
//! and decoded back across releases, without ever reconstructing a wrong
//! object from malformed, stale or adversarial input.
//!
//! Three mechanisms cooperate: a type-versioning engine
//! ([`versioning`]) that folds every historical persisted shape into the
//! current in-memory one; a compact curve-point codec ([`points`],
//! [`fields`]) with exact decompression and canonical signs; and a safe
//! deserialization envelope ([`safe_serialization`]) that wraps every
//! payload with validated metadata, enforces byte-size ceilings before
//! anything is materialized, and gates the decoded object on a
//! caller-supplied conformance check ([`conformance`]).
pub mod codec;
pub mod conformance;
pub mod curve;
pub mod errors;
pub mod fields;
pub mod lwe_keyswitch_key;
pub mod points;
pub mod public_params;
pub mod safe_serialization;
pub mod seeded_lwe_keyswitch_key;
pub mod traits;
pub mod versioning;
pub mod wire;
