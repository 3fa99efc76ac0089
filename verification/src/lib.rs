//! Selective disclosure of observed TLS sessions.
//!
//! The crate has two halves. The record layer half
//! ([`record_layer::RecordLayer`]) is the single authority over when a
//! transport-level record may be encrypted or decrypted: it tracks the key
//! lifecycle of each traffic direction, counts records against soft and hard
//! usage limits, and meters trial decryption, while the cryptographic
//! transform itself is delegated to an injected [`record_layer::Backend`].
//! The presentation half ([`presentation::Presentation`]) is a signed bundle
//! that selectively reveals byte ranges of a recorded session; its verifier
//! reconstructs the redacted transcript ([`transcript`]) and checks the
//! disclosed bytes against the signed commitments under a pluggable
//! [`crypto::CryptoProvider`].

pub mod bytes;
pub mod crypto;
pub mod presentation;
pub mod record_layer;
pub mod transcript;
