//! Deterministic encryption of short secrets under a master key.
//!
//! A payload is the text `hashit:v2:` followed by the standard Base64 encoding
//! of a version byte and an AES-256-GCM-SIV ciphertext, under a key that
//! PBKDF2-HMAC-SHA256 derives from the master key with a fixed salt. Older
//! `hashit:v1:` payloads, made with AES-256-GCM under a random salt and nonce,
//! still decrypt.
//!
//! `payload` holds the formats and their model; `session` the state of the
//! desktop window; `aead`, `keys`, `encoding` and `text` the calls into the
//! cipher, key-derivation, Base64 and string code that the formats rest on.

pub mod aead;
pub mod encoding;
pub mod error;
pub mod keys;
pub mod payload;
pub mod session;
pub mod text;

pub use error::CryptoError;
pub use payload::{EncryptedPayload, PREFIX_V1, PREFIX_V2};
pub use session::{CopiedField, CopiedState, HashitApp, COPY_FEEDBACK_MS, REPAINT_INTERVAL_MS};
