use aes_gcm::aead::generic_array::GenericArray;
use aes_gcm::aead::{Aead, KeyInit};
use aes_gcm::Aes256Gcm;
use aes_gcm_siv::Aes256GcmSiv;
use vstd::prelude::*;

verus! {

/// Why an AEAD call returned no result.
#[derive(Debug, Clone, Copy, PartialEq, Eq, Structural)]
pub enum AeadFailure {
    /// The key is not 32 bytes long.
    BadKeyLength,
    /// The cipher refused the input: a message too long to seal, or a
    /// ciphertext that does not authenticate.
    Rejected,
}

/// The longest message, in bytes, that AES-GCM and AES-GCM-SIV seal
/// (`P_MAX`, 2^36, in both crates).
pub open spec fn aead_max_message_len() -> nat {
    0x10_0000_0000
}

/// The length of the tag that both ciphers append to a ciphertext.
pub open spec fn aead_tag_len() -> nat {
    16
}

/// Byte `index` of what `Aes256GcmSiv` seals: the ciphertext of `plaintext`
/// under `key` and `nonce`, followed by its tag.
pub uninterp spec fn aes256_gcm_siv_output_byte(
    key: Seq<u8>,
    nonce: Seq<u8>,
    plaintext: Seq<u8>,
    index: int,
) -> u8;

/// The AES-256-GCM-SIV sealing of `plaintext`: as many bytes as the plaintext,
/// then the 16-byte tag.
pub open spec fn aes256_gcm_siv_seal(key: Seq<u8>, nonce: Seq<u8>, plaintext: Seq<u8>) -> Seq<u8> {
    Seq::new(
        plaintext.len() + aead_tag_len(),
        |i: int| aes256_gcm_siv_output_byte(key, nonce, plaintext, i),
    )
}

/// What `Aes256GcmSiv` opens from a sealed text, `None` where it refuses it.
pub uninterp spec fn aes256_gcm_siv_open(
    key: Seq<u8>,
    nonce: Seq<u8>,
    ciphertext: Seq<u8>,
) -> Option<Seq<u8>>;

/// Byte `index` of what `Aes256Gcm` seals: the ciphertext of `plaintext` under
/// `key` and `nonce`, followed by its tag.
pub uninterp spec fn aes256_gcm_output_byte(
    key: Seq<u8>,
    nonce: Seq<u8>,
    plaintext: Seq<u8>,
    index: int,
) -> u8;

/// The AES-256-GCM sealing of `plaintext`: as many bytes as the plaintext,
/// then the 16-byte tag.
pub open spec fn aes256_gcm_seal(key: Seq<u8>, nonce: Seq<u8>, plaintext: Seq<u8>) -> Seq<u8> {
    Seq::new(
        plaintext.len() + aead_tag_len(),
        |i: int| aes256_gcm_output_byte(key, nonce, plaintext, i),
    )
}

/// What `Aes256Gcm` opens from a sealed text, `None` where it refuses it.
pub uninterp spec fn aes256_gcm_open(key: Seq<u8>, nonce: Seq<u8>, ciphertext: Seq<u8>) -> Option<
    Seq<u8>,
>;

/// Seals a message with AES-256-GCM-SIV (`Aes256GcmSiv::new_from_slice`, then
/// `Aead::encrypt` without associated data). The key must be 32 bytes; the
/// message at most `P_MAX` bytes. Distinct messages under one key and nonce
/// seal to distinct texts, since each opens back to its message.
#[verifier::external_body]
pub(crate) fn aes256_gcm_siv_encrypt(key: &[u8], nonce: &[u8], plaintext: &[u8]) -> (sealed: Result<
    Vec<u8>,
    AeadFailure,
>)
    requires
        nonce@.len() == 12,
    ensures
        (sealed is Err && sealed->Err_0 == AeadFailure::BadKeyLength) <==> key@.len() != 32,
        key@.len() == 32 ==> (sealed is Ok <==> plaintext@.len() <= aead_max_message_len()),
        sealed is Ok ==> sealed->Ok_0@ == aes256_gcm_siv_seal(key@, nonce@, plaintext@),
        sealed is Ok ==> forall|i: int|
            0 <= i < sealed->Ok_0@.len() ==> #[trigger] sealed->Ok_0@[i] == aes256_gcm_siv_output_byte(
                key@,
                nonce@,
                plaintext@,
                i,
            ),
        sealed is Ok ==> forall|m: Seq<u8>|
            m.len() <= aead_max_message_len() && #[trigger] aes256_gcm_siv_seal(key@, nonce@, m)
                == sealed->Ok_0@ ==> m == plaintext@,
{
    let cipher = match Aes256GcmSiv::new_from_slice(key) {
        Ok(c) => c,
        Err(_) => return Err(AeadFailure::BadKeyLength),
    };
    match cipher.encrypt(GenericArray::from_slice(nonce), plaintext) {
        Ok(c) => Ok(c),
        Err(_) => Err(AeadFailure::Rejected),
    }
}

/// Opens a text sealed with AES-256-GCM-SIV (`Aes256GcmSiv::new_from_slice`,
/// then `Aead::decrypt` without associated data). The key must be 32 bytes.
/// A text that this cipher sealed from a message under the same key and nonce
/// opens to that message; and a text that opens is the sealing of what it
/// opens to, since the cipher recomputes the tag from the opened message.
#[verifier::external_body]
pub(crate) fn aes256_gcm_siv_decrypt(key: &[u8], nonce: &[u8], ciphertext: &[u8]) -> (opened:
    Result<Vec<u8>, AeadFailure>)
    requires
        nonce@.len() == 12,
    ensures
        (opened is Err && opened->Err_0 == AeadFailure::BadKeyLength) <==> key@.len() != 32,
        key@.len() == 32 ==> (opened is Ok <==> aes256_gcm_siv_open(key@, nonce@, ciphertext@) is Some),
        opened is Ok ==> aes256_gcm_siv_open(key@, nonce@, ciphertext@) == Some(opened->Ok_0@),
        opened is Ok && opened->Ok_0@.len() <= aead_max_message_len() ==> aes256_gcm_siv_seal(
            key@,
            nonce@,
            opened->Ok_0@,
        ) == ciphertext@,
        key@.len() == 32 ==> forall|m: Seq<u8>|
            m.len() <= aead_max_message_len() && #[trigger] aes256_gcm_siv_seal(key@, nonce@, m)
                == ciphertext@ ==> (opened is Ok && opened->Ok_0@ == m),
{
    let cipher = match Aes256GcmSiv::new_from_slice(key) {
        Ok(c) => c,
        Err(_) => return Err(AeadFailure::BadKeyLength),
    };
    match cipher.decrypt(GenericArray::from_slice(nonce), ciphertext) {
        Ok(p) => Ok(p),
        Err(_) => Err(AeadFailure::Rejected),
    }
}

/// Seals a message with AES-256-GCM (`Aes256Gcm::new_from_slice`, then
/// `Aead::encrypt` without associated data). The key must be 32 bytes; the
/// message at most `P_MAX` bytes.
#[verifier::external_body]
pub(crate) fn aes256_gcm_encrypt(key: &[u8], nonce: &[u8], plaintext: &[u8]) -> (sealed: Result<
    Vec<u8>,
    AeadFailure,
>)
    requires
        nonce@.len() == 12,
    ensures
        (sealed is Err && sealed->Err_0 == AeadFailure::BadKeyLength) <==> key@.len() != 32,
        key@.len() == 32 ==> (sealed is Ok <==> plaintext@.len() <= aead_max_message_len()),
        sealed is Ok ==> sealed->Ok_0@ == aes256_gcm_seal(key@, nonce@, plaintext@),
        sealed is Ok ==> forall|i: int|
            0 <= i < sealed->Ok_0@.len() ==> #[trigger] sealed->Ok_0@[i] == aes256_gcm_output_byte(
                key@,
                nonce@,
                plaintext@,
                i,
            ),
{
    let cipher = match Aes256Gcm::new_from_slice(key) {
        Ok(c) => c,
        Err(_) => return Err(AeadFailure::BadKeyLength),
    };
    match cipher.encrypt(GenericArray::from_slice(nonce), plaintext) {
        Ok(c) => Ok(c),
        Err(_) => Err(AeadFailure::Rejected),
    }
}

/// Opens a text sealed with AES-256-GCM (`Aes256Gcm::new_from_slice`, then
/// `Aead::decrypt` without associated data). The key must be 32 bytes. A text
/// that this cipher sealed from a message under the same key and nonce opens
/// to that message; and a text that opens is the sealing of what it opens to,
/// since sealing is deterministic under a given key and nonce.
#[verifier::external_body]
pub(crate) fn aes256_gcm_decrypt(key: &[u8], nonce: &[u8], ciphertext: &[u8]) -> (opened: Result<
    Vec<u8>,
    AeadFailure,
>)
    requires
        nonce@.len() == 12,
    ensures
        (opened is Err && opened->Err_0 == AeadFailure::BadKeyLength) <==> key@.len() != 32,
        key@.len() == 32 ==> (opened is Ok <==> aes256_gcm_open(key@, nonce@, ciphertext@) is Some),
        opened is Ok ==> aes256_gcm_open(key@, nonce@, ciphertext@) == Some(opened->Ok_0@),
        opened is Ok && opened->Ok_0@.len() <= aead_max_message_len() ==> aes256_gcm_seal(
            key@,
            nonce@,
            opened->Ok_0@,
        ) == ciphertext@,
        key@.len() == 32 ==> forall|m: Seq<u8>|
            m.len() <= aead_max_message_len() && #[trigger] aes256_gcm_seal(key@, nonce@, m)
                == ciphertext@ ==> (opened is Ok && opened->Ok_0@ == m),
{
    let cipher = match Aes256Gcm::new_from_slice(key) {
        Ok(c) => c,
        Err(_) => return Err(AeadFailure::BadKeyLength),
    };
    match cipher.decrypt(GenericArray::from_slice(nonce), ciphertext) {
        Ok(p) => Ok(p),
        Err(_) => Err(AeadFailure::Rejected),
    }
}

} // verus!
