use crate::aead::{
    aead_max_message_len, aes256_gcm_decrypt, aes256_gcm_encrypt, aes256_gcm_open, aes256_gcm_seal,
    aes256_gcm_siv_decrypt, aes256_gcm_siv_encrypt, aes256_gcm_siv_open, aes256_gcm_siv_seal,
    AeadFailure,
};
use crate::encoding::{
    base64_standard_decode, base64_standard_encode, decode_base64,
    encode_base64, lemma_decode_encode, lemma_decode_is_encoding, lemma_encode_chars,
    lemma_encode_injective,
};
use crate::error::CryptoError;
use crate::keys::{fill_from_os_rng, pbkdf2_hmac_sha256_key, pbkdf2_sha256, wipe_key};
use crate::text::{
    is_white_space, lemma_trim_idempotent, lemma_trim_no_white_space, str_starts_with, str_strip_prefix,
    string_from_utf8, trim_spec, trim_str,
};
use vstd::prelude::*;
use vstd::slice::slice_subrange;
use vstd::utf8::*;

verus! {

/// The text in front of every payload made by the current format.
pub const PREFIX_V2: &'static str = "hashit:v2:";

/// The text in front of every payload of the legacy format.
pub const PREFIX_V1: &'static str = "hashit:v1:";

/// The first byte of a current payload.
pub const VERSION_V2: u8 = 2;

/// The first byte of a legacy payload.
pub const VERSION_V1: u8 = 1;

/// Length of the random salt of a legacy payload.
pub const SALT_LEN: usize = 16;

/// Length of an AES-GCM nonce.
pub const NONCE_LEN: usize = 12;

/// Length of a derived key.
pub const KEY_LEN: usize = 32;

/// Length of an authentication tag.
pub const TAG_LEN: usize = 16;

/// PBKDF2 round count for both formats.
pub const ITERATIONS: u32 = 210_000;

/// The fixed PBKDF2 salt of the current format.
pub const V2_KDF_SALT: &'static str = "hashit:v2:deterministic-key";

// ----- the model -----

/// The result of an operation that yields a text, by the text's characters.
pub open spec fn string_result(r: Result<String, CryptoError>) -> Result<Seq<char>, CryptoError> {
    match r {
        Ok(s) => Ok(s@),
        Err(e) => Err(e),
    }
}

/// The result of an operation that yields bytes, by their values.
pub open spec fn bytes_result(r: Result<Vec<u8>, CryptoError>) -> Result<Seq<u8>, CryptoError> {
    match r {
        Ok(v) => Ok(v@),
        Err(e) => Err(e),
    }
}

/// Both inputs of an encryption must be nonempty; the text is checked first.
pub open spec fn input_check(plaintext: Seq<char>, master_key: Seq<char>) -> Result<(), CryptoError> {
    if plaintext.len() == 0 {
        Err(CryptoError::EmptyInput)
    } else if master_key.len() == 0 {
        Err(CryptoError::EmptyMasterKey)
    } else {
        Ok(())
    }
}

/// Whether the UTF-8 encoding of a text is short enough for the ciphers.
pub open spec fn fits_cipher(plaintext: Seq<char>) -> bool {
    encode_utf8(plaintext).len() <= aead_max_message_len()
}

/// The key of the current format: PBKDF2-HMAC-SHA256 over the master key's
/// UTF-8 bytes with the fixed salt.
pub open spec fn v2_key(master_key: Seq<char>) -> Seq<u8> {
    pbkdf2_hmac_sha256_key(encode_utf8(master_key), encode_utf8(V2_KDF_SALT@), ITERATIONS)
}

/// The nonce of the current format: twelve zero bytes.
pub open spec fn v2_nonce() -> Seq<u8> {
    Seq::new(NONCE_LEN as nat, |i: int| 0u8)
}

/// The bytes of a current payload: the version byte, then the AES-256-GCM-SIV
/// sealing of the text's UTF-8 bytes.
pub open spec fn v2_payload(plaintext: Seq<char>, master_key: Seq<char>) -> Seq<u8> {
    seq![VERSION_V2] + aes256_gcm_siv_seal(v2_key(master_key), v2_nonce(), encode_utf8(plaintext))
}

/// A current payload as text: the prefix, then the Base64 of its bytes.
pub open spec fn v2_text(plaintext: Seq<char>, master_key: Seq<char>) -> Seq<char> {
    PREFIX_V2@ + base64_standard_encode(v2_payload(plaintext, master_key))
}

/// What encrypting in the current format yields once the inputs are accepted.
pub open spec fn encrypt_v2_result(plaintext: Seq<char>, master_key: Seq<char>) -> Result<
    Seq<char>,
    CryptoError,
> {
    if fits_cipher(plaintext) {
        Ok(v2_text(plaintext, master_key))
    } else {
        Err(CryptoError::EncryptionFailed)
    }
}

/// What `EncryptedPayload::encrypt` yields.
pub open spec fn encrypt_result(plaintext: Seq<char>, master_key: Seq<char>) -> Result<
    Seq<char>,
    CryptoError,
> {
    match input_check(plaintext, master_key) {
        Err(e) => Err(e),
        Ok(_) => encrypt_v2_result(plaintext, master_key),
    }
}

/// The key of the legacy format: PBKDF2-HMAC-SHA256 over the master key's
/// UTF-8 bytes with the payload's salt.
pub open spec fn v1_key(master_key: Seq<char>, salt: Seq<u8>) -> Seq<u8> {
    pbkdf2_hmac_sha256_key(encode_utf8(master_key), salt, ITERATIONS)
}

/// The bytes of a legacy payload: the version byte, the salt, the nonce, then
/// the AES-256-GCM sealing of the text's UTF-8 bytes.
pub open spec fn v1_payload(
    plaintext: Seq<char>,
    master_key: Seq<char>,
    salt: Seq<u8>,
    nonce: Seq<u8>,
) -> Seq<u8> {
    seq![VERSION_V1] + salt + nonce + aes256_gcm_seal(
        v1_key(master_key, salt),
        nonce,
        encode_utf8(plaintext),
    )
}

/// A legacy payload as text: the prefix, then the Base64 of its bytes.
pub open spec fn v1_text(
    plaintext: Seq<char>,
    master_key: Seq<char>,
    salt: Seq<u8>,
    nonce: Seq<u8>,
) -> Seq<char> {
    PREFIX_V1@ + base64_standard_encode(v1_payload(plaintext, master_key, salt, nonce))
}

/// What encrypting in the legacy format with a given salt and nonce yields.
pub open spec fn encrypt_v1_result(
    plaintext: Seq<char>,
    master_key: Seq<char>,
    salt: Seq<u8>,
    nonce: Seq<u8>,
) -> Result<Seq<char>, CryptoError> {
    if fits_cipher(plaintext) {
        Ok(v1_text(plaintext, master_key, salt, nonce))
    } else {
        Err(CryptoError::EncryptionFailed)
    }
}

/// The bytes behind a prefix, as Base64 decodes them.
pub open spec fn decoded_payload(text: Seq<char>, prefix: Seq<char>) -> Result<Seq<u8>, CryptoError> {
    if !prefix.is_prefix_of(text) {
        Err(CryptoError::InvalidPayload)
    } else {
        match base64_standard_decode(text.skip(prefix.len() as int)) {
            Some(bytes) => Ok(bytes),
            None => Err(CryptoError::InvalidPayload),
        }
    }
}

/// The text that an opened ciphertext holds.
pub open spec fn opened_text(opened: Option<Seq<u8>>) -> Result<Seq<char>, CryptoError> {
    match opened {
        Some(bytes) => if valid_utf8(bytes) {
            Ok(decode_utf8(bytes))
        } else {
            Err(CryptoError::DecryptionFailed)
        },
        None => Err(CryptoError::DecryptionFailed),
    }
}

/// What the bytes of a current payload decrypt to.
pub open spec fn decrypt_v2_payload(payload: Seq<u8>, master_key: Seq<char>) -> Result<
    Seq<char>,
    CryptoError,
> {
    if payload.len() < 1 + TAG_LEN || payload[0] != VERSION_V2 {
        Err(CryptoError::InvalidPayload)
    } else {
        opened_text(aes256_gcm_siv_open(v2_key(master_key), v2_nonce(), payload.skip(1)))
    }
}

/// What a text with the current prefix decrypts to.
pub open spec fn decrypt_v2_result(encoded: Seq<char>, master_key: Seq<char>) -> Result<
    Seq<char>,
    CryptoError,
> {
    match decoded_payload(encoded, PREFIX_V2@) {
        Ok(payload) => decrypt_v2_payload(payload, master_key),
        Err(e) => Err(e),
    }
}

/// What the bytes of a legacy payload decrypt to.
pub open spec fn decrypt_v1_payload(payload: Seq<u8>, master_key: Seq<char>) -> Result<
    Seq<char>,
    CryptoError,
> {
    if payload.len() < 1 + SALT_LEN + NONCE_LEN + TAG_LEN || payload[0] != VERSION_V1 {
        Err(CryptoError::InvalidPayload)
    } else {
        let salt = payload.subrange(1, 1 + SALT_LEN);
        let nonce = payload.subrange(1 + SALT_LEN, 1 + SALT_LEN + NONCE_LEN);
        let ciphertext = payload.skip(1 + SALT_LEN + NONCE_LEN);
        opened_text(aes256_gcm_open(v1_key(master_key, salt), nonce, ciphertext))
    }
}

/// What a text with the legacy prefix decrypts to.
pub open spec fn decrypt_v1_result(encoded: Seq<char>, master_key: Seq<char>) -> Result<
    Seq<char>,
    CryptoError,
> {
    match decoded_payload(encoded, PREFIX_V1@) {
        Ok(payload) => decrypt_v1_payload(payload, master_key),
        Err(e) => Err(e),
    }
}

/// What `EncryptedPayload::decrypt` yields: the text is trimmed first; an
/// empty text, then an empty master key, are refused; the current prefix is
/// tried before the legacy one; any other text is refused.
pub open spec fn decrypt_result(encoded: Seq<char>, master_key: Seq<char>) -> Result<
    Seq<char>,
    CryptoError,
> {
    let text = trim_spec(encoded);
    if text.len() == 0 {
        Err(CryptoError::EmptyInput)
    } else if master_key.len() == 0 {
        Err(CryptoError::EmptyMasterKey)
    } else if PREFIX_V2@.is_prefix_of(text) {
        decrypt_v2_result(text, master_key)
    } else if PREFIX_V1@.is_prefix_of(text) {
        decrypt_v1_result(text, master_key)
    } else {
        Err(CryptoError::InvalidPayload)
    }
}

/// A prefix followed by Base64 has no white space, so trimming keeps it.
proof fn lemma_prefixed_base64_trimmed(prefix: Seq<char>, bytes: Seq<u8>)
    requires
        forall|i: int| 0 <= i < prefix.len() ==> !is_white_space(#[trigger] prefix[i]),
    ensures
        trim_spec(prefix + base64_standard_encode(bytes)) == prefix + base64_standard_encode(bytes),
{
    let text = prefix + base64_standard_encode(bytes);
    lemma_encode_chars(bytes);
    assert forall|i: int| 0 <= i < text.len() implies !is_white_space(#[trigger] text[i]) by {
        if i >= prefix.len() {
            assert(text[i] == base64_standard_encode(bytes)[i - prefix.len()]);
        }
    }
    lemma_trim_no_white_space(text);
}

/// A current payload text is its own trimmed form and carries the current prefix.
proof fn lemma_v2_text_shape(plaintext: Seq<char>, master_key: Seq<char>)
    ensures
        trim_spec(v2_text(plaintext, master_key)) == v2_text(plaintext, master_key),
        PREFIX_V2@.is_prefix_of(v2_text(plaintext, master_key)),
        v2_text(plaintext, master_key).len() > 0,
{
    reveal_strlit("hashit:v2:");
    lemma_prefixed_base64_trimmed(PREFIX_V2@, v2_payload(plaintext, master_key));
}

/// A legacy payload text is its own trimmed form and carries the legacy
/// prefix, not the current one.
proof fn lemma_v1_text_shape(
    plaintext: Seq<char>,
    master_key: Seq<char>,
    salt: Seq<u8>,
    nonce: Seq<u8>,
)
    ensures
        trim_spec(v1_text(plaintext, master_key, salt, nonce)) == v1_text(
            plaintext,
            master_key,
            salt,
            nonce,
        ),
        PREFIX_V1@.is_prefix_of(v1_text(plaintext, master_key, salt, nonce)),
        !PREFIX_V2@.is_prefix_of(v1_text(plaintext, master_key, salt, nonce)),
        v1_text(plaintext, master_key, salt, nonce).len() > 0,
{
    reveal_strlit("hashit:v1:");
    reveal_strlit("hashit:v2:");
    let text = v1_text(plaintext, master_key, salt, nonce);
    lemma_prefixed_base64_trimmed(PREFIX_V1@, v1_payload(plaintext, master_key, salt, nonce));
    assert(text[8] == '1');
    assert(PREFIX_V2@[8] == '2');
}

/// Decryption trims its input, so white space around a payload changes
/// nothing: decrypting a trimmed text gives what decrypting the text gives.
pub proof fn lemma_decrypt_ignores_surrounding_white_space(
    encoded: Seq<char>,
    master_key: Seq<char>,
)
    ensures
        decrypt_result(trim_spec(encoded), master_key) == decrypt_result(encoded, master_key),
{
    lemma_trim_idempotent(encoded);
}

/// The current format's key is the legacy key under the fixed salt: both are
/// PBKDF2-HMAC-SHA256 over the master key's bytes in the same number of rounds.
pub proof fn lemma_v2_key_is_v1_key_with_fixed_salt(master_key: Seq<char>)
    ensures
        v2_key(master_key) == v1_key(master_key, encode_utf8(V2_KDF_SALT@)),
{
}

/// The keys of both formats are PBKDF2-HMAC-SHA256 over all of the master
/// key's UTF-8 bytes in 210000 rounds: with the fixed salt
/// `hashit:v2:deterministic-key` for the current format, with the payload's
/// own salt for the legacy one.
pub proof fn law_derived_keys(master_key: Seq<char>, salt: Seq<u8>)
    ensures
        v2_key(master_key) == pbkdf2_hmac_sha256_key(
            encode_utf8(master_key),
            encode_utf8("hashit:v2:deterministic-key"@),
            210_000u32,
        ),
        v1_key(master_key, salt) == pbkdf2_hmac_sha256_key(
            encode_utf8(master_key),
            salt,
            210_000u32,
        ),
{
}

/// Encryption in the current format, stated from its ingredients: an empty
/// text is refused, then an empty master key; a text whose UTF-8 bytes exceed
/// the cipher's limit (2^36 bytes) is refused by the cipher; every other text
/// becomes `hashit:v2:` followed by the Base64 of the version byte 2 and the
/// AES-256-GCM-SIV sealing of the text's bytes, under the PBKDF2-HMAC-SHA256
/// key of all of the master key's bytes (fixed salt, 210000 rounds) and a
/// nonce of twelve zero bytes.
pub proof fn law_encrypt_result(plaintext: Seq<char>, master_key: Seq<char>)
    ensures
        plaintext.len() == 0 ==> encrypt_result(plaintext, master_key) == Err::<
            Seq<char>,
            CryptoError,
        >(CryptoError::EmptyInput),
        plaintext.len() > 0 && master_key.len() == 0 ==> encrypt_result(plaintext, master_key)
            == Err::<Seq<char>, CryptoError>(CryptoError::EmptyMasterKey),
        plaintext.len() > 0 && master_key.len() > 0 && encode_utf8(plaintext).len()
            > aead_max_message_len() ==> encrypt_result(plaintext, master_key) == Err::<
            Seq<char>,
            CryptoError,
        >(CryptoError::EncryptionFailed),
        plaintext.len() > 0 && master_key.len() > 0 && encode_utf8(plaintext).len()
            <= aead_max_message_len() ==> encrypt_result(plaintext, master_key) == Ok::<
            Seq<char>,
            CryptoError,
        >(
            "hashit:v2:"@ + base64_standard_encode(
                seq![2u8] + aes256_gcm_siv_seal(
                    pbkdf2_hmac_sha256_key(
                        encode_utf8(master_key),
                        encode_utf8("hashit:v2:deterministic-key"@),
                        210_000u32,
                    ),
                    Seq::new(12, |i: int| 0u8),
                    encode_utf8(plaintext),
                ),
            ),
        ),
{
    assert(v2_nonce() =~= Seq::new(12, |i: int| 0u8));
}

/// Legacy encryption with a given salt and nonce, stated from its
/// ingredients: a text whose UTF-8 bytes exceed the cipher's limit is
/// refused; every other text becomes `hashit:v1:` followed by the Base64 of
/// the version byte 1, the salt, the nonce and the AES-256-GCM sealing of the
/// text's bytes under that nonce and the PBKDF2-HMAC-SHA256 key of all of the
/// master key's bytes with that salt (210000 rounds).
pub proof fn law_encrypt_v1_result(
    plaintext: Seq<char>,
    master_key: Seq<char>,
    salt: Seq<u8>,
    nonce: Seq<u8>,
)
    ensures
        encode_utf8(plaintext).len() > aead_max_message_len() ==> encrypt_v1_result(
            plaintext,
            master_key,
            salt,
            nonce,
        ) == Err::<Seq<char>, CryptoError>(CryptoError::EncryptionFailed),
        encode_utf8(plaintext).len() <= aead_max_message_len() ==> encrypt_v1_result(
            plaintext,
            master_key,
            salt,
            nonce,
        ) == Ok::<Seq<char>, CryptoError>(
            "hashit:v1:"@ + base64_standard_encode(
                seq![1u8] + salt + nonce + aes256_gcm_seal(
                    pbkdf2_hmac_sha256_key(encode_utf8(master_key), salt, 210_000u32),
                    nonce,
                    encode_utf8(plaintext),
                ),
            ),
        ),
{
}

/// How a current payload is decrypted, stated from its ingredients: under a
/// nonempty master key, the text `hashit:v2:` + Base64(2 ‖ sealed) decrypts to
/// what AES-256-GCM-SIV opens from `sealed` under the PBKDF2-HMAC-SHA256 key of
/// all of the master key's bytes (fixed salt, 210000 rounds) and a zero nonce,
/// whatever the length of that text, provided it is valid UTF-8; a refused
/// opening or invalid UTF-8 is `DecryptionFailed`.
pub proof fn law_decrypt_result_v2(sealed: Seq<u8>, master_key: Seq<char>)
    requires
        master_key.len() > 0,
        sealed.len() >= 16,
    ensures
        decrypt_result("hashit:v2:"@ + base64_standard_encode(seq![2u8] + sealed), master_key)
            == match aes256_gcm_siv_open(
            pbkdf2_hmac_sha256_key(
                encode_utf8(master_key),
                encode_utf8("hashit:v2:deterministic-key"@),
                210_000u32,
            ),
            Seq::new(12, |i: int| 0u8),
            sealed,
        ) {
            Some(bytes) => if valid_utf8(bytes) {
                Ok::<Seq<char>, CryptoError>(decode_utf8(bytes))
            } else {
                Err::<Seq<char>, CryptoError>(CryptoError::DecryptionFailed)
            },
            None => Err::<Seq<char>, CryptoError>(CryptoError::DecryptionFailed),
        },
{
    reveal_strlit("hashit:v2:");
    let payload = seq![2u8] + sealed;
    let text = "hashit:v2:"@ + base64_standard_encode(payload);
    lemma_prefixed_base64_trimmed("hashit:v2:"@, payload);
    assert(PREFIX_V2@.is_prefix_of(text));
    assert(text.skip(10) =~= base64_standard_encode(payload));
    lemma_decode_encode(payload);
    assert(payload.skip(1) =~= sealed);
    assert(v2_nonce() =~= Seq::new(12, |i: int| 0u8));
}

/// How a legacy payload is decrypted, stated from its ingredients: under a
/// nonempty master key, `hashit:v1:` + Base64(1 ‖ salt ‖ nonce ‖ sealed), with
/// a 16-byte salt and a 12-byte nonce, decrypts to what AES-256-GCM opens from
/// `sealed` under that nonce and the PBKDF2-HMAC-SHA256 key of all of the
/// master key's bytes with the payload's own salt (210000 rounds), provided
/// it is valid UTF-8.
pub proof fn law_decrypt_result_v1(
    salt: Seq<u8>,
    nonce: Seq<u8>,
    sealed: Seq<u8>,
    master_key: Seq<char>,
)
    requires
        master_key.len() > 0,
        salt.len() == 16,
        nonce.len() == 12,
        sealed.len() >= 16,
    ensures
        decrypt_result(
            "hashit:v1:"@ + base64_standard_encode(seq![1u8] + salt + nonce + sealed),
            master_key,
        ) == match aes256_gcm_open(
            pbkdf2_hmac_sha256_key(encode_utf8(master_key), salt, 210_000u32),
            nonce,
            sealed,
        ) {
            Some(bytes) => if valid_utf8(bytes) {
                Ok::<Seq<char>, CryptoError>(decode_utf8(bytes))
            } else {
                Err::<Seq<char>, CryptoError>(CryptoError::DecryptionFailed)
            },
            None => Err::<Seq<char>, CryptoError>(CryptoError::DecryptionFailed),
        },
{
    reveal_strlit("hashit:v1:");
    reveal_strlit("hashit:v2:");
    let payload = seq![1u8] + salt + nonce + sealed;
    let text = "hashit:v1:"@ + base64_standard_encode(payload);
    lemma_prefixed_base64_trimmed("hashit:v1:"@, payload);
    assert(PREFIX_V1@.is_prefix_of(text));
    assert(text[8] == '1');
    assert(!PREFIX_V2@.is_prefix_of(text));
    assert(text.skip(10) =~= base64_standard_encode(payload));
    lemma_decode_encode(payload);
    assert(payload.subrange(1, 17) =~= salt);
    assert(payload.subrange(17, 29) =~= nonce);
    assert(payload.skip(29) =~= sealed);
}

/// Payload texts of either format have no white space around them, are
/// nonempty, and carry their own prefix (a legacy one not the current one).
proof fn lemma_payload_text_shapes(encoded: Seq<char>, master_key: Seq<char>)
    ensures
        forall|plaintext: Seq<char>|
            #[trigger] v2_text(plaintext, master_key) == encoded ==> trim_spec(encoded) == encoded
                && encoded.len() > 0 && PREFIX_V2@.is_prefix_of(encoded),
        forall|plaintext: Seq<char>, salt: Seq<u8>, nonce: Seq<u8>|
            #[trigger] v1_text(plaintext, master_key, salt, nonce) == encoded ==> trim_spec(encoded)
                == encoded && encoded.len() > 0 && PREFIX_V1@.is_prefix_of(encoded)
                && !PREFIX_V2@.is_prefix_of(encoded),
{
    assert forall|plaintext: Seq<char>|
        #[trigger] v2_text(plaintext, master_key) == encoded implies trim_spec(encoded) == encoded
        && encoded.len() > 0 && PREFIX_V2@.is_prefix_of(encoded) by {
        lemma_v2_text_shape(plaintext, master_key);
    }
    assert forall|plaintext: Seq<char>, salt: Seq<u8>, nonce: Seq<u8>|
        #[trigger] v1_text(plaintext, master_key, salt, nonce) == encoded implies trim_spec(encoded)
        == encoded && encoded.len() > 0 && PREFIX_V1@.is_prefix_of(encoded)
        && !PREFIX_V2@.is_prefix_of(encoded) by {
        lemma_v1_text_shape(plaintext, master_key, salt, nonce);
    }
}

// ----- the implementation -----

/// Payloads of the `hashit` formats.
pub struct EncryptedPayload;

impl EncryptedPayload {
    /// Encrypts `plaintext` under `master_key` in the current format. The same
    /// inputs always give the same payload, and distinct texts give distinct
    /// payloads under one master key.
    pub fn encrypt(plaintext: &str, master_key: &str) -> (r: Result<String, CryptoError>)
        requires
            encode_utf8(plaintext@).len() <= isize::MAX,
        ensures
            string_result(r) == encrypt_result(plaintext@, master_key@),
            r is Ok ==> PREFIX_V2@.is_prefix_of(r->Ok_0@),
            r is Ok ==> forall|other: Seq<char>|
                #[trigger] encrypt_result(other, master_key@) == Ok::<Seq<char>, CryptoError>(
                    r->Ok_0@,
                ) ==> other == plaintext@,
            plaintext@.len() == 0 ==> string_result(r) == Err::<Seq<char>, CryptoError>(
                CryptoError::EmptyInput,
            ),
            plaintext@.len() > 0 && master_key@.len() == 0 ==> string_result(r) == Err::<
                Seq<char>,
                CryptoError,
            >(CryptoError::EmptyMasterKey),
            plaintext@.len() > 0 && master_key@.len() > 0 && encode_utf8(plaintext@).len()
                > aead_max_message_len() ==> string_result(r) == Err::<Seq<char>, CryptoError>(
                CryptoError::EncryptionFailed,
            ),
            plaintext@.len() > 0 && master_key@.len() > 0 && encode_utf8(plaintext@).len()
                <= aead_max_message_len() ==> r is Ok && r->Ok_0@ == "hashit:v2:"@ + base64_standard_encode(
                        seq![2u8] + aes256_gcm_siv_seal(
                            pbkdf2_hmac_sha256_key(
                                encode_utf8(master_key@),
                                encode_utf8("hashit:v2:deterministic-key"@),
                                210_000u32,
                            ),
                            Seq::new(12, |i: int| 0u8),
                            encode_utf8(plaintext@),
                        ),
                    ),
    {
        proof {
            law_encrypt_result(plaintext@, master_key@);
        }
        match validate_encrypt_inputs(plaintext, master_key) {
            Ok(()) => {},
            Err(e) => return Err(e),
        }
        let r = Self::encrypt_v2(plaintext, master_key);
        proof {
            if r is Ok {
                assert(PREFIX_V2@.is_prefix_of(v2_text(plaintext@, master_key@)));
            }
        }
        r
    }

    /// Encrypts in the legacy format with the given salt and nonce. Both
    /// inputs are taken as they are: `encrypt_v1` checks them first.
    pub fn encrypt_v1_with(
        plaintext: &str,
        master_key: &str,
        salt: &[u8],
        nonce: &[u8],
    ) -> (r: Result<String, CryptoError>)
        requires
            encode_utf8(plaintext@).len() <= isize::MAX,
            salt@.len() == SALT_LEN,
            nonce@.len() == NONCE_LEN,
        ensures
            string_result(r) == encrypt_v1_result(plaintext@, master_key@, salt@, nonce@),
            encode_utf8(plaintext@).len() > aead_max_message_len() ==> string_result(r) == Err::<
                Seq<char>,
                CryptoError,
            >(CryptoError::EncryptionFailed),
            encode_utf8(plaintext@).len() <= aead_max_message_len() ==> r is Ok && r->Ok_0@
                == "hashit:v1:"@ + base64_standard_encode(
                seq![1u8] + salt@ + nonce@ + aes256_gcm_seal(
                    pbkdf2_hmac_sha256_key(encode_utf8(master_key@), salt@, 210_000u32),
                    nonce@,
                    encode_utf8(plaintext@),
                ),
            ),
    {
        proof {
            law_encrypt_v1_result(plaintext@, master_key@, salt@, nonce@);
        }
        let mut key_bytes = derive_v1_key(master_key, salt);
        let ciphertext = match aes256_gcm_encrypt(key_bytes.as_slice(), nonce, plaintext.as_bytes()) {
            Ok(c) => c,
            Err(AeadFailure::BadKeyLength) => return Err(CryptoError::KeyDerivationFailed),
            Err(AeadFailure::Rejected) => return Err(CryptoError::EncryptionFailed),
        };
        wipe_key(&mut key_bytes);

        let mut payload: Vec<u8> = Vec::with_capacity(
            1 + SALT_LEN + NONCE_LEN + ciphertext.len(),
        );
        payload.push(VERSION_V1);
        payload.extend_from_slice(salt);
        payload.extend_from_slice(nonce);
        payload.extend_from_slice(ciphertext.as_slice());
        assert(payload@ =~= v1_payload(plaintext@, master_key@, salt@, nonce@));
        let encoded = encode_base64(payload.as_slice());
        let mut out = PREFIX_V1.to_owned();
        out.append(encoded.as_str());
        Ok(out)
    }

    /// Encrypts in the legacy format, with a salt and a nonce from the
    /// operating system's random source.
    pub fn encrypt_v1(plaintext: &str, master_key: &str) -> (r: Result<String, CryptoError>)
        requires
            encode_utf8(plaintext@).len() <= isize::MAX,
        ensures
            input_check(plaintext@, master_key@) is Err ==> string_result(r) == Err::<
                Seq<char>,
                CryptoError,
            >(input_check(plaintext@, master_key@)->Err_0),
            input_check(plaintext@, master_key@) is Ok ==> string_result(r) == Err::<
                Seq<char>,
                CryptoError,
            >(CryptoError::RandomGenerationFailed) || exists|salt: Seq<u8>, nonce: Seq<u8>|
                salt.len() == SALT_LEN && nonce.len() == NONCE_LEN && string_result(r)
                    == #[trigger] encrypt_v1_result(plaintext@, master_key@, salt, nonce),
    {
        match validate_encrypt_inputs(plaintext, master_key) {
            Ok(()) => {},
            Err(e) => return Err(e),
        }
        let mut salt: [u8; SALT_LEN] = [0u8; SALT_LEN];
        let mut nonce: [u8; NONCE_LEN] = [0u8; NONCE_LEN];
        if !fill_from_os_rng(&mut salt) {
            return Err(CryptoError::RandomGenerationFailed);
        }
        if !fill_from_os_rng(&mut nonce) {
            return Err(CryptoError::RandomGenerationFailed);
        }
        Self::encrypt_v1_with(plaintext, master_key, salt.as_slice(), nonce.as_slice())
    }

    /// Decrypts in the legacy format a text that starts with its prefix.
    fn decrypt_v1(encoded: &str, master_key: &str) -> (r: Result<String, CryptoError>)
        ensures
            string_result(r) == decrypt_v1_result(encoded@, master_key@),
            forall|plaintext: Seq<char>, salt: Seq<u8>, nonce: Seq<u8>|
                salt.len() == SALT_LEN && nonce.len() == NONCE_LEN && fits_cipher(plaintext)
                    && #[trigger] v1_text(plaintext, master_key@, salt, nonce) == encoded@
                    ==> string_result(r) == Ok::<Seq<char>, CryptoError>(plaintext),
            r is Ok && fits_cipher(r->Ok_0@) ==> exists|salt: Seq<u8>, nonce: Seq<u8>|
                salt.len() == SALT_LEN && nonce.len() == NONCE_LEN && encoded@ == #[trigger] v1_text(
                    r->Ok_0@,
                    master_key@,
                    salt,
                    nonce,
                ),
    {
        let payload = match decode_payload(encoded, PREFIX_V1) {
            Ok(payload) => payload,
            Err(e) => return Err(e),
        };
        if payload.len() < 1 + SALT_LEN + NONCE_LEN + TAG_LEN {
            return Err(CryptoError::InvalidPayload);
        }
        if payload[0] != VERSION_V1 {
            return Err(CryptoError::InvalidPayload);
        }
        let salt_start: usize = 1;
        let salt_end: usize = salt_start + SALT_LEN;
        let nonce_end: usize = salt_end + NONCE_LEN;
        let salt = slice_subrange(payload.as_slice(), salt_start, salt_end);
        let nonce = slice_subrange(payload.as_slice(), salt_end, nonce_end);
        let ciphertext = slice_subrange(payload.as_slice(), nonce_end, payload.len());
        let mut key_bytes = derive_v1_key(master_key, salt);
        proof {
            assert forall|plaintext: Seq<char>, salt0: Seq<u8>, nonce0: Seq<u8>|
                salt0.len() == SALT_LEN && nonce0.len() == NONCE_LEN && fits_cipher(plaintext)
                    && #[trigger] v1_text(plaintext, master_key@, salt0, nonce0) == encoded@
                    implies salt@ == salt0 && nonce@ == nonce0 && ciphertext@ == aes256_gcm_seal(
                    key_bytes@,
                    nonce@,
                    encode_utf8(plaintext),
                ) by {
                let p = v1_payload(plaintext, master_key@, salt0, nonce0);
                assert(payload@ == p);
                assert(salt@ =~= salt0);
                assert(nonce@ =~= nonce0);
                assert(ciphertext@ =~= p.skip(1 + SALT_LEN + NONCE_LEN));
            }
        }
        let decrypted = match aes256_gcm_decrypt(key_bytes.as_slice(), nonce, ciphertext) {
            Ok(d) => d,
            Err(AeadFailure::BadKeyLength) => return Err(CryptoError::KeyDerivationFailed),
            Err(AeadFailure::Rejected) => return Err(CryptoError::DecryptionFailed),
        };
        wipe_key(&mut key_bytes);
        proof {
            assert forall|plaintext: Seq<char>, salt0: Seq<u8>, nonce0: Seq<u8>|
                salt0.len() == SALT_LEN && nonce0.len() == NONCE_LEN && fits_cipher(plaintext)
                    && #[trigger] v1_text(plaintext, master_key@, salt0, nonce0) == encoded@
                    implies valid_utf8(decrypted@) && decode_utf8(decrypted@) == plaintext by {
                encode_utf8_valid_utf8(plaintext);
                encode_utf8_decode_utf8(plaintext);
            }
        }
        let text = match string_from_utf8(decrypted) {
            Some(text) => text,
            None => return Err(CryptoError::DecryptionFailed),
        };
        proof {
            if fits_cipher(text@) {
                decode_utf8_encode_utf8(decrypted@);
                assert(payload@ =~= seq![VERSION_V1] + salt@ + nonce@ + ciphertext@);
                assert(payload@ == v1_payload(text@, master_key@, salt@, nonce@));
                assert(encoded@ == v1_text(text@, master_key@, salt@, nonce@));
            }
        }
        Ok(text)
    }

    /// Decrypts a payload of either format under `master_key`.
    ///
    /// A payload that `encrypt`, or the legacy `encrypt_v1_with`, made under
    /// the same master key decrypts to the text it was made from. Conversely,
    /// the only current payload that decrypts to a nonempty text is that
    /// text's encryption, and a legacy payload that decrypts to a text is its
    /// legacy encryption under some salt and nonce.
    pub fn decrypt(encoded: &str, master_key: &str) -> (r: Result<String, CryptoError>)
        ensures
            string_result(r) == decrypt_result(encoded@, master_key@),
            forall|plaintext: Seq<char>|
                #[trigger] encrypt_result(plaintext, master_key@) == Ok::<Seq<char>, CryptoError>(
                    encoded@,
                ) ==> string_result(r) == Ok::<Seq<char>, CryptoError>(plaintext),
            forall|plaintext: Seq<char>|
                fits_cipher(plaintext) && master_key@.len() > 0 && #[trigger] v2_text(
                    plaintext,
                    master_key@,
                ) == encoded@ ==> string_result(r) == Ok::<Seq<char>, CryptoError>(plaintext),
            forall|plaintext: Seq<char>, salt: Seq<u8>, nonce: Seq<u8>|
                salt.len() == SALT_LEN && nonce.len() == NONCE_LEN && master_key@.len() > 0
                    && #[trigger] encrypt_v1_result(plaintext, master_key@, salt, nonce) == Ok::<
                    Seq<char>,
                    CryptoError,
                >(encoded@) ==> string_result(r) == Ok::<Seq<char>, CryptoError>(plaintext),
            forall|plaintext: Seq<char>|
                master_key@.len() > 0 && #[trigger] encode_utf8(plaintext).len()
                    <= aead_max_message_len() && "hashit:v2:"@ + base64_standard_encode(
                        seq![2u8] + aes256_gcm_siv_seal(
                            pbkdf2_hmac_sha256_key(
                                encode_utf8(master_key@),
                                encode_utf8("hashit:v2:deterministic-key"@),
                                210_000u32,
                            ),
                            Seq::new(12, |i: int| 0u8),
                            encode_utf8(plaintext),
                        ),
                    ) == encoded@ ==> string_result(r) == Ok::<
                    Seq<char>,
                    CryptoError,
                >(plaintext),
            forall|plaintext: Seq<char>, salt: Seq<u8>, nonce: Seq<u8>|
                master_key@.len() > 0 && salt.len() == 16 && nonce.len() == 12 && encode_utf8(
                    plaintext,
                ).len() <= aead_max_message_len() && "hashit:v1:"@ + base64_standard_encode(
                    seq![1u8] + salt + nonce + #[trigger] aes256_gcm_seal(
                        pbkdf2_hmac_sha256_key(encode_utf8(master_key@), salt, 210_000u32),
                        nonce,
                        encode_utf8(plaintext),
                    ),
                ) == encoded@ ==> string_result(r) == Ok::<Seq<char>, CryptoError>(plaintext),
            r is Ok && PREFIX_V2@.is_prefix_of(trim_spec(encoded@)) && r->Ok_0@.len() > 0
                && fits_cipher(r->Ok_0@) ==> encrypt_result(r->Ok_0@, master_key@) == Ok::<
                Seq<char>,
                CryptoError,
            >(trim_spec(encoded@)),
            r is Ok && !PREFIX_V2@.is_prefix_of(trim_spec(encoded@)) && fits_cipher(r->Ok_0@)
                ==> exists|salt: Seq<u8>, nonce: Seq<u8>|
                salt.len() == SALT_LEN && nonce.len() == NONCE_LEN && #[trigger] encrypt_v1_result(
                    r->Ok_0@,
                    master_key@,
                    salt,
                    nonce,
                ) == Ok::<Seq<char>, CryptoError>(trim_spec(encoded@)),
    {
        let encoded_text = encoded;
        let encoded = trim_str(encoded_text);
        proof {
            lemma_payload_text_shapes(encoded_text@, master_key@);
            assert(v2_nonce() =~= Seq::new(12, |i: int| 0u8));
            assert forall|plaintext: Seq<char>|
                master_key@.len() > 0 && #[trigger] encode_utf8(plaintext).len()
                    <= aead_max_message_len() && "hashit:v2:"@ + base64_standard_encode(
                        seq![2u8] + aes256_gcm_siv_seal(
                            pbkdf2_hmac_sha256_key(
                                encode_utf8(master_key@),
                                encode_utf8("hashit:v2:deterministic-key"@),
                                210_000u32,
                            ),
                            Seq::new(12, |i: int| 0u8),
                            encode_utf8(plaintext),
                        ),
                    ) == encoded_text@ implies fits_cipher(plaintext)
                && v2_text(plaintext, master_key@) == encoded_text@ by {}
            assert forall|plaintext: Seq<char>, salt: Seq<u8>, nonce: Seq<u8>|
                master_key@.len() > 0 && salt.len() == 16 && nonce.len() == 12 && encode_utf8(
                    plaintext,
                ).len() <= aead_max_message_len() && "hashit:v1:"@ + base64_standard_encode(
                    seq![1u8] + salt + nonce + #[trigger] aes256_gcm_seal(
                        pbkdf2_hmac_sha256_key(encode_utf8(master_key@), salt, 210_000u32),
                        nonce,
                        encode_utf8(plaintext),
                    ),
                ) == encoded_text@ implies fits_cipher(plaintext) && v1_text(
                plaintext,
                master_key@,
                salt,
                nonce,
            ) == encoded_text@ by {}
        }
        if encoded.is_empty() {
            return Err(CryptoError::EmptyInput);
        }
        if master_key.is_empty() {
            return Err(CryptoError::EmptyMasterKey);
        }
        if str_starts_with(encoded, PREFIX_V2) {
            return Self::decrypt_v2(encoded, master_key);
        }
        if str_starts_with(encoded, PREFIX_V1) {
            let r = Self::decrypt_v1(encoded, master_key);
            proof {
                if r is Ok && fits_cipher(r->Ok_0@) {
                    let (salt, nonce) = choose|salt: Seq<u8>, nonce: Seq<u8>|
                        salt.len() == SALT_LEN && nonce.len() == NONCE_LEN && encoded@
                            == #[trigger] v1_text(r->Ok_0@, master_key@, salt, nonce);
                    assert(encrypt_v1_result(r->Ok_0@, master_key@, salt, nonce) == Ok::<
                        Seq<char>,
                        CryptoError,
                    >(encoded@));
                }
            }
            return r;
        }
        Err(CryptoError::InvalidPayload)
    }

    /// Decrypts in the current format a text that starts with its prefix.
    fn decrypt_v2(encoded: &str, master_key: &str) -> (r: Result<String, CryptoError>)
        ensures
            string_result(r) == decrypt_v2_result(encoded@, master_key@),
            forall|plaintext: Seq<char>|
                fits_cipher(plaintext) && #[trigger] v2_text(plaintext, master_key@) == encoded@
                    ==> string_result(r) == Ok::<Seq<char>, CryptoError>(plaintext),
            r is Ok && fits_cipher(r->Ok_0@) ==> encoded@ == v2_text(r->Ok_0@, master_key@),
    {
        let payload = match decode_payload(encoded, PREFIX_V2) {
            Ok(payload) => payload,
            Err(e) => return Err(e),
        };
        proof {
            assert forall|plaintext: Seq<char>|
                fits_cipher(plaintext) && #[trigger] v2_text(plaintext, master_key@) == encoded@
                    implies payload@ == v2_payload(plaintext, master_key@) by {}
        }
        if payload.len() < 1 + TAG_LEN {
            return Err(CryptoError::InvalidPayload);
        }
        if payload[0] != VERSION_V2 {
            return Err(CryptoError::InvalidPayload);
        }
        let ciphertext = slice_subrange(payload.as_slice(), 1, payload.len());
        let mut key_bytes = derive_v2_key(master_key);
        let nonce: [u8; NONCE_LEN] = [0u8; NONCE_LEN];
        assert(nonce@ =~= v2_nonce());
        proof {
            assert forall|plaintext: Seq<char>|
                fits_cipher(plaintext) && #[trigger] v2_text(plaintext, master_key@) == encoded@
                    implies ciphertext@ == aes256_gcm_siv_seal(
                    key_bytes@,
                    nonce@,
                    encode_utf8(plaintext),
                ) by {
                assert(ciphertext@ =~= v2_payload(plaintext, master_key@).skip(1));
            }
        }
        let decrypted = match aes256_gcm_siv_decrypt(
            key_bytes.as_slice(),
            nonce.as_slice(),
            ciphertext,
        ) {
            Ok(d) => d,
            Err(AeadFailure::BadKeyLength) => return Err(CryptoError::KeyDerivationFailed),
            Err(AeadFailure::Rejected) => return Err(CryptoError::DecryptionFailed),
        };
        wipe_key(&mut key_bytes);
        proof {
            assert forall|plaintext: Seq<char>|
                fits_cipher(plaintext) && #[trigger] v2_text(plaintext, master_key@) == encoded@
                    implies valid_utf8(decrypted@) && decode_utf8(decrypted@) == plaintext by {
                encode_utf8_valid_utf8(plaintext);
                encode_utf8_decode_utf8(plaintext);
            }
        }
        let text = match string_from_utf8(decrypted) {
            Some(text) => text,
            None => return Err(CryptoError::DecryptionFailed),
        };
        proof {
            if fits_cipher(text@) {
                decode_utf8_encode_utf8(decrypted@);
                assert(payload@ =~= seq![VERSION_V2] + ciphertext@);
                assert(payload@ == v2_payload(text@, master_key@));
            }
        }
        Ok(text)
    }

    /// Encrypts in the current format, deterministically.
    fn encrypt_v2(plaintext: &str, master_key: &str) -> (r: Result<String, CryptoError>)
        requires
            encode_utf8(plaintext@).len() <= isize::MAX,
        ensures
            string_result(r) == encrypt_v2_result(plaintext@, master_key@),
            r is Ok ==> forall|other: Seq<char>|
                fits_cipher(other) && #[trigger] v2_text(other, master_key@) == r->Ok_0@ ==> other
                    == plaintext@,
    {
        let mut key_bytes = derive_v2_key(master_key);
        let nonce: [u8; NONCE_LEN] = [0u8; NONCE_LEN];
        assert(nonce@ =~= v2_nonce());
        let ciphertext = match aes256_gcm_siv_encrypt(
            key_bytes.as_slice(),
            nonce.as_slice(),
            plaintext.as_bytes(),
        ) {
            Ok(c) => c,
            Err(AeadFailure::BadKeyLength) => return Err(CryptoError::KeyDerivationFailed),
            Err(AeadFailure::Rejected) => return Err(CryptoError::EncryptionFailed),
        };
        let ghost key = key_bytes@;
        wipe_key(&mut key_bytes);

        let mut payload: Vec<u8> = Vec::with_capacity(1 + ciphertext.len());
        payload.push(VERSION_V2);
        payload.extend_from_slice(ciphertext.as_slice());
        assert(payload@ =~= v2_payload(plaintext@, master_key@));
        let encoded = encode_base64(payload.as_slice());
        let mut out = PREFIX_V2.to_owned();
        out.append(encoded.as_str());
        proof {
            assert forall|other: Seq<char>|
                fits_cipher(other) && #[trigger] v2_text(other, master_key@) == out@ implies other
                == plaintext@ by {
                assert(base64_standard_encode(v2_payload(other, master_key@)) =~= v2_text(
                    other,
                    master_key@,
                ).skip(PREFIX_V2@.len() as int));
                assert(encoded@ =~= out@.skip(PREFIX_V2@.len() as int));
                lemma_encode_injective(v2_payload(other, master_key@), payload@);
                let sealed_other = aes256_gcm_siv_seal(key, v2_nonce(), encode_utf8(other));
                assert(sealed_other =~= v2_payload(other, master_key@).skip(1));
                assert(ciphertext@ =~= payload@.skip(1));
                assert(encode_utf8(other) == encode_utf8(plaintext@));
                encode_utf8_decode_utf8(other);
                encode_utf8_decode_utf8(plaintext@);
            }
        }
        Ok(out)
    }
}

/// Refuses an empty text, then an empty master key.
fn validate_encrypt_inputs(plaintext: &str, master_key: &str) -> (r: Result<(), CryptoError>)
    ensures
        r == input_check(plaintext@, master_key@),
{
    if plaintext.is_empty() {
        return Err(CryptoError::EmptyInput);
    }
    if master_key.is_empty() {
        return Err(CryptoError::EmptyMasterKey);
    }
    Ok(())
}

/// The bytes behind `prefix`, decoded from Base64.
fn decode_payload(encoded: &str, prefix: &str) -> (r: Result<Vec<u8>, CryptoError>)
    ensures
        bytes_result(r) == decoded_payload(encoded@, prefix@),
        forall|bytes: Seq<u8>|
            prefix@ + #[trigger] base64_standard_encode(bytes) == encoded@ ==> bytes_result(r)
                == Ok::<Seq<u8>, CryptoError>(bytes),
        r is Ok ==> encoded@ == prefix@ + base64_standard_encode(r->Ok_0@),
        r is Err ==> r->Err_0 == CryptoError::InvalidPayload,
{
    let rest = match str_strip_prefix(encoded, prefix) {
        Some(rest) => rest,
        None => {
            proof {
                assert forall|bytes: Seq<u8>|
                    prefix@ + #[trigger] base64_standard_encode(bytes) == encoded@ implies false by {
                    assert(prefix@.is_prefix_of(prefix@ + base64_standard_encode(bytes)));
                }
            }
            return Err(CryptoError::InvalidPayload);
        },
    };
    proof {
        assert forall|bytes: Seq<u8>|
            prefix@ + #[trigger] base64_standard_encode(bytes) == encoded@ implies rest@
                == base64_standard_encode(bytes) && base64_standard_decode(rest@) == Some(bytes) by {
            assert((prefix@ + base64_standard_encode(bytes)).skip(prefix@.len() as int)
                =~= base64_standard_encode(bytes));
            lemma_decode_encode(bytes);
        }
        lemma_decode_is_encoding(rest@);
        assert(encoded@ =~= prefix@ + encoded@.skip(prefix@.len() as int));
    }
    match decode_base64(rest) {
        Some(bytes) => Ok(bytes),
        None => Err(CryptoError::InvalidPayload),
    }
}

/// The key of the current format.
fn derive_v2_key(master_key: &str) -> (key: [u8; KEY_LEN])
    ensures
        key@ == v2_key(master_key@),
        key@ == pbkdf2_hmac_sha256_key(
            encode_utf8(master_key@),
            encode_utf8("hashit:v2:deterministic-key"@),
            210_000u32,
        ),
{
    pbkdf2_sha256(master_key.as_bytes(), V2_KDF_SALT.as_bytes(), ITERATIONS)
}

/// The key of the legacy format for a salt.
fn derive_v1_key(master_key: &str, salt: &[u8]) -> (key: [u8; KEY_LEN])
    ensures
        key@ == v1_key(master_key@, salt@),
        key@ == pbkdf2_hmac_sha256_key(encode_utf8(master_key@), salt@, 210_000u32),
{
    pbkdf2_sha256(master_key.as_bytes(), salt, ITERATIONS)
}

} // verus!
