use aes_gcm_siv::aead::{Aead, KeyInit};
use aes_gcm_siv::{Aes256GcmSiv, Nonce};
use base64::engine::general_purpose::STANDARD;
use base64::Engine;
use keyseed::{CryptoError, EncryptedPayload, PREFIX_V1, PREFIX_V2};
use pbkdf2::pbkdf2_hmac_array;
use sha2::Sha256;

#[test]
fn deterministic_roundtrip_works() {
    let master_key = "correct horse battery staple";
    let plaintext = "efe.facebook";

    let encrypted = EncryptedPayload::encrypt(plaintext, master_key).unwrap();
    let decrypted = EncryptedPayload::decrypt(&encrypted, master_key).unwrap();

    assert!(encrypted.starts_with(PREFIX_V2));
    assert_eq!(decrypted, plaintext);
}

#[test]
fn deterministic_encryption_returns_same_output_for_same_inputs() {
    let master_key = "correct horse battery staple";
    let plaintext = "efe.facebook";

    let first = EncryptedPayload::encrypt(plaintext, master_key).unwrap();
    let second = EncryptedPayload::encrypt(plaintext, master_key).unwrap();

    assert_eq!(first, second);
}

#[test]
fn different_plaintexts_produce_different_outputs() {
    let master_key = "correct horse battery staple";

    let facebook = EncryptedPayload::encrypt("efe.facebook", master_key).unwrap();
    let instagram = EncryptedPayload::encrypt("efe.instagram", master_key).unwrap();

    assert_ne!(facebook, instagram);
}

#[test]
fn legacy_v1_payloads_still_decrypt() {
    let master_key = "correct horse battery staple";
    let plaintext = "efe.facebook";

    let encrypted = EncryptedPayload::encrypt_v1(plaintext, master_key).unwrap();
    let decrypted = EncryptedPayload::decrypt(&encrypted, master_key).unwrap();

    assert!(encrypted.starts_with(PREFIX_V1));
    assert_eq!(decrypted, plaintext);
}

#[test]
fn invalid_prefix_is_rejected() {
    let result = EncryptedPayload::decrypt("nope", "secret");
    assert!(result.is_err());
}

// ----- further cases -----

/// The payload computed directly with the outside crates, as the format describes it.
fn expected_v2_payload(plaintext: &str, master_key: &str) -> String {
    let key = pbkdf2_hmac_array::<Sha256, 32>(
        master_key.as_bytes(),
        b"hashit:v2:deterministic-key",
        210_000,
    );
    let cipher = Aes256GcmSiv::new_from_slice(&key).unwrap();
    let ciphertext = cipher
        .encrypt(Nonce::from_slice(&[0u8; 12]), plaintext.as_bytes())
        .unwrap();
    let mut payload = vec![2u8];
    payload.extend_from_slice(&ciphertext);
    format!("hashit:v2:{}", STANDARD.encode(payload))
}

#[test]
fn v2_payload_matches_the_format() {
    let encrypted = EncryptedPayload::encrypt("efe.facebook", "correct horse battery staple").unwrap();
    assert_eq!(encrypted, expected_v2_payload("efe.facebook", "correct horse battery staple"));
}

#[test]
fn v2_payload_has_version_byte_and_tag() {
    let encrypted = EncryptedPayload::encrypt("efe.facebook", "master-key").unwrap();
    let bytes = STANDARD.decode(&encrypted[PREFIX_V2.len()..]).unwrap();
    assert_eq!(bytes.len(), 1 + "efe.facebook".len() + 16);
    assert_eq!(bytes[0], 2);
    assert_ne!(&bytes[1..13], "efe.facebook".as_bytes());
    // 29 bytes encode to 40 Base64 symbols.
    assert_eq!(encrypted.len(), PREFIX_V2.len() + 40);
}

#[test]
fn v1_payload_has_version_salt_nonce_and_tag() {
    let encrypted = EncryptedPayload::encrypt_v1("efe.facebook", "master-key").unwrap();
    let bytes = STANDARD.decode(&encrypted[PREFIX_V1.len()..]).unwrap();
    assert_eq!(bytes.len(), 1 + 16 + 12 + "efe.facebook".len() + 16);
    assert_eq!(bytes[0], 1);
}

#[test]
fn v1_with_fixed_salt_and_nonce_is_deterministic_and_decrypts() {
    let salt = [7u8; 16];
    let nonce = [9u8; 12];
    let first = EncryptedPayload::encrypt_v1_with("efe.facebook", "master-key", &salt, &nonce).unwrap();
    let second = EncryptedPayload::encrypt_v1_with("efe.facebook", "master-key", &salt, &nonce).unwrap();
    assert_eq!(first, second);
    let bytes = STANDARD.decode(&first[PREFIX_V1.len()..]).unwrap();
    assert_eq!(&bytes[1..17], &salt);
    assert_eq!(&bytes[17..29], &nonce);
    assert_eq!(EncryptedPayload::decrypt(&first, "master-key").unwrap(), "efe.facebook");
}

#[test]
fn two_v1_encryptions_differ() {
    let first = EncryptedPayload::encrypt_v1("efe.facebook", "master-key").unwrap();
    let second = EncryptedPayload::encrypt_v1("efe.facebook", "master-key").unwrap();
    assert_ne!(first, second);
}

#[test]
fn roundtrip_keeps_non_ascii_text() {
    let plaintext = "şifre ğüıöç — 秘密";
    let encrypted = EncryptedPayload::encrypt(plaintext, "anahtar").unwrap();
    assert_eq!(EncryptedPayload::decrypt(&encrypted, "anahtar").unwrap(), plaintext);
}

#[test]
fn surrounding_white_space_is_ignored() {
    let encrypted = EncryptedPayload::encrypt("efe.facebook", "master-key").unwrap();
    let padded = format!(" \t{}\n ", encrypted);
    assert_eq!(EncryptedPayload::decrypt(&padded, "master-key").unwrap(), "efe.facebook");
}

#[test]
fn different_master_keys_give_different_payloads() {
    let first = EncryptedPayload::encrypt("efe.facebook", "key-one").unwrap();
    let second = EncryptedPayload::encrypt("efe.facebook", "key-two").unwrap();
    assert_ne!(first, second);
}

#[test]
fn empty_plaintext_is_refused() {
    assert_eq!(EncryptedPayload::encrypt("", "master-key").unwrap_err(), CryptoError::EmptyInput);
    assert_eq!(EncryptedPayload::encrypt("", "").unwrap_err(), CryptoError::EmptyInput);
}

#[test]
fn empty_master_key_is_refused() {
    assert_eq!(EncryptedPayload::encrypt("secret", "").unwrap_err(), CryptoError::EmptyMasterKey);
    assert_eq!(
        EncryptedPayload::decrypt("hashit:v2:AAAA", "").unwrap_err(),
        CryptoError::EmptyMasterKey
    );
}

#[test]
fn blank_payload_is_refused() {
    assert_eq!(EncryptedPayload::decrypt("", "master-key").unwrap_err(), CryptoError::EmptyInput);
    assert_eq!(EncryptedPayload::decrypt(" \n\t ", "").unwrap_err(), CryptoError::EmptyInput);
}

#[test]
fn malformed_payloads_are_invalid() {
    assert_eq!(EncryptedPayload::decrypt("nope", "secret").unwrap_err(), CryptoError::InvalidPayload);
    assert_eq!(
        EncryptedPayload::decrypt("hashit:v2:not base64!", "secret").unwrap_err(),
        CryptoError::InvalidPayload
    );
    // a valid Base64 text that is too short to hold a tag
    let short = format!("hashit:v2:{}", STANDARD.encode([2u8; 10]));
    assert_eq!(EncryptedPayload::decrypt(&short, "secret").unwrap_err(), CryptoError::InvalidPayload);
    // the wrong version byte
    let encrypted = EncryptedPayload::encrypt("efe.facebook", "secret").unwrap();
    let mut bytes = STANDARD.decode(&encrypted[PREFIX_V2.len()..]).unwrap();
    bytes[0] = 1;
    let wrong_version = format!("hashit:v2:{}", STANDARD.encode(&bytes));
    assert_eq!(
        EncryptedPayload::decrypt(&wrong_version, "secret").unwrap_err(),
        CryptoError::InvalidPayload
    );
    let short_v1 = format!("hashit:v1:{}", STANDARD.encode([1u8; 44]));
    assert_eq!(EncryptedPayload::decrypt(&short_v1, "secret").unwrap_err(), CryptoError::InvalidPayload);
}

#[test]
fn wrong_master_key_fails_to_decrypt() {
    let encrypted = EncryptedPayload::encrypt("efe.facebook", "right-key").unwrap();
    assert_eq!(
        EncryptedPayload::decrypt(&encrypted, "wrong-key").unwrap_err(),
        CryptoError::DecryptionFailed
    );
    let legacy = EncryptedPayload::encrypt_v1("efe.facebook", "right-key").unwrap();
    assert_eq!(
        EncryptedPayload::decrypt(&legacy, "wrong-key").unwrap_err(),
        CryptoError::DecryptionFailed
    );
}

#[test]
fn tampered_payload_fails_to_decrypt() {
    let encrypted = EncryptedPayload::encrypt("efe.facebook", "secret").unwrap();
    let mut bytes = STANDARD.decode(&encrypted[PREFIX_V2.len()..]).unwrap();
    let last = bytes.len() - 1;
    bytes[last] ^= 1;
    let tampered = format!("hashit:v2:{}", STANDARD.encode(&bytes));
    assert_eq!(EncryptedPayload::decrypt(&tampered, "secret").unwrap_err(), CryptoError::DecryptionFailed);
}

#[test]
fn non_utf8_plaintext_fails_to_decrypt() {
    let key = pbkdf2_hmac_array::<Sha256, 32>(b"secret", b"hashit:v2:deterministic-key", 210_000);
    let cipher = Aes256GcmSiv::new_from_slice(&key).unwrap();
    let ciphertext = cipher.encrypt(Nonce::from_slice(&[0u8; 12]), &[0xffu8, 0xfe][..]).unwrap();
    let mut payload = vec![2u8];
    payload.extend_from_slice(&ciphertext);
    let encoded = format!("hashit:v2:{}", STANDARD.encode(payload));
    assert_eq!(EncryptedPayload::decrypt(&encoded, "secret").unwrap_err(), CryptoError::DecryptionFailed);
}

#[test]
fn error_messages_are_the_user_facing_texts() {
    assert_eq!(CryptoError::EmptyInput.message(), "Metin boş olamaz.");
    assert_eq!(CryptoError::EmptyMasterKey.message(), "Master key boş olamaz.");
    assert_eq!(
        CryptoError::InvalidPayload.message(),
        "Şifreli veri bozuk, eksik veya Hashit formatında değil."
    );
    assert_eq!(CryptoError::RandomGenerationFailed.message(), "Güvenli rastgele veri üretilemedi.");
    assert_eq!(CryptoError::KeyDerivationFailed.message(), "Master key'den anahtar türetilemedi.");
    assert_eq!(CryptoError::EncryptionFailed.message(), "Şifreleme başarısız oldu.");
    assert_eq!(
        CryptoError::DecryptionFailed.message(),
        "Şifre çözme başarısız. Master key yanlış olabilir veya veri bozulmuş olabilir."
    );
}

#[test]
fn non_canonical_base64_is_refused() {
    // "AB==" leaves nonzero trailing bits; unpadded text is refused too.
    assert_eq!(EncryptedPayload::decrypt("hashit:v2:AB==", "secret").unwrap_err(), CryptoError::InvalidPayload);
    let encrypted = EncryptedPayload::encrypt("efe", "secret").unwrap();
    let unpadded = encrypted.trim_end_matches('=');
    assert_ne!(unpadded, encrypted);
    assert_eq!(EncryptedPayload::decrypt(unpadded, "secret").unwrap_err(), CryptoError::InvalidPayload);
}

#[test]
fn empty_text_survives_a_current_payload() {
    // a payload of the empty text, built as the format describes it, decrypts to ""
    let encoded = expected_v2_payload("", "secret");
    assert_eq!(EncryptedPayload::decrypt(&encoded, "secret").unwrap(), "");
}
