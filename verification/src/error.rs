use vstd::prelude::*;

verus! {

/// Why an encryption or decryption was refused.
#[derive(Debug, Clone, Copy, PartialEq, Eq, Structural)]
pub enum CryptoError {
    EmptyInput,
    EmptyMasterKey,
    InvalidPayload,
    RandomGenerationFailed,
    KeyDerivationFailed,
    EncryptionFailed,
    DecryptionFailed,
}

/// The message shown to a user for each error.
pub open spec fn error_message(e: CryptoError) -> Seq<char> {
    match e {
        CryptoError::EmptyInput => "Metin boş olamaz."@,
        CryptoError::EmptyMasterKey => "Master key boş olamaz."@,
        CryptoError::InvalidPayload => "Şifreli veri bozuk, eksik veya Hashit formatında değil."@,
        CryptoError::RandomGenerationFailed => "Güvenli rastgele veri üretilemedi."@,
        CryptoError::KeyDerivationFailed => "Master key'den anahtar türetilemedi."@,
        CryptoError::EncryptionFailed => "Şifreleme başarısız oldu."@,
        CryptoError::DecryptionFailed => "Şifre çözme başarısız. Master key yanlış olabilir veya veri bozulmuş olabilir."@,
    }
}

impl CryptoError {
    /// The user-facing text of this error.
    pub fn message(&self) -> (text: String)
        ensures
            text@ == error_message(*self),
    {
        let text: &str = match self {
            CryptoError::EmptyInput => "Metin boş olamaz.",
            CryptoError::EmptyMasterKey => "Master key boş olamaz.",
            CryptoError::InvalidPayload => "Şifreli veri bozuk, eksik veya Hashit formatında değil.",
            CryptoError::RandomGenerationFailed => "Güvenli rastgele veri üretilemedi.",
            CryptoError::KeyDerivationFailed => "Master key'den anahtar türetilemedi.",
            CryptoError::EncryptionFailed => "Şifreleme başarısız oldu.",
            CryptoError::DecryptionFailed => "Şifre çözme başarısız. Master key yanlış olabilir veya veri bozulmuş olabilir.",
        };
        text.to_owned()
    }
}

} // verus!
