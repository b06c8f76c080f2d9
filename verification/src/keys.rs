use pbkdf2::pbkdf2_hmac_array;
use rand::rngs::OsRng;
use rand::RngCore;
use sha2::Sha256;
use vstd::prelude::*;
use zeroize::Zeroize;

verus! {

/// The 32-byte key that PBKDF2 with HMAC-SHA256 derives from a password and a
/// salt in the given number of rounds.
pub uninterp spec fn pbkdf2_hmac_sha256_key(password: Seq<u8>, salt: Seq<u8>, rounds: u32) -> Seq<u8>;

/// Derives a 32-byte key with `pbkdf2::pbkdf2_hmac_array::<Sha256, 32>`. The
/// key is a function of the password, the salt and the round count alone.
#[verifier::external_body]
pub(crate) fn pbkdf2_sha256(password: &[u8], salt: &[u8], rounds: u32) -> (key: [u8; 32])
    ensures
        key@ == pbkdf2_hmac_sha256_key(password@, salt@, rounds),
{
    pbkdf2_hmac_array::<Sha256, 32>(password, salt, rounds)
}

/// Overwrites a key with zeros (`Zeroize::zeroize` on a byte array).
#[verifier::external_body]
pub(crate) fn wipe_key(key: &mut [u8; 32])
    ensures
        final(key)@ == Seq::new(32, |i: int| 0u8),
{
    key.zeroize();
}

/// Fills a buffer from the operating system's random source
/// (`OsRng.try_fill_bytes`), and says whether it succeeded. What the buffer
/// holds afterwards is left open: it depends on chance.
#[verifier::external_body]
pub(crate) fn fill_from_os_rng<const N: usize>(buffer: &mut [u8; N]) -> (filled: bool)
    ensures
        final(buffer)@.len() == N,
{
    match OsRng.try_fill_bytes(buffer) {
        Ok(()) => true,
        Err(_) => false,
    }
}

} // verus!
