# keyseed

Deterministic encryption of short secrets under a master key, as a Verus library.

- `src/payload.rs`: the `hashit:v2:` and `hashit:v1:` formats, their model as spec
  functions, and `EncryptedPayload::{encrypt, decrypt, encrypt_v1, encrypt_v1_with}`.
  `decrypt`'s contract states that it gives back the text of any payload that
  `encrypt` (or the legacy encryption) made under the same master key.
- `src/session.rs`: the state of the desktop window and its transitions.
- `src/aead.rs`, `src/keys.rs`, `src/encoding.rs`, `src/text.rs`: the calls into
  AES-GCM(-SIV), PBKDF2, zeroize, the OS random source, Base64 and `str`, each with
  the contract that the rest is proved against.
- `app/main.rs`: the egui window.
