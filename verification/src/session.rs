use crate::error::error_message;
use crate::payload::{decrypt_result, encrypt_result, EncryptedPayload};
use crate::text::{trim_spec, trim_str};
use vstd::prelude::*;
use vstd::utf8::encode_utf8;

verus! {

/// How long, in milliseconds, a copy button keeps saying that it copied.
pub const COPY_FEEDBACK_MS: u64 = 1800;

/// How soon, in milliseconds, the window is redrawn while that feedback shows.
pub const REPAINT_INTERVAL_MS: u64 = 100;

/// The text fields whose content can be copied.
#[derive(Debug, Clone, Copy, PartialEq, Eq, Structural)]
pub enum CopiedField {
    Plain,
    Encrypted,
}

/// Which field was copied last, and when (milliseconds on the caller's
/// monotonic clock).
#[derive(Debug, Clone, Copy, PartialEq, Eq, Structural)]
pub struct CopiedState {
    pub field: CopiedField,
    pub at_ms: u64,
}

/// The state of the desktop window: the two texts, the master key, the
/// status line and the copy feedback.
pub struct HashitApp {
    pub plain_text: String,
    pub encrypted_text: String,
    pub master_key: String,
    pub show_master_key: bool,
    pub status_message: String,
    pub is_error: bool,
    pub copied_field: Option<CopiedState>,
}

/// The status shown after a successful encryption.
pub open spec fn encrypted_status() -> Seq<char> {
    "Deterministic encryption complete."@
}

/// The status shown after a successful decryption.
pub open spec fn decrypted_status() -> Seq<char> {
    "Decryption complete."@
}

/// The status shown after the fields were cleared.
pub open spec fn cleared_status() -> Seq<char> {
    "All fields were cleared."@
}

/// The status shown after a copy.
pub open spec fn copied_status() -> Seq<char> {
    "Copied to clipboard."@
}

impl Default for HashitApp {
    /// The same as `HashitApp::new`.
    fn default() -> (app: HashitApp)
        ensures
            app.plain_text@ == Seq::<char>::empty(),
            app.encrypted_text@ == Seq::<char>::empty(),
            app.master_key@ == Seq::<char>::empty(),
            !app.show_master_key,
            app.status_message@ == Seq::<char>::empty(),
            !app.is_error,
            app.copied_field is None,
    {
        HashitApp::new()
    }
}

impl HashitApp {
    /// An empty window: no texts, a hidden master key, no status.
    pub fn new() -> (app: HashitApp)
        ensures
            app.plain_text@ == Seq::<char>::empty(),
            app.encrypted_text@ == Seq::<char>::empty(),
            app.master_key@ == Seq::<char>::empty(),
            !app.show_master_key,
            app.status_message@ == Seq::<char>::empty(),
            !app.is_error,
            app.copied_field is None,
    {
        HashitApp {
            plain_text: String::new(),
            encrypted_text: String::new(),
            master_key: String::new(),
            show_master_key: false,
            status_message: String::new(),
            is_error: false,
            copied_field: None,
        }
    }

    /// Sets the status line and whether it reports a problem.
    pub fn set_status(&mut self, message: &str, is_error: bool)
        ensures
            final(self).status_message@ == message@,
            final(self).is_error == is_error,
            final(self).plain_text == old(self).plain_text,
            final(self).encrypted_text == old(self).encrypted_text,
            final(self).master_key == old(self).master_key,
            final(self).show_master_key == old(self).show_master_key,
            final(self).copied_field == old(self).copied_field,
    {
        self.status_message = message.to_owned();
        self.is_error = is_error;
    }

    /// Encrypts the plain text under the master key into the encrypted
    /// field, or reports why it could not.
    pub fn encrypt_action(&mut self)
        requires
            encode_utf8(old(self).plain_text@).len() <= isize::MAX,
        ensures
            encrypt_result(old(self).plain_text@, old(self).master_key@) is Ok ==> {
                &&& final(self).encrypted_text@ == encrypt_result(
                    old(self).plain_text@,
                    old(self).master_key@,
                )->Ok_0
                &&& final(self).status_message@ == encrypted_status()
                &&& !final(self).is_error
            },
            encrypt_result(old(self).plain_text@, old(self).master_key@) is Err ==> {
                &&& final(self).encrypted_text == old(self).encrypted_text
                &&& final(self).status_message@ == error_message(
                    encrypt_result(old(self).plain_text@, old(self).master_key@)->Err_0,
                )
                &&& final(self).is_error
            },
            final(self).plain_text == old(self).plain_text,
            final(self).master_key == old(self).master_key,
            final(self).show_master_key == old(self).show_master_key,
            final(self).copied_field == old(self).copied_field,
    {
        match EncryptedPayload::encrypt(self.plain_text.as_str(), self.master_key.as_str()) {
            Ok(encrypted) => {
                self.encrypted_text = encrypted;
                self.set_status("Deterministic encryption complete.", false);
            },
            Err(error) => {
                let message = error.message();
                self.set_status(message.as_str(), true);
            },
        }
    }

    /// Decrypts the trimmed encrypted text under the master key into the
    /// plain field, or reports why it could not.
    pub fn decrypt_action(&mut self)
        ensures
            decrypt_result(trim_spec(old(self).encrypted_text@), old(self).master_key@) is Ok ==> {
                &&& final(self).plain_text@ == decrypt_result(
                    trim_spec(old(self).encrypted_text@),
                    old(self).master_key@,
                )->Ok_0
                &&& final(self).status_message@ == decrypted_status()
                &&& !final(self).is_error
            },
            decrypt_result(trim_spec(old(self).encrypted_text@), old(self).master_key@) is Err ==> {
                &&& final(self).plain_text == old(self).plain_text
                &&& final(self).status_message@ == error_message(
                    decrypt_result(
                        trim_spec(old(self).encrypted_text@),
                        old(self).master_key@,
                    )->Err_0,
                )
                &&& final(self).is_error
            },
            final(self).encrypted_text == old(self).encrypted_text,
            final(self).master_key == old(self).master_key,
            final(self).show_master_key == old(self).show_master_key,
            final(self).copied_field == old(self).copied_field,
    {
        let encoded = trim_str(self.encrypted_text.as_str());
        match EncryptedPayload::decrypt(encoded, self.master_key.as_str()) {
            Ok(plain) => {
                self.plain_text = plain;
                self.set_status("Decryption complete.", false);
            },
            Err(error) => {
                let message = error.message();
                self.set_status(message.as_str(), true);
            },
        }
    }

    /// Shows the master key if it was hidden, and hides it if it was shown.
    pub fn toggle_master_key_visibility(&mut self)
        ensures
            final(self).show_master_key == !old(self).show_master_key,
            final(self).plain_text == old(self).plain_text,
            final(self).encrypted_text == old(self).encrypted_text,
            final(self).master_key == old(self).master_key,
            final(self).status_message == old(self).status_message,
            final(self).is_error == old(self).is_error,
            final(self).copied_field == old(self).copied_field,
    {
        self.show_master_key = !self.show_master_key;
    }

    /// Empties the texts and the master key and forgets the copy feedback.
    pub fn clear_all(&mut self)
        ensures
            final(self).plain_text@ == Seq::<char>::empty(),
            final(self).encrypted_text@ == Seq::<char>::empty(),
            final(self).master_key@ == Seq::<char>::empty(),
            final(self).copied_field is None,
            final(self).status_message@ == cleared_status(),
            !final(self).is_error,
            final(self).show_master_key == old(self).show_master_key,
    {
        self.plain_text = String::new();
        self.encrypted_text = String::new();
        self.master_key = String::new();
        self.copied_field = None;
        self.set_status("All fields were cleared.", false);
    }

    /// Notes that a field's text was put on the clipboard at `now_ms`.
    pub fn record_copy(&mut self, field: CopiedField, now_ms: u64)
        ensures
            final(self).copied_field == Some(CopiedState { field, at_ms: now_ms }),
            final(self).status_message@ == copied_status(),
            !final(self).is_error,
            final(self).plain_text == old(self).plain_text,
            final(self).encrypted_text == old(self).encrypted_text,
            final(self).master_key == old(self).master_key,
            final(self).show_master_key == old(self).show_master_key,
    {
        self.copied_field = Some(CopiedState { field, at_ms: now_ms });
        self.set_status("Copied to clipboard.", false);
    }

    /// Whether the copy button of `field` should say that it copied.
    pub fn shows_copied(&self, field: CopiedField) -> (shown: bool)
        ensures
            shown == (self.copied_field is Some && self.copied_field->0.field == field),
    {
        match &self.copied_field {
            Some(state) => state.field == field,
            None => false,
        }
    }

    /// Forgets the copy feedback once it has shown for `COPY_FEEDBACK_MS`;
    /// while it still shows, asks for a redraw (the result).
    pub fn refresh_copy_state(&mut self, now_ms: u64) -> (repaint: bool)
        ensures
            old(self).copied_field is None ==> !repaint && final(self).copied_field is None,
            old(self).copied_field is Some && now_ms - old(self).copied_field->0.at_ms
                >= COPY_FEEDBACK_MS ==> !repaint && final(self).copied_field is None,
            old(self).copied_field is Some && now_ms - old(self).copied_field->0.at_ms
                < COPY_FEEDBACK_MS ==> repaint && final(self).copied_field
                == old(self).copied_field,
            final(self).plain_text == old(self).plain_text,
            final(self).encrypted_text == old(self).encrypted_text,
            final(self).master_key == old(self).master_key,
            final(self).show_master_key == old(self).show_master_key,
            final(self).status_message == old(self).status_message,
            final(self).is_error == old(self).is_error,
    {
        match self.copied_field {
            Some(state) => {
                let elapsed = if now_ms >= state.at_ms {
                    now_ms - state.at_ms
                } else {
                    0
                };
                if elapsed >= COPY_FEEDBACK_MS {
                    self.copied_field = None;
                    false
                } else {
                    true
                }
            },
            None => false,
        }
    }
}

} // verus!
