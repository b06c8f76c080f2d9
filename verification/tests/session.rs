use keyseed::{CopiedField, CopiedState, EncryptedPayload, HashitApp, COPY_FEEDBACK_MS};

fn filled_app() -> HashitApp {
    let mut app = HashitApp::new();
    app.plain_text = "efe.facebook".to_string();
    app.master_key = "master-key".to_string();
    app
}

#[test]
fn new_window_is_empty() {
    let app = HashitApp::new();
    assert!(app.plain_text.is_empty());
    assert!(app.encrypted_text.is_empty());
    assert!(app.master_key.is_empty());
    assert!(!app.show_master_key);
    assert!(app.status_message.is_empty());
    assert!(!app.is_error);
    assert!(app.copied_field.is_none());
}

#[test]
fn encrypt_action_writes_the_payload() {
    let mut app = filled_app();
    app.encrypt_action();
    assert_eq!(
        app.encrypted_text,
        EncryptedPayload::encrypt("efe.facebook", "master-key").unwrap()
    );
    assert_eq!(app.status_message, "Deterministic encryption complete.");
    assert!(!app.is_error);
    assert_eq!(app.plain_text, "efe.facebook");
}

#[test]
fn encrypt_action_reports_an_empty_master_key() {
    let mut app = HashitApp::new();
    app.plain_text = "efe.facebook".to_string();
    app.encrypted_text = "previous".to_string();
    app.encrypt_action();
    assert_eq!(app.encrypted_text, "previous");
    assert_eq!(app.status_message, "Master key boş olamaz.");
    assert!(app.is_error);
}

#[test]
fn decrypt_action_restores_the_text() {
    let mut app = filled_app();
    app.encrypt_action();
    app.plain_text = String::new();
    app.encrypted_text = format!("  {}\n", app.encrypted_text);
    app.decrypt_action();
    assert_eq!(app.plain_text, "efe.facebook");
    assert_eq!(app.status_message, "Decryption complete.");
    assert!(!app.is_error);
}

#[test]
fn decrypt_action_reports_an_invalid_payload() {
    let mut app = filled_app();
    app.encrypted_text = "nope".to_string();
    app.decrypt_action();
    assert_eq!(app.plain_text, "efe.facebook");
    assert_eq!(app.status_message, "Şifreli veri bozuk, eksik veya Hashit formatında değil.");
    assert!(app.is_error);
}

#[test]
fn clear_all_empties_the_fields() {
    let mut app = filled_app();
    app.show_master_key = true;
    app.encrypt_action();
    app.record_copy(CopiedField::Encrypted, 5);
    app.clear_all();
    assert!(app.plain_text.is_empty());
    assert!(app.encrypted_text.is_empty());
    assert!(app.master_key.is_empty());
    assert!(app.copied_field.is_none());
    assert!(app.show_master_key);
    assert_eq!(app.status_message, "All fields were cleared.");
    assert!(!app.is_error);
}

#[test]
fn set_status_sets_message_and_flag() {
    let mut app = HashitApp::new();
    app.set_status("oops", true);
    assert_eq!(app.status_message, "oops");
    assert!(app.is_error);
}

#[test]
fn copy_feedback_shows_and_expires() {
    let mut app = filled_app();
    app.record_copy(CopiedField::Plain, 1_000);
    assert_eq!(app.copied_field, Some(CopiedState { field: CopiedField::Plain, at_ms: 1_000 }));
    assert_eq!(app.status_message, "Copied to clipboard.");
    assert!(app.shows_copied(CopiedField::Plain));
    assert!(!app.shows_copied(CopiedField::Encrypted));

    assert!(app.refresh_copy_state(1_000 + COPY_FEEDBACK_MS - 1));
    assert!(app.copied_field.is_some());
    assert!(!app.refresh_copy_state(1_000 + COPY_FEEDBACK_MS));
    assert!(app.copied_field.is_none());
    assert!(!app.refresh_copy_state(10_000));
}

#[test]
fn copy_feedback_survives_a_clock_before_the_copy() {
    let mut app = HashitApp::new();
    app.record_copy(CopiedField::Encrypted, 5_000);
    assert!(app.refresh_copy_state(1_000));
    assert!(app.shows_copied(CopiedField::Encrypted));
}

#[test]
fn toggle_shows_and_hides_the_master_key() {
    let mut app = filled_app();
    app.toggle_master_key_visibility();
    assert!(app.show_master_key);
    assert_eq!(app.master_key, "master-key");
    app.toggle_master_key_visibility();
    assert!(!app.show_master_key);
}
