use ohpdf::options::{
    check_authenticated, check_password_length, check_password_present, check_watermark_text,
    compact_write_options, compress_quality, compress_settings, decrypt_settings, decrypt_step,
    encrypt_settings, DecryptError, DecryptStep, EncryptionChoice, PasswordError,
};

#[test]
fn quality_defaults_and_limits() {
    assert_eq!(compress_quality(None), 75);
    assert_eq!(compress_quality(Some(5)), 10);
    assert_eq!(compress_quality(Some(200)), 100);
    assert_eq!(compress_quality(Some(42)), 42);
}

#[test]
fn compress_linearizes_below_80() {
    assert!(compress_settings(None).linear);
    assert!(compress_settings(Some(79)).linear);
    assert!(!compress_settings(Some(80)).linear);
    let s = compress_settings(Some(100));
    assert!(s.garbage && s.compress && s.compress_images && s.compress_fonts && s.clean);
    assert_eq!(s.encryption, EncryptionChoice::Keep);
}

#[test]
fn compact_and_protection_settings() {
    let c = compact_write_options();
    assert!(c.garbage && c.compress && !c.clean && !c.linear);
    assert_eq!(c.encryption, EncryptionChoice::Keep);
    let e = encrypt_settings("secret");
    assert_eq!(e.encryption, EncryptionChoice::Aes256);
    assert!(e.all_permissions);
    assert_eq!(e.password.as_deref(), Some("secret"));
    let d = decrypt_settings();
    assert_eq!(d.encryption, EncryptionChoice::Remove);
    assert!(d.garbage && d.compress && d.password.is_none());
}

#[test]
fn passwords() {
    assert_eq!(check_password_present(""), Err(PasswordError::Empty));
    assert_eq!(check_password_present("x"), Ok(()));
    assert_eq!(check_password_length(&"a".repeat(31)), Ok(()));
    assert_eq!(
        check_password_length(&"a".repeat(32)),
        Err(PasswordError::TooLong { len: 32 })
    );
    // Length is counted in bytes: 11 three-byte characters are 33 bytes.
    assert_eq!(
        check_password_length(&"\u{20AC}".repeat(11)),
        Err(PasswordError::TooLong { len: 33 })
    );
    assert_eq!(PasswordError::Empty.message(), "Password cannot be empty.");
    assert_eq!(
        PasswordError::TooLong { len: 40 }.message(),
        "Password is too long (max 31 bytes; yours is 40 bytes)."
    );
}

#[test]
fn decryption_steps() {
    assert_eq!(decrypt_step(true), DecryptStep::Authenticate);
    assert_eq!(decrypt_step(false), DecryptStep::SaveUnprotectedCopy);
    assert_eq!(check_authenticated(true), Ok(()));
    assert_eq!(check_authenticated(false), Err(DecryptError::WrongPassword));
    assert_eq!(
        DecryptError::WrongPassword.message(),
        "Incorrect password \u{2014} could not decrypt the file."
    );
}

#[test]
fn watermark_text() {
    assert!(check_watermark_text("DRAFT").is_ok());
    assert_eq!(
        check_watermark_text("").unwrap_err(),
        "Watermark text cannot be empty."
    );
}
