//! Decisions made before a document is written: how hard to compress,
//! whether a password can be used, what to do with a protected file, and
//! whether a watermark text is usable.
use vstd::prelude::*;
use crate::text::{decimal, push_decimal, push_text};

verus! {

/// The quality used when none is asked for.
pub const DEFAULT_QUALITY: u8 = 75;

/// `q` limited to `lo..=hi`.
pub open spec fn clamp(q: int, lo: int, hi: int) -> int {
    if q < lo {
        lo
    } else if q > hi {
        hi
    } else {
        q
    }
}

/// The compression quality in effect: the requested one (75 when none),
/// limited to `10..=100`.
pub open spec fn effective_quality(q: Option<u8>) -> int {
    clamp(
        match q {
            Some(v) => v as int,
            None => DEFAULT_QUALITY as int,
        },
        10,
        100,
    )
}

/// Law of compression quality: a quality asked for in `10..=100` is used
/// as it is, one below or above is raised to 10 or lowered to 100, and 75
/// is used when none is asked for.
pub proof fn law_compress_quality(q: u8)
    ensures
        10 <= q <= 100 ==> effective_quality(Some(q)) == q,
        q < 10 ==> effective_quality(Some(q)) == 10,
        q > 100 ==> effective_quality(Some(q)) == 100,
        effective_quality(None) == 75,
{
}

/// What happens to a document's encryption when it is written.
#[derive(Debug, Clone, Copy, PartialEq, Eq, Structural)]
pub enum EncryptionChoice {
    /// Keep whatever protection the document has.
    Keep,
    /// Write it unprotected.
    Remove,
    /// Protect it with AES-256.
    Aes256,
}

/// How a document is written.
pub struct WriteSettings {
    /// Drop objects nothing refers to.
    pub garbage: bool,
    /// Compress streams.
    pub compress: bool,
    /// Compress image streams.
    pub compress_images: bool,
    /// Compress font streams.
    pub compress_fonts: bool,
    /// Clean up content streams.
    pub clean: bool,
    /// Linearize for fast web view.
    pub linear: bool,
    pub encryption: EncryptionChoice,
    /// Grant every permission (printing, copying, ...) to the reader.
    pub all_permissions: bool,
    /// The owner and user password, when the document is protected.
    pub password: Option<String>,
}

/// The settings used whenever a rewritten document is saved: drop unused
/// objects and compress streams, nothing else.
pub open spec fn is_compact(s: WriteSettings) -> bool {
    &&& s.garbage
    &&& s.compress
    &&& !s.compress_images
    &&& !s.compress_fonts
    &&& !s.clean
    &&& !s.linear
    &&& s.encryption == EncryptionChoice::Keep
    &&& !s.all_permissions
    &&& s.password is None
}

/// The settings used whenever a rewritten document is saved: garbage
/// collection of unused objects and stream compression.
pub fn compact_write_options() -> (s: WriteSettings)
    ensures
        is_compact(s),
{
    WriteSettings {
        garbage: true,
        compress: true,
        compress_images: false,
        compress_fonts: false,
        clean: false,
        linear: false,
        encryption: EncryptionChoice::Keep,
        all_permissions: false,
        password: None,
    }
}

/// The compression quality in effect for a request.
pub fn compress_quality(quality: Option<u8>) -> (q: u8)
    ensures
        q == effective_quality(quality),
        10 <= q <= 100,
{
    let q = match quality {
        Some(v) => v,
        None => DEFAULT_QUALITY,
    };
    if q < 10 {
        10
    } else if q > 100 {
        100
    } else {
        q
    }
}

/// The write settings for compressing at the requested quality: every
/// lossless optimization, plus linearization below quality 80; protection
/// is kept as it is.
pub fn compress_settings(quality: Option<u8>) -> (s: WriteSettings)
    ensures
        s.garbage && s.compress && s.compress_images && s.compress_fonts && s.clean,
        s.linear == (effective_quality(quality) < 80),
        s.encryption == EncryptionChoice::Keep,
        !s.all_permissions,
        s.password is None,
{
    let q = compress_quality(quality);
    WriteSettings {
        garbage: true,
        compress: true,
        compress_images: true,
        compress_fonts: true,
        clean: true,
        linear: q < 80,
        encryption: EncryptionChoice::Keep,
        all_permissions: false,
        password: None,
    }
}

/// The write settings for protecting a document with `password`: AES-256,
/// every permission granted, `password` as both owner and user password.
/// The password must be shorter than 32 bytes.
pub fn encrypt_settings(password: &str) -> (s: WriteSettings)
    requires
        password.len() <= MAX_PASSWORD_BYTES,
    ensures
        s.encryption == EncryptionChoice::Aes256,
        s.all_permissions,
        s.password matches Some(p) && p@ == password@,
        !s.garbage && !s.compress && !s.compress_images && !s.compress_fonts && !s.clean
            && !s.linear,
{
    WriteSettings {
        garbage: false,
        compress: false,
        compress_images: false,
        compress_fonts: false,
        clean: false,
        linear: false,
        encryption: EncryptionChoice::Aes256,
        all_permissions: true,
        password: Some(String::from_str(password)),
    }
}

/// The write settings for an unprotected copy: the compact settings with
/// protection removed.
pub fn decrypt_settings() -> (s: WriteSettings)
    ensures
        s.garbage && s.compress,
        !s.compress_images && !s.compress_fonts && !s.clean && !s.linear,
        s.encryption == EncryptionChoice::Remove,
        !s.all_permissions,
        s.password is None,
{
    let mut s = compact_write_options();
    s.encryption = EncryptionChoice::Remove;
    s
}

/// The longest password, in bytes, that can protect a document.
pub const MAX_PASSWORD_BYTES: usize = 31;

/// Why a password cannot be used.
#[derive(Debug, Clone, Copy, PartialEq, Eq, Structural)]
pub enum PasswordError {
    Empty,
    /// Longer than 31 bytes; `len` is its length in bytes.
    TooLong { len: usize },
}

/// Refuses an empty password.
pub fn check_password_present(password: &str) -> (r: Result<(), PasswordError>)
    ensures
        r is Ok <==> password@.len() > 0,
        r matches Err(e) ==> e == PasswordError::Empty,
{
    if password.is_empty() {
        return Err(PasswordError::Empty);
    }
    Ok(())
}

/// Refuses a password of 32 bytes or more (UTF-8).
pub fn check_password_length(password: &str) -> (r: Result<(), PasswordError>)
    ensures
        r is Ok <==> password.len() <= MAX_PASSWORD_BYTES,
        r matches Err(e) ==> e == (PasswordError::TooLong { len: password.len() }),
{
    let n = password.len();
    if n >= 32 {
        return Err(PasswordError::TooLong { len: n });
    }
    Ok(())
}

/// The message shown for an unusable password.
pub open spec fn password_error_text(e: PasswordError) -> Seq<char> {
    match e {
        PasswordError::Empty => "Password cannot be empty."@,
        PasswordError::TooLong { len } => "Password is too long (max 31 bytes; yours is "@
            + decimal(len as nat) + " bytes)."@,
    }
}

impl PasswordError {
    /// The message shown for this error.
    pub fn message(&self) -> (r: String)
        ensures
            r@ == password_error_text(*self),
    {
        match *self {
            PasswordError::Empty => String::from_str("Password cannot be empty."),
            PasswordError::TooLong { len } => {
                let mut m = String::from_str("Password is too long (max 31 bytes; yours is ");
                push_decimal(&mut m, len as u64);
                push_text(&mut m, " bytes).");
                m
            },
        }
    }
}

/// What removing protection from a document does once it is open.
#[derive(Debug, Clone, Copy, PartialEq, Eq, Structural)]
pub enum DecryptStep {
    /// The document is protected: try the password.
    Authenticate,
    /// The document is not protected: save an unprotected copy anyway.
    SaveUnprotectedCopy,
}

/// The first step of removing protection from an open document.
pub fn decrypt_step(needs_password: bool) -> (s: DecryptStep)
    ensures
        needs_password ==> s == DecryptStep::Authenticate,
        !needs_password ==> s == DecryptStep::SaveUnprotectedCopy,
{
    if needs_password {
        DecryptStep::Authenticate
    } else {
        DecryptStep::SaveUnprotectedCopy
    }
}

/// Why a document could not be unprotected.
#[derive(Debug, Clone, Copy, PartialEq, Eq, Structural)]
pub enum DecryptError {
    WrongPassword,
}

/// After trying the password: continue only if it was accepted.
pub fn check_authenticated(accepted: bool) -> (r: Result<(), DecryptError>)
    ensures
        r is Ok <==> accepted,
        r matches Err(e) ==> e == DecryptError::WrongPassword,
{
    if !accepted {
        return Err(DecryptError::WrongPassword);
    }
    Ok(())
}

impl DecryptError {
    /// The message shown for this error.
    pub fn message(&self) -> (r: String)
        ensures
            r@ == "Incorrect password \u{2014} could not decrypt the file."@,
    {
        String::from_str("Incorrect password \u{2014} could not decrypt the file.")
    }
}

/// Refuses an empty watermark text.
pub fn check_watermark_text(text: &str) -> (r: Result<(), String>)
    ensures
        r is Ok <==> text@.len() > 0,
        r matches Err(m) ==> m@ == "Watermark text cannot be empty."@,
{
    if text.is_empty() {
        return Err(String::from_str("Watermark text cannot be empty."));
    }
    Ok(())
}

} // verus!
