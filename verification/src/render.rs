//! What page rendering hands back to the user interface: PNG images as
//! `data:` URLs, page thumbnails and basic document facts. Drawing the
//! pages is done elsewhere; this module packages the results.
use vstd::prelude::*;
use crate::pages::PageError;
use base64::Engine;

verus! {

/// The character of the standard Base64 alphabet for the 6-bit value `v`:
/// `A`-`Z`, `a`-`z`, `0`-`9`, `+`, `/`.
pub open spec fn base64_digit(v: int) -> char {
    if v < 26 {
        ('A' as int + v) as char
    } else if v < 52 {
        ('a' as int + (v - 26)) as char
    } else if v < 62 {
        ('0' as int + (v - 52)) as char
    } else if v == 62 {
        '+'
    } else {
        '/'
    }
}

/// Standard padded Base64 (RFC 4648, section 4) of `bytes`: every group of
/// three bytes becomes four characters of six bits each, and a last group
/// of one or two bytes is filled up with zero bits and `=`.
pub open spec fn base64_standard(b: Seq<u8>) -> Seq<char>
    decreases b.len(),
{
    if b.len() == 0 {
        Seq::empty()
    } else if b.len() == 1 {
        seq![
            base64_digit(b[0] as int / 4),
            base64_digit((b[0] as int % 4) * 16),
            '=',
            '=',
        ]
    } else if b.len() == 2 {
        seq![
            base64_digit(b[0] as int / 4),
            base64_digit((b[0] as int % 4) * 16 + b[1] as int / 16),
            base64_digit((b[1] as int % 16) * 4),
            '=',
        ]
    } else {
        seq![
            base64_digit(b[0] as int / 4),
            base64_digit((b[0] as int % 4) * 16 + b[1] as int / 16),
            base64_digit((b[1] as int % 16) * 4 + b[2] as int / 64),
            base64_digit(b[2] as int % 64),
        ] + base64_standard(b.subrange(3, b.len() as int))
    }
}

/// The Base64 text of `b` has four characters for every started group of
/// three bytes.
pub proof fn lemma_base64_len(b: Seq<u8>)
    ensures
        base64_standard(b).len() == 4 * ((b.len() + 2) / 3),
    decreases b.len(),
{
    if b.len() >= 3 {
        lemma_base64_len(b.subrange(3, b.len() as int));
    }
}

/// Inputs short enough that their Base64 length fits in a `usize`.
pub open spec fn encodable(n: int) -> bool {
    4 * ((n + 2) / 3) <= usize::MAX
}

/// `STANDARD.encode` from the `base64` crate: the padded standard Base64
/// text of `bytes`. The crate panics when the length of that text
/// overflows a `usize`, which `requires` leaves out.
#[verifier::external_body]
fn base64_encode(bytes: &[u8]) -> (r: String)
    requires
        encodable(bytes@.len() as int),
    ensures
        r@ == base64_standard(bytes@),
{
    base64::engine::general_purpose::STANDARD.encode(bytes)
}

/// The prefix of a PNG `data:` URL.
pub open spec fn png_url_prefix() -> Seq<char> {
    "data:image/png;base64,"@
}

/// The `data:` URL of a PNG image: `data:image/png;base64,` followed by the
/// image's Base64 text.
pub fn png_data_url(png: &[u8]) -> (r: String)
    requires
        encodable(png@.len() as int),
    ensures
        r@ == png_url_prefix() + base64_standard(png@),
        r@.len() == png_url_prefix().len() + 4 * ((png@.len() + 2) / 3),
{
    let mut url = String::from_str("data:image/png;base64,");
    let enc = base64_encode(png);
    proof {
        lemma_base64_len(png@);
    }
    url.append(enc.as_str());
    url
}

/// A rendered page preview.
pub struct Thumbnail {
    /// 1-indexed page number.
    pub page: u32,
    /// The preview as a PNG `data:` URL.
    pub data_url: String,
}

/// The preview of the page at 0-based `index`, rendered as `png`.
pub fn thumbnail(index: i32, png: &[u8]) -> (t: Thumbnail)
    requires
        0 <= index < i32::MAX,
        encodable(png@.len() as int),
    ensures
        t.page == index + 1,
        t.data_url@ == png_url_prefix() + base64_standard(png@),
{
    Thumbnail { page: (index + 1) as u32, data_url: png_data_url(png) }
}

/// Basic facts about an opened document.
pub struct PdfInfo {
    pub page_count: i32,
    /// The document's title, when its metadata has one.
    pub title: Option<String>,
}

/// Why a page cannot be rendered.
#[derive(Debug, Clone, Copy, PartialEq, Eq, Structural)]
pub enum RenderError {
    /// Page numbers start at 1.
    PageZero,
    /// The page is past the end of the document.
    OutOfRange(PageError),
}

/// Refuses page 0 before the document is even opened.
pub fn check_page_number(page: u32) -> (r: Result<(), RenderError>)
    ensures
        r is Ok <==> page >= 1,
        r matches Err(e) ==> e == RenderError::PageZero,
{
    if page < 1 {
        return Err(RenderError::PageZero);
    }
    Ok(())
}

/// Refuses a page past the end of a document of `total` pages.
pub fn check_page_in_document(page: u32, total: u32) -> (r: Result<(), RenderError>)
    ensures
        r is Ok <==> page <= total,
        r matches Err(e) ==> e == RenderError::OutOfRange(PageError::OutOfRange { page, total }),
{
    if page > total {
        return Err(RenderError::OutOfRange(PageError::OutOfRange { page, total }));
    }
    Ok(())
}

impl RenderError {
    /// The message shown for this error.
    pub fn message(&self) -> (r: String)
        ensures
            match *self {
                RenderError::PageZero => r@ == "Page numbers start at 1."@,
                RenderError::OutOfRange(e) => r@ == crate::pages::page_error_text(e),
            },
    {
        match *self {
            RenderError::PageZero => String::from_str("Page numbers start at 1."),
            RenderError::OutOfRange(e) => e.message(),
        }
    }
}

} // verus!
