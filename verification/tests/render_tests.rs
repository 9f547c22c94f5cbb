use ohpdf::pages::PageError;
use ohpdf::render::{check_page_in_document, check_page_number, png_data_url, thumbnail, RenderError};

#[test]
fn data_urls_hold_base64() {
    assert_eq!(png_data_url(b""), "data:image/png;base64,");
    assert_eq!(png_data_url(b"hi"), "data:image/png;base64,aGk=");
    assert_eq!(png_data_url(b"abc"), "data:image/png;base64,YWJj");
    assert_eq!(png_data_url(&[0xff, 0xfe, 0x00, 0x01]), "data:image/png;base64,//4AAQ==");
}

#[test]
fn thumbnails_are_numbered_from_one() {
    let t = thumbnail(0, b"abc");
    assert_eq!(t.page, 1);
    assert_eq!(t.data_url, "data:image/png;base64,YWJj");
    assert_eq!(thumbnail(6, b"").page, 7);
}

#[test]
fn page_number_checks() {
    assert_eq!(check_page_number(0), Err(RenderError::PageZero));
    assert_eq!(check_page_number(1), Ok(()));
    assert_eq!(check_page_in_document(3, 3), Ok(()));
    assert_eq!(
        check_page_in_document(4, 3),
        Err(RenderError::OutOfRange(PageError::OutOfRange { page: 4, total: 3 }))
    );
    assert_eq!(RenderError::PageZero.message(), "Page numbers start at 1.");
    assert_eq!(
        check_page_in_document(4, 3).unwrap_err().message(),
        "Page 4 is out of range (document has 3 pages)."
    );
}
