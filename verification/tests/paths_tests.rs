use ohpdf::paths::{
    derive_output, first_unsupported_image, image_output_path, is_image_extension_text, is_pdf_path,
    is_supported_image, sidecar_path,
};

#[test]
fn derived_outputs_sit_beside_the_source() {
    assert_eq!(derive_output("/tmp/report.pdf", "merged"), "/tmp/report_merged.pdf");
    assert_eq!(derive_output("report.pdf", "compressed"), "report_compressed.pdf");
    assert_eq!(derive_output("/a/b.c/notes", "rotated"), "/a/b.c/notes_rotated.pdf");
}

#[test]
fn derived_output_differs_from_source() {
    for src in ["/tmp/a.pdf", "/tmp/a_merged.pdf", "x", "/"] {
        assert_ne!(derive_output(src, "merged"), src);
    }
}

#[test]
fn derived_output_keeps_unusual_stems() {
    assert_eq!(derive_output("/tmp/a:b.pdf", "merged"), "/tmp/a:b_merged.pdf");
    assert_eq!(derive_output("/tmp/a.b.pdf", "split_2"), "/tmp/a.b_split_2.pdf");
    assert_eq!(derive_output("/tmp/..x.pdf", "rotated"), "/tmp/..x_rotated.pdf");
    assert_eq!(derive_output("/tmp/c:d.pdf", "x"), "/tmp/c:d_x.pdf");
    assert_eq!(derive_output("/tmp/a\\b.pdf", "merged"), "/tmp/a\\b_merged.pdf");
}

#[test]
fn lower_cased_image_extensions() {
    for e in ["png", "jpg", "jpeg", "webp", "bmp"] {
        assert!(is_image_extension_text(e));
    }
    for e in ["PNG", "gif", "", "pdf", "jpe"] {
        assert!(!is_image_extension_text(e));
    }
}

#[test]
fn first_unsupported_image_stops_at_the_first() {
    let ok = vec!["a.png".to_string(), "b.JPG".to_string()];
    assert_eq!(first_unsupported_image(&ok), None);
    let bad = vec!["a.png".to_string(), "b.gif".to_string(), "c.txt".to_string()];
    assert_eq!(first_unsupported_image(&bad), Some((1, "Unsupported image format: b.gif".to_string())));
    assert_eq!(first_unsupported_image(&[]), None);
}

#[test]
fn sidecar_files() {
    assert_eq!(sidecar_path("/docs/a.pdf"), "/docs/a.pdf.ohpdf-annot.json");
    assert_ne!(sidecar_path("a.pdf"), "a.pdf");
    assert_ne!(sidecar_path("a.pdf"), sidecar_path("b.pdf"));
}

#[test]
fn image_outputs() {
    assert_eq!(image_output_path("/tmp/report.pdf", None, 2), "/tmp/report_p2.png");
    assert_eq!(image_output_path("/tmp/report.pdf", Some("/out"), 11), "/out/report_p11.png");
    assert_eq!(image_output_path("report.pdf", None, 1), "report_p1.png");
}

#[test]
fn image_extensions() {
    assert!(is_supported_image("/x/photo.JPG"));
    assert!(is_supported_image("a.jpeg"));
    assert!(is_supported_image("a.webp"));
    assert!(is_supported_image("a.Bmp"));
    assert!(is_supported_image("a.png"));
    assert!(!is_supported_image("a.gif"));
    assert!(!is_supported_image("noext"));
}

#[test]
fn pdf_extensions() {
    assert!(is_pdf_path("/d/x.PDF"));
    assert!(is_pdf_path("y.pdf"));
    assert!(!is_pdf_path("y.pdfx"));
    assert!(!is_pdf_path("pdf"));
}
