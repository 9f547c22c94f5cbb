use ohpdf::ipc::{
    check_image_inputs, check_merge_inputs, combine_message, combined_images_output, completed,
    export_dpi, export_message, export_reply_dir, failed, operation_output, picker_filter,
    reading_dpi, split_message, split_outputs, split_reply_dir, success_message, thumbnail_data,
    IpcResponse, Operation,
};
use ohpdf::render::thumbnail;

#[test]
fn resolutions() {
    assert_eq!(export_dpi(None), 150);
    assert_eq!(export_dpi(Some(10)), 72);
    assert_eq!(export_dpi(Some(1000)), 600);
    assert_eq!(export_dpi(Some(300)), 300);
    assert_eq!(reading_dpi(None), 96);
    assert_eq!(reading_dpi(Some(20)), 36);
    assert_eq!(reading_dpi(Some(700)), 600);
}

#[test]
fn outputs_and_messages() {
    assert_eq!(operation_output(Operation::Merge, "/d/a.pdf"), "/d/a_merged.pdf");
    assert_eq!(operation_output(Operation::DeletePages, "/d/a.pdf"), "/d/a_deleted.pdf");
    assert_eq!(operation_output(Operation::AddWatermark, "a.pdf"), "a_watermarked.pdf");
    assert_eq!(success_message(Operation::DeletePages, 3), "Deleted 3 page(s).");
    assert_eq!(success_message(Operation::ExtractPages, 1), "Extracted 1 page(s).");
    assert_eq!(success_message(Operation::ReorderPages, 0), "Pages reordered successfully.");
    assert_eq!(success_message(Operation::Merge, 0), "Merged successfully.");
    assert_eq!(split_message(2), "Split into 2 file(s).");
    assert_eq!(export_message(12), "Exported 12 image(s).");
    assert_eq!(combine_message(3), "Combined 3 image(s) into a PDF.");
}

#[test]
fn split_outputs_are_numbered() {
    assert_eq!(
        split_outputs("/d/a.pdf", 2),
        vec!["/d/a_split_1.pdf".to_string(), "/d/a_split_2.pdf".to_string()]
    );
    assert!(split_outputs("/d/a.pdf", 0).is_empty());
    assert_eq!(split_reply_dir("/d/a.pdf"), "/d");
    assert_eq!(split_reply_dir("/"), "/");
}

#[test]
fn export_and_combine_locations() {
    assert_eq!(export_reply_dir(&["/img/a_p1.png".to_string()], "/d/a.pdf"), "/img");
    assert_eq!(export_reply_dir(&[], "/d/a.pdf"), "/d");
    assert_eq!(combined_images_output("/p/x.png", None), "/p/images_combined.pdf");
    assert_eq!(combined_images_output("/p/x.png", Some("out.pdf".to_string())), "/p/out.pdf");
    assert_eq!(combined_images_output("x.png", None), "images_combined.pdf");
}

#[test]
fn empty_requests_are_refused() {
    assert_eq!(check_merge_inputs(0).unwrap_err(), "At least one input file is required.");
    assert!(check_merge_inputs(2).is_ok());
    assert_eq!(check_image_inputs(0).unwrap_err(), "At least one image is required.");
    assert!(check_image_inputs(1).is_ok());
}

#[test]
fn replies() {
    match completed::<()>(Ok(()), "/o.pdf".to_string(), Some("fine".to_string())) {
        IpcResponse::Done { output, message } => {
            assert_eq!(output, "/o.pdf");
            assert_eq!(message.as_deref(), Some("fine"));
        }
        _ => panic!("expected a success reply"),
    }
    match completed::<()>(Err("boom".to_string()), "/o.pdf".to_string(), None) {
        IpcResponse::Error { message } => assert_eq!(message, "boom"),
        _ => panic!("expected an error reply"),
    }
    match failed::<()>("bad".to_string()) {
        IpcResponse::Error { message } => assert_eq!(message, "bad"),
        _ => panic!("expected an error reply"),
    }
}

#[test]
fn picker_filters() {
    assert_eq!(picker_filter("image"), ("Images", vec!["png", "jpg", "jpeg", "webp", "bmp"]));
    assert_eq!(picker_filter("pdf"), ("PDF", vec!["pdf"]));
    assert_eq!(picker_filter("anything"), ("PDF", vec!["pdf"]));
}

#[test]
fn thumbnails_in_replies() {
    let d = thumbnail_data(thumbnail(2, b"hi"));
    assert_eq!(d.page, 3);
    assert_eq!(d.data_url, "data:image/png;base64,aGk=");
}
