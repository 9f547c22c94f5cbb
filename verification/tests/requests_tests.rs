use ohpdf::ipc::{IpcResponse, PageRange, ThumbnailData};
use ohpdf::requests::{finish, plan_request, Job, Outcome, Request};

type Reply = IpcResponse<()>;

fn done(r: &Reply) -> Option<(String, Option<String>)> {
    match r {
        IpcResponse::Done { output, message } => Some((output.clone(), message.clone())),
        _ => None,
    }
}

#[test]
fn merge_of_nothing_is_refused() {
    match plan_request(Request::Merge { paths: vec![] }) {
        Err(m) => assert_eq!(m, "At least one input file is required."),
        Ok(_) => panic!("a merge of no files was accepted"),
    }
}

#[test]
fn merge_is_written_beside_the_first_file() {
    let job = plan_request(Request::Merge { paths: vec!["/d/a.pdf".into(), "/e/b.pdf".into()] }).unwrap();
    match &job {
        Job::Merge { inputs, output } => {
            assert_eq!(inputs, &vec!["/d/a.pdf".to_string(), "/e/b.pdf".to_string()]);
            assert_eq!(output, "/d/a_merged.pdf");
        }
        _ => panic!("wrong job"),
    }
    let r: Reply = finish(job, Ok(Outcome::Written));
    assert_eq!(done(&r), Some(("/d/a_merged.pdf".into(), Some("Merged successfully.".into()))));
}

#[test]
fn split_outputs_and_reply() {
    let ranges = vec![PageRange { start: 1, end: 2 }, PageRange { start: 3, end: 3 }];
    let job = plan_request(Request::Split { path: "/d/a.pdf".into(), ranges }).unwrap();
    match &job {
        Job::Split { input, ranges, outputs } => {
            assert_eq!(input, "/d/a.pdf");
            assert_eq!(ranges.len(), 2);
            assert_eq!(outputs, &vec!["/d/a_split_1.pdf".to_string(), "/d/a_split_2.pdf".to_string()]);
        }
        _ => panic!("wrong job"),
    }
    let r: Reply = finish(job, Ok(Outcome::Written));
    assert_eq!(done(&r), Some(("/d".into(), Some("Split into 2 file(s).".into()))));
}

#[test]
fn deleting_pages_counts_them() {
    let job = plan_request(Request::DeletePages { path: "x.pdf".into(), pages: vec![2, 4, 6] }).unwrap();
    let r: Reply = finish(job, Ok(Outcome::Written));
    assert_eq!(done(&r), Some(("x_deleted.pdf".into(), Some("Deleted 3 page(s).".into()))));
}

#[test]
fn failures_are_reported_as_errors() {
    let job = plan_request(Request::Compress { path: "/d/a.pdf".into(), quality: Some(3) }).unwrap();
    match &job {
        Job::Compress { output, quality, .. } => {
            assert_eq!(output, "/d/a_compressed.pdf");
            assert_eq!(*quality, Some(3));
        }
        _ => panic!("wrong job"),
    }
    let r: Reply = finish(job, Err("Failed to open file: /d/a.pdf".into()));
    match r {
        IpcResponse::Error { message } => assert_eq!(message, "Failed to open file: /d/a.pdf"),
        _ => panic!("not an error"),
    }
}

#[test]
fn export_defaults_and_reply() {
    let job = plan_request(Request::PdfToImages { path: "/d/a.pdf".into(), dpi: None }).unwrap();
    assert!(matches!(job, Job::Export { dpi: 150, .. }));
    let job = plan_request(Request::PdfToImages { path: "/d/a.pdf".into(), dpi: Some(1200) }).unwrap();
    assert!(matches!(job, Job::Export { dpi: 600, .. }));
    let r: Reply = finish(job, Ok(Outcome::Images(vec!["/out/a_p1.png".into(), "/out/a_p2.png".into()])));
    assert_eq!(done(&r), Some(("/out".into(), Some("Exported 2 image(s).".into()))));
}

#[test]
fn combining_images() {
    match plan_request(Request::ImagesToPdf { paths: vec![], output_name: None }) {
        Err(m) => assert_eq!(m, "At least one image is required."),
        Ok(_) => panic!("no images accepted"),
    }
    let job = plan_request(Request::ImagesToPdf { paths: vec!["/p/1.png".into(), "/p/2.jpg".into()], output_name: None })
        .unwrap();
    let r: Reply = finish(job, Ok(Outcome::Written));
    assert_eq!(
        done(&r),
        Some(("/p/images_combined.pdf".into(), Some("Combined 2 image(s) into a PDF.".into())))
    );
}

#[test]
fn reading_requests() {
    let job = plan_request(Request::RenderPage { path: "a.pdf".into(), page: 3, dpi: None }).unwrap();
    assert!(matches!(job, Job::Render { page: 3, dpi: 96, .. }));
    let r: Reply = finish(job, Ok(Outcome::Page("data:image/png;base64,".into())));
    assert!(matches!(r, IpcResponse::Page { ref data_url } if data_url == "data:image/png;base64,"));
    let job = plan_request(Request::GetPageCount { path: "a.pdf".into() }).unwrap();
    let r: Reply = finish(job, Ok(Outcome::Count(7)));
    assert!(matches!(r, IpcResponse::PageCount { count: 7 }));
    let job = plan_request(Request::GetPageThumbnails { path: "a.pdf".into() }).unwrap();
    let t = vec![ThumbnailData { page: 1, data_url: "u".into() }];
    let r: Reply = finish(job, Ok(Outcome::Thumbnails(t)));
    assert!(matches!(r, IpcResponse::Thumbnails { ref pages } if pages.len() == 1 && pages[0].page == 1));
}

#[test]
fn annotations_and_reveal() {
    let job = plan_request(Request::SaveAnnotations { path: "/d/a.pdf".into() }).unwrap();
    let r: Reply = finish(job, Ok(Outcome::Written));
    assert_eq!(done(&r), Some(("/d/a.pdf".into(), Some("Annotations saved.".into()))));
    let job = plan_request(Request::RevealInFinder { path: "/d/a.pdf".into() }).unwrap();
    let r: Reply = finish(job, Ok(Outcome::Written));
    assert_eq!(done(&r), Some(("/d/a.pdf".into(), None)));
}

#[test]
fn picking_files() {
    let job = plan_request(Request::PickFiles { kind: "image".into(), multiple: true }).unwrap();
    match &job {
        Job::Pick { filter_name, extensions, multiple } => {
            assert_eq!(*filter_name, "Images");
            assert_eq!(extensions, &vec!["png", "jpg", "jpeg", "webp", "bmp"]);
            assert!(*multiple);
        }
        _ => panic!("wrong job"),
    }
    let r: Reply = finish(job, Ok(Outcome::Paths(vec!["/p/1.png".into()])));
    assert!(matches!(r, IpcResponse::Paths { ref paths } if paths.len() == 1));
}
