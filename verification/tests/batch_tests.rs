use ohpdf::batch::{file_result, op_suffix, plan_batch, select_pdfs, sort_paths, text_less, BatchKind};

fn strings(v: &[&str]) -> Vec<String> {
    v.iter().map(|s| s.to_string()).collect()
}

#[test]
fn suffixes() {
    assert_eq!(op_suffix(BatchKind::Compress), "compressed");
    assert_eq!(op_suffix(BatchKind::Encrypt), "encrypted");
    assert_eq!(op_suffix(BatchKind::Decrypt), "decrypted");
    assert_eq!(op_suffix(BatchKind::Watermark), "watermarked");
    assert_eq!(op_suffix(BatchKind::MergeAll), "merged");
}

#[test]
fn text_order() {
    assert!(text_less("a", "b"));
    assert!(text_less("a", "ab"));
    assert!(!text_less("ab", "a"));
    assert!(!text_less("a", "a"));
    assert!(text_less("B", "a"));
}

#[test]
fn sorting_paths() {
    let v = sort_paths(strings(&["/d/c.pdf", "/d/a.pdf", "/d/b.pdf", "/d/a.pdf"]));
    assert_eq!(v, strings(&["/d/a.pdf", "/d/a.pdf", "/d/b.pdf", "/d/c.pdf"]));
    let mut w = strings(&["/d/x10.pdf", "/d/x9.pdf", "/d/X.pdf"]);
    let sorted = sort_paths(w.clone());
    w.sort();
    assert_eq!(sorted, w);
}

#[test]
fn selecting_pdfs() {
    let entries = vec![
        ("/d/b.PDF".to_string(), true),
        ("/d/notes.txt".to_string(), true),
        ("/d/dir.pdf".to_string(), false),
        ("/d/a.pdf".to_string(), true),
    ];
    assert_eq!(select_pdfs(entries), strings(&["/d/a.pdf", "/d/b.PDF"]));
}

#[test]
fn planning_batches() {
    let pdfs = strings(&["/in/a.pdf", "/in/b.pdf"]);
    let jobs = plan_batch("/in", "/out", BatchKind::Compress, "all.pdf", &pdfs);
    assert_eq!(jobs.len(), 2);
    assert_eq!(jobs[0].input, "/in/a.pdf");
    assert_eq!(jobs[0].output, "/out/a_compressed.pdf");
    assert_eq!(jobs[1].output, "/out/b_compressed.pdf");
    let merge = plan_batch("/in", "/out", BatchKind::MergeAll, "all.pdf", &pdfs);
    assert_eq!(merge.len(), 1);
    assert_eq!(merge[0].input, "/in");
    assert_eq!(merge[0].output, "/out/all.pdf");
    assert!(plan_batch("/in", "/out", BatchKind::Encrypt, "x", &[]).is_empty());
}

#[test]
fn results_record_failures() {
    let jobs = plan_batch("/in", "/out", BatchKind::Decrypt, "", &strings(&["/in/a.pdf", "/in/b.pdf"]));
    let mut it = jobs.into_iter();
    let ok = file_result(it.next().unwrap(), Ok(()));
    let bad = file_result(it.next().unwrap(), Err("Incorrect password".to_string()));
    assert_eq!(ok.error, None);
    assert_eq!(ok.output, "/out/a_decrypted.pdf");
    assert_eq!(bad.error.as_deref(), Some("Incorrect password"));
    assert_eq!(bad.input, "/in/b.pdf");
}
