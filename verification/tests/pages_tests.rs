use ohpdf::pages::{
    check_extract, check_reorder, check_split_counts, delete_plan, page_marks, range_pages, split_plan,
    rotated, rotation_delta, validate_pages, PageError,
};

#[test]
fn validate_accepts_pages_in_range() {
    assert_eq!(validate_pages(&[1, 2, 3], 3), Ok(()));
    assert_eq!(validate_pages(&[], 0), Ok(()));
}

#[test]
fn validate_reports_first_bad_page() {
    assert_eq!(
        validate_pages(&[1, 5, 0], 3),
        Err(PageError::OutOfRange { page: 5, total: 3 })
    );
    assert_eq!(
        validate_pages(&[0], 3),
        Err(PageError::OutOfRange { page: 0, total: 3 })
    );
}

#[test]
fn marks_follow_requested_pages() {
    assert_eq!(page_marks(&[3, 1, 3], 4), vec![true, false, true, false]);
}

#[test]
fn delete_plan_is_distinct_and_descending() {
    assert_eq!(delete_plan(&[2, 2, 4, 1], 5), Ok(vec![4, 2, 1]));
}

#[test]
fn delete_plan_errors() {
    assert_eq!(delete_plan(&[], 3), Err(PageError::NoPages));
    assert_eq!(delete_plan(&[1, 2, 3], 3), Err(PageError::DeletesEveryPage));
    assert_eq!(delete_plan(&[3, 3, 2, 1], 3), Err(PageError::DeletesEveryPage));
    assert_eq!(
        delete_plan(&[4], 3),
        Err(PageError::OutOfRange { page: 4, total: 3 })
    );
}

#[test]
fn deleting_in_plan_order_keeps_other_pages() {
    // Pages stand for themselves: page p carries the value 10 * p.
    let mut doc: Vec<u32> = vec![10, 20, 30, 40, 50];
    let order = delete_plan(&[1, 4, 2], 5).unwrap();
    for p in order {
        doc.remove((p - 1) as usize);
    }
    assert_eq!(doc, vec![30, 50]);
}

#[test]
fn rotation_deltas() {
    assert_eq!(rotation_delta(90), Ok(90));
    assert_eq!(rotation_delta(180), Ok(180));
    assert_eq!(rotation_delta(270), Ok(270));
    assert_eq!(rotation_delta(-90), Ok(270));
    assert_eq!(rotation_delta(-180), Ok(180));
    assert_eq!(rotation_delta(-270), Ok(90));
    assert_eq!(rotation_delta(45), Err(PageError::InvalidRotation));
    assert_eq!(rotation_delta(360), Err(PageError::InvalidRotation));
    assert_eq!(rotation_delta(0), Err(PageError::InvalidRotation));
}

#[test]
fn rotated_values_wrap() {
    assert_eq!(rotated(270, 180), 90);
    assert_eq!(rotated(0, 90), 90);
    assert_eq!(rotated(-90, 0), 270);
    assert_eq!(rotated(725, 0), 5);
}

#[test]
fn four_quarter_turns_restore() {
    let mut r = 180;
    for _ in 0..4 {
        r = rotated(r, rotation_delta(90).unwrap());
    }
    assert_eq!(r, 180);
}

#[test]
fn rotation_undone_by_opposite() {
    let start = 90;
    let a = rotated(start, rotation_delta(270).unwrap());
    let b = rotated(a, rotation_delta(-270).unwrap());
    assert_eq!(b, 90);
}

#[test]
fn extract_checks() {
    assert_eq!(check_extract(&[], 3), Err(PageError::NoPages));
    assert_eq!(check_extract(&[3, 3, 1], 3), Ok(()));
    assert_eq!(
        check_extract(&[2, 9], 3),
        Err(PageError::OutOfRange { page: 9, total: 3 })
    );
}

#[test]
fn reorder_checks() {
    assert_eq!(check_reorder(&[3, 1, 2], 3), Ok(()));
    assert_eq!(check_reorder(&[], 3), Err(PageError::EmptyOrder));
    assert_eq!(
        check_reorder(&[1, 2], 3),
        Err(PageError::OrderLengthMismatch { len: 2, total: 3 })
    );
    assert_eq!(
        check_reorder(&[1, 2, 4], 3),
        Err(PageError::OutOfRange { page: 4, total: 3 })
    );
    // Repeats are not refused: only the length and the range are checked.
    assert_eq!(check_reorder(&[1, 1, 1], 3), Ok(()));
}

#[test]
fn split_ranges() {
    assert_eq!(range_pages(2, 4, 5), Ok(vec![2, 3, 4]));
    assert_eq!(range_pages(5, 5, 5), Ok(vec![5]));
    assert_eq!(
        range_pages(0, 2, 5),
        Err(PageError::InvalidRange { start: 0, end: 2, total: 5 })
    );
    assert_eq!(
        range_pages(3, 2, 5),
        Err(PageError::InvalidRange { start: 3, end: 2, total: 5 })
    );
    assert_eq!(
        range_pages(1, 6, 5),
        Err(PageError::InvalidRange { start: 1, end: 6, total: 5 })
    );
    assert_eq!(check_split_counts(2, 2), Ok(()));
    assert_eq!(check_split_counts(2, 1), Err(PageError::RangeCountMismatch));
}

#[test]
fn page_error_messages() {
    assert_eq!(
        PageError::OutOfRange { page: 5, total: 3 }.message(),
        "Page 5 is out of range (document has 3 pages)."
    );
    assert_eq!(
        PageError::InvalidRange { start: 3, end: 2, total: 10 }.message(),
        "Invalid page range: 3-2 (document has 10 pages)."
    );
    assert_eq!(
        PageError::OrderLengthMismatch { len: 2, total: 3 }.message(),
        "Order length (2) does not match page count (3)."
    );
    assert_eq!(
        PageError::DeletesEveryPage.message(),
        "Cannot delete every page \u{2014} the document must have at least one page left."
    );
    assert_eq!(PageError::NoPages.message(), "At least one page must be specified.");
    assert_eq!(PageError::EmptyOrder.message(), "Page order cannot be empty.");
    assert_eq!(
        PageError::RangeCountMismatch.message(),
        "The number of ranges and outputs must match."
    );
    assert_eq!(
        PageError::InvalidRotation.message(),
        "Rotation must be 90, 180, or 270 degrees."
    );
}

#[test]
fn split_plan_stops_at_the_first_bad_range() {
    let (parts, refused) = split_plan(&[(1, 2), (3, 3)], 3);
    assert_eq!(parts, vec![vec![1, 2], vec![3]]);
    assert_eq!(refused, None);
    let (parts, refused) = split_plan(&[(2, 3), (4, 5), (1, 1)], 3);
    assert_eq!(parts, vec![vec![2, 3]]);
    assert_eq!(refused, Some(PageError::InvalidRange { start: 4, end: 5, total: 3 }));
    let (parts, refused) = split_plan(&[], 3);
    assert!(parts.is_empty() && refused.is_none());
}
