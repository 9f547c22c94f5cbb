//! Page-number logic shared by every page operation: validation of
//! 1-indexed page lists, the order in which pages are deleted, rotation
//! arithmetic, and page ranges for splitting.
//!
//! A document is modelled as the sequence of its pages (`Seq<A>`), page `p`
//! (1-indexed) being `doc[p - 1]`.
use vstd::prelude::*;
use crate::text::{decimal, push_decimal, push_text};

verus! {

/// Why a page request was refused.
#[derive(Debug, Clone, Copy, PartialEq, Eq, Structural)]
pub enum PageError {
    /// The page list was empty.
    NoPages,
    /// `page` is not between 1 and `total`.
    OutOfRange { page: u32, total: u32 },
    /// Deleting the requested pages would leave the document empty.
    DeletesEveryPage,
    /// The reorder list was empty.
    EmptyOrder,
    /// The reorder list does not name exactly one position per page.
    OrderLengthMismatch { len: usize, total: u32 },
    /// A split range is not `1 <= start <= end <= total`.
    InvalidRange { start: u32, end: u32, total: u32 },
    /// Split was given a different number of ranges and outputs.
    RangeCountMismatch,
    /// Rotation other than +/-90, +/-180 or +/-270 degrees.
    InvalidRotation,
}

/// `p` is a page of a document of `total` pages.
pub open spec fn in_range(p: int, total: int) -> bool {
    1 <= p <= total
}

/// Every page of `pages` is a page of a document of `total` pages.
pub open spec fn all_in_range(pages: Seq<u32>, total: int) -> bool {
    forall|i: int| 0 <= i < pages.len() ==> #[trigger] in_range(pages[i] as int, total)
}

/// The set of page numbers named in `pages`.
pub open spec fn page_set(pages: Seq<u32>) -> Set<int> {
    pages.map_values(|p: u32| p as int).to_set()
}

/// Each entry is strictly smaller than the one before it.
pub open spec fn strictly_decreasing(s: Seq<u32>) -> bool {
    forall|i: int, j: int| 0 <= i < j < s.len() ==> s[i] > s[j]
}

/// The pages of `doc` whose numbers are not in `del`, in their original order.
pub open spec fn keep_pages<A>(doc: Seq<A>, del: Set<int>) -> Seq<A>
    decreases doc.len(),
{
    if doc.len() == 0 {
        Seq::empty()
    } else {
        let rest = keep_pages(doc.drop_last(), del);
        if del.contains(doc.len() as int) {
            rest
        } else {
            rest.push(doc.last())
        }
    }
}

/// The document left after deleting, one at a time, page `order[0]`, then
/// page `order[1]` of what remains, and so on.
pub open spec fn apply_deletions<A>(doc: Seq<A>, order: Seq<u32>) -> Seq<A>
    decreases order.len(),
{
    if order.len() == 0 {
        doc
    } else {
        apply_deletions(doc.remove(order[0] - 1), order.drop_first())
    }
}

/// `k` is the first index of `pages` holding a page outside `1..=total`.
pub open spec fn first_out_of_range(pages: Seq<u32>, total: int, k: int) -> bool {
    &&& 0 <= k < pages.len()
    &&& !in_range(pages[k] as int, total)
    &&& forall|j: int| 0 <= j < k ==> #[trigger] in_range(pages[j] as int, total)
}

/// The error `validate_pages` reports for `pages`: the first page outside
/// `1..=total`.
pub open spec fn out_of_range_error(pages: Seq<u32>, total: u32, e: PageError) -> bool {
    exists|k: int|
        first_out_of_range(pages, total as int, k) && e == (PageError::OutOfRange {
            page: pages[k],
            total,
        })
}

/// Checks that every page of `pages` lies in `1..=total`.
///
/// On failure the error names the first page that does not.
pub fn validate_pages(pages: &[u32], total: u32) -> (r: Result<(), PageError>)
    ensures
        r is Ok <==> all_in_range(pages@, total as int),
        r matches Err(e) ==> out_of_range_error(pages@, total, e),
{
    let mut i: usize = 0;
    while i < pages.len()
        invariant
            i <= pages@.len(),
            forall|j: int| 0 <= j < i ==> #[trigger] in_range(pages@[j] as int, total as int),
        decreases pages@.len() - i,
    {
        let p = pages[i];
        if !(p >= 1 && p <= total) {
            assert(first_out_of_range(pages@, total as int, i as int));
            assert(!in_range(pages@[i as int] as int, total as int));
            return Err(PageError::OutOfRange { page: p, total });
        }
        i = i + 1;
    }
    Ok(())
}

/// For a document of `total` pages, marks which pages `pages` names:
/// `marks[i]` is set exactly when page `i + 1` occurs in `pages`.
pub fn page_marks(pages: &[u32], total: u32) -> (marks: Vec<bool>)
    requires
        all_in_range(pages@, total as int),
    ensures
        marks@.len() == total,
        forall|i: int| 0 <= i < total ==> #[trigger] marks@[i] == page_set(pages@).contains(i + 1),
{
    proof {
        lemma_page_set_contains(pages@);
    }
    let mut marks: Vec<bool> = Vec::new();
    let mut i: u32 = 0;
    while i < total
        invariant
            i <= total,
            marks@.len() == i,
            forall|j: int| 0 <= j < i ==> !#[trigger] marks@[j],
        decreases total - i,
    {
        marks.push(false);
        i = i + 1;
    }
    let mut k: usize = 0;
    while k < pages.len()
        invariant
            k <= pages@.len(),
            marks@.len() == total,
            all_in_range(pages@, total as int),
            forall|j: int|
                0 <= j < total ==> #[trigger] marks@[j] == (exists|m: int|
                    0 <= m < k && pages@[m] as int == j + 1),
        decreases pages@.len() - k,
    {
        let p = pages[k];
        assert(in_range(pages@[k as int] as int, total as int));
        marks.set((p - 1) as usize, true);
        assert forall|j: int| 0 <= j < total implies #[trigger] marks@[j] == (exists|m: int|
            0 <= m < k + 1 && pages@[m] as int == j + 1) by {
            if j == p - 1 {
                assert(pages@[k as int] as int == j + 1);
            } else {
                if exists|m: int| 0 <= m < k + 1 && pages@[m] as int == j + 1 {
                    let m = choose|m: int| 0 <= m < k + 1 && pages@[m] as int == j + 1;
                    assert(m != k);
                }
            }
        }
        k = k + 1;
    }
    marks
}

/// Membership in `page_set` is occurrence in the list.
pub proof fn lemma_page_set_contains(pages: Seq<u32>)
    ensures
        forall|p: int|
            #[trigger] page_set(pages).contains(p) <==> exists|i: int|
                0 <= i < pages.len() && pages[i] as int == p,
{
    assert forall|p: int| #[trigger] page_set(pages).contains(p) implies exists|i: int|
        0 <= i < pages.len() && pages[i] as int == p by {
        let m = pages.map_values(|q: u32| q as int);
        let i = choose|i: int| 0 <= i < m.len() && m[i] == p;
        assert(pages[i] as int == p);
    }
    assert forall|p: int|
        (exists|i: int| 0 <= i < pages.len() && pages[i] as int == p) implies #[trigger] page_set(
        pages,
    ).contains(p) by {
        let i = choose|i: int| 0 <= i < pages.len() && pages[i] as int == p;
        let m = pages.map_values(|q: u32| q as int);
        assert(m[i] == p);
    }
}

/// What `delete_plan` returns for a valid request: every requested page
/// exactly once, highest first, with at least one page left over.
pub open spec fn is_deletion_order(order: Seq<u32>, pages: Seq<u32>, total: u32) -> bool {
    &&& page_set(order) == page_set(pages)
    &&& strictly_decreasing(order)
    &&& all_in_range(order, total as int)
    &&& order.len() == page_set(pages).len()
    &&& order.len() < total
}

/// Plans the deletion of `pages` (1-indexed, repeats allowed) from a
/// document of `total` pages.
///
/// The plan lists each requested page once, from the highest page number
/// down, so that removing one page never shifts the position of a page that
/// is still to be removed. A request that names no page, names a page
/// outside the document, or would remove every page is refused.
pub fn delete_plan(pages: &[u32], total: u32) -> (r: Result<Vec<u32>, PageError>)
    ensures
        pages@.len() == 0 ==> r == Err::<Vec<u32>, PageError>(PageError::NoPages),
        pages@.len() > 0 && !all_in_range(pages@, total as int) ==> (r matches Err(e)
            && out_of_range_error(pages@, total, e)),
        pages@.len() > 0 && all_in_range(pages@, total as int) && page_set(pages@).len() >= total
            ==> r == Err::<Vec<u32>, PageError>(PageError::DeletesEveryPage),
        pages@.len() > 0 && all_in_range(pages@, total as int) && page_set(pages@).len() < total
            ==> r is Ok,
        r matches Ok(order) ==> is_deletion_order(order@, pages@, total),
{
    if pages.len() == 0 {
        return Err(PageError::NoPages);
    }
    match validate_pages(pages, total) {
        Err(e) => {
            return Err(e);
        },
        Ok(()) => {},
    }
    let marks = page_marks(pages, total);
    let mut order: Vec<u32> = Vec::new();
    let mut i: u32 = total;
    while i > 0
        invariant
            i <= total,
            marks@.len() == total,
            forall|j: int| 0 <= j < total ==> #[trigger] marks@[j] == page_set(pages@).contains(j + 1),
            strictly_decreasing(order@),
            forall|k: int| 0 <= k < order@.len() ==> i < #[trigger] order@[k] <= total,
            forall|p: int|
                i < p <= total ==> (page_set(pages@).contains(p) <==> #[trigger] page_set(
                    order@,
                ).contains(p)),
            forall|p: int| #[trigger] page_set(order@).contains(p) ==> i < p <= total,
        decreases i,
    {
        proof {
            lemma_page_set_contains(order@);
        }
        let ghost old_order = order@;
        if marks[(i - 1) as usize] {
            order.push(i);
        }
        proof {
            lemma_page_set_contains(order@);
            assert forall|p: int| #[trigger] page_set(order@).contains(p) implies i - 1 < p <= total by {
                let k = choose|k: int| 0 <= k < order@.len() && order@[k] as int == p;
                if k < old_order.len() {
                    assert(order@[k] == old_order[k]);
                }
            }
            assert forall|p: int| i - 1 < p <= total implies (page_set(pages@).contains(p)
                <==> #[trigger] page_set(order@).contains(p)) by {
                if p == i {
                    if marks@[i - 1] {
                        assert(order@[order@.len() - 1] as int == p);
                    } else {
                        assert(order@ == old_order);
                    }
                } else {
                    if page_set(old_order).contains(p) {
                        let k = choose|k: int| 0 <= k < old_order.len() && old_order[k] as int == p;
                        assert(order@[k] == old_order[k]);
                    }
                    if page_set(order@).contains(p) {
                        let k = choose|k: int| 0 <= k < order@.len() && order@[k] as int == p;
                        if k == old_order.len() {
                            assert(order@[k] == i);
                        } else {
                            assert(order@[k] == old_order[k]);
                        }
                    }
                }
            }
        }
        i = i - 1;
    }
    proof {
        lemma_page_set_contains(pages@);
        lemma_page_set_contains(order@);
        assert forall|p: int| #[trigger] page_set(pages@).contains(p) implies 0 < p <= total by {
            let k = choose|k: int| 0 <= k < pages@.len() && pages@[k] as int == p;
            assert(in_range(pages@[k] as int, total as int));
        }
        assert(page_set(order@) =~= page_set(pages@));
        lemma_decreasing_distinct_count(order@);
    }
    if order.len() >= total as usize {
        return Err(PageError::DeletesEveryPage);
    }
    Ok(order)
}

/// A strictly decreasing list names as many distinct pages as it has entries.
pub proof fn lemma_decreasing_distinct_count(order: Seq<u32>)
    requires
        strictly_decreasing(order),
    ensures
        page_set(order).len() == order.len(),
{
    let m = order.map_values(|p: u32| p as int);
    assert(m.no_duplicates()) by {
        assert forall|i: int, j: int| 0 <= i < m.len() && 0 <= j < m.len() && i != j implies m[i]
            != m[j] by {
            if i < j {
                assert(order[i] > order[j]);
            } else {
                assert(order[j] > order[i]);
            }
        }
    }
    m.unique_seq_to_set();
}

/// Only the page numbers `1..=doc.len()` of a deletion set matter.
pub proof fn lemma_keep_pages_local<A>(doc: Seq<A>, s: Set<int>, t: Set<int>)
    requires
        forall|p: int| 1 <= p <= doc.len() ==> (s.contains(p) <==> t.contains(p)),
    ensures
        keep_pages(doc, s) == keep_pages(doc, t),
    decreases doc.len(),
{
    if doc.len() > 0 {
        lemma_keep_pages_local(doc.drop_last(), s, t);
    }
}

/// Removing page `j + 1` and then keeping the pages outside `s` (all of
/// which come before it) is keeping the pages outside `s` plus that page.
pub proof fn lemma_keep_pages_remove<A>(doc: Seq<A>, j: int, s: Set<int>)
    requires
        0 <= j < doc.len(),
        forall|p: int| s.contains(p) ==> p <= j,
    ensures
        keep_pages(doc.remove(j), s) == keep_pages(doc, s.insert(j + 1)),
    decreases doc.len(),
{
    let n = doc.len();
    if j == n - 1 {
        assert(doc.remove(j) =~= doc.drop_last());
        lemma_keep_pages_local(doc.drop_last(), s, s.insert(j + 1));
    } else {
        let d = doc.remove(j);
        assert(d.drop_last() =~= doc.drop_last().remove(j));
        assert(d.last() == doc.last());
        assert(!s.contains(n - 1));
        assert(!s.insert(j + 1).contains(n as int));
        lemma_keep_pages_remove(doc.drop_last(), j, s);
    }
}

/// Deleting pages from the highest number down removes exactly those pages
/// and keeps every other page in its original order.
pub proof fn lemma_deletions_keep_rest<A>(doc: Seq<A>, order: Seq<u32>)
    requires
        strictly_decreasing(order),
        all_in_range(order, doc.len() as int),
    ensures
        apply_deletions(doc, order) == keep_pages(doc, page_set(order)),
        apply_deletions(doc, order).len() == doc.len() - order.len(),
    decreases order.len(),
{
    lemma_page_set_contains(order);
    if order.len() == 0 {
        lemma_keep_pages_local(doc, page_set(order), Set::empty());
        lemma_keep_nothing(doc);
    } else {
        let p = order[0] as int;
        let rest = order.drop_first();
        let d = doc.remove(p - 1);
        assert(in_range(order[0] as int, doc.len() as int));
        assert forall|i: int| 0 <= i < rest.len() implies #[trigger] in_range(
            rest[i] as int,
            d.len() as int,
        ) by {
            assert(order[i + 1] < order[0]);
            assert(in_range(order[i + 1] as int, doc.len() as int));
        }
        lemma_deletions_keep_rest(d, rest);
        lemma_page_set_contains(rest);
        assert forall|q: int| page_set(rest).contains(q) implies q <= p - 1 by {
            let k = choose|k: int| 0 <= k < rest.len() && rest[k] as int == q;
            assert(order[k + 1] < order[0]);
        }
        lemma_keep_pages_remove(doc, p - 1, page_set(rest));
        assert(page_set(rest).insert(p) =~= page_set(order)) by {
            assert forall|q: int| page_set(order).contains(q) implies page_set(rest).insert(
                p,
            ).contains(q) by {
                let k = choose|k: int| 0 <= k < order.len() && order[k] as int == q;
                if k > 0 {
                    assert(rest[k - 1] == order[k]);
                }
            }
            assert forall|q: int| page_set(rest).insert(p).contains(q) implies page_set(
                order,
            ).contains(q) by {
                if q != p {
                    let k = choose|k: int| 0 <= k < rest.len() && rest[k] as int == q;
                    assert(order[k + 1] == rest[k]);
                } else {
                    assert(order[0] as int == q);
                }
            }
        }
    }
}

/// Keeping every page of a document leaves it unchanged.
pub proof fn lemma_keep_nothing<A>(doc: Seq<A>)
    ensures
        keep_pages(doc, Set::empty()) == doc,
    decreases doc.len(),
{
    if doc.len() > 0 {
        lemma_keep_nothing(doc.drop_last());
        assert(doc.drop_last().push(doc.last()) =~= doc);
    }
}

/// Law of page deletion: carrying out a deletion plan for `pages` on a
/// document of `total` pages removes exactly the requested pages, keeps all
/// the others in their original order, and always leaves at least one page.
pub proof fn law_delete_keeps_unrequested<A>(doc: Seq<A>, pages: Seq<u32>, order: Seq<u32>)
    requires
        doc.len() <= u32::MAX,
        is_deletion_order(order, pages, doc.len() as u32),
    ensures
        apply_deletions(doc, order) == keep_pages(doc, page_set(pages)),
        apply_deletions(doc, order).len() == doc.len() - page_set(pages).len(),
        apply_deletions(doc, order).len() >= 1,
{
    lemma_deletions_keep_rest(doc, order);
}

/// `x` reduced to the range `0..360`.
pub open spec fn normalize_rotation(x: int) -> int {
    x % 360
}

/// A rotation the page operations accept: a quarter, half or three-quarter
/// turn in either direction.
pub open spec fn valid_rotation(degrees: int) -> bool {
    degrees == 90 || degrees == 180 || degrees == 270 || degrees == -90 || degrees == -180
        || degrees == -270
}

/// The clockwise turn, in `0..360`, that rotating by `degrees` adds.
pub open spec fn clockwise_turn(degrees: int) -> int {
    normalize_rotation(degrees)
}

/// Law of turns: the turn added for a rotation by `degrees` lies in
/// `0..360` and differs from `degrees` by whole turns, so it turns the page
/// the way that was asked (`-90` is a three-quarter clockwise turn).
pub proof fn law_turn_is_requested_rotation(degrees: int)
    ensures
        0 <= clockwise_turn(degrees) < 360,
        (degrees - clockwise_turn(degrees)) % 360 == 0,
{
    vstd::arithmetic::div_mod::lemma_fundamental_div_mod(degrees, 360);
    vstd::arithmetic::div_mod::lemma_mod_multiples_basic(degrees / 360, 360);
}

/// The clockwise turn, in `0..360`, that a request to rotate by `degrees`
/// adds to a page; refused unless `degrees` is +/-90, +/-180 or +/-270.
pub fn rotation_delta(degrees: i32) -> (r: Result<i32, PageError>)
    ensures
        valid_rotation(degrees as int) ==> r == Ok::<i32, PageError>(
            clockwise_turn(degrees as int) as i32,
        ),
        !valid_rotation(degrees as int) ==> r == Err::<i32, PageError>(PageError::InvalidRotation),
{
    if !(degrees == 90 || degrees == 180 || degrees == 270 || degrees == -90 || degrees == -180
        || degrees == -270) {
        return Err(PageError::InvalidRotation);
    }
    Ok(((degrees % 360) + 360) % 360)
}

/// The `/Rotate` value of a page whose current value is `existing` after
/// turning it by `delta`, reduced to `0..360`.
pub fn rotated(existing: i32, delta: i32) -> (r: i32)
    requires
        i32::MIN <= existing + delta <= i32::MAX,
    ensures
        r == normalize_rotation(existing + delta),
        0 <= r < 360,
{
    ((existing + delta) % 360 + 360) % 360
}

/// Law of rotation: turning a page by `a` and then by `b` leaves it where a
/// single turn by `a + b` would.
pub proof fn law_rotations_compose(existing: int, a: int, b: int)
    ensures
        normalize_rotation(normalize_rotation(existing + a) + b) == normalize_rotation(
            existing + a + b,
        ),
{
    vstd::arithmetic::div_mod::lemma_add_mod_noop(existing + a, b, 360);
    vstd::arithmetic::div_mod::lemma_add_mod_noop_right((existing + a) % 360, b, 360);
    vstd::arithmetic::div_mod::lemma_mod_twice(existing + a, 360);
}

/// Law of rotation: a rotation by `degrees` followed by a rotation by
/// `-degrees` (itself an accepted rotation) restores the page's original
/// orientation.
pub proof fn law_rotation_undo(existing: int, degrees: int)
    requires
        valid_rotation(degrees),
    ensures
        valid_rotation(-degrees),
        normalize_rotation(
            normalize_rotation(existing + normalize_rotation(degrees)) + normalize_rotation(
                -degrees,
            ),
        ) == normalize_rotation(existing),
{
    let a = normalize_rotation(degrees);
    let b = normalize_rotation(-degrees);
    law_rotations_compose(existing, a, b);
    assert(a + b == 360);
    vstd::arithmetic::div_mod::lemma_add_mod_noop_right(existing, 360, 360);
}

/// Law of rotation: four quarter turns bring a page back to where it
/// started.
pub proof fn law_four_quarter_turns(existing: int)
    ensures
        normalize_rotation(
            normalize_rotation(
                normalize_rotation(normalize_rotation(existing + 90) + 90) + 90,
            ) + 90,
        ) == normalize_rotation(existing),
{
    law_rotations_compose(existing, 90, 90);
    law_rotations_compose(existing, 180, 90);
    law_rotations_compose(existing, 270, 90);
    vstd::arithmetic::div_mod::lemma_add_mod_noop_right(existing, 360, 360);
}

/// Checks a request to copy `pages` (1-indexed, in the given order,
/// repeats allowed) out of a document of `total` pages into a new one.
pub fn check_extract(pages: &[u32], total: u32) -> (r: Result<(), PageError>)
    ensures
        pages@.len() == 0 ==> r == Err::<(), PageError>(PageError::NoPages),
        pages@.len() > 0 ==> (r is Ok <==> all_in_range(pages@, total as int)),
        pages@.len() > 0 ==> (r matches Err(e) ==> out_of_range_error(pages@, total, e)),
{
    if pages.len() == 0 {
        return Err(PageError::NoPages);
    }
    validate_pages(pages, total)
}

/// Checks a new page order for a document of `total` pages: `order[i]` is
/// the old page number that becomes page `i + 1`. The order must have one
/// entry per page (its length is compared as a `u32`), each a page of the
/// document.
pub fn check_reorder(order: &[u32], total: u32) -> (r: Result<(), PageError>)
    ensures
        order@.len() == 0 ==> r == Err::<(), PageError>(PageError::EmptyOrder),
        order@.len() > 0 && order@.len() as u32 != total ==> r == Err::<(), PageError>(
            PageError::OrderLengthMismatch { len: order@.len() as usize, total },
        ),
        order@.len() > 0 && order@.len() as u32 == total ==> (r is Ok <==> all_in_range(
            order@,
            total as int,
        )),
        order@.len() > 0 && order@.len() as u32 == total ==> (r matches Err(e)
            ==> out_of_range_error(order@, total, e)),
{
    if order.len() == 0 {
        return Err(PageError::EmptyOrder);
    }
    if order.len() as u32 != total {
        return Err(PageError::OrderLengthMismatch { len: order.len(), total });
    }
    validate_pages(order, total)
}

/// Checks that split was given one output for each range.
pub fn check_split_counts(ranges: usize, outputs: usize) -> (r: Result<(), PageError>)
    ensures
        r is Ok <==> ranges == outputs,
        r matches Err(e) ==> e == PageError::RangeCountMismatch,
{
    if ranges != outputs {
        return Err(PageError::RangeCountMismatch);
    }
    Ok(())
}

/// A split range `start..=end` is a non-empty run of pages of a document of
/// `total` pages.
pub open spec fn valid_range(start: int, end: int, total: int) -> bool {
    start >= 1 && end >= start && end <= total
}

/// The pages `start, start + 1, ..., end`.
pub open spec fn range_seq(start: int, end: int) -> Seq<u32> {
    Seq::new((end - start + 1) as nat, |i: int| (start + i) as u32)
}

/// The pages of the split range `start..=end` (1-indexed, inclusive) of a
/// document of `total` pages, in order; refused unless
/// `1 <= start <= end <= total`.
pub fn range_pages(start: u32, end: u32, total: u32) -> (r: Result<Vec<u32>, PageError>)
    ensures
        valid_range(start as int, end as int, total as int) ==> (r matches Ok(v) && v@
            == range_seq(start as int, end as int)),
        !valid_range(start as int, end as int, total as int) ==> r == Err::<Vec<u32>, PageError>(
            PageError::InvalidRange { start, end, total },
        ),
{
    if !(start >= 1 && end >= start && end <= total) {
        return Err(PageError::InvalidRange { start, end, total });
    }
    let mut v: Vec<u32> = Vec::new();
    let mut p: u32 = start;
    loop
        invariant_except_break
            start <= p <= end,
            v@ == range_seq(start as int, p as int - 1),
        ensures
            v@ == range_seq(start as int, end as int),
        decreases end - p,
    {
        v.push(p);
        assert(v@ =~= range_seq(start as int, p as int));
        if p == end {
            break;
        }
        p = p + 1;
    }
    Ok(v)
}

/// The pages of each split range in turn, up to the first range that is
/// refused: the pages of every range before it, and the refusal of that
/// range (none when every range is accepted). Outputs for the ranges before
/// a refused one are written before the refusal is reported.
pub fn split_plan(ranges: &[(u32, u32)], total: u32) -> (r: (Vec<Vec<u32>>, Option<PageError>))
    ensures
        r.0@.len() <= ranges@.len(),
        forall|i: int| 0 <= i < r.0@.len() ==> #[trigger] split_part_ok(ranges@[i], total, r.0@[i]@),
        r.1 is None <==> r.0@.len() == ranges@.len(),
        r.1 matches Some(e) ==> {
            let k = r.0@.len() as int;
            &&& !valid_range(ranges@[k].0 as int, ranges@[k].1 as int, total as int)
            &&& e == PageError::InvalidRange { start: ranges@[k].0, end: ranges@[k].1, total }
        },
{
    let mut parts: Vec<Vec<u32>> = Vec::new();
    let mut i: usize = 0;
    while i < ranges.len()
        invariant
            i <= ranges@.len(),
            parts@.len() == i,
            forall|j: int| 0 <= j < i ==> #[trigger] split_part_ok(ranges@[j], total, parts@[j]@),
        decreases ranges@.len() - i,
    {
        let start = ranges[i].0;
        let end = ranges[i].1;
        match range_pages(start, end, total) {
            Ok(v) => {
                let ghost prev = parts@;
                parts.push(v);
                assert forall|j: int| 0 <= j < i + 1 implies #[trigger] split_part_ok(
                    ranges@[j],
                    total,
                    parts@[j]@,
                ) by {
                    if j < i {
                        assert(parts@[j] == prev[j]);
                    }
                }
            },
            Err(e) => {
                return (parts, Some(e));
            },
        }
        i = i + 1;
    }
    (parts, None)
}

/// `pages` are the pages of the accepted split range `range` of a document
/// of `total` pages.
pub open spec fn split_part_ok(range: (u32, u32), total: u32, pages: Seq<u32>) -> bool {
    &&& valid_range(range.0 as int, range.1 as int, total as int)
    &&& pages == range_seq(range.0 as int, range.1 as int)
}

/// Law of splitting: the pages of an accepted range are pages of the
/// document, and there are `end - start + 1` of them, in increasing order.
pub proof fn law_range_pages_in_document(start: u32, end: u32, total: u32)
    requires
        valid_range(start as int, end as int, total as int),
    ensures
        all_in_range(range_seq(start as int, end as int), total as int),
        range_seq(start as int, end as int).len() == end - start + 1,
        forall|i: int, j: int|
            0 <= i < j < range_seq(start as int, end as int).len() ==> range_seq(
                start as int,
                end as int,
            )[i] < range_seq(start as int, end as int)[j],
{
}

/// The message shown for a refused page request.
pub open spec fn page_error_text(e: PageError) -> Seq<char> {
    match e {
        PageError::NoPages => "At least one page must be specified."@,
        PageError::OutOfRange { page, total } => "Page "@ + decimal(page as nat)
            + " is out of range (document has "@ + decimal(total as nat) + " pages)."@,
        PageError::DeletesEveryPage => "Cannot delete every page \u{2014} the document must have at least one page left."@,
        PageError::EmptyOrder => "Page order cannot be empty."@,
        PageError::OrderLengthMismatch { len, total } => "Order length ("@ + decimal(len as nat)
            + ") does not match page count ("@ + decimal(total as nat) + ")."@,
        PageError::InvalidRange { start, end, total } => "Invalid page range: "@ + decimal(
            start as nat,
        ) + "-"@ + decimal(end as nat) + " (document has "@ + decimal(total as nat)
            + " pages)."@,
        PageError::RangeCountMismatch => "The number of ranges and outputs must match."@,
        PageError::InvalidRotation => "Rotation must be 90, 180, or 270 degrees."@,
    }
}

impl PageError {
    /// The message shown for this error.
    pub fn message(&self) -> (r: String)
        ensures
            r@ == page_error_text(*self),
    {
        match *self {
            PageError::NoPages => String::from_str("At least one page must be specified."),
            PageError::OutOfRange { page, total } => {
                let mut m = String::from_str("Page ");
                push_decimal(&mut m, page as u64);
                push_text(&mut m, " is out of range (document has ");
                push_decimal(&mut m, total as u64);
                push_text(&mut m, " pages).");
                m
            },
            PageError::DeletesEveryPage => String::from_str(
                "Cannot delete every page \u{2014} the document must have at least one page left.",
            ),
            PageError::EmptyOrder => String::from_str("Page order cannot be empty."),
            PageError::OrderLengthMismatch { len, total } => {
                let mut m = String::from_str("Order length (");
                push_decimal(&mut m, len as u64);
                push_text(&mut m, ") does not match page count (");
                push_decimal(&mut m, total as u64);
                push_text(&mut m, ").");
                m
            },
            PageError::InvalidRange { start, end, total } => {
                let mut m = String::from_str("Invalid page range: ");
                push_decimal(&mut m, start as u64);
                push_text(&mut m, "-");
                push_decimal(&mut m, end as u64);
                push_text(&mut m, " (document has ");
                push_decimal(&mut m, total as u64);
                push_text(&mut m, " pages).");
                m
            },
            PageError::RangeCountMismatch => String::from_str(
                "The number of ranges and outputs must match.",
            ),
            PageError::InvalidRotation => String::from_str("Rotation must be 90, 180, or 270 degrees."),
        }
    }
}

} // verus!
