//! The decisions behind each request the desktop user interface sends:
//! where results go, which defaults and limits apply, and what the reply
//! says.
use vstd::prelude::*;
use crate::paths::{
    derive_output, derived_output, join_path, joinable_stem, no_separators, no_slash, parent_or_dot, path_file_stem, path_join,
    path_parent,
    stem_or_empty,
};
use crate::text::{decimal, push_decimal, push_text};
use crate::render::Thumbnail;

verus! {

/// The event that wakes the user interface's event loop when a reply is
/// ready.
pub struct WakeUp;

/// A split range as the user interface sends it (1-indexed, inclusive).
pub struct PageRange {
    pub start: u32,
    pub end: u32,
}

/// One page preview in a reply.
pub struct ThumbnailData {
    pub page: u32,
    pub data_url: String,
}

/// A reply to the user interface; `A` is the annotation data it carries.
#[allow(inconsistent_fields)]
pub enum IpcResponse<A> {
    /// The operation succeeded and wrote `output`.
    Done { output: String, message: Option<String> },
    Error { message: String },
    PageCount { count: u32 },
    Thumbnails { pages: Vec<ThumbnailData> },
    Page { data_url: String },
    Annotations { pages: A },
    Paths { paths: Vec<String> },
}

/// `d` (or `default` when absent) limited to `lo..=hi`.
pub open spec fn dpi_in(d: Option<u32>, default: int, lo: int, hi: int) -> int {
    let v = match d {
        Some(x) => x as int,
        None => default,
    };
    if v < lo {
        lo
    } else if v > hi {
        hi
    } else {
        v
    }
}

fn clamp_dpi(d: Option<u32>, default: u32, lo: u32, hi: u32) -> (r: u32)
    requires
        lo <= hi,
    ensures
        r == dpi_in(d, default as int, lo as int, hi as int),
{
    let v = match d {
        Some(x) => x,
        None => default,
    };
    if v < lo {
        lo
    } else if v > hi {
        hi
    } else {
        v
    }
}

/// The resolution pages are exported at: the requested one (150 when
/// absent) limited to `72..=600`.
pub fn export_dpi(dpi: Option<u32>) -> (r: u32)
    ensures
        r == dpi_in(dpi, 150, 72, 600),
        72 <= r <= 600,
{
    clamp_dpi(dpi, 150, 72, 600)
}

/// The resolution a page is shown at for reading: the requested one (96,
/// the reader's 100% zoom, when absent) limited to `36..=600`.
pub fn reading_dpi(dpi: Option<u32>) -> (r: u32)
    ensures
        r == dpi_in(dpi, 96, 36, 600),
        36 <= r <= 600,
{
    clamp_dpi(dpi, 96, 36, 600)
}

/// The operations whose result is a new file beside their source.
#[derive(Debug, Clone, Copy, PartialEq, Eq, Structural)]
pub enum Operation {
    Merge,
    Compress,
    Encrypt,
    Decrypt,
    DeletePages,
    ExtractPages,
    RotatePages,
    ReorderPages,
    AddWatermark,
}

/// The suffix an operation's result is named with.
pub open spec fn operation_suffix_text(op: Operation) -> Seq<char> {
    match op {
        Operation::Merge => "merged"@,
        Operation::Compress => "compressed"@,
        Operation::Encrypt => "encrypted"@,
        Operation::Decrypt => "decrypted"@,
        Operation::DeletePages => "deleted"@,
        Operation::ExtractPages => "extracted"@,
        Operation::RotatePages => "rotated"@,
        Operation::ReorderPages => "reordered"@,
        Operation::AddWatermark => "watermarked"@,
    }
}

fn operation_suffix(op: Operation) -> (r: &'static str)
    ensures
        r@ == operation_suffix_text(op),
{
    match op {
        Operation::Merge => "merged",
        Operation::Compress => "compressed",
        Operation::Encrypt => "encrypted",
        Operation::Decrypt => "decrypted",
        Operation::DeletePages => "deleted",
        Operation::ExtractPages => "extracted",
        Operation::RotatePages => "rotated",
        Operation::ReorderPages => "reordered",
        Operation::AddWatermark => "watermarked",
    }
}

/// Where the result of `op` on `src` goes: `<parent>/<stem>_<suffix>.pdf`
/// (for a merge, `src` is the first input).
pub fn operation_output(op: Operation, src: &str) -> (r: String)
    ensures
        r@ == derived_output(src@, operation_suffix_text(op)),
        no_slash(stem_or_empty(src@)) ==> r@ != src@,
{
    proof {
        reveal_strlit("merged");
        reveal_strlit("compressed");
        reveal_strlit("encrypted");
        reveal_strlit("decrypted");
        reveal_strlit("deleted");
        reveal_strlit("extracted");
        reveal_strlit("rotated");
        reveal_strlit("reordered");
        reveal_strlit("watermarked");
    }
    derive_output(src, operation_suffix(op))
}

/// `prefix` + the decimal numeral of `n` + `suffix`.
pub open spec fn count_text(prefix: Seq<char>, n: nat, suffix: Seq<char>) -> Seq<char> {
    prefix + decimal(n) + suffix
}

fn count_message(prefix: &str, n: usize, suffix: &str) -> (r: String)
    ensures
        r@ == count_text(prefix@, n as nat, suffix@),
{
    let mut m = String::from_str(prefix);
    push_decimal(&mut m, n as u64);
    push_text(&mut m, suffix);
    m
}

/// The message of a successful operation; `count` is the number of pages
/// it was asked to delete or extract.
pub open spec fn success_text(op: Operation, count: nat) -> Seq<char> {
    match op {
        Operation::Merge => "Merged successfully."@,
        Operation::Compress => "Compressed successfully."@,
        Operation::Encrypt => "Encrypted successfully."@,
        Operation::Decrypt => "Decrypted successfully."@,
        Operation::DeletePages => count_text("Deleted "@, count, " page(s)."@),
        Operation::ExtractPages => count_text("Extracted "@, count, " page(s)."@),
        Operation::RotatePages => "Rotated successfully."@,
        Operation::ReorderPages => "Pages reordered successfully."@,
        Operation::AddWatermark => "Watermark added successfully."@,
    }
}

/// The message reported when `op` succeeds.
pub fn success_message(op: Operation, count: usize) -> (r: String)
    ensures
        r@ == success_text(op, count as nat),
{
    match op {
        Operation::Merge => String::from_str("Merged successfully."),
        Operation::Compress => String::from_str("Compressed successfully."),
        Operation::Encrypt => String::from_str("Encrypted successfully."),
        Operation::Decrypt => String::from_str("Decrypted successfully."),
        Operation::DeletePages => count_message("Deleted ", count, " page(s)."),
        Operation::ExtractPages => count_message("Extracted ", count, " page(s)."),
        Operation::RotatePages => String::from_str("Rotated successfully."),
        Operation::ReorderPages => String::from_str("Pages reordered successfully."),
        Operation::AddWatermark => String::from_str("Watermark added successfully."),
    }
}

/// The message of annotations saved for a document.
pub fn annotations_saved_message() -> (r: String)
    ensures
        r@ == "Annotations saved."@,
{
    String::from_str("Annotations saved.")
}

/// The message of a split into `n` files.
pub fn split_message(n: usize) -> (r: String)
    ensures
        r@ == count_text("Split into "@, n as nat, " file(s)."@),
{
    count_message("Split into ", n, " file(s).")
}

/// The message of an export of `n` page images.
pub fn export_message(n: usize) -> (r: String)
    ensures
        r@ == count_text("Exported "@, n as nat, " image(s)."@),
{
    count_message("Exported ", n, " image(s).")
}

/// The message of `n` images combined into a PDF.
pub fn combine_message(n: usize) -> (r: String)
    ensures
        r@ == count_text("Combined "@, n as nat, " image(s) into a PDF."@),
{
    count_message("Combined ", n, " image(s) into a PDF.")
}

/// The reply to an operation that produced `output`: success with
/// `message`, or the error's message.
pub fn completed<A>(outcome: Result<(), String>, output: String, message: Option<String>) -> (r:
    IpcResponse<A>)
    ensures
        outcome is Ok ==> r == (IpcResponse::<A>::Done { output, message }),
        outcome matches Err(m) ==> r == (IpcResponse::<A>::Error { message: m }),
{
    match outcome {
        Ok(()) => IpcResponse::Done { output, message },
        Err(m) => IpcResponse::Error { message: m },
    }
}

/// The reply to a request that failed with `message`.
pub fn failed<A>(message: String) -> (r: IpcResponse<A>)
    ensures
        r == (IpcResponse::<A>::Error { message }),
{
    IpcResponse::Error { message }
}

/// Refuses a merge of no files.
pub fn check_merge_inputs(n: usize) -> (r: Result<(), String>)
    ensures
        r is Ok <==> n > 0,
        r matches Err(m) ==> m@ == "At least one input file is required."@,
{
    if n == 0 {
        return Err(String::from_str("At least one input file is required."));
    }
    Ok(())
}

/// Refuses to combine no images into a PDF.
pub fn check_image_inputs(n: usize) -> (r: Result<(), String>)
    ensures
        r is Ok <==> n > 0,
        r matches Err(m) ==> m@ == "At least one image is required."@,
{
    if n == 0 {
        return Err(String::from_str("At least one image is required."));
    }
    Ok(())
}

/// The suffix of the `i`-th (1-indexed) split output.
pub open spec fn split_suffix(i: nat) -> Seq<char> {
    "split_"@ + decimal(i)
}

/// The outputs of splitting `src` into `n` files: `<stem>_split_1.pdf`,
/// `<stem>_split_2.pdf`, ..., beside `src`.
pub fn split_outputs(src: &str, n: usize) -> (r: Vec<String>)
    ensures
        r@.len() == n,
        forall|i: int| 0 <= i < n ==> #[trigger] r@[i]@ == derived_output(src@, split_suffix((i + 1) as nat)),
        no_slash(stem_or_empty(src@)) ==> forall|i: int|
            0 <= i < n ==> #[trigger] r@[i]@ != src@,
        joinable_stem(stem_or_empty(src@)) ==> forall|i: int, j: int|
            0 <= i < j < n ==> #[trigger] r@[i]@ != #[trigger] r@[j]@,
{
    let mut r: Vec<String> = Vec::new();
    let mut i: usize = 0;
    while i < n
        invariant
            i <= n,
            r@.len() == i,
            forall|k: int| 0 <= k < i ==> #[trigger] r@[k]@ == derived_output(src@, split_suffix((k + 1) as nat)),
            no_slash(stem_or_empty(src@)) ==> forall|k: int|
                0 <= k < i ==> #[trigger] r@[k]@ != src@,
            joinable_stem(stem_or_empty(src@)) ==> forall|k: int|
                0 <= k < i ==> path_file_stem(#[trigger] r@[k]@) == Some(
                    split_stem(stem_or_empty(src@), (k + 1) as nat),
                ),
            joinable_stem(stem_or_empty(src@)) ==> forall|a: int, b: int|
                0 <= a < b < i ==> #[trigger] r@[a]@ != #[trigger] r@[b]@,
        decreases n - i,
    {
        let mut suffix = String::from_str("split_");
        push_decimal(&mut suffix, (i as u64) + 1);
        proof {
            lemma_split_suffix_plain((i + 1) as nat);
        }
        let out = derive_output(src, suffix.as_str());
        let ghost prev = r@;
        r.push(out);
        proof {
            if joinable_stem(stem_or_empty(src@)) {
                assert forall|a: int, b: int| 0 <= a < b < i + 1 implies #[trigger] r@[a]@
                    != #[trigger] r@[b]@ by {
                    if b == i {
                        assert(r@[a] == prev[a]);
                        lemma_split_names_differ(stem_or_empty(src@), (a + 1) as nat, (i + 1) as nat);
                    } else {
                        assert(r@[a] == prev[a] && r@[b] == prev[b]);
                    }
                }
            }
        }
        i = i + 1;
    }
    r
}

/// The stem of the `k`-th split output of a source with stem `stem`.
pub open spec fn split_stem(stem: Seq<char>, k: nat) -> Seq<char> {
    stem + "_"@ + split_suffix(k)
}

proof fn lemma_split_suffix_plain(k: nat)
    ensures
        no_separators(split_suffix(k)),
{
    reveal_strlit("split_");
    crate::text::lemma_decimal_digits(k);
    let s = split_suffix(k);
    assert forall|i: int| 0 <= i < s.len() implies !crate::paths::is_separator_char(#[trigger] s[i]) by {
        if i >= 6 {
            assert(s[i] == decimal(k)[i - 6]);
        }
    }
}

proof fn lemma_split_names_differ(stem: Seq<char>, a: nat, b: nat)
    requires
        a != b,
    ensures
        split_stem(stem, a) != split_stem(stem, b),
{
    reveal_strlit("split_");
    reveal_strlit("_");
    reveal_strlit(".pdf");
    crate::text::lemma_decimal_digits(a);
    crate::text::lemma_decimal_digits(b);
    let x = split_stem(stem, a);
    let y = split_stem(stem, b);
    if x == y {
        let da = decimal(a);
        let db = decimal(b);
        assert("split_"@.len() == 6);
        assert("_"@.len() == 1);
        assert(x.len() == stem.len() + 7 + da.len());
        assert(y.len() == stem.len() + 7 + db.len());
        assert(da.len() == db.len());
        let off: int = stem.len() as int + 7;
        assert(da =~= x.subrange(off, off + da.len()));
        assert(db =~= y.subrange(off, off + db.len()));
    }
}

/// The directory reported after a split: the source's parent, or the
/// source itself when it has none.
pub open spec fn parent_or_self(src: Seq<char>) -> Seq<char> {
    match path_parent(src) {
        Some(p) => p,
        None => src,
    }
}

/// The directory reported after a split of `src`.
pub fn split_reply_dir(src: &str) -> (r: String)
    ensures
        r@ == parent_or_self(src@),
{
    match crate::paths::parent_of_pub(src) {
        Some(p) => p,
        None => String::from_str(src),
    }
}

/// The directory reported after exporting page images: that of the first
/// image, or of the source when there were none.
pub fn export_reply_dir(images: &[String], src: &str) -> (r: String)
    ensures
        images@.len() > 0 ==> r@ == parent_or_self(images@[0]@),
        images@.len() == 0 ==> r@ == parent_or_self(src@),
{
    if images.len() > 0 {
        split_reply_dir(images[0].as_str())
    } else {
        split_reply_dir(src)
    }
}

/// Where images combined into a PDF are written: beside the first image,
/// under the requested name (`images_combined.pdf` when none).
pub open spec fn combined_output(first: Seq<char>, name: Option<Seq<char>>) -> Seq<char> {
    path_join(
        parent_or_dot(first),
        match name {
            Some(n) => n,
            None => "images_combined.pdf"@,
        },
    )
}

/// Where images combined into a PDF are written.
pub fn combined_images_output(first: &str, name: Option<String>) -> (r: String)
    ensures
        r@ == combined_output(
            first@,
            match name {
                Some(n) => Some(n@),
                None => None,
            },
        ),
{
    let dir = crate::paths::parent_or_dot_of(first);
    let name = match name {
        Some(n) => n,
        None => String::from_str("images_combined.pdf"),
    };
    join_path(dir.as_str(), name.as_str())
}

/// The file filter of the native file picker: images for `image`, PDF
/// files otherwise.
pub fn picker_filter(kind: &str) -> (r: (&'static str, Vec<&'static str>))
    ensures
        kind@ == "image"@ ==> r.0@ == "Images"@ && r.1@.map_values(|e: &str| e@) == seq![
            "png"@,
            "jpg"@,
            "jpeg"@,
            "webp"@,
            "bmp"@,
        ],
        kind@ != "image"@ ==> r.0@ == "PDF"@ && r.1@.map_values(|e: &str| e@) == seq!["pdf"@],
{
    if crate::text::same_text(kind, "image") {
        let v = vec!["png", "jpg", "jpeg", "webp", "bmp"];
        assert(v@.map_values(|e: &str| e@) =~= seq!["png"@, "jpg"@, "jpeg"@, "webp"@, "bmp"@]);
        ("Images", v)
    } else {
        let v = vec!["pdf"];
        assert(v@.map_values(|e: &str| e@) =~= seq!["pdf"@]);
        ("PDF", v)
    }
}

/// A rendered preview as it is sent to the user interface.
pub fn thumbnail_data(t: Thumbnail) -> (r: ThumbnailData)
    ensures
        r.page == t.page,
        r.data_url == t.data_url,
{
    ThumbnailData { page: t.page, data_url: t.data_url }
}

} // verus!
