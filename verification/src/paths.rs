//! Names of the files an operation writes: results go next to their
//! source as `<stem>_<suffix>.pdf`, page images as `<stem>_p<n>.png`, and
//! annotations as `<file>.ohpdf-annot.json`. Splitting a path into parent
//! directory, stem and extension, and joining a directory with a file name,
//! follow `std::path`.
use vstd::prelude::*;
use crate::text::{decimal, push_decimal, push_text};

verus! {

/// `std::path::Path::parent` of the path `p`.
pub uninterp spec fn path_parent(p: Seq<char>) -> Option<Seq<char>>;

/// `std::path::Path::file_stem` of the path `p`.
pub uninterp spec fn path_file_stem(p: Seq<char>) -> Option<Seq<char>>;

/// `std::path::Path::extension` of the path `p`.
pub uninterp spec fn path_extension(p: Seq<char>) -> Option<Seq<char>>;

/// `c` separates path components on some platform (`/` everywhere, `\`
/// on Windows).
pub open spec fn is_separator_char(c: char) -> bool {
    c == '/' || c == '\\'
}

/// `n` begins like a Windows drive (`C:`): an ASCII letter, then `:`.
pub open spec fn starts_like_drive(n: Seq<char>) -> bool {
    &&& n.len() >= 2
    &&& n[1] == ':'
    &&& (('a' <= n[0] && n[0] <= 'z') || ('A' <= n[0] && n[0] <= 'Z'))
}

/// `n` is a single ordinary path component on every platform: not empty,
/// not `.` or `..`, free of separators, and not beginning like a drive.
pub open spec fn is_plain_name(n: Seq<char>) -> bool {
    &&& n.len() > 0
    &&& n != "."@
    &&& n != ".."@
    &&& forall|i: int| 0 <= i < n.len() ==> !is_separator_char(#[trigger] n[i])
    &&& !starts_like_drive(n)
}

/// The index of the last `.` in `n`, or -1 when there is none.
pub open spec fn last_dot(n: Seq<char>) -> int
    decreases n.len(),
{
    if n.len() == 0 {
        -1
    } else if n.last() == '.' {
        n.len() - 1
    } else {
        last_dot(n.drop_last())
    }
}

/// The stem of a single file name `n`, by the documented rule of
/// `Path::file_stem`: the whole name when it has no `.` or its only `.` is
/// the first character, otherwise the part before the last `.`.
pub open spec fn name_stem(n: Seq<char>) -> Seq<char> {
    if last_dot(n) <= 0 {
        n
    } else {
        n.subrange(0, last_dot(n))
    }
}

/// `std::path::Path::join` of the directory `base` and the path `name`.
pub uninterp spec fn path_join(base: Seq<char>, name: Seq<char>) -> Seq<char>;

/// `str::to_lowercase` of `s` (Unicode lower case).
pub uninterp spec fn text_lowercase(s: Seq<char>) -> Seq<char>;

/// `Path::parent`: the path without its last component; `None` for a root,
/// a prefix or the empty path.
#[verifier::external_body]
fn parent_of(p: &str) -> (r: Option<String>)
    ensures
        opt_seq(r) == path_parent(p@),
{
    match std::path::Path::new(p).parent() {
        Some(q) => Some(q.to_string_lossy().into_owned()),
        None => None,
    }
}

/// `Path::parent` of `p`, for the rest of the crate.
pub(crate) fn parent_of_pub(p: &str) -> (r: Option<String>)
    ensures
        opt_seq(r) == path_parent(p@),
{
    parent_of(p)
}

/// `s` is a stem that stays a single component when text is appended: it
/// holds no `/` and does not begin like a drive.
pub open spec fn joinable_stem(s: Seq<char>) -> bool {
    &&& no_slash(s)
    &&& !starts_like_drive(s)
}

/// `s` holds no `/`.
pub open spec fn no_slash(s: Seq<char>) -> bool {
    forall|i: int| 0 <= i < s.len() ==> #[trigger] s[i] != '/'
}

/// The name `s + t` made of the stem `s` and the tail `t`, free of
/// separators on every platform, is a component name: not empty, not `.` or
/// `..`, and, when it begins like a drive, still a file name after the
/// drive.
pub open spec fn stem_with_tail_ok(s: Seq<char>, t: Seq<char>) -> bool {
    &&& forall|i: int| 0 <= i < s.len() ==> #[trigger] s[i] != '/'
    &&& forall|i: int| 0 <= i < t.len() ==> !is_separator_char(#[trigger] t[i])
    &&& (s + t).len() > 0
    &&& s + t != "."@
    &&& s + t != ".."@
    &&& starts_like_drive(s + t) ==> {
        &&& (s + t).skip(2).len() > 0
        &&& (s + t).skip(2) != "."@
        &&& (s + t).skip(2) != ".."@
    }
}

/// `Path::file_stem`: the last component without its extension. There is
/// one exactly when the path has a file name, and a path with a file name
/// has a parent. The stem is part of the last component, so it holds no
/// separator of the platform (a `/` only gets in through a Windows verbatim
/// path). `Path::join` of the parent with a name made of the stem and a
/// tail without separators adjoins that name as one component, giving a
/// path in the same directory whose stem is the stem of that name; only
/// where the name begins like a drive (`C:`) does Windows take the name as
/// a drive-relative path that replaces the parent, whose stem is then the
/// stem of the name after the drive.
#[verifier::external_body]
fn file_stem_of(p: &str) -> (r: Option<String>)
    ensures
        opt_seq(r) == path_file_stem(p@),
        r is Some ==> path_parent(p@) is Some,
        r matches Some(s) ==> forall|t: Seq<char>|
            #[trigger] stem_with_tail_ok(s@, t) ==> {
                ||| {
                    &&& path_file_stem(path_join(path_parent(p@)->Some_0, s@ + t)) == Some(
                        name_stem(s@ + t),
                    )
                    &&& path_parent(path_join(path_parent(p@)->Some_0, s@ + t)) == path_parent(p@)
                }
                ||| {
                    &&& starts_like_drive(s@ + t)
                    &&& path_file_stem(path_join(path_parent(p@)->Some_0, s@ + t)) == Some(
                        name_stem((s@ + t).skip(2)),
                    )
                }
            },
{
    match std::path::Path::new(p).file_stem() {
        Some(q) => Some(q.to_string_lossy().into_owned()),
        None => None,
    }
}

/// `Path::extension`: the text after the last `.` of the last component.
#[verifier::external_body]
fn extension_of(p: &str) -> (r: Option<String>)
    ensures
        opt_seq(r) == path_extension(p@),
{
    match std::path::Path::new(p).extension() {
        Some(q) => Some(q.to_string_lossy().into_owned()),
        None => None,
    }
}

/// `Path::join`: `name` placed inside the directory `base`; a plain file
/// name becomes the last component of the result, so the result's stem is
/// that name's stem.
#[verifier::external_body]
pub(crate) fn join_path(base: &str, name: &str) -> (r: String)
    ensures
        r@ == path_join(base@, name@),
        is_plain_name(name@) ==> path_file_stem(r@) == Some(name_stem(name@)),
{
    std::path::Path::new(base).join(name).to_string_lossy().into_owned()
}

/// `str::to_lowercase`.
#[verifier::external_body]
fn lowercase(s: &str) -> (r: String)
    ensures
        r@ == text_lowercase(s@),
{
    s.to_lowercase()
}

/// The text of an optional string.
pub open spec fn opt_seq(o: Option<String>) -> Option<Seq<char>> {
    match o {
        Some(s) => Some(s@),
        None => None,
    }
}

/// The directory a result for `src` is written to: its parent, or `.`
/// when it has none.
pub open spec fn parent_or_dot(src: Seq<char>) -> Seq<char> {
    match path_parent(src) {
        Some(p) => p,
        None => "."@,
    }
}

/// The stem of `src`, or nothing when it has none.
pub open spec fn stem_or_empty(src: Seq<char>) -> Seq<char> {
    match path_file_stem(src) {
        Some(s) => s,
        None => Seq::empty(),
    }
}

/// The path a result of the operation named `suffix` on `src` is written
/// to: `<parent>/<stem>_<suffix>.pdf`.
pub open spec fn derived_output(src: Seq<char>, suffix: Seq<char>) -> Seq<char> {
    path_join(parent_or_dot(src), stem_or_empty(src) + "_"@ + suffix + ".pdf"@)
}

pub(crate) fn parent_or_dot_of(src: &str) -> (r: String)
    ensures
        r@ == parent_or_dot(src@),
{
    match parent_of(src) {
        Some(p) => p,
        None => String::from_str("."),
    }
}

pub(crate) fn stem_or_empty_of(src: &str) -> (r: String)
    ensures
        r@ == stem_or_empty(src@),
{
    match file_stem_of(src) {
        Some(s) => s,
        None => String::new(),
    }
}

/// Free of path separators.
pub open spec fn no_separators(s: Seq<char>) -> bool {
    forall|i: int| 0 <= i < s.len() ==> !is_separator_char(#[trigger] s[i])
}

/// `a` and `b` have the same parent directory.
pub open spec fn same_parent(a: Seq<char>, b: Seq<char>) -> bool {
    path_parent(a) == path_parent(b)
}

proof fn lemma_last_dot_of_pdf(x: Seq<char>)
    ensures
        last_dot(x + ".pdf"@) == x.len(),
{
    reveal_strlit(".pdf");
    let n0 = x + ".pdf"@;
    let n1 = n0.drop_last();
    let n2 = n1.drop_last();
    let n3 = n2.drop_last();
    assert(n0.len() == x.len() + 4);
    assert(n0.last() == 'f');
    assert(n1.last() == 'd');
    assert(n2.last() == 'p');
    assert(n3.last() == '.');
    assert(n3.len() == x.len() + 1);
    assert(last_dot(n3) == x.len());
    assert(last_dot(n2) == last_dot(n3));
    assert(last_dot(n1) == last_dot(n2));
    assert(last_dot(n0) == last_dot(n1));
}

/// A name that begins like a drive is not its own text after the drive
/// followed by `_` and one more character.
proof fn lemma_drive_shift(s: Seq<char>, t: Seq<char>)
    requires
        starts_like_drive(s),
        t.len() == 1,
    ensures
        s != s.skip(2) + "_"@ + t,
{
    reveal_strlit("_");
    if s =~= s.skip(2) + "_"@ + t {
        let k = s.len() - 2;
        lemma_drive_period(s, t, k);
        assert(s[k] == (s.skip(2) + "_"@ + t)[k]);
    }
}

proof fn lemma_drive_period(s: Seq<char>, t: Seq<char>, i: int)
    requires
        starts_like_drive(s),
        t.len() == 1,
        s =~= s.skip(2) + "_"@ + t,
        0 <= i < s.len(),
    ensures
        s[i] == s[0] || s[i] == s[1],
    decreases i,
{
    if i >= 2 {
        lemma_drive_period(s, t, i - 2);
        assert(s[i - 2] == (s.skip(2) + "_"@ + t)[i - 2]);
        assert(s[i - 2] == s.skip(2)[i - 2]);
    }
}

/// Builds the output path for `src`: same directory, `<stem>_<suffix>.pdf`.
///
/// When `suffix` holds no path separator (`/`, `\`) and the stem of `src`
/// holds no `/`, the result is never `src` itself. When the stem moreover
/// does not begin like a drive (such as `C:`), the result's stem is
/// `<stem>_<suffix>`, and it lies in the directory of `src` whenever `src`
/// names a file.
pub fn derive_output(src: &str, suffix: &str) -> (r: String)
    ensures
        r@ == derived_output(src@, suffix@),
        no_separators(suffix@) && joinable_stem(stem_or_empty(src@)) ==> path_file_stem(r@)
            == Some(stem_or_empty(src@) + "_"@ + suffix@),
        no_separators(suffix@) && no_slash(stem_or_empty(src@)) ==> r@ != src@,
        no_separators(suffix@) && joinable_stem(stem_or_empty(src@)) && path_file_stem(src@) is Some
            ==> same_parent(r@, src@),
{
    let parent_opt = parent_of(src);
    let stem = file_stem_of(src);
    let has_stem = stem.is_some();
    let ghost stem_opt = stem;
    let mut name = match stem {
        Some(s) => s,
        None => String::new(),
    };
    let ghost stem_text = name@;
    push_text(&mut name, "_");
    push_text(&mut name, suffix);
    push_text(&mut name, ".pdf");
    let parent = match parent_opt {
        Some(p) => p,
        None => String::from_str("."),
    };
    let r = join_path(parent.as_str(), name.as_str());
    proof {
        reveal_strlit("_");
        reveal_strlit(".pdf");
        reveal_strlit(".");
        reveal_strlit("..");
        let n = name@;
        let tail = "_"@ + suffix@ + ".pdf"@;
        let base = stem_text + "_"@ + suffix@;
        assert(n =~= base + ".pdf"@);
        assert(n =~= stem_text + tail);
        if no_separators(suffix@) && no_slash(stem_text) {
            assert forall|i: int| 0 <= i < tail.len() implies !is_separator_char(#[trigger] tail[i]) by {
                if i == 0 {
                    assert(tail[i] == '_');
                } else if i < 1 + suffix@.len() {
                    assert(tail[i] == suffix@[i - 1]);
                } else {
                    assert(tail[i] == ".pdf"@[i - 1 - suffix@.len()]);
                }
            }
            let drive = starts_like_drive(n);
            if drive {
                if stem_text.len() == 1 {
                    assert(n[1] == '_');
                } else if stem_text.len() == 0 {
                    assert(n[0] == '_');
                }
                assert(stem_text.len() >= 2);
                assert(n[0] == stem_text[0] && n[1] == stem_text[1]);
                assert(starts_like_drive(stem_text));
                assert(n.skip(2).len() >= 5);
            }
            assert(n.len() >= 5);
            lemma_last_dot_of_pdf(base);
            assert(name_stem(n) =~= base);
            if has_stem {
                let s = stem_opt->Some_0;
                assert(s@ == stem_text);
                assert(stem_with_tail_ok(stem_text, tail));
                assert(path_parent(src@) is Some);
                assert(parent@ == path_parent(src@)->Some_0);
                assert(stem_text == path_file_stem(src@)->Some_0);
                if !drive {
                    assert(path_file_stem(r@) == Some(name_stem(stem_text + tail)));
                    assert(path_file_stem(r@) == Some(base));
                    if r@ == src@ {
                        assert(base.len() > stem_text.len());
                    }
                } else if r@ == src@ {
                    let rest = stem_text.skip(2) + "_"@ + suffix@;
                    assert(n.skip(2) =~= rest + ".pdf"@);
                    lemma_last_dot_of_pdf(rest);
                    assert(name_stem(n.skip(2)) =~= rest);
                    if path_file_stem(r@) == Some(name_stem(n)) {
                        assert(base.len() > stem_text.len());
                    } else {
                        assert(path_file_stem(r@) == Some(rest));
                        assert(stem_text == rest);
                        assert(suffix@.len() == 1);
                        lemma_drive_shift(stem_text, suffix@);
                    }
                }
                if joinable_stem(stem_text) {
                    assert(!drive);
                }
            } else {
                assert(stem_text.len() == 0);
                assert forall|i: int| 0 <= i < n.len() implies !is_separator_char(#[trigger] n[i]) by {
                    assert(n[i] == tail[i]);
                }
                assert(!drive);
                assert(is_plain_name(n));
                assert(path_file_stem(r@) == Some(base));
            }
        }
    }
    r
}

/// The suffix that marks an annotation file.
pub open spec fn sidecar_suffix() -> Seq<char> {
    ".ohpdf-annot.json"@
}

/// The annotation file kept beside `pdf_path`: the same path with
/// `.ohpdf-annot.json` appended.
pub fn sidecar_path(pdf_path: &str) -> (r: String)
    ensures
        r@ == pdf_path@ + sidecar_suffix(),
{
    let mut s = String::from_str(pdf_path);
    push_text(&mut s, ".ohpdf-annot.json");
    s
}

/// Law of annotation files: the annotation file of a document is never the
/// document itself, and different documents have different annotation
/// files.
pub proof fn law_sidecar_distinct(a: Seq<char>, b: Seq<char>)
    ensures
        a + sidecar_suffix() != a,
        a + sidecar_suffix() == b + sidecar_suffix() ==> a == b,
{
    reveal_strlit(".ohpdf-annot.json");
    assert((a + sidecar_suffix()).len() == a.len() + 17);
    if a + sidecar_suffix() == b + sidecar_suffix() {
        assert(a.len() == b.len());
        assert(a =~= (a + sidecar_suffix()).subrange(0, a.len() as int));
        assert(b =~= (b + sidecar_suffix()).subrange(0, b.len() as int));
    }
}

/// The file name of the image of page `page`: `<stem>_p<page>.png`.
pub open spec fn image_name(stem: Seq<char>, page: nat) -> Seq<char> {
    stem + "_p"@ + decimal(page) + ".png"@
}

/// Where the image of page `page` (1-indexed) of `input` is written: into
/// `output_dir` when one is given, else beside `input`.
pub open spec fn image_output(input: Seq<char>, output_dir: Option<Seq<char>>, page: nat) -> Seq<char> {
    let dir = match output_dir {
        Some(d) => d,
        None => parent_or_dot(input),
    };
    path_join(dir, image_name(stem_or_empty(input), page))
}

/// The path the image of page `page` (1-indexed) of `input` is saved to.
pub fn image_output_path(input: &str, output_dir: Option<&str>, page: u32) -> (r: String)
    ensures
        r@ == image_output(
            input@,
            match output_dir {
                Some(d) => Some(d@),
                None => None,
            },
            page as nat,
        ),
{
    let dir = match output_dir {
        Some(d) => String::from_str(d),
        None => parent_or_dot_of(input),
    };
    let mut name = stem_or_empty_of(input);
    push_text(&mut name, "_p");
    push_decimal(&mut name, page as u64);
    push_text(&mut name, ".png");
    join_path(dir.as_str(), name.as_str())
}

/// Image kinds that can become PDF pages (by lower-cased extension).
pub open spec fn is_image_extension(e: Seq<char>) -> bool {
    e == "png"@ || e == "jpg"@ || e == "jpeg"@ || e == "webp"@ || e == "bmp"@
}

/// The lower-cased extension of `p`, empty when it has none.
pub open spec fn lower_extension(p: Seq<char>) -> Seq<char> {
    text_lowercase(
        match path_extension(p) {
            Some(e) => e,
            None => Seq::empty(),
        },
    )
}

/// Whether `p` names an image that can become a PDF page: its extension,
/// in lower case, is `png`, `jpg`, `jpeg`, `webp` or `bmp`.
pub fn is_supported_image(p: &str) -> (r: bool)
    ensures
        r == is_image_extension(lower_extension(p@)),
{
    let e = match extension_of(p) {
        Some(e) => e,
        None => String::new(),
    };
    let l = lowercase(e.as_str());
    is_image_extension_text(l.as_str())
}

/// Whether the lower-cased extension `e` is one of an image that can become
/// a PDF page: `png`, `jpg`, `jpeg`, `webp` or `bmp`.
pub fn is_image_extension_text(e: &str) -> (r: bool)
    ensures
        r == is_image_extension(e@),
{
    crate::text::same_text(e, "png") || crate::text::same_text(e, "jpg")
        || crate::text::same_text(e, "jpeg") || crate::text::same_text(e, "webp")
        || crate::text::same_text(e, "bmp")
}

/// Refuses a file that cannot become a PDF page, naming it.
pub fn check_image_path(p: &str) -> (r: Result<(), String>)
    ensures
        r is Ok <==> is_image_extension(lower_extension(p@)),
        r matches Err(m) ==> m@ == "Unsupported image format: "@ + p@,
{
    if is_supported_image(p) {
        return Ok(());
    }
    let mut m = String::from_str("Unsupported image format: ");
    push_text(&mut m, p);
    Err(m)
}

/// `p` names an image that can become a PDF page.
pub open spec fn is_supported_image_path(p: Seq<char>) -> bool {
    is_image_extension(lower_extension(p))
}

/// Checks image files in turn and stops at the first that cannot become a
/// PDF page, giving its index and the message that names it; the images
/// before it are all supported.
pub fn first_unsupported_image(paths: &[String]) -> (r: Option<(usize, String)>)
    ensures
        r is None ==> forall|i: int| 0 <= i < paths@.len() ==> is_supported_image_path(#[trigger] paths@[i]@),
        r matches Some((k, m)) ==> {
            &&& k < paths@.len()
            &&& !is_supported_image_path(paths@[k as int]@)
            &&& m@ == "Unsupported image format: "@ + paths@[k as int]@
            &&& forall|i: int| 0 <= i < k ==> is_supported_image_path(#[trigger] paths@[i]@)
        },
{
    let mut i: usize = 0;
    while i < paths.len()
        invariant
            i <= paths@.len(),
            forall|j: int| 0 <= j < i ==> is_supported_image_path(#[trigger] paths@[j]@),
        decreases paths@.len() - i,
    {
        match check_image_path(paths[i].as_str()) {
            Ok(()) => {},
            Err(m) => {
                return Some((i, m));
            },
        }
        i = i + 1;
    }
    None
}

/// ASCII lower case of one character.
pub open spec fn ascii_lower_char(c: char) -> char {
    if 'A' <= c <= 'Z' {
        ((c as u32) + 32) as char
    } else {
        c
    }
}

/// ASCII lower case of a text: `A`-`Z` become `a`-`z`, everything else is
/// kept.
pub open spec fn ascii_lower(s: Seq<char>) -> Seq<char> {
    s.map_values(|c: char| ascii_lower_char(c))
}

/// `p` has the extension `pdf`, in any ASCII case.
pub open spec fn has_pdf_extension(p: Seq<char>) -> bool {
    match path_extension(p) {
        Some(e) => ascii_lower(e) == "pdf"@,
        None => false,
    }
}

/// Whether `p` has the extension `pdf`, compared without regard to ASCII
/// case.
pub fn is_pdf_path(p: &str) -> (r: bool)
    ensures
        r == has_pdf_extension(p@),
{
    match extension_of(p) {
        None => false,
        Some(e) => {
            let cs = crate::text::chars_of(e.as_str());
            let mut low = String::new();
            let mut i: usize = 0;
            while i < cs.len()
                invariant
                    i <= cs@.len(),
                    low@ == ascii_lower(cs@.subrange(0, i as int)),
                decreases cs@.len() - i,
            {
                let c = cs[i];
                let l = if 'A' <= c && c <= 'Z' {
                    char_from_ascii_lower(c)
                } else {
                    c
                };
                crate::text::push_char(&mut low, l);
                assert(ascii_lower(cs@.subrange(0, i + 1)) =~= ascii_lower(
                    cs@.subrange(0, i as int),
                ).push(ascii_lower_char(c)));
                i = i + 1;
            }
            assert(cs@.subrange(0, cs@.len() as int) =~= cs@);
            crate::text::same_text(low.as_str(), "pdf")
        },
    }
}

fn char_from_ascii_lower(c: char) -> (r: char)
    requires
        'A' <= c <= 'Z',
    ensures
        r == ascii_lower_char(c),
{
    match c {
        'A' => 'a',
        'B' => 'b',
        'C' => 'c',
        'D' => 'd',
        'E' => 'e',
        'F' => 'f',
        'G' => 'g',
        'H' => 'h',
        'I' => 'i',
        'J' => 'j',
        'K' => 'k',
        'L' => 'l',
        'M' => 'm',
        'N' => 'n',
        'O' => 'o',
        'P' => 'p',
        'Q' => 'q',
        'R' => 'r',
        'S' => 's',
        'T' => 't',
        'U' => 'u',
        'V' => 'v',
        'W' => 'w',
        'X' => 'x',
        'Y' => 'y',
        _ => 'z',
    }
}

} // verus!
