//! One request of the desktop user interface, as a step: the request is
//! turned into the work to be done (with its output paths and defaults
//! decided), the caller does that work, and its outcome is turned into the
//! reply.
use vstd::prelude::*;
use crate::ipc::{
    combine_message, combined_images_output, combined_output, count_text, dpi_in, export_dpi,
    export_message, export_reply_dir, operation_output, parent_or_self, picker_filter,
    reading_dpi, split_message, split_outputs, split_reply_dir, split_suffix, success_message,
    success_text, IpcResponse, Operation, PageRange, ThumbnailData, annotations_saved_message,
    check_image_inputs, check_merge_inputs, operation_suffix_text,
};
use crate::paths::derived_output;
use crate::text::decimal;

verus! {

/// A request of the user interface, with the values the library decides
/// on. (The size and opacity of a watermark, and the annotation data to be
/// saved, stay with the caller.)
#[allow(inconsistent_fields)]
pub enum Request {
    Merge { paths: Vec<String> },
    Split { path: String, ranges: Vec<PageRange> },
    Compress { path: String, quality: Option<u8> },
    Encrypt { path: String, password: String },
    Decrypt { path: String, password: String },
    DeletePages { path: String, pages: Vec<u32> },
    ExtractPages { path: String, pages: Vec<u32> },
    RotatePages { path: String, pages: Vec<u32>, degrees: i32 },
    ReorderPages { path: String, order: Vec<u32> },
    PdfToImages { path: String, dpi: Option<u32> },
    ImagesToPdf { paths: Vec<String>, output_name: Option<String> },
    AddWatermark { path: String, text: String },
    GetPageCount { path: String },
    GetPageThumbnails { path: String },
    RenderPage { path: String, page: u32, dpi: Option<u32> },
    LoadAnnotations { path: String },
    SaveAnnotations { path: String },
    RevealInFinder { path: String },
    PickFiles { kind: String, multiple: bool },
}

/// The work a request asks for, with every output path and default
/// decided.
#[allow(inconsistent_fields)]
pub enum Job {
    Merge { inputs: Vec<String>, output: String },
    Split { input: String, ranges: Vec<PageRange>, outputs: Vec<String> },
    Compress { input: String, output: String, quality: Option<u8> },
    Encrypt { input: String, output: String, password: String },
    Decrypt { input: String, output: String, password: String },
    DeletePages { input: String, output: String, pages: Vec<u32> },
    ExtractPages { input: String, output: String, pages: Vec<u32> },
    RotatePages { input: String, output: String, pages: Vec<u32>, degrees: i32 },
    ReorderPages { input: String, output: String, order: Vec<u32> },
    /// Export every page as an image at `dpi`.
    Export { input: String, dpi: u32 },
    Combine { images: Vec<String>, output: String },
    Watermark { input: String, output: String, text: String },
    CountPages { input: String },
    Thumbnails { input: String },
    /// Render page `page` (1-indexed) at `dpi`.
    Render { input: String, page: u32, dpi: u32 },
    LoadAnnotations { input: String },
    SaveAnnotations { input: String },
    Reveal { path: String },
    /// Ask the user for files, offered under the filter `filter_name` with
    /// the given extensions.
    Pick { filter_name: &'static str, extensions: Vec<&'static str>, multiple: bool },
}

/// What the work of a job gave back; `A` is the annotation data.
pub enum Outcome<A> {
    /// The job's files were written (or, for a reveal, shown).
    Written,
    /// The page images written by an export.
    Images(Vec<String>),
    Count(u32),
    Thumbnails(Vec<ThumbnailData>),
    /// A rendered page as a `data:` URL.
    Page(String),
    Annotations(A),
    /// The files the user picked.
    Paths(Vec<String>),
}

/// `job` edits `path` into the result of `op` beside it.
pub open spec fn edits(path: Seq<char>, op: Operation, input: String, output: String) -> bool {
    input@ == path && output@ == derived_output(path, operation_suffix_text(op))
}

/// The job planned for `req`, or the refusal it gets before any work.
pub open spec fn planned(req: Request, r: Result<Job, String>) -> bool {
    match req {
        Request::Merge { paths } => if paths@.len() == 0 {
            r matches Err(m) && m@ == "At least one input file is required."@
        } else {
            r matches Ok(Job::Merge { inputs, output }) && inputs@ == paths@ && output@
                == derived_output(paths@[0]@, operation_suffix_text(Operation::Merge))
        },
        Request::Split { path, ranges } => r matches Ok(Job::Split { input, ranges: rs, outputs })
            && input@ == path@ && rs@ == ranges@ && outputs@.len() == ranges@.len() && (forall|i: int|
            0 <= i < ranges@.len() ==> #[trigger] outputs@[i]@ == derived_output(
                path@,
                split_suffix((i + 1) as nat),
            )),
        Request::Compress { path, quality } => r matches Ok(Job::Compress { input, output, quality: q })
            && edits(path@, Operation::Compress, input, output) && q == quality,
        Request::Encrypt { path, password } => r matches Ok(
            Job::Encrypt { input, output, password: p },
        ) && edits(path@, Operation::Encrypt, input, output) && p@ == password@,
        Request::Decrypt { path, password } => r matches Ok(
            Job::Decrypt { input, output, password: p },
        ) && edits(path@, Operation::Decrypt, input, output) && p@ == password@,
        Request::DeletePages { path, pages } => r matches Ok(
            Job::DeletePages { input, output, pages: p },
        ) && edits(path@, Operation::DeletePages, input, output) && p@ == pages@,
        Request::ExtractPages { path, pages } => r matches Ok(
            Job::ExtractPages { input, output, pages: p },
        ) && edits(path@, Operation::ExtractPages, input, output) && p@ == pages@,
        Request::RotatePages { path, pages, degrees } => r matches Ok(
            Job::RotatePages { input, output, pages: p, degrees: d },
        ) && edits(path@, Operation::RotatePages, input, output) && p@ == pages@ && d == degrees,
        Request::ReorderPages { path, order } => r matches Ok(
            Job::ReorderPages { input, output, order: o },
        ) && edits(path@, Operation::ReorderPages, input, output) && o@ == order@,
        Request::PdfToImages { path, dpi } => r matches Ok(Job::Export { input, dpi: d }) && input@
            == path@ && d == dpi_in(dpi, 150, 72, 600),
        Request::ImagesToPdf { paths, output_name } => if paths@.len() == 0 {
            r matches Err(m) && m@ == "At least one image is required."@
        } else {
            r matches Ok(Job::Combine { images, output }) && images@ == paths@ && output@
                == combined_output(
                paths@[0]@,
                match output_name {
                    Some(n) => Some(n@),
                    None => None,
                },
            )
        },
        Request::AddWatermark { path, text } => r matches Ok(
            Job::Watermark { input, output, text: t },
        ) && edits(path@, Operation::AddWatermark, input, output) && t@ == text@,
        Request::GetPageCount { path } => r matches Ok(Job::CountPages { input }) && input@ == path@,
        Request::GetPageThumbnails { path } => r matches Ok(Job::Thumbnails { input }) && input@
            == path@,
        Request::RenderPage { path, page, dpi } => r matches Ok(Job::Render { input, page: p, dpi: d })
            && input@ == path@ && p == page && d == dpi_in(dpi, 96, 36, 600),
        Request::LoadAnnotations { path } => r matches Ok(Job::LoadAnnotations { input }) && input@
            == path@,
        Request::SaveAnnotations { path } => r matches Ok(Job::SaveAnnotations { input }) && input@
            == path@,
        Request::RevealInFinder { path } => r matches Ok(Job::Reveal { path: p }) && p@ == path@,
        Request::PickFiles { kind, multiple } => r matches Ok(
            Job::Pick { filter_name, extensions, multiple: m },
        ) && m == multiple && (kind@ == "image"@ ==> filter_name@ == "Images"@
            && extensions@.map_values(|e: &str| e@) == seq!["png"@, "jpg"@, "jpeg"@, "webp"@, "bmp"@])
            && (kind@ != "image"@ ==> filter_name@ == "PDF"@ && extensions@.map_values(
            |e: &str| e@,
        ) == seq!["pdf"@]),
    }
}

/// Law of planning: the work planned for a request carries what was asked
/// unchanged (the same files, pages, page order, turn, password, quality and
/// text), writes each result beside its source as `<stem>_<marker>.pdf`
/// with the marker of that operation (`merged` after the first file,
/// `split_1`, `split_2`, ... for the parts of a split, `compressed`,
/// `encrypted`, `decrypted`, `deleted`, `extracted`, `rotated`, `reordered`,
/// `watermarked`), exports at 150 dpi and shows pages at 96 dpi unless
/// asked otherwise, and refuses only a merge or a combination of no files.
pub proof fn law_plan_request(req: Request, r: Result<Job, String>)
    requires
        planned(req, r),
    ensures
        match req {
            Request::Merge { paths } => (r is Err <==> paths@.len() == 0) && (paths@.len() > 0 ==> (r matches Ok(
                Job::Merge { inputs, output },
            ) && inputs@ == paths@ && output@ == derived_output(paths@[0]@, "merged"@))),
            Request::Split { path, ranges } => r matches Ok(Job::Split { input, ranges: rs, outputs })
                && input@ == path@ && rs@ == ranges@ && outputs@.len() == ranges@.len() && (forall|i: int|
                0 <= i < ranges@.len() ==> #[trigger] outputs@[i]@ == derived_output(
                    path@,
                    "split_"@ + decimal((i + 1) as nat),
                )),
            Request::Compress { path, quality } => r matches Ok(
                Job::Compress { input, output, quality: q },
            ) && input@ == path@ && output@ == derived_output(path@, "compressed"@) && q == quality,
            Request::Encrypt { path, password } => r matches Ok(
                Job::Encrypt { input, output, password: p },
            ) && input@ == path@ && output@ == derived_output(path@, "encrypted"@) && p@ == password@,
            Request::Decrypt { path, password } => r matches Ok(
                Job::Decrypt { input, output, password: p },
            ) && input@ == path@ && output@ == derived_output(path@, "decrypted"@) && p@ == password@,
            Request::DeletePages { path, pages } => r matches Ok(
                Job::DeletePages { input, output, pages: p },
            ) && input@ == path@ && output@ == derived_output(path@, "deleted"@) && p@ == pages@,
            Request::ExtractPages { path, pages } => r matches Ok(
                Job::ExtractPages { input, output, pages: p },
            ) && input@ == path@ && output@ == derived_output(path@, "extracted"@) && p@ == pages@,
            Request::RotatePages { path, pages, degrees } => r matches Ok(
                Job::RotatePages { input, output, pages: p, degrees: d },
            ) && input@ == path@ && output@ == derived_output(path@, "rotated"@) && p@ == pages@ && d
                == degrees,
            Request::ReorderPages { path, order } => r matches Ok(
                Job::ReorderPages { input, output, order: o },
            ) && input@ == path@ && output@ == derived_output(path@, "reordered"@) && o@ == order@,
            Request::PdfToImages { path, dpi } => r matches Ok(Job::Export { input, dpi: d }) && input@
                == path@ && (dpi is None ==> d == 150) && (dpi is Some && 72 <= dpi->Some_0 <= 600 ==> d
                == dpi->Some_0),
            Request::ImagesToPdf { paths, output_name } => (r is Err <==> paths@.len() == 0) && (
            paths@.len() > 0 ==> (r matches Ok(Job::Combine { images, output }) && images@ == paths@)),
            Request::AddWatermark { path, text } => r matches Ok(
                Job::Watermark { input, output, text: t },
            ) && input@ == path@ && output@ == derived_output(path@, "watermarked"@) && t@ == text@,
            Request::RenderPage { path, page, dpi } => r matches Ok(
                Job::Render { input, page: p, dpi: d },
            ) && input@ == path@ && p == page && (dpi is None ==> d == 96) && (dpi is Some && 36
                <= dpi->Some_0 <= 600 ==> d == dpi->Some_0),
            _ => r is Ok,
        },
{
    reveal_strlit("merged");
    reveal_strlit("compressed");
    reveal_strlit("encrypted");
    reveal_strlit("decrypted");
    reveal_strlit("deleted");
    reveal_strlit("extracted");
    reveal_strlit("rotated");
    reveal_strlit("reordered");
    reveal_strlit("watermarked");
}

/// Decides the work of `req`: its output paths, its defaults, or its
/// refusal before any work.
pub fn plan_request(req: Request) -> (r: Result<Job, String>)
    ensures
        planned(req, r),
{
    match req {
        Request::Merge { paths } => {
            match check_merge_inputs(paths.len()) {
                Err(m) => Err(m),
                Ok(()) => {
                    let output = operation_output(Operation::Merge, paths[0].as_str());
                    Ok(Job::Merge { inputs: paths, output })
                },
            }
        },
        Request::Split { path, ranges } => {
            let outputs = split_outputs(path.as_str(), ranges.len());
            Ok(Job::Split { input: path, ranges, outputs })
        },
        Request::Compress { path, quality } => {
            let output = operation_output(Operation::Compress, path.as_str());
            Ok(Job::Compress { input: path, output, quality })
        },
        Request::Encrypt { path, password } => {
            let output = operation_output(Operation::Encrypt, path.as_str());
            Ok(Job::Encrypt { input: path, output, password })
        },
        Request::Decrypt { path, password } => {
            let output = operation_output(Operation::Decrypt, path.as_str());
            Ok(Job::Decrypt { input: path, output, password })
        },
        Request::DeletePages { path, pages } => {
            let output = operation_output(Operation::DeletePages, path.as_str());
            Ok(Job::DeletePages { input: path, output, pages })
        },
        Request::ExtractPages { path, pages } => {
            let output = operation_output(Operation::ExtractPages, path.as_str());
            Ok(Job::ExtractPages { input: path, output, pages })
        },
        Request::RotatePages { path, pages, degrees } => {
            let output = operation_output(Operation::RotatePages, path.as_str());
            Ok(Job::RotatePages { input: path, output, pages, degrees })
        },
        Request::ReorderPages { path, order } => {
            let output = operation_output(Operation::ReorderPages, path.as_str());
            Ok(Job::ReorderPages { input: path, output, order })
        },
        Request::PdfToImages { path, dpi } => Ok(Job::Export { input: path, dpi: export_dpi(dpi) }),
        Request::ImagesToPdf { paths, output_name } => {
            match check_image_inputs(paths.len()) {
                Err(m) => Err(m),
                Ok(()) => {
                    let output = combined_images_output(paths[0].as_str(), output_name);
                    Ok(Job::Combine { images: paths, output })
                },
            }
        },
        Request::AddWatermark { path, text } => {
            let output = operation_output(Operation::AddWatermark, path.as_str());
            Ok(Job::Watermark { input: path, output, text })
        },
        Request::GetPageCount { path } => Ok(Job::CountPages { input: path }),
        Request::GetPageThumbnails { path } => Ok(Job::Thumbnails { input: path }),
        Request::RenderPage { path, page, dpi } => Ok(
            Job::Render { input: path, page, dpi: reading_dpi(dpi) },
        ),
        Request::LoadAnnotations { path } => Ok(Job::LoadAnnotations { input: path }),
        Request::SaveAnnotations { path } => Ok(Job::SaveAnnotations { input: path }),
        Request::RevealInFinder { path } => Ok(Job::Reveal { path }),
        Request::PickFiles { kind, multiple } => {
            let (filter_name, extensions) = picker_filter(kind.as_str());
            Ok(Job::Pick { filter_name, extensions, multiple })
        },
    }
}

/// `outcome` is of the kind the work of `job` gives back: an error fits
/// every job, an export gives images, a page count a count, thumbnails
/// thumbnails, a render a page, loading annotations the annotations, a
/// file picker the picked paths, and every other job `Written`.
pub open spec fn fits<A>(job: Job, outcome: Result<Outcome<A>, String>) -> bool {
    match outcome {
        Err(_) => true,
        Ok(o) => match job {
            Job::Export { .. } => o is Images,
            Job::CountPages { .. } => o is Count,
            Job::Thumbnails { .. } => o is Thumbnails,
            Job::Render { .. } => o is Page,
            Job::LoadAnnotations { .. } => o is Annotations,
            Job::Pick { .. } => o is Paths,
            _ => o is Written,
        },
    }
}

/// `r` reports success: `output` was written, with `message`.
pub open spec fn done<A>(r: IpcResponse<A>, output: Seq<char>, message: Seq<char>) -> bool {
    r matches IpcResponse::Done { output: o, message: Some(m) } && o@ == output && m@ == message
}

/// The reply to `job` once its work gave back `outcome`.
pub open spec fn finished<A>(job: Job, outcome: Result<Outcome<A>, String>, r: IpcResponse<A>) -> bool {
    match outcome {
        Err(m) => r == IpcResponse::<A>::Error { message: m },
        Ok(o) => match job {
            Job::Merge { output, .. } => done(r, output@, success_text(Operation::Merge, 0)),
            Job::Split { input, outputs, .. } => done(
                r,
                parent_or_self(input@),
                count_text("Split into "@, outputs@.len(), " file(s)."@),
            ),
            Job::Compress { output, .. } => done(r, output@, success_text(Operation::Compress, 0)),
            Job::Encrypt { output, .. } => done(r, output@, success_text(Operation::Encrypt, 0)),
            Job::Decrypt { output, .. } => done(r, output@, success_text(Operation::Decrypt, 0)),
            Job::DeletePages { output, pages, .. } => done(
                r,
                output@,
                success_text(Operation::DeletePages, pages@.len()),
            ),
            Job::ExtractPages { output, pages, .. } => done(
                r,
                output@,
                success_text(Operation::ExtractPages, pages@.len()),
            ),
            Job::RotatePages { output, .. } => done(r, output@, success_text(Operation::RotatePages, 0)),
            Job::ReorderPages { output, .. } => done(
                r,
                output@,
                success_text(Operation::ReorderPages, 0),
            ),
            Job::Export { input, .. } => o matches Outcome::Images(paths) ==> done(
                r,
                if paths@.len() > 0 {
                    parent_or_self(paths@[0]@)
                } else {
                    parent_or_self(input@)
                },
                count_text("Exported "@, paths@.len(), " image(s)."@),
            ),
            Job::Combine { images, output } => done(
                r,
                output@,
                count_text("Combined "@, images@.len(), " image(s) into a PDF."@),
            ),
            Job::Watermark { output, .. } => done(r, output@, success_text(Operation::AddWatermark, 0)),
            Job::CountPages { .. } => o matches Outcome::Count(c) ==> r == IpcResponse::<A>::PageCount {
                count: c,
            },
            Job::Thumbnails { .. } => o matches Outcome::Thumbnails(t) ==> r
                == IpcResponse::<A>::Thumbnails { pages: t },
            Job::Render { .. } => o matches Outcome::Page(u) ==> r == IpcResponse::<A>::Page {
                data_url: u,
            },
            Job::LoadAnnotations { .. } => o matches Outcome::Annotations(a) ==> r
                == IpcResponse::<A>::Annotations { pages: a },
            Job::SaveAnnotations { input } => done(r, input@, "Annotations saved."@),
            Job::Reveal { path } => r matches IpcResponse::Done { output, message: None } && output@
                == path@,
            Job::Pick { .. } => o matches Outcome::Paths(p) ==> r == IpcResponse::<A>::Paths {
                paths: p,
            },
        },
    }
}

fn done_reply<A>(output: String, message: String) -> (r: IpcResponse<A>)
    ensures
        done(r, output@, message@),
{
    IpcResponse::Done { output, message: Some(message) }
}

/// The reply to `job` once its work gave back `outcome`: the error's
/// message, or what the job produced with its message.
pub fn finish<A>(job: Job, outcome: Result<Outcome<A>, String>) -> (r: IpcResponse<A>)
    requires
        fits(job, outcome),
    ensures
        finished(job, outcome, r),
{
    let o = match outcome {
        Err(m) => {
            return IpcResponse::Error { message: m };
        },
        Ok(o) => o,
    };
    match job {
        Job::Merge { output, .. } => done_reply(output, success_message(Operation::Merge, 0)),
        Job::Split { input, outputs, .. } => done_reply(
            split_reply_dir(input.as_str()),
            split_message(outputs.len()),
        ),
        Job::Compress { output, .. } => done_reply(output, success_message(Operation::Compress, 0)),
        Job::Encrypt { output, .. } => done_reply(output, success_message(Operation::Encrypt, 0)),
        Job::Decrypt { output, .. } => done_reply(output, success_message(Operation::Decrypt, 0)),
        Job::DeletePages { output, pages, .. } => done_reply(
            output,
            success_message(Operation::DeletePages, pages.len()),
        ),
        Job::ExtractPages { output, pages, .. } => done_reply(
            output,
            success_message(Operation::ExtractPages, pages.len()),
        ),
        Job::RotatePages { output, .. } => done_reply(
            output,
            success_message(Operation::RotatePages, 0),
        ),
        Job::ReorderPages { output, .. } => done_reply(
            output,
            success_message(Operation::ReorderPages, 0),
        ),
        Job::Export { input, .. } => match o {
            Outcome::Images(paths) => done_reply(
                export_reply_dir(paths.as_slice(), input.as_str()),
                export_message(paths.len()),
            ),
            _ => {
                proof {
                    assert(false);
                }
                IpcResponse::Paths { paths: Vec::new() }
            },
        },
        Job::Combine { images, output } => done_reply(output, combine_message(images.len())),
        Job::Watermark { output, .. } => done_reply(
            output,
            success_message(Operation::AddWatermark, 0),
        ),
        Job::CountPages { .. } => match o {
            Outcome::Count(c) => IpcResponse::PageCount { count: c },
            _ => {
                proof {
                    assert(false);
                }
                IpcResponse::Paths { paths: Vec::new() }
            },
        },
        Job::Thumbnails { .. } => match o {
            Outcome::Thumbnails(t) => IpcResponse::Thumbnails { pages: t },
            _ => {
                proof {
                    assert(false);
                }
                IpcResponse::Paths { paths: Vec::new() }
            },
        },
        Job::Render { .. } => match o {
            Outcome::Page(u) => IpcResponse::Page { data_url: u },
            _ => {
                proof {
                    assert(false);
                }
                IpcResponse::Paths { paths: Vec::new() }
            },
        },
        Job::LoadAnnotations { .. } => match o {
            Outcome::Annotations(a) => IpcResponse::Annotations { pages: a },
            _ => {
                proof {
                    assert(false);
                }
                IpcResponse::Paths { paths: Vec::new() }
            },
        },
        Job::SaveAnnotations { input } => done_reply(input, annotations_saved_message()),
        Job::Reveal { path } => IpcResponse::Done { output: path, message: None },
        Job::Pick { .. } => match o {
            Outcome::Paths(p) => IpcResponse::Paths { paths: p },
            _ => {
                proof {
                    assert(false);
                }
                IpcResponse::Paths { paths: Vec::new() }
            },
        },
    }
}

} // verus!
