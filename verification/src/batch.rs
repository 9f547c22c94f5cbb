//! Batch processing: which files of a directory are processed, in what
//! order, where each result goes, and how each outcome is reported.
use vstd::prelude::*;
use crate::paths::{has_pdf_extension, is_pdf_path, join_path, path_join, stem_or_empty};
use crate::text::{chars_of, push_text};

verus! {

/// The operation a batch applies.
#[derive(Debug, Clone, Copy, PartialEq, Eq, Structural)]
pub enum BatchKind {
    Compress,
    Encrypt,
    Decrypt,
    Watermark,
    /// Merge every file into one.
    MergeAll,
}

/// The suffix that marks a batch result's file name.
pub open spec fn suffix_text(kind: BatchKind) -> Seq<char> {
    match kind {
        BatchKind::Compress => "compressed"@,
        BatchKind::Encrypt => "encrypted"@,
        BatchKind::Decrypt => "decrypted"@,
        BatchKind::Watermark => "watermarked"@,
        BatchKind::MergeAll => "merged"@,
    }
}

/// The suffix that marks a batch result's file name.
pub fn op_suffix(kind: BatchKind) -> (r: &'static str)
    ensures
        r@ == suffix_text(kind),
{
    match kind {
        BatchKind::Compress => "compressed",
        BatchKind::Encrypt => "encrypted",
        BatchKind::Decrypt => "decrypted",
        BatchKind::Watermark => "watermarked",
        BatchKind::MergeAll => "merged",
    }
}

/// `a` comes strictly before `b` in text order (character by character;
/// a proper prefix comes first).
pub open spec fn text_lt(a: Seq<char>, b: Seq<char>) -> bool
    decreases a.len(),
{
    if a.len() == 0 {
        b.len() > 0
    } else if b.len() == 0 {
        false
    } else if a[0] != b[0] {
        a[0] < b[0]
    } else {
        text_lt(a.drop_first(), b.drop_first())
    }
}

proof fn lemma_text_lt_irreflexive_asym(a: Seq<char>, b: Seq<char>)
    ensures
        !(text_lt(a, b) && text_lt(b, a)),
        !text_lt(a, a),
    decreases a.len(),
{
    if a.len() > 0 && b.len() > 0 {
        lemma_text_lt_irreflexive_asym(a.drop_first(), b.drop_first());
    }
    if a.len() > 0 {
        lemma_text_lt_irreflexive_asym(a.drop_first(), a.drop_first());
    }
}

proof fn lemma_text_lt_total(a: Seq<char>, b: Seq<char>)
    ensures
        text_lt(a, b) || text_lt(b, a) || a == b,
    decreases a.len(),
{
    if a.len() > 0 && b.len() > 0 {
        lemma_text_lt_total(a.drop_first(), b.drop_first());
        if a[0] == b[0] && a.drop_first() == b.drop_first() {
            assert(a =~= seq![a[0]] + a.drop_first());
            assert(b =~= seq![b[0]] + b.drop_first());
        }
    } else if a.len() == 0 && b.len() == 0 {
        assert(a =~= b);
    }
}

proof fn lemma_text_lt_transitive(a: Seq<char>, b: Seq<char>, c: Seq<char>)
    requires
        text_lt(a, b),
        text_lt(b, c),
    ensures
        text_lt(a, c),
    decreases a.len(),
{
    if a.len() > 0 && b.len() > 0 && c.len() > 0 {
        if a[0] == b[0] && b[0] == c[0] {
            lemma_text_lt_transitive(a.drop_first(), b.drop_first(), c.drop_first());
        }
    }
}

/// Whether `a` comes strictly before `b` in text order.
pub fn text_less(a: &str, b: &str) -> (r: bool)
    ensures
        r == text_lt(a@, b@),
{
    let x = chars_of(a);
    let y = chars_of(b);
    let mut i: usize = 0;
    assert(a@.skip(0) =~= a@);
    assert(b@.skip(0) =~= b@);
    while i < x.len() && i < y.len()
        invariant
            x@ == a@,
            y@ == b@,
            i <= x@.len(),
            i <= y@.len(),
            forall|k: int| 0 <= k < i ==> x@[k] == y@[k],
            text_lt(a@, b@) == text_lt(a@.skip(i as int), b@.skip(i as int)),
        decreases x@.len() - i,
    {
        let ghost sa = a@.skip(i as int);
        let ghost sb = b@.skip(i as int);
        assert(sa[0] == x@[i as int]);
        assert(sb[0] == y@[i as int]);
        if x[i] != y[i] {
            return x[i] < y[i];
        }
        assert(sa.drop_first() =~= a@.skip(i + 1));
        assert(sb.drop_first() =~= b@.skip(i + 1));
        i = i + 1;
    }
    y.len() > i
}

/// The texts of a list of strings.
pub open spec fn texts(v: Seq<String>) -> Seq<Seq<char>> {
    v.map_values(|s: String| s@)
}

/// Every text of the list comes no later than the ones after it.
pub open spec fn sorted_texts(v: Seq<Seq<char>>) -> bool {
    forall|i: int, j: int| 0 <= i < j < v.len() ==> !text_lt(#[trigger] v[j], #[trigger] v[i])
}

/// Sorts paths into text order, keeping each path once per occurrence.
/// Paths of one directory come out in the order `Path`'s own ordering gives
/// them, since they differ only in their last component.
pub fn sort_paths(paths: Vec<String>) -> (r: Vec<String>)
    ensures
        sorted_texts(texts(r@)),
        r@.to_multiset() == paths@.to_multiset(),
{
    broadcast use vstd::multiset::group_multiset_axioms;
    let mut r: Vec<String> = Vec::new();
    let mut k: usize = 0;
    assert(r@ =~= paths@.take(0));
    while k < paths.len()
        invariant
            k <= paths@.len(),
            sorted_texts(texts(r@)),
            r@.to_multiset() == paths@.take(k as int).to_multiset(),
        decreases paths@.len() - k,
    {
        let x = paths[k].clone();
        let mut j: usize = 0;
        while j < r.len() && !text_less(x.as_str(), r[j].as_str())
            invariant
                j <= r@.len(),
                forall|m: int| 0 <= m < j ==> !text_lt(x@, #[trigger] r@[m]@),
            decreases r@.len() - j,
        {
            j = j + 1;
        }
        let ghost before = r@;
        proof {
            assert forall|m: int| j <= m < before.len() implies text_lt(x@, #[trigger] before[m]@) by {
                if j < before.len() {
                    assert(text_lt(x@, before[j as int]@));
                    if m > j {
                        assert(!text_lt(texts(before)[m], texts(before)[j as int]));
                        lemma_text_lt_total(before[m]@, before[j as int]@);
                        if before[m]@ != before[j as int]@ {
                            lemma_text_lt_transitive(x@, before[j as int]@, before[m]@);
                        }
                    }
                }
            }
        }
        r.insert(j, x);
        proof {
            assert(r@ =~= before.insert(j as int, paths@[k as int]));
            assert(paths@.take(k + 1) =~= paths@.take(k as int).push(paths@[k as int]));
            before.insert_ensures(j as int, paths@[k as int]);
            vstd::seq_lib::to_multiset_insert(before, j as int, paths@[k as int]);
            vstd::seq_lib::to_multiset_build(paths@.take(k as int), paths@[k as int]);
            let t = texts(r@);
            assert forall|a: int, b: int| 0 <= a < b < t.len() implies !text_lt(
                #[trigger] t[b],
                #[trigger] t[a],
            ) by {
                if a < j && b < j {
                    assert(t[a] == texts(before)[a] && t[b] == texts(before)[b]);
                } else if a < j && b == j {
                    assert(t[b] == x@);
                    assert(!text_lt(x@, before[a]@));
                } else if a < j && b > j {
                    assert(t[a] == texts(before)[a] && t[b] == texts(before)[b - 1]);
                } else if a == j {
                    assert(t[a] == x@);
                    assert(t[b] == before[b - 1]@);
                    assert(text_lt(x@, before[b - 1]@));
                    lemma_text_lt_irreflexive_asym(x@, before[b - 1]@);
                } else {
                    assert(t[a] == texts(before)[a - 1] && t[b] == texts(before)[b - 1]);
                }
            }
        }
        k = k + 1;
    }
    assert(paths@.take(paths@.len() as int) =~= paths@);
    r
}

/// The paths of `entries` (path, whether it is a regular file) that are
/// regular files with the extension `pdf` (any ASCII case), in order.
pub open spec fn pdf_entries(entries: Seq<(String, bool)>) -> Seq<String>
    decreases entries.len(),
{
    if entries.len() == 0 {
        Seq::empty()
    } else {
        let rest = pdf_entries(entries.drop_last());
        let e = entries.last();
        if e.1 && has_pdf_extension(e.0@) {
            rest.push(e.0)
        } else {
            rest
        }
    }
}

/// `e` is a regular file with the extension `pdf` (any ASCII case).
pub open spec fn is_pdf_file(e: (String, bool)) -> bool {
    e.1 && has_pdf_extension(e.0@)
}

/// Law of picking: every regular file with the extension `pdf` among the
/// entries is picked, and everything picked is such a file among the
/// entries; directories and other files are left out.
pub proof fn law_pdf_files_picked(entries: Seq<(String, bool)>)
    ensures
        forall|i: int| 0 <= i < entries.len() && is_pdf_file(#[trigger] entries[i]) ==> pdf_entries(
            entries,
        ).contains(entries[i].0),
        forall|k: int|
            #![trigger pdf_entries(entries)[k]]
            0 <= k < pdf_entries(entries).len() ==> exists|j: int|
            0 <= j < entries.len() && is_pdf_file(#[trigger] entries[j]) && entries[j].0 == pdf_entries(
                entries,
            )[k],
    decreases entries.len(),
{
    if entries.len() > 0 {
        let front = entries.drop_last();
        law_pdf_files_picked(front);
        let rest = pdf_entries(front);
        let e = entries.last();
        assert forall|i: int| 0 <= i < entries.len() && is_pdf_file(#[trigger] entries[i]) implies pdf_entries(
            entries,
        ).contains(entries[i].0) by {
            if i < entries.len() - 1 {
                assert(entries[i] == front[i]);
                assert(is_pdf_file(front[i]));
                let k = choose|k: int| 0 <= k < rest.len() && rest[k] == front[i].0;
                if is_pdf_file(e) {
                    assert(rest.push(e.0)[k] == rest[k]);
                }
            } else {
                assert(pdf_entries(entries) == rest.push(e.0));
                assert(rest.push(e.0)[rest.len() as int] == e.0);
            }
        }
        assert forall|k: int|
            #![trigger pdf_entries(entries)[k]]
            0 <= k < pdf_entries(entries).len() implies exists|j: int|
            0 <= j < entries.len() && is_pdf_file(#[trigger] entries[j]) && entries[j].0 == pdf_entries(
                entries,
            )[k] by {
            if k < rest.len() {
                let j = choose|j: int|
                    0 <= j < front.len() && is_pdf_file(#[trigger] front[j]) && front[j].0 == rest[k];
                assert(entries[j] == front[j]);
                if is_pdf_file(e) {
                    assert(rest.push(e.0)[k] == rest[k]);
                }
            } else {
                assert(is_pdf_file(entries[entries.len() - 1]));
            }
        }
    }
}

/// From the entries of one directory (path, whether it is a regular
/// file), picks the PDF files and puts them in text order.
pub fn select_pdfs(entries: Vec<(String, bool)>) -> (r: Vec<String>)
    ensures
        sorted_texts(texts(r@)),
        r@.to_multiset() == pdf_entries(entries@).to_multiset(),
{
    let mut picked: Vec<String> = Vec::new();
    let mut i: usize = 0;
    while i < entries.len()
        invariant
            i <= entries@.len(),
            picked@ == pdf_entries(entries@.take(i as int)),
        decreases entries@.len() - i,
    {
        assert(entries@.take(i + 1).drop_last() =~= entries@.take(i as int));
        let (path, is_file) = (&entries[i].0, entries[i].1);
        if is_file && is_pdf_path(path.as_str()) {
            picked.push(path.clone());
        }
        i = i + 1;
    }
    assert(entries@.take(entries@.len() as int) =~= entries@);
    sort_paths(picked)
}

/// One unit of batch work: process `input` into `output`.
pub struct BatchJob {
    pub input: String,
    pub output: String,
}

/// The work a batch does on the PDF files `pdfs`, found in `input_dir`:
/// nothing when there are none; one merge of all of them into
/// `output_dir/merge_name` (reported against `input_dir`); otherwise one
/// job per file, writing `output_dir/<stem>_<suffix>.pdf`.
pub open spec fn batch_plan(
    input_dir: Seq<char>,
    output_dir: Seq<char>,
    kind: BatchKind,
    merge_name: Seq<char>,
    pdfs: Seq<Seq<char>>,
) -> Seq<(Seq<char>, Seq<char>)> {
    if pdfs.len() == 0 {
        Seq::empty()
    } else if kind == BatchKind::MergeAll {
        seq![(input_dir, path_join(output_dir, merge_name))]
    } else {
        pdfs.map_values(
            |p: Seq<char>|
                (p, path_join(output_dir, stem_or_empty(p) + "_"@ + suffix_text(kind) + ".pdf"@)),
        )
    }
}

/// The inputs and outputs of a list of jobs.
pub open spec fn job_texts(jobs: Seq<BatchJob>) -> Seq<(Seq<char>, Seq<char>)> {
    jobs.map_values(|j: BatchJob| (j.input@, j.output@))
}

/// Plans a batch over the PDF files `pdfs` of `input_dir` (see
/// `batch_plan`).
pub fn plan_batch(
    input_dir: &str,
    output_dir: &str,
    kind: BatchKind,
    merge_name: &str,
    pdfs: &[String],
) -> (jobs: Vec<BatchJob>)
    ensures
        job_texts(jobs@) == batch_plan(input_dir@, output_dir@, kind, merge_name@, texts(pdfs@)),
{
    let mut jobs: Vec<BatchJob> = Vec::new();
    if pdfs.len() == 0 {
        assert(job_texts(jobs@) =~= Seq::<(Seq<char>, Seq<char>)>::empty());
        return jobs;
    }
    if kind == BatchKind::MergeAll {
        jobs.push(
            BatchJob { input: String::from_str(input_dir), output: join_path(output_dir, merge_name) },
        );
        assert(job_texts(jobs@) =~= batch_plan(
            input_dir@,
            output_dir@,
            kind,
            merge_name@,
            texts(pdfs@),
        ));
        return jobs;
    }
    let suffix = op_suffix(kind);
    let mut i: usize = 0;
    while i < pdfs.len()
        invariant
            i <= pdfs@.len(),
            kind != BatchKind::MergeAll,
            pdfs@.len() > 0,
            suffix@ == suffix_text(kind),
            job_texts(jobs@) == batch_plan(
                input_dir@,
                output_dir@,
                kind,
                merge_name@,
                texts(pdfs@),
            ).take(i as int),
        decreases pdfs@.len() - i,
    {
        let src = pdfs[i].as_str();
        let mut name = crate::paths::stem_or_empty_of(src);
        push_text(&mut name, "_");
        push_text(&mut name, suffix);
        push_text(&mut name, ".pdf");
        let out = join_path(output_dir, name.as_str());
        let ghost plan = batch_plan(input_dir@, output_dir@, kind, merge_name@, texts(pdfs@));
        assert(texts(pdfs@)[i as int] == pdfs@[i as int]@);
        assert(plan[i as int] == (src@, out@));
        let ghost prev = job_texts(jobs@);
        jobs.push(BatchJob { input: pdfs[i].clone(), output: out });
        assert(job_texts(jobs@) =~= prev.push((src@, out@)));
        assert(job_texts(jobs@) =~= batch_plan(
            input_dir@,
            output_dir@,
            kind,
            merge_name@,
            texts(pdfs@),
        ).take(i + 1));
        i = i + 1;
    }
    assert(batch_plan(input_dir@, output_dir@, kind, merge_name@, texts(pdfs@)).take(
        pdfs@.len() as int,
    ) =~= batch_plan(input_dir@, output_dir@, kind, merge_name@, texts(pdfs@)));
    jobs
}

/// Law of batches: a batch over some files plans one job per file (one job
/// in all for a merge), so every file gets a result, whatever happens to
/// the others.
pub proof fn law_one_job_per_file(
    input_dir: Seq<char>,
    output_dir: Seq<char>,
    kind: BatchKind,
    merge_name: Seq<char>,
    pdfs: Seq<Seq<char>>,
)
    ensures
        kind != BatchKind::MergeAll ==> batch_plan(
            input_dir,
            output_dir,
            kind,
            merge_name,
            pdfs,
        ).len() == pdfs.len(),
        kind != BatchKind::MergeAll ==> forall|i: int|
            0 <= i < pdfs.len() ==> #[trigger] batch_plan(
                input_dir,
                output_dir,
                kind,
                merge_name,
                pdfs,
            )[i].0 == pdfs[i],
        kind == BatchKind::MergeAll && pdfs.len() > 0 ==> batch_plan(
            input_dir,
            output_dir,
            kind,
            merge_name,
            pdfs,
        ).len() == 1,
{
}

/// The name part that marks the result of a batch kind.
pub open spec fn batch_result_marker(kind: BatchKind) -> Seq<char> {
    match kind {
        BatchKind::Compress => "_compressed.pdf"@,
        BatchKind::Encrypt => "_encrypted.pdf"@,
        BatchKind::Decrypt => "_decrypted.pdf"@,
        BatchKind::Watermark => "_watermarked.pdf"@,
        BatchKind::MergeAll => "_merged.pdf"@,
    }
}

/// Law of batch outputs: every result of a batch is written into the
/// output directory. Each file processed on its own gives
/// `<output_dir>/<stem>_compressed.pdf` (`_encrypted`, `_decrypted`,
/// `_watermarked` for the other kinds), with the file itself as input; a
/// merge writes `<output_dir>/<merge_name>`.
pub proof fn law_batch_results_in_output_dir(
    input_dir: Seq<char>,
    output_dir: Seq<char>,
    kind: BatchKind,
    merge_name: Seq<char>,
    pdfs: Seq<Seq<char>>,
)
    ensures
        kind != BatchKind::MergeAll ==> forall|i: int|
            0 <= i < pdfs.len() ==> #[trigger] batch_plan(input_dir, output_dir, kind, merge_name, pdfs)[i]
                == (pdfs[i], path_join(output_dir, stem_or_empty(pdfs[i]) + batch_result_marker(kind))),
        kind == BatchKind::MergeAll && pdfs.len() > 0 ==> batch_plan(
            input_dir,
            output_dir,
            kind,
            merge_name,
            pdfs,
        ) == seq![(input_dir, path_join(output_dir, merge_name))],
{
    reveal_strlit("_");
    reveal_strlit(".pdf");
    reveal_strlit("compressed");
    reveal_strlit("encrypted");
    reveal_strlit("decrypted");
    reveal_strlit("watermarked");
    reveal_strlit("_compressed.pdf");
    reveal_strlit("_encrypted.pdf");
    reveal_strlit("_decrypted.pdf");
    reveal_strlit("_watermarked.pdf");
    if kind != BatchKind::MergeAll {
        assert forall|i: int| 0 <= i < pdfs.len() implies #[trigger] batch_plan(
            input_dir,
            output_dir,
            kind,
            merge_name,
            pdfs,
        )[i] == (pdfs[i], path_join(output_dir, stem_or_empty(pdfs[i]) + batch_result_marker(kind))) by {
            let s = stem_or_empty(pdfs[i]);
            assert(s + "_"@ + suffix_text(kind) + ".pdf"@ =~= s + batch_result_marker(kind));
        }
    }
}

/// The outcome of one batch job.
pub struct FileResult {
    pub input: String,
    pub output: String,
    /// Why the job failed, if it did.
    pub error: Option<String>,
}

/// Reports the outcome of `job`: the error message when it failed.
pub fn file_result(job: BatchJob, outcome: Result<(), String>) -> (r: FileResult)
    ensures
        r.input == job.input,
        r.output == job.output,
        r.error is Some <==> outcome is Err,
        outcome matches Err(m) ==> r.error == Some(m),
{
    let error = match outcome {
        Ok(()) => None,
        Err(m) => Some(m),
    };
    FileResult { input: job.input, output: job.output, error }
}

} // verus!
