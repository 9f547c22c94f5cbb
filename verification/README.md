# ohpdf

A local PDF toolkit: merge, split, compress, protect, rotate, reorder,
delete or extract pages, watermark, export pages as images and combine
images into a PDF, plus sidecar annotations for a reader view.

- `src/` is the verified library (Verus): which page lists are accepted
  and in what order pages are deleted (`pages`), the write settings of
  each operation (`options`), where results are written (`paths`), how
  command-line arguments are read (`cli`), how batches are planned
  (`batch`), the replies to the desktop interface and their texts
  (`ipc`), each request of that interface planned as work and its outcome
  turned into the reply (`requests`), and how rendered pages are packaged
  (`render`).
- `app/` is the program around it: the `ohpdf-cli` command, the MuPDF
  calls that open, edit, render and save documents (page drawing and
  watermark geometry, which work in floating point, among them), file
  access, JSON annotations and the request/reply plumbing of the desktop
  interface.
- `tests/` exercises the library on concrete values.
