# booklet_imposition

Verified planning logic for turning a PDF into printable booklets, with optional
bleed and signatures (sections) for traditional bookbinding.

- `src/` is the library, verified with Verus:
  - `calculator`: which imposed PDF pages to print for each signature, and the
    printed report of them;
  - `cli`: the command-line arguments and their validation;
  - `error`: the error type and its model;
  - `process`: judging runs of external programs, pdfbook2 version detection;
  - `pipeline`: the commands each phase runs (pdfcrop, ghostscript, pdfbook2)
    and how each outcome is judged;
  - `workflow`: the run itself as a state machine (`start_run`, `next_step`)
    with the law that a fully successful run is the README's sequence, plus
    required tools, output file names and the closing report;
  - `text`, `paths`: decimal text, white space, trimming, integer parsing,
    substring search, and path handling through `std::path`.
- `app/` is the command-line program: argument parsing (clap), error messages
  (thiserror), performing the steps the library decides (running the external
  programs, touching the file system, printing progress).
  Invoked as `signature-pages` it prints the signature page lists.
- `tests/` exercises the library.
