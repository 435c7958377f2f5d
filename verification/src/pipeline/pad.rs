//! Phase 2: pad a PDF so its page count suits binding.
//!
//! Booklet printing needs a page count divisible by 4 (each folded sheet holds
//! four pages); with signatures, the page count must be divisible by the
//! signature size.
use vstd::prelude::*;
use vstd::string::*;
use crate::error::{PdfError, PdfErrorModel, result_model};
use crate::process::{
    CommandOutput, ToolCommand, check_tool_run, concat, failure_text, failure_with_stderr,
    push_string, push_text, texts, tool_run_outcome,
};
use crate::text::{decode_lossy, parse_usize, parse_usize_text, trim, trim_text, utf8_lossy_text};

verus! {

/// The number the padded page count must be a multiple of.
pub open spec fn page_multiple(signature_size: int) -> int {
    if signature_size > 0 {
        signature_size
    } else {
        4
    }
}

/// Blank pages to append to `total` pages.
pub open spec fn blank_pages_for(total: int, signature_size: int) -> int {
    let m = page_multiple(signature_size);
    (m - total % m) % m
}

proof fn lemma_blank_pages(total: int, m: int)
    requires
        total >= 0,
        m > 0,
    ensures
        0 <= (m - total % m) % m < m,
        (total + (m - total % m) % m) % m == 0,
        forall|k: int| 0 <= k < (m - total % m) % m ==> #[trigger] ((total + k) % m) != 0,
{
    let r = total % m;
    let q = total / m;
    assert(total == q * m + r && 0 <= r < m) by (nonlinear_arith)
        requires
            m > 0,
            r == total % m,
            q == total / m,
    ;
    if r == 0 {
        assert((m - r) % m == 0) by (nonlinear_arith)
            requires
                m > 0,
                r == 0,
        ;
        assert((total + 0) % m == 0);
    } else {
        assert((m - r) % m == m - r) by (nonlinear_arith)
            requires
                0 < r < m,
        ;
        assert((total + (m - r)) % m == 0) by (nonlinear_arith)
            requires
                total == q * m + r,
                0 < r < m,
        ;
        assert forall|k: int| 0 <= k < m - r implies #[trigger] ((total + k) % m) != 0 by {
            assert((total + k) % m == r + k) by (nonlinear_arith)
                requires
                    total == q * m + r,
                    0 < r,
                    0 <= k < m - r,
            ;
        }
    }
}

/// After padding for signatures of `signature_size` pages, the page count
/// divides evenly into signatures, so the split never reports a mismatch.
pub proof fn lemma_padding_fits_signatures(total: int, signature_size: int)
    requires
        total >= 0,
        signature_size > 0,
    ensures
        (total + blank_pages_for(total, signature_size)) % signature_size == 0,
{
    lemma_blank_pages(total, signature_size);
}

/// The number of blank pages that make `total` a multiple of 4, or of
/// `signature_size` when it is not 0.
pub fn blank_pages_needed(total: usize, signature_size: usize) -> (n: usize)
    ensures
        n == blank_pages_for(total as int, signature_size as int),
        n < page_multiple(signature_size as int),
        (total + n) % page_multiple(signature_size as int) == 0,
        forall|k: int|
            0 <= k < n ==> #[trigger] ((total + k) % page_multiple(signature_size as int)) != 0,
{
    proof {
        lemma_blank_pages(total as int, page_multiple(signature_size as int));
    }
    if signature_size > 0 {
        // Each signature must have exactly signature_size pages
        (signature_size - (total % signature_size)) % signature_size
    } else {
        // (4 - (total % 4)) % 4 blank pages: 0 to 3
        (4 - (total % 4)) % 4
    }
}

/// What phase 2 does once the page count is known.
pub enum PaddingStep {
    /// No blank page is needed: the input is copied unchanged to the output path
    CopyUnchanged,
    /// Run ghostscript with this command to append `blank_pages` blank pages
    AddBlankPages { blank_pages: usize, command: ToolCommand },
}

/// Decides how phase 2 pads the `total`-page PDF at `input_path` into `output_path`.
pub fn plan_padding(input_path: &str, output_path: &str, total: usize, signature_size: usize) -> (r:
    PaddingStep)
    ensures
        blank_pages_for(total as int, signature_size as int) == 0 ==> r is CopyUnchanged,
        blank_pages_for(total as int, signature_size as int) != 0 ==> (r matches PaddingStep::AddBlankPages {
            blank_pages,
            command,
        } && blank_pages == blank_pages_for(total as int, signature_size as int)
            && command.program@ == "gs"@ && texts(command.args@) == padding_args(
            input_path@,
            output_path@,
            blank_pages as nat,
        )),
{
    let to_add = blank_pages_needed(total, signature_size);
    if to_add == 0 {
        PaddingStep::CopyUnchanged
    } else {
        PaddingStep::AddBlankPages {
            blank_pages: to_add,
            command: padding_command(input_path, output_path, to_add),
        }
    }
}

/// The page count after padding.
pub fn padded_total(total: usize, signature_size: usize) -> (n: usize)
    requires
        total + blank_pages_for(total as int, signature_size as int) <= usize::MAX,
    ensures
        n == total + blank_pages_for(total as int, signature_size as int),
{
    total + blank_pages_needed(total, signature_size)
}

/// The PostScript program ghostscript runs to count the pages of `input`.
pub open spec fn page_count_program(input: Seq<char>) -> Seq<char> {
    "("@ + input + ") (r) file runpdfbegin pdfpagecount = quit"@
}

/// The ghostscript run that prints the page count of `input_path`.
pub fn page_count_command(input_path: &str) -> (cmd: ToolCommand)
    ensures
        cmd.program@ == "gs"@,
        texts(cmd.args@) == seq![
            "-q"@,
            "-dNOSAFER"@,
            "-dNODISPLAY"@,
            "-c"@,
            page_count_program(input_path@),
        ],
{
    let mut program = concat("(", input_path);
    program.append(") (r) file runpdfbegin pdfpagecount = quit");
    let mut args: Vec<String> = Vec::new();
    push_text(&mut args, "-q");
    push_text(&mut args, "-dNOSAFER");
    push_text(&mut args, "-dNODISPLAY");
    push_text(&mut args, "-c");
    push_string(&mut args, program);
    assert(texts(args@) =~= seq![
        "-q"@,
        "-dNOSAFER"@,
        "-dNODISPLAY"@,
        "-c"@,
        page_count_program(input_path@),
    ]);
    ToolCommand { program: String::from_str("gs"), args }
}

/// What the page-count run of ghostscript tells: the count it printed, or why
/// there is none.
pub open spec fn page_count_outcome(outcome: Result<CommandOutput, String>) -> Result<
    int,
    PdfErrorModel,
> {
    match outcome {
        Err(e) => Err(PdfErrorModel::SubprocessFailed("Failed to run ghostscript: "@ + e@)),
        Ok(out) => if !out.success {
            Err(PdfErrorModel::InvalidPageCount("Could not determine page count from PDF"@))
        } else {
            let text = trim_text(utf8_lossy_text(out.stdout@));
            match parse_usize_text(text) {
                Ok(n) => Ok(n),
                Err(_) => Err(PdfErrorModel::InvalidPageCount("Could not parse page count: "@ + text)),
            }
        },
    }
}

/// Reads the page count from the run of `page_count_command`.
pub fn read_page_count(outcome: &Result<CommandOutput, String>) -> (r: Result<usize, PdfError>)
    ensures
        match r {
            Ok(n) => page_count_outcome(*outcome) == Ok::<int, PdfErrorModel>(n as int),
            Err(e) => page_count_outcome(*outcome) == Err::<int, PdfErrorModel>(e@),
        },
{
    match outcome {
        Err(e) => Err(PdfError::SubprocessFailed(concat("Failed to run ghostscript: ", e.as_str()))),
        Ok(out) => {
            if !out.success {
                return Err(
                    PdfError::InvalidPageCount(
                        String::from_str("Could not determine page count from PDF"),
                    ),
                );
            }
            let stdout = decode_lossy(out.stdout.as_slice());
            let total_str = trim(stdout.as_str());
            match parse_usize(total_str.as_str()) {
                Ok(n) => Ok(n),
                Err(_) => Err(
                    PdfError::InvalidPageCount(
                        concat("Could not parse page count: ", total_str.as_str()),
                    ),
                ),
            }
        },
    }
}

/// `s` written `count` times in a row.
pub open spec fn repeat_text(s: Seq<char>, count: nat) -> Seq<char>
    decreases count,
{
    if count == 0 {
        Seq::empty()
    } else {
        repeat_text(s, (count - 1) as nat) + s
    }
}

/// PostScript that adds one blank A4 page.
pub open spec fn blank_page_text() -> Seq<char> {
    "<</PageSize[595 842]>> setpagedevice showpage "@
}

/// PostScript that adds `count` blank A4 pages.
pub fn blank_pages_postscript(count: usize) -> (s: String)
    ensures
        s@ == repeat_text(blank_page_text(), count as nat),
{
    let mut s = String::new();
    let mut i: usize = 0;
    while i < count
        invariant
            i <= count,
            s@ == repeat_text(blank_page_text(), i as nat),
        decreases count - i,
    {
        s.append("<</PageSize[595 842]>> setpagedevice showpage ");
        i = i + 1;
    }
    s
}

/// Arguments of the ghostscript run that writes `output` from `input` and
/// `blank_pages` blank pages.
pub open spec fn padding_args(input: Seq<char>, output: Seq<char>, blank_pages: nat) -> Seq<Seq<char>> {
    seq![
        "-q"@,
        "-dNOPAUSE"@,
        "-dBATCH"@,
        "-sDEVICE=pdfwrite"@,
        "-sOutputFile="@ + output,
        input,
        "-c"@,
        repeat_text(blank_page_text(), blank_pages),
    ]
}

/// The ghostscript run that writes `output_path`: `input_path` followed by
/// `blank_pages` blank pages.
pub fn padding_command(input_path: &str, output_path: &str, blank_pages: usize) -> (cmd:
    ToolCommand)
    ensures
        cmd.program@ == "gs"@,
        texts(cmd.args@) == padding_args(input_path@, output_path@, blank_pages as nat),
{
    let mut args: Vec<String> = Vec::new();
    push_text(&mut args, "-q");
    push_text(&mut args, "-dNOPAUSE");
    push_text(&mut args, "-dBATCH");
    push_text(&mut args, "-sDEVICE=pdfwrite");
    push_string(&mut args, concat("-sOutputFile=", output_path));
    push_text(&mut args, input_path);
    push_text(&mut args, "-c");
    push_string(&mut args, blank_pages_postscript(blank_pages));
    assert(texts(args@) =~= padding_args(input_path@, output_path@, blank_pages as nat));
    ToolCommand { program: String::from_str("gs"), args }
}

/// Judges the padding run of ghostscript, given whether `output_path` exists after it.
pub fn check_padding_run(
    outcome: &Result<CommandOutput, String>,
    output_path: &str,
    output_exists: bool,
) -> (r: Result<(), PdfError>)
    ensures
        result_model(r) == tool_run_outcome(
            *outcome,
            "Failed to run ghostscript for padding: "@,
            failure_with_stderr("Failed to create padded PDF: "@, *outcome),
            output_path@,
            output_exists,
        ),
{
    let failure = failure_text("Failed to create padded PDF: ", outcome);
    check_tool_run(
        outcome,
        "Failed to run ghostscript for padding: ",
        failure,
        output_path,
        output_exists,
    )
}


/// `repeat_text(s, n)` is `n` copies of `s` one after another: none for 0,
/// one more copy for each step up, so its length is `n` times that of `s`.
pub proof fn lemma_repeat_text_copies(s: Seq<char>, n: nat)
    ensures
        repeat_text(s, 0) == Seq::<char>::empty(),
        repeat_text(s, n + 1) == repeat_text(s, n) + s,
        repeat_text(s, n).len() == n * s.len(),
    decreases n,
{
    if n > 0 {
        lemma_repeat_text_copies(s, (n - 1) as nat);
        assert(repeat_text(s, n).len() == (n - 1) * s.len() + s.len());
        assert((n - 1) * s.len() + s.len() == n * s.len()) by (nonlinear_arith);
    }
}

/// The padding run appends exactly the planned blank pages: its PostScript
/// program is the blank-page program `blank_pages` times over, after the
/// output and input files.
pub proof fn lemma_padding_args_roles(input: Seq<char>, output: Seq<char>, blank_pages: nat)
    ensures
        padding_args(input, output, blank_pages).len() == 8,
        padding_args(input, output, blank_pages)[4] == "-sOutputFile="@ + output,
        padding_args(input, output, blank_pages)[5] == input,
        padding_args(input, output, blank_pages)[6] == "-c"@,
        padding_args(input, output, blank_pages)[7].len() == blank_pages * blank_page_text().len(),
        padding_args(input, output, blank_pages + 1)[7] == padding_args(input, output, blank_pages)[7]
            + blank_page_text(),
{
    lemma_repeat_text_copies(blank_page_text(), blank_pages);
}

/// The page-count run reads the given input file: its PostScript program opens
/// exactly that path.
pub proof fn lemma_page_count_program_reads_input(input: Seq<char>)
    ensures
        page_count_program(input).subrange(1, input.len() + 1int) == input,
        page_count_program(input)[0] == '(',
{
    reveal_strlit("(");
    assert(page_count_program(input).subrange(1, input.len() + 1int) =~= input);
}

} // verus!
