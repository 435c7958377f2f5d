//! Phases 3 and 5: split a PDF into signatures and merge the imposed ones.
use vstd::prelude::*;
use vstd::string::*;
use crate::error::{PdfError, PdfErrorModel, result_model};
use crate::paths::{path_join, path_join_text};
use crate::process::{
    CommandOutput, ToolCommand, check_tool_run, concat, failure_text, failure_with_stderr,
    push_string, push_text, texts, tool_run_outcome,
};
use crate::text::{
    IntErrorKind, decimal, decimal_text, lemma_decimal_parses_back, parse_usize_text,
    zero_padded_decimal, zero_padded_decimal_text,
};

verus! {

/// How one signature is cut out of the padded PDF.
pub struct SignatureExtraction {
    /// Signature number (1-indexed)
    pub number: usize,
    /// First page of the signature in the padded PDF
    pub first_page: usize,
    /// Last page of the signature in the padded PDF
    pub last_page: usize,
    /// Where the signature PDF is written
    pub output_path: String,
    /// The ghostscript run that writes it
    pub command: ToolCommand,
}

/// File name of the signature numbered `number`: `signature_001.pdf`, ...
pub open spec fn signature_file_name(number: nat) -> Seq<char> {
    "signature_"@ + zero_padded_decimal_text(number, 3) + ".pdf"@
}

/// Arguments of the ghostscript run that copies pages `first..=last` of `input` to `output`.
pub open spec fn extraction_args(input: Seq<char>, first: nat, last: nat, output: Seq<char>) -> Seq<
    Seq<char>,
> {
    seq![
        "-q"@,
        "-dNOPAUSE"@,
        "-dBATCH"@,
        "-sDEVICE=pdfwrite"@,
        "-dFirstPage="@ + decimal_text(first),
        "-dLastPage="@ + decimal_text(last),
        "-sOutputFile="@ + output,
        input,
    ]
}

/// `x` extracts the signature at 0-based position `k` of `size` pages.
pub open spec fn is_extraction_at(
    x: SignatureExtraction,
    k: int,
    input: Seq<char>,
    output_dir: Seq<char>,
    size: int,
) -> bool {
    &&& x.number == k + 1
    &&& x.first_page == k * size + 1
    &&& x.last_page == k * size + size
    &&& x.output_path@ == path_join_text(output_dir, signature_file_name((k + 1) as nat))
    &&& x.command.program@ == "gs"@
    &&& texts(x.command.args@) == extraction_args(
        input,
        x.first_page as nat,
        x.last_page as nat,
        x.output_path@,
    )
}

/// Where the signature numbered `number` is written in `output_dir`.
pub(crate) fn signature_output_path(output_dir: &str, number: usize) -> (p: String)
    ensures
        p@ == path_join_text(output_dir@, signature_file_name(number as nat)),
{
    let mut name = concat("signature_", zero_padded_decimal(number, 3).as_str());
    name.append(".pdf");
    path_join(output_dir, name.as_str())
}

fn extraction(input_path: &str, output_dir: &str, k: usize, size: usize) -> (x:
    SignatureExtraction)
    requires
        k * size + size <= usize::MAX,
        size > 0,
    ensures
        is_extraction_at(x, k as int, input_path@, output_dir@, size as int),
{
    assert(k <= k * size) by (nonlinear_arith)
        requires
            size > 0,
    ;
    let start_page = k * size + 1;
    let end_page = k * size + size;
    let number = k + 1;
    let output_path = signature_output_path(output_dir, number);
    let mut args: Vec<String> = Vec::new();
    push_text(&mut args, "-q");
    push_text(&mut args, "-dNOPAUSE");
    push_text(&mut args, "-dBATCH");
    push_text(&mut args, "-sDEVICE=pdfwrite");
    push_string(&mut args, concat("-dFirstPage=", decimal(start_page).as_str()));
    push_string(&mut args, concat("-dLastPage=", decimal(end_page).as_str()));
    push_string(&mut args, concat("-sOutputFile=", output_path.as_str()));
    push_text(&mut args, input_path);
    let ghost out = output_path@;
    assert(texts(args@) =~= extraction_args(input_path@, start_page as nat, end_page as nat, out));
    SignatureExtraction {
        number,
        first_page: start_page,
        last_page: end_page,
        output_path,
        command: ToolCommand { program: String::from_str("gs"), args },
    }
}

/// How a PDF is split into signatures: the directory the signature PDFs go
/// into, created first, then one extraction per signature.
pub struct SignatureSplit {
    /// Directory to create (with its parents) before the extractions
    pub directory: String,
    /// The extractions, in signature order
    pub extractions: Vec<SignatureExtraction>,
}

/// Plans the split of the `total_pages`-page PDF at `input_path` into signatures
/// of `signature_size` pages each, written into `output_dir`.
///
/// A size of 0 is outside the domain: no page count is divisible by it.
pub fn plan_split(
    input_path: &str,
    output_dir: &str,
    signature_size: usize,
    total_pages: usize,
) -> (r: Result<SignatureSplit, PdfError>)
    requires
        signature_size > 0,
    ensures
        total_pages % signature_size != 0 ==> result_model(r) == Err::<
            SignatureSplit,
            PdfErrorModel,
        >(PdfErrorModel::PageCountMismatch(total_pages, signature_size)),
        total_pages % signature_size == 0 ==> (r matches Ok(split) && split.directory@
            == output_dir@ && split.extractions.len() == total_pages / signature_size && forall|
            k: int,
        |
            0 <= k < split.extractions.len() ==> is_extraction_at(
                #[trigger] split.extractions[k],
                k,
                input_path@,
                output_dir@,
                signature_size as int,
            )),
{
    if total_pages % signature_size != 0 {
        return Err(PdfError::PageCountMismatch(total_pages, signature_size));
    }
    let num_signatures = total_pages / signature_size;
    assert(num_signatures * signature_size == total_pages) by (nonlinear_arith)
        requires
            num_signatures == total_pages / signature_size,
            total_pages % signature_size == 0,
            signature_size > 0,
    ;
    let mut plan: Vec<SignatureExtraction> = Vec::with_capacity(num_signatures);
    for sig_num in 0..num_signatures
        invariant
            signature_size > 0,
            num_signatures * signature_size == total_pages,
            plan.len() == sig_num,
            forall|k: int|
                0 <= k < sig_num ==> is_extraction_at(
                    #[trigger] plan@[k],
                    k,
                    input_path@,
                    output_dir@,
                    signature_size as int,
                ),
    {
        assert(sig_num * signature_size + signature_size <= total_pages) by (nonlinear_arith)
            requires
                sig_num < num_signatures,
                num_signatures * signature_size == total_pages,
                signature_size > 0,
        ;
        plan.push(extraction(input_path, output_dir, sig_num, signature_size));
    }
    Ok(SignatureSplit { directory: String::from_str(output_dir), extractions: plan })
}

/// The signatures of a split cover pages `1..=total` without overlap: page `p`
/// lies in the signature at `(p - 1) / size` and in no other.
pub proof fn lemma_split_covers_pages(size: int, total: int, p: int)
    requires
        size > 0,
        total % size == 0,
        1 <= p <= total,
    ensures
        0 <= (p - 1) / size < total / size,
        ((p - 1) / size) * size + 1 <= p <= ((p - 1) / size) * size + size,
        forall|k: int| #![trigger k * size] 0 <= k && k * size + 1 <= p <= k * size + size ==> k == (p - 1) / size,
{
    let q = (p - 1) / size;
    assert(q * size <= p - 1 < q * size + size && 0 <= q) by (nonlinear_arith)
        requires
            size > 0,
            p >= 1,
            q == (p - 1) / size,
    ;
    assert(q < total / size) by (nonlinear_arith)
        requires
            size > 0,
            total % size == 0,
            q * size <= p - 1,
            p <= total,
    ;
    assert forall|k: int| #![trigger k * size] 0 <= k && k * size + 1 <= p <= k * size + size implies k == q by {
        assert(k == q) by (nonlinear_arith)
            requires
                size > 0,
                k * size + 1 <= p <= k * size + size,
                q * size <= p - 1 < q * size + size,
        ;
    }
}

/// Judges the ghostscript run that extracts the signature numbered `number`,
/// given whether its output exists after it.
pub fn check_extraction_run(
    number: usize,
    outcome: &Result<CommandOutput, String>,
    output_path: &str,
    output_exists: bool,
) -> (r: Result<(), PdfError>)
    ensures
        result_model(r) == tool_run_outcome(
            *outcome,
            "Failed to extract signature "@ + decimal_text(number as nat) + ": "@,
            failure_with_stderr(
                "Failed to extract signature "@ + decimal_text(number as nat) + ": "@,
                *outcome,
            ),
            output_path@,
            output_exists,
        ),
{
    let mut context = concat("Failed to extract signature ", decimal(number).as_str());
    context.append(": ");
    let failure = failure_text(context.as_str(), outcome);
    check_tool_run(outcome, context.as_str(), failure, output_path, output_exists)
}

/// The ghostscript run that merges `signature_paths`, in order, into `output_path`.
pub fn merge_command(signature_paths: &Vec<String>, output_path: &str) -> (cmd: ToolCommand)
    ensures
        cmd.program@ == "gs"@,
        texts(cmd.args@) == seq![
            "-q"@,
            "-dNOPAUSE"@,
            "-dBATCH"@,
            "-sDEVICE=pdfwrite"@,
            "-sOutputFile="@ + output_path@,
        ] + texts(signature_paths@),
{
    let mut args: Vec<String> = Vec::new();
    push_text(&mut args, "-q");
    push_text(&mut args, "-dNOPAUSE");
    push_text(&mut args, "-dBATCH");
    push_text(&mut args, "-sDEVICE=pdfwrite");
    push_string(&mut args, concat("-sOutputFile=", output_path));
    let ghost head = texts(args@);
    for i in 0..signature_paths.len()
        invariant
            texts(args@) == head + texts(signature_paths@).take(i as int),
    {
        push_text(&mut args, signature_paths[i].as_str());
        assert(texts(signature_paths@).take(i + 1) =~= texts(signature_paths@).take(i as int).push(
            signature_paths@[i as int]@,
        ));
        assert(texts(args@) =~= head + texts(signature_paths@).take(i + 1));
    }
    assert(texts(signature_paths@).take(signature_paths.len() as int) =~= texts(signature_paths@));
    ToolCommand { program: String::from_str("gs"), args }
}

/// Judges the ghostscript run that merges the signatures, given whether
/// `output_path` exists after it.
pub fn check_merge_run(
    outcome: &Result<CommandOutput, String>,
    output_path: &str,
    output_exists: bool,
) -> (r: Result<(), PdfError>)
    ensures
        result_model(r) == tool_run_outcome(
            *outcome,
            "Failed to run ghostscript for merging: "@,
            failure_with_stderr("Failed to merge signatures: "@, *outcome),
            output_path@,
            output_exists,
        ),
{
    let failure = failure_text("Failed to merge signatures: ", outcome);
    check_tool_run(
        outcome,
        "Failed to run ghostscript for merging: ",
        failure,
        output_path,
        output_exists,
    )
}


/// Every extraction reads the given input file, writes its own output path,
/// and copies exactly its page range: the page numbers it passes read back as
/// the first and last page of the signature.
pub proof fn lemma_extraction_reads_input(
    x: SignatureExtraction,
    k: int,
    input: Seq<char>,
    output_dir: Seq<char>,
    size: int,
)
    requires
        is_extraction_at(x, k, input, output_dir, size),
    ensures
        texts(x.command.args@).len() == 8,
        texts(x.command.args@).last() == input,
        texts(x.command.args@)[6] == "-sOutputFile="@ + x.output_path@,
        exists|m: Seq<char>|
            #[trigger] parse_usize_text(m) == Ok::<int, IntErrorKind>(x.first_page as int)
                && texts(x.command.args@)[4] == "-dFirstPage="@ + m,
        exists|m: Seq<char>|
            #[trigger] parse_usize_text(m) == Ok::<int, IntErrorKind>(x.last_page as int)
                && texts(x.command.args@)[5] == "-dLastPage="@ + m,
{
    lemma_decimal_parses_back(x.first_page as nat);
    lemma_decimal_parses_back(x.last_page as nat);
    let a = texts(x.command.args@);
    assert(a[4] == "-dFirstPage="@ + decimal_text(x.first_page as nat));
    assert(a[5] == "-dLastPage="@ + decimal_text(x.last_page as nat));
    assert(parse_usize_text(decimal_text(x.first_page as nat)) == Ok::<int, IntErrorKind>(
        x.first_page as int,
    ));
    assert(parse_usize_text(decimal_text(x.last_page as nat)) == Ok::<int, IntErrorKind>(
        x.last_page as int,
    ));
}

/// The merge reads the imposed signatures in the given order, after its output.
pub proof fn lemma_merge_args_roles(paths: Seq<String>, output: Seq<char>)
    ensures
        (seq![
            "-q"@,
            "-dNOPAUSE"@,
            "-dBATCH"@,
            "-sDEVICE=pdfwrite"@,
            "-sOutputFile="@ + output,
        ] + texts(paths)).subrange(5, 5 + paths.len() as int) == texts(paths),
{
    assert((seq![
        "-q"@,
        "-dNOPAUSE"@,
        "-dBATCH"@,
        "-sDEVICE=pdfwrite"@,
        "-sOutputFile="@ + output,
    ] + texts(paths)).subrange(5, 5 + paths.len() as int) =~= texts(paths));
}

} // verus!
