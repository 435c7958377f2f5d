//! Phase 1: add bleed to a PDF with pdfcrop.
//!
//! Bleed is extra content area that extends beyond the final trim size,
//! ensuring no white edges appear after cutting.
use vstd::prelude::*;
use vstd::string::*;
use crate::error::{PdfError, PdfErrorModel, result_model};
use crate::process::{
    CommandOutput, ToolCommand, check_tool_run, concat, push_string, push_text, texts,
    tool_run_outcome,
};
use crate::text::{
    IntErrorKind, decimal, decimal_text, is_decimal_digit, lemma_decimal_parses_back,
    lemma_decimal_text_digits, parse_usize_text,
};

verus! {

/// What phase 1 does for a valid bleed.
pub enum BleedStep {
    /// Bleed is 0: the input is copied unchanged to the output path
    CopyUnchanged,
    /// Bleed is positive: run pdfcrop with this command
    Crop(ToolCommand),
}

/// The margins argument of pdfcrop: the bleed on all four sides.
pub open spec fn margins_text(bleed: nat) -> Seq<char> {
    let m = decimal_text(bleed);
    m + " "@ + m + " "@ + m + " "@ + m
}

/// The arguments pdfcrop gets to add `bleed` points around every page.
pub open spec fn pdfcrop_args(input: Seq<char>, output: Seq<char>, bleed: nat) -> Seq<Seq<char>> {
    seq!["--margins"@, margins_text(bleed), input, output]
}

/// Decides how phase 1 adds `bleed_amount` points of bleed to `input_path`,
/// writing `output_path`.
pub fn plan_bleed(input_path: &str, output_path: &str, bleed_amount: i32) -> (r: Result<
    BleedStep,
    PdfError,
>)
    ensures
        bleed_amount < 0 ==> result_model(r) == Err::<BleedStep, PdfErrorModel>(
            PdfErrorModel::InvalidBleed(bleed_amount),
        ),
        bleed_amount == 0 ==> r matches Ok(BleedStep::CopyUnchanged),
        bleed_amount > 0 ==> (r matches Ok(BleedStep::Crop(cmd)) && cmd.program@ == "pdfcrop"@
            && texts(cmd.args@) == pdfcrop_args(input_path@, output_path@, bleed_amount as nat)),
{
    if bleed_amount < 0 {
        return Err(PdfError::InvalidBleed(bleed_amount));
    }
    if bleed_amount == 0 {
        return Ok(BleedStep::CopyUnchanged);
    }
    // Positive margins add bleed by expanding the page
    let m = decimal(bleed_amount as usize);
    let mut margins = concat(m.as_str(), " ");
    margins.append(m.as_str());
    margins.append(" ");
    margins.append(m.as_str());
    margins.append(" ");
    margins.append(m.as_str());
    let mut args: Vec<String> = Vec::new();
    push_text(&mut args, "--margins");
    push_string(&mut args, margins);
    push_text(&mut args, input_path);
    push_text(&mut args, output_path);
    assert(texts(args@) =~= pdfcrop_args(input_path@, output_path@, bleed_amount as nat));
    Ok(BleedStep::Crop(ToolCommand { program: String::from_str("pdfcrop"), args }))
}

/// Judges the pdfcrop run of phase 1, given whether `output_path` exists after it.
pub fn check_bleed_run(
    outcome: &Result<CommandOutput, String>,
    output_path: &str,
    output_exists: bool,
) -> (r: Result<(), PdfError>)
    ensures
        result_model(r) == tool_run_outcome(
            *outcome,
            "Failed to run pdfcrop: "@,
            "Failed to add bleed to PDF"@,
            output_path@,
            output_exists,
        ),
{
    check_tool_run(
        outcome,
        "Failed to run pdfcrop: ",
        String::from_str("Failed to add bleed to PDF"),
        output_path,
        output_exists,
    )
}


/// Each of the four margins pdfcrop gets names the bleed amount: the margins
/// argument is one number four times, separated by single spaces, and that
/// number reads back as the bleed.
pub proof fn lemma_margins_name_the_bleed(bleed: nat)
    requires
        bleed <= usize::MAX,
    ensures
        exists|m: Seq<char>|
            #[trigger] parse_usize_text(m) == Ok::<int, IntErrorKind>(bleed as int) && margins_text(
                bleed,
            ) == m + " "@ + m + " "@ + m + " "@ + m && (forall|i: int|
                0 <= i < m.len() ==> is_decimal_digit(#[trigger] m[i])),
{
    lemma_decimal_parses_back(bleed);
    lemma_decimal_text_digits(bleed);
    let m = decimal_text(bleed);
    assert(parse_usize_text(m) == Ok::<int, IntErrorKind>(bleed as int));
}

/// pdfcrop reads the given input and writes the given output, after the margins.
pub proof fn lemma_pdfcrop_args_roles(input: Seq<char>, output: Seq<char>, bleed: nat)
    ensures
        pdfcrop_args(input, output, bleed).len() == 4,
        pdfcrop_args(input, output, bleed)[0] == "--margins"@,
        pdfcrop_args(input, output, bleed)[1] == margins_text(bleed),
        pdfcrop_args(input, output, bleed)[2] == input,
        pdfcrop_args(input, output, bleed)[3] == output,
{
}

} // verus!
