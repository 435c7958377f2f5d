//! Phase 4: booklet imposition with pdfbook2.
//!
//! Pages are reordered so that, printed on both sides and folded, they appear
//! in sequence.
use vstd::prelude::*;
use vstd::string::*;
use crate::error::{PdfError, PdfErrorModel, result_model};
use crate::paths::{directory_and_stem, directory_text, path_file_stem_text, path_join, path_join_text};
use crate::process::{
    CommandOutput, Pdfbook2Version, ToolCommand, concat, failure_text, failure_with_stderr,
    push_text, texts,
};

verus! {

/// Arguments of pdfbook2 for the given version: modern versions are told the
/// output file, legacy ones choose it themselves.
pub open spec fn imposition_args(
    version: Pdfbook2Version,
    input: Seq<char>,
    output: Seq<char>,
    paper: Seq<char>,
) -> Seq<Seq<char>> {
    match version {
        Pdfbook2Version::Modern => seq![
            "--paper"@,
            paper,
            "--no-crop"@,
            input,
            "--outfile"@,
            output,
        ],
        Pdfbook2Version::Legacy => seq!["--paper"@, paper, "--no-crop"@, input],
    }
}

/// The pdfbook2 run that imposes `input_path` on `paper_size` sheets.
pub fn imposition_command(
    version: Pdfbook2Version,
    input_path: &str,
    output_path: &str,
    paper_size: &str,
) -> (cmd: ToolCommand)
    ensures
        cmd.program@ == "pdfbook2"@,
        texts(cmd.args@) == imposition_args(version, input_path@, output_path@, paper_size@),
{
    let mut args: Vec<String> = Vec::new();
    push_text(&mut args, "--paper");
    push_text(&mut args, paper_size);
    push_text(&mut args, "--no-crop");
    push_text(&mut args, input_path);
    match version {
        Pdfbook2Version::Modern => {
            push_text(&mut args, "--outfile");
            push_text(&mut args, output_path);
        },
        Pdfbook2Version::Legacy => {},
    }
    assert(texts(args@) =~= imposition_args(version, input_path@, output_path@, paper_size@));
    ToolCommand { program: String::from_str("pdfbook2"), args }
}

/// What the pdfbook2 run tells: whether it started and succeeded.
pub open spec fn imposition_run_outcome(outcome: Result<CommandOutput, String>) -> Result<
    (),
    PdfErrorModel,
> {
    match outcome {
        Err(e) => Err(PdfErrorModel::SubprocessFailed("Failed to run pdfbook2: "@ + e@)),
        Ok(out) => if !out.success {
            Err(PdfErrorModel::SubprocessFailed(failure_with_stderr("pdfbook2 failed: "@, outcome)))
        } else {
            Ok(())
        },
    }
}

/// Judges the pdfbook2 run.
pub fn check_imposition_run(outcome: &Result<CommandOutput, String>) -> (r: Result<(), PdfError>)
    ensures
        result_model(r) == imposition_run_outcome(*outcome),
{
    match outcome {
        Err(e) => Err(PdfError::SubprocessFailed(concat("Failed to run pdfbook2: ", e.as_str()))),
        Ok(out) => {
            if !out.success {
                Err(PdfError::SubprocessFailed(failure_text("pdfbook2 failed: ", outcome)))
            } else {
                Ok(())
            }
        },
    }
}

/// Where legacy pdfbook2 writes the booklet of `input`: `<stem>-book.pdf`
/// beside it.
pub fn legacy_output_candidate(input_path: &str) -> (r: Result<String, PdfError>)
    ensures
        match r {
            Ok(p) => exists|stem: Seq<char>|
                path_file_stem_text(input_path@) == Some(stem) && p@ == path_join_text(
                    directory_text(input_path@),
                    stem + "-book.pdf"@,
                ),
            Err(e) => path_file_stem_text(input_path@) == None::<Seq<char>> && e@
                == PdfErrorModel::SubprocessFailed("Invalid input filename"@),
        },
{
    let (dir, stem) = directory_and_stem(input_path)?;
    let name = concat(stem.as_str(), "-book.pdf");
    Ok(path_join(dir.as_str(), name.as_str()))
}

/// Where legacy pdfbook2 writes the booklet of `input`; none when the input
/// has no file stem.
pub open spec fn legacy_candidate_text(input: Seq<char>) -> Option<Seq<char>> {
    match path_file_stem_text(input) {
        Some(stem) => Some(path_join_text(directory_text(input), stem + "-book.pdf"@)),
        None => None,
    }
}

/// What follows the pdfbook2 run: its failure first; then, for legacy
/// pdfbook2, the file to rename to the booklet's path (an input without a file
/// stem failing as an invalid input filename); nothing to rename for modern
/// pdfbook2.
pub open spec fn imposition_finish(
    version: Pdfbook2Version,
    input: Seq<char>,
    outcome: Result<CommandOutput, String>,
) -> Result<Option<Seq<char>>, PdfErrorModel> {
    match imposition_run_outcome(outcome) {
        Err(e) => Err(e),
        Ok(_) => match version {
            Pdfbook2Version::Modern => Ok(None),
            Pdfbook2Version::Legacy => match legacy_candidate_text(input) {
                Some(p) => Ok(Some(p)),
                None => Err(PdfErrorModel::SubprocessFailed("Invalid input filename"@)),
            },
        },
    }
}

/// Judges the pdfbook2 run of `input_path` and, when it succeeded, names the
/// file legacy pdfbook2 left behind, to be renamed to the booklet's path when it
/// exists.
pub fn after_imposition_run(
    version: Pdfbook2Version,
    input_path: &str,
    outcome: &Result<CommandOutput, String>,
) -> (r: Result<Option<String>, PdfError>)
    ensures
        match r {
            Ok(Some(p)) => imposition_finish(version, input_path@, *outcome) == Ok::<
                Option<Seq<char>>,
                PdfErrorModel,
            >(Some(p@)),
            Ok(None) => imposition_finish(version, input_path@, *outcome) == Ok::<
                Option<Seq<char>>,
                PdfErrorModel,
            >(None),
            Err(e) => imposition_finish(version, input_path@, *outcome) == Err::<
                Option<Seq<char>>,
                PdfErrorModel,
            >(e@),
        },
{
    check_imposition_run(outcome)?;
    match version {
        Pdfbook2Version::Modern => Ok(None),
        Pdfbook2Version::Legacy => {
            let candidate = legacy_output_candidate(input_path)?;
            Ok(Some(candidate))
        },
    }
}

/// The booklet was created when its output file exists.
pub fn check_booklet_created(output_path: &str, output_exists: bool) -> (r: Result<(), PdfError>)
    ensures
        output_exists ==> r is Ok,
        !output_exists ==> result_model(r) == Err::<(), PdfErrorModel>(
            PdfErrorModel::OutputNotCreated(output_path@),
        ),
{
    if output_exists {
        Ok(())
    } else {
        Err(PdfError::OutputNotCreated(String::from_str(output_path)))
    }
}


/// pdfbook2 is given the paper size and the input path itself, whatever they
/// contain; modern pdfbook2 is also told the output path, legacy pdfbook2 is not.
pub proof fn lemma_imposition_args_roles(
    version: Pdfbook2Version,
    input: Seq<char>,
    output: Seq<char>,
    paper: Seq<char>,
)
    ensures
        imposition_args(version, input, output, paper)[0] == "--paper"@,
        imposition_args(version, input, output, paper)[1] == paper,
        imposition_args(version, input, output, paper)[2] == "--no-crop"@,
        imposition_args(version, input, output, paper)[3] == input,
        version is Modern ==> imposition_args(version, input, output, paper).len() == 6
            && imposition_args(version, input, output, paper)[4] == "--outfile"@ && imposition_args(
            version,
            input,
            output,
            paper,
        )[5] == output,
        version is Legacy ==> imposition_args(version, input, output, paper).len() == 4,
{
}

} // verus!
