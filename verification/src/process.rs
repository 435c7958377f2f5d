//! Decisions around the external tools: whether a tool is installed, whether a
//! run failed, and which pdfbook2 is installed.
//!
//! Running the tools is left to the caller, which hands back what a run gave.
use vstd::prelude::*;
use vstd::string::*;
use crate::error::{PdfError, PdfErrorModel, result_model};
use crate::text::{chars_of, contains, contains_text, decode_lossy, trim, trim_text, utf8_lossy_text};

verus! {

/// What a finished run of an external program gave back.
pub struct CommandOutput {
    /// The program exited successfully
    pub success: bool,
    /// The exit status as the platform shows it (such as "exit status: 1")
    pub status: String,
    /// Bytes written to standard output
    pub stdout: Vec<u8>,
    /// Bytes written to standard error
    pub stderr: Vec<u8>,
}

/// Version of pdfbook2 detected
#[derive(Debug, Clone, Copy, PartialEq, Eq, Structural)]
pub enum Pdfbook2Version {
    /// Modern version with --outfile support
    Modern,
    /// Legacy version without --outfile
    Legacy,
}

/// `s` followed by `t`.
pub(crate) fn concat(s: &str, t: &str) -> (r: String)
    ensures
        r@ == s@ + t@,
{
    let mut r = String::from_str(s);
    r.append(t);
    r
}

/// The help text of pdfbook2 (standard output, then standard error) mentions `--outfile`.
pub open spec fn help_mentions_outfile(stdout: Seq<u8>, stderr: Seq<u8>) -> bool {
    contains_text(utf8_lossy_text(stdout) + utf8_lossy_text(stderr), "--outfile"@)
}

/// The version of pdfbook2 that a given help text belongs to.
pub open spec fn version_of_help(stdout: Seq<u8>, stderr: Seq<u8>) -> Pdfbook2Version {
    if help_mentions_outfile(stdout, stderr) {
        Pdfbook2Version::Modern
    } else {
        Pdfbook2Version::Legacy
    }
}

/// Tells the pdfbook2 version from the output of `pdfbook2 --help`: modern
/// versions mention `--outfile`.
pub fn pdfbook2_version_from_help(stdout: &[u8], stderr: &[u8]) -> (v: Pdfbook2Version)
    ensures
        v == version_of_help(stdout@, stderr@),
{
    let mut combined = decode_lossy(stdout);
    let err_text = decode_lossy(stderr);
    combined.append(err_text.as_str());
    let haystack = chars_of(combined.as_str());
    let needle = chars_of("--outfile");
    if contains(&haystack, &needle) {
        Pdfbook2Version::Modern
    } else {
        Pdfbook2Version::Legacy
    }
}

/// Detects which version of pdfbook2 is installed from the run of `pdfbook2 --help`
/// (`Err` holds the reason the program could not be started).
pub fn detect_pdfbook2_version(help: &Result<CommandOutput, String>) -> (r: Result<
    Pdfbook2Version,
    PdfError,
>)
    ensures
        match help {
            Err(e) => result_model(r) == Err::<Pdfbook2Version, PdfErrorModel>(
                PdfErrorModel::SubprocessFailed("Failed to run pdfbook2: "@ + e@),
            ),
            Ok(out) => r == Ok::<Pdfbook2Version, PdfError>(
                version_of_help(out.stdout@, out.stderr@),
            ),
        },
{
    match help {
        Err(e) => Err(PdfError::SubprocessFailed(concat("Failed to run pdfbook2: ", e.as_str()))),
        Ok(out) => Ok(pdfbook2_version_from_help(out.stdout.as_slice(), out.stderr.as_slice())),
    }
}

/// Whether `cmd` is installed, from the run of `which cmd`
/// (`Err` holds the reason `which` could not be started).
pub fn check_dependency(cmd: &str, which: &Result<CommandOutput, String>) -> (r: Result<
    (),
    PdfError,
>)
    ensures
        result_model(r) == match which {
            Err(e) => Err(PdfErrorModel::SubprocessFailed("Failed to run 'which': "@ + e@)),
            Ok(out) => if out.success {
                Ok(())
            } else {
                Err(PdfErrorModel::MissingDependency(cmd@))
            },
        },
{
    match which {
        Err(e) => Err(PdfError::SubprocessFailed(concat("Failed to run 'which': ", e.as_str()))),
        Ok(out) => {
            if out.success {
                Ok(())
            } else {
                Err(PdfError::MissingDependency(String::from_str(cmd)))
            }
        },
    }
}

/// The message for a run of `program` that exited with a failure status.
pub open spec fn failed_run_message(program: Seq<char>, status: Seq<char>, stderr: Seq<u8>) -> Seq<
    char,
> {
    program + " failed with status "@ + status + ": "@ + trim_text(utf8_lossy_text(stderr))
}

/// Accepts the run of `program` if it started and exited successfully.
pub fn run_command(program: &str, outcome: Result<CommandOutput, String>) -> (r: Result<
    CommandOutput,
    PdfError,
>)
    ensures
        match outcome {
            Err(e) => result_model(r) == Err::<CommandOutput, PdfErrorModel>(
                PdfErrorModel::SubprocessFailed("Failed to execute "@ + program@ + ": "@ + e@),
            ),
            Ok(out) => if out.success {
                r == Ok::<CommandOutput, PdfError>(out)
            } else {
                result_model(r) == Err::<CommandOutput, PdfErrorModel>(
                    PdfErrorModel::SubprocessFailed(
                        failed_run_message(program@, out.status@, out.stderr@),
                    ),
                )
            },
        },
{
    match outcome {
        Err(e) => {
            let mut msg = concat("Failed to execute ", program);
            msg.append(": ");
            msg.append(e.as_str());
            Err(PdfError::SubprocessFailed(msg))
        },
        Ok(out) => {
            if !out.success {
                let stderr = decode_lossy(out.stderr.as_slice());
                let mut msg = concat(program, " failed with status ");
                msg.append(out.status.as_str());
                msg.append(": ");
                let trimmed = trim(stderr.as_str());
                msg.append(trimmed.as_str());
                return Err(PdfError::SubprocessFailed(msg));
            }
            Ok(out)
        },
    }
}


/// A run of an external program: the program and its arguments.
pub struct ToolCommand {
    /// Program to run
    pub program: String,
    /// Its arguments, in order
    pub args: Vec<String>,
}

/// A list of texts read as their characters.
pub open spec fn texts(v: Seq<String>) -> Seq<Seq<char>> {
    v.map_values(|s: String| s@)
}

/// Appends the text `s` to `v`.
pub(crate) fn push_text(v: &mut Vec<String>, s: &str)
    ensures
        texts(final(v)@) == texts(old(v)@).push(s@),
{
    v.push(String::from_str(s));
    assert(texts(v@) =~= texts(old(v)@).push(s@));
}

/// Appends the text `s` to `v`, taking it.
pub(crate) fn push_string(v: &mut Vec<String>, s: String)
    ensures
        texts(final(v)@) == texts(old(v)@).push(s@),
{
    let ghost sv = s@;
    v.push(s);
    assert(texts(v@) =~= texts(old(v)@).push(sv));
}

/// The outcome of a run that must start, exit successfully and leave `output`
/// behind: a start failure is reported as `spawn_context` followed by the
/// reason, a failure status by `failure`.
pub open spec fn tool_run_outcome(
    outcome: Result<CommandOutput, String>,
    spawn_context: Seq<char>,
    failure: Seq<char>,
    output: Seq<char>,
    output_exists: bool,
) -> Result<(), PdfErrorModel> {
    match outcome {
        Err(e) => Err(PdfErrorModel::SubprocessFailed(spawn_context + e@)),
        Ok(out) => if !out.success {
            Err(PdfErrorModel::SubprocessFailed(failure))
        } else if !output_exists {
            Err(PdfErrorModel::OutputNotCreated(output))
        } else {
            Ok(())
        },
    }
}

/// Checks a run that must start, succeed and leave `output` behind.
pub(crate) fn check_tool_run(
    outcome: &Result<CommandOutput, String>,
    spawn_context: &str,
    failure: String,
    output: &str,
    output_exists: bool,
) -> (r: Result<(), PdfError>)
    ensures
        result_model(r) == tool_run_outcome(
            *outcome,
            spawn_context@,
            failure@,
            output@,
            output_exists,
        ),
{
    match outcome {
        Err(e) => Err(PdfError::SubprocessFailed(concat(spawn_context, e.as_str()))),
        Ok(out) => {
            if !out.success {
                Err(PdfError::SubprocessFailed(failure))
            } else if !output_exists {
                Err(PdfError::OutputNotCreated(String::from_str(output)))
            } else {
                Ok(())
            }
        },
    }
}

/// `context` followed by the standard error of a failed run, as
/// `String::from_utf8_lossy` reads it.
pub open spec fn failure_with_stderr(context: Seq<char>, outcome: Result<CommandOutput, String>) -> Seq<
    char,
> {
    match outcome {
        Ok(out) => context + utf8_lossy_text(out.stderr@),
        Err(_) => context,
    }
}

/// Builds `context` followed by the standard error of the run.
pub(crate) fn failure_text(context: &str, outcome: &Result<CommandOutput, String>) -> (s: String)
    ensures
        s@ == failure_with_stderr(context@, *outcome),
{
    match outcome {
        Ok(out) => {
            let stderr = decode_lossy(out.stderr.as_slice());
            concat(context, stderr.as_str())
        },
        Err(_) => String::from_str(context),
    }
}

} // verus!
