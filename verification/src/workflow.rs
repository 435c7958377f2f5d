//! Decisions of the whole booklet run: which tools it needs, where its files
//! go, and what it reports at the end.
use vstd::prelude::*;
use vstd::string::*;
use crate::cli::{Cli, validation_outcome};
use crate::error::{PdfError, PdfErrorModel};
use crate::pipeline::pad::{blank_pages_for, lemma_padding_fits_signatures};
use crate::paths::{
    directory_and_stem, directory_text, path_file_name, path_file_name_text, path_file_stem_text,
    path_join, path_join_text,
};
use crate::pipeline::signature::{SignatureExtraction, is_extraction_at, signature_file_name, signature_output_path};
use crate::process::{concat, push_string, push_text, texts};
use crate::text::{decimal, decimal_text};

verus! {

/// The external programs a run needs: ghostscript and pdfbook2 always, pdfcrop
/// only when bleed is added.
pub open spec fn required_tool_names(bleed: int) -> Seq<Seq<char>> {
    if bleed > 0 {
        seq!["gs"@, "pdfbook2"@, "pdfcrop"@]
    } else {
        seq!["gs"@, "pdfbook2"@]
    }
}

/// The external programs a run with `bleed` points of bleed needs, in the order
/// they are checked.
pub fn required_tools(bleed: i32) -> (tools: Vec<String>)
    ensures
        texts(tools@) == required_tool_names(bleed as int),
{
    let mut tools: Vec<String> = Vec::new();
    push_text(&mut tools, "gs");
    push_text(&mut tools, "pdfbook2");
    if bleed > 0 {
        push_text(&mut tools, "pdfcrop");
    }
    assert(texts(tools@) =~= required_tool_names(bleed as int));
    tools
}

/// The files a run writes beside its input.
pub struct OutputPaths {
    /// The input with bleed added
    pub bleed_pdf: String,
    /// The padded PDF
    pub padded_pdf: String,
    /// The final booklet
    pub booklet_pdf: String,
    /// Working directory for signature files
    pub signature_dir: String,
}

/// `dir` joined with `stem` followed by `suffix`.
pub open spec fn sibling_text(dir: Seq<char>, stem: Seq<char>, suffix: Seq<char>) -> Seq<char> {
    path_join_text(dir, stem + suffix)
}

/// The files of a run, as text.
pub struct OutputPathsModel {
    pub bleed_pdf: Seq<char>,
    pub padded_pdf: Seq<char>,
    pub booklet_pdf: Seq<char>,
    pub signature_dir: Seq<char>,
}

impl View for OutputPaths {
    type V = OutputPathsModel;

    open spec fn view(&self) -> OutputPathsModel {
        OutputPathsModel {
            bleed_pdf: self.bleed_pdf@,
            padded_pdf: self.padded_pdf@,
            booklet_pdf: self.booklet_pdf@,
            signature_dir: self.signature_dir@,
        }
    }
}

/// The files of a run on `input`: `<stem>_bleed.pdf`, `<stem>_padded.pdf`,
/// `<stem>_booklet.pdf` and `<stem>_signatures` in its directory; none when
/// the input has no file stem.
pub open spec fn run_paths(input: Seq<char>) -> Option<OutputPathsModel> {
    match path_file_stem_text(input) {
        Some(stem) => {
            let dir = directory_text(input);
            Some(
                OutputPathsModel {
                    bleed_pdf: sibling_text(dir, stem, "_bleed.pdf"@),
                    padded_pdf: sibling_text(dir, stem, "_padded.pdf"@),
                    booklet_pdf: sibling_text(dir, stem, "_booklet.pdf"@),
                    signature_dir: sibling_text(dir, stem, "_signatures"@),
                },
            )
        },
        None => None,
    }
}

/// The files of a run on the input `input_path`; an input without a file stem
/// is refused as an invalid input filename.
pub fn output_paths(input_path: &str) -> (r: Result<OutputPaths, PdfError>)
    ensures
        match r {
            Ok(paths) => run_paths(input_path@) == Some(paths@),
            Err(e) => run_paths(input_path@) == None::<OutputPathsModel> && e@
                == PdfErrorModel::SubprocessFailed("Invalid input filename"@),
        },
{
    let (dir, stem) = directory_and_stem(input_path)?;
    let bleed_pdf = path_join(dir.as_str(), concat(stem.as_str(), "_bleed.pdf").as_str());
    let padded_pdf = path_join(dir.as_str(), concat(stem.as_str(), "_padded.pdf").as_str());
    let booklet_pdf = path_join(dir.as_str(), concat(stem.as_str(), "_booklet.pdf").as_str());
    let signature_dir = path_join(dir.as_str(), concat(stem.as_str(), "_signatures").as_str());
    Ok(OutputPaths { bleed_pdf, padded_pdf, booklet_pdf, signature_dir })
}

/// Where the imposed copy of the signature at `signature_path` goes:
/// `imposed_<file name>` in `signature_dir`; none when the path has no file name.
pub open spec fn imposed_path_for(signature_dir: Seq<char>, signature_path: Seq<char>) -> Option<
    Seq<char>,
> {
    match path_file_name_text(signature_path) {
        Some(name) => Some(path_join_text(signature_dir, "imposed_"@ + name)),
        None => None,
    }
}

/// Where the imposed copy of the signature at `signature_path` goes;
/// `None` when the path has no file name.
pub fn imposed_signature_path(signature_dir: &str, signature_path: &str) -> (r: Option<String>)
    ensures
        match r {
            Some(p) => imposed_path_for(signature_dir@, signature_path@) == Some(p@),
            None => imposed_path_for(signature_dir@, signature_path@) == None::<Seq<char>>,
        },
{
    match path_file_name(signature_path) {
        Some(name) => Some(path_join(signature_dir, concat("imposed_", name.as_str()).as_str())),
        None => None,
    }
}

/// The closing report of a run that wrote `booklet_path` from `total` padded
/// pages cut into signatures of `signature_size` pages (0: one booklet).
pub open spec fn completion_report(booklet_path: Seq<char>, total: nat, signature_size: nat) -> Seq<
    Seq<char>,
> {
    let head = seq![Seq::<char>::empty(), "Done."@, "  Booklet: "@ + booklet_path];
    if signature_size > 0 {
        head.push(
            "  Signatures: "@ + decimal_text(total / signature_size) + " \u{d7} "@ + decimal_text(
                signature_size,
            ) + " pages"@,
        )
    } else {
        head
    }
}

/// The lines printed when a run is done.
pub fn completion_lines(booklet_path: &str, total: usize, signature_size: usize) -> (lines: Vec<
    String,
>)
    ensures
        texts(lines@) == completion_report(booklet_path@, total as nat, signature_size as nat),
{
    let mut lines: Vec<String> = Vec::new();
    push_string(&mut lines, String::new());
    push_text(&mut lines, "Done.");
    push_string(&mut lines, concat("  Booklet: ", booklet_path));
    if signature_size > 0 {
        let num_signatures = total / signature_size;
        let mut line = concat("  Signatures: ", decimal(num_signatures).as_str());
        line.append(" \u{d7} ");
        line.append(decimal(signature_size).as_str());
        line.append(" pages");
        push_string(&mut lines, line);
    }
    assert(texts(lines@) =~= completion_report(
        booklet_path@,
        total as nat,
        signature_size as nat,
    ));
    lines
}

/// Arguments that pass validation lead to a padded page count divisible by 4,
/// as booklet imposition needs, and, with signatures, to signatures whose
/// page counts are divisible by 4 too.
pub proof fn lemma_valid_arguments_pad_to_whole_sheets(cli: Cli, total: int)
    requires
        total >= 0,
        validation_outcome(cli, true) is Ok,
    ensures
        (total + blank_pages_for(total, cli.signature as int)) % 4 == 0,
        cli.signature > 0 ==> (total + blank_pages_for(total, cli.signature as int))
            % (cli.signature as int) == 0,
        cli.signature % 4 == 0,
{
    let size = cli.signature as int;
    if size > 0 {
        lemma_padding_fits_signatures(total, size);
        let padded = total + blank_pages_for(total, size);
        let a = padded / size;
        let b = size / 4;
        assert(padded == a * size) by (nonlinear_arith)
            requires
                padded % size == 0,
                size > 0,
                a == padded / size,
        ;
        assert(padded == 4 * (a * b)) by (nonlinear_arith)
            requires
                padded == a * size,
                size == 4 * b,
        ;
    } else {
        lemma_padding_fits_signatures(total, 4);
    }
}

/// Where a run stands: the step whose outcome it waits for.
#[derive(Debug, Clone, Copy, PartialEq, Eq, Structural)]
pub enum RunState {
    /// Checking the `next`-th required tool
    CheckingTools { next: usize },
    /// Phase 1: adding bleed
    AddingBleed,
    /// Phase 2: padding; its outcome is the padded page count
    Padding,
    /// Creating the directory for signature files
    CreatingSignatureDir { total: usize },
    /// Phase 3: splitting into signatures
    Splitting { total: usize },
    /// Phase 4: imposing the signature at 0-based `index`
    ImposingSignature { total: usize, index: usize },
    /// Phase 5: merging the imposed signatures
    Merging { total: usize },
    /// Removing the directory of signature files
    RemovingSignatureDir { total: usize },
    /// Phase 3 of a single booklet: imposing the whole padded PDF
    ImposingBooklet { total: usize },
    /// Removing the PDF with bleed
    CleaningBleed { total: usize },
    /// Removing the padded PDF
    CleaningPadded { total: usize },
    /// Printing the closing report
    Reporting,
    /// The run is over
    Finished,
}

/// The next thing a run does outside the library.
pub enum RunStep {
    /// Check that the program is installed
    CheckTool(String),
    /// Phase 1: add `bleed` points of bleed to `input`, writing `output`
    AddBleed { input: String, output: String, bleed: i32 },
    /// Phase 2: pad `input` into `output` for signatures of `signature_size` pages (0: one booklet)
    PadPdf { input: String, output: String, signature_size: usize },
    /// Create the directory (and its parents)
    CreateDir(String),
    /// Phase 3: split `input` into signatures of `signature_size` pages in `output_dir`
    SplitIntoSignatures { input: String, output_dir: String, signature_size: usize, total_pages: usize },
    /// Impose `input` into the booklet `output` on `paper` sheets
    Impose { input: String, output: String, paper: String },
    /// Phase 5: merge `inputs`, in order, into `output`
    Merge { inputs: Vec<String>, output: String },
    /// Remove the directory and its contents
    RemoveDir(String),
    /// Remove the file if it exists
    RemoveFileIfPresent(String),
    /// Print these lines
    Report(Vec<String>),
    /// Nothing is left to do
    Stop,
}

/// A `RunStep` with each text taken as its characters.
pub enum RunStepModel {
    CheckTool(Seq<char>),
    AddBleed { input: Seq<char>, output: Seq<char>, bleed: i32 },
    PadPdf { input: Seq<char>, output: Seq<char>, signature_size: usize },
    CreateDir(Seq<char>),
    SplitIntoSignatures {
        input: Seq<char>,
        output_dir: Seq<char>,
        signature_size: usize,
        total_pages: usize,
    },
    Impose { input: Seq<char>, output: Seq<char>, paper: Seq<char> },
    Merge { inputs: Seq<Seq<char>>, output: Seq<char> },
    RemoveDir(Seq<char>),
    RemoveFileIfPresent(Seq<char>),
    Report(Seq<Seq<char>>),
    Stop,
}

impl View for RunStep {
    type V = RunStepModel;

    open spec fn view(&self) -> RunStepModel {
        match self {
            RunStep::CheckTool(t) => RunStepModel::CheckTool(t@),
            RunStep::AddBleed { input, output, bleed } => RunStepModel::AddBleed {
                input: input@,
                output: output@,
                bleed: *bleed,
            },
            RunStep::PadPdf { input, output, signature_size } => RunStepModel::PadPdf {
                input: input@,
                output: output@,
                signature_size: *signature_size,
            },
            RunStep::CreateDir(d) => RunStepModel::CreateDir(d@),
            RunStep::SplitIntoSignatures { input, output_dir, signature_size, total_pages } =>
                RunStepModel::SplitIntoSignatures {
                input: input@,
                output_dir: output_dir@,
                signature_size: *signature_size,
                total_pages: *total_pages,
            },
            RunStep::Impose { input, output, paper } => RunStepModel::Impose {
                input: input@,
                output: output@,
                paper: paper@,
            },
            RunStep::Merge { inputs, output } => RunStepModel::Merge {
                inputs: texts(inputs@),
                output: output@,
            },
            RunStep::RemoveDir(d) => RunStepModel::RemoveDir(d@),
            RunStep::RemoveFileIfPresent(f) => RunStepModel::RemoveFileIfPresent(f@),
            RunStep::Report(lines) => RunStepModel::Report(texts(lines@)),
            RunStep::Stop => RunStepModel::Stop,
        }
    }
}

/// What came of the step a run waited on.
pub enum StepEvent {
    /// The step succeeded
    Succeeded,
    /// Padding succeeded with this many pages
    Padded(usize),
    /// The step failed with this error
    Failed(PdfError),
}

/// A `StepEvent` with its error read through its model.
pub enum StepEventModel {
    Succeeded,
    Padded(usize),
    Failed(PdfErrorModel),
}

impl View for StepEvent {
    type V = StepEventModel;

    open spec fn view(&self) -> StepEventModel {
        match self {
            StepEvent::Succeeded => StepEventModel::Succeeded,
            StepEvent::Padded(n) => StepEventModel::Padded(*n),
            StepEvent::Failed(e) => StepEventModel::Failed(e@),
        }
    }
}

/// Number of signatures of `size` pages in `total` padded pages (none without signatures).
pub open spec fn run_signature_count(total: int, size: int) -> int {
    if size > 0 {
        total / size
    } else {
        0
    }
}

/// Where the split writes the signature at 0-based position `k`.
pub open spec fn signature_path_text(dir: Seq<char>, k: int) -> Seq<char> {
    path_join_text(dir, signature_file_name((k + 1) as nat))
}

/// Where the imposed copy of the signature at 0-based position `k` goes.
pub open spec fn imposed_path_text(dir: Seq<char>, k: int) -> Option<Seq<char>> {
    imposed_path_for(dir, signature_path_text(dir, k))
}

/// The imposed copies of the first `count` signatures, in order; none when one
/// of them has no place.
pub open spec fn imposed_paths_text(dir: Seq<char>, count: nat) -> Option<Seq<Seq<char>>>
    decreases count,
{
    if count == 0 {
        Some(Seq::empty())
    } else {
        match (imposed_paths_text(dir, (count - 1) as nat), imposed_path_text(dir, count - 1)) {
            (Some(list), Some(p)) => Some(list.push(p)),
            _ => None,
        }
    }
}

/// After the splitting or the imposition before it, impose the signature at
/// position `k`, or merge when all are imposed.
pub open spec fn impose_or_merge(cli: Cli, paths: OutputPathsModel, total: int, k: int) -> Option<
    (RunState, RunStepModel),
> {
    let dir = paths.signature_dir;
    if k < run_signature_count(total, cli.signature as int) {
        match imposed_path_text(dir, k) {
            Some(out) => Some(
                (
                    RunState::ImposingSignature { total: total as usize, index: k as usize },
                    RunStepModel::Impose {
                        input: signature_path_text(dir, k),
                        output: out,
                        paper: cli.paper@,
                    },
                ),
            ),
            None => None,
        }
    } else {
        match imposed_paths_text(dir, run_signature_count(total, cli.signature as int) as nat) {
            Some(list) => Some(
                (
                    RunState::Merging { total: total as usize },
                    RunStepModel::Merge { inputs: list, output: paths.booklet_pdf },
                ),
            ),
            None => None,
        }
    }
}

/// The state and step that follow the success of the step `state` waited on,
/// once the run's files are known; `padded` is the page count padding gave.
pub open spec fn step_after(cli: Cli, paths: OutputPathsModel, state: RunState, padded: usize) -> Option<
    (RunState, RunStepModel),
> {
    match state {
        RunState::CheckingTools { .. } => Some(
            (
                RunState::AddingBleed,
                RunStepModel::AddBleed { input: cli.input@, output: paths.bleed_pdf, bleed: cli.bleed },
            ),
        ),
        RunState::AddingBleed => Some(
            (
                RunState::Padding,
                RunStepModel::PadPdf {
                    input: paths.bleed_pdf,
                    output: paths.padded_pdf,
                    signature_size: cli.signature,
                },
            ),
        ),
        RunState::Padding => if cli.signature > 0 {
            Some(
                (
                    RunState::CreatingSignatureDir { total: padded },
                    RunStepModel::CreateDir(paths.signature_dir),
                ),
            )
        } else {
            Some(
                (
                    RunState::ImposingBooklet { total: padded },
                    RunStepModel::Impose {
                        input: paths.padded_pdf,
                        output: paths.booklet_pdf,
                        paper: cli.paper@,
                    },
                ),
            )
        },
        RunState::CreatingSignatureDir { total } => Some(
            (
                RunState::Splitting { total },
                RunStepModel::SplitIntoSignatures {
                    input: paths.padded_pdf,
                    output_dir: paths.signature_dir,
                    signature_size: cli.signature,
                    total_pages: total,
                },
            ),
        ),
        RunState::Splitting { total } => impose_or_merge(cli, paths, total as int, 0),
        RunState::ImposingSignature { total, index } => impose_or_merge(
            cli,
            paths,
            total as int,
            index + 1,
        ),
        RunState::Merging { total } => Some(
            (RunState::RemovingSignatureDir { total }, RunStepModel::RemoveDir(paths.signature_dir)),
        ),
        RunState::RemovingSignatureDir { total } => Some(
            (RunState::CleaningBleed { total }, RunStepModel::RemoveFileIfPresent(paths.bleed_pdf)),
        ),
        RunState::ImposingBooklet { total } => Some(
            (RunState::CleaningBleed { total }, RunStepModel::RemoveFileIfPresent(paths.bleed_pdf)),
        ),
        RunState::CleaningBleed { total } => Some(
            (RunState::CleaningPadded { total }, RunStepModel::RemoveFileIfPresent(paths.padded_pdf)),
        ),
        RunState::CleaningPadded { total } => Some(
            (
                RunState::Reporting,
                RunStepModel::Report(
                    completion_report(paths.booklet_pdf, total as nat, cli.signature as nat),
                ),
            ),
        ),
        RunState::Reporting => Some((RunState::Finished, RunStepModel::Stop)),
        RunState::Finished => Some((RunState::Finished, RunStepModel::Stop)),
    }
}

/// How a run goes on from `state` once its step ends with `event`: a failure
/// ends the run with its error; otherwise the next state and step, the file
/// names failing when the input has no file stem. `None` when an imposed
/// signature would have no file name.
pub open spec fn run_transition(cli: Cli, state: RunState, event: StepEventModel) -> Result<
    Option<(RunState, RunStepModel)>,
    PdfErrorModel,
> {
    match event {
        StepEventModel::Failed(e) => Err(e),
        _ => {
            let padded: usize = match event {
                StepEventModel::Padded(n) => n,
                _ => 0,
            };
            let tools = required_tool_names(cli.bleed as int);
            if state is Reporting || state is Finished {
                Ok(Some((RunState::Finished, RunStepModel::Stop)))
            } else if state matches RunState::CheckingTools { next } && next + 1 < tools.len() {
                Ok(
                    Some(
                        (
                            RunState::CheckingTools { next: (state->next + 1) as usize },
                            RunStepModel::CheckTool(tools[state->next + 1]),
                        ),
                    ),
                )
            } else {
                match run_paths(cli.input@) {
                    None => Err(PdfErrorModel::SubprocessFailed("Invalid input filename"@)),
                    Some(paths) => Ok(step_after(cli, paths, state, padded)),
                }
            }
        },
    }
}

/// A transition's result read through the models.
pub open spec fn transition_model(r: Result<Option<(RunState, RunStep)>, PdfError>) -> Result<
    Option<(RunState, RunStepModel)>,
    PdfErrorModel,
> {
    match r {
        Ok(Some((state, step))) => Ok(Some((state, step@))),
        Ok(None) => Ok(None),
        Err(e) => Err(e@),
    }
}

/// How a run starts: arguments that fail validation end it with their error
/// before anything else happens; otherwise it first checks for ghostscript.
pub open spec fn run_start(cli: Cli, input_exists: bool) -> Result<
    (RunState, RunStepModel),
    PdfErrorModel,
> {
    match validation_outcome(cli, input_exists) {
        Err(e) => Err(e),
        Ok(_) => Ok((RunState::CheckingTools { next: 0 }, RunStepModel::CheckTool("gs"@))),
    }
}

/// Starts a run on `cli`, given whether its input file exists.
pub fn start_run(cli: &Cli, input_exists: bool) -> (r: Result<(RunState, RunStep), PdfError>)
    ensures
        match r {
            Ok((state, step)) => run_start(*cli, input_exists) == Ok::<
                (RunState, RunStepModel),
                PdfErrorModel,
            >((state, step@)),
            Err(e) => run_start(*cli, input_exists) == Err::<(RunState, RunStepModel), PdfErrorModel>(
                e@,
            ),
        },
{
    cli.validate_arguments(input_exists)?;
    Ok((RunState::CheckingTools { next: 0 }, RunStep::CheckTool(String::from_str("gs"))))
}

fn imposed_path_at(dir: &str, k: usize) -> (r: Option<String>)
    requires
        k < usize::MAX,
    ensures
        match r {
            Some(p) => imposed_path_text(dir@, k as int) == Some(p@),
            None => imposed_path_text(dir@, k as int) == None::<Seq<char>>,
        },
{
    let sig = signature_output_path(dir, k + 1);
    imposed_signature_path(dir, sig.as_str())
}

fn imposed_paths_upto(dir: &str, count: usize) -> (r: Option<Vec<String>>)
    ensures
        match r {
            Some(v) => imposed_paths_text(dir@, count as nat) == Some(texts(v@)),
            None => imposed_paths_text(dir@, count as nat) == None::<Seq<Seq<char>>>,
        },
{
    let mut list: Vec<String> = Vec::new();
    let mut k: usize = 0;
    assert(texts(list@) =~= Seq::<Seq<char>>::empty());
    while k < count
        invariant
            k <= count,
            imposed_paths_text(dir@, k as nat) == Some(texts(list@)),
        decreases count - k,
    {
        match imposed_path_at(dir, k) {
            Some(p) => {
                push_string(&mut list, p);
            },
            None => {
                assert(imposed_paths_text(dir@, (k + 1) as nat) == None::<Seq<Seq<char>>>);
                proof {
                    lemma_imposed_paths_none_persists(dir@, (k + 1) as nat, count as nat);
                }
                return None;
            },
        }
        k = k + 1;
    }
    Some(list)
}

proof fn lemma_imposed_paths_none_persists(dir: Seq<char>, k: nat, count: nat)
    requires
        k <= count,
        imposed_paths_text(dir, k) == None::<Seq<Seq<char>>>,
    ensures
        imposed_paths_text(dir, count) == None::<Seq<Seq<char>>>,
    decreases count - k,
{
    if k < count {
        lemma_imposed_paths_none_persists(dir, k, (count - 1) as nat);
    }
}

fn next_imposition(cli: &Cli, paths: &OutputPaths, total: usize, k: usize) -> (r: Option<
    (RunState, RunStep),
>)
    ensures
        match r {
            Some((s, step)) => impose_or_merge(*cli, paths@, total as int, k as int) == Some(
                (s, step@),
            ),
            None => impose_or_merge(*cli, paths@, total as int, k as int) == None::<
                (RunState, RunStepModel),
            >,
        },
{
    let count = if cli.signature > 0 { total / cli.signature } else { 0 };
    let dir = paths.signature_dir.as_str();
    if k < count {
        match imposed_path_at(dir, k) {
            Some(out) => Some(
                (
                    RunState::ImposingSignature { total, index: k },
                    RunStep::Impose {
                        input: signature_output_path(dir, k + 1),
                        output: out,
                        paper: cli.paper.clone(),
                    },
                ),
            ),
            None => None,
        }
    } else {
        match imposed_paths_upto(dir, count) {
            Some(list) => Some(
                (
                    RunState::Merging { total },
                    RunStep::Merge { inputs: list, output: paths.booklet_pdf.clone() },
                ),
            ),
            None => None,
        }
    }
}

fn step_after_exec(cli: &Cli, paths: &OutputPaths, state: RunState, padded: usize) -> (r: Option<
    (RunState, RunStep),
>)
    ensures
        match r {
            Some((s, step)) => step_after(*cli, paths@, state, padded) == Some((s, step@)),
            None => step_after(*cli, paths@, state, padded) == None::<(RunState, RunStepModel)>,
        },
{
    match state {
        RunState::CheckingTools { .. } => Some(
            (
                RunState::AddingBleed,
                RunStep::AddBleed {
                    input: cli.input.clone(),
                    output: paths.bleed_pdf.clone(),
                    bleed: cli.bleed,
                },
            ),
        ),
        RunState::AddingBleed => Some(
            (
                RunState::Padding,
                RunStep::PadPdf {
                    input: paths.bleed_pdf.clone(),
                    output: paths.padded_pdf.clone(),
                    signature_size: cli.signature,
                },
            ),
        ),
        RunState::Padding => {
            if cli.signature > 0 {
                Some(
                    (
                        RunState::CreatingSignatureDir { total: padded },
                        RunStep::CreateDir(paths.signature_dir.clone()),
                    ),
                )
            } else {
                Some(
                    (
                        RunState::ImposingBooklet { total: padded },
                        RunStep::Impose {
                            input: paths.padded_pdf.clone(),
                            output: paths.booklet_pdf.clone(),
                            paper: cli.paper.clone(),
                        },
                    ),
                )
            }
        },
        RunState::CreatingSignatureDir { total } => Some(
            (
                RunState::Splitting { total },
                RunStep::SplitIntoSignatures {
                    input: paths.padded_pdf.clone(),
                    output_dir: paths.signature_dir.clone(),
                    signature_size: cli.signature,
                    total_pages: total,
                },
            ),
        ),
        RunState::Splitting { total } => next_imposition(cli, paths, total, 0),
        RunState::ImposingSignature { total, index } => {
            let count = if cli.signature > 0 { total / cli.signature } else { 0 };
            if index < count {
                next_imposition(cli, paths, total, index + 1)
            } else {
                // the position after `index` is past the last signature too
                next_imposition(cli, paths, total, count)
            }
        },
        RunState::Merging { total } => Some(
            (RunState::RemovingSignatureDir { total }, RunStep::RemoveDir(paths.signature_dir.clone())),
        ),
        RunState::RemovingSignatureDir { total } => Some(
            (RunState::CleaningBleed { total }, RunStep::RemoveFileIfPresent(paths.bleed_pdf.clone())),
        ),
        RunState::ImposingBooklet { total } => Some(
            (RunState::CleaningBleed { total }, RunStep::RemoveFileIfPresent(paths.bleed_pdf.clone())),
        ),
        RunState::CleaningBleed { total } => Some(
            (
                RunState::CleaningPadded { total },
                RunStep::RemoveFileIfPresent(paths.padded_pdf.clone()),
            ),
        ),
        RunState::CleaningPadded { total } => Some(
            (
                RunState::Reporting,
                RunStep::Report(completion_lines(paths.booklet_pdf.as_str(), total, cli.signature)),
            ),
        ),
        RunState::Reporting => Some((RunState::Finished, RunStep::Stop)),
        RunState::Finished => Some((RunState::Finished, RunStep::Stop)),
    }
}

/// Decides what a booklet run does next, once the step that `state` waited on
/// ended with `event`.
///
/// The run checks the tools, adds bleed, pads, and then either imposes the
/// padded PDF as one booklet, or creates a directory, splits into signatures,
/// imposes each and merges them; it then removes its intermediate files and
/// reports. A failed step ends the run with its error.
pub fn next_step(cli: &Cli, state: RunState, event: StepEvent) -> (r: Result<
    Option<(RunState, RunStep)>,
    PdfError,
>)
    requires
        !(state is Padding && event is Succeeded),
    ensures
        transition_model(r) == run_transition(*cli, state, event@),
{
    let padded: usize = match event {
        StepEvent::Failed(e) => {
            return Err(e);
        },
        StepEvent::Padded(n) => n,
        StepEvent::Succeeded => 0,
    };
    match state {
        RunState::Reporting | RunState::Finished => {
            return Ok(Some((RunState::Finished, RunStep::Stop)));
        },
        RunState::CheckingTools { next } => {
            let tools = required_tools(cli.bleed);
            if next < tools.len() && next + 1 < tools.len() {
                let tool = tools[next + 1].clone();
                return Ok(Some((RunState::CheckingTools { next: next + 1 }, RunStep::CheckTool(tool))));
            }
        },
        _ => {},
    }
    let paths = output_paths(cli.input.as_str())?;
    Ok(step_after_exec(cli, &paths, state, padded))
}

/// The event that reports success of the step `state` waits on, padding
/// giving `total` pages.
pub open spec fn success_event(state: RunState, total: usize) -> StepEventModel {
    if state is Padding {
        StepEventModel::Padded(total)
    } else {
        StepEventModel::Succeeded
    }
}

/// The steps a run takes after the one `state` waits on when every step
/// succeeds, at most `fuel` of them, up to and including `Stop`.
pub open spec fn steps_on_success(cli: Cli, state: RunState, total: usize, fuel: nat) -> Seq<
    RunStepModel,
>
    decreases fuel,
{
    if fuel == 0 {
        Seq::empty()
    } else {
        match run_transition(cli, state, success_event(state, total)) {
            Ok(Some((next, step))) => if step is Stop {
                seq![step]
            } else {
                seq![step] + steps_on_success(cli, next, total, (fuel - 1) as nat)
            },
            _ => Seq::empty(),
        }
    }
}

/// The whole run when every step succeeds and padding gives `total` pages.
pub open spec fn run_on_success(cli: Cli, total: usize, fuel: nat) -> Seq<RunStepModel> {
    seq![RunStepModel::CheckTool("gs"@)] + steps_on_success(
        cli,
        RunState::CheckingTools { next: 0 },
        total,
        fuel,
    )
}

/// The closing steps: remove the intermediate PDFs, report, stop.
pub open spec fn closing_steps(cli: Cli, paths: OutputPathsModel, total: usize) -> Seq<RunStepModel> {
    seq![
        RunStepModel::RemoveFileIfPresent(paths.bleed_pdf),
        RunStepModel::RemoveFileIfPresent(paths.padded_pdf),
        RunStepModel::Report(completion_report(paths.booklet_pdf, total as nat, cli.signature as nat)),
        RunStepModel::Stop,
    ]
}

/// Imposing the signatures at positions `from..count` into `imposed`, in order.
pub open spec fn imposition_steps(
    cli: Cli,
    paths: OutputPathsModel,
    imposed: Seq<Seq<char>>,
    from: int,
    count: int,
) -> Seq<RunStepModel> {
    Seq::new(
        (count - from) as nat,
        |j: int|
            RunStepModel::Impose {
                input: signature_path_text(paths.signature_dir, from + j),
                output: imposed[from + j],
                paper: cli.paper@,
            },
    )
}

/// After imposing: merge the imposed signatures in order, remove their directory, close.
pub open spec fn merge_steps(cli: Cli, paths: OutputPathsModel, total: usize, imposed: Seq<Seq<char>>) -> Seq<
    RunStepModel,
> {
    seq![
        RunStepModel::Merge { inputs: imposed, output: paths.booklet_pdf },
        RunStepModel::RemoveDir(paths.signature_dir),
    ] + closing_steps(cli, paths, total)
}

/// What a run does after padding when every step succeeds: one imposition
/// without signatures; otherwise create the signature directory, split, impose
/// each of the `total / size` signatures into its `imposed_<name>` file, merge
/// them in order into the booklet and remove the directory; then close.
pub open spec fn mode_steps(cli: Cli, paths: OutputPathsModel, total: usize, imposed: Seq<Seq<char>>) -> Seq<
    RunStepModel,
> {
    if cli.signature == 0 {
        seq![
            RunStepModel::Impose {
                input: paths.padded_pdf,
                output: paths.booklet_pdf,
                paper: cli.paper@,
            },
        ] + closing_steps(cli, paths, total)
    } else {
        seq![
            RunStepModel::CreateDir(paths.signature_dir),
            RunStepModel::SplitIntoSignatures {
                input: paths.padded_pdf,
                output_dir: paths.signature_dir,
                signature_size: cli.signature,
                total_pages: total,
            },
        ] + imposition_steps(
            cli,
            paths,
            imposed,
            0,
            run_signature_count(total as int, cli.signature as int),
        ) + merge_steps(cli, paths, total, imposed)
    }
}

/// The run of the README when every step succeeds: check the tools, add
/// bleed, pad, then single booklet mode or signature mode (`mode_steps`).
pub open spec fn readme_run(cli: Cli, paths: OutputPathsModel, total: usize, imposed: Seq<Seq<char>>) -> Seq<
    RunStepModel,
> {
    required_tool_names(cli.bleed as int).map_values(|t: Seq<char>| RunStepModel::CheckTool(t))
        + seq![
        RunStepModel::AddBleed { input: cli.input@, output: paths.bleed_pdf, bleed: cli.bleed },
        RunStepModel::PadPdf {
            input: paths.bleed_pdf,
            output: paths.padded_pdf,
            signature_size: cli.signature,
        },
    ] + mode_steps(cli, paths, total, imposed)
}

proof fn lemma_imposed_paths_at(dir: Seq<char>, count: nat, imposed: Seq<Seq<char>>, k: int)
    requires
        imposed_paths_text(dir, count) == Some(imposed),
        0 <= k < count,
    ensures
        imposed.len() == count,
        imposed_path_text(dir, k) == Some(imposed[k]),
    decreases count,
{
    let prev = imposed_paths_text(dir, (count - 1) as nat);
    let last = imposed_path_text(dir, count - 1);
    assert(prev is Some && last is Some);
    let list = prev->0;
    assert(imposed == list.push(last->0));
    if count > 1 {
        lemma_imposed_paths_len(dir, (count - 1) as nat, list);
    } else {
        assert(list.len() == 0);
    }
    if k < count - 1 {
        lemma_imposed_paths_at(dir, (count - 1) as nat, list, k);
    }
}

proof fn lemma_imposed_paths_len(dir: Seq<char>, count: nat, imposed: Seq<Seq<char>>)
    requires
        imposed_paths_text(dir, count) == Some(imposed),
    ensures
        imposed.len() == count,
    decreases count,
{
    if count > 0 {
        let list = imposed_paths_text(dir, (count - 1) as nat)->0;
        lemma_imposed_paths_len(dir, (count - 1) as nat, list);
    }
}

proof fn lemma_closing(cli: Cli, paths: OutputPathsModel, total: usize, fuel: nat)
    requires
        run_paths(cli.input@) == Some(paths),
        fuel >= 3,
    ensures
        steps_on_success(cli, RunState::CleaningBleed { total }, total, fuel) == closing_steps(
            cli,
            paths,
            total,
        ).drop_first(),
{
    let f1 = (fuel - 1) as nat;
    let f2 = (fuel - 2) as nat;
    assert(steps_on_success(cli, RunState::Reporting, total, f2) == seq![RunStepModel::Stop]);
    assert(steps_on_success(cli, RunState::CleaningPadded { total }, total, f1) =~= seq![
        RunStepModel::Report(completion_report(paths.booklet_pdf, total as nat, cli.signature as nat)),
        RunStepModel::Stop,
    ]);
    assert(steps_on_success(cli, RunState::CleaningBleed { total }, total, fuel) =~= closing_steps(
        cli,
        paths,
        total,
    ).drop_first());
}

proof fn lemma_merging(cli: Cli, paths: OutputPathsModel, total: usize, fuel: nat)
    requires
        run_paths(cli.input@) == Some(paths),
        fuel >= 5,
    ensures
        steps_on_success(cli, RunState::Merging { total }, total, fuel) == seq![
            RunStepModel::RemoveDir(paths.signature_dir),
        ] + closing_steps(cli, paths, total),
{
    let f1 = (fuel - 1) as nat;
    let f2 = (fuel - 2) as nat;
    lemma_closing(cli, paths, total, f2);
    assert(steps_on_success(cli, RunState::RemovingSignatureDir { total }, total, f1)
        =~= closing_steps(cli, paths, total));
    assert(steps_on_success(cli, RunState::Merging { total }, total, fuel) =~= seq![
        RunStepModel::RemoveDir(paths.signature_dir),
    ] + closing_steps(cli, paths, total));
}

proof fn lemma_imposing(
    cli: Cli,
    paths: OutputPathsModel,
    total: usize,
    imposed: Seq<Seq<char>>,
    i: int,
    fuel: nat,
)
    requires
        run_paths(cli.input@) == Some(paths),
        cli.signature > 0,
        imposed_paths_text(
            paths.signature_dir,
            run_signature_count(total as int, cli.signature as int) as nat,
        ) == Some(imposed),
        0 <= i < run_signature_count(total as int, cli.signature as int),
        fuel >= run_signature_count(total as int, cli.signature as int) - i + 6,
    ensures
        steps_on_success(cli, RunState::ImposingSignature { total, index: i as usize }, total, fuel)
            == imposition_steps(
            cli,
            paths,
            imposed,
            i + 1,
            run_signature_count(total as int, cli.signature as int),
        ) + merge_steps(cli, paths, total, imposed),
    decreases run_signature_count(total as int, cli.signature as int) - i,
{
    let count = run_signature_count(total as int, cli.signature as int);
    assert(0 <= count <= total) by (nonlinear_arith)
        requires
            count == total as int / cli.signature as int,
            cli.signature > 0,
            total >= 0,
    ;
    let f1 = (fuel - 1) as nat;
    let state = RunState::ImposingSignature { total, index: i as usize };
    if i + 1 < count {
        lemma_imposed_paths_at(paths.signature_dir, count as nat, imposed, i + 1);
        lemma_imposing(cli, paths, total, imposed, i + 1, f1);
        let step = RunStepModel::Impose {
            input: signature_path_text(paths.signature_dir, i + 1),
            output: imposed[i + 1],
            paper: cli.paper@,
        };
        assert(run_transition(cli, state, success_event(state, total)) == Ok::<
            Option<(RunState, RunStepModel)>,
            PdfErrorModel,
        >(Some((RunState::ImposingSignature { total, index: (i + 1) as usize }, step))));
        assert(imposition_steps(cli, paths, imposed, i + 1, count) =~= seq![step]
            + imposition_steps(cli, paths, imposed, i + 2, count));
    } else {
        lemma_merging(cli, paths, total, f1);
        assert(imposition_steps(cli, paths, imposed, i + 1, count) =~= Seq::<RunStepModel>::empty());
        assert(steps_on_success(cli, state, total, fuel) =~= merge_steps(cli, paths, total, imposed));
    }
}

proof fn lemma_signature_count_bounds(total: usize, size: usize)
    ensures
        0 <= run_signature_count(total as int, size as int) <= total,
{
    if size > 0 {
        assert(0 <= (total as int) / (size as int) <= total) by (nonlinear_arith)
            requires
                size > 0,
                total >= 0,
        ;
    }
}

proof fn lemma_after_padding(
    cli: Cli,
    paths: OutputPathsModel,
    total: usize,
    imposed: Seq<Seq<char>>,
    fuel: nat,
)
    requires
        run_paths(cli.input@) == Some(paths),
        cli.signature > 0 ==> imposed_paths_text(
            paths.signature_dir,
            run_signature_count(total as int, cli.signature as int) as nat,
        ) == Some(imposed),
        fuel >= run_signature_count(total as int, cli.signature as int) + 10,
    ensures
        steps_on_success(cli, RunState::Padding, total, fuel) == mode_steps(cli, paths, total, imposed),
{
    lemma_signature_count_bounds(total, cli.signature);
    let count = run_signature_count(total as int, cli.signature as int);
    let fi = (fuel - 1) as nat;
    if cli.signature == 0 {
        lemma_closing(cli, paths, total, (fi - 1) as nat);
        assert(steps_on_success(cli, RunState::ImposingBooklet { total }, total, fi)
            =~= closing_steps(cli, paths, total));
        assert(steps_on_success(cli, RunState::Padding, total, fuel) =~= mode_steps(
            cli,
            paths,
            total,
            imposed,
        ));
    } else {
        let fs = (fi - 1) as nat;
        let fn_ = (fs - 1) as nat;
        let split_rest = steps_on_success(cli, RunState::Splitting { total }, total, fs);
        if count == 0 {
            lemma_merging(cli, paths, total, fn_);
            lemma_imposed_paths_len(paths.signature_dir, 0, imposed);
            assert(imposition_steps(cli, paths, imposed, 0, count) =~= Seq::<RunStepModel>::empty());
            assert(split_rest =~= imposition_steps(cli, paths, imposed, 0, count) + merge_steps(
                cli,
                paths,
                total,
                imposed,
            ));
        } else {
            lemma_imposed_paths_at(paths.signature_dir, count as nat, imposed, 0);
            lemma_imposing(cli, paths, total, imposed, 0, fn_);
            let first = RunStepModel::Impose {
                input: signature_path_text(paths.signature_dir, 0),
                output: imposed[0],
                paper: cli.paper@,
            };
            assert(imposition_steps(cli, paths, imposed, 0, count) =~= seq![first]
                + imposition_steps(cli, paths, imposed, 1, count));
            assert(split_rest =~= imposition_steps(cli, paths, imposed, 0, count) + merge_steps(
                cli,
                paths,
                total,
                imposed,
            ));
        }
        let split = RunStepModel::SplitIntoSignatures {
            input: paths.padded_pdf,
            output_dir: paths.signature_dir,
            signature_size: cli.signature,
            total_pages: total,
        };
        assert(steps_on_success(cli, RunState::CreatingSignatureDir { total }, total, fi) =~= seq![
            split,
        ] + split_rest);
        assert(steps_on_success(cli, RunState::Padding, total, fuel) =~= seq![
            RunStepModel::CreateDir(paths.signature_dir),
            split,
        ] + split_rest);
        assert(steps_on_success(cli, RunState::Padding, total, fuel) =~= mode_steps(
            cli,
            paths,
            total,
            imposed,
        ));
    }
}

/// When every step succeeds, a run follows the README exactly: in single
/// booklet mode it checks the tools, adds bleed, pads, imposes the padded PDF
/// into the booklet, removes the intermediate PDFs and reports; in signature
/// mode it checks the tools, adds bleed, pads, creates the signature directory,
/// splits, imposes each of the `total / size` signatures into its
/// `imposed_<name>` file, merges them in order into the booklet, removes the
/// directory and the intermediate PDFs, and reports.
pub proof fn lemma_run_follows_readme(cli: Cli, total: usize, imposed: Seq<Seq<char>>, fuel: nat)
    requires
        run_paths(cli.input@) is Some,
        cli.signature > 0 ==> imposed_paths_text(
            run_paths(cli.input@)->0.signature_dir,
            run_signature_count(total as int, cli.signature as int) as nat,
        ) == Some(imposed),
        fuel >= run_signature_count(total as int, cli.signature as int) + 16,
    ensures
        run_on_success(cli, total, fuel) == readme_run(cli, run_paths(cli.input@)->0, total, imposed),
{
    let paths = run_paths(cli.input@)->0;
    lemma_signature_count_bounds(total, cli.signature);
    let tools = required_tool_names(cli.bleed as int);
    let prepare = seq![
        RunStepModel::AddBleed { input: cli.input@, output: paths.bleed_pdf, bleed: cli.bleed },
        RunStepModel::PadPdf {
            input: paths.bleed_pdf,
            output: paths.padded_pdf,
            signature_size: cli.signature,
        },
    ];
    let mode = mode_steps(cli, paths, total, imposed);
    if cli.bleed > 0 {
        let f = (fuel - 4) as nat;
        lemma_after_padding(cli, paths, total, imposed, f);
        assert(steps_on_success(cli, RunState::AddingBleed, total, (f + 1) as nat) =~= prepare.drop_first() + mode);
        assert(steps_on_success(cli, RunState::CheckingTools { next: 2 }, total, (f + 2) as nat) =~= prepare + mode);
        assert(steps_on_success(cli, RunState::CheckingTools { next: 1 }, total, (f + 3) as nat) =~= seq![
            RunStepModel::CheckTool("pdfcrop"@),
        ] + prepare + mode);
        assert(steps_on_success(cli, RunState::CheckingTools { next: 0 }, total, fuel) =~= seq![
            RunStepModel::CheckTool("pdfbook2"@),
            RunStepModel::CheckTool("pdfcrop"@),
        ] + prepare + mode);
    } else {
        let f = (fuel - 3) as nat;
        lemma_after_padding(cli, paths, total, imposed, f);
        assert(steps_on_success(cli, RunState::AddingBleed, total, (f + 1) as nat) =~= prepare.drop_first() + mode);
        assert(steps_on_success(cli, RunState::CheckingTools { next: 1 }, total, (f + 2) as nat) =~= prepare + mode);
        assert(steps_on_success(cli, RunState::CheckingTools { next: 0 }, total, fuel) =~= seq![
            RunStepModel::CheckTool("pdfbook2"@),
        ] + prepare + mode);
    }
    assert(tools.map_values(|t: Seq<char>| RunStepModel::CheckTool(t)) =~= seq![
        RunStepModel::CheckTool("gs"@),
    ] + (if cli.bleed > 0 {
        seq![RunStepModel::CheckTool("pdfbook2"@), RunStepModel::CheckTool("pdfcrop"@)]
    } else {
        seq![RunStepModel::CheckTool("pdfbook2"@)]
    }));
    assert(run_on_success(cli, total, fuel) =~= readme_run(cli, paths, total, imposed));
}

/// A failed step ends the run with its error, whatever the run was doing.
pub proof fn lemma_failed_step_ends_run(cli: Cli, state: RunState, e: PdfErrorModel)
    ensures
        run_transition(cli, state, StepEventModel::Failed(e)) == Err::<
            Option<(RunState, RunStepModel)>,
            PdfErrorModel,
        >(e),
{
}

/// The signature a run imposes at position `k` is the file the split wrote
/// for that position.
pub proof fn lemma_imposed_inputs_are_split_outputs(
    x: SignatureExtraction,
    k: int,
    input: Seq<char>,
    dir: Seq<char>,
    size: int,
)
    requires
        is_extraction_at(x, k, input, dir, size),
    ensures
        x.output_path@ == signature_path_text(dir, k),
{
}

/// Which signature, of how many, a run imposes in `state` (1-based), for
/// progress messages; none outside the imposition of signatures.
pub fn imposition_progress(cli: &Cli, state: RunState) -> (r: Option<(usize, usize)>)
    ensures
        match state {
            RunState::ImposingSignature { total, index } => if index < usize::MAX {
                r == Some(
                    (
                        (index + 1) as usize,
                        run_signature_count(total as int, cli.signature as int) as usize,
                    ),
                )
            } else {
                r is None
            },
            _ => r is None,
        },
{
    match state {
        RunState::ImposingSignature { total, index } => {
            if index < usize::MAX {
                let count = if cli.signature > 0 { total / cli.signature } else { 0 };
                Some((index + 1, count))
            } else {
                None
            }
        },
        _ => None,
    }
}

/// A run whose arguments pass validation, on an input with a file stem, where
/// padding `pages` pages gives `total` and every step succeeds: it starts with
/// the tool checks and follows the README (`readme_run`); its padded page count
/// is divisible by 4; with signatures of `s` pages the count is a multiple of
/// `s` and the run imposes exactly `total / s` signatures, in order.
pub proof fn lemma_valid_run_follows_readme(
    cli: Cli,
    pages: usize,
    total: usize,
    imposed: Seq<Seq<char>>,
    fuel: nat,
)
    requires
        validation_outcome(cli, true) is Ok,
        total == pages + blank_pages_for(pages as int, cli.signature as int),
        run_paths(cli.input@) is Some,
        cli.signature > 0 ==> imposed_paths_text(
            run_paths(cli.input@)->0.signature_dir,
            run_signature_count(total as int, cli.signature as int) as nat,
        ) == Some(imposed),
        fuel >= run_signature_count(total as int, cli.signature as int) + 16,
    ensures
        run_start(cli, true) == Ok::<(RunState, RunStepModel), PdfErrorModel>(
            (RunState::CheckingTools { next: 0 }, RunStepModel::CheckTool("gs"@)),
        ),
        run_on_success(cli, total, fuel) == readme_run(cli, run_paths(cli.input@)->0, total, imposed),
        total % 4 == 0,
        cli.signature > 0 ==> (total as int) % (cli.signature as int) == 0 && run_signature_count(
            total as int,
            cli.signature as int,
        ) * cli.signature == total,
        cli.signature > 0 ==> imposed.len() == run_signature_count(total as int, cli.signature as int),
{
    lemma_valid_arguments_pad_to_whole_sheets(cli, pages as int);
    lemma_run_follows_readme(cli, total, imposed, fuel);
    if cli.signature > 0 {
        let size = cli.signature as int;
        let count = run_signature_count(total as int, size);
        assert(count * size == total) by (nonlinear_arith)
            requires
                size > 0,
                count == total as int / size,
                total as int % size == 0,
        ;
        lemma_imposed_paths_len(
            run_paths(cli.input@)->0.signature_dir,
            count as nat,
            imposed,
        );
    }
}

/// A run always checks ghostscript first and pdfbook2 second, and checks
/// pdfcrop only when bleed is added, last.
pub proof fn lemma_required_tools(bleed: int)
    ensures
        required_tool_names(bleed)[0] == "gs"@,
        required_tool_names(bleed)[1] == "pdfbook2"@,
        bleed > 0 ==> required_tool_names(bleed).len() == 3 && required_tool_names(bleed)[2]
            == "pdfcrop"@,
        bleed <= 0 ==> required_tool_names(bleed).len() == 2,
{
}

} // verus!
