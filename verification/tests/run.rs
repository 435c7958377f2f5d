use booklet_imposition::cli::Cli;
use booklet_imposition::error::PdfError;
use booklet_imposition::workflow::{
    imposition_progress, next_step, start_run, RunState, RunStep, StepEvent,
};

fn cli(input: &str, bleed: i32, signature: usize) -> Cli {
    Cli { input: input.to_string(), paper: "a4paper".to_string(), bleed, signature }
}

fn describe(step: &RunStep) -> String {
    match step {
        RunStep::CheckTool(t) => format!("check {t}"),
        RunStep::AddBleed { input, output, bleed } => format!("bleed {input} -> {output} ({bleed})"),
        RunStep::PadPdf { input, output, signature_size } => {
            format!("pad {input} -> {output} ({signature_size})")
        }
        RunStep::CreateDir(d) => format!("mkdir {d}"),
        RunStep::SplitIntoSignatures { input, output_dir, signature_size, total_pages } => {
            format!("split {input} -> {output_dir} ({signature_size}, {total_pages})")
        }
        RunStep::Impose { input, output, paper } => format!("impose {input} -> {output} ({paper})"),
        RunStep::Merge { inputs, output } => format!("merge {} -> {output}", inputs.join(" ")),
        RunStep::RemoveDir(d) => format!("rmdir {d}"),
        RunStep::RemoveFileIfPresent(f) => format!("rm {f}"),
        RunStep::Report(lines) => format!("report {}", lines.join("|")),
        RunStep::Stop => "stop".to_string(),
    }
}

/// Drives a run where every step succeeds and padding gives `total` pages.
fn succeed_all(c: &Cli, total: usize) -> Vec<String> {
    let (mut state, mut step) = start_run(c, true).unwrap();
    let mut seen = vec![describe(&step)];
    while !matches!(step, RunStep::Stop) {
        let event = if state == RunState::Padding { StepEvent::Padded(total) } else { StepEvent::Succeeded };
        let (s, st) = next_step(c, state, event).unwrap().unwrap();
        state = s;
        step = st;
        seen.push(describe(&step));
    }
    seen
}

#[test]
fn single_booklet_run() {
    let steps = succeed_all(&cli("/w/novel.pdf", 0, 0), 12);
    assert_eq!(
        steps,
        vec![
            "check gs",
            "check pdfbook2",
            "bleed /w/novel.pdf -> /w/novel_bleed.pdf (0)",
            "pad /w/novel_bleed.pdf -> /w/novel_padded.pdf (0)",
            "impose /w/novel_padded.pdf -> /w/novel_booklet.pdf (a4paper)",
            "rm /w/novel_bleed.pdf",
            "rm /w/novel_padded.pdf",
            "report |Done.|  Booklet: /w/novel_booklet.pdf",
            "stop",
        ]
    );
}

#[test]
fn signature_run() {
    let steps = succeed_all(&cli("/w/novel.pdf", 9, 16), 32);
    assert_eq!(
        steps,
        vec![
            "check gs",
            "check pdfbook2",
            "check pdfcrop",
            "bleed /w/novel.pdf -> /w/novel_bleed.pdf (9)",
            "pad /w/novel_bleed.pdf -> /w/novel_padded.pdf (16)",
            "mkdir /w/novel_signatures",
            "split /w/novel_padded.pdf -> /w/novel_signatures (16, 32)",
            "impose /w/novel_signatures/signature_001.pdf -> /w/novel_signatures/imposed_signature_001.pdf (a4paper)",
            "impose /w/novel_signatures/signature_002.pdf -> /w/novel_signatures/imposed_signature_002.pdf (a4paper)",
            "merge /w/novel_signatures/imposed_signature_001.pdf /w/novel_signatures/imposed_signature_002.pdf -> /w/novel_booklet.pdf",
            "rmdir /w/novel_signatures",
            "rm /w/novel_bleed.pdf",
            "rm /w/novel_padded.pdf",
            "report |Done.|  Booklet: /w/novel_booklet.pdf|  Signatures: 2 \u{d7} 16 pages",
            "stop",
        ]
    );
}

#[test]
fn failed_step_ends_run() {
    let c = cli("/w/novel.pdf", 0, 0);
    let err = PdfError::MissingDependency("gs".to_string());
    assert_eq!(
        next_step(&c, RunState::CheckingTools { next: 0 }, StepEvent::Failed(err.clone())).err(),
        Some(err)
    );
    let err = PdfError::OutputNotCreated("/w/novel_booklet.pdf".to_string());
    assert_eq!(
        next_step(&c, RunState::ImposingBooklet { total: 8 }, StepEvent::Failed(err.clone())).err(),
        Some(err)
    );
}

#[test]
fn invalid_input_name_after_tool_checks() {
    let c = cli("/", 0, 0);
    assert!(next_step(&c, RunState::CheckingTools { next: 0 }, StepEvent::Succeeded).is_ok());
    assert_eq!(
        next_step(&c, RunState::CheckingTools { next: 1 }, StepEvent::Succeeded).err(),
        Some(PdfError::SubprocessFailed("Invalid input filename".to_string()))
    );
}

#[test]
fn progress_of_signatures() {
    let c = cli("/w/novel.pdf", 0, 16);
    assert_eq!(
        imposition_progress(&c, RunState::ImposingSignature { total: 48, index: 1 }),
        Some((2, 3))
    );
    assert_eq!(imposition_progress(&c, RunState::ImposingBooklet { total: 48 }), None);
}

#[test]
fn invalid_arguments_end_run_before_tools() {
    assert_eq!(
        start_run(&cli("/w/novel.pdf", -1, 0), true).err(),
        Some(PdfError::InvalidBleed(-1))
    );
    assert_eq!(
        start_run(&cli("/w/novel.pdf", 0, 10), true).err(),
        Some(PdfError::InvalidSignatureSize(10))
    );
    assert_eq!(
        start_run(&cli("/w/novel.pdf", 0, 0), false).err(),
        Some(PdfError::FileNotFound("/w/novel.pdf".to_string()))
    );
    let (state, step) = start_run(&cli("/w/novel.pdf", 0, 8), true).unwrap();
    assert_eq!(state, RunState::CheckingTools { next: 0 });
    assert!(matches!(step, RunStep::CheckTool(t) if t == "gs"));
}
