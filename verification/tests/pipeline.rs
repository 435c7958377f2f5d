use booklet_imposition::error::PdfError;
use booklet_imposition::pipeline::bleed::{check_bleed_run, plan_bleed, BleedStep};
use booklet_imposition::pipeline::impose::{
    after_imposition_run, check_booklet_created, check_imposition_run, imposition_command,
    legacy_output_candidate,
};
use booklet_imposition::pipeline::pad::{
    blank_pages_needed, blank_pages_postscript, check_padding_run, padded_total,
    padding_command, page_count_command, plan_padding, read_page_count, PaddingStep,
};
use booklet_imposition::pipeline::signature::{
    check_extraction_run, check_merge_run, merge_command, plan_split,
};
use booklet_imposition::process::{
    check_dependency, detect_pdfbook2_version, pdfbook2_version_from_help, run_command,
    CommandOutput, Pdfbook2Version,
};
use booklet_imposition::workflow::{
    completion_lines, imposed_signature_path, output_paths, required_tools,
};

fn ran(success: bool, stdout: &str, stderr: &str) -> Result<CommandOutput, String> {
    Ok(CommandOutput {
        success,
        status: if success { "exit status: 0".to_string() } else { "exit status: 1".to_string() },
        stdout: stdout.as_bytes().to_vec(),
        stderr: stderr.as_bytes().to_vec(),
    })
}

fn not_started() -> Result<CommandOutput, String> {
    Err("No such file or directory (os error 2)".to_string())
}

#[test]
fn bleed_plans() {
    assert!(matches!(plan_bleed("in.pdf", "out.pdf", -2), Err(PdfError::InvalidBleed(-2))));
    assert!(matches!(plan_bleed("in.pdf", "out.pdf", 0), Ok(BleedStep::CopyUnchanged)));
    match plan_bleed("in.pdf", "out.pdf", 9) {
        Ok(BleedStep::Crop(cmd)) => {
            assert_eq!(cmd.program, "pdfcrop");
            assert_eq!(cmd.args, vec!["--margins", "9 9 9 9", "in.pdf", "out.pdf"]);
        }
        _ => panic!("expected a crop"),
    }
}

#[test]
fn bleed_run_outcomes() {
    assert_eq!(
        check_bleed_run(&not_started(), "out.pdf", false),
        Err(PdfError::SubprocessFailed(
            "Failed to run pdfcrop: No such file or directory (os error 2)".to_string()
        ))
    );
    assert_eq!(
        check_bleed_run(&ran(false, "", "boom"), "out.pdf", true),
        Err(PdfError::SubprocessFailed("Failed to add bleed to PDF".to_string()))
    );
    assert_eq!(
        check_bleed_run(&ran(true, "", ""), "out.pdf", false),
        Err(PdfError::OutputNotCreated("out.pdf".to_string()))
    );
    assert_eq!(check_bleed_run(&ran(true, "", ""), "out.pdf", true), Ok(()));
}

#[test]
fn blank_pages_for_booklets_and_signatures() {
    assert_eq!(blank_pages_needed(8, 0), 0);
    assert_eq!(blank_pages_needed(9, 0), 3);
    assert_eq!(blank_pages_needed(10, 0), 2);
    assert_eq!(blank_pages_needed(11, 0), 1);
    assert_eq!(blank_pages_needed(0, 0), 0);
    assert_eq!(blank_pages_needed(20, 16), 12);
    assert_eq!(blank_pages_needed(32, 16), 0);
    assert_eq!(blank_pages_needed(33, 16), 15);
    assert_eq!(padded_total(33, 16), 48);
    assert_eq!(padded_total(5, 0), 8);
}

#[test]
fn padded_total_splits_evenly() {
    for size in [4usize, 8, 16, 32] {
        for total in 0..100usize {
            let padded = padded_total(total, size);
            assert!(plan_split("p.pdf", "sigs", size, padded).is_ok());
            assert_eq!(padded % 4, 0);
        }
    }
}

#[test]
fn page_count_reading() {
    let cmd = page_count_command("/tmp/in.pdf");
    assert_eq!(cmd.program, "gs");
    assert_eq!(
        cmd.args,
        vec!["-q", "-dNOSAFER", "-dNODISPLAY", "-c", "(/tmp/in.pdf) (r) file runpdfbegin pdfpagecount = quit"]
    );
    assert_eq!(read_page_count(&ran(true, "42\n", "")), Ok(42));
    assert_eq!(read_page_count(&ran(true, "  7  ", "")), Ok(7));
    assert_eq!(
        read_page_count(&ran(false, "42\n", "")),
        Err(PdfError::InvalidPageCount("Could not determine page count from PDF".to_string()))
    );
    assert_eq!(
        read_page_count(&ran(true, "Error: /undefined\n", "")),
        Err(PdfError::InvalidPageCount("Could not parse page count: Error: /undefined".to_string()))
    );
    assert_eq!(
        read_page_count(&not_started()),
        Err(PdfError::SubprocessFailed(
            "Failed to run ghostscript: No such file or directory (os error 2)".to_string()
        ))
    );
}

#[test]
fn padding_program() {
    assert_eq!(blank_pages_postscript(0), "");
    assert_eq!(
        blank_pages_postscript(2),
        "<</PageSize[595 842]>> setpagedevice showpage <</PageSize[595 842]>> setpagedevice showpage "
    );
    let cmd = padding_command("in.pdf", "out.pdf", 1);
    assert_eq!(cmd.program, "gs");
    assert_eq!(
        cmd.args,
        vec![
            "-q",
            "-dNOPAUSE",
            "-dBATCH",
            "-sDEVICE=pdfwrite",
            "-sOutputFile=out.pdf",
            "in.pdf",
            "-c",
            "<</PageSize[595 842]>> setpagedevice showpage ",
        ]
    );
    assert_eq!(
        check_padding_run(&ran(false, "", "bad pdf"), "out.pdf", false),
        Err(PdfError::SubprocessFailed("Failed to create padded PDF: bad pdf".to_string()))
    );
    assert_eq!(
        check_padding_run(&not_started(), "out.pdf", false),
        Err(PdfError::SubprocessFailed(
            "Failed to run ghostscript for padding: No such file or directory (os error 2)"
                .to_string()
        ))
    );
    assert_eq!(
        check_padding_run(&ran(true, "", ""), "out.pdf", false),
        Err(PdfError::OutputNotCreated("out.pdf".to_string()))
    );
}

#[test]
fn split_plan() {
    assert_eq!(
        plan_split("p.pdf", "sigs", 16, 40).err(),
        Some(PdfError::PageCountMismatch(40, 16))
    );
    let split = plan_split("p.pdf", "sigs", 16, 32).unwrap();
    assert_eq!(split.directory, "sigs");
    let plan = split.extractions;
    assert_eq!(plan.len(), 2);
    assert_eq!(plan[0].number, 1);
    assert_eq!((plan[0].first_page, plan[0].last_page), (1, 16));
    assert_eq!((plan[1].first_page, plan[1].last_page), (17, 32));
    assert_eq!(plan[1].output_path, "sigs/signature_002.pdf");
    assert_eq!(plan[1].command.program, "gs");
    assert_eq!(
        plan[1].command.args,
        vec![
            "-q",
            "-dNOPAUSE",
            "-dBATCH",
            "-sDEVICE=pdfwrite",
            "-dFirstPage=17",
            "-dLastPage=32",
            "-sOutputFile=sigs/signature_002.pdf",
            "p.pdf",
        ]
    );
    assert!(plan_split("p.pdf", "sigs", 8, 0).unwrap().extractions.is_empty());
}

#[test]
fn extraction_and_merge() {
    assert_eq!(
        check_extraction_run(3, &ran(false, "", "oops"), "s.pdf", false),
        Err(PdfError::SubprocessFailed("Failed to extract signature 3: oops".to_string()))
    );
    assert_eq!(
        check_extraction_run(3, &Err("denied".to_string()), "s.pdf", false),
        Err(PdfError::SubprocessFailed("Failed to extract signature 3: denied".to_string()))
    );
    let cmd = merge_command(&vec!["a.pdf".to_string(), "b.pdf".to_string()], "book.pdf");
    assert_eq!(cmd.program, "gs");
    assert_eq!(
        cmd.args,
        vec!["-q", "-dNOPAUSE", "-dBATCH", "-sDEVICE=pdfwrite", "-sOutputFile=book.pdf", "a.pdf", "b.pdf"]
    );
    assert_eq!(
        check_merge_run(&ran(false, "", "x"), "book.pdf", false),
        Err(PdfError::SubprocessFailed("Failed to merge signatures: x".to_string()))
    );
    assert_eq!(
        check_merge_run(&Err("e".to_string()), "book.pdf", false),
        Err(PdfError::SubprocessFailed("Failed to run ghostscript for merging: e".to_string()))
    );
    assert_eq!(check_merge_run(&ran(true, "", ""), "book.pdf", true), Ok(()));
}

#[test]
fn pdfbook2_versions() {
    assert_eq!(
        pdfbook2_version_from_help(b"usage: pdfbook2 [--outfile FILE]", b""),
        Pdfbook2Version::Modern
    );
    assert_eq!(
        pdfbook2_version_from_help(b"usage: pdfbook2 [options] file", b"--outfil"),
        Pdfbook2Version::Legacy
    );
    assert_eq!(pdfbook2_version_from_help(b"--out", b"file x"), Pdfbook2Version::Modern);
    assert_eq!(pdfbook2_version_from_help(b"x --", b"outfile"), Pdfbook2Version::Modern);
    assert_eq!(pdfbook2_version_from_help(b"", b"use --outfile"), Pdfbook2Version::Modern);
    assert_eq!(
        pdfbook2_version_from_help(b"\xff--outfile", b""),
        Pdfbook2Version::Modern
    );
    assert_eq!(detect_pdfbook2_version(&ran(false, "", "")), Ok(Pdfbook2Version::Legacy));
    assert_eq!(
        detect_pdfbook2_version(&Err("gone".to_string())),
        Err(PdfError::SubprocessFailed("Failed to run pdfbook2: gone".to_string()))
    );
}

#[test]
fn imposition() {
    let modern = imposition_command(Pdfbook2Version::Modern, "in.pdf", "out.pdf", "a4paper");
    assert_eq!(modern.program, "pdfbook2");
    assert_eq!(
        modern.args,
        vec!["--paper", "a4paper", "--no-crop", "in.pdf", "--outfile", "out.pdf"]
    );
    let legacy = imposition_command(Pdfbook2Version::Legacy, "in.pdf", "out.pdf", "letterpaper");
    assert_eq!(legacy.args, vec!["--paper", "letterpaper", "--no-crop", "in.pdf"]);
    assert_eq!(
        check_imposition_run(&ran(false, "", "no tex")),
        Err(PdfError::SubprocessFailed("pdfbook2 failed: no tex".to_string()))
    );
    assert_eq!(check_imposition_run(&ran(true, "", "")), Ok(()));
    assert_eq!(legacy_output_candidate("/docs/book_padded.pdf"), Ok("/docs/book_padded-book.pdf".to_string()));
    assert_eq!(legacy_output_candidate("x.pdf"), Ok("x-book.pdf".to_string()));
    assert_eq!(
        legacy_output_candidate("/"),
        Err(PdfError::SubprocessFailed("Invalid input filename".to_string()))
    );
    assert_eq!(check_booklet_created("b.pdf", true), Ok(()));
    assert_eq!(
        check_booklet_created("b.pdf", false),
        Err(PdfError::OutputNotCreated("b.pdf".to_string()))
    );
}

#[test]
fn dependency_checks() {
    assert_eq!(check_dependency("gs", &ran(true, "/usr/bin/gs\n", "")), Ok(()));
    assert_eq!(
        check_dependency("this-command-definitely-does-not-exist-12345", &ran(false, "", "")),
        Err(PdfError::MissingDependency(
            "this-command-definitely-does-not-exist-12345".to_string()
        ))
    );
    assert_eq!(
        check_dependency("gs", &Err("no which".to_string())),
        Err(PdfError::SubprocessFailed("Failed to run 'which': no which".to_string()))
    );
}

#[test]
fn command_runs() {
    let out = run_command("echo", ran(true, "test\n", "")).unwrap();
    assert_eq!(out.stdout, b"test\n".to_vec());
    assert_eq!(
        run_command("false", ran(false, "", "  bad things\n")).err(),
        Some(PdfError::SubprocessFailed(
            "false failed with status exit status: 1: bad things".to_string()
        ))
    );
    assert_eq!(
        run_command("nope", Err("not found".to_string())).err(),
        Some(PdfError::SubprocessFailed("Failed to execute nope: not found".to_string()))
    );
}

#[test]
fn run_files_and_tools() {
    assert_eq!(required_tools(0), vec!["gs", "pdfbook2"]);
    assert_eq!(required_tools(9), vec!["gs", "pdfbook2", "pdfcrop"]);
    let paths = output_paths("/home/u/novel.pdf").unwrap();
    assert_eq!(paths.bleed_pdf, "/home/u/novel_bleed.pdf");
    assert_eq!(paths.padded_pdf, "/home/u/novel_padded.pdf");
    assert_eq!(paths.booklet_pdf, "/home/u/novel_booklet.pdf");
    assert_eq!(paths.signature_dir, "/home/u/novel_signatures");
    let rel = output_paths("novel.pdf").unwrap();
    assert_eq!(rel.booklet_pdf, "novel_booklet.pdf");
    assert!(output_paths("/").is_err());
    assert_eq!(
        imposed_signature_path("/d/sigs", "/d/sigs/signature_001.pdf"),
        Some("/d/sigs/imposed_signature_001.pdf".to_string())
    );
    assert_eq!(imposed_signature_path("/d/sigs", "/"), None);
    assert_eq!(
        completion_lines("b.pdf", 64, 16),
        vec!["", "Done.", "  Booklet: b.pdf", "  Signatures: 4 \u{d7} 16 pages"]
    );
    assert_eq!(completion_lines("b.pdf", 64, 0), vec!["", "Done.", "  Booklet: b.pdf"]);
}

#[test]
fn padding_plans() {
    assert!(matches!(plan_padding("in.pdf", "out.pdf", 8, 0), PaddingStep::CopyUnchanged));
    assert!(matches!(plan_padding("in.pdf", "out.pdf", 32, 16), PaddingStep::CopyUnchanged));
    match plan_padding("in.pdf", "out.pdf", 10, 0) {
        PaddingStep::AddBlankPages { blank_pages, command } => {
            assert_eq!(blank_pages, 2);
            assert_eq!(command.program, "gs");
            assert_eq!(command.args[4], "-sOutputFile=out.pdf");
            assert_eq!(
                command.args[7],
                "<</PageSize[595 842]>> setpagedevice showpage <</PageSize[595 842]>> setpagedevice showpage "
            );
        }
        _ => panic!("expected blank pages"),
    }
}

#[test]
fn after_imposition() {
    assert_eq!(after_imposition_run(Pdfbook2Version::Modern, "/d/x.pdf", &ran(true, "", "")), Ok(None));
    assert_eq!(
        after_imposition_run(Pdfbook2Version::Legacy, "/d/x.pdf", &ran(true, "", "")),
        Ok(Some("/d/x-book.pdf".to_string()))
    );
    assert_eq!(
        after_imposition_run(Pdfbook2Version::Legacy, "/", &ran(true, "", "")),
        Err(PdfError::SubprocessFailed("Invalid input filename".to_string()))
    );
    assert_eq!(
        after_imposition_run(Pdfbook2Version::Legacy, "/", &ran(false, "", "no tex")),
        Err(PdfError::SubprocessFailed("pdfbook2 failed: no tex".to_string()))
    );
}
