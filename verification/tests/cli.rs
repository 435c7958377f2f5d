use booklet_imposition::cli::Cli;
use booklet_imposition::error::PdfError;

#[test]
fn test_validate_missing_file() {
    let cli = Cli {
        input: "/nonexistent/file.pdf".to_string(),
        paper: "a4paper".to_string(),
        bleed: 0,
        signature: 0,
    };

    let result = cli.validate();
    assert!(result.is_err());
    assert!(matches!(result.unwrap_err(), PdfError::FileNotFound(_)));
}

#[test]
fn test_validate_negative_bleed() {
    let cli = Cli {
        input: "test.pdf".to_string(),
        paper: "a4paper".to_string(),
        bleed: -5,
        signature: 0,
    };

    let result = cli.validate_arguments(true);
    assert!(result.is_err());
    assert!(matches!(result.unwrap_err(), PdfError::InvalidBleed(-5)));
}

#[test]
fn test_validate_invalid_signature_size() {
    let cli = Cli {
        input: "test.pdf".to_string(),
        paper: "a4paper".to_string(),
        bleed: 0,
        signature: 10, // Not divisible by 4
    };

    let result = cli.validate_arguments(true);
    assert!(result.is_err());
    assert!(matches!(
        result.unwrap_err(),
        PdfError::InvalidSignatureSize(10)
    ));
}

#[test]
fn test_validate_valid_arguments() {
    let cli = Cli {
        input: "test.pdf".to_string(),
        paper: "a4paper".to_string(),
        bleed: 9,
        signature: 16,
    };

    let result = cli.validate_arguments(true);
    assert!(result.is_ok());
}

#[test]
fn validate_existing_input_passes_file_check() {
    let cli = Cli {
        input: "/".to_string(),
        paper: "a4paper".to_string(),
        bleed: -1,
        signature: 0,
    };
    assert_eq!(cli.validate(), Err(PdfError::InvalidBleed(-1)));
}

#[test]
fn validate_missing_file_checked_before_bleed() {
    let cli = Cli {
        input: "missing.pdf".to_string(),
        paper: "a4paper".to_string(),
        bleed: -3,
        signature: 10,
    };
    assert_eq!(
        cli.validate_arguments(false),
        Err(PdfError::FileNotFound("missing.pdf".to_string()))
    );
}

#[test]
fn validate_bleed_checked_before_signature() {
    let cli = Cli {
        input: "a.pdf".to_string(),
        paper: "a4paper".to_string(),
        bleed: -3,
        signature: 10,
    };
    assert_eq!(cli.validate_arguments(true), Err(PdfError::InvalidBleed(-3)));
}

#[test]
fn validate_zero_signature_is_single_booklet() {
    let cli = Cli {
        input: "a.pdf".to_string(),
        paper: "letterpaper".to_string(),
        bleed: 0,
        signature: 0,
    };
    assert_eq!(cli.validate_arguments(true), Ok(()));
}
