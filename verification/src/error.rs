//! Errors of PDF booklet processing.
use vstd::prelude::*;

verus! {

/// Error types that can occur during PDF booklet processing.
///
/// Paths are carried as the text that names them.
#[derive(Debug, Clone, PartialEq, Eq)]
pub enum PdfError {
    /// A required external dependency is missing
    MissingDependency(String),
    /// Input file was not found
    FileNotFound(String),
    /// Invalid page count returned from PDF
    InvalidPageCount(String),
    /// External subprocess failed
    SubprocessFailed(String),
    /// Invalid bleed value
    InvalidBleed(i32),
    /// Invalid signature size
    InvalidSignatureSize(usize),
    /// Negative signature size
    NegativeSignatureSize(i32),
    /// Output file was not created
    OutputNotCreated(String),
    /// I/O error, by its message
    Io(String),
    /// Page count is not divisible by signature size
    PageCountMismatch(usize, usize),
}

/// A `PdfError` with each text taken as its characters.
pub enum PdfErrorModel {
    MissingDependency(Seq<char>),
    FileNotFound(Seq<char>),
    InvalidPageCount(Seq<char>),
    SubprocessFailed(Seq<char>),
    InvalidBleed(i32),
    InvalidSignatureSize(usize),
    NegativeSignatureSize(i32),
    OutputNotCreated(Seq<char>),
    Io(Seq<char>),
    PageCountMismatch(usize, usize),
}

impl View for PdfError {
    type V = PdfErrorModel;

    open spec fn view(&self) -> PdfErrorModel {
        match self {
            PdfError::MissingDependency(s) => PdfErrorModel::MissingDependency(s@),
            PdfError::FileNotFound(s) => PdfErrorModel::FileNotFound(s@),
            PdfError::InvalidPageCount(s) => PdfErrorModel::InvalidPageCount(s@),
            PdfError::SubprocessFailed(s) => PdfErrorModel::SubprocessFailed(s@),
            PdfError::InvalidBleed(b) => PdfErrorModel::InvalidBleed(*b),
            PdfError::InvalidSignatureSize(n) => PdfErrorModel::InvalidSignatureSize(*n),
            PdfError::NegativeSignatureSize(n) => PdfErrorModel::NegativeSignatureSize(*n),
            PdfError::OutputNotCreated(s) => PdfErrorModel::OutputNotCreated(s@),
            PdfError::Io(s) => PdfErrorModel::Io(s@),
            PdfError::PageCountMismatch(a, b) => PdfErrorModel::PageCountMismatch(*a, *b),
        }
    }
}

/// A result whose error is read through its model.
pub open spec fn result_model<T>(r: Result<T, PdfError>) -> Result<T, PdfErrorModel> {
    match r {
        Ok(v) => Ok(v),
        Err(e) => Err(e@),
    }
}

} // verus!
