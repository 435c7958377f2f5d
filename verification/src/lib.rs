//! Planning logic for turning a PDF into printable booklets, with optional
//! bleed and signature support for traditional bookbinding.
pub mod calculator;
pub mod cli;
pub mod error;
pub mod paths;
pub mod pipeline;
pub mod process;
pub mod text;
pub mod workflow;

pub use calculator::{calculate_signatures, Signature};
pub use cli::Cli;
pub use error::PdfError;
