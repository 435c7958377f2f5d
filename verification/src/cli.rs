//! Command-line arguments of the booklet tool and their validation.
use vstd::prelude::*;
use crate::error::{PdfError, PdfErrorModel, result_model};

verus! {

/// Command-line arguments for the booklet tool.
#[derive(Debug)]
pub struct Cli {
    /// Path to input PDF file
    pub input: String,
    /// Paper size for booklet
    pub paper: String,
    /// Bleed amount in points
    pub bleed: i32,
    /// Pages per signature/section (0 = single booklet)
    pub signature: usize,
}

/// The outcome of validating `cli`, given whether its input file exists.
pub open spec fn validation_outcome(cli: Cli, input_exists: bool) -> Result<(), PdfErrorModel> {
    if !input_exists {
        Err(PdfErrorModel::FileNotFound(cli.input@))
    } else if cli.bleed < 0 {
        Err(PdfErrorModel::InvalidBleed(cli.bleed))
    } else if cli.signature > 0 && cli.signature % 4 != 0 {
        Err(PdfErrorModel::InvalidSignatureSize(cli.signature))
    } else {
        Ok(())
    }
}

/// Whether a file or directory exists at `path`.
///
/// Calls `std::path::Path::exists`. Nothing is stated of the result: it depends
/// on the file system at the moment of the call.
#[verifier::external_body]
fn path_exists(path: &str) -> bool {
    std::path::Path::new(path).exists()
}

impl Cli {
    /// Validates the arguments, given whether the input file exists.
    ///
    /// The checks run in order: input file, bleed, signature size.
    pub fn validate_arguments(&self, input_exists: bool) -> (r: Result<(), PdfError>)
        ensures
            result_model(r) == validation_outcome(*self, input_exists),
    {
        // Check if input file exists
        if !input_exists {
            return Err(PdfError::FileNotFound(self.input.clone()));
        }
        // Validate bleed is non-negative
        if self.bleed < 0 {
            return Err(PdfError::InvalidBleed(self.bleed));
        }
        // Validate signature size
        if self.signature > 0 && self.signature % 4 != 0 {
            return Err(PdfError::InvalidSignatureSize(self.signature));
        }
        Ok(())
    }

    /// Validates the arguments, looking up whether the input file exists.
    pub fn validate(&self) -> (r: Result<(), PdfError>)
        ensures
            result_model(r) == validation_outcome(*self, true) || result_model(r)
                == validation_outcome(*self, false),
    {
        let exists = path_exists(self.input.as_str());
        self.validate_arguments(exists)
    }
}


/// Validation accepts exactly the arguments the README allows: an existing
/// input, a bleed that is not negative, and a signature size divisible by 4
/// (0 for a single booklet). Each refusal names what is wrong, checked in the
/// order input, bleed, signature size.
pub proof fn lemma_validation_accepts_valid_arguments(cli: Cli, input_exists: bool)
    ensures
        validation_outcome(cli, input_exists) is Ok <==> (input_exists && cli.bleed >= 0
            && cli.signature % 4 == 0),
        !input_exists ==> validation_outcome(cli, input_exists) == Err::<(), PdfErrorModel>(
            PdfErrorModel::FileNotFound(cli.input@),
        ),
        input_exists && cli.bleed < 0 ==> validation_outcome(cli, input_exists) == Err::<
            (),
            PdfErrorModel,
        >(PdfErrorModel::InvalidBleed(cli.bleed)),
        input_exists && cli.bleed >= 0 && cli.signature % 4 != 0 ==> validation_outcome(
            cli,
            input_exists,
        ) == Err::<(), PdfErrorModel>(PdfErrorModel::InvalidSignatureSize(cli.signature)),
{
}

} // verus!
