use vstd::prelude::*;

use crate::errors::PQRSError;
use crate::utils::{check_files_present, first_missing};

verus! {

/// Options of the command that merges several files into a new one.
pub struct MergeCommandArgs {
    pub input: Vec<String>,
    pub output: String,
}

/// Checks a merge before anything is read or written, given whether the
/// output path exists and whether each input was found. An existing output
/// is refused first, so it is never touched; then the first missing input.
pub fn execute(opts: &MergeCommandArgs, output_exists: bool, inputs_present: &Vec<bool>) -> (r:
    Result<(), PQRSError>)
    requires
        opts.input@.len() == inputs_present@.len(),
    ensures
        output_exists ==> r == Err::<(), PQRSError>(PQRSError::FileExists(opts.output)),
        !output_exists ==> (r is Ok <==> forall|i: int|
            0 <= i < inputs_present@.len() ==> inputs_present@[i]),
        !output_exists && r is Err ==> exists|i: int|
            first_missing(inputs_present@, i) && r == Err::<(), PQRSError>(
                PQRSError::FileNotFound(opts.input@[i]),
            ),
{
    if output_exists {
        return Err(PQRSError::FileExists(opts.output.clone()));
    }
    check_files_present(&opts.input, inputs_present)
}

} // verus!
