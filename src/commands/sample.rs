use vstd::prelude::*;

use crate::errors::PQRSError;
use crate::utils::Formats;

verus! {

/// Options of the command that prints a random sample of a file's rows.
pub struct SampleCommandArgs {
    pub file: String,
    pub records: usize,
    pub json: bool,
}

/// How to print a sample: the encoding and how many rows to draw.
#[derive(Copy, Clone, Debug, PartialEq, Eq, Structural)]
pub struct SamplePlan {
    pub format: Formats,
    pub sample_size: usize,
}

/// Decides how to sample the file, given whether it was found.
pub fn execute(opts: SampleCommandArgs, file_present: bool) -> (r: Result<SamplePlan, PQRSError>)
    ensures
        !file_present ==> r == Err::<SamplePlan, PQRSError>(PQRSError::FileNotFound(opts.file)),
        file_present ==> r == Ok::<SamplePlan, PQRSError>(
            SamplePlan {
                format: if opts.json {
                    Formats::Json
                } else {
                    Formats::Default
                },
                sample_size: opts.records,
            },
        ),
{
    let format = if opts.json {
        Formats::Json
    } else {
        Formats::Default
    };
    if !file_present {
        return Err(PQRSError::FileNotFound(opts.file));
    }
    Ok(SamplePlan { format, sample_size: opts.records })
}

} // verus!
