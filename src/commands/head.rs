use vstd::prelude::*;

use crate::errors::PQRSError;
use crate::export::{plan_export, ExportPlan, RowLimit};
use crate::utils::Formats;

verus! {

/// Options of the command that prints the first rows of a file.
pub struct HeadCommandArgs {
    pub csv: bool,
    pub json: bool,
    pub records: usize,
    pub file: String,
}

/// The encoding the options ask for: JSON, headed CSV, or the default.
pub open spec fn head_format(json: bool, csv: bool) -> Formats {
    if json {
        Formats::Json
    } else if csv {
        Formats::Csv
    } else {
        Formats::Default
    }
}

/// Decides how to print the first `records` rows of the file, given whether
/// the file was found. A missing file and a row cap on headed CSV are
/// refused.
pub fn execute(opts: HeadCommandArgs, file_present: bool) -> (r: Result<ExportPlan, PQRSError>)
    ensures
        !file_present ==> r == Err::<ExportPlan, PQRSError>(PQRSError::FileNotFound(opts.file)),
        file_present && opts.csv && !opts.json ==> r == Err::<ExportPlan, PQRSError>(
            PQRSError::UnsupportedOperation(),
        ),
        file_present && !(opts.csv && !opts.json) ==> r == Ok::<ExportPlan, PQRSError>(
            ExportPlan {
                format: head_format(opts.json, opts.csv),
                limit: RowLimit { remaining: Some(opts.records) },
            },
        ),
{
    let format = if opts.json {
        Formats::Json
    } else if opts.csv {
        Formats::Csv
    } else {
        Formats::Default
    };
    if !file_present {
        return Err(PQRSError::FileNotFound(opts.file));
    }
    plan_export(format, Some(opts.records))
}

} // verus!
