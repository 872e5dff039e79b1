use vstd::prelude::*;
use vstd::string::*;

use crate::errors::PQRSError;
use crate::text::{decimal_text, signed_decimal, with_suffix};
use crate::utils::{check_files_present, first_missing};

verus! {

/// Options of the command that reports how many rows files hold.
pub struct RowCountCommandArgs {
    pub files: Vec<String>,
}

/// Checks that every file was found before any is read; the first missing
/// one is reported.
pub fn execute(opts: &RowCountCommandArgs, present: &Vec<bool>) -> (r: Result<(), PQRSError>)
    requires
        opts.files@.len() == present@.len(),
    ensures
        r is Ok <==> forall|i: int| 0 <= i < present@.len() ==> present@[i],
        r is Err ==> exists|i: int|
            first_missing(present@, i) && r == Err::<(), PQRSError>(
                PQRSError::FileNotFound(opts.files@[i]),
            ),
{
    check_files_present(&opts.files, present)
}

/// The report line for one file.
pub open spec fn row_count_text(file_name: Seq<char>, row_count: int) -> Seq<char> {
    "File Name:"@ + file_name + ", "@ + signed_decimal(row_count) + " rows"@
}

/// The report line for one file: its name and its row count.
pub fn row_count_line(file_name: &str, row_count: i64) -> (r: String)
    ensures
        r@ == row_count_text(file_name@, row_count as int),
{
    let line = with_suffix(String::from_str("File Name:"), file_name);
    let line = with_suffix(line, ", ");
    let count = decimal_text(row_count);
    let line = with_suffix(line, count.as_str());
    with_suffix(line, " rows")
}

} // verus!
