use vstd::prelude::*;
use vstd::string::*;

use crate::errors::PQRSError;
use crate::text::{decimal_text, signed_decimal, with_suffix};
use crate::utils::{check_files_present, first_missing, get_pretty_size, pretty_size};

verus! {

/// Options of the command that reports the sizes of files.
pub struct SizeCommandArgs {
    pub files: Vec<String>,
    pub compressed: bool,
    pub pretty: bool,
}

/// Checks that every file was found before any is read; the first missing
/// one is reported.
pub fn execute(opts: &SizeCommandArgs, present: &Vec<bool>) -> (r: Result<(), PQRSError>)
    requires
        opts.files@.len() == present@.len(),
    ensures
        r is Ok <==> forall|i: int| 0 <= i < present@.len() ==> present@[i],
        r is Err ==> exists|i: int|
            first_missing(present@, i) && r == Err::<(), PQRSError>(
                PQRSError::FileNotFound(opts.files@[i]),
            ),
{
    check_files_present(&opts.files, present)
}

/// The size line for a file of the given uncompressed and compressed sizes:
/// the compressed one when asked for, else the uncompressed one, in bytes or
/// for people.
pub open spec fn size_text(compressed: bool, pretty: bool, sizes: (i64, i64)) -> Seq<char> {
    let size = if compressed {
        sizes.1
    } else {
        sizes.0
    };
    let shown = if pretty {
        pretty_size(size as int)
    } else {
        signed_decimal(size as int)
    };
    if compressed {
        "compressed size: "@ + shown
    } else {
        "Uncompressed size: "@ + shown
    }
}

/// The size line for one file.
pub fn size_line(opts: &SizeCommandArgs, sizes: (i64, i64)) -> (r: String)
    ensures
        r@ == size_text(opts.compressed, opts.pretty, sizes),
{
    let size = if opts.compressed {
        sizes.1
    } else {
        sizes.0
    };
    let shown = if opts.pretty {
        get_pretty_size(size)
    } else {
        decimal_text(size)
    };
    let label = if opts.compressed {
        String::from_str("compressed size: ")
    } else {
        String::from_str("Uncompressed size: ")
    };
    with_suffix(label, shown.as_str())
}

} // verus!
