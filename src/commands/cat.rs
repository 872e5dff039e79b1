use vstd::prelude::*;
use vstd::string::*;

use crate::errors::PQRSError;
use crate::export::{ExportPlan, RowLimit};
use crate::text::with_suffix;
use crate::utils::{check_files_present, first_missing, Formats};

verus! {

/// Options of the command that prints every row of the given files and
/// directories.
pub struct CatCommandArgs {
    pub csv: bool,
    pub csv_no_header: bool,
    pub json: bool,
    pub quiet: bool,
    pub raw_timestamp: bool,
    pub locations: Vec<String>,
}

/// The encoding the options ask for: JSON, CSV without a header, headed CSV,
/// or the default, in that order of precedence.
pub open spec fn cat_format(json: bool, csv_no_header: bool, csv: bool) -> Formats {
    if json {
        Formats::Json
    } else if csv_no_header {
        Formats::CsvNoHeader
    } else if csv {
        Formats::Csv
    } else {
        Formats::Default
    }
}

/// How to print the resolved files: the export of each, and whether a
/// banner naming the file comes before it.
#[derive(Copy, Clone, Debug, PartialEq, Eq, Structural)]
pub struct CatPlan {
    pub export: ExportPlan,
    pub banner: bool,
}

/// Decides how to print the resolved `files`, given for each whether it was
/// found. The first missing file stops everything before any output.
pub fn execute(opts: &CatCommandArgs, files: &Vec<String>, present: &Vec<bool>) -> (r: Result<
    CatPlan,
    PQRSError,
>)
    requires
        files@.len() == present@.len(),
    ensures
        r is Ok <==> forall|i: int| 0 <= i < present@.len() ==> present@[i],
        r is Err ==> exists|i: int|
            first_missing(present@, i) && r == Err::<CatPlan, PQRSError>(
                PQRSError::FileNotFound(files@[i]),
            ),
        r is Ok ==> r == Ok::<CatPlan, PQRSError>(
            CatPlan {
                export: ExportPlan {
                    format: cat_format(opts.json, opts.csv_no_header, opts.csv),
                    limit: RowLimit { remaining: None },
                },
                banner: !opts.quiet,
            },
        ),
{
    let format = if opts.json {
        Formats::Json
    } else if opts.csv_no_header {
        Formats::CsvNoHeader
    } else if opts.csv {
        Formats::Csv
    } else {
        Formats::Default
    };
    match check_files_present(files, present) {
        Err(e) => Err(e),
        Ok(()) => Ok(
            CatPlan {
                export: ExportPlan { format, limit: RowLimit::new(None) },
                banner: !opts.quiet,
            },
        ),
    }
}

/// A run of `n` hash signs.
pub open spec fn hashes(n: nat) -> Seq<char> {
    Seq::new(n, |i: int| '#')
}

/// The banner printed before a file's rows: `File: <name>` between two rules
/// of hash signs as long as that line is in bytes, with a blank line before
/// and after.
pub open spec fn banner_text(file_name: Seq<char>, name_bytes: nat) -> Seq<char> {
    let rule = hashes(6 + name_bytes);
    "\n"@ + rule + "\n"@ + "File: "@ + file_name + "\n"@ + rule + "\n\n"@
}

fn append_hashes(out: String, n: usize) -> (r: String)
    ensures
        r@ == out@ + hashes(n as nat),
{
    let mut r = out;
    let mut i: usize = 0;
    proof {
        reveal_strlit("#");
    }
    while i < n
        invariant
            i <= n,
            r@ == out@ + hashes(i as nat),
        decreases n - i,
    {
        proof {
            reveal_strlit("#");
        }
        assert("#"@ =~= seq!['#']);
        assert(hashes((i + 1) as nat) =~= hashes(i as nat).push('#'));
        r = with_suffix(r, "#");
        i = i + 1;
        assert(r@ =~= out@ + hashes(i as nat));
    }
    r
}

/// The banner naming a file before its rows.
pub fn file_banner(file_name: &str) -> (r: String)
    ensures
        r@ == banner_text(file_name@, file_name.len() as nat),
{
    let rule = append_hashes(String::from_str("######"), file_name.len());
    proof {
        reveal_strlit("######");
    }
    assert("######"@ =~= hashes(6));
    assert(rule@ =~= hashes(6 + file_name.len() as nat));
    let text = with_suffix(String::from_str("\n"), rule.as_str());
    let text = with_suffix(text, "\n");
    let text = with_suffix(text, "File: ");
    let text = with_suffix(text, file_name);
    let text = with_suffix(text, "\n");
    let text = with_suffix(text, rule.as_str());
    with_suffix(text, "\n\n")
}

} // verus!
