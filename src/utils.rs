use vstd::prelude::*;
use vstd::string::*;

use crate::errors::PQRSError;
use crate::text::{decimal_text, signed_decimal, with_suffix};

verus! {

pub const ONE_KI_B: i64 = 1024;

pub const ONE_MI_B: i64 = ONE_KI_B * 1024;

pub const ONE_GI_B: i64 = ONE_MI_B * 1024;

pub const ONE_TI_B: i64 = ONE_GI_B * 1024;

pub const ONE_PI_B: i64 = ONE_TI_B * 1024;

/// The four ways rows can be rendered.
#[derive(Copy, Clone, Debug, PartialEq, Eq, Structural)]
pub enum Formats {
    Default,
    Csv,
    CsvNoHeader,
    Json,
}

/// The name of an encoding followed by a line break.
pub open spec fn format_text(f: Formats) -> Seq<char> {
    match f {
        Formats::Default => "Default\n"@,
        Formats::Csv => "Csv\n"@,
        Formats::CsvNoHeader => "CsvNoHeader\n"@,
        Formats::Json => "Json\n"@,
    }
}

impl Formats {
    /// The name of the encoding on a line of its own.
    pub fn to_string(&self) -> (r: String)
        ensures
            r@ == format_text(*self),
    {
        match self {
            Formats::Default => String::from_str("Default\n"),
            Formats::Csv => String::from_str("Csv\n"),
            Formats::CsvNoHeader => String::from_str("CsvNoHeader\n"),
            Formats::Json => String::from_str("Json\n"),
        }
    }
}

/// A byte count in the largest binary unit that it reaches, the count in
/// that unit rounded toward zero.
pub open spec fn pretty_size(bytes: int) -> Seq<char> {
    if bytes < ONE_KI_B {
        signed_decimal(bytes) + " Bytes"@
    } else if bytes < ONE_MI_B {
        signed_decimal(bytes / ONE_KI_B as int) + " KiB"@
    } else if bytes < ONE_GI_B {
        signed_decimal(bytes / ONE_MI_B as int) + " MiB"@
    } else if bytes < ONE_TI_B {
        signed_decimal(bytes / ONE_GI_B as int) + " GiB"@
    } else if bytes < ONE_PI_B {
        signed_decimal(bytes / ONE_TI_B as int) + " TiB"@
    } else {
        signed_decimal(bytes / ONE_PI_B as int) + " PiB"@
    }
}

/// Renders a byte count for people: `512 Bytes`, `3 KiB`, `2 GiB`.
pub fn get_pretty_size(bytes: i64) -> (r: String)
    ensures
        r@ == pretty_size(bytes as int),
{
    if bytes < ONE_KI_B {
        with_suffix(decimal_text(bytes), " Bytes")
    } else if bytes < ONE_MI_B {
        with_suffix(decimal_text(bytes / ONE_KI_B), " KiB")
    } else if bytes < ONE_GI_B {
        with_suffix(decimal_text(bytes / ONE_MI_B), " MiB")
    } else if bytes < ONE_TI_B {
        with_suffix(decimal_text(bytes / ONE_GI_B), " GiB")
    } else if bytes < ONE_PI_B {
        with_suffix(decimal_text(bytes / ONE_TI_B), " TiB")
    } else {
        with_suffix(decimal_text(bytes / ONE_PI_B), " PiB")
    }
}

/// Whether a directory entry's name marks it as hidden: it starts with a dot.
/// A name that is not valid text (`None`) is not hidden.
pub open spec fn hidden_name(file_name: Option<Seq<char>>) -> bool {
    match file_name {
        Some(s) => s.len() > 0 && s[0] == '.',
        None => false,
    }
}

/// Checks whether a directory entry, given by its name, is hidden.
pub fn is_hidden(file_name: Option<&str>) -> (r: bool)
    ensures
        r == hidden_name(
            match file_name {
                Some(s) => Some(s@),
                None => None,
            },
        ),
{
    match file_name {
        Some(s) => !s.is_empty() && s.get_char(0) == '.',
        None => false,
    }
}

/// What the file's metadata states about one row group.
#[derive(Copy, Clone, Debug, PartialEq, Eq, Structural)]
pub struct RowGroupSummary {
    pub num_rows: i64,
    pub total_byte_size: i64,
    pub compressed_size: i64,
}

/// One of the quantities a row group declares.
#[derive(Copy, Clone, Debug, PartialEq, Eq, Structural)]
pub enum Measure {
    Rows,
    UncompressedBytes,
    CompressedBytes,
}

pub open spec fn measure_of(g: RowGroupSummary, m: Measure) -> i64 {
    match m {
        Measure::Rows => g.num_rows,
        Measure::UncompressedBytes => g.total_byte_size,
        Measure::CompressedBytes => g.compressed_size,
    }
}

/// The sum of one quantity over the row groups.
pub open spec fn group_total(groups: Seq<RowGroupSummary>, m: Measure) -> int
    decreases groups.len(),
{
    if groups.len() == 0 {
        0
    } else {
        group_total(groups.drop_last(), m) + measure_of(groups.last(), m)
    }
}

/// Adding the row groups up one by one never leaves the range of `i64`.
pub open spec fn totals_fit(groups: Seq<RowGroupSummary>, m: Measure) -> bool {
    forall|n: int|
        0 <= n <= groups.len() ==> i64::MIN <= #[trigger] group_total(groups.take(n), m)
            <= i64::MAX
}

fn sum_measure(groups: &Vec<RowGroupSummary>, m: Measure) -> (r: Option<i64>)
    ensures
        r == if totals_fit(groups@, m) {
            Some(group_total(groups@, m) as i64)
        } else {
            None::<i64>
        },
{
    let mut total: i64 = 0;
    let mut i: usize = 0;
    assert(groups@.take(0) =~= Seq::<RowGroupSummary>::empty());
    while i < groups.len()
        invariant
            i <= groups.len(),
            total == group_total(groups@.take(i as int), m),
            forall|n: int|
                0 <= n <= i ==> i64::MIN <= #[trigger] group_total(groups@.take(n), m)
                    <= i64::MAX,
        decreases groups.len() - i,
    {
        let g = groups[i];
        let v = match m {
            Measure::Rows => g.num_rows,
            Measure::UncompressedBytes => g.total_byte_size,
            Measure::CompressedBytes => g.compressed_size,
        };
        assert(groups@.take(i + 1).drop_last() =~= groups@.take(i as int));
        match total.checked_add(v) {
            Some(t) => {
                total = t;
            },
            None => {
                assert(!(i64::MIN <= group_total(groups@.take(i + 1), m) <= i64::MAX));
                return None;
            },
        }
        i = i + 1;
    }
    assert(groups@.take(groups@.len() as int) =~= groups@);
    Some(total)
}

/// The number of rows in a file: the sum of the row counts of its row groups,
/// or `None` where that sum does not fit in an `i64`.
pub fn get_row_count(row_groups: &Vec<RowGroupSummary>) -> (r: Option<i64>)
    ensures
        r == if totals_fit(row_groups@, Measure::Rows) {
            Some(group_total(row_groups@, Measure::Rows) as i64)
        } else {
            None::<i64>
        },
{
    sum_measure(row_groups, Measure::Rows)
}

/// The uncompressed and the compressed size of a file: the sums of the sizes
/// that its row groups declare, or `None` where either sum does not fit in an
/// `i64`.
pub fn get_size(row_groups: &Vec<RowGroupSummary>) -> (r: Option<(i64, i64)>)
    ensures
        r == if totals_fit(row_groups@, Measure::UncompressedBytes) && totals_fit(
            row_groups@,
            Measure::CompressedBytes,
        ) {
            Some(
                (
                    group_total(row_groups@, Measure::UncompressedBytes) as i64,
                    group_total(row_groups@, Measure::CompressedBytes) as i64,
                ),
            )
        } else {
            None::<(i64, i64)>
        },
{
    let uncompressed = sum_measure(row_groups, Measure::UncompressedBytes);
    let compressed = sum_measure(row_groups, Measure::CompressedBytes);
    match (uncompressed, compressed) {
        (Some(u), Some(c)) => Some((u, c)),
        _ => None,
    }
}

/// `i` is the first position whose file was not found.
pub open spec fn first_missing(present: Seq<bool>, i: int) -> bool {
    0 <= i < present.len() && !present[i] && forall|j: int| 0 <= j < i ==> present[j]
}

/// Checks, in order, that every file was found (`present` says so for each),
/// and reports the first one that was not.
pub fn check_files_present(files: &Vec<String>, present: &Vec<bool>) -> (r: Result<(), PQRSError>)
    requires
        files@.len() == present@.len(),
    ensures
        r is Ok <==> forall|i: int| 0 <= i < present@.len() ==> present@[i],
        r is Err ==> exists|i: int|
            first_missing(present@, i) && r == Err::<(), PQRSError>(
                PQRSError::FileNotFound(files@[i]),
            ),
{
    let mut i: usize = 0;
    while i < files.len()
        invariant
            i <= files@.len(),
            files@.len() == present@.len(),
            forall|j: int| 0 <= j < i ==> present@[j],
        decreases files@.len() - i,
    {
        if !present[i] {
            let r = Err(PQRSError::FileNotFound(files[i].clone()));
            assert(first_missing(present@, i as int));
            return r;
        }
        i = i + 1;
    }
    Ok(())
}

} // verus!
