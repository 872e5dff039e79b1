use vstd::prelude::*;
use vstd::string::*;

use crate::errors::PQRSError;
use crate::text::with_suffix;
use crate::utils::Formats;

verus! {

/// How many more rows an export may write; `None` when it has no cap.
#[derive(Copy, Clone, Debug, PartialEq, Eq, Structural)]
pub struct RowLimit {
    pub remaining: Option<usize>,
}

/// The number of rows that a cap lets through out of `total`.
pub open spec fn row_budget(remaining: Option<usize>, total: nat) -> nat {
    match remaining {
        Some(n) => if n < total {
            n as nat
        } else {
            total
        },
        None => total,
    }
}

impl RowLimit {
    /// Whether another row may still be written.
    pub open spec fn allows_more(self) -> bool {
        self.remaining != Some(0usize)
    }

    /// The limit after one more row has been written.
    pub open spec fn after_row(self) -> RowLimit {
        match self.remaining {
            Some(n) => RowLimit { remaining: Some((n - 1) as usize) },
            None => self,
        }
    }

    /// How many leading rows of a batch of `rows` rows are written.
    pub open spec fn batch_take(self, rows: nat) -> nat {
        row_budget(self.remaining, rows)
    }

    /// The limit after a batch of `rows` rows has been cut and written.
    pub open spec fn after_batch(self, rows: nat) -> RowLimit {
        match self.remaining {
            Some(n) => RowLimit { remaining: Some((n - self.batch_take(rows)) as usize) },
            None => self,
        }
    }

    /// A limit of `cap` rows, or none.
    pub fn new(cap: Option<usize>) -> (r: RowLimit)
        ensures
            r.remaining == cap,
    {
        RowLimit { remaining: cap }
    }

    /// Whether another row may still be written.
    pub fn is_open(&self) -> (r: bool)
        ensures
            r == self.allows_more(),
    {
        match self.remaining {
            Some(n) => n != 0,
            None => true,
        }
    }

    /// Counts one written row.
    pub fn take_row(&mut self)
        requires
            old(self).allows_more(),
        ensures
            *final(self) == old(self).after_row(),
    {
        match self.remaining {
            Some(n) => {
                self.remaining = Some(n - 1);
            },
            None => {},
        }
    }

    /// Decides what to write of the next batch, which holds `batch_rows` rows:
    /// `None` to stop reading, or the number of leading rows to write.
    pub fn cut_batch(&mut self, batch_rows: usize) -> (r: Option<usize>)
        ensures
            r == if old(self).allows_more() {
                Some(old(self).batch_take(batch_rows as nat) as usize)
            } else {
                None::<usize>
            },
            *final(self) == if old(self).allows_more() {
                old(self).after_batch(batch_rows as nat)
            } else {
                *old(self)
            },
    {
        match self.remaining {
            Some(n) => {
                if n == 0 {
                    None
                } else if batch_rows <= n {
                    self.remaining = Some(n - batch_rows);
                    Some(batch_rows)
                } else {
                    self.remaining = Some(0);
                    Some(n)
                }
            },
            None => Some(batch_rows),
        }
    }
}

/// How the rows of one file are to be written: the encoding and the cap.
#[derive(Copy, Clone, Debug, PartialEq, Eq, Structural)]
pub struct ExportPlan {
    pub format: Formats,
    pub limit: RowLimit,
}

/// Decides how to export a file's rows in `format`, at most `num_records` of
/// them. Headed CSV is written only whole: with a cap it is refused before
/// anything is written.
pub fn plan_export(format: Formats, num_records: Option<usize>) -> (r: Result<ExportPlan, PQRSError>)
    ensures
        format == Formats::Csv && num_records is Some ==> r == Err::<ExportPlan, PQRSError>(
            PQRSError::UnsupportedOperation(),
        ),
        !(format == Formats::Csv && num_records is Some) ==> r == Ok::<ExportPlan, PQRSError>(
            ExportPlan { format, limit: RowLimit { remaining: num_records } },
        ),
{
    match format {
        Formats::Csv => {
            if num_records.is_some() {
                return Err(PQRSError::UnsupportedOperation());
            }
        },
        _ => {},
    }
    Ok(ExportPlan { format, limit: RowLimit::new(num_records) })
}

/// What a headed CSV export prints for the text the CSV writer produced: the
/// text itself, or `Empty.` when there is none.
pub open spec fn csv_block_text(text: Seq<char>) -> Seq<char> {
    if text.len() == 0 {
        "Empty."@
    } else {
        text
    }
}

/// The block printed for the CSV text of one file.
pub fn csv_block(text: String) -> (r: String)
    ensures
        r@ == csv_block_text(text@),
{
    if text.as_str().is_empty() {
        String::from_str("Empty.")
    } else {
        text
    }
}

/// The line printed for one row, given the row rendered by the encoding's own
/// renderer. The CSV encodings are not written row by row: their lines say
/// so.
pub open spec fn row_line_text(format: Formats, rendered: Seq<char>) -> Seq<char> {
    match format {
        Formats::Json => rendered,
        Formats::Default => rendered,
        Formats::Csv => "Unsupported! "@ + rendered,
        Formats::CsvNoHeader => "Unsupported! "@ + rendered + "."@,
    }
}

/// The line printed for one row.
pub fn row_line(format: Formats, rendered: &str) -> (r: String)
    ensures
        r@ == row_line_text(format, rendered@),
{
    match format {
        Formats::Json => String::from_str(rendered),
        Formats::Default => String::from_str(rendered),
        Formats::Csv => with_suffix(String::from_str("Unsupported! "), rendered),
        Formats::CsvNoHeader => with_suffix(
            with_suffix(String::from_str("Unsupported! "), rendered),
            ".",
        ),
    }
}

/// The rows that a row-by-row export writes: one row at a time from the
/// front, while the limit is open and rows remain.
pub open spec fn emitted_rows<R>(limit: RowLimit, rows: Seq<R>) -> Seq<R>
    decreases rows.len(),
{
    if rows.len() == 0 || !limit.allows_more() {
        Seq::empty()
    } else {
        seq![rows[0]] + emitted_rows(limit.after_row(), rows.drop_first())
    }
}

/// The batches that a batch-by-batch export writes: each batch cut to its
/// leading rows as the limit allows, until the limit closes.
pub open spec fn emitted_batches<R>(limit: RowLimit, batches: Seq<Seq<R>>) -> Seq<Seq<R>>
    decreases batches.len(),
{
    if batches.len() == 0 || !limit.allows_more() {
        Seq::empty()
    } else {
        seq![batches[0].take(limit.batch_take(batches[0].len()) as int)] + emitted_batches(
            limit.after_batch(batches[0].len()),
            batches.drop_first(),
        )
    }
}

proof fn lemma_emitted_rows_take<R>(limit: RowLimit, rows: Seq<R>)
    ensures
        emitted_rows(limit, rows) == rows.take(row_budget(limit.remaining, rows.len()) as int),
    decreases rows.len(),
{
    if rows.len() == 0 || !limit.allows_more() {
        assert(rows.take(row_budget(limit.remaining, rows.len()) as int) =~= Seq::<R>::empty());
    } else {
        lemma_emitted_rows_take(limit.after_row(), rows.drop_first());
        assert(emitted_rows(limit, rows) =~= rows.take(
            row_budget(limit.remaining, rows.len()) as int,
        ));
    }
}

/// A capped row-by-row export writes exactly the first `n` rows of what the
/// uncapped export writes (all of them when there are fewer), and the
/// uncapped export writes every row in order.
pub proof fn lemma_row_cap_keeps_prefix<R>(rows: Seq<R>, n: usize)
    ensures
        emitted_rows(RowLimit { remaining: None }, rows) == rows,
        emitted_rows(RowLimit { remaining: Some(n) }, rows) == emitted_rows(
            RowLimit { remaining: None },
            rows,
        ).take(row_budget(Some(n), rows.len()) as int),
{
    lemma_emitted_rows_take(RowLimit { remaining: None }, rows);
    lemma_emitted_rows_take(RowLimit { remaining: Some(n) }, rows);
    assert(rows.take(rows.len() as int) =~= rows);
}

proof fn lemma_emitted_batches_take<R>(limit: RowLimit, batches: Seq<Seq<R>>)
    ensures
        emitted_batches(limit, batches).flatten() == batches.flatten().take(
            row_budget(limit.remaining, batches.flatten().len()) as int,
        ),
    decreases batches.len(),
{
    let total = batches.flatten().len();
    if batches.len() == 0 {
        assert(batches.flatten().take(row_budget(limit.remaining, total) as int)
            =~= Seq::<R>::empty());
    } else if !limit.allows_more() {
        assert(batches.flatten().take(row_budget(limit.remaining, total) as int)
            =~= Seq::<R>::empty());
    } else {
        let first = batches[0];
        let rest = batches.drop_first();
        let next = limit.after_batch(first.len());
        lemma_emitted_batches_take(next, rest);
        assert(batches.flatten() == first + rest.flatten());
        let shown = emitted_batches(limit, batches);
        assert(shown == seq![first.take(limit.batch_take(first.len()) as int)]
            + emitted_batches(next, rest));
        assert(shown.drop_first() == emitted_batches(next, rest));
        assert(shown.flatten() == shown[0] + emitted_batches(next, rest).flatten());
        assert(shown.flatten() =~= batches.flatten().take(
            row_budget(limit.remaining, total) as int,
        ));
    }
}

proof fn lemma_uncapped_batches<R>(batches: Seq<Seq<R>>)
    ensures
        emitted_batches(RowLimit { remaining: None }, batches) == batches,
    decreases batches.len(),
{
    if batches.len() > 0 {
        lemma_uncapped_batches(batches.drop_first());
        assert(batches[0].take(batches[0].len() as int) =~= batches[0]);
        assert(emitted_batches(RowLimit { remaining: None }, batches) =~= batches);
    }
}

/// Cutting batches against a cap of `n` rows writes exactly the first `n`
/// rows of what the uncapped batch export writes, whatever the batch
/// boundaries; the uncapped export writes every batch whole.
pub proof fn lemma_batch_cut_keeps_prefix<R>(batches: Seq<Seq<R>>, n: usize)
    ensures
        emitted_batches(RowLimit { remaining: None }, batches) == batches,
        emitted_batches(RowLimit { remaining: Some(n) }, batches).flatten() == emitted_batches(
            RowLimit { remaining: None },
            batches,
        ).flatten().take(row_budget(Some(n), batches.flatten().len()) as int),
{
    lemma_uncapped_batches(batches);
    lemma_emitted_batches_take(RowLimit { remaining: Some(n) }, batches);
}

/// Exporting the same rows twice under the same cap writes the same rows,
/// row by row or batch by batch, even where the two reads cut the rows into
/// batches differently.
pub proof fn lemma_export_repeatable<R>(
    rows: Seq<R>,
    first_read: Seq<Seq<R>>,
    second_read: Seq<Seq<R>>,
    cap: Option<usize>,
)
    requires
        first_read.flatten() == rows,
        second_read.flatten() == rows,
    ensures
        emitted_rows(RowLimit { remaining: cap }, rows) == rows.take(
            row_budget(cap, rows.len()) as int,
        ),
        emitted_batches(RowLimit { remaining: cap }, first_read).flatten() == emitted_batches(
            RowLimit { remaining: cap },
            second_read,
        ).flatten(),
        emitted_batches(RowLimit { remaining: cap }, first_read).flatten() == emitted_rows(
            RowLimit { remaining: cap },
            rows,
        ),
{
    lemma_emitted_rows_take(RowLimit { remaining: cap }, rows);
    lemma_emitted_batches_take(RowLimit { remaining: cap }, first_read);
    lemma_emitted_batches_take(RowLimit { remaining: cap }, second_read);
}

} // verus!
