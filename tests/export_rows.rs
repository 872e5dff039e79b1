use pqrs::commands::head::{self, HeadCommandArgs};
use pqrs::errors::PQRSError;
use pqrs::export::{csv_block, plan_export, row_line, ExportPlan, RowLimit};
use pqrs::utils::Formats;

fn run_rows(cap: Option<usize>, rows: &[u32]) -> Vec<u32> {
    let mut limit = RowLimit::new(cap);
    let mut out = Vec::new();
    let mut it = rows.iter();
    while limit.is_open() {
        match it.next() {
            Some(r) => {
                out.push(*r);
                limit.take_row();
            }
            None => break,
        }
    }
    out
}

fn run_batches(cap: Option<usize>, batches: &[Vec<u32>]) -> Vec<u32> {
    let mut limit = RowLimit::new(cap);
    let mut out = Vec::new();
    for b in batches {
        match limit.cut_batch(b.len()) {
            None => break,
            Some(n) => out.extend_from_slice(&b[..n]),
        }
    }
    out
}

#[test]
fn first_n_rows_are_the_head_of_the_full_export() {
    let rows: Vec<u32> = (0..10).collect();
    let all = run_rows(None, &rows);
    assert_eq!(all, rows);
    for n in 0..=10 {
        assert_eq!(run_rows(Some(n), &rows), all[..n].to_vec());
    }
    assert_eq!(run_rows(Some(25), &rows), rows);
}

#[test]
fn exporting_twice_gives_the_same_rows() {
    let rows: Vec<u32> = (0..7).collect();
    assert_eq!(run_rows(Some(4), &rows), run_rows(Some(4), &rows));
    let batches = vec![vec![1, 2], vec![3, 4, 5]];
    assert_eq!(run_batches(Some(3), &batches), run_batches(Some(3), &batches));
}

#[test]
fn batch_cut_matches_truncated_full_read() {
    let batches = vec![vec![1, 2, 3], vec![4, 5], vec![6, 7, 8, 9]];
    let full: Vec<u32> = run_batches(None, &batches);
    assert_eq!(full, vec![1, 2, 3, 4, 5, 6, 7, 8, 9]);
    for n in 0..=12 {
        let expected: Vec<u32> = full.iter().copied().take(n).collect();
        assert_eq!(run_batches(Some(n), &batches), expected);
    }
}

#[test]
fn cut_batch_steps() {
    let mut limit = RowLimit::new(Some(5));
    assert_eq!(limit.cut_batch(3), Some(3));
    assert_eq!(limit.remaining, Some(2));
    assert_eq!(limit.cut_batch(3), Some(2));
    assert_eq!(limit.remaining, Some(0));
    assert_eq!(limit.cut_batch(3), None);
    let mut open = RowLimit::new(None);
    assert_eq!(open.cut_batch(8192), Some(8192));
    assert_eq!(open.remaining, None);
}

#[test]
fn headed_csv_with_a_cap_is_refused() {
    assert_eq!(plan_export(Formats::Csv, Some(5)), Err(PQRSError::UnsupportedOperation()));
    assert_eq!(
        plan_export(Formats::Csv, None),
        Ok(ExportPlan { format: Formats::Csv, limit: RowLimit { remaining: None } })
    );
    assert_eq!(
        plan_export(Formats::CsvNoHeader, Some(3)),
        Ok(ExportPlan { format: Formats::CsvNoHeader, limit: RowLimit { remaining: Some(3) } })
    );
}

#[test]
fn head_plans() {
    let args = |csv, json| HeadCommandArgs { csv, json, records: 5, file: "a.parquet".to_string() };
    assert_eq!(
        head::execute(args(false, false), true),
        Ok(ExportPlan { format: Formats::Default, limit: RowLimit { remaining: Some(5) } })
    );
    assert_eq!(
        head::execute(args(false, true), true),
        Ok(ExportPlan { format: Formats::Json, limit: RowLimit { remaining: Some(5) } })
    );
    assert_eq!(head::execute(args(true, false), true), Err(PQRSError::UnsupportedOperation()));
    assert_eq!(
        head::execute(args(true, false), false),
        Err(PQRSError::FileNotFound("a.parquet".to_string()))
    );
}

#[test]
fn empty_csv_text_is_marked() {
    assert_eq!(csv_block(String::new()), "Empty.");
    assert_eq!(csv_block("a,b\n1,2\n".to_string()), "a,b\n1,2\n");
}

#[test]
fn row_lines() {
    assert_eq!(row_line(Formats::Default, "{a: 1}"), "{a: 1}");
    assert_eq!(row_line(Formats::Json, "{\"a\":1}"), "{\"a\":1}");
    assert_eq!(row_line(Formats::Csv, "{a: 1}"), "Unsupported! {a: 1}");
    assert_eq!(row_line(Formats::CsvNoHeader, "{a: 1}"), "Unsupported! {a: 1}.");
}
