use std::collections::HashSet;

use pqrs::commands::sample::{self, SampleCommandArgs, SamplePlan};
use pqrs::errors::PQRSError;
use pqrs::sampling::RowSample;
use pqrs::utils::Formats;

fn chosen_positions(sample: &mut RowSample, rows: usize) -> Vec<usize> {
    let mut out = Vec::new();
    for p in 0..rows {
        if sample.next_row() {
            out.push(p);
        }
    }
    out
}

#[test]
fn sample_of_at_least_every_row_keeps_all_in_order() {
    for k in [10usize, 11, 1000] {
        let mut s = RowSample::draw(10, k);
        assert_eq!(chosen_positions(&mut s, 10), (0..10).collect::<Vec<_>>());
    }
}

#[test]
fn sample_of_zero_keeps_nothing() {
    let mut s = RowSample::draw(10, 0);
    assert_eq!(chosen_positions(&mut s, 10), Vec::<usize>::new());
    let mut empty = RowSample::draw(0, 3);
    assert!(!empty.next_row());
    let mut negative = RowSample::draw(-4, 3);
    assert!(!negative.next_row());
}

#[test]
fn partial_sample_has_the_asked_size() {
    for _ in 0..20 {
        let mut s = RowSample::draw(50, 7);
        let picked = chosen_positions(&mut s, 50);
        assert_eq!(picked.len(), 7);
        assert!(picked.windows(2).all(|w| w[0] < w[1]));
        assert!(!s.next_row());
    }
}

#[test]
fn every_row_can_be_drawn() {
    let mut seen = HashSet::new();
    for _ in 0..400 {
        let mut s = RowSample::draw(10, 3);
        for p in chosen_positions(&mut s, 10) {
            seen.insert(p);
        }
    }
    assert_eq!(seen.len(), 10);
}

#[test]
fn sample_from_a_given_order() {
    let order = vec![4usize, 9, 1, 7, 0];
    let mut s = RowSample::from_order(&order, 8, 4);
    // 9 is past the end of the file and is ignored
    assert_eq!(chosen_positions(&mut s, 8), vec![1, 4, 7]);
    let mut all = RowSample::from_order(&order, 10, 10);
    assert_eq!(chosen_positions(&mut all, 10), vec![0, 1, 4, 7, 9]);
}

#[test]
fn sample_plans() {
    let args = |json| SampleCommandArgs { file: "f.parquet".to_string(), records: 3, json };
    assert_eq!(
        sample::execute(args(true), true),
        Ok(SamplePlan { format: Formats::Json, sample_size: 3 })
    );
    assert_eq!(
        sample::execute(args(false), true),
        Ok(SamplePlan { format: Formats::Default, sample_size: 3 })
    );
    assert_eq!(
        sample::execute(args(false), false),
        Err(PQRSError::FileNotFound("f.parquet".to_string()))
    );
}
