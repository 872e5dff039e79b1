use pqrs::commands::cat::{self, CatCommandArgs, CatPlan};
use pqrs::commands::merge::{self, MergeCommandArgs};
use pqrs::commands::rowcount::{self, row_count_line, RowCountCommandArgs};
use pqrs::commands::schema::{
    self, get_column_information, get_schema_metadata, ColumnFacts, KeyValue, SchemaCommandArgs,
    SchemaView,
};
use pqrs::commands::size::{self, size_line, SizeCommandArgs};
use pqrs::errors::PQRSError;
use pqrs::export::{ExportPlan, RowLimit};
use pqrs::files::{resolve_file_set, Location, WalkEntry};
use pqrs::merge_data::{MergeProgress, ParquetData, TableSchema};
use pqrs::utils::{check_files_present, Formats};

fn entry(path: &str, names: &[&str], is_file: bool) -> WalkEntry {
    WalkEntry {
        path: path.to_string(),
        names: names.iter().map(|n| Some(n.to_string())).collect(),
        is_file,
    }
}

fn data_dir() -> Location {
    Location::Directory(vec![
        entry("data", &[], false),
        entry("data/a.parquet", &["a.parquet"], true),
        entry("data/.cache", &[".cache"], false),
        entry("data/.cache/x.parquet", &[".cache", "x.parquet"], true),
        entry("data/sub", &["sub"], false),
        entry("data/sub/b.parquet", &["sub", "b.parquet"], true),
        entry("data/.hidden.parquet", &[".hidden.parquet"], true),
    ])
}

#[test]
fn same_file_twice_is_kept_once() {
    let locs = vec![
        Location::File("x.parquet".to_string()),
        Location::File("y.parquet".to_string()),
        Location::File("x.parquet".to_string()),
    ];
    assert_eq!(resolve_file_set(&locs), vec!["x.parquet", "y.parquet"]);
}

#[test]
fn file_inside_a_given_directory_is_kept_once() {
    let locs = vec![Location::File("data/sub/b.parquet".to_string()), data_dir()];
    assert_eq!(resolve_file_set(&locs), vec!["data/sub/b.parquet", "data/a.parquet"]);
}

#[test]
fn hidden_entries_and_their_subtrees_are_pruned() {
    let files = resolve_file_set(&vec![data_dir()]);
    assert_eq!(files, vec!["data/a.parquet", "data/sub/b.parquet"]);
}

#[test]
fn a_directory_named_with_a_dot_is_still_walked() {
    let current = Location::Directory(vec![
        entry(".", &[], false),
        entry("./.h", &[".h"], false),
        entry("./.h/x.parquet", &[".h", "x.parquet"], true),
        entry("./a.parquet", &["a.parquet"], true),
    ]);
    assert_eq!(resolve_file_set(&vec![current]), vec!["./a.parquet"]);
    let dotted = Location::Directory(vec![
        entry(".config", &[], false),
        entry(".config/c.parquet", &["c.parquet"], true),
    ]);
    assert_eq!(resolve_file_set(&vec![dotted]), vec![".config/c.parquet"]);
}

#[test]
fn names_that_are_not_text_are_not_hidden() {
    let odd = WalkEntry {
        path: "d/odd".to_string(),
        names: vec![None],
        is_file: true,
    };
    assert_eq!(resolve_file_set(&vec![Location::Directory(vec![odd])]), vec!["d/odd"]);
}

#[test]
fn missing_locations_stay_for_the_check() {
    let locs = vec![
        Location::Missing("nope.parquet".to_string()),
        Location::Other,
        Location::File("a.parquet".to_string()),
    ];
    let files = resolve_file_set(&locs);
    assert_eq!(files, vec!["nope.parquet", "a.parquet"]);
    assert_eq!(
        check_files_present(&files, &vec![false, true]),
        Err(PQRSError::FileNotFound("nope.parquet".to_string()))
    );
}

#[test]
fn first_missing_file_is_reported() {
    let files: Vec<String> = vec!["a".into(), "b".into(), "c".into()];
    assert_eq!(check_files_present(&files, &vec![true, true, true]), Ok(()));
    assert_eq!(
        check_files_present(&files, &vec![true, false, false]),
        Err(PQRSError::FileNotFound("b".to_string()))
    );
}

#[test]
fn cat_plans() {
    let args = |csv, csv_no_header, json, quiet| CatCommandArgs {
        csv,
        csv_no_header,
        json,
        quiet,
        raw_timestamp: false,
        locations: vec![],
    };
    let files: Vec<String> = vec!["a".into()];
    let plan = |format, banner| {
        Ok(CatPlan { export: ExportPlan { format, limit: RowLimit { remaining: None } }, banner })
    };
    assert_eq!(cat::execute(&args(false, false, false, false), &files, &vec![true]), plan(Formats::Default, true));
    assert_eq!(cat::execute(&args(true, false, false, true), &files, &vec![true]), plan(Formats::Csv, false));
    assert_eq!(cat::execute(&args(true, true, false, false), &files, &vec![true]), plan(Formats::CsvNoHeader, true));
    assert_eq!(cat::execute(&args(false, false, true, false), &files, &vec![true]), plan(Formats::Json, true));
    assert_eq!(
        cat::execute(&args(false, false, false, false), &files, &vec![false]),
        Err(PQRSError::FileNotFound("a".to_string()))
    );
}

fn data(rows: Vec<u32>, metadata: Vec<(&str, &str)>) -> ParquetData<TableSchema<&'static str>, Vec<u32>> {
    let n = rows.len();
    ParquetData {
        schema: TableSchema {
            fields: vec!["id", "name"],
            metadata: metadata.into_iter().map(|(k, v)| (k.to_string(), v.to_string())).collect(),
        },
        batches: vec![rows],
        rows: n,
    }
}

fn merge_all(
    inputs: Vec<ParquetData<TableSchema<&'static str>, Vec<u32>>>,
) -> (MergeProgress<&'static str, Vec<u32>>, Vec<Vec<u32>>) {
    let mut it = inputs.into_iter();
    let (mut progress, mut written) = MergeProgress::begin(it.next().unwrap());
    for next in it {
        written.extend(progress.add_input(next));
    }
    (progress, written)
}

#[test]
fn merge_concatenates_rows_and_drops_metadata() {
    let a = data(vec![1, 2, 3], vec![("writer", "a")]);
    let b = data(vec![4, 5], vec![("writer", "b"), ("extra", "x")]);
    let (progress, written) = merge_all(vec![a, b]);
    assert_eq!(written.concat(), vec![1, 2, 3, 4, 5]);
    assert_eq!(progress.schema.fields, vec!["id", "name"]);
    assert!(progress.schema.metadata.is_empty());
}

#[test]
fn merge_of_one_input_keeps_it() {
    let (progress, written) = merge_all(vec![data(vec![7, 8], vec![("k", "v")])]);
    assert_eq!(written, vec![vec![7, 8]]);
    assert!(progress.schema.metadata.is_empty());
}

#[test]
fn merge_keeps_input_order() {
    let inputs = vec![data(vec![3], vec![]), data(vec![1, 2], vec![]), data(vec![], vec![]), data(vec![9], vec![])];
    let (_, written) = merge_all(inputs);
    assert_eq!(written.concat(), vec![3, 1, 2, 9]);
}

#[test]
fn pushed_batches_are_counted() {
    let mut d: ParquetData<(), Vec<u32>> = ParquetData { schema: (), batches: vec![], rows: 0 };
    d.push_batch(vec![1, 2], 2);
    d.push_batch(vec![3], 1);
    assert_eq!(d.batches, vec![vec![1, 2], vec![3]]);
    assert_eq!(d.rows, 3);
}

#[test]
fn adding_data_appends_batches() {
    let a = data(vec![1], vec![]);
    let b = data(vec![2, 3], vec![]);
    let sum = a.add(b);
    assert_eq!(sum.batches, vec![vec![1], vec![2, 3]]);
    assert_eq!(sum.rows, 3);
}

#[test]
fn merge_onto_an_existing_output_is_refused() {
    let opts = MergeCommandArgs { input: vec!["a".into(), "b".into()], output: "out".into() };
    assert_eq!(merge::execute(&opts, true, &vec![true, true]), Err(PQRSError::FileExists("out".to_string())));
    assert_eq!(merge::execute(&opts, true, &vec![false, false]), Err(PQRSError::FileExists("out".to_string())));
    assert_eq!(merge::execute(&opts, false, &vec![true, false]), Err(PQRSError::FileNotFound("b".to_string())));
    assert_eq!(merge::execute(&opts, false, &vec![true, true]), Ok(()));
}

#[test]
fn report_lines() {
    assert_eq!(row_count_line("data/cities.parquet", 3), "File Name:data/cities.parquet, 3 rows");
    let opts = |compressed, pretty| SizeCommandArgs { files: vec![], compressed, pretty };
    assert_eq!(size_line(&opts(false, false), (2048, 100)), "Uncompressed size: 2048");
    assert_eq!(size_line(&opts(false, true), (2048, 100)), "Uncompressed size: 2 KiB");
    assert_eq!(size_line(&opts(true, false), (2048, 100)), "compressed size: 100");
    assert_eq!(size_line(&opts(true, true), (2048, 100)), "compressed size: 100 Bytes");
}

#[test]
fn report_checks() {
    let files: Vec<String> = vec!["a".into(), "b".into()];
    assert_eq!(
        rowcount::execute(&RowCountCommandArgs { files: files.clone() }, &vec![true, false]),
        Err(PQRSError::FileNotFound("b".to_string()))
    );
    let size_opts = SizeCommandArgs { files: files.clone(), compressed: false, pretty: false };
    assert_eq!(size::execute(&size_opts, &vec![true, true]), Ok(()));
    let schema_opts = |detailed, json| SchemaCommandArgs { files: files.clone(), detailed, json };
    assert_eq!(schema::execute(&schema_opts(false, true), &vec![true, true]), Ok(SchemaView::Json));
    assert_eq!(schema::execute(&schema_opts(true, false), &vec![true, true]), Ok(SchemaView::Detailed));
    assert_eq!(schema::execute(&schema_opts(false, false), &vec![true, true]), Ok(SchemaView::Summary));
    assert_eq!(
        schema::execute(&schema_opts(false, false), &vec![false, true]),
        Err(PQRSError::FileNotFound("a".to_string()))
    );
}

#[test]
fn column_information_names_each_fact() {
    let cols = vec![ColumnFacts {
        name: "city".into(),
        path: "country.city".into(),
        optional: true,
        physical_type: "BYTE_ARRAY".into(),
        converted_type: "UTF8".into(),
    }];
    let info = get_column_information(cols);
    let expected: Vec<(String, String)> = vec![
        ("name".into(), "city".into()),
        ("path".into(), "country.city".into()),
        ("optional".into(), "true".into()),
        ("physical_type".into(), "BYTE_ARRAY".into()),
        ("converted_type".into(), "UTF8".into()),
    ];
    assert_eq!(info, vec![expected]);
}

#[test]
fn banner_names_the_file_between_rules() {
    assert_eq!(cat::file_banner("a.parquet"), "\n###############\nFile: a.parquet\n###############\n\n");
    let name = "données.parquet";
    let rule = "#".repeat(6 + name.len());
    assert_eq!(cat::file_banner(name), format!("\n{}\nFile: {}\n{}\n\n", rule, name, rule));
}

#[test]
fn later_metadata_values_replace_earlier_ones() {
    let kv = |k: &str, v: Option<&str>| KeyValue { key: k.to_string(), value: v.map(String::from) };
    assert_eq!(get_schema_metadata(None), None);
    assert_eq!(get_schema_metadata(Some(vec![])), Some(vec![]));
    let got = get_schema_metadata(Some(vec![
        kv("writer", Some("a")),
        kv("schema", None),
        kv("writer", Some("b")),
    ]))
    .unwrap();
    let expected: Vec<(String, Option<String>)> =
        vec![("writer".into(), Some("b".into())), ("schema".into(), None)];
    assert_eq!(got, expected);
}
