use vstd::prelude::*;
use vstd::string::*;

use crate::errors::PQRSError;
use crate::utils::{check_files_present, first_missing};

verus! {

/// Options of the command that shows the schema of files.
pub struct SchemaCommandArgs {
    pub files: Vec<String>,
    pub detailed: bool,
    pub json: bool,
}

/// Which rendering of the metadata is printed.
#[derive(Copy, Clone, Debug, PartialEq, Eq, Structural)]
pub enum SchemaView {
    /// One JSON document per file.
    Json,
    /// The full metadata, row groups included.
    Detailed,
    /// The file-level metadata.
    Summary,
}

/// Decides which rendering to print, after checking that every file was
/// found; the first missing one is reported.
pub fn execute(opts: &SchemaCommandArgs, present: &Vec<bool>) -> (r: Result<SchemaView, PQRSError>)
    requires
        opts.files@.len() == present@.len(),
    ensures
        r is Ok <==> forall|i: int| 0 <= i < present@.len() ==> present@[i],
        r is Err ==> exists|i: int|
            first_missing(present@, i) && r == Err::<SchemaView, PQRSError>(
                PQRSError::FileNotFound(opts.files@[i]),
            ),
        r is Ok ==> r == Ok::<SchemaView, PQRSError>(
            if opts.json {
                SchemaView::Json
            } else if opts.detailed {
                SchemaView::Detailed
            } else {
                SchemaView::Summary
            },
        ),
{
    match check_files_present(&opts.files, present) {
        Err(e) => Err(e),
        Ok(()) => {
            if opts.json {
                Ok(SchemaView::Json)
            } else if opts.detailed {
                Ok(SchemaView::Detailed)
            } else {
                Ok(SchemaView::Summary)
            }
        },
    }
}

/// What the metadata states about one leaf column, each fact already written
/// as text but `optional`.
pub struct ColumnFacts {
    pub name: String,
    pub path: String,
    pub optional: bool,
    pub physical_type: String,
    pub converted_type: String,
}

/// The schema of a file as the JSON rendering presents it. The metadata holds
/// each key once; every column is a list of named facts.
pub struct ParquetSchema {
    pub version: i32,
    pub num_rows: i64,
    pub created_by: Option<String>,
    pub metadata: Option<Vec<(String, Option<String>)>>,
    pub columns: Vec<Vec<(String, String)>>,
    pub message: String,
}

/// The named facts of one column.
pub open spec fn column_entries(c: ColumnFacts) -> Seq<(Seq<char>, Seq<char>)> {
    seq![
        ("name"@, c.name@),
        ("path"@, c.path@),
        ("optional"@, if c.optional { "true"@ } else { "false"@ }),
        ("physical_type"@, c.physical_type@),
        ("converted_type"@, c.converted_type@),
    ]
}

pub open spec fn entries_view(e: Seq<(String, String)>) -> Seq<(Seq<char>, Seq<char>)> {
    e.map_values(|p: (String, String)| (p.0@, p.1@))
}

fn column_information(c: ColumnFacts) -> (r: Vec<(String, String)>)
    ensures
        entries_view(r@) == column_entries(c),
{
    let optional = if c.optional {
        String::from_str("true")
    } else {
        String::from_str("false")
    };
    let mut r: Vec<(String, String)> = Vec::new();
    r.push((String::from_str("name"), c.name));
    r.push((String::from_str("path"), c.path));
    r.push((String::from_str("optional"), optional));
    r.push((String::from_str("physical_type"), c.physical_type));
    r.push((String::from_str("converted_type"), c.converted_type));
    assert(entries_view(r@) =~= column_entries(c));
    r
}

/// The named facts of every column, in column order.
pub fn get_column_information(columns: Vec<ColumnFacts>) -> (r: Vec<Vec<(String, String)>>)
    ensures
        r@.len() == columns@.len(),
        forall|i: int| 0 <= i < r@.len() ==> entries_view(#[trigger] r@[i]@) == column_entries(
            columns@[i],
        ),
{
    let ghost all = columns@;
    let mut rest = columns;
    let mut r: Vec<Vec<(String, String)>> = Vec::new();
    while rest.len() > 0
        invariant
            r@.len() + rest@.len() == all.len(),
            rest@ == all.subrange(r@.len() as int, all.len() as int),
            forall|i: int| 0 <= i < r@.len() ==> entries_view(#[trigger] r@[i]@) == column_entries(
                all[i],
            ),
        decreases rest.len(),
    {
        let c = rest.remove(0);
        assert(c == all[r@.len() as int]);
        r.push(column_information(c));
    }
    r
}

/// One key/value entry of a file's metadata.
pub struct KeyValue {
    pub key: String,
    pub value: Option<String>,
}

pub open spec fn opt_view(o: Option<String>) -> Option<Seq<char>> {
    match o {
        Some(s) => Some(s@),
        None => None,
    }
}

/// What the entries say when read in order, a later entry for a key
/// replacing an earlier one.
pub open spec fn metadata_map(kvs: Seq<KeyValue>) -> Map<Seq<char>, Option<Seq<char>>>
    decreases kvs.len(),
{
    if kvs.len() == 0 {
        Map::empty()
    } else {
        metadata_map(kvs.drop_last()).insert(kvs.last().key@, opt_view(kvs.last().value))
    }
}

/// The map a list of key/value pairs stands for.
pub open spec fn pairs_map(ps: Seq<(String, Option<String>)>) -> Map<Seq<char>, Option<Seq<char>>>
    decreases ps.len(),
{
    if ps.len() == 0 {
        Map::empty()
    } else {
        pairs_map(ps.drop_last()).insert(ps.last().0@, opt_view(ps.last().1))
    }
}

/// No key occurs twice.
pub open spec fn keys_unique(ps: Seq<(String, Option<String>)>) -> bool {
    forall|i: int, j: int| 0 <= i < j < ps.len() ==> ps[i].0@ != ps[j].0@
}

proof fn lemma_pairs_map_keys(ps: Seq<(String, Option<String>)>, k: Seq<char>)
    ensures
        pairs_map(ps).contains_key(k) <==> exists|j: int| 0 <= j < ps.len() && ps[j].0@ == k,
    decreases ps.len(),
{
    if ps.len() > 0 {
        lemma_pairs_map_keys(ps.drop_last(), k);
        if exists|j: int| 0 <= j < ps.drop_last().len() && ps.drop_last()[j].0@ == k {
            let j = choose|j: int| 0 <= j < ps.drop_last().len() && ps.drop_last()[j].0@ == k;
            assert(ps[j].0@ == k);
        }
        if exists|j: int| 0 <= j < ps.len() && ps[j].0@ == k {
            let j = choose|j: int| 0 <= j < ps.len() && ps[j].0@ == k;
            if j < ps.len() - 1 {
                assert(ps.drop_last()[j].0@ == k);
            }
        }
    }
}

proof fn lemma_pairs_map_update(ps: Seq<(String, Option<String>)>, j: int, p: (String, Option<String>))
    requires
        keys_unique(ps),
        0 <= j < ps.len(),
        ps[j].0@ == p.0@,
    ensures
        pairs_map(ps.update(j, p)) == pairs_map(ps).insert(p.0@, opt_view(p.1)),
    decreases ps.len(),
{
    let q = ps.update(j, p);
    if j == ps.len() - 1 {
        assert(q.drop_last() =~= ps.drop_last());
        assert(pairs_map(q) =~= pairs_map(ps).insert(p.0@, opt_view(p.1)));
    } else {
        assert(q.drop_last() =~= ps.drop_last().update(j, p));
        lemma_pairs_map_update(ps.drop_last(), j, p);
        assert(ps.last().0@ != p.0@);
        assert(q.last() == ps.last());
        assert(pairs_map(q) =~= pairs_map(ps).insert(p.0@, opt_view(p.1)));
    }
}

fn collect_metadata(kvs: Vec<KeyValue>) -> (r: Vec<(String, Option<String>)>)
    ensures
        keys_unique(r@),
        pairs_map(r@) == metadata_map(kvs@),
{
    let ghost all = kvs@;
    let mut rest = kvs;
    let mut fields: Vec<(String, Option<String>)> = Vec::new();
    let ghost mut done: int = 0;
    while rest.len() > 0
        invariant
            0 <= done <= all.len(),
            rest@ == all.subrange(done, all.len() as int),
            keys_unique(fields@),
            pairs_map(fields@) == metadata_map(all.take(done)),
        decreases rest.len(),
    {
        let kv = rest.remove(0);
        assert(kv == all[done]);
        assert(all.take(done + 1).drop_last() =~= all.take(done));
        let mut j: usize = 0;
        let mut found = false;
        while j < fields.len() && !found
            invariant
                j <= fields@.len(),
                found ==> j < fields@.len() && fields@[j as int].0@ == kv.key@,
                !found ==> forall|i: int| 0 <= i < j ==> fields@[i].0@ != kv.key@,
            decreases fields@.len() - j, if found { 0int } else { 1int },
        {
            if fields[j].0 == kv.key {
                found = true;
            } else {
                j = j + 1;
            }
        }
        if found {
            let entry = (kv.key, kv.value);
            proof {
                lemma_pairs_map_update(fields@, j as int, entry);
            }
            fields.set(j, entry);
            assert forall|a: int, b: int| 0 <= a < b < fields@.len() implies fields@[a].0@
                != fields@[b].0@ by {
            }
        } else {
            let entry = (kv.key, kv.value);
            let ghost before = fields@;
            fields.push(entry);
            assert(fields@.drop_last() =~= before);
        }
        proof {
            done = done + 1;
        }
    }
    assert(all.take(all.len() as int) =~= all);
    fields
}

/// The file's key/value metadata with each key once, a later value for a
/// key replacing an earlier one; `None` when the file has none.
pub fn get_schema_metadata(key_values: Option<Vec<KeyValue>>) -> (r: Option<
    Vec<(String, Option<String>)>,
>)
    ensures
        key_values is None <==> r is None,
        key_values is Some ==> keys_unique(r->Some_0@) && pairs_map(r->Some_0@) == metadata_map(
            key_values->Some_0@,
        ),
{
    match key_values {
        Some(kvs) => Some(collect_metadata(kvs)),
        None => None,
    }
}

} // verus!
