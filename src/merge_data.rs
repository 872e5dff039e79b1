use vstd::prelude::*;

verus! {

/// A table schema: its column fields, in order, and the file-level key/value
/// metadata that came with it.
pub struct TableSchema<F> {
    pub fields: Vec<F>,
    pub metadata: Vec<(String, String)>,
}

impl<F> TableSchema<F> {
    /// The same columns with every key/value metadata entry dropped.
    pub fn without_metadata(self) -> (r: TableSchema<F>)
        ensures
            r.fields@ == self.fields@,
            r.metadata@.len() == 0,
    {
        TableSchema { fields: self.fields, metadata: Vec::new() }
    }
}

/// Everything read from one input file: its schema, its batches in file
/// order, and how many rows they hold.
pub struct ParquetData<S, B> {
    pub schema: S,
    pub batches: Vec<B>,
    pub rows: usize,
}

impl<S, B> ParquetData<S, B> {
    /// The batches of `self` followed by those of `rhs`, under the schema of
    /// `self`.
    pub fn add(self, rhs: Self) -> (r: Self)
        requires
            self.rows + rhs.rows <= usize::MAX,
        ensures
            r.schema == self.schema,
            r.batches@ == self.batches@ + rhs.batches@,
            r.rows == self.rows + rhs.rows,
    {
        let mut left = self;
        let mut right = rhs;
        let mut combined_data: Vec<B> = Vec::new();
        combined_data.append(&mut left.batches);
        combined_data.append(&mut right.batches);
        ParquetData { schema: left.schema, batches: combined_data, rows: left.rows + right.rows }
    }
}

impl<S, B> ParquetData<S, B> {
    /// Appends one more batch of `batch_rows` rows read from the file.
    pub fn push_batch(&mut self, batch: B, batch_rows: usize)
        requires
            old(self).rows + batch_rows <= usize::MAX,
        ensures
            final(self).schema == old(self).schema,
            final(self).batches@ == old(self).batches@.push(batch),
            final(self).rows == old(self).rows + batch_rows,
    {
        self.batches.push(batch);
        self.rows = self.rows + batch_rows;
    }
}

/// The batches of several inputs, one after the other in input order.
pub open spec fn concatenated<S, B>(inputs: Seq<ParquetData<S, B>>) -> Seq<B>
    decreases inputs.len(),
{
    if inputs.len() == 0 {
        Seq::empty()
    } else {
        concatenated(inputs.drop_last()) + inputs.last().batches@
    }
}

/// The rows of several inputs together.
pub open spec fn total_rows<S, B>(inputs: Seq<ParquetData<S, B>>) -> int
    decreases inputs.len(),
{
    if inputs.len() == 0 {
        0
    } else {
        total_rows(inputs.drop_last()) + inputs.last().rows
    }
}

/// A merge under way: the output schema, and the inputs taken so far, in
/// order, kept for proofs only. Each input's batches are handed back to be
/// written as it is taken, so no input needs to be kept once written.
pub struct MergeProgress<F, B> {
    pub schema: TableSchema<F>,
    pub taken: Ghost<Seq<ParquetData<TableSchema<F>, B>>>,
}

impl<F, B> MergeProgress<F, B> {
    /// The batches written so far, in order.
    pub open spec fn written(&self) -> Seq<B> {
        concatenated(self.taken@)
    }

    /// The rows written so far.
    pub open spec fn rows_written(&self) -> int {
        total_rows(self.taken@)
    }

    /// Starts a merge from its first input: the output takes that input's
    /// columns with no metadata, and its batches are the first to write.
    pub fn begin(seed: ParquetData<TableSchema<F>, B>) -> (r: (MergeProgress<F, B>, Vec<B>))
        ensures
            r.0.taken@ == seq![seed],
            r.0.schema.fields@ == seed.schema.fields@,
            r.0.schema.metadata@.len() == 0,
            r.1@ == seed.batches@,
            r.0.written() == seed.batches@,
            r.0.rows_written() == seed.rows,
    {
        let ghost first = seed;
        proof {
            let s = seq![first];
            assert(s.drop_last() =~= Seq::<ParquetData<TableSchema<F>, B>>::empty());
            assert(s.last() == first);
            assert(concatenated(s) == concatenated(s.drop_last()) + first.batches@);
            assert(concatenated(s.drop_last()) == Seq::<B>::empty());
            assert(concatenated(s) =~= first.batches@);
            assert(total_rows(s) == total_rows(s.drop_last()) + first.rows);
            assert(total_rows(s.drop_last()) == 0);
        }
        let ghost taken = seq![first];
        let progress = MergeProgress { schema: seed.schema.without_metadata(), taken: Ghost(taken) };
        (progress, seed.batches)
    }

    /// Takes the next input: its batches are the next to write, after all
    /// earlier ones, and the output schema stays as it was.
    pub fn add_input(&mut self, next: ParquetData<TableSchema<F>, B>) -> (r: Vec<B>)
        ensures
            final(self).taken@ == old(self).taken@.push(next),
            final(self).schema == old(self).schema,
            r@ == next.batches@,
            final(self).written() == old(self).written() + next.batches@,
            final(self).rows_written() == old(self).rows_written() + next.rows,
    {
        let ghost input = next;
        let ghost before = self.taken@;
        proof {
            assert(before.push(input).drop_last() =~= before);
            assert(before.push(input).last() == input);
        }
        let ghost grown = before.push(input);
        self.taken = Ghost(grown);
        next.batches
    }
}

/// A merge of two files writes all the batches of the first, then all those
/// of the second, and as many rows as both hold together; its schema has the
/// first file's columns and no metadata entries, whatever metadata either
/// input carried.
pub proof fn lemma_merge_two<F, B>(
    a: ParquetData<TableSchema<F>, B>,
    b: ParquetData<TableSchema<F>, B>,
    merged: MergeProgress<F, B>,
)
    requires
        merged.taken@ == seq![a, b],
        merged.schema.fields@ == a.schema.fields@,
        merged.schema.metadata@.len() == 0,
    ensures
        merged.written() == a.batches@ + b.batches@,
        merged.rows_written() == a.rows + b.rows,
        merged.schema.fields@ == a.schema.fields@,
        merged.schema.metadata@.len() == 0,
{
    let s = seq![a, b];
    assert(s.drop_last() =~= seq![a]);
    assert(seq![a].drop_last() =~= Seq::<ParquetData<TableSchema<F>, B>>::empty());
    assert(seq![a].last() == a);
    assert(s.last() == b);
    assert(concatenated(seq![a]) == concatenated(seq![a].drop_last()) + a.batches@);
    assert(concatenated(seq![a]) =~= a.batches@);
    assert(total_rows(seq![a]) == total_rows(seq![a].drop_last()) + a.rows);
}

} // verus!
