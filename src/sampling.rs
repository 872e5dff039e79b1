use vstd::prelude::*;
use vstd::seq_lib::group_to_multiset_ensures;

use rand::seq::SliceRandom;

verus! {

/// Relies on rand's `SliceRandom::shuffle` with the thread-local generator: it
/// only swaps elements, so what it leaves is a reordering of what it was given.
#[verifier::external_body]
fn shuffle_positions(positions: &mut Vec<usize>)
    ensures
        final(positions)@.to_multiset() == old(positions)@.to_multiset(),
{
    positions.shuffle(&mut rand::thread_rng());
}

/// The positions `0 .. n` in order.
pub open spec fn all_positions(n: nat) -> Seq<usize> {
    Seq::new(n, |i: int| i as usize)
}

/// The set of positions `0 .. n`.
pub open spec fn position_range(n: nat) -> Set<usize> {
    Set::new(|i: usize| i < n)
}

/// The smaller of a sample size and a population.
pub open spec fn sample_len(sample_size: nat, population: nat) -> nat {
    if sample_size < population {
        sample_size
    } else {
        population
    }
}

/// The number of rows of a file whose metadata states `total_rows`, as far
/// as memory can index them.
pub open spec fn population_of(total_rows: i64) -> nat {
    if total_rows <= 0 {
        0
    } else if total_rows > usize::MAX {
        usize::MAX as nat
    } else {
        total_rows as nat
    }
}

/// A random choice of row positions within a file, and a cursor that walks the
/// file's rows in order and says which of them are chosen.
pub struct RowSample {
    chosen: Vec<bool>,
    position: usize,
}

impl RowSample {
    /// The number of rows the sample was drawn from.
    pub closed spec fn population(&self) -> nat {
        self.chosen@.len()
    }

    /// The chosen positions.
    pub closed spec fn picked(&self) -> Set<usize> {
        Set::new(|i: usize| i < self.chosen@.len() && self.chosen@[i as int])
    }

    /// The position of the next row the cursor will be asked about.
    pub closed spec fn cursor(&self) -> nat {
        self.position as nat
    }

    /// Chooses the positions that stand among the first `sample_size` entries
    /// of `order` and below `total_rows`; other entries are ignored. The cursor
    /// starts at the first row.
    pub fn from_order(order: &Vec<usize>, total_rows: usize, sample_size: usize) -> (r: RowSample)
        ensures
            r.population() == total_rows,
            r.cursor() == 0,
            forall|i: usize|
                #![trigger r.picked().contains(i)]
                r.picked().contains(i) <==> i < total_rows && exists|j: int|
                    0 <= j < sample_len(sample_size as nat, order@.len()) && order@[j] == i,
    {
        let mut chosen: Vec<bool> = Vec::new();
        let mut i: usize = 0;
        while i < total_rows
            invariant
                i <= total_rows,
                chosen@.len() == i,
                forall|p: int| 0 <= p < i ==> !chosen@[p],
            decreases total_rows - i,
        {
            chosen.push(false);
            i = i + 1;
        }
        let limit: usize = if sample_size < order.len() {
            sample_size
        } else {
            order.len()
        };
        let mut j: usize = 0;
        while j < limit
            invariant
                limit == sample_len(sample_size as nat, order@.len()),
                limit <= order@.len(),
                j <= limit,
                chosen@.len() == total_rows,
                forall|p: usize|
                    #![trigger chosen@[p as int]]
                    p < total_rows ==> (chosen@[p as int] <==> exists|q: int|
                        0 <= q < j && order@[q] == p),
            decreases limit - j,
        {
            let p = order[j];
            if p < total_rows {
                chosen.set(p, true);
            }
            assert forall|x: usize| #![trigger chosen@[x as int]] x < total_rows implies (
            chosen@[x as int] <==> exists|q: int| 0 <= q < j + 1 && order@[q] == x) by {
                if x == p {
                    assert(order@[j as int] == x);
                }
            }
            j = j + 1;
        }
        let r = RowSample { chosen, position: 0 };
        assert forall|x: usize| #![trigger r.picked().contains(x)] r.picked().contains(x) <==> x
            < total_rows && exists|q: int|
            0 <= q < sample_len(sample_size as nat, order@.len()) && order@[q] == x by {
            if x < total_rows {
                assert(r.chosen@[x as int] == chosen@[x as int]);
            }
        }
        r
    }

    /// Draws `sample_size` distinct row positions uniformly at random out of a
    /// file of `total_rows` rows (all of them when the file has no more), by
    /// shuffling every position and keeping the first ones.
    pub fn draw(total_rows: i64, sample_size: usize) -> (r: RowSample)
        ensures
            r.population() == population_of(total_rows),
            r.cursor() == 0,
            exists|order: Seq<usize>|
                order.to_multiset() == all_positions(population_of(total_rows)).to_multiset()
                    && r.picked() == order.take(
                    sample_len(sample_size as nat, population_of(total_rows)) as int,
                ).to_set(),
            r.picked().finite(),
            r.picked().len() == sample_len(sample_size as nat, population_of(total_rows)),
            r.picked().subset_of(position_range(population_of(total_rows))),
            sample_size as nat >= population_of(total_rows) ==> r.picked() == position_range(
                population_of(total_rows),
            ),
            sample_size == 0 ==> r.picked() == Set::<usize>::empty(),
    {
        let n: usize = if total_rows <= 0 {
            0
        } else if total_rows as u128 > usize::MAX as u128 {
            usize::MAX
        } else {
            total_rows as usize
        };
        let ghost pop = population_of(total_rows);
        assert(n == pop);
        let mut order: Vec<usize> = Vec::new();
        let mut i: usize = 0;
        while i < n
            invariant
                i <= n,
                order@ == all_positions(i as nat),
            decreases n - i,
        {
            order.push(i);
            i = i + 1;
            assert(order@ =~= all_positions(i as nat));
        }
        let ghost range = order@;
        shuffle_positions(&mut order);
        let ghost shuffled = order@;
        let r = RowSample::from_order(&order, n, sample_size);
        let ghost m = sample_len(sample_size as nat, n as nat);
        proof {
            broadcast use group_to_multiset_ensures;

            assert(shuffled.len() == n) by {
                assert(shuffled.to_multiset().len() == range.to_multiset().len());
            }
            // every shuffled entry is a position of the file, and each occurs once
            assert forall|q: int| 0 <= q < shuffled.len() implies shuffled[q] < n by {
                assert(shuffled.contains(shuffled[q]));
                assert(shuffled.to_multiset().count(shuffled[q]) > 0);
                assert(range.contains(shuffled[q]));
            }
            assert(range.no_duplicates());
            range.lemma_multiset_has_no_duplicates();
            shuffled.lemma_multiset_has_no_duplicates_conv();
            let head = shuffled.take(m as int);
            assert(head.no_duplicates());
            head.unique_seq_to_set();
            assert(r.picked() =~= head.to_set()) by {
                assert forall|x: usize| r.picked().contains(x) implies head.to_set().contains(x) by {
                    let q = choose|q: int| 0 <= q < m && shuffled[q] == x;
                    assert(head[q] == x);
                }
                assert forall|x: usize| head.to_set().contains(x) implies r.picked().contains(x) by {
                    let q = choose|q: int| 0 <= q < head.len() && head[q] == x;
                    assert(shuffled[q] == x);
                }
            }
            assert(r.picked().subset_of(position_range(pop)));
            if sample_size as nat >= pop {
                assert(r.picked() =~= position_range(pop)) by {
                    assert forall|x: usize| position_range(pop).contains(x) implies r.picked().contains(
                        x,
                    ) by {
                        assert(range[x as int] == x);
                        assert(range.contains(x));
                        assert(shuffled.to_multiset().count(x) > 0);
                        assert(shuffled.contains(x));
                        let q = choose|q: int| 0 <= q < shuffled.len() && shuffled[q] == x;
                        assert(head[q] == x);
                    }
                }
            }
            if sample_size == 0 {
                assert(r.picked() =~= Set::<usize>::empty());
            }
        }
        r
    }

    /// Whether the row at the cursor is chosen; the cursor moves to the next
    /// row. Past the last row nothing is chosen and the cursor stays.
    pub fn next_row(&mut self) -> (r: bool)
        ensures
            r == (old(self).cursor() < old(self).population() && old(self).picked().contains(
                old(self).cursor() as usize,
            )),
            final(self).picked() == old(self).picked(),
            final(self).population() == old(self).population(),
            final(self).cursor() == if old(self).cursor() < old(self).population() {
                old(self).cursor() + 1
            } else {
                old(self).cursor()
            },
    {
        if self.position < self.chosen.len() {
            let r = self.chosen[self.position];
            self.position = self.position + 1;
            r
        } else {
            false
        }
    }
}

/// The rows that a sample writes: those whose position is chosen, in the
/// order in which they stand in the file.
pub open spec fn sampled_rows<R>(picked: Set<usize>, rows: Seq<R>) -> Seq<R>
    decreases rows.len(),
{
    if rows.len() == 0 {
        Seq::empty()
    } else {
        let earlier = sampled_rows(picked, rows.drop_last());
        if picked.contains((rows.len() - 1) as usize) {
            earlier.push(rows.last())
        } else {
            earlier
        }
    }
}

/// A sample that chose every position writes every row once, in file order;
/// one that chose none writes nothing.
pub proof fn lemma_sample_extremes<R>(picked: Set<usize>, rows: Seq<R>)
    requires
        rows.len() <= usize::MAX,
    ensures
        position_range(rows.len()).subset_of(picked) ==> sampled_rows(picked, rows) == rows,
        picked == Set::<usize>::empty() ==> sampled_rows(picked, rows) == Seq::<R>::empty(),
    decreases rows.len(),
{
    if rows.len() > 0 {
        lemma_sample_extremes(picked, rows.drop_last());
        if position_range(rows.len()).subset_of(picked) {
            assert(position_range(rows.drop_last().len()).subset_of(picked));
            assert(picked.contains((rows.len() - 1) as usize));
            assert(rows.drop_last().push(rows.last()) =~= rows);
        }
    }
}

} // verus!
