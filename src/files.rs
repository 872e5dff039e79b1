use vstd::prelude::*;

use linked_hash_set::LinkedHashSet;

use crate::utils::hidden_name;

verus! {

#[verifier::external_type_specification]
#[verifier::external_body]
#[verifier::reject_recursive_types(T)]
#[verifier::reject_recursive_types(S)]
pub struct ExLinkedHashSet<T, S>(LinkedHashSet<T, S>);

/// The paths a set of paths holds, in the set's order.
pub uninterp spec fn path_set_items(set: LinkedHashSet<String>) -> Seq<Seq<char>>;

/// Relies on `LinkedHashSet::new`: a new set is empty.
#[verifier::external_body]
fn new_path_set() -> (r: LinkedHashSet<String>)
    ensures
        path_set_items(r) == Seq::<Seq<char>>::empty(),
{
    LinkedHashSet::new()
}

/// Relies on `LinkedHashSet::insert_if_absent`: a path not yet in the set is
/// added at the end and `true` returned; a path already there leaves the set
/// and its order as they were, and `false` is returned.
#[verifier::external_body]
fn insert_path(set: &mut LinkedHashSet<String>, path: String) -> (r: bool)
    ensures
        r == !path_set_items(*old(set)).contains(path@),
        path_set_items(*final(set)) == if r {
            path_set_items(*old(set)).push(path@)
        } else {
            path_set_items(*old(set))
        },
{
    set.insert_if_absent(path)
}

/// Relies on `LinkedHashSet`'s consuming iterator: it yields the paths in the
/// set's order.
#[verifier::external_body]
fn path_set_into_vec(set: LinkedHashSet<String>) -> (r: Vec<String>)
    ensures
        r@.map_values(|p: String| p@) == path_set_items(set),
{
    set.into_iter().collect()
}

/// One entry met while walking a directory depth first.
pub struct WalkEntry {
    /// The entry's path.
    pub path: String,
    /// The names on the way from the walked directory down to the entry, the
    /// directory's own name left out (empty for the directory itself); `None`
    /// for a name that is not valid text.
    pub names: Vec<Option<String>>,
    /// Whether the entry is a regular file.
    pub is_file: bool,
}

/// What a location given by the operator turned out to be.
pub enum Location {
    /// A regular file, by its path.
    File(String),
    /// A directory, with the entries of a depth-first walk of it in walk order.
    Directory(Vec<WalkEntry>),
    /// A path where nothing is found.
    Missing(String),
    /// Something that is neither a file nor a directory.
    Other,
}

pub open spec fn name_view(name: Option<String>) -> Option<Seq<char>> {
    match name {
        Some(s) => Some(s@),
        None => None,
    }
}

/// An entry is visible when no name on its way down from the walked
/// directory is hidden: a hidden directory's whole subtree is pruned, while
/// the walked directory itself is never hidden, whatever its name (`.` or
/// `..` included).
pub open spec fn entry_visible(e: WalkEntry) -> bool {
    forall|i: int| 0 <= i < e.names@.len() ==> !hidden_name(#[trigger] name_view(e.names@[i]))
}

/// The files a walk contributes, in walk order.
pub open spec fn walk_files(entries: Seq<WalkEntry>) -> Seq<Seq<char>>
    decreases entries.len(),
{
    if entries.len() == 0 {
        Seq::empty()
    } else {
        let earlier = walk_files(entries.drop_last());
        let e = entries.last();
        if e.is_file && entry_visible(e) {
            earlier.push(e.path@)
        } else {
            earlier
        }
    }
}

/// The paths one location contributes. A missing path is kept, so that the
/// check of the resolved set reports it.
pub open spec fn location_files(loc: Location) -> Seq<Seq<char>> {
    match loc {
        Location::File(p) => seq![p@],
        Location::Missing(p) => seq![p@],
        Location::Directory(entries) => walk_files(entries@),
        Location::Other => Seq::empty(),
    }
}

/// The paths all locations contribute, in order, repeats included.
pub open spec fn candidate_files(locs: Seq<Location>) -> Seq<Seq<char>>
    decreases locs.len(),
{
    if locs.len() == 0 {
        Seq::empty()
    } else {
        candidate_files(locs.drop_last()) + location_files(locs.last())
    }
}

/// Each path once, at the place where it was first seen.
pub open spec fn first_occurrences(s: Seq<Seq<char>>) -> Seq<Seq<char>>
    decreases s.len(),
{
    if s.len() == 0 {
        Seq::empty()
    } else {
        let earlier = first_occurrences(s.drop_last());
        if earlier.contains(s.last()) {
            earlier
        } else {
            earlier.push(s.last())
        }
    }
}

/// The resolved file set of a list of locations.
pub open spec fn resolved_files(locs: Seq<Location>) -> Seq<Seq<char>> {
    first_occurrences(candidate_files(locs))
}

fn add_walk(set: &mut LinkedHashSet<String>, entries: &Vec<WalkEntry>, Ghost(seen): Ghost<
    Seq<Seq<char>>,
>)
    requires
        path_set_items(*old(set)) == first_occurrences(seen),
    ensures
        path_set_items(*final(set)) == first_occurrences(seen + walk_files(entries@)),
{
    let mut j: usize = 0;
    assert(entries@.take(0) =~= Seq::<WalkEntry>::empty());
    assert(seen + walk_files(entries@.take(0)) =~= seen);
    while j < entries.len()
        invariant
            j <= entries.len(),
            path_set_items(*set) == first_occurrences(seen + walk_files(entries@.take(j as int))),
        decreases entries.len() - j,
    {
        let e = &entries[j];
        let ghost before = seen + walk_files(entries@.take(j as int));
        assert(entries@.take(j + 1).drop_last() =~= entries@.take(j as int));
        assert(entries@.take(j + 1).last() == *e);
        let mut visible = true;
        let mut k: usize = 0;
        while k < e.names.len()
            invariant
                k <= e.names.len(),
                visible <==> forall|i: int|
                    0 <= i < k ==> !hidden_name(#[trigger] name_view(e.names@[i])),
            decreases e.names.len() - k,
        {
            let hidden = match &e.names[k] {
                Some(name) => crate::utils::is_hidden(Some(name.as_str())),
                None => false,
            };
            assert(hidden == hidden_name(name_view(e.names@[k as int])));
            if hidden {
                visible = false;
            }
            k = k + 1;
        }
        if e.is_file && visible {
            assert(before.push(e.path@) =~= seen + walk_files(entries@.take(j + 1)));
            insert_path(set, e.path.clone());
            assert(before.push(e.path@).drop_last() =~= before);
        } else {
            assert(before =~= seen + walk_files(entries@.take(j + 1)));
        }
        j = j + 1;
    }
    assert(entries@.take(entries@.len() as int) =~= entries@);
}

/// Builds the resolved file set: the paths of the given files and of the
/// visible regular files under the given directories, in the order first
/// seen, each path once.
pub fn resolve_file_set(locations: &Vec<Location>) -> (r: Vec<String>)
    ensures
        r@.map_values(|p: String| p@) == resolved_files(locations@),
{
    let mut set = new_path_set();
    let mut i: usize = 0;
    assert(locations@.take(0) =~= Seq::<Location>::empty());
    while i < locations.len()
        invariant
            i <= locations.len(),
            path_set_items(set) == first_occurrences(candidate_files(locations@.take(i as int))),
        decreases locations.len() - i,
    {
        let ghost seen = candidate_files(locations@.take(i as int));
        assert(locations@.take(i + 1).drop_last() =~= locations@.take(i as int));
        assert(candidate_files(locations@.take(i + 1)) == seen + location_files(locations@[i as int]));
        match &locations[i] {
            Location::File(p) => {
                insert_path(&mut set, p.clone());
                assert(seen + seq![p@] =~= seen.push(p@));
                assert(seen.push(p@).drop_last() =~= seen);
            },
            Location::Missing(p) => {
                insert_path(&mut set, p.clone());
                assert(seen + seq![p@] =~= seen.push(p@));
                assert(seen.push(p@).drop_last() =~= seen);
            },
            Location::Directory(entries) => {
                add_walk(&mut set, entries, Ghost(seen));
            },
            Location::Other => {
                assert(seen + Seq::<Seq<char>>::empty() =~= seen);
            },
        }
        i = i + 1;
    }
    assert(locations@.take(locations@.len() as int) =~= locations@);
    path_set_into_vec(set)
}

proof fn lemma_first_occurrences(s: Seq<Seq<char>>)
    ensures
        first_occurrences(s).no_duplicates(),
        forall|p: Seq<char>| #[trigger]
            first_occurrences(s).contains(p) <==> s.contains(p),
    decreases s.len(),
{
    if s.len() > 0 {
        let rest = s.drop_last();
        lemma_first_occurrences(rest);
        let earlier = first_occurrences(rest);
        assert(s =~= rest.push(s.last()));
        assert forall|p: Seq<char>| #[trigger] s.contains(p) <==> (rest.contains(p) || p
            == s.last()) by {
            if s.contains(p) {
                let k = choose|k: int| 0 <= k < s.len() && s[k] == p;
                if k < rest.len() {
                    assert(rest[k] == p);
                }
            }
            if rest.contains(p) {
                let k = choose|k: int| 0 <= k < rest.len() && rest[k] == p;
                assert(s[k] == p);
            }
            if p == s.last() {
                assert(s[s.len() - 1] == p);
            }
        }
        if !earlier.contains(s.last()) {
            let grown = earlier.push(s.last());
            assert forall|p: Seq<char>| #[trigger] grown.contains(p) <==> (earlier.contains(p) || p
                == s.last()) by {
                if grown.contains(p) {
                    let k = choose|k: int| 0 <= k < grown.len() && grown[k] == p;
                    if k < earlier.len() {
                        assert(earlier[k] == p);
                    }
                }
                if earlier.contains(p) {
                    let k = choose|k: int| 0 <= k < earlier.len() && earlier[k] == p;
                    assert(grown[k] == p);
                }
                if p == s.last() {
                    assert(grown[grown.len() - 1] == p);
                }
            }
            assert forall|a: int, b: int| 0 <= a < grown.len() && 0 <= b < grown.len() && a != b
                implies grown[a] != grown[b] by {
                if a == grown.len() - 1 {
                    assert(earlier.contains(grown[b]));
                } else if b == grown.len() - 1 {
                    assert(earlier.contains(grown[a]));
                }
            }
        }
    }
}

/// Every path of the resolved set is there exactly once, and it holds
/// exactly the paths that the locations contribute: the same file named twice,
/// or named and also found under a given directory, appears once.
pub proof fn lemma_resolved_files_unique(locs: Seq<Location>)
    ensures
        resolved_files(locs).no_duplicates(),
        forall|p: Seq<char>| #[trigger]
            resolved_files(locs).contains(p) <==> candidate_files(locs).contains(p),
{
    lemma_first_occurrences(candidate_files(locs));
}

proof fn lemma_walk_file_source(entries: Seq<WalkEntry>, p: Seq<char>)
    requires
        walk_files(entries).contains(p),
    ensures
        exists|k: int|
            0 <= k < entries.len() && (#[trigger] entries[k]).path@ == p && entries[k].is_file
                && entry_visible(entries[k]),
    decreases entries.len(),
{
    let rest = entries.drop_last();
    let earlier = walk_files(rest);
    let e = entries.last();
    if e.is_file && entry_visible(e) && e.path@ == p {
        assert(entries[entries.len() - 1] == e);
    } else {
        if e.is_file && entry_visible(e) {
            let k = choose|k: int| 0 <= k < earlier.push(e.path@).len() && earlier.push(e.path@)[k] == p;
            assert(earlier[k] == p);
        }
        lemma_walk_file_source(rest, p);
        let k = choose|k: int|
            0 <= k < rest.len() && (#[trigger] rest[k]).path@ == p && rest[k].is_file
                && entry_visible(rest[k]);
        assert(entries[k] == rest[k]);
    }
}

proof fn lemma_candidate_source(locs: Seq<Location>, p: Seq<char>)
    requires
        candidate_files(locs).contains(p),
    ensures
        exists|i: int| 0 <= i < locs.len() && (#[trigger] location_files(locs[i])).contains(p),
    decreases locs.len(),
{
    let rest = locs.drop_last();
    let earlier = candidate_files(rest);
    let last = location_files(locs.last());
    let k = choose|k: int| 0 <= k < (earlier + last).len() && (earlier + last)[k] == p;
    if k < earlier.len() {
        assert(earlier[k] == p);
        lemma_candidate_source(rest, p);
        let i = choose|i: int| 0 <= i < rest.len() && (#[trigger] location_files(rest[i])).contains(p);
        assert(locs[i] == rest[i]);
    } else {
        assert(last[k - earlier.len()] == p);
        assert(locs[locs.len() - 1] == locs.last());
    }
}

/// A path that no location names directly, and that every walk reaches only
/// through a hidden entry (a name starting with a dot on its way, such as a
/// hidden directory above it), is not in the resolved set.
pub proof fn lemma_hidden_entries_pruned(locs: Seq<Location>, p: Seq<char>)
    requires
        forall|i: int|
            0 <= i < locs.len() ==> match #[trigger] locs[i] {
                Location::File(q) => q@ != p,
                Location::Missing(q) => q@ != p,
                Location::Directory(entries) => forall|k: int|
                    0 <= k < entries@.len() && (#[trigger] entries@[k]).path@ == p
                        ==> !entry_visible(entries@[k]),
                Location::Other => true,
            },
    ensures
        !resolved_files(locs).contains(p),
{
    lemma_first_occurrences(candidate_files(locs));
    if candidate_files(locs).contains(p) {
        lemma_candidate_source(locs, p);
        let i = choose|i: int| 0 <= i < locs.len() && (#[trigger] location_files(locs[i])).contains(p);
        match locs[i] {
            Location::File(q) => {
                assert(seq![q@][0] == p);
            },
            Location::Missing(q) => {
                assert(seq![q@][0] == p);
            },
            Location::Directory(entries) => {
                lemma_walk_file_source(entries@, p);
            },
            Location::Other => {},
        }
    }
}

proof fn lemma_walk_keeps_visible(entries: Seq<WalkEntry>, k: int)
    requires
        0 <= k < entries.len(),
        entries[k].is_file,
        entry_visible(entries[k]),
    ensures
        walk_files(entries).contains(entries[k].path@),
    decreases entries.len(),
{
    let rest = entries.drop_last();
    if k == entries.len() - 1 {
        let shown = walk_files(entries);
        assert(shown[shown.len() - 1] == entries[k].path@);
    } else {
        assert(rest[k] == entries[k]);
        lemma_walk_keeps_visible(rest, k);
        let earlier = walk_files(rest);
        let j = choose|j: int| 0 <= j < earlier.len() && earlier[j] == entries[k].path@;
        let e = entries.last();
        if e.is_file && entry_visible(e) {
            assert(earlier.push(e.path@)[j] == entries[k].path@);
        }
    }
}

proof fn lemma_candidate_keeps(locs: Seq<Location>, i: int, p: Seq<char>)
    requires
        0 <= i < locs.len(),
        location_files(locs[i]).contains(p),
    ensures
        candidate_files(locs).contains(p),
    decreases locs.len(),
{
    let rest = locs.drop_last();
    let earlier = candidate_files(rest);
    let last = location_files(locs.last());
    if i == locs.len() - 1 {
        let j = choose|j: int| 0 <= j < last.len() && last[j] == p;
        assert((earlier + last)[earlier.len() + j] == p);
    } else {
        assert(rest[i] == locs[i]);
        lemma_candidate_keeps(rest, i, p);
        let j = choose|j: int| 0 <= j < earlier.len() && earlier[j] == p;
        assert((earlier + last)[j] == p);
    }
}

/// A regular file that a walk of a given directory reaches with no hidden
/// name on its way down is in the resolved set, however the directory itself
/// is named.
pub proof fn lemma_visible_files_kept(locs: Seq<Location>, i: int, k: int)
    requires
        0 <= i < locs.len(),
        locs[i] is Directory,
        0 <= k < locs[i]->Directory_0@.len(),
        locs[i]->Directory_0@[k].is_file,
        entry_visible(locs[i]->Directory_0@[k]),
    ensures
        resolved_files(locs).contains(locs[i]->Directory_0@[k].path@),
{
    let entries = locs[i]->Directory_0@;
    lemma_walk_keeps_visible(entries, k);
    lemma_candidate_keeps(locs, i, entries[k].path@);
    lemma_first_occurrences(candidate_files(locs));
}

} // verus!
