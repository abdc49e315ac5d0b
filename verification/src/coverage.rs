//! Tracking of the execution paths that inputs cover.

use vstd::prelude::*;
use std::collections::hash_map::DefaultHasher;
use std::hash::{Hash, Hasher};
use crate::text::{contains_string, fmt_hex, hex, lemma_string_views_push, same_string, string_views};

verus! {

/// Tracker of the paths seen and of the paths each input covered.
///
/// Paths are kept in the order first seen, inputs in the order first recorded.
#[derive(Debug, Clone)]
pub struct CoverageTracker {
    paths_seen: Vec<u64>,
    input_coverage: Vec<(String, Vec<u64>)>,
    total_paths: usize,
    discoverers: Vec<String>,
}

/// The input names and their paths, as plain values.
pub open spec fn coverage_entries(v: Seq<(String, Vec<u64>)>) -> Seq<(Seq<char>, Seq<u64>)> {
    v.map_values(|e: (String, Vec<u64>)| (e.0@, e.1@))
}

/// `s` with `x` appended unless it holds it already.
pub open spec fn push_unique<A>(s: Seq<A>, x: A) -> Seq<A> {
    if s.contains(x) {
        s
    } else {
        s.push(x)
    }
}

/// The index of the entry named `id`, if any.
pub open spec fn entry_index(entries: Seq<(Seq<char>, Seq<u64>)>, id: Seq<char>) -> Option<int> {
    if exists|k: int| 0 <= k < entries.len() && (#[trigger] entries[k]).0 == id {
        Some(choose|k: int| 0 <= k < entries.len() && (#[trigger] entries[k]).0 == id)
    } else {
        None
    }
}

/// The entries after recording `path` for the input named `id`.
pub open spec fn record_entry(entries: Seq<(Seq<char>, Seq<u64>)>, id: Seq<char>, path: u64) -> Seq<
    (Seq<char>, Seq<u64>),
> {
    match entry_index(entries, id) {
        Some(k) => entries.update(k, (id, push_unique(entries[k].1, path))),
        None => entries.push((id, seq![path])),
    }
}

/// The inputs that discovered a path, after the input named `id` recorded `path` among the
/// paths seen `paths`: it joins them when the path was not seen before.
pub open spec fn record_discovery(discoverers: Seq<Seq<char>>, paths: Seq<u64>, id: Seq<char>, path: u64) -> Seq<
    Seq<char>,
> {
    if paths.contains(path) {
        discoverers
    } else {
        push_unique(discoverers, id)
    }
}

/// Entries with their path counts: each name with the number of its paths.
pub open spec fn entry_counts(entries: Seq<(Seq<char>, Seq<u64>)>) -> Seq<(Seq<char>, nat)> {
    entries.map_values(|e: (Seq<char>, Seq<u64>)| (e.0, e.1.len()))
}

/// `e` inserted into `sorted` after every entry whose count is at least its own.
pub open spec fn insert_by_count(sorted: Seq<(Seq<char>, nat)>, e: (Seq<char>, nat)) -> Seq<
    (Seq<char>, nat),
>
    decreases sorted.len(),
{
    if sorted.len() == 0 {
        seq![e]
    } else if sorted.last().1 >= e.1 {
        sorted.push(e)
    } else {
        insert_by_count(sorted.drop_last(), e).push(sorted.last())
    }
}

/// The entries sorted by count, largest first, keeping the order of equal counts.
pub open spec fn sort_by_count(entries: Seq<(Seq<char>, nat)>) -> Seq<(Seq<char>, nat)>
    decreases entries.len(),
{
    if entries.len() == 0 {
        seq![]
    } else {
        insert_by_count(sort_by_count(entries.drop_last()), entries.last())
    }
}

/// Whether the entries are in order of count, largest first.
pub open spec fn counts_descending(s: Seq<(Seq<char>, nat)>) -> bool {
    forall|i: int, j: int| 0 <= i < j < s.len() ==> s[i].1 >= s[j].1
}

/// Every entry of `insert_by_count(sorted, e)` is `e` or an entry of `sorted`, and the
/// order stays descending.
proof fn lemma_insert_by_count(sorted: Seq<(Seq<char>, nat)>, e: (Seq<char>, nat))
    requires
        counts_descending(sorted),
    ensures
        counts_descending(insert_by_count(sorted, e)),
        insert_by_count(sorted, e).len() == sorted.len() + 1,
        forall|k: int|
            0 <= k < insert_by_count(sorted, e).len() ==> #[trigger] insert_by_count(sorted, e)[k]
                == e || sorted.contains(insert_by_count(sorted, e)[k]),
    decreases sorted.len(),
{
    if sorted.len() > 0 && sorted.last().1 < e.1 {
        let init = sorted.drop_last();
        let x = sorted.last();
        assert(counts_descending(init));
        lemma_insert_by_count(init, e);
        let mid = insert_by_count(init, e);
        let r = mid.push(x);
        assert forall|k: int| 0 <= k < mid.len() implies (#[trigger] mid[k]).1 >= x.1 by {
            if mid[k] != e {
                assert(init.contains(mid[k]));
                let j = choose|j: int| 0 <= j < init.len() && init[j] == mid[k];
                assert(sorted[j] == init[j]);
                assert(sorted[sorted.len() - 1] == x);
            }
        }
        assert forall|i: int, j: int| 0 <= i < j < r.len() implies r[i].1 >= r[j].1 by {
            if j < mid.len() {
                assert(r[i] == mid[i] && r[j] == mid[j]);
            } else {
                assert(r[i] == mid[i]);
            }
        }
        assert forall|k: int| 0 <= k < r.len() implies #[trigger] r[k] == e || sorted.contains(r[k]) by {
            if k < mid.len() {
                assert(r[k] == mid[k]);
                if mid[k] != e {
                    let j = choose|j: int| 0 <= j < init.len() && init[j] == mid[k];
                    assert(sorted[j] == init[j]);
                }
            } else {
                assert(sorted[sorted.len() - 1] == x);
            }
        }
    } else if sorted.len() > 0 {
        let r = sorted.push(e);
        assert forall|k: int| 0 <= k < r.len() implies #[trigger] r[k] == e || sorted.contains(r[k]) by {
            if k < sorted.len() {
                assert(r[k] == sorted[k]);
            }
        }
        assert forall|i: int, j: int| 0 <= i < j < r.len() implies r[i].1 >= r[j].1 by {
            if j < sorted.len() {
                assert(r[i] == sorted[i] && r[j] == sorted[j]);
            } else {
                assert(r[i] == sorted[i]);
                assert(sorted[i].1 >= sorted[sorted.len() - 1].1 || i == sorted.len() - 1);
            }
        }
    }
}

/// Ranking by coverage puts the inputs in descending order of their path counts, and
/// keeps every input.
pub proof fn lemma_sort_by_count_descending(entries: Seq<(Seq<char>, nat)>)
    ensures
        counts_descending(sort_by_count(entries)),
        sort_by_count(entries).len() == entries.len(),
    decreases entries.len(),
{
    if entries.len() > 0 {
        lemma_sort_by_count_descending(entries.drop_last());
        lemma_insert_by_count(sort_by_count(entries.drop_last()), entries.last());
    }
}

impl CoverageTracker {
    /// The paths seen, in the order first seen.
    pub closed spec fn paths(&self) -> Seq<u64> {
        self.paths_seen@
    }

    /// The inputs and the paths each covered, in the order first recorded.
    pub closed spec fn entries(&self) -> Seq<(Seq<char>, Seq<u64>)> {
        coverage_entries(self.input_coverage@)
    }

    /// The inputs that recorded a path not seen before, in the order they first did.
    pub closed spec fn discoverers(&self) -> Seq<Seq<char>> {
        string_views(self.discoverers@)
    }

    /// The tracker's bookkeeping holds: the path count is the number of paths, and no
    /// path and no input name occurs twice.
    pub closed spec fn well_formed(&self) -> bool {
        &&& self.total_paths == self.paths_seen@.len()
        &&& self.paths_seen@.no_duplicates()
        &&& forall|i: int, j: int|
            0 <= i < j < self.input_coverage@.len() ==> (#[trigger] self.input_coverage@[i]).0@
                != (#[trigger] self.input_coverage@[j]).0@
    }

    /// An empty tracker.
    pub fn new() -> (r: Self)
        ensures
            r.well_formed(),
            r.paths() == Seq::<u64>::empty(),
            r.entries() == Seq::<(Seq<char>, Seq<u64>)>::empty(),
            r.discoverers() == Seq::<Seq<char>>::empty(),
    {
        let r = CoverageTracker {
            paths_seen: Vec::new(),
            input_coverage: Vec::new(),
            total_paths: 0,
            discoverers: Vec::new(),
        };
        assert(r.entries() =~= Seq::<(Seq<char>, Seq<u64>)>::empty());
        assert(r.discoverers() =~= Seq::<Seq<char>>::empty());
        r
    }

    /// Records that the input named `input_id` covered `path_hash`.
    pub fn record_path(&mut self, input_id: &str, path_hash: u64)
        requires
            old(self).well_formed(),
        ensures
            final(self).well_formed(),
            final(self).paths() == push_unique(old(self).paths(), path_hash),
            final(self).entries() == record_entry(old(self).entries(), input_id@, path_hash),
            final(self).discoverers() == record_discovery(
                old(self).discoverers(),
                old(self).paths(),
                input_id@,
                path_hash,
            ),
    {
        if !contains_u64(&self.paths_seen, path_hash) {
            self.paths_seen.push(path_hash);
            if !contains_string(&self.discoverers, input_id) {
                let ghost before = self.discoverers@;
                self.discoverers.push(String::from_str(input_id));
                proof {
                    lemma_string_views_push(before, self.discoverers@.last());
                    assert(before.push(self.discoverers@.last()) =~= self.discoverers@);
                }
            }
        }
        self.total_paths = self.paths_seen.len();
        let ghost old_entries = coverage_entries(self.input_coverage@);
        let n = self.input_coverage.len();
        let mut i: usize = 0;
        let mut found = false;
        while i < n && !found
            invariant
                n == self.input_coverage@.len(),
                i <= n,
                coverage_entries(self.input_coverage@) == old_entries,
                !found ==> forall|k: int| 0 <= k < i ==> (#[trigger] old_entries[k]).0 != input_id@,
                found ==> i < n && old_entries[i as int].0 == input_id@,
            decreases n - i, (if found { 0int } else { 1int }),
        {
            if same_string(self.input_coverage[i].0.as_str(), input_id) {
                found = true;
            } else {
                i = i + 1;
            }
        }
        let ghost old_cov = self.input_coverage@;
        if found {
            let (id, mut hashes) = self.input_coverage.remove(i);
            if !contains_u64(&hashes, path_hash) {
                hashes.push(path_hash);
            }
            self.input_coverage.insert(i, (id, hashes));
            proof {
                assert(old_entries[i as int].0 == input_id@);
                let k = choose|k: int| 0 <= k < old_entries.len() && (#[trigger] old_entries[k]).0 == input_id@;
                assert(k == i) by {
                    if k != i {
                        assert(old_cov[k].0@ == old_entries[k].0);
                        assert(old_cov[i as int].0@ == old_entries[i as int].0);
                        if k < i {
                            assert(old_cov[k].0@ != old_cov[i as int].0@);
                        } else {
                            assert(old_cov[i as int].0@ != old_cov[k].0@);
                        }
                    }
                }
            }
            assert(coverage_entries(self.input_coverage@) =~= record_entry(old_entries, input_id@, path_hash));
        } else {
            let mut hashes = Vec::new();
            hashes.push(path_hash);
            self.input_coverage.push((String::from_str(input_id), hashes));
            proof {
                assert(entry_index(old_entries, input_id@) is None);
            }
            assert(coverage_entries(self.input_coverage@) =~= record_entry(old_entries, input_id@, path_hash));
        }
        assert forall|a: int, b: int| 0 <= a < b < self.input_coverage@.len() implies (
        #[trigger] self.input_coverage@[a]).0@ != (#[trigger] self.input_coverage@[b]).0@ by {
            assert(self.input_coverage@[a].0@ == coverage_entries(self.input_coverage@)[a].0);
            assert(self.input_coverage@[b].0@ == coverage_entries(self.input_coverage@)[b].0);
            if b < old_cov.len() {
                assert(old_cov[a].0@ == old_entries[a].0);
                assert(old_cov[b].0@ == old_entries[b].0);
            }
        }
    }
}

/// Whether `v` holds `x`.
fn contains_u64(v: &Vec<u64>, x: u64) -> (r: bool)
    ensures
        r == v@.contains(x),
{
    let mut i: usize = 0;
    while i < v.len()
        invariant
            i <= v@.len(),
            forall|k: int| 0 <= k < i ==> v@[k] != x,
        decreases v@.len() - i,
    {
        if v[i] == x {
            return true;
        }
        i = i + 1;
    }
    false
}

impl CoverageTracker {
    /// The number of distinct paths seen.
    pub fn unique_paths(&self) -> (r: usize)
        requires
            self.well_formed(),
        ensures
            r == self.paths().len(),
    {
        self.total_paths
    }

    /// Whether the input named `input_id` discovered new coverage: whether a path it
    /// recorded had not been seen before it recorded it.
    pub fn has_new_coverage(&self, input_id: &str) -> (r: bool)
        ensures
            r == self.discoverers().contains(input_id@),
    {
        contains_string(&self.discoverers, input_id)
    }

    /// The inputs with the number of paths each covered, most first; inputs with equal
    /// counts keep the order they were first recorded in.
    pub fn inputs_by_coverage(&self) -> (r: Vec<(String, usize)>)
        ensures
            r@.map_values(|e: (String, usize)| (e.0@, e.1 as nat)) == sort_by_count(
                entry_counts(self.entries()),
            ),
            counts_descending(r@.map_values(|e: (String, usize)| (e.0@, e.1 as nat))),
            r@.len() == self.entries().len(),
    {
        let ghost counts = entry_counts(self.entries());
        let mut out: Vec<(String, usize)> = Vec::new();
        let n = self.input_coverage.len();
        let mut i: usize = 0;
        while i < n
            invariant
                n == self.input_coverage@.len(),
                i <= n,
                counts == entry_counts(coverage_entries(self.input_coverage@)),
                out@.map_values(|e: (String, usize)| (e.0@, e.1 as nat)) == sort_by_count(
                    counts.take(i as int),
                ),
            decreases n - i,
        {
            let id = self.input_coverage[i].0.clone();
            let count = self.input_coverage[i].1.len();
            insert_by_count_exec(&mut out, id, count);
            assert(counts.take(i + 1).drop_last() =~= counts.take(i as int));
            i = i + 1;
        }
        assert(counts.take(n as int) =~= counts);
        proof {
            lemma_sort_by_count_descending(counts);
        }
        out
    }

    /// Forgets every path and input.
    pub fn reset(&mut self)
        ensures
            final(self).well_formed(),
            final(self).paths() == Seq::<u64>::empty(),
            final(self).entries() == Seq::<(Seq<char>, Seq<u64>)>::empty(),
            final(self).discoverers() == Seq::<Seq<char>>::empty(),
    {
        self.paths_seen = Vec::new();
        self.input_coverage = Vec::new();
        self.total_paths = 0;
        self.discoverers = Vec::new();
        assert(self.discoverers() =~= Seq::<Seq<char>>::empty());
        assert(self.entries() =~= Seq::<(Seq<char>, Seq<u64>)>::empty());
    }
}

impl Default for CoverageTracker {
    fn default() -> (r: Self)
        ensures
            r.well_formed(),
            r.paths() == Seq::<u64>::empty(),
            r.entries() == Seq::<(Seq<char>, Seq<u64>)>::empty(),
            r.discoverers() == Seq::<Seq<char>>::empty(),
    {
        CoverageTracker::new()
    }
}

/// Inserts `(id, count)` after every entry whose count is at least `count`.
fn insert_by_count_exec(out: &mut Vec<(String, usize)>, id: String, count: usize)
    ensures
        final(out)@.map_values(|e: (String, usize)| (e.0@, e.1 as nat)) == insert_by_count(
            old(out)@.map_values(|e: (String, usize)| (e.0@, e.1 as nat)),
            (id@, count as nat),
        ),
    decreases old(out)@.len(),
{
    let ghost s = old(out)@.map_values(|e: (String, usize)| (e.0@, e.1 as nat));
    let n = out.len();
    if n == 0 || out[n - 1].1 >= count {
        out.push((id, count));
        assert(out@.map_values(|e: (String, usize)| (e.0@, e.1 as nat)) =~= insert_by_count(
            s,
            (id@, count as nat),
        ));
    } else {
        let last = out.pop().unwrap();
        assert(out@.map_values(|e: (String, usize)| (e.0@, e.1 as nat)) =~= s.drop_last());
        insert_by_count_exec(out, id, count);
        let ghost mid = out@;
        out.push(last);
        assert(out@.map_values(|e: (String, usize)| (e.0@, e.1 as nat)) =~= mid.map_values(
            |e: (String, usize)| (e.0@, e.1 as nat),
        ).push((last.0@, last.1 as nat)));
    }
}

/// Statistics of coverage: the paths seen, the corpus size and the inputs by coverage.
#[derive(Debug)]
pub struct CoverageStats {
    /// The number of distinct paths seen.
    pub total_paths: usize,
    /// The number of cases in the corpus.
    pub corpus_size: usize,
    /// The inputs with their path counts, most first.
    pub inputs_by_coverage: Vec<(String, usize)>,
}

/// The `DefaultHasher` digest of a string.
pub uninterp spec fn str_digest(s: Seq<char>) -> u64;

/// Hashes `s` with a fresh `DefaultHasher::new()` (`Hash::hash`, then `finish`). The
/// digest is a function of the string, named `str_digest`; which one is not stated.
#[verifier::external_body]
fn digest_of_str(s: &str) -> (r: u64)
    ensures
        r == str_digest(s@),
{
    let mut hasher = DefaultHasher::new();
    s.hash(&mut hasher);
    hasher.finish()
}

/// The lowercase hexadecimal digest of a string, as `{:x}` writes it.
pub fn hash_string(s: &str) -> (r: String)
    ensures
        r@ == hex(str_digest(s@) as nat),
{
    fmt_hex(digest_of_str(s))
}

/// Feeds `value` to `hasher` with its `Hash` impl (`Hash::hash`). The impl belongs to
/// the value's type, which this library does not see, so nothing about the hasher
/// afterwards is stated.
#[verifier::external_body]
fn hash_into<T: Hash>(value: &T, hasher: &mut DefaultHasher) {
    value.hash(hasher);
}

/// The hash of a path: the values fed in order to one `DefaultHasher::new()`, then its
/// `finish`.
pub fn path_hash<T: Hash>(values: &[T]) -> u64 {
    let mut hasher = DefaultHasher::new();
    let mut i: usize = 0;
    while i < values.len()
        invariant
            i <= values@.len(),
        decreases values@.len() - i,
    {
        hash_into(&values[i], &mut hasher);
        i = i + 1;
    }
    hasher.finish()
}

} // verus!
