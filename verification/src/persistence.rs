//! Saved failures and corpus cases: their records, file names and configuration.
//!
//! Reading and writing the files is done by the caller; this module decides what is
//! written and where.

use vstd::prelude::*;
use crate::text::{decimal, fmt_u128, fmt_u64, same_string};
use crate::time::Duration;

verus! {

/// Nanoseconds elapsed since the Unix epoch (`SystemTime::now().duration_since(UNIX_EPOCH)`,
/// then `as_nanos`), zero when the clock reads earlier. It depends on the clock, so
/// nothing about it is stated.
#[verifier::external_body]
fn nanos_since_unix_epoch() -> u128 {
    std::time::SystemTime::now()
        .duration_since(std::time::SystemTime::UNIX_EPOCH)
        .unwrap_or_default()
        .as_nanos()
}

/// The time elapsed since the Unix epoch, capped at the largest span held.
fn since_unix_epoch() -> Duration {
    Duration::from_nanos_saturating(nanos_since_unix_epoch())
}

/// A saved failing test case.
#[derive(Debug, Clone)]
pub struct FailureCase {
    /// The seed that reproduces the failure.
    pub seed: u64,
    /// The input, as text.
    pub input: String,
    /// The error message.
    pub error_message: String,
    /// When the failure was recorded, as time since the Unix epoch.
    pub timestamp: Duration,
    /// The number of shrinking steps performed.
    pub shrink_steps: usize,
    /// Additional metadata, one entry per key, in the order first set.
    pub metadata: Vec<(String, String)>,
}

/// The metadata entries as plain values.
pub open spec fn metadata_view(m: Seq<(String, String)>) -> Seq<(Seq<char>, Seq<char>)> {
    m.map_values(|e: (String, String)| (e.0@, e.1@))
}

/// The metadata after setting `key` to `value`: the entry of the key replaced, or a new
/// entry at the end.
pub open spec fn set_metadata(m: Seq<(Seq<char>, Seq<char>)>, key: Seq<char>, value: Seq<char>) -> Seq<
    (Seq<char>, Seq<char>),
> {
    if exists|k: int| 0 <= k < m.len() && (#[trigger] m[k]).0 == key {
        m.update(choose|k: int| 0 <= k < m.len() && (#[trigger] m[k]).0 == key, (key, value))
    } else {
        m.push((key, value))
    }
}

impl FailureCase {
    /// A failure recorded now, with no metadata.
    pub fn new(seed: u64, input: String, error_message: String, shrink_steps: usize) -> (r: Self)
        ensures
            r.seed == seed,
            r.input == input,
            r.error_message == error_message,
            r.shrink_steps == shrink_steps,
            r.metadata@.len() == 0,
    {
        FailureCase {
            seed,
            input,
            error_message,
            timestamp: since_unix_epoch(),
            shrink_steps,
            metadata: Vec::new(),
        }
    }

    /// This failure with the metadata `key` set to `value`.
    pub fn with_metadata(self, key: String, value: String) -> (r: Self)
        requires
            forall|i: int, j: int|
                0 <= i < j < self.metadata@.len() ==> (#[trigger] self.metadata@[i]).0@
                    != (#[trigger] self.metadata@[j]).0@,
        ensures
            r.seed == self.seed,
            r.input == self.input,
            r.error_message == self.error_message,
            r.timestamp == self.timestamp,
            r.shrink_steps == self.shrink_steps,
            metadata_view(r.metadata@) == set_metadata(metadata_view(self.metadata@), key@, value@),
    {
        let mut s = self;
        let ghost m = metadata_view(s.metadata@);
        let n = s.metadata.len();
        let mut i: usize = 0;
        while i < n
            invariant
                n == s.metadata@.len(),
                i <= n,
                s.seed == self.seed,
                s.input == self.input,
                s.error_message == self.error_message,
                s.timestamp == self.timestamp,
                s.shrink_steps == self.shrink_steps,
                s.metadata@ == self.metadata@,
                forall|a: int, b: int|
                    0 <= a < b < self.metadata@.len() ==> (#[trigger] self.metadata@[a]).0@
                        != (#[trigger] self.metadata@[b]).0@,
                m == metadata_view(s.metadata@),
                forall|k: int| 0 <= k < i ==> (#[trigger] m[k]).0 != key@,
            decreases n - i,
        {
            assert(m[i as int] == (s.metadata@[i as int].0@, s.metadata@[i as int].1@));
            if same_string(s.metadata[i].0.as_str(), key.as_str()) {
                s.metadata.set(i, (key, value));
                proof {
                    let k = choose|k: int| 0 <= k < m.len() && (#[trigger] m[k]).0 == key@;
                    assert(k == i) by {
                        if k != i {
                            if k < i {
                                assert(m[k].0 != key@);
                            } else {
                                assert(m[k] == (self.metadata@[k].0@, self.metadata@[k].1@));
                                assert(self.metadata@[i as int].0@ != self.metadata@[k].0@);
                            }
                        }
                    }
                }
                assert(metadata_view(s.metadata@) =~= set_metadata(m, key@, value@));
                return s;
            }
            i = i + 1;
        }
        s.metadata.push((key, value));
        assert(metadata_view(s.metadata@) =~= set_metadata(m, key@, value@));
        s
    }
}

/// The name of the file that holds the failure of seed `seed`.
pub open spec fn failure_file_text(seed: u64) -> Seq<char> {
    "failure_seed_"@ + decimal(seed as nat) + ".json"@
}

/// The name of the file that holds the failure of seed `seed`: `failure_seed_<seed>.json`.
pub fn failure_file_name(seed: u64) -> (r: String)
    ensures
        r@ == failure_file_text(seed),
{
    let mut s = String::from_str("failure_seed_");
    s.append(fmt_u64(seed).as_str());
    s.append(".json");
    s
}

/// A case of the test corpus.
#[derive(Debug, Clone)]
pub struct CorpusCase {
    /// The input, as text.
    pub input: String,
    /// Why the case is kept.
    pub reason: String,
    /// When the case was added, as time since the Unix epoch.
    pub timestamp: Duration,
    /// Tags of the case.
    pub tags: Vec<String>,
}

impl CorpusCase {
    /// A case added now, without tags.
    pub fn new(input: String, reason: String) -> (r: Self)
        ensures
            r.input == input,
            r.reason == reason,
            r.tags@.len() == 0,
    {
        CorpusCase { input, reason, timestamp: since_unix_epoch(), tags: Vec::new() }
    }

    /// The name of the file that holds this case: `corpus_<nanoseconds>.json`.
    pub fn file_name(&self) -> (r: String)
        ensures
            r@ == "corpus_"@ + decimal(self.timestamp@) + ".json"@,
    {
        let mut s = String::from_str("corpus_");
        s.append(fmt_u128(self.timestamp.as_nanos()).as_str());
        s.append(".json");
        s
    }
}

/// Configuration for test persistence.
#[derive(Debug, Clone)]
pub struct PersistenceConfig {
    /// Whether failures are saved.
    pub persist_failures: bool,
    /// The directory of saved failures.
    pub failure_dir: String,
    /// Whether the corpus is used.
    pub use_corpus: bool,
    /// The directory of the corpus, if any.
    pub corpus_dir: Option<String>,
    /// Whether saved failures are replayed first.
    pub replay_failures: bool,
}

/// The default directory of saved failures.
pub open spec fn default_failure_dir() -> Seq<char> {
    ".protest/failures"@
}

/// The default directory of the corpus.
pub open spec fn default_corpus_dir() -> Seq<char> {
    ".protest/corpus"@
}

impl Default for PersistenceConfig {
    /// Nothing saved, no corpus, failures replayed, under `.protest/failures`.
    fn default() -> (r: Self)
        ensures
            !r.persist_failures,
            r.failure_dir@ == default_failure_dir(),
            !r.use_corpus,
            r.corpus_dir is None,
            r.replay_failures,
    {
        PersistenceConfig {
            persist_failures: false,
            failure_dir: String::from_str(".protest/failures"),
            use_corpus: false,
            corpus_dir: None,
            replay_failures: true,
        }
    }
}

impl PersistenceConfig {
    /// Everything on: failures saved and replayed, corpus used, default directories.
    pub fn enabled() -> (r: Self)
        ensures
            r.persist_failures,
            r.failure_dir@ == default_failure_dir(),
            r.use_corpus,
            r.corpus_dir matches Some(d) && d@ == default_corpus_dir(),
            r.replay_failures,
    {
        PersistenceConfig {
            persist_failures: true,
            failure_dir: String::from_str(".protest/failures"),
            use_corpus: true,
            corpus_dir: Some(String::from_str(".protest/corpus")),
            replay_failures: true,
        }
    }

    /// This configuration with another failure directory.
    pub fn with_failure_dir(self, dir: &str) -> (r: Self)
        ensures
            r.failure_dir@ == dir@,
            r.persist_failures == self.persist_failures,
            r.use_corpus == self.use_corpus,
            r.corpus_dir == self.corpus_dir,
            r.replay_failures == self.replay_failures,
    {
        PersistenceConfig { failure_dir: String::from_str(dir), ..self }
    }

    /// This configuration with a corpus directory.
    pub fn with_corpus_dir(self, dir: &str) -> (r: Self)
        ensures
            r.corpus_dir matches Some(d) && d@ == dir@,
            r.persist_failures == self.persist_failures,
            r.failure_dir == self.failure_dir,
            r.use_corpus == self.use_corpus,
            r.replay_failures == self.replay_failures,
    {
        PersistenceConfig { corpus_dir: Some(String::from_str(dir)), ..self }
    }

    /// This configuration with failures saved.
    pub fn enable_persistence(self) -> (r: Self)
        ensures
            r.persist_failures,
            r.failure_dir == self.failure_dir,
            r.use_corpus == self.use_corpus,
            r.corpus_dir == self.corpus_dir,
            r.replay_failures == self.replay_failures,
    {
        PersistenceConfig { persist_failures: true, ..self }
    }

    /// This configuration with the corpus used.
    pub fn enable_corpus(self) -> (r: Self)
        ensures
            r.use_corpus,
            r.persist_failures == self.persist_failures,
            r.failure_dir == self.failure_dir,
            r.corpus_dir == self.corpus_dir,
            r.replay_failures == self.replay_failures,
    {
        PersistenceConfig { use_corpus: true, ..self }
    }
}

/// The cases of a test corpus known so far: those read from disk and those added since,
/// in that order.
#[derive(Debug, Clone)]
pub struct CorpusCache {
    /// The cases, in the order they became known.
    pub cases: Vec<CorpusCase>,
}

impl CorpusCache {
    /// A cache with no case.
    pub fn new() -> (r: Self)
        ensures
            r.cases@ == Seq::<CorpusCase>::empty(),
    {
        CorpusCache { cases: Vec::new() }
    }

    /// Records a case that was written or read: it comes after the ones known.
    pub fn record(&mut self, case: CorpusCase)
        ensures
            final(self).cases@ == old(self).cases@.push(case),
    {
        self.cases.push(case);
    }

    /// Forgets every case, before the corpus is read again.
    pub fn clear(&mut self)
        ensures
            final(self).cases@ == Seq::<CorpusCase>::empty(),
    {
        self.cases = Vec::new();
    }
}

} // verus!
