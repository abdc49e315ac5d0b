//! Shrinking against a property that is checked elsewhere, such as by an asynchronous
//! function: the shrinking loop as a state machine. The caller checks each value that the
//! run asks for and reports whether the property failed on it.

use vstd::prelude::*;
use crate::shrink::{ShrinkConfig, ShrinkResult, Shrinkable, models, spec_default_shrink_config};
use crate::time::{Duration, elapsed, now};

verus! {

/// What the caller of a stepped shrinking does next.
pub enum ShrinkAction<T> {
    /// Check the property on this value and report whether it failed.
    Check(T),
    /// Supply the shrink candidates of this value (in a run that takes them from its caller).
    Shrink(T),
    /// Shrinking is over, with this result.
    Finish(ShrinkResult<T>),
}

/// Shrinking engine for properties checked elsewhere.
#[derive(Debug, Clone, Copy)]
pub struct AsyncShrinkEngine {
    /// The configuration in use.
    pub config: ShrinkConfig,
}

/// A shrinking run in progress.
#[verifier::reject_recursive_types(T)]
pub struct AsyncShrinkRun<T> {
    /// The configuration in use.
    pub config: ShrinkConfig,
    /// The value shrinking started from.
    pub original: T,
    /// The smallest value found to fail so far (at first, a copy of the original).
    pub current: T,
    /// The candidates of `current` under check.
    pub candidates: Vec<T>,
    /// The position of the candidate under check.
    pub index: usize,
    /// The shrinking steps taken.
    pub steps: usize,
    /// Whether the check under way is that of the original.
    pub checking_original: bool,
    /// Whether the run is over.
    pub finished: bool,
    /// Whether the caller supplies the candidates of each value, in place of `shrink`.
    pub supplied: bool,
    /// Whether the run awaits the candidates of `current` from its caller.
    pub awaiting_candidates: bool,
    /// When shrinking began.
    pub start: std::time::Instant,
    /// The copy of the original that shrinking starts from.
    pub first: Ghost<T>,
    /// The values on which a reported check failed.
    pub failing: Ghost<Set<T>>,
    /// The values on which a reported check passed.
    pub passing: Ghost<Set<T>>,
}

impl AsyncShrinkEngine {
    /// An engine with the default configuration.
    pub fn new() -> (r: Self)
        ensures
            r.config == spec_default_shrink_config(),
    {
        AsyncShrinkEngine { config: ShrinkConfig::default() }
    }

    /// An engine with a custom configuration.
    pub fn with_config(config: ShrinkConfig) -> (r: Self)
        ensures
            r.config == config,
    {
        AsyncShrinkEngine { config }
    }

    /// Begins shrinking `value`: the run first asks whether the property fails on the
    /// value itself, whose copy is given back with the run.
    pub fn begin<T: Shrinkable>(&self, value: T) -> (r: (AsyncShrinkRun<T>, T))
        ensures
            r.0.well_formed(),
            r.0.original == value,
            r.0.config == self.config,
            r.0.checking_original,
            !r.0.finished,
            !r.0.supplied,
            r.0.steps == 0,
            r.1.model() == value.model(),
    {
        let current = value.duplicate();
        let probe = value.duplicate();
        let ghost first = current;
        let run = AsyncShrinkRun {
            config: self.config,
            original: value,
            current,
            candidates: Vec::new(),
            index: 0,
            steps: 0,
            checking_original: true,
            finished: false,
            supplied: false,
            awaiting_candidates: false,
            start: now(),
            first: Ghost(first),
            failing: Ghost(Set::empty()),
            passing: Ghost(Set::empty()),
        };
        (run, probe)
    }

    /// Begins shrinking `value` within `timeout` as well as the configured timeout: the run
    /// stops when the shorter of the two runs out.
    pub fn begin_with_timeout<T: Shrinkable>(&self, value: T, timeout: Duration) -> (r: (
        AsyncShrinkRun<T>,
        T,
    ))
        ensures
            r.0.well_formed(),
            r.0.original == value,
            r.0.config == (ShrinkConfig {
                timeout: if timeout@ < self.config.timeout@ {
                    timeout
                } else {
                    self.config.timeout
                },
                ..self.config
            }),
            r.0.checking_original,
            !r.0.finished,
            !r.0.supplied,
            r.0.steps == 0,
            r.1.model() == value.model(),
    {
        let effective = if timeout.at_least(&self.config.timeout) {
            self.config.timeout
        } else {
            timeout
        };
        let engine = AsyncShrinkEngine { config: ShrinkConfig { timeout: effective, ..self.config } };
        engine.begin(value)
    }

    /// Begins shrinking `value` with candidates that the caller supplies, such as those of
    /// a custom strategy: whenever the run needs the candidates of a value it asks for them
    /// with `ShrinkAction::Shrink`, and they are handed in with `supply`.
    pub fn begin_with_strategy<T: Shrinkable>(&self, value: T) -> (r: (AsyncShrinkRun<T>, T))
        ensures
            r.0.well_formed(),
            r.0.original == value,
            r.0.config == self.config,
            r.0.checking_original,
            !r.0.finished,
            r.0.supplied,
            r.0.steps == 0,
            r.1.model() == value.model(),
    {
        let (mut run, probe) = self.begin(value);
        run.supplied = true;
        (run, probe)
    }
}

impl Default for AsyncShrinkEngine {
    fn default() -> (r: Self)
        ensures
            r.config == spec_default_shrink_config(),
    {
        AsyncShrinkEngine::new()
    }
}

impl<T: Shrinkable> AsyncShrinkRun<T> {
    /// The value whose check is awaited.
    pub open spec fn checked(&self) -> T {
        if self.checking_original {
            self.first@
        } else {
            self.candidates@[self.index as int]
        }
    }

    /// Whether `candidates` are the candidates of `current`, of which those before `index`
    /// were reported to pass.
    pub open spec fn round_state(&self) -> bool {
        &&& !self.supplied ==> T::shrinks_to(self.current.model(), models(self.candidates@))
        &&& self.index <= self.candidates@.len()
        &&& forall|j: int| 0 <= j < self.index ==> #[trigger] self.passing@.contains(self.candidates@[j])
    }

    /// The bookkeeping of the run holds: the steps stay within the limit, a candidate of the
    /// current value is under check when the original is not, the candidates before it were
    /// reported to pass, and the current value is the starting copy or one on which a check
    /// failed.
    pub open spec fn well_formed(&self) -> bool {
        &&& self.steps <= self.config.max_iterations
        &&& !self.finished && !self.checking_original && !self.awaiting_candidates ==> self.index
            < self.candidates@.len() && self.steps < self.config.max_iterations && self.round_state()
        &&& self.awaiting_candidates ==> self.supplied && !self.finished && !self.checking_original
            && self.steps < self.config.max_iterations
        &&& self.checking_original ==> self.current == self.first@ && self.steps == 0
        &&& self.current == self.first@ || self.failing@.contains(self.current)
    }

    /// Starts a round from `current`: finishes at the limit or the timeout, otherwise asks
    /// for the check of its first candidate, or finishes when it has none.
    fn round(&mut self) -> (r: ShrinkAction<T>)
        requires
            old(self).steps <= old(self).config.max_iterations,
            old(self).current == old(self).first@ || old(self).failing@.contains(old(self).current),
            !old(self).checking_original,
            !old(self).awaiting_candidates,
        ensures
            final(self).well_formed(),
            final(self).original == old(self).original,
            final(self).config == old(self).config,
            final(self).first == old(self).first,
            final(self).supplied == old(self).supplied,
            final(self).failing == old(self).failing,
            final(self).passing == old(self).passing,
            final(self).current == old(self).current,
            final(self).steps == old(self).steps,
            !final(self).checking_original,
            r is Finish <==> final(self).finished,
            r is Shrink <==> final(self).awaiting_candidates,
            r matches ShrinkAction::Shrink(v) ==> v.model() == final(self).current.model(),
            r is Check ==> final(self).index == 0,
            r matches ShrinkAction::Check(c) ==> c.model() == final(self).checked().model(),
            r matches ShrinkAction::Finish(res) ==> res.original.model() == old(self).original.model()
                && res.minimal.model() == old(self).current.model() && res.shrink_steps
                == old(self).steps && (res.completed ==> old(self).steps
                < old(self).config.max_iterations && final(self).round_state()
                && final(self).index == final(self).candidates@.len()) && (!res.completed
                ==> old(self).steps == old(self).config.max_iterations
                || res.shrink_duration@ >= old(self).config.timeout@),
    {
        let waited = elapsed(&self.start);
        if self.steps >= self.config.max_iterations || waited.at_least(&self.config.timeout) {
            return self.finish(false, waited);
        }
        if self.supplied {
            self.awaiting_candidates = true;
            self.finished = false;
            return ShrinkAction::Shrink(self.current.duplicate());
        }
        self.candidates = self.current.shrink();
        self.index = 0;
        self.try_candidate()
    }

    /// Asks for the check of the candidate at `index`, or finishes when there is none.
    fn try_candidate(&mut self) -> (r: ShrinkAction<T>)
        requires
            old(self).steps < old(self).config.max_iterations,
            old(self).current == old(self).first@ || old(self).failing@.contains(old(self).current),
            !old(self).checking_original,
            old(self).round_state(),
            !old(self).awaiting_candidates,
        ensures
            !final(self).awaiting_candidates,
            !(r is Shrink),
            final(self).well_formed(),
            final(self).original == old(self).original,
            final(self).config == old(self).config,
            final(self).first == old(self).first,
            final(self).supplied == old(self).supplied,
            final(self).failing == old(self).failing,
            final(self).passing == old(self).passing,
            final(self).current == old(self).current,
            final(self).steps == old(self).steps,
            final(self).candidates == old(self).candidates,
            final(self).index == old(self).index,
            !final(self).checking_original,
            r is Finish <==> final(self).finished,
            r matches ShrinkAction::Check(c) ==> c.model() == final(self).checked().model(),
            r matches ShrinkAction::Finish(res) ==> res.original.model() == old(self).original.model()
                && res.minimal.model() == old(self).current.model() && res.shrink_steps
                == old(self).steps && res.completed && final(self).round_state()
                && final(self).index == final(self).candidates@.len(),
    {
        if self.index < self.candidates.len() {
            let c = self.candidates[self.index].duplicate();
            self.finished = false;
            ShrinkAction::Check(c)
        } else {
            let waited = elapsed(&self.start);
            self.finish(true, waited)
        }
    }

    /// Ends the run, with a copy of the current value as the minimal one and `waited` as the
    /// time spent.
    fn finish(&mut self, completed: bool, waited: Duration) -> (r: ShrinkAction<T>)
        requires
            old(self).steps <= old(self).config.max_iterations,
            old(self).current == old(self).first@ || old(self).failing@.contains(old(self).current),
            old(self).checking_original ==> old(self).current == old(self).first@ && old(self).steps
                == 0,
        ensures
            final(self).well_formed(),
            final(self).original == old(self).original,
            final(self).config == old(self).config,
            final(self).first == old(self).first,
            final(self).supplied == old(self).supplied,
            final(self).failing == old(self).failing,
            final(self).passing == old(self).passing,
            final(self).current == old(self).current,
            final(self).steps == old(self).steps,
            final(self).candidates == old(self).candidates,
            final(self).index == old(self).index,
            final(self).checking_original == old(self).checking_original,
            final(self).finished,
            !final(self).awaiting_candidates,
            r matches ShrinkAction::Finish(res) && res.original.model() == old(self).original.model()
                && res.minimal.model() == old(self).current.model() && res.shrink_steps
                == old(self).steps && res.completed == completed && res.shrink_duration == waited,
    {
        self.finished = true;
        self.awaiting_candidates = false;
        let original = self.original.duplicate();
        let minimal = self.current.duplicate();
        ShrinkAction::Finish(ShrinkResult::new(original, minimal, self.steps, waited, completed))
    }

    /// Takes in whether the property failed on the value asked for, and says what to do
    /// next. When the original passes, nothing is shrunk. Otherwise each round tries the
    /// candidates of the current value in order and moves to the first that fails; shrinking
    /// ends when none fails (completed: every candidate of the minimal value was reported to
    /// pass), at the step limit, or when the timeout has run out (not completed).
    pub fn advance(&mut self, failed: bool) -> (r: ShrinkAction<T>)
        requires
            old(self).well_formed(),
            !old(self).finished,
            !old(self).awaiting_candidates,
        ensures
            final(self).well_formed(),
            final(self).original == old(self).original,
            final(self).config == old(self).config,
            final(self).first == old(self).first,
            final(self).supplied == old(self).supplied,
            final(self).failing@ == if failed {
                old(self).failing@.insert(old(self).checked())
            } else {
                old(self).failing@
            },
            final(self).passing@ == if failed {
                old(self).passing@
            } else {
                old(self).passing@.insert(old(self).checked())
            },
            !old(self).checking_original && failed ==> final(self).current
                == old(self).candidates@[old(self).index as int]
                && final(self).steps == old(self).steps + 1,
            !(!old(self).checking_original && failed) ==> final(self).current == old(self).current
                && final(self).steps == old(self).steps,
            r is Finish <==> final(self).finished,
            r is Shrink <==> final(self).awaiting_candidates,
            r matches ShrinkAction::Shrink(v) ==> v.model() == final(self).current.model(),
            r matches ShrinkAction::Check(c) ==> c.model() == final(self).checked().model(),
            r is Check && (old(self).checking_original || failed) ==> final(self).index == 0,
            r is Check && !old(self).checking_original && !failed ==> final(self).index
                == old(self).index + 1 && final(self).candidates == old(self).candidates,
            r matches ShrinkAction::Finish(res) ==> {
                &&& res.original.model() == old(self).original.model()
                &&& res.shrink_steps == final(self).steps
                &&& res.minimal.model() == final(self).current.model()
                &&& old(self).checking_original && !failed ==> res.shrink_steps == 0
                    && res.completed
                &&& res.completed && !(old(self).checking_original && !failed) ==> {
                    &&& final(self).steps < old(self).config.max_iterations
                    &&& !old(self).supplied ==> T::shrinks_to(
                        final(self).current.model(),
                        models(final(self).candidates@),
                    )
                    &&& forall|j: int|
                        0 <= j < final(self).candidates@.len()
                            ==> #[trigger] final(self).passing@.contains(final(self).candidates@[j])
                }
                &&& !res.completed ==> res.shrink_steps == old(self).config.max_iterations
                    || res.shrink_duration@ >= old(self).config.timeout@
            },
    {
        let ghost checked = self.checked();
        if failed {
            proof {
                self.failing@ = self.failing@.insert(checked);
            }
        } else {
            proof {
                self.passing@ = self.passing@.insert(checked);
            }
        }
        if self.checking_original {
            self.checking_original = false;
            if !failed {
                let waited = elapsed(&self.start);
                return self.finish(true, waited);
            }
            self.round()
        } else if failed {
            let next = self.candidates.remove(self.index);
            self.current = next;
            self.steps = self.steps + 1;
            self.round()
        } else {
            let len = self.candidates.len();
            assert(self.index < len);
            self.index = self.index + 1;
            self.try_candidate()
        }
    }

    /// Takes in the candidates of the current value that the run asked for, and asks for
    /// the check of the first of them, or finishes (completed) when there are none.
    pub fn supply(&mut self, candidates: Vec<T>) -> (r: ShrinkAction<T>)
        requires
            old(self).well_formed(),
            old(self).awaiting_candidates,
        ensures
            final(self).well_formed(),
            final(self).original == old(self).original,
            final(self).config == old(self).config,
            final(self).first == old(self).first,
            final(self).supplied == old(self).supplied,
            final(self).failing == old(self).failing,
            final(self).passing == old(self).passing,
            final(self).current == old(self).current,
            final(self).steps == old(self).steps,
            final(self).candidates@ == candidates@,
            final(self).index == 0,
            !final(self).awaiting_candidates,
            r is Finish <==> final(self).finished,
            !(r is Shrink),
            r matches ShrinkAction::Check(c) ==> c.model() == final(self).checked().model(),
            r matches ShrinkAction::Finish(res) ==> res.original.model() == old(self).original.model()
                && res.minimal.model() == old(self).current.model() && res.shrink_steps
                == old(self).steps && res.completed && candidates@.len() == 0,
    {
        self.awaiting_candidates = false;
        self.candidates = candidates;
        self.index = 0;
        self.try_candidate()
    }
}

} // verus!
