//! Property tests whose property is checked elsewhere, such as by an asynchronous
//! function: the decisions of a run as a state machine. The caller starts the run,
//! checks each input that the test asks for, reports the outcome, and repeats until the
//! test finishes.

use vstd::prelude::*;
use rand::rngs::StdRng;
use crate::config::TestConfig;
use crate::error::{ErrorReporter, PropertyError, ShrinkProgress, ShrinkStep, TestFailure, TestSuccess};
use crate::execution::{add_iteration, with_iteration};
use crate::generator::Generator;
use crate::rng::{create_rng, create_seeded_rng};
use crate::text::debug_text;
use crate::time::{Duration, elapsed, now};
use vstd::std_specs::cmp::PartialEqSpec;

verus! {

/// What the caller of a stepped test does next.
pub enum AsyncAction<T> {
    /// Check the property on this input and report the outcome.
    Check(T),
    /// The test is over, with this result.
    Finish(Result<TestSuccess<T>, TestFailure<T>>),
}

/// A shrinking in progress, awaiting the outcome of the check of `pending`.
pub struct AsyncShrinking<T> {
    /// The iteration whose input failed.
    pub iteration: usize,
    /// The error of that failure, with its iteration.
    pub error: PropertyError,
    /// The failing input.
    pub input: T,
    /// The shrink candidates of the current value.
    pub candidates: Vec<T>,
    /// The position of the candidate under check.
    pub idx: usize,
    /// The candidates checked so far, the check under way included.
    pub steps: usize,
    /// The smallest failing value found so far (at first, a copy of the input).
    pub current: T,
    /// The value under check.
    pub pending: T,
    /// Whether a failing candidate has been found.
    pub found: bool,
    /// The steps recorded.
    pub progress: ShrinkProgress,
    /// When shrinking began.
    pub shrink_start: std::time::Instant,
    /// When the check under way began.
    pub step_start: std::time::Instant,
    /// The values shrinking went through, from the copy of the input to `current`.
    pub path: Ghost<Seq<T>>,
}

/// Where a stepped test stands.
pub enum AsyncPhase<T> {
    /// Not started.
    Ready,
    /// Awaiting the outcome of the check of `input`, at iteration `iteration`.
    Testing { iteration: usize, input: T },
    /// Awaiting the outcome of a check made while shrinking.
    Shrinking(AsyncShrinking<T>),
    /// Over.
    Done,
}

/// A property test driven step by step: it asks for checks and is told their outcomes.
#[verifier::reject_recursive_types(T)]
pub struct AsyncPropertyTest<T, G> {
    /// The generator of inputs.
    pub generator: G,
    /// The configuration of the run.
    pub config: TestConfig,
    /// The reporter of failures.
    pub error_reporter: ErrorReporter,
    /// Where the test stands.
    pub phase: AsyncPhase<T>,
    /// The source of randomness, seeded from the configuration when it has a seed.
    pub rng: StdRng,
    /// When the run began.
    pub test_start: std::time::Instant,
    /// The values on which a reported check failed.
    pub failing: Ghost<Set<T>>,
    /// The values on which a reported check passed.
    pub passing: Ghost<Set<T>>,
}

/// A check of a clone of `x` was reported as failed.
pub open spec fn reported_fails<T: Clone>(failing: Set<T>, x: T) -> bool {
    exists|c: T| #![trigger cloned(x, c)] cloned(x, c) && failing.contains(c)
}

/// A check of a clone of `x` was reported as passed.
pub open spec fn reported_passes<T: Clone>(passing: Set<T>, x: T) -> bool {
    exists|c: T| #![trigger cloned(x, c)] cloned(x, c) && passing.contains(c)
}

/// One greedy shrinking step over the reported outcomes: `to` is a clone of the first
/// candidate of shrinking `from` reported to fail; those before it were reported to pass.
pub open spec fn reported_step<T: Clone, G: Generator<T>>(
    generator: G,
    failing: Set<T>,
    passing: Set<T>,
    from: T,
    to: T,
) -> bool {
    exists|cands: Seq<T>, k: int|
        #![trigger generator.shrinks_to(from, cands), cands[k]]
        generator.shrinks_to(from, cands) && 0 <= k < cands.len() && cloned(cands[k], to)
            && reported_fails(failing, cands[k]) && forall|j: int|
            0 <= j < k ==> reported_passes(passing, #[trigger] cands[j])
}

/// Each value of `path` is a greedy step over the reported outcomes from the one before.
pub open spec fn reported_path<T: Clone, G: Generator<T>>(
    generator: G,
    failing: Set<T>,
    passing: Set<T>,
    path: Seq<T>,
) -> bool {
    forall|i: int|
        0 <= i < path.len() - 1 ==> #[trigger] reported_step(
            generator,
            failing,
            passing,
            path[i],
            path[i + 1],
        )
}

/// `s` is where shrinking a failing `original` leads over the reported outcomes: one or
/// more greedy steps from a clone of the original.
pub open spec fn stepped_shrunk<T: Clone, G: Generator<T>>(
    generator: G,
    failing: Set<T>,
    passing: Set<T>,
    original: T,
    s: T,
) -> bool {
    exists|path: Seq<T>|
        #[trigger] reported_path(generator, failing, passing, path) && path.len() >= 2 && cloned(
            original,
            path[0],
        ) && path.last() == s
}

/// Every candidate of shrinking `x` was reported to pass: `x` is locally minimal.
pub open spec fn reported_minimal<T: Clone, G: Generator<T>>(generator: G, passing: Set<T>, x: T) -> bool {
    exists|cands: Seq<T>|
        #[trigger] generator.shrinks_to(x, cands) && forall|j: int|
            0 <= j < cands.len() ==> reported_passes(passing, #[trigger] cands[j])
}

/// The first `n` candidates of shrinking `x` (all of them when there are fewer) were
/// reported to pass.
pub open spec fn first_reported_pass<T: Clone, G: Generator<T>>(
    generator: G,
    passing: Set<T>,
    x: T,
    n: int,
) -> bool {
    exists|cands: Seq<T>|
        #[trigger] generator.shrinks_to(x, cands) && forall|j: int|
            0 <= j < cands.len() && j < n ==> reported_passes(passing, #[trigger] cands[j])
}

/// What a stepped test reports of a failure, given the reported outcomes: the shrunk input,
/// when there is one, is reached by greedy steps from the input, differs from it, and is
/// locally minimal unless shrinking ran into its step limit or its timeout; when there is
/// none, shrinking ran past its timeout, the first candidates of a clone of the input
/// within the step limit passed, or the descent came back to a value equal to the input.
pub open spec fn stepped_failure<T: Clone + PartialEq, G: Generator<T>>(
    generator: G,
    failing: Set<T>,
    passing: Set<T>,
    config: TestConfig,
    f: TestFailure<T>,
) -> bool {
    &&& f.shrunk_input is Some <==> f.shrink_steps > 0
    &&& f.shrink_steps <= config.max_shrink_iterations
    &&& f.shrunk_input is None ==> {
        ||| f.shrink_duration@ > config.shrink_timeout@
        ||| exists|c: T|
            #![trigger first_reported_pass(generator, passing, c, config.max_shrink_iterations as int)]
            cloned(f.original_input, c) && first_reported_pass(
                generator,
                passing,
                c,
                config.max_shrink_iterations as int,
            )
        ||| exists|s: T|
            #![trigger stepped_shrunk(generator, failing, passing, f.original_input, s)]
            stepped_shrunk(generator, failing, passing, f.original_input, s) && (T::obeys_eq_spec()
                ==> s.eq_spec(&f.original_input))
    }
    &&& f.shrunk_input matches Some(s) ==> {
        &&& stepped_shrunk(generator, failing, passing, f.original_input, s)
        &&& T::obeys_eq_spec() ==> !s.eq_spec(&f.original_input)
        &&& reported_minimal(generator, passing, s) || f.shrink_steps == config.max_shrink_iterations
            || f.shrink_duration@ > config.shrink_timeout@
    }
}

/// What is reported to fail or pass stays so as more is reported: a greedy path over the
/// reported outcomes stays one.
pub proof fn lemma_reported_path_grows<T: Clone, G: Generator<T>>(
    generator: G,
    failing: Set<T>,
    passing: Set<T>,
    failing2: Set<T>,
    passing2: Set<T>,
    path: Seq<T>,
)
    requires
        failing.subset_of(failing2),
        passing.subset_of(passing2),
        reported_path(generator, failing, passing, path),
    ensures
        reported_path(generator, failing2, passing2, path),
{
    assert forall|i: int| 0 <= i < path.len() - 1 implies #[trigger] reported_step(
        generator,
        failing2,
        passing2,
        path[i],
        path[i + 1],
    ) by {
        assert(reported_step(generator, failing, passing, path[i], path[i + 1]));
        let (cands, k) = choose|cands: Seq<T>, k: int|
            #![trigger generator.shrinks_to(path[i], cands), cands[k]]
            generator.shrinks_to(path[i], cands) && 0 <= k < cands.len() && cloned(cands[k], path[i + 1])
                && reported_fails(failing, cands[k]) && forall|j: int|
                0 <= j < k ==> reported_passes(passing, #[trigger] cands[j]);
        let c = choose|c: T| #![trigger cloned(cands[k], c)] cloned(cands[k], c) && failing.contains(c);
        assert(failing2.contains(c));
        assert(reported_fails(failing2, cands[k]));
        assert forall|j: int| 0 <= j < k implies reported_passes(passing2, #[trigger] cands[j]) by {
            assert(reported_passes(passing, cands[j]));
            let d = choose|d: T| #![trigger cloned(cands[j], d)] cloned(cands[j], d) && passing.contains(d);
            assert(passing2.contains(d));
        }
    }
}

/// The text of a shrinking step from `from` to `to`, with a suffix.
fn step_text<T: core::fmt::Debug>(from: &T, to: &T, suffix: &str) -> (r: String)
    ensures
        exists|a: Seq<char>, b: Seq<char>| r@ == a + " -> "@ + b + suffix@,
{
    let a = debug_text(from);
    let b = debug_text(to);
    let mut s = a;
    s.append(" -> ");
    s.append(b.as_str());
    s.append(suffix);
    assert(s@ =~= a@ + " -> "@ + b@ + suffix@);
    s
}

impl<T: Clone + core::fmt::Debug + PartialEq, G: Generator<T>> AsyncPropertyTest<T, G> {
    /// Whether the test awaits the outcome of a check.
    pub open spec fn awaiting(&self) -> bool {
        self.phase is Testing || self.phase is Shrinking
    }

    /// The bookkeeping of the test holds. While shrinking, the candidates are those of the
    /// current value, the one under check is a clone of the candidate at `idx`, those before
    /// it were reported to pass, and the current value ends a greedy path over the reported
    /// outcomes from a clone of the failing input.
    pub open spec fn well_formed(&self) -> bool {
        match self.phase {
            AsyncPhase::Testing { iteration, input } => {
                &&& iteration < self.config.iterations
                &&& self.generator.generates(self.config.generator_config, input)
            },
            AsyncPhase::Shrinking(s) => {
                &&& s.iteration < self.config.iterations
                &&& self.generator.shrinks_to(s.current, s.candidates@)
                &&& s.idx < s.candidates@.len()
                &&& cloned(s.candidates@[s.idx as int], s.pending)
                &&& forall|j: int|
                    0 <= j < s.idx ==> reported_passes(self.passing@, #[trigger] s.candidates@[j])
                &&& 0 < s.steps <= self.config.max_shrink_iterations
                &&& s.path@.len() >= 1
                &&& cloned(s.input, s.path@[0])
                &&& s.path@.last() == s.current
                &&& reported_path(self.generator, self.failing@, self.passing@, s.path@)
                &&& s.found <==> s.path@.len() >= 2
                &&& !s.found ==> s.steps == s.idx + 1
            },
            _ => true,
        }
    }

    /// The value whose check is awaited.
    pub open spec fn checked(&self) -> T
        recommends
            self.awaiting(),
    {
        match self.phase {
            AsyncPhase::Testing { input, .. } => input,
            AsyncPhase::Shrinking(s) => s.pending,
            _ => arbitrary(),
        }
    }

    /// A test ready to start, with the default reporter. Its randomness is seeded from
    /// the configuration when it has a seed.
    pub fn new(generator: G, config: TestConfig) -> (r: Self)
        ensures
            r.generator == generator,
            r.config == config,
            r.error_reporter == crate::error::spec_default_reporter(),
            r.phase is Ready,
            r.failing@ == Set::<T>::empty(),
            r.passing@ == Set::<T>::empty(),
    {
        AsyncPropertyTest::with_error_reporter(generator, config, ErrorReporter::new())
    }

    /// A test ready to start, with a custom reporter.
    pub fn with_error_reporter(generator: G, config: TestConfig, error_reporter: ErrorReporter) -> (r:
        Self)
        ensures
            r.generator == generator,
            r.config == config,
            r.error_reporter == error_reporter,
            r.phase is Ready,
            r.failing@ == Set::<T>::empty(),
            r.passing@ == Set::<T>::empty(),
    {
        let rng = match config.seed {
            Some(seed) => create_seeded_rng(seed),
            None => create_rng(),
        };
        AsyncPropertyTest {
            generator,
            config,
            error_reporter,
            phase: AsyncPhase::Ready,
            rng,
            test_start: now(),
            failing: Ghost(Set::empty()),
            passing: Ghost(Set::empty()),
        }
    }

    /// Starts the run: asks for the check of the first input, or finishes at once when
    /// there are no iterations.
    pub fn start(&mut self) -> (r: AsyncAction<T>)
        requires
            old(self).phase is Ready,
            old(self).generator.can_generate(old(self).config.generator_config),
        ensures
            final(self).generator == old(self).generator,
            final(self).config == old(self).config,
            final(self).error_reporter == old(self).error_reporter,
            final(self).failing == old(self).failing,
            final(self).passing == old(self).passing,
            final(self).well_formed(),
            old(self).config.iterations == 0 ==> final(self).phase is Done,
            old(self).config.iterations == 0 ==> (r matches AsyncAction::Finish(Ok(s))
                && s.iterations == 0 && s.config == old(self).config),
            old(self).config.iterations > 0 ==> (final(self).phase matches AsyncPhase::Testing {
                iteration,
                input,
            } && iteration == 0 && (r matches AsyncAction::Check(c) && cloned(input, c))),
    {
        self.test_start = now();
        if self.config.iterations == 0 {
            self.phase = AsyncPhase::Done;
            return AsyncAction::Finish(Ok(TestSuccess::new(0, self.config)));
        }
        let input = self.generator.generate(&mut self.rng, &self.config.generator_config);
        let c = input.clone();
        self.phase = AsyncPhase::Testing { iteration: 0, input };
        AsyncAction::Check(c)
    }

    /// Moves shrinking on to the candidate at `s.idx`: finishes when there is none (every
    /// candidate passed), when the timeout has run out or the step limit is reached, and
    /// otherwise asks for its check.
    fn shrink_next(&mut self, s: AsyncShrinking<T>) -> (r: AsyncAction<T>)
        requires
            s.iteration < old(self).config.iterations,
            old(self).generator.shrinks_to(s.current, s.candidates@),
            s.idx <= s.candidates@.len(),
            forall|j: int|
                0 <= j < s.idx ==> reported_passes(old(self).passing@, #[trigger] s.candidates@[j]),
            s.steps <= old(self).config.max_shrink_iterations,
            s.path@.len() >= 1,
            cloned(s.input, s.path@[0]),
            s.path@.last() == s.current,
            reported_path(old(self).generator, old(self).failing@, old(self).passing@, s.path@),
            s.found <==> s.path@.len() >= 2,
            s.found ==> s.steps > 0,
            !s.found ==> s.steps == s.idx,
        ensures
            final(self).generator == old(self).generator,
            final(self).config == old(self).config,
            final(self).error_reporter == old(self).error_reporter,
            final(self).failing == old(self).failing,
            final(self).passing == old(self).passing,
            final(self).well_formed(),
            r is Check <==> final(self).awaiting(),
            r matches AsyncAction::Check(c) ==> cloned(final(self).checked(), c),
            r is Check ==> (final(self).phase matches AsyncPhase::Shrinking(s2) && s2.iteration
                == s.iteration && s2.error == s.error && s2.input == s.input && s2.idx == s.idx
                && s2.current == s.current && s2.candidates == s.candidates && s2.found == s.found),
            r is Finish ==> final(self).phase is Done,
            r matches AsyncAction::Finish(res) ==> (res matches Err(f) && f.error == s.error
                && f.original_input == s.input && f.failed_iteration == s.iteration && f.config
                == old(self).config && stepped_failure(
                old(self).generator,
                final(self).failing@,
                final(self).passing@,
                old(self).config,
                f,
            ) && (!s.found ==> f.shrunk_input is None)),
    {
        let mut s = s;
        let ghost g = self.generator;
        let ghost fl = self.failing@;
        let ghost ps = self.passing@;
        let ghost max = self.config.max_shrink_iterations as int;
        if s.idx >= s.candidates.len() {
            let total = elapsed(&s.shrink_start);
            assert(reported_minimal(g, ps, s.current));
            proof {
                if !s.found {
                    assert(first_reported_pass(g, ps, s.current, max));
                }
            }
            return self.shrink_finish(s, total);
        }
        let reading = elapsed(&s.shrink_start);
        if !self.config.shrink_timeout.at_least(&reading) {
            return self.shrink_finish(s, reading);
        }
        if s.steps >= self.config.max_shrink_iterations {
            let total = elapsed(&s.shrink_start);
            proof {
                if !s.found {
                    assert(first_reported_pass(g, ps, s.current, max));
                }
            }
            return self.shrink_finish(s, total);
        }
        s.steps = s.steps + 1;
        s.pending = s.candidates[s.idx].clone();
        s.step_start = now();
        let c = s.pending.clone();
        self.phase = AsyncPhase::Shrinking(s);
        AsyncAction::Check(c)
    }

    /// Ends shrinking after `total` spent on it: the failure, with the current value as the
    /// shrunk input when a failing candidate was found and the value differs from the input.
    fn shrink_finish(&mut self, s: AsyncShrinking<T>, total: Duration) -> (r: AsyncAction<T>)
        requires
            s.steps <= old(self).config.max_shrink_iterations,
            s.path@.len() >= 1,
            cloned(s.input, s.path@[0]),
            s.path@.last() == s.current,
            reported_path(old(self).generator, old(self).failing@, old(self).passing@, s.path@),
            s.found <==> s.path@.len() >= 2,
            s.found ==> s.steps > 0,
            reported_minimal(old(self).generator, old(self).passing@, s.current) || s.steps
                == old(self).config.max_shrink_iterations || total@ > old(self).config.shrink_timeout@,
            !s.found ==> total@ > old(self).config.shrink_timeout@ || first_reported_pass(
                old(self).generator,
                old(self).passing@,
                s.current,
                old(self).config.max_shrink_iterations as int,
            ),
        ensures
            final(self).generator == old(self).generator,
            final(self).config == old(self).config,
            final(self).error_reporter == old(self).error_reporter,
            final(self).failing == old(self).failing,
            final(self).passing == old(self).passing,
            final(self).phase is Done,
            r matches AsyncAction::Finish(res) && res matches Err(f) && f.error == s.error
                && f.original_input == s.input && f.failed_iteration == s.iteration && f.config
                == old(self).config && stepped_failure(
                old(self).generator,
                old(self).failing@,
                old(self).passing@,
                old(self).config,
                f,
            ) && (!s.found ==> f.shrunk_input is None),
    {
        let ghost g = self.generator;
        let ghost fl = self.failing@;
        let ghost ps = self.passing@;
        let mut progress = s.progress;
        progress.complete(total);
        let same = s.current == s.input;
        let ghost cur = s.current;
        let ghost max = self.config.max_shrink_iterations as int;
        let (shrunk, steps) = if s.found && !same {
            proof {
                assert(stepped_shrunk(g, fl, ps, s.input, s.current));
            }
            (Some(s.current), s.steps)
        } else {
            (None, 0)
        };
        let failure = TestFailure::new(
            s.error,
            s.input,
            shrunk,
            steps,
            self.config,
            s.iteration,
            elapsed(&self.test_start),
            total,
        );
        proof {
            if !(s.found && !same) {
                if s.found {
                    assert(stepped_shrunk(g, fl, ps, failure.original_input, cur));
                } else if !(total@ > self.config.shrink_timeout@) {
                    assert(first_reported_pass(g, ps, cur, max));
                    assert(cloned(failure.original_input, cur));
                }
            }
        }
        self.phase = AsyncPhase::Done;
        AsyncAction::Finish(Err(failure))
    }

    /// Takes in the outcome of the check asked for, and says what to do next. A pass
    /// moves on to the next iteration, or finishes with success after the last. A failure
    /// starts shrinking the input: each round tries the candidates of the current value in
    /// order and moves to the first that fails, until every candidate passes, the step limit
    /// is reached or the timeout runs out. The run then finishes with the failure, its
    /// iteration added to a property failure that has none.
    pub fn advance(&mut self, outcome: Result<(), PropertyError>) -> (r: AsyncAction<T>)
        requires
            old(self).well_formed(),
            old(self).awaiting(),
            old(self).generator.can_generate(old(self).config.generator_config),
            forall|x: T| #[trigger] old(self).generator.can_shrink(x),
        ensures
            final(self).generator == old(self).generator,
            final(self).config == old(self).config,
            final(self).error_reporter == old(self).error_reporter,
            final(self).failing@ == if outcome is Err {
                old(self).failing@.insert(old(self).checked())
            } else {
                old(self).failing@
            },
            final(self).passing@ == if outcome is Ok {
                old(self).passing@.insert(old(self).checked())
            } else {
                old(self).passing@
            },
            final(self).well_formed(),
            r is Check <==> final(self).awaiting(),
            r matches AsyncAction::Check(c) ==> cloned(final(self).checked(), c),
            r is Finish ==> final(self).phase is Done,
            old(self).phase matches AsyncPhase::Testing { iteration, input } ==> match outcome {
                Ok(_) => if iteration + 1 < old(self).config.iterations {
                    final(self).phase matches AsyncPhase::Testing { iteration: i2, .. } && i2
                        == iteration + 1
                } else {
                    r matches AsyncAction::Finish(Ok(s)) && s.iterations == old(
                        self,
                    ).config.iterations && s.config == old(self).config
                },
                Err(e) => match r {
                    AsyncAction::Check(_) => final(self).phase matches AsyncPhase::Shrinking(s)
                        && s.iteration == iteration && s.error == add_iteration(e, iteration)
                        && s.input == input && s.idx == 0 && !s.found && cloned(input, s.current),
                    AsyncAction::Finish(res) => res matches Err(f) && f.error == add_iteration(
                        e,
                        iteration,
                    ) && f.original_input == input && f.failed_iteration == iteration
                        && f.config == old(self).config && f.shrunk_input is None
                        && f.shrink_steps == 0 && stepped_failure(
                        old(self).generator,
                        final(self).failing@,
                        final(self).passing@,
                        old(self).config,
                        f,
                    ),
                },
            },
            old(self).phase matches AsyncPhase::Shrinking(s) ==> match r {
                AsyncAction::Check(_) => final(self).phase matches AsyncPhase::Shrinking(s2)
                    && s2.iteration == s.iteration && s2.error == s.error && s2.input == s.input
                    && if outcome is Err {
                    s2.current == s.pending && s2.idx == 0
                } else {
                    s2.current == s.current && s2.idx == s.idx + 1
                },
                AsyncAction::Finish(res) => res matches Err(f) && f.error == s.error
                    && f.original_input == s.input && f.failed_iteration == s.iteration
                    && f.config == old(self).config && stepped_failure(
                    old(self).generator,
                    final(self).failing@,
                    final(self).passing@,
                    old(self).config,
                    f,
                ),
            },
    {
        let ghost checked = self.checked();
        let ghost fl0 = self.failing@;
        let ghost ps0 = self.passing@;
        proof {
            if outcome is Err {
                self.failing@ = self.failing@.insert(checked);
            } else {
                self.passing@ = self.passing@.insert(checked);
            }
        }
        let mut phase = AsyncPhase::Done;
        core::mem::swap(&mut phase, &mut self.phase);
        match phase {
            AsyncPhase::Testing { iteration, input } => {
                match outcome {
                    Ok(()) => {
                        if iteration + 1 < self.config.iterations {
                            let next = self.generator.generate(&mut self.rng, &self.config.generator_config);
                            let c = next.clone();
                            self.phase = AsyncPhase::Testing { iteration: iteration + 1, input: next };
                            AsyncAction::Check(c)
                        } else {
                            self.phase = AsyncPhase::Done;
                            AsyncAction::Finish(Ok(TestSuccess::new(self.config.iterations, self.config)))
                        }
                    },
                    Err(e) => {
                        let error = with_iteration(e, iteration);
                        let current = input.clone();
                        let candidates = self.generator.shrink(&current);
                        let pending = input.clone();
                        let ghost path = seq![current];
                        assert(reported_path(self.generator, self.failing@, self.passing@, path));
                        let s = AsyncShrinking {
                            iteration,
                            error,
                            input,
                            candidates,
                            idx: 0,
                            steps: 0,
                            current,
                            pending,
                            found: false,
                            progress: ShrinkProgress::new(),
                            shrink_start: now(),
                            step_start: now(),
                            path: Ghost(path),
                        };
                        self.shrink_next(s)
                    },
                }
            },
            AsyncPhase::Shrinking(s) => {
                let mut s = s;
                let ghost s0 = s;
                proof {
                    lemma_reported_path_grows(
                        self.generator,
                        fl0,
                        ps0,
                        self.failing@,
                        self.passing@,
                        s0.path@,
                    );
                    assert forall|j: int| 0 <= j < s0.idx implies reported_passes(
                        self.passing@,
                        #[trigger] s0.candidates@[j],
                    ) by {
                        assert(reported_passes(ps0, s0.candidates@[j]));
                        let d = choose|d: T|
                            #![trigger cloned(s0.candidates@[j], d)]
                            cloned(s0.candidates@[j], d) && ps0.contains(d);
                        assert(self.passing@.contains(d));
                    }
                }
                match outcome {
                    Err(_) => {
                        s.progress.add_step(
                            ShrinkStep {
                                step_number: s.steps,
                                input_description: step_text(&s.current, &s.pending, ""),
                                step_time: elapsed(&s.step_start),
                                successful: true,
                            },
                        );
                        proof {
                            assert(reported_fails(self.failing@, s0.candidates@[s0.idx as int]));
                            assert(reported_step(
                                self.generator,
                                self.failing@,
                                self.passing@,
                                s0.current,
                                s0.pending,
                            ));
                            let p2 = s0.path@.push(s0.pending);
                            assert forall|i: int| 0 <= i < p2.len() - 1 implies #[trigger] reported_step(
                                self.generator,
                                self.failing@,
                                self.passing@,
                                p2[i],
                                p2[i + 1],
                            ) by {
                                if i < s0.path@.len() - 1 {
                                    assert(p2[i] == s0.path@[i] && p2[i + 1] == s0.path@[i + 1]);
                                } else {
                                    assert(p2[i] == s0.current && p2[i + 1] == s0.pending);
                                }
                            }
                            s.path@ = p2;
                        }
                        core::mem::swap(&mut s.current, &mut s.pending);
                        s.found = true;
                        s.candidates = self.generator.shrink(&s.current);
                        s.idx = 0;
                        self.shrink_next(s)
                    },
                    Ok(()) => {
                        s.progress.add_step(
                            ShrinkStep {
                                step_number: s.steps,
                                input_description: step_text(&s.current, &s.pending, " (passed)"),
                                step_time: elapsed(&s.step_start),
                                successful: false,
                            },
                        );
                        assert(reported_passes(self.passing@, s0.candidates@[s0.idx as int]));
                        let len = s.candidates.len();
                        assert(s.idx < len);
                        s.idx = s.idx + 1;
                        self.shrink_next(s)
                    },
                }
            },
            _ => {
                self.phase = AsyncPhase::Done;
                AsyncAction::Finish(Ok(TestSuccess::new(self.config.iterations, self.config)))
            },
        }
    }
}

} // verus!
