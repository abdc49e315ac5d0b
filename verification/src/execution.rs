//! Running property tests: generation, checking, and shrinking of a failure.

use vstd::prelude::*;
use rand::rngs::StdRng;
use crate::config::{GeneratorConfig, TestConfig, is_default_test_config};
use crate::error::{ErrorReporter, PropertyError, ShrinkProgress, ShrinkStep, TestFailure, TestSuccess};
use crate::generator::Generator;
use crate::property::Property;
use crate::rng::{create_rng, create_seeded_rng};
use crate::text::debug_text;
use crate::time::{Duration, elapsed, now};
use vstd::std_specs::cmp::PartialEqSpec;

pub mod builder;
pub mod stepped;

verus! {

/// The error with the iteration number added, when it is a property failure that
/// has none.
pub open spec fn add_iteration(e: PropertyError, iteration: usize) -> PropertyError {
    match e {
        PropertyError::PropertyFailed { message, context, iteration: None } =>
            PropertyError::PropertyFailed { message, context, iteration: Some(iteration) },
        _ => e,
    }
}

/// Adds the iteration number to a property failure that has none; other errors are
/// kept as they are.
pub fn with_iteration(error: PropertyError, iteration: usize) -> (r: PropertyError)
    ensures
        r == add_iteration(error, iteration),
{
    match error {
        PropertyError::PropertyFailed { message, context, iteration: None } =>
            PropertyError::PropertyFailed { message, context, iteration: Some(iteration) },
        other => other,
    }
}

/// A property test: a generator of inputs, a property, a configuration and a reporter.
pub struct PropertyTest<T, G, P> {
    /// The generator of inputs.
    pub generator: G,
    /// The property checked.
    pub property: P,
    /// The configuration of the run.
    pub config: TestConfig,
    /// The reporter of failures.
    pub error_reporter: ErrorReporter,
    /// Ties the test to its input type.
    pub marker: core::marker::PhantomData<T>,
}

/// The property fails on a clone of `x`.
pub open spec fn fails_on<T: Clone, P: Property<T>>(property: P, x: T) -> bool {
    exists|c: T, e: PropertyError|
        #![trigger property.outcome(c, Err(e))]
        cloned(x, c) && property.outcome(c, Err(e))
}

/// One greedy shrinking step from `from` to `to`: `to` is a clone of the first candidate
/// of shrinking `from` on which the property fails; it passes on the ones before.
pub open spec fn greedy_step<T: Clone, G: Generator<T>, P: Property<T>>(
    generator: G,
    property: P,
    from: T,
    to: T,
) -> bool {
    exists|cands: Seq<T>, k: int|
        #![trigger generator.shrinks_to(from, cands), cands[k]]
        generator.shrinks_to(from, cands) && 0 <= k < cands.len() && cloned(cands[k], to)
            && fails_on(property, cands[k]) && forall|j: int|
            0 <= j < k ==> passes_on(property, #[trigger] cands[j])
}

/// Each value of `path` is a greedy shrinking step from the one before.
pub open spec fn greedy_path<T: Clone, G: Generator<T>, P: Property<T>>(
    generator: G,
    property: P,
    path: Seq<T>,
) -> bool {
    forall|i: int|
        0 <= i < path.len() - 1 ==> #[trigger] greedy_step(generator, property, path[i], path[i + 1])
}

/// `s` is where shrinking a failing `original` leads: one or more greedy steps from a
/// clone of the original.
pub open spec fn shrunk_failure<T: Clone, G: Generator<T>, P: Property<T>>(
    generator: G,
    property: P,
    original: T,
    s: T,
) -> bool {
    exists|path: Seq<T>|
        #[trigger] greedy_path(generator, property, path) && path.len() >= 2 && cloned(
            original,
            path[0],
        ) && path.last() == s
}

/// The property passes on the first `n` candidates of shrinking `x` (on all of them when
/// there are fewer).
pub open spec fn first_candidates_pass<T: Clone, G: Generator<T>, P: Property<T>>(
    generator: G,
    property: P,
    x: T,
    n: int,
) -> bool {
    exists|cands: Seq<T>|
        #[trigger] generator.shrinks_to(x, cands) && forall|j: int|
            0 <= j < cands.len() && j < n ==> passes_on(property, #[trigger] cands[j])
}

/// Why shrinking a failing `original` may report no shrunk input after spending `time`:
/// it ran past `timeout`, or the property passed on the first `max` candidates of a clone
/// of the original, or the descent came back to a value equal to the original.
pub open spec fn unshrunk_reason<T: Clone + PartialEq, G: Generator<T>, P: Property<T>>(
    generator: G,
    property: P,
    original: T,
    max: int,
    time: Duration,
    timeout: Duration,
) -> bool {
    ||| time@ > timeout@
    ||| exists|c: T|
        #![trigger first_candidates_pass(generator, property, c, max)]
        cloned(original, c) && first_candidates_pass(generator, property, c, max)
    ||| exists|s: T|
        #![trigger shrunk_failure(generator, property, original, s)]
        shrunk_failure(generator, property, original, s) && (T::obeys_eq_spec() ==> s.eq_spec(
            &original,
        ))
}

/// The property passes on every candidate of shrinking `x`: `x` is locally minimal.
pub open spec fn all_candidates_pass<T: Clone, G: Generator<T>, P: Property<T>>(
    generator: G,
    property: P,
    x: T,
) -> bool {
    exists|cands: Seq<T>|
        #[trigger] generator.shrinks_to(x, cands) && forall|j: int|
            0 <= j < cands.len() ==> passes_on(property, #[trigger] cands[j])
}

/// The property passes on a clone of `x`.
pub open spec fn passes_on<T: Clone, P: Property<T>>(property: P, x: T) -> bool {
    exists|c: T, o: P::Output|
        #![trigger property.outcome(c, Ok(o))]
        cloned(x, c) && property.outcome(c, Ok(o))
}

/// The seeds whose verdict is `want`, in order.
pub open spec fn select_seeds(seeds: Seq<u64>, verdicts: Seq<bool>, want: bool) -> Seq<u64>
    decreases seeds.len(),
{
    if seeds.len() == 0 {
        seq![]
    } else {
        let rest = select_seeds(seeds.drop_last(), verdicts.drop_last(), want);
        if verdicts.last() == want {
            rest.push(seeds.last())
        } else {
            rest
        }
    }
}

/// Replaying splits the seeds: every seed lands in exactly one of the two lists, so their
/// lengths add up to the number of seeds.
pub proof fn lemma_replay_partitions_seeds(seeds: Seq<u64>, verdicts: Seq<bool>)
    requires
        verdicts.len() == seeds.len(),
    ensures
        select_seeds(seeds, verdicts, true).len() + select_seeds(seeds, verdicts, false).len()
            == seeds.len(),
    decreases seeds.len(),
{
    if seeds.len() > 0 {
        lemma_replay_partitions_seeds(seeds.drop_last(), verdicts.drop_last());
    }
}

/// A verdict on a generated input: there is an input the generator may give on which the
/// property fails (`true`) or passes (`false`). Which input a seed leads to is drawn from
/// the seeded source of randomness and is not part of the verdict.
pub open spec fn generated_verdict<T: Clone, G: Generator<T>, P: Property<T>>(
    generator: G,
    property: P,
    config: GeneratorConfig,
    verdict: bool,
) -> bool {
    exists|x: T|
        #[trigger] generator.generates(config, x) && if verdict {
            fails_on(property, x)
        } else {
            passes_on(property, x)
        }
}

/// The first `n` iterations passed: there are `n` inputs the generator may give, on each of
/// which the property passes.
pub open spec fn all_passed_inputs<T: Clone, G: Generator<T>, P: Property<T>>(
    generator: G,
    property: P,
    config: GeneratorConfig,
    n: int,
) -> bool {
    exists|xs: Seq<T>| #[trigger] passing_inputs(generator, property, config, xs) && xs.len() == n
}

/// Each of `xs` is an input the generator may give, on which the property passes.
pub open spec fn passing_inputs<T: Clone, G: Generator<T>, P: Property<T>>(
    generator: G,
    property: P,
    config: GeneratorConfig,
    xs: Seq<T>,
) -> bool {
    forall|i: int|
        0 <= i < xs.len() ==> generator.generates(config, #[trigger] xs[i]) && passes_on(
            property,
            xs[i],
        )
}

/// What a run of a property test gives back. On success, the property passed on as many
/// generated inputs as there are iterations. On failure, the input fails, the iterations
/// before it passed, and the reported shrunk input, when there is one, is reached by
/// greedy steps from the input, differs from it, and is locally minimal unless shrinking
/// ran into its step limit or its timeout.
pub open spec fn run_outcome<T: Clone + PartialEq, G: Generator<T>, P: Property<T>>(
    generator: G,
    property: P,
    config: TestConfig,
    r: Result<TestSuccess<T>, TestFailure<T>>,
) -> bool {
    match r {
        Ok(s) => {
            &&& s.iterations == config.iterations
            &&& s.config == config
            &&& all_passed_inputs(generator, property, config.generator_config, config.iterations as int)
        },
        Err(f) => {
            &&& f.config == config
            &&& f.failed_iteration < config.iterations
            &&& all_passed_inputs(generator, property, config.generator_config, f.failed_iteration as int)
            &&& generator.generates(config.generator_config, f.original_input)
            &&& exists|c: T, e: PropertyError|
                #![trigger property.outcome(c, Err(e))]
                cloned(f.original_input, c) && property.outcome(c, Err(e)) && f.error
                    == add_iteration(e, f.failed_iteration)
            &&& f.shrunk_input is Some <==> f.shrink_steps > 0
            &&& f.shrink_steps <= config.max_shrink_iterations
            &&& f.shrunk_input is None ==> unshrunk_reason(
                generator,
                property,
                f.original_input,
                config.max_shrink_iterations as int,
                f.shrink_duration,
                config.shrink_timeout,
            )
            &&& f.shrunk_input matches Some(s) ==> {
                &&& shrunk_failure(generator, property, f.original_input, s)
                &&& T::obeys_eq_spec() ==> !s.eq_spec(&f.original_input)
                &&& all_candidates_pass(generator, property, s) || f.shrink_steps
                    == config.max_shrink_iterations || f.shrink_duration@ > config.shrink_timeout@
            }
        },
    }
}

impl<T: Clone + core::fmt::Debug + PartialEq, G: Generator<T>, P: Property<T>> PropertyTest<
    T,
    G,
    P,
> {
    /// A property test with the default reporter.
    pub fn new(generator: G, property: P, config: TestConfig) -> (r: Self)
        ensures
            r.generator == generator,
            r.property == property,
            r.config == config,
            r.error_reporter == crate::error::spec_default_reporter(),
    {
        PropertyTest {
            generator,
            property,
            config,
            error_reporter: ErrorReporter::new(),
            marker: core::marker::PhantomData,
        }
    }

    /// A property test with a custom reporter.
    pub fn with_error_reporter(
        generator: G,
        property: P,
        config: TestConfig,
        error_reporter: ErrorReporter,
    ) -> (r: Self)
        ensures
            r.generator == generator,
            r.property == property,
            r.config == config,
            r.error_reporter == error_reporter,
    {
        PropertyTest { generator, property, config, error_reporter, marker: core::marker::PhantomData }
    }

    /// Runs the test: for each iteration, generates an input and checks the property;
    /// on the first failure, shrinks the input and gives back the failure, with the
    /// iteration number added to a property failure that has none. Passes when every
    /// iteration passes.
    pub fn run(self) -> (r: Result<TestSuccess<T>, TestFailure<T>>)
        requires
            self.generator.can_generate(self.config.generator_config),
            forall|x: T| #[trigger] self.property.accepts(x),
            forall|x: T| #[trigger] self.generator.can_shrink(x),
        ensures
            run_outcome(self.generator, self.property, self.config, r),
    {
        let test_start = now();
        let mut rng = match self.config.seed {
            Some(seed) => create_seeded_rng(seed),
            None => create_rng(),
        };
        let n = self.config.iterations;
        let mut iteration: usize = 0;
        let ghost mut passed: Seq<T> = seq![];
        while iteration < n
            invariant
                n == self.config.iterations,
                iteration <= n,
                passed.len() == iteration,
                passing_inputs(self.generator, self.property, self.config.generator_config, passed),
                self.generator.can_generate(self.config.generator_config),
                forall|x: T| #[trigger] self.property.accepts(x),
                forall|x: T| #[trigger] self.generator.can_shrink(x),
            decreases n - iteration,
        {
            let input = self.generator.generate(&mut rng, &self.config.generator_config);
            let probe = input.clone();
            let ghost probe_value = probe;
            match self.property.test(probe) {
                Ok(o) => {
                    assert(self.property.outcome(probe_value, Ok(o)));
                    assert(passes_on(self.property, input));
                    proof {
                        let next = passed.push(input);
                        assert(passing_inputs(
                            self.generator,
                            self.property,
                            self.config.generator_config,
                            next,
                        )) by {
                            assert forall|i: int| 0 <= i < next.len() implies self.generator.generates(
                                self.config.generator_config,
                                #[trigger] next[i],
                            ) && passes_on(self.property, next[i]) by {
                                if i < passed.len() {
                                    assert(next[i] == passed[i]);
                                }
                            }
                        }
                        passed = next;
                    }
                },
                Err(error) => {
                    let ghost raw = error;
                    let error = with_iteration(error, iteration);
                    let (shrunk, steps, progress, shrink_duration) = self.shrink_failure(&input);
                    let failure = TestFailure::new(
                        error,
                        input,
                        shrunk,
                        steps,
                        self.config,
                        iteration,
                        elapsed(&test_start),
                        shrink_duration,
                    );
                    assert(self.property.outcome(probe_value, Err(raw)));
                    assert(passing_inputs(self.generator, self.property, self.config.generator_config, passed));
                    return Err(failure);
                },
            }
            iteration = iteration + 1;
        }
        assert(passing_inputs(self.generator, self.property, self.config.generator_config, passed));
        Ok(TestSuccess::new(self.config.iterations, self.config))
    }

    /// Replays saved failures: for each seed, generates an input from a generator seeded
    /// with it and checks the property. Gives back the seeds whose input still fails, then
    /// those whose input now passes, each in the order given.
    pub fn replay_failures(&self, seeds: &[u64]) -> (r: (Vec<u64>, Vec<u64>))
        requires
            self.generator.can_generate(self.config.generator_config),
            forall|x: T| #[trigger] self.property.accepts(x),
        ensures
            exists|verdicts: Seq<bool>|
                {
                    &&& verdicts.len() == seeds@.len()
                    &&& forall|i: int|
                        0 <= i < verdicts.len() ==> generated_verdict(
                            self.generator,
                            self.property,
                            self.config.generator_config,
                            #[trigger] verdicts[i],
                        )
                    &&& r.0@ == select_seeds(seeds@, verdicts, true)
                    &&& r.1@ == select_seeds(seeds@, verdicts, false)
                },
            r.0@.len() + r.1@.len() == seeds@.len(),
    {
        let mut still_failing: Vec<u64> = Vec::new();
        let mut now_passing: Vec<u64> = Vec::new();
        let ghost mut verdicts: Seq<bool> = seq![];
        let mut i: usize = 0;
        while i < seeds.len()
            invariant
                i <= seeds@.len(),
                verdicts.len() == i,
                self.generator.can_generate(self.config.generator_config),
                forall|x: T| #[trigger] self.property.accepts(x),
                forall|k: int|
                    0 <= k < verdicts.len() ==> generated_verdict(
                        self.generator,
                        self.property,
                        self.config.generator_config,
                        #[trigger] verdicts[k],
                    ),
                still_failing@ == select_seeds(seeds@.take(i as int), verdicts, true),
                now_passing@ == select_seeds(seeds@.take(i as int), verdicts, false),
            decreases seeds@.len() - i,
        {
            let seed = seeds[i];
            let mut rng = create_seeded_rng(seed);
            let input = self.generator.generate(&mut rng, &self.config.generator_config);
            let probe = input.clone();
            let ghost probe_value = probe;
            let failed = match self.property.test(probe) {
                Ok(o) => {
                    assert(self.property.outcome(probe_value, Ok(o)));
                    assert(passes_on(self.property, input));
                    false
                },
                Err(e) => {
                    assert(self.property.outcome(probe_value, Err(e)));
                    assert(fails_on(self.property, input));
                    true
                },
            };
            assert(generated_verdict(self.generator, self.property, self.config.generator_config, failed));
            if failed {
                still_failing.push(seed);
            } else {
                now_passing.push(seed);
            }
            proof {
                let v2 = verdicts.push(failed);
                assert(seeds@.take(i + 1).drop_last() =~= seeds@.take(i as int));
                assert(v2.drop_last() =~= verdicts);
                verdicts = v2;
            }
            i = i + 1;
        }
        assert(seeds@.take(seeds@.len() as int) =~= seeds@);
        proof {
            lemma_replay_partitions_seeds(seeds@, verdicts);
        }
        (still_failing, now_passing)
    }

    /// The text of a shrinking step from `from` to `to`, with a suffix.
    fn step_description(from: &T, to: &T, suffix: &str) -> (r: String)
        ensures
            exists|a: Seq<char>, b: Seq<char>| r@ == a + " -> "@ + b + suffix@,
    {
        let a = debug_text(from);
        let b = debug_text(to);
        let mut s = a;
        s.append(" -> ");
        s.append(b.as_str());
        s.append(suffix);
        assert(s@ =~= a@ + " -> "@ + b@ + suffix@);
        s
    }

    /// Shrinks a failing input: repeatedly moves to the first candidate of the current
    /// value on which the property fails, until none fails, the step limit is reached or
    /// the timeout runs out, recording each step. Gives back the shrunk input (when it
    /// differs from the original), the number of steps, the progress and the time spent.
    fn shrink_failure(&self, original_input: &T) -> (r: (Option<T>, usize, ShrinkProgress, Duration))
        requires
            forall|x: T| #[trigger] self.property.accepts(x),
            forall|x: T| #[trigger] self.generator.can_shrink(x),
        ensures
            r.0 is Some <==> r.1 > 0,
            r.1 <= self.config.max_shrink_iterations,
            r.0 matches Some(s) ==> shrunk_failure(self.generator, self.property, *original_input, s),
            r.0 matches Some(s) ==> (T::obeys_eq_spec() ==> !s.eq_spec(original_input)),
            r.0 matches Some(s) ==> all_candidates_pass(self.generator, self.property, s) || r.1
                == self.config.max_shrink_iterations || r.3@ > self.config.shrink_timeout@,
            r.0 is None ==> unshrunk_reason(
                self.generator,
                self.property,
                *original_input,
                self.config.max_shrink_iterations as int,
                r.3,
                self.config.shrink_timeout,
            ),
            r.2.completed,
            r.2.total_time == r.3,
    {
        let start_time = now();
        let max = self.config.max_shrink_iterations;
        let mut steps: usize = 0;
        let mut current = original_input.clone();
        let mut progress = ShrinkProgress::new();
        let mut stopped = false;
        let mut timed_out = false;
        let mut stop_reading = Duration::zero();
        let mut go = true;
        let mut found = false;
        let ghost mut path: Seq<T> = seq![current];
        while go
            invariant
                max == self.config.max_shrink_iterations,
                steps <= max,
                forall|x: T| #[trigger] self.property.accepts(x),
                forall|x: T| #[trigger] self.generator.can_shrink(x),
                path.len() >= 1,
                cloned(*original_input, path[0]),
                path.last() == current,
                greedy_path(self.generator, self.property, path),
                found <==> path.len() >= 2,
                found ==> steps > 0,
                timed_out ==> stop_reading@ > self.config.shrink_timeout@,
                stopped ==> timed_out || steps == max,
                !go ==> stopped || all_candidates_pass(self.generator, self.property, current),
                !found ==> current == path[0],
                go && !found ==> steps == 0,
                !go && !found ==> timed_out || first_candidates_pass(
                    self.generator,
                    self.property,
                    current,
                    max as int,
                ),
            decreases max - steps + (if go { 1int } else { 0int }),
        {
            let candidates = self.generator.shrink(&current);
            let ghost cands = candidates@;
            let n = candidates.len();
            let mut idx: usize = 0;
            let mut moved = false;
            let ghost before = current;
            let ghost steps_before = steps;
            let ghost first_round = !found;
            while idx < n && !moved && !stopped
                invariant
                    n == candidates@.len(),
                    cands == candidates@,
                    self.generator.shrinks_to(before, cands),
                    idx <= n,
                    steps <= max,
                    max == self.config.max_shrink_iterations,
                    steps >= steps_before,
                    forall|x: T| #[trigger] self.property.accepts(x),
                    forall|j: int| 0 <= j < idx ==> passes_on(self.property, #[trigger] cands[j]),
                    first_round ==> steps_before == 0,
                    first_round && !moved ==> steps == idx,
                    !moved ==> current == before,
                    moved ==> greedy_step(self.generator, self.property, before, current) && steps
                        > steps_before,
                    timed_out ==> stop_reading@ > self.config.shrink_timeout@,
                    stopped ==> timed_out || steps == max,
                decreases n - idx, (if moved || stopped { 0int } else { 1int }),
            {
                let reading = elapsed(&start_time);
                if !self.config.shrink_timeout.at_least(&reading) {
                    stopped = true;
                    timed_out = true;
                    stop_reading = reading;
                } else if steps >= max {
                    stopped = true;
                } else {
                    let step_start = now();
                    steps = steps + 1;
                    let probe = candidates[idx].clone();
                    let ghost probe_value = probe;
                    match self.property.test(probe) {
                        Err(e) => {
                            assert(self.property.outcome(probe_value, Err(e)));
                            assert(fails_on(self.property, cands[idx as int]));
                            let candidate = candidates[idx].clone();
                            progress.add_step(
                                ShrinkStep {
                                    step_number: steps,
                                    input_description: Self::step_description(&current, &candidate, ""),
                                    step_time: elapsed(&step_start),
                                    successful: true,
                                },
                            );
                            current = candidate;
                            moved = true;
                            assert(greedy_step(self.generator, self.property, before, current));
                        },
                        Ok(o) => {
                            assert(self.property.outcome(probe_value, Ok(o)));
                            assert(passes_on(self.property, cands[idx as int]));
                            let candidate = candidates[idx].clone();
                            progress.add_step(
                                ShrinkStep {
                                    step_number: steps,
                                    input_description: Self::step_description(
                                        &current,
                                        &candidate,
                                        " (passed)",
                                    ),
                                    step_time: elapsed(&step_start),
                                    successful: false,
                                },
                            );
                            idx = idx + 1;
                        },
                    }
                }
            }
            if moved {
                found = true;
                proof {
                    let p2 = path.push(current);
                    assert forall|i: int| 0 <= i < p2.len() - 1 implies #[trigger] greedy_step(
                        self.generator,
                        self.property,
                        p2[i],
                        p2[i + 1],
                    ) by {
                        if i < path.len() - 1 {
                            assert(p2[i] == path[i] && p2[i + 1] == path[i + 1]);
                        } else {
                            assert(p2[i] == before && p2[i + 1] == current);
                        }
                    }
                    path = p2;
                }
            } else {
                if !stopped {
                    assert(all_candidates_pass(self.generator, self.property, current));
                }
                if !found && !timed_out {
                    assert(first_candidates_pass(self.generator, self.property, current, max as int))
                        by {
                        assert(self.generator.shrinks_to(current, cands));
                    }
                }
                go = false;
            }
        }
        let total = if timed_out {
            stop_reading
        } else {
            elapsed(&start_time)
        };
        progress.complete(total);
        let same = current == *original_input;
        if found && !same {
            proof {
                assert(shrunk_failure(self.generator, self.property, *original_input, current));
            }
            (Some(current), steps, progress, total)
        } else {
            proof {
                if found {
                    assert(shrunk_failure(self.generator, self.property, *original_input, current));
                } else if !timed_out {
                    assert(cloned(*original_input, path[0]));
                    assert(first_candidates_pass(self.generator, self.property, current, max as int));
                }
            }
            (None, 0, progress, total)
        }
    }
}

/// Checks a property with the default configuration.
pub fn check<T: Clone + core::fmt::Debug + PartialEq, G: Generator<T>, P: Property<T>>(
    generator: G,
    property: P,
) -> (r: Result<TestSuccess<T>, TestFailure<T>>)
    requires
        generator.can_generate(GeneratorConfig::spec_default()),
        forall|x: T| #[trigger] property.accepts(x),
        forall|x: T| #[trigger] generator.can_shrink(x),
    ensures
        exists|c: TestConfig| #[trigger] is_default_test_config(c) && run_outcome(generator, property, c, r),
{
    check_with_config(generator, property, TestConfig::default())
}

/// Checks a property with a custom configuration.
pub fn check_with_config<T: Clone + core::fmt::Debug + PartialEq, G: Generator<T>, P: Property<T>>(
    generator: G,
    property: P,
    config: TestConfig,
) -> (r: Result<TestSuccess<T>, TestFailure<T>>)
    requires
        generator.can_generate(config.generator_config),
        forall|x: T| #[trigger] property.accepts(x),
        forall|x: T| #[trigger] generator.can_shrink(x),
    ensures
        run_outcome(generator, property, config, r),
{
    PropertyTest::new(generator, property, config).run()
}

} // verus!
