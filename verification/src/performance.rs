//! Splitting test runs into batches, and bounding the memory that shrinking uses.

use vstd::prelude::*;
use rand::rngs::StdRng;
use crate::config::{GeneratorConfig, TestConfig};
use crate::error::{PropertyError, TestFailure, TestSuccess};
use crate::execution::{
    PropertyTest, add_iteration, all_passed_inputs, passes_on, passing_inputs, run_outcome,
    with_iteration,
};
use crate::generator::Generator;
use crate::property::Property;
use crate::rng::{create_rng, create_seeded_rng};
use crate::time::Duration;

verus! {

/// The number of CPUs available (`num_cpus::get`), which its documentation says is
/// always at least one. How many there are depends on the machine.
#[verifier::external_body]
fn available_cpus() -> (r: usize)
    ensures
        r >= 1,
{
    num_cpus::get()
}

/// A generator whose underlying generator is made by a function each time it is used.
pub struct LazyGenerator<T, G, F> {
    /// The function that makes the underlying generator.
    pub generator_fn: F,
    /// Ties the generator to its value and underlying generator types.
    pub marker: core::marker::PhantomData<(T, G)>,
}

impl<T, G: Generator<T>, F: Fn() -> G> LazyGenerator<T, G, F> {
    /// A generator that makes its underlying generator with `generator_fn` when used.
    pub fn new(generator_fn: F) -> (r: Self)
        ensures
            r.generator_fn == generator_fn,
    {
        LazyGenerator { generator_fn, marker: core::marker::PhantomData }
    }
}

impl<T, G: Generator<T>, F: Fn() -> G> Generator<T> for LazyGenerator<T, G, F> {
    open spec fn can_generate(&self, config: GeneratorConfig) -> bool {
        &&& call_requires(self.generator_fn, ())
        &&& forall|g: G| call_ensures(self.generator_fn, (), g) ==> #[trigger] g.can_generate(config)
    }

    open spec fn generates(&self, config: GeneratorConfig, value: T) -> bool {
        exists|g: G| call_ensures(self.generator_fn, (), g) && #[trigger] g.generates(config, value)
    }

    open spec fn can_shrink(&self, value: T) -> bool {
        &&& call_requires(self.generator_fn, ())
        &&& forall|g: G| call_ensures(self.generator_fn, (), g) ==> #[trigger] g.can_shrink(value)
    }

    open spec fn shrinks_to(&self, value: T, candidates: Seq<T>) -> bool {
        exists|g: G|
            call_ensures(self.generator_fn, (), g) && #[trigger] g.shrinks_to(value, candidates)
    }

    fn generate(&self, rng: &mut StdRng, config: &GeneratorConfig) -> (r: T) {
        let generator = (self.generator_fn)();
        generator.generate(rng, config)
    }

    fn shrink(&self, value: &T) -> (r: Vec<T>) {
        let generator = (self.generator_fn)();
        generator.shrink(value)
    }
}

/// A lazily made generator.
pub fn lazy<T, G: Generator<T>, F: Fn() -> G>(generator_fn: F) -> (r: LazyGenerator<T, G, F>)
    ensures
        r.generator_fn == generator_fn,
{
    LazyGenerator::new(generator_fn)
}

/// Default batch size of parallel runs.
pub const DEFAULT_BATCH_SIZE: usize = 10;

/// Configuration for parallel execution.
#[derive(Debug, Clone, Copy, PartialEq, Eq, Structural)]
pub struct ParallelConfig {
    /// Number of threads.
    pub num_threads: usize,
    /// Least number of iterations worth running in parallel.
    pub batch_size: usize,
    /// Whether parallel execution is enabled.
    pub enabled: bool,
}

impl Default for ParallelConfig {
    /// One thread per available CPU, batches of 10, enabled.
    fn default() -> (r: Self)
        ensures
            r.num_threads >= 1,
            r.batch_size == DEFAULT_BATCH_SIZE,
            r.enabled,
    {
        ParallelConfig { num_threads: available_cpus(), batch_size: DEFAULT_BATCH_SIZE, enabled: true }
    }
}

/// Bytes in a mebibyte.
pub const BYTES_PER_MB: usize = 1048576;

/// A budget of memory for shrinking, with the amount in use.
pub struct StreamingShrinkStrategy<T> {
    /// The budget, in bytes.
    pub max_memory_usage: usize,
    /// The amount in use, in bytes.
    pub current_memory_usage: usize,
    /// Ties the budget to the type of the values shrunk.
    pub marker: core::marker::PhantomData<T>,
}

impl<T> StreamingShrinkStrategy<T> {
    /// A budget of `max_memory_mb` mebibytes, none of it in use.
    pub fn new(max_memory_mb: usize) -> (r: Self)
        requires
            max_memory_mb * BYTES_PER_MB <= usize::MAX,
        ensures
            r.max_memory_usage == max_memory_mb * BYTES_PER_MB,
            r.current_memory_usage == 0,
    {
        StreamingShrinkStrategy {
            max_memory_usage: max_memory_mb * BYTES_PER_MB,
            current_memory_usage: 0,
            marker: core::marker::PhantomData,
        }
    }

    /// Whether `additional_bytes` more stay within the budget.
    pub fn within_memory_limit(&self, additional_bytes: usize) -> (r: bool)
        requires
            self.current_memory_usage + additional_bytes <= usize::MAX,
        ensures
            r == (self.current_memory_usage + additional_bytes <= self.max_memory_usage),
    {
        self.current_memory_usage + additional_bytes <= self.max_memory_usage
    }

    /// Counts `bytes` more as in use.
    pub fn update_memory_usage(&mut self, bytes: usize)
        requires
            old(self).current_memory_usage + bytes <= usize::MAX,
        ensures
            final(self).current_memory_usage == old(self).current_memory_usage + bytes,
            final(self).max_memory_usage == old(self).max_memory_usage,
    {
        self.current_memory_usage = self.current_memory_usage + bytes;
    }

    /// Counts nothing as in use.
    pub fn reset_memory_usage(&mut self)
        ensures
            final(self).current_memory_usage == 0,
            final(self).max_memory_usage == old(self).max_memory_usage,
    {
        self.current_memory_usage = 0;
    }
}

/// The number of iterations of thread `t` when `iterations` are split over `threads`
/// threads: an equal share, one more for the first `iterations % threads` threads.
pub open spec fn thread_share(iterations: nat, threads: nat, t: nat) -> nat {
    iterations / threads + if t < iterations % threads {
        1nat
    } else {
        0nat
    }
}

/// The number of threads a parallel run uses: the configured number, at most one per
/// iteration.
pub open spec fn threads_used(iterations: nat, num_threads: nat) -> nat {
    if num_threads <= iterations {
        num_threads
    } else {
        iterations
    }
}

/// The iterations of the first `k` threads when `iterations` are split over `threads`.
pub open spec fn plan_total(iterations: nat, threads: nat, k: nat) -> nat
    decreases k,
{
    if k == 0 {
        0
    } else {
        plan_total(iterations, threads, (k - 1) as nat) + thread_share(
            iterations,
            threads,
            (k - 1) as nat,
        )
    }
}

/// The first `k` threads run `k` equal shares, plus one each for those among the first
/// `iterations % threads`.
proof fn lemma_plan_total_prefix(iterations: nat, threads: nat, k: nat)
    requires
        threads > 0,
    ensures
        plan_total(iterations, threads, k) == k * (iterations / threads) + if k <= iterations
            % threads {
            k
        } else {
            iterations % threads
        },
    decreases k,
{
    if k > 0 {
        let j = (k - 1) as nat;
        lemma_plan_total_prefix(iterations, threads, j);
        let q = iterations / threads;
        let r = iterations % threads;
        assert(j * q + q == k * q) by (nonlinear_arith)
            requires
                j + 1 == k,
        ;
        assert(plan_total(iterations, threads, k) == plan_total(iterations, threads, j)
            + thread_share(iterations, threads, j));
        assert(thread_share(iterations, threads, j) == q + if j < r {
            1nat
        } else {
            0nat
        });
    } else {
        assert(k * (iterations / threads) == 0) by (nonlinear_arith)
            requires
                k == 0,
        ;
    }
}

/// A split runs every iteration once: the shares of all the threads add up to the
/// number of iterations.
pub proof fn lemma_thread_plan_covers_iterations(iterations: nat, threads: nat)
    requires
        threads > 0,
    ensures
        plan_total(iterations, threads, threads) == iterations,
{
    lemma_plan_total_prefix(iterations, threads, threads);
    vstd::arithmetic::div_mod::lemma_fundamental_div_mod(iterations as int, threads as int);
    assert(threads * (iterations / threads) == (iterations / threads) * threads) by (nonlinear_arith);
}

/// Inputs passing in two runs together make the inputs of a run as long as both.
proof fn lemma_passing_inputs_concat<T: Clone, G: Generator<T>, P: Property<T>>(
    generator: G,
    property: P,
    config: GeneratorConfig,
    a: int,
    b: int,
)
    requires
        all_passed_inputs(generator, property, config, a),
        all_passed_inputs(generator, property, config, b),
    ensures
        all_passed_inputs(generator, property, config, a + b),
{
    let xs = choose|xs: Seq<T>| #[trigger] passing_inputs(generator, property, config, xs) && xs.len() == a;
    let ys = choose|ys: Seq<T>| #[trigger] passing_inputs(generator, property, config, ys) && ys.len() == b;
    let zs = xs + ys;
    assert forall|i: int| 0 <= i < zs.len() implies generator.generates(config, #[trigger] zs[i])
        && passes_on(property, zs[i]) by {
        if i < xs.len() {
            assert(zs[i] == xs[i]);
        } else {
            assert(zs[i] == ys[i - xs.len()]);
        }
    }
    assert(passing_inputs(generator, property, config, zs));
}

proof fn lemma_passing_batches_prefix<T: Clone, G: Generator<T>, P: Property<T>>(
    generator: G,
    property: P,
    config: GeneratorConfig,
    iterations: nat,
    threads: nat,
    k: nat,
)
    requires
        k <= threads,
        forall|t: nat|
            t < threads ==> all_passed_inputs(
                generator,
                property,
                config,
                #[trigger] thread_share(iterations, threads, t) as int,
            ),
    ensures
        all_passed_inputs(generator, property, config, plan_total(iterations, threads, k) as int),
    decreases k,
{
    if k == 0 {
        assert(passing_inputs(generator, property, config, Seq::<T>::empty()));
    } else {
        lemma_passing_batches_prefix(generator, property, config, iterations, threads, (k - 1) as nat);
        let share = thread_share(iterations, threads, (k - 1) as nat);
        lemma_passing_inputs_concat(
            generator,
            property,
            config,
            plan_total(iterations, threads, (k - 1) as nat) as int,
            share as int,
        );
    }
}

/// A parallel run reports what a sequential run would on success: when every thread's
/// batch of the plan passes on its share of inputs, the property passes on as many
/// inputs as the run has iterations.
pub proof fn lemma_passing_batches_cover_run<T: Clone, G: Generator<T>, P: Property<T>>(
    generator: G,
    property: P,
    config: GeneratorConfig,
    iterations: nat,
    threads: nat,
)
    requires
        threads > 0,
        forall|t: nat|
            t < threads ==> all_passed_inputs(
                generator,
                property,
                config,
                #[trigger] thread_share(iterations, threads, t) as int,
            ),
    ensures
        all_passed_inputs(generator, property, config, iterations as int),
{
    lemma_passing_batches_prefix(generator, property, config, iterations, threads, threads);
    lemma_thread_plan_covers_iterations(iterations, threads);
}

/// Splits `iterations` over `num_threads` threads (at most one per iteration): the
/// number of iterations of each thread.
pub fn thread_plan(iterations: usize, num_threads: usize) -> (r: Vec<usize>)
    requires
        num_threads >= 1,
        iterations >= 1,
    ensures
        r@.len() == threads_used(iterations as nat, num_threads as nat),
        forall|t: int|
            0 <= t < r@.len() ==> r@[t] == thread_share(
                iterations as nat,
                r@.len(),
                t as nat,
            ),
        plan_total(iterations as nat, r@.len(), r@.len()) == iterations,
{
    let threads = if num_threads <= iterations {
        num_threads
    } else {
        iterations
    };
    let per_thread = iterations / threads;
    let remaining = iterations % threads;
    let mut plan: Vec<usize> = Vec::new();
    let mut t: usize = 0;
    while t < threads
        invariant
            1 <= threads <= iterations,
            per_thread == iterations / threads,
            remaining == iterations % threads,
            t <= threads,
            plan@.len() == t,
            forall|k: int|
                0 <= k < t ==> plan@[k] == thread_share(iterations as nat, threads as nat, k as nat),
        decreases threads - t,
    {
        assert(remaining > 0 ==> per_thread < iterations) by (nonlinear_arith)
            requires
                per_thread == iterations / threads,
                remaining == iterations % threads,
                threads >= 1,
        ;
        let share = if t < remaining {
            per_thread + 1
        } else {
            per_thread
        };
        plan.push(share);
        t = t + 1;
    }
    proof {
        lemma_thread_plan_covers_iterations(iterations as nat, threads as nat);
    }
    plan
}

/// The seed of thread `thread_id` in a run seeded with `seed`.
pub fn thread_seed(seed: u64, thread_id: usize) -> (r: u64)
    ensures
        r == (seed + thread_id) % 0x1_0000_0000_0000_0000,
{
    let id: u64 = thread_id as u64;
    assert(id == thread_id);
    seed.wrapping_add(id)
}

/// A parallel property test: a test whose iterations are split into batches.
pub struct ParallelPropertyTest<T, G, P> {
    /// The generator of inputs.
    pub generator: G,
    /// The property checked.
    pub property: P,
    /// The configuration of the run.
    pub config: TestConfig,
    /// The configuration of the split.
    pub parallel_config: ParallelConfig,
    /// Ties the test to its input type.
    pub marker: core::marker::PhantomData<T>,
}

impl<T: Clone + core::fmt::Debug + PartialEq, G: Generator<T>, P: Property<T>> ParallelPropertyTest<
    T,
    G,
    P,
> {
    /// A parallel property test.
    pub fn new(generator: G, property: P, config: TestConfig, parallel_config: ParallelConfig) -> (r:
        Self)
        ensures
            r.generator == generator,
            r.property == property,
            r.config == config,
            r.parallel_config == parallel_config,
    {
        ParallelPropertyTest { generator, property, config, parallel_config, marker: core::marker::PhantomData }
    }

    /// Whether the run goes sequentially: when parallel execution is disabled or there are
    /// fewer iterations than a batch.
    pub fn runs_sequentially(&self) -> (r: bool)
        ensures
            r == (!self.parallel_config.enabled || self.config.iterations
                < self.parallel_config.batch_size),
    {
        !self.parallel_config.enabled || self.config.iterations < self.parallel_config.batch_size
    }

    /// The batch of thread `thread_id`, of `iterations` iterations: inputs drawn from the
    /// thread's seed (or the system), each checked; the first failure is given back with
    /// its global iteration number `thread_id * iterations + i`, unshrunk.
    pub fn run_thread_batch(&self, thread_id: usize, iterations: usize) -> (r: Result<
        TestSuccess<T>,
        TestFailure<T>,
    >)
        requires
            self.generator.can_generate(self.config.generator_config),
            forall|x: T| #[trigger] self.property.accepts(x),
            thread_id * iterations + iterations <= usize::MAX,
        ensures
            match r {
                Ok(s) => {
                    &&& s.iterations == iterations
                    &&& s.config == self.config
                    &&& all_passed_inputs(
                        self.generator,
                        self.property,
                        self.config.generator_config,
                        iterations as int,
                    )
                },
                Err(f) => {
                    &&& f.config == self.config
                    &&& thread_id * iterations <= f.failed_iteration < thread_id * iterations
                        + iterations
                    &&& all_passed_inputs(
                        self.generator,
                        self.property,
                        self.config.generator_config,
                        f.failed_iteration - thread_id * iterations,
                    )
                    &&& self.generator.generates(self.config.generator_config, f.original_input)
                    &&& exists|c: T, e: PropertyError|
                        #![trigger self.property.outcome(c, Err(e))]
                        cloned(f.original_input, c) && self.property.outcome(c, Err(e)) && f.error
                            == add_iteration(e, f.failed_iteration)
                    &&& f.shrunk_input is None && f.shrink_steps == 0
                },
            },
    {
        let mut rng = match self.config.seed {
            Some(seed) => create_seeded_rng(thread_seed(seed, thread_id)),
            None => create_rng(),
        };
        let mut iteration: usize = 0;
        let ghost mut passed: Seq<T> = seq![];
        while iteration < iterations
            invariant
                iteration <= iterations,
                passed.len() == iteration,
                passing_inputs(self.generator, self.property, self.config.generator_config, passed),
                thread_id * iterations + iterations <= usize::MAX,
                self.generator.can_generate(self.config.generator_config),
                forall|x: T| #[trigger] self.property.accepts(x),
            decreases iterations - iteration,
        {
            let global_iteration = thread_id * iterations + iteration;
            let input = self.generator.generate(&mut rng, &self.config.generator_config);
            let probe = input.clone();
            let ghost probe_value = probe;
            match self.property.test(probe) {
                Ok(o) => {
                    assert(self.property.outcome(probe_value, Ok(o)));
                    assert(passes_on(self.property, input));
                    proof {
                        let next = passed.push(input);
                        assert forall|i: int| 0 <= i < next.len() implies self.generator.generates(
                            self.config.generator_config,
                            #[trigger] next[i],
                        ) && passes_on(self.property, next[i]) by {
                            if i < passed.len() {
                                assert(next[i] == passed[i]);
                            }
                        }
                        passed = next;
                    }
                },
                Err(error) => {
                    let ghost raw = error;
                    let error = with_iteration(error, global_iteration);
                    assert(self.property.outcome(probe_value, Err(raw)));
                    assert(passing_inputs(self.generator, self.property, self.config.generator_config, passed));
                    return Err(
                        TestFailure::new(
                            error,
                            input,
                            None,
                            0,
                            self.config,
                            global_iteration,
                            Duration::zero(),
                            Duration::zero(),
                        ),
                    );
                },
            }
            iteration = iteration + 1;
        }
        assert(passing_inputs(self.generator, self.property, self.config.generator_config, passed));
        Ok(TestSuccess::new(iterations, self.config))
    }

    /// Runs the test as one sequential property test.
    pub fn run_sequential(self) -> (r: Result<TestSuccess<T>, TestFailure<T>>)
        requires
            self.generator.can_generate(self.config.generator_config),
            forall|x: T| #[trigger] self.property.accepts(x),
            forall|x: T| #[trigger] self.generator.can_shrink(x),
        ensures
            run_outcome(self.generator, self.property, self.config, r),
    {
        PropertyTest::new(self.generator, self.property, self.config).run()
    }
}

/// Whether `r` is the first failure of `results`, or success over `config`'s
/// iterations when there is none.
pub open spec fn first_failure_outcome<T>(
    results: Seq<Result<TestSuccess<T>, TestFailure<T>>>,
    config: TestConfig,
    r: Result<TestSuccess<T>, TestFailure<T>>,
) -> bool {
    match r {
        Ok(s) => s.iterations == config.iterations && s.config == config && forall|k: int|
            0 <= k < results.len() ==> (#[trigger] results[k]) is Ok,
        Err(f) => exists|k: int|
            0 <= k < results.len() && results[k] == Err::<TestSuccess<T>, TestFailure<T>>(f)
                && forall|j: int| 0 <= j < k ==> (#[trigger] results[j]) is Ok,
    }
}

/// The outcome of a parallel run from the batch outcomes, in thread order: the first
/// failure, or success over all `iterations`.
pub fn first_failure<T>(results: Vec<Result<TestSuccess<T>, TestFailure<T>>>, config: TestConfig) -> (r:
    Result<TestSuccess<T>, TestFailure<T>>)
    ensures
        first_failure_outcome(results@, config, r),
{
    let ghost all = results@;
    let n = results.len();
    let mut out = results;
    let mut idx: usize = 0;
    while idx < n
        invariant
            n == all.len(),
            all == results@,
            out@ == all.subrange(idx as int, n as int),
            idx <= n,
            forall|j: int| 0 <= j < idx ==> (#[trigger] all[j]) is Ok,
        decreases n - idx,
    {
        let first = out.remove(0);
        match first {
            Ok(_) => {},
            Err(f) => {
                assert(all[idx as int] == Err::<TestSuccess<T>, TestFailure<T>>(f));
                assert(first_failure_outcome(all, config, Err(f)));
                return Err(f);
            },
        }
        idx = idx + 1;
    }
    Ok(TestSuccess::new(config.iterations, config))
}

} // verus!
