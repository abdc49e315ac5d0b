use protest::config::TestConfig;
use protest::error::PropertyError;
use protest::ergonomic::ClosureProperty;
use protest::execution::stepped::{AsyncAction, AsyncPropertyTest};
use protest::execution::PropertyTest;
use protest::primitives::IntGenerator;
use protest::shrink::stepped::{AsyncShrinkEngine, ShrinkAction};
use protest::shrink::{ShrinkConfig, ShrinkEngine, Shrinkable};

fn failure(message: &str) -> PropertyError {
    PropertyError::PropertyFailed { message: message.to_string(), context: None, iteration: None }
}

fn drive_shrink(engine: &AsyncShrinkEngine, value: i32, fails: impl Fn(i32) -> bool) -> protest::ShrinkResult<i32> {
    let (mut run, first) = engine.begin(value);
    let mut action = run.advance(fails(first));
    loop {
        match action {
            ShrinkAction::Check(c) => action = run.advance(fails(c)),
            ShrinkAction::Shrink(v) => action = run.supply(v.shrink()),
            ShrinkAction::Finish(result) => return result,
        }
    }
}

#[test]
fn test_async_shrink_engine_basic() {
    let engine = AsyncShrinkEngine::new();
    let result = drive_shrink(&engine, 100, |x| x > 10);
    assert_eq!(result.original, 100);
    assert!(result.minimal > 10);
    assert!(result.shrink_steps > 0);
    assert!(result.completed);
}

#[test]
fn test_async_shrink_engine_no_shrinking_needed() {
    let engine = AsyncShrinkEngine::new();
    let result = drive_shrink(&engine, 100, |_| false);
    assert_eq!(result.original, 100);
    assert_eq!(result.minimal, 100);
    assert_eq!(result.shrink_steps, 0);
    assert!(result.completed);
}

#[test]
fn stepped_shrinking_matches_direct_shrinking() {
    for limit in [0usize, 1, 3, 1000] {
        let config = ShrinkConfig::with_max_iterations(limit);
        let stepped = drive_shrink(&AsyncShrinkEngine::with_config(config), 777, |x| x % 7 == 0 && x > 14);
        let direct = ShrinkEngine::with_config(config).shrink(777, |x: &i32| {
            if *x % 7 == 0 && *x > 14 { Err(failure("multiple of seven")) } else { Ok(()) }
        });
        assert_eq!(stepped.minimal, direct.minimal);
        assert_eq!(stepped.shrink_steps, direct.shrink_steps);
        assert_eq!(stepped.completed, direct.completed);
    }
}

fn drive_test(mut test: AsyncPropertyTest<i32, IntGenerator<i32>>, holds: impl Fn(i32) -> bool)
    -> Result<protest::TestSuccess<i32>, protest::TestFailure<i32>> {
    let mut action = test.start();
    loop {
        match action {
            AsyncAction::Check(x) => {
                let outcome = if holds(x) { Ok(()) } else { Err(failure("does not hold")) };
                action = test.advance(outcome);
            }
            AsyncAction::Finish(result) => return result,
        }
    }
}

#[test]
fn test_async_property_test_always_passes() {
    let config = TestConfig { iterations: 20, ..TestConfig::default() };
    let test = AsyncPropertyTest::new(IntGenerator::new(1, 100), config);
    let result = drive_test(test, |_| true);
    let success = result.unwrap();
    assert_eq!(success.iterations, 20);
}

#[test]
fn test_async_property_test_always_fails() {
    let config = TestConfig { iterations: 20, ..TestConfig::default() };
    let test = AsyncPropertyTest::new(IntGenerator::new(1, 100), config);
    let failure = drive_test(test, |_| false).unwrap_err();
    assert_eq!(failure.failed_iteration, 0);
    assert!(matches!(failure.error, PropertyError::PropertyFailed { iteration: Some(0), .. }));
}

#[test]
fn stepped_test_matches_direct_run() {
    for seed in 0..20u64 {
        let config = TestConfig { iterations: 50, seed: Some(seed), ..TestConfig::default() };
        let stepped = drive_test(AsyncPropertyTest::new(IntGenerator::new(0, 1000), config), |x| x < 600);
        let direct = PropertyTest::new(
            IntGenerator::new(0, 1000),
            ClosureProperty::new(|x: i32| x < 600),
            config,
        )
        .run();
        match (stepped, direct) {
            (Ok(a), Ok(b)) => assert_eq!(a.iterations, b.iterations),
            (Err(a), Err(b)) => {
                assert_eq!(a.original_input, b.original_input);
                assert_eq!(a.failed_iteration, b.failed_iteration);
                assert_eq!(a.shrunk_input, b.shrunk_input);
                assert_eq!(a.shrink_steps, b.shrink_steps);
            }
            _ => panic!("the stepped and the direct run disagree"),
        }
    }
}

#[test]
fn no_iterations_finish_at_once() {
    let config = TestConfig { iterations: 0, ..TestConfig::default() };
    let mut test = AsyncPropertyTest::new(IntGenerator::new(1, 2), config);
    match test.start() {
        AsyncAction::Finish(Ok(s)) => assert_eq!(s.iterations, 0),
        _ => panic!("nothing to check"),
    }
}

#[test]
fn replayed_seeds_are_split_by_outcome() {
    let config = TestConfig::default();
    let test = PropertyTest::new(IntGenerator::new(0, 100), ClosureProperty::new(|x: i32| x < 50), config);
    let seeds: Vec<u64> = (0..30).collect();
    let (still, passing) = test.replay_failures(&seeds);
    assert_eq!(still.len() + passing.len(), seeds.len());
    for seed in &still {
        let mut rng = protest::rng::create_seeded_rng(*seed);
        let x = protest::Generator::generate(&IntGenerator::new(0, 100), &mut rng, &config.generator_config);
        assert!(x >= 50);
    }
    for seed in &passing {
        let mut rng = protest::rng::create_seeded_rng(*seed);
        let x = protest::Generator::generate(&IntGenerator::new(0, 100), &mut rng, &config.generator_config);
        assert!(x < 50);
    }
}

#[test]
fn test_async_shrink_with_timeout_uses_the_shorter_timeout() {
    let engine = AsyncShrinkEngine::new();
    let short = protest::time::Duration::from_secs(1);
    let (run, first) = engine.begin_with_timeout(50, short);
    assert_eq!(first, 50);
    assert_eq!(run.config.timeout, short);
    assert_eq!(run.config.max_iterations, engine.config.max_iterations);

    let long = protest::time::Duration::from_secs(1_000_000);
    let (run, _) = engine.begin_with_timeout(50, long);
    assert_eq!(run.config.timeout, engine.config.timeout);

    // A zero timeout stops shrinking before the first round.
    let (mut run, first) = engine.begin_with_timeout(50, protest::time::Duration::from_secs(0));
    match run.advance(first > 10) {
        ShrinkAction::Finish(result) => {
            assert_eq!(result.minimal, 50);
            assert_eq!(result.shrink_steps, 0);
            assert!(!result.completed);
        }
        ShrinkAction::Check(_) | ShrinkAction::Shrink(_) => panic!("a zero timeout asks for nothing"),
    }
}

#[test]
fn strategy_run_takes_candidates_from_the_caller() {
    let engine = AsyncShrinkEngine::new();
    let (mut run, first) = engine.begin_with_strategy(100);
    let halve = |x: &i32| if *x > 0 { vec![*x / 2] } else { vec![] };
    let mut asked: Vec<i32> = Vec::new();
    let mut action = run.advance(first > 10);
    let result = loop {
        match action {
            ShrinkAction::Check(c) => action = run.advance(c > 10),
            ShrinkAction::Shrink(v) => {
                asked.push(v);
                action = run.supply(halve(&v));
            }
            ShrinkAction::Finish(result) => break result,
        }
    };
    assert_eq!(asked, vec![100, 50, 25, 12]);
    assert_eq!(result.minimal, 12);
    assert_eq!(result.shrink_steps, 3);
    assert!(result.completed);
}

#[test]
fn strategy_run_with_no_candidates_completes_at_once() {
    let engine = AsyncShrinkEngine::new();
    let (mut run, first) = engine.begin_with_strategy(7);
    match run.advance(first == 7) {
        ShrinkAction::Shrink(v) => {
            assert_eq!(v, 7);
            match run.supply(Vec::new()) {
                ShrinkAction::Finish(result) => {
                    assert_eq!(result.minimal, 7);
                    assert_eq!(result.shrink_steps, 0);
                    assert!(result.completed);
                }
                _ => panic!("no candidates leave nothing to check"),
            }
        }
        _ => panic!("a strategy run asks for candidates"),
    }
}

#[test]
fn failed_candidate_becomes_current_value() {
    let engine = AsyncShrinkEngine::new();
    let (mut run, first) = engine.begin(40);
    let action = run.advance(first > 3);
    let c = match action {
        ShrinkAction::Check(c) => c,
        _ => panic!("the first candidate is asked for"),
    };
    assert_eq!(c, 0);
    match run.advance(c > 3) {
        ShrinkAction::Check(next) => {
            assert_eq!(run.current, 40);
            assert_eq!(run.steps, 0);
            match run.advance(next > 3) {
                ShrinkAction::Check(_) | ShrinkAction::Finish(_) => {
                    assert_eq!(run.current, next);
                    assert_eq!(run.steps, 1);
                }
                ShrinkAction::Shrink(_) => panic!("a plain run shrinks by itself"),
            }
        }
        _ => panic!("a passing candidate moves on to the next"),
    }
}

#[test]
fn stepped_test_reports_minimal_counterexample() {
    let config = TestConfig::default();
    let failure = drive_test(AsyncPropertyTest::new(IntGenerator::new(1, 100), config), |x| x < 50).unwrap_err();
    let reported = failure.shrunk_input.unwrap_or(failure.original_input);
    assert_eq!(reported, 50);
}
