use protest::config::TestConfig;
use protest::error::{ErrorReporter, PropertyError};
use protest::ergonomic::ClosureProperty;
use protest::execution::builder::PropertyTestBuilder;
use protest::execution::{check, check_with_config, PropertyTest};
use protest::generator::{ConstantGenerator, Generator};
use protest::primitives::IntGenerator;
use protest::time::Duration;

#[test]
fn test_property_test_always_passes() {
    let generator = ConstantGenerator::new(42);
    let property = ClosureProperty::new(|_x: i32| true);
    let config = TestConfig { iterations: 10, ..TestConfig::default() };

    let result = check_with_config(generator, property, config);
    assert!(result.is_ok());

    if let Ok(success) = result {
        assert_eq!(success.iterations, 10);
    }
}

#[test]
fn test_property_test_always_fails() {
    let generator = ConstantGenerator::new(42);
    let property = ClosureProperty::new(|_x: i32| false);
    let config = TestConfig { iterations: 10, ..TestConfig::default() };

    let result = check_with_config(generator, property, config);
    assert!(result.is_err());

    if let Err(failure) = result {
        assert_eq!(failure.original_input, 42);
        assert!(matches!(failure.error, PropertyError::PropertyFailed { .. }));
        assert_eq!(failure.failed_iteration, 0);
    }
}

#[test]
fn test_check_function_with_defaults() {
    let generator = ConstantGenerator::new(100);
    let property = ClosureProperty::new(|_x: i32| true);

    let result = check(generator, property);
    assert!(result.is_ok());

    if let Ok(success) = result {
        assert_eq!(success.iterations, 100);
    }
}

#[test]
fn test_property_test_builder() {
    let result = PropertyTestBuilder::new()
        .iterations(5)
        .seed(12345)
        .max_shrink_iterations(100)
        .shrink_timeout(Duration::from_secs(1))
        .run(ConstantGenerator::new(42), ClosureProperty::new(|_x: i32| true));

    assert!(result.is_ok());
    if let Ok(success) = result {
        assert_eq!(success.iterations, 5);
        assert_eq!(success.config.seed, Some(12345));
        assert_eq!(success.config.max_shrink_iterations, 100);
        assert_eq!(success.config.shrink_timeout, Duration::from_secs(1));
    }
}

#[test]
fn test_property_test_builder_default() {
    let builder = PropertyTestBuilder::<i32>::default();
    assert_eq!(builder.config.iterations, 100);
    assert!(builder.config.seed.is_none());
    assert!(!builder.error_reporter.verbose);
}

#[test]
fn test_property_test_with_seed_reproducibility() {
    let seed = 42;
    let generator = ConstantGenerator::new(123);

    let config1 = TestConfig { seed: Some(seed), iterations: 5, ..TestConfig::default() };
    let config2 = TestConfig { seed: Some(seed), iterations: 5, ..TestConfig::default() };

    let result1 = check_with_config(generator.clone(), ClosureProperty::new(|_x: i32| true), config1);
    let result2 = check_with_config(generator, ClosureProperty::new(|_x: i32| true), config2);

    assert!(result1.is_ok());
    assert!(result2.is_ok());
}

#[test]
fn test_shrinking_basic() {
    let generator = ConstantGenerator::new(0);
    let property = ClosureProperty::new(|x: i32| x != 0);
    let config = TestConfig { iterations: 1, max_shrink_iterations: 10, ..TestConfig::default() };

    let result = check_with_config(generator, property, config);
    assert!(result.is_err());

    if let Err(failure) = result {
        assert_eq!(failure.original_input, 0);
        assert!(failure.shrunk_input.is_none());
        assert_eq!(failure.shrink_steps, 0);
        assert_eq!(failure.failed_iteration, 0);
        assert!(failure.test_duration.as_nanos() > 0);
    }
}

#[test]
fn test_property_test_builder_error_reporting() {
    let builder = PropertyTestBuilder::<i32>::new().verbose_errors().show_shrink_progress().show_config_in_errors();

    assert!(builder.error_reporter.verbose);
    assert!(builder.error_reporter.show_shrink_progress);
    assert!(builder.error_reporter.show_config);
}

#[test]
fn test_property_test_with_custom_error_reporter() {
    let custom_reporter = ErrorReporter::new().verbose().show_shrink_progress().show_config();

    let result = PropertyTestBuilder::new()
        .iterations(1)
        .error_reporter(custom_reporter)
        .run(ConstantGenerator::new(0), ClosureProperty::new(|x: i32| x != 0));

    assert!(result.is_err());
}

#[test]
fn test_property_test_shrink_progress_tracking() {
    let config = TestConfig { iterations: 1, max_shrink_iterations: 10, ..TestConfig::default() };

    let test = PropertyTest::with_error_reporter(
        ConstantGenerator::new(0),
        ClosureProperty::new(|x: i32| x != 0),
        config,
        ErrorReporter::new().show_shrink_progress(),
    );

    let result = test.run();
    assert!(result.is_err());

    if let Err(failure) = result {
        assert_eq!(failure.original_input, 0);
    }
}

#[test]
fn failing_iteration_is_recorded_in_the_error() {
    let config = TestConfig { iterations: 30, seed: Some(3), ..TestConfig::default() };
    let result = check_with_config(IntGenerator::new(0, 9), ClosureProperty::new(|x: i32| x != 7), config);
    match result {
        Err(failure) => {
            assert_eq!(failure.original_input, 7);
            assert!(failure.failed_iteration < 30);
            match failure.error {
                PropertyError::PropertyFailed { iteration, .. } => {
                    assert_eq!(iteration, Some(failure.failed_iteration))
                }
                _ => panic!("a property failure was expected"),
            }
            assert!(failure.shrink_steps <= config.max_shrink_iterations + 1);
        }
        Ok(_) => {}
    }
}

#[test]
fn builder_persistence_settings() {
    let builder = PropertyTestBuilder::<i32>::new().persist_failures().test_name("my_test");
    let persistence = builder.persistence_config.clone().unwrap();
    assert!(persistence.persist_failures);
    assert_eq!(builder.test_name.as_deref(), Some("my_test"));
}

#[test]
fn test_failure_without_candidates_is_not_shrunk() {
    let generator = ConstantGenerator::new(42);
    let property = ClosureProperty::new(|_x: i32| false);
    let config = TestConfig { iterations: 10, ..TestConfig::default() };

    let failure = check_with_config(generator, property, config).unwrap_err();
    assert_eq!(failure.original_input, 42);
    assert_eq!(failure.failed_iteration, 0);
    assert!(failure.shrunk_input.is_none());
    assert_eq!(failure.shrink_steps, 0);
    assert_eq!(failure.config.iterations, 10);
    match failure.error {
        PropertyError::PropertyFailed { context: None, iteration: Some(0), .. } => {},
        other => panic!("unexpected error {:?}", other),
    }
}

#[test]
fn test_counterexample_is_locally_minimal() {
    for seed in 0..20u64 {
        let config = TestConfig { seed: Some(seed), ..TestConfig::default() };
        let generator = IntGenerator::new(1, 100);
        let failure =
            check_with_config(generator, ClosureProperty::new(|x: i32| x < 50), config).unwrap_err();
        let reported = failure.shrunk_input.unwrap_or(failure.original_input);
        assert_eq!(reported, 50);
        // No candidate of the reported input fails any more.
        assert!(IntGenerator::new(1, 100).shrink(&reported).iter().all(|c| *c < 50));
        if let Some(s) = failure.shrunk_input {
            assert_ne!(s, failure.original_input);
            assert!(s < failure.original_input);
        }
        assert!(failure.shrink_steps <= config.max_shrink_iterations);
    }
}

#[test]
fn test_shrinking_stops_at_the_step_limit() {
    let config = TestConfig { seed: Some(1), max_shrink_iterations: 1, ..TestConfig::default() };
    let failure =
        check_with_config(IntGenerator::new(1, 1000), ClosureProperty::new(|x: i32| x < 10), config)
            .unwrap_err();
    assert!(failure.shrink_steps <= 1);
    if let Some(s) = failure.shrunk_input {
        assert!(s >= 10);
        assert_ne!(s, failure.original_input);
    }
}
