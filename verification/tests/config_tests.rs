use protest::config::{
    ConfigError, ConfigManager, CoverageReport, GeneratorConfig, GlobalConfig, TestConfig,
};
use protest::time::Duration;

#[test]
fn test_generator_config_validation() {
    let config = GeneratorConfig::new(10, 5);
    assert!(config.is_ok());

    let config = GeneratorConfig::new(10, 0);
    assert!(matches!(config, Err(ConfigError::InvalidMaxDepth(0))));

    let mut config = GeneratorConfig::default();
    assert!(config.validate().is_ok());

    config.max_depth = 0;
    assert!(matches!(config.validate(), Err(ConfigError::InvalidMaxDepth(0))));
}

#[test]
fn test_test_config_validation() {
    let config = TestConfig::new(100, 1000, Duration::from_secs(10), None, GeneratorConfig::default());
    assert!(config.is_ok());

    let config = TestConfig::new(0, 1000, Duration::from_secs(10), None, GeneratorConfig::default());
    assert!(matches!(config, Err(ConfigError::InvalidIterations(0))));

    let config = TestConfig::new(100, 0, Duration::from_secs(10), None, GeneratorConfig::default());
    assert!(matches!(config, Err(ConfigError::InvalidShrinkIterations(0))));

    let config = TestConfig::new(100, 1000, Duration::from_secs(0), None, GeneratorConfig::default());
    assert!(matches!(config, Err(ConfigError::InvalidTimeout)));
}

#[test]
fn test_global_config_validation() {
    let config = GlobalConfig::new(100, None, GeneratorConfig::default());
    assert!(config.is_ok());

    let config = GlobalConfig::new(0, None, GeneratorConfig::default());
    assert!(matches!(config, Err(ConfigError::InvalidIterations(0))));
}

#[test]
fn test_config_merge_precedence() {
    let global = GlobalConfig {
        default_iterations: 50,
        default_seed: Some(123),
        generator_config: GeneratorConfig { size_hint: 20, max_depth: 3 },
    };
    let test_config = TestConfig {
        iterations: 200,
        max_shrink_iterations: 500,
        shrink_timeout: Duration::from_secs(5),
        seed: Some(456),
        generator_config: GeneratorConfig { size_hint: 15, max_depth: 7 },
    };
    let merged = test_config.merge_with_global(&global);
    assert_eq!(merged.iterations, 200);
    assert_eq!(merged.seed, Some(456));
    assert_eq!(merged.generator_config.size_hint, 15);
    assert_eq!(merged.generator_config.max_depth, 7);
}

#[test]
fn test_config_merge_with_defaults() {
    let global = GlobalConfig {
        default_iterations: 50,
        default_seed: Some(123),
        generator_config: GeneratorConfig { size_hint: 20, max_depth: 3 },
    };
    let test_config = TestConfig {
        iterations: 200,
        max_shrink_iterations: 500,
        shrink_timeout: Duration::from_secs(5),
        seed: None,
        generator_config: GeneratorConfig::default(),
    };
    let merged = test_config.merge_with_global(&global);
    assert_eq!(merged.seed, Some(123));
    assert_eq!(merged.generator_config.size_hint, 20);
    assert_eq!(merged.generator_config.max_depth, 3);
}

#[test]
fn test_from_global_with_overrides() {
    let global = GlobalConfig {
        default_iterations: 50,
        default_seed: Some(123),
        generator_config: GeneratorConfig { size_hint: 20, max_depth: 3 },
    };
    let config = TestConfig::from_global_with_overrides(&global, None, None, None).unwrap();
    assert_eq!(config.iterations, 50);
    assert_eq!(config.seed, Some(123));

    let config = TestConfig::from_global_with_overrides(&global, Some(100), None, None).unwrap();
    assert_eq!(config.iterations, 100);
    assert_eq!(config.seed, Some(123));

    let config = TestConfig::from_global_with_overrides(&global, None, Some(456), None).unwrap();
    assert_eq!(config.iterations, 50);
    assert_eq!(config.seed, Some(456));
}

#[test]
fn test_config_manager() {
    let mut manager = ConfigManager::new();
    let global = manager.global_config();
    assert_eq!(global.default_iterations, 100);

    let test_config = manager.create_test_config();
    assert_eq!(test_config.iterations, 100);

    let new_global = GlobalConfig {
        default_iterations: 200,
        default_seed: Some(789),
        generator_config: GeneratorConfig::default(),
    };
    manager.set_global_config(new_global).unwrap();

    let updated_test_config = manager.create_test_config();
    assert_eq!(updated_test_config.iterations, 200);
    assert_eq!(updated_test_config.seed, Some(789));
}

#[test]
fn test_config_manager_with_overrides() {
    let manager = ConfigManager::new();
    let config = manager.create_test_config_with_overrides(Some(300), Some(999), None).unwrap();
    assert_eq!(config.iterations, 300);
    assert_eq!(config.seed, Some(999));
}

#[test]
fn config_test_config_error_display() {
    let error = ConfigError::InvalidIterations(0);
    assert_eq!(error.to_string(), "Invalid iterations count: 0 (must be > 0)");

    let error = ConfigError::InvalidShrinkIterations(0);
    assert_eq!(error.to_string(), "Invalid shrink iterations count: 0 (must be > 0)");

    let error = ConfigError::InvalidTimeout;
    assert_eq!(error.to_string(), "Invalid timeout (must be > 0)");

    let error = ConfigError::InvalidMaxDepth(0);
    assert_eq!(error.to_string(), "Invalid max depth: 0 (must be > 0)");
}

#[test]
fn test_generator_config_merge() {
    let base = GeneratorConfig { size_hint: 20, max_depth: 3 };

    let default_config = GeneratorConfig::default();
    let merged = default_config.merge_with(&base);
    assert_eq!(merged.size_hint, 20);
    assert_eq!(merged.max_depth, 3);

    let override_config = GeneratorConfig { size_hint: 15, max_depth: 7 };
    let merged = override_config.merge_with(&base);
    assert_eq!(merged.size_hint, 15);
    assert_eq!(merged.max_depth, 7);
}

#[test]
fn test_config_defaults() {
    let config = TestConfig::default();
    assert_eq!(config.iterations, 100);
    assert_eq!(config.max_shrink_iterations, 1000);
    assert_eq!(config.shrink_timeout, Duration::from_secs(10));
    assert!(config.seed.is_none());
}

#[test]
fn test_generator_config_defaults() {
    let config = GeneratorConfig::default();
    assert_eq!(config.size_hint, 10);
    assert_eq!(config.max_depth, 5);
}

#[test]
fn test_global_config_defaults() {
    let config = GlobalConfig::default();
    assert_eq!(config.default_iterations, 100);
    assert!(config.default_seed.is_none());
}

#[test]
fn coverage_report_marks_each_result_and_the_overall_status() {
    let mut report = CoverageReport::new();
    report.add_numeric_result("i32".to_string(), true);
    report.add_boolean_result("bool".to_string(), false);
    report.add_numeric_result("i32".to_string(), true);
    assert!(!report.overall_pass);
    assert_eq!(report.numeric_results.len(), 1);
    assert_eq!(
        report.generate_report(),
        "Coverage Threshold Report:\nOverall Status: FAIL\n\nNumeric Coverage:\n  ✓ i32\n\nBoolean Coverage:\n  ✗ bool\n"
    );
}

#[test]
fn performance_metrics_start_with_longest_fastest_time() {
    let metrics = protest::config::GenerationPerformanceMetrics::default();
    assert_eq!(metrics.fastest_generation, protest::time::Duration::from_secs(u64::MAX));
    assert_eq!(metrics.slowest_generation, protest::time::Duration::from_secs(0));
    assert_eq!(metrics.memory_stats.total_allocations, 0);
}

#[test]
fn coverage_report_fails_once_a_result_fails() {
    let mut report = protest::config::CoverageReport::new();
    report.add_numeric_result("i32".to_string(), true);
    assert!(report.overall_pass);
    report.add_boolean_result("bool".to_string(), false);
    assert!(!report.overall_pass);
    report.add_boolean_result("bool".to_string(), true);
    assert!(!report.overall_pass);
    assert_eq!(report.boolean_results.len(), 1);
    assert!(report.generate_report().starts_with("Coverage Threshold Report:\nOverall Status: FAIL\n"));
}

#[test]
fn coverage_result_is_replaced_and_a_failure_stays() {
    let mut report = CoverageReport::new();
    report.add_numeric_result("i32".to_string(), false);
    report.add_boolean_result("bool".to_string(), true);
    report.add_numeric_result("i32".to_string(), true);
    assert_eq!(report.numeric_results, vec![("i32".to_string(), true)]);
    assert_eq!(report.boolean_results, vec![("bool".to_string(), true)]);
    assert!(!report.overall_pass);
}
