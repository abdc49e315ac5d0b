use protest::config::TestConfig;
use protest::error::{ErrorReporter, PropertyError, ShrinkProgress, ShrinkStep, TestFailure};
use protest::time::Duration;

#[test]
fn test_property_error_display_with_context() {
    let error = PropertyError::PropertyFailed {
        message: "test failed".to_string(),
        context: Some("during validation".to_string()),
        iteration: Some(42),
    };
    let display = error.to_string();
    assert!(display.contains("Property failed: test failed"));
    assert!(display.contains("context: during validation"));
    assert!(display.contains("iteration: 42"));
}

#[test]
fn test_property_error_display_without_context() {
    let error = PropertyError::PropertyFailed {
        message: "test failed".to_string(),
        context: None,
        iteration: None,
    };
    assert_eq!(error.to_string(), "Property failed: test failed");
}

#[test]
fn test_generation_failed_error_display() {
    let error = PropertyError::GenerationFailed {
        message: "generation error".to_string(),
        context: Some("while generating integers".to_string()),
    };
    let display = error.to_string();
    assert!(display.contains("Generation failed: generation error"));
    assert!(display.contains("context: while generating integers"));
}

#[test]
fn test_shrinkage_timeout_error_display() {
    let error = PropertyError::ShrinkageTimeout {
        iterations: 1000,
        last_successful_shrink: Some("42".to_string()),
    };
    let display = error.to_string();
    assert!(display.contains("Shrinkage timeout after 1000 iterations"));
    assert!(display.contains("last successful shrink: 42"));
}

#[test]
fn error_test_config_error_display() {
    let error = PropertyError::ConfigError {
        message: "invalid value".to_string(),
        field: Some("iterations".to_string()),
    };
    let display = error.to_string();
    assert!(display.contains("Configuration error: invalid value"));
    assert!(display.contains("field: iterations"));
}

#[test]
fn test_test_cancelled_error_display() {
    let error = PropertyError::TestCancelled { reason: "user requested cancellation".to_string() };
    assert_eq!(error.to_string(), "Test cancelled: user requested cancellation");
}

#[test]
fn test_internal_error_display() {
    let error = PropertyError::InternalError {
        message: "unexpected state".to_string(),
        source_message: Some("internal failure".to_string()),
    };
    let display = error.to_string();
    assert!(display.contains("Internal error: unexpected state"));
    assert!(display.contains("source: internal failure"));
}

#[test]
fn test_property_error_helper_functions() {
    let error = PropertyError::property_failed_with_context("test failed", Some("during execution"), Some(10));
    match error {
        PropertyError::PropertyFailed { message, context, iteration } => {
            assert_eq!(message, "test failed");
            assert_eq!(context, Some("during execution".to_string()));
            assert_eq!(iteration, Some(10));
        }
        _ => panic!("Expected PropertyFailed variant"),
    }

    let error = PropertyError::generation_failed_with_context("gen error", Some("context"));
    match error {
        PropertyError::GenerationFailed { message, context } => {
            assert_eq!(message, "gen error");
            assert_eq!(context, Some("context".to_string()));
        }
        _ => panic!("Expected GenerationFailed variant"),
    }

    let error = PropertyError::config_error_with_field("bad config", Some("field_name"));
    match error {
        PropertyError::ConfigError { message, field } => {
            assert_eq!(message, "bad config");
            assert_eq!(field, Some("field_name".to_string()));
        }
        _ => panic!("Expected ConfigError variant"),
    }
}

#[test]
fn test_test_failure_detailed_report() {
    let error = PropertyError::PropertyFailed {
        message: "assertion failed".to_string(),
        context: None,
        iteration: None,
    };
    let config = TestConfig::default();
    let failure = TestFailure::new(
        error,
        42,
        Some(0),
        5,
        config,
        10,
        Duration::from_millis(100),
        Duration::from_millis(50),
    );
    let report = failure.detailed_report();
    assert!(report.contains("Property test failed on iteration 10"));
    assert!(report.contains("Error: Property failed: assertion failed"));
    assert!(report.contains("Original input: 42"));
    assert!(report.contains("Shrunk input: 0"));
    assert!(report.contains("Shrinking steps: 5"));
    assert!(report.contains("Total test time:"));
}

#[test]
fn test_test_failure_summary() {
    let error = PropertyError::PropertyFailed {
        message: "test failed".to_string(),
        context: None,
        iteration: None,
    };
    let config = TestConfig::default();
    let failure = TestFailure::new(
        error.clone(),
        100,
        Some(0),
        3,
        config.clone(),
        5,
        Duration::from_millis(100),
        Duration::from_millis(30),
    );
    let summary = failure.summary();
    assert!(summary.contains("Property failed with input 0"));
    assert!(summary.contains("shrunk from 100"));
    assert!(summary.contains("iteration 5"));

    let failure = TestFailure::new(
        error,
        100,
        None,
        0,
        config,
        5,
        Duration::from_millis(100),
        Duration::from_millis(0),
    );
    let summary = failure.summary();
    assert!(summary.contains("Property failed with input 100"));
    assert!(summary.contains("iteration 5"));
    assert!(!summary.contains("shrunk"));
}

#[test]
fn test_property_error_source() {
    let error = PropertyError::GenerationFailed { message: "original error".to_string(), context: None };
    assert!(error.source().is_none());

    let error = PropertyError::PropertyFailed {
        message: "test".to_string(),
        context: None,
        iteration: None,
    };
    assert!(error.source().is_none());
}

#[test]
fn test_error_reporter_basic() {
    let reporter = ErrorReporter::new();
    assert!(!reporter.verbose);
    assert!(!reporter.show_shrink_progress);
    assert!(reporter.show_timing);
    assert!(!reporter.show_config);
}

#[test]
fn test_error_reporter_builder() {
    let reporter = ErrorReporter::new().verbose().show_shrink_progress().show_config();
    assert!(reporter.verbose);
    assert!(reporter.show_shrink_progress);
    assert!(reporter.show_timing);
    assert!(reporter.show_config);
}

#[test]
fn test_error_reporter_format_failure() {
    let error = PropertyError::PropertyFailed {
        message: "test assertion failed".to_string(),
        context: Some("during validation".to_string()),
        iteration: Some(42),
    };
    let config = TestConfig::default();
    let failure = TestFailure::new(
        error,
        100,
        Some(0),
        5,
        config,
        42,
        Duration::from_millis(150),
        Duration::from_millis(75),
    );
    let reporter = ErrorReporter::new().verbose().show_config();
    let report = reporter.format_failure(&failure);
    assert!(report.contains("PROPERTY TEST FAILURE"));
    assert!(report.contains("Test failed on iteration 42"));
    assert!(report.contains("Original input: 100"));
    assert!(report.contains("Shrunk input:   0"));
    assert!(report.contains("Shrink steps:   5"));
    assert!(report.contains("TIMING INFORMATION"));
    assert!(report.contains("CONFIGURATION"));
    assert!(report.contains("DETAILED ERROR CONTEXT"));
    assert!(report.contains("SUGGESTIONS"));
}

#[test]
fn test_error_reporter_format_summary() {
    let error = PropertyError::PropertyFailed {
        message: "test failed".to_string(),
        context: None,
        iteration: None,
    };
    let config = TestConfig::default();
    let failure = TestFailure::new(
        error,
        42,
        Some(0),
        3,
        config,
        10,
        Duration::from_millis(100),
        Duration::from_millis(50),
    );
    let reporter = ErrorReporter::new();
    let summary = reporter.format_summary(&failure);
    assert!(summary.contains("QUICK SUMMARY"));
    assert!(summary.contains("Focus on input: 0"));
    assert!(summary.contains("Property failed"));
}

#[test]
fn test_error_reporter_suggestions() {
    let reporter = ErrorReporter::new();
    let error = PropertyError::PropertyFailed {
        message: "test".to_string(),
        context: None,
        iteration: None,
    };
    let config = TestConfig::default();
    let failure = TestFailure::new(
        error,
        42,
        Some(0),
        1,
        config.clone(),
        0,
        Duration::from_millis(10),
        Duration::from_millis(5),
    );
    let suggestions = reporter.generate_suggestions(&failure);
    assert!(suggestions.contains("Check if your property logic is correct"));
    assert!(suggestions.contains("Focus on the shrunk input"));

    let error = PropertyError::GenerationFailed { message: "gen failed".to_string(), context: None };
    let failure = TestFailure::new(
        error,
        42,
        None,
        0,
        config,
        0,
        Duration::from_millis(10),
        Duration::from_millis(0),
    );
    let suggestions = reporter.generate_suggestions(&failure);
    assert!(suggestions.contains("Check your generator implementation"));
}

#[test]
fn test_shrink_progress_tracking() {
    let mut progress = ShrinkProgress::new();
    assert!(progress.steps.is_empty());
    assert!(!progress.completed);

    progress.add_step(ShrinkStep {
        step_number: 1,
        input_description: "100 -> 50".to_string(),
        step_time: Duration::from_millis(10),
        successful: true,
    });
    progress.add_step(ShrinkStep {
        step_number: 2,
        input_description: "50 -> 25".to_string(),
        step_time: Duration::from_millis(8),
        successful: true,
    });
    progress.complete(Duration::from_millis(20));

    assert_eq!(progress.steps.len(), 2);
    assert!(progress.completed);
    assert_eq!(progress.total_time, Duration::from_millis(20));

    let viz = progress.visualize();
    assert!(viz.contains("Shrinking Progress"));
    assert!(viz.contains("Step 1: 100 -> 50"));
    assert!(viz.contains("Step 2: 50 -> 25"));
    assert!(viz.contains("Completed in"));

    let (successful_steps, total_steps, average_step_time) = progress.step_summary();
    assert_eq!(total_steps, 2);
    assert_eq!(successful_steps, 2);
    assert_eq!(successful_steps as f64 / total_steps as f64, 1.0);
    assert_eq!(average_step_time, Duration::from_millis(10));
}

#[test]
fn step_summary_of_mixed_steps() {
    let mut progress = ShrinkProgress::new();
    let (ok, total, avg) = progress.step_summary();
    assert_eq!((ok, total), (0, 0));
    assert_eq!(avg, Duration::from_secs(0));
    for (i, successful) in [true, false, false].iter().enumerate() {
        progress.add_step(ShrinkStep {
            step_number: i + 1,
            input_description: format!("step {}", i),
            step_time: Duration::from_millis(1),
            successful: *successful,
        });
    }
    progress.complete(Duration::from_nanos(10));
    let (ok, total, avg) = progress.step_summary();
    assert_eq!((ok, total), (1, 3));
    assert_eq!(avg, Duration::from_nanos(3));
}

#[test]
fn test_error_reporter_different_error_types() {
    let reporter = ErrorReporter::new().verbose();

    let error = PropertyError::ShrinkageTimeout {
        iterations: 1000,
        last_successful_shrink: Some("42".to_string()),
    };
    let context = reporter.format_error_context(&error);
    assert!(context.contains("Shrinkage process timeout"));
    assert!(context.contains("Iterations attempted: 1000"));
    assert!(context.contains("Last successful shrink: 42"));

    let error = PropertyError::ConfigError {
        message: "invalid iterations".to_string(),
        field: Some("iterations".to_string()),
    };
    let context = reporter.format_error_context(&error);
    assert!(context.contains("Configuration error"));
    assert!(context.contains("Field: iterations"));

    let error = PropertyError::TestCancelled { reason: "user interrupt".to_string() };
    let context = reporter.format_error_context(&error);
    assert!(context.contains("Test cancellation"));
    assert!(context.contains("Reason: user interrupt"));

    let error = PropertyError::InternalError {
        message: "unexpected state".to_string(),
        source_message: Some("null pointer".to_string()),
    };
    let context = reporter.format_error_context(&error);
    assert!(context.contains("Internal framework error"));
    assert!(context.contains("Source: null pointer"));
}

#[test]
fn test_error_reporter_shrink_progress_visualization() {
    let error = PropertyError::PropertyFailed {
        message: "test failed".to_string(),
        context: None,
        iteration: None,
    };
    let config = TestConfig::default();
    let failure = TestFailure::new(
        error,
        100,
        Some(1),
        25,
        config,
        5,
        Duration::from_millis(200),
        Duration::from_millis(100),
    );
    let reporter = ErrorReporter::new().show_shrink_progress();
    let report = reporter.format_failure(&failure);
    assert!(report.contains("Shrink progress:"));
    assert!(report.contains("Shrink rate:"));
    assert!(report.contains("█"));
}

#[test]
fn test_error_reporter_no_shrinking() {
    let error = PropertyError::PropertyFailed {
        message: "test failed".to_string(),
        context: None,
        iteration: None,
    };
    let config = TestConfig::default();
    let failure = TestFailure::new(
        error,
        42,
        None,
        0,
        config,
        0,
        Duration::from_millis(50),
        Duration::from_millis(0),
    );
    let reporter = ErrorReporter::new();
    let report = reporter.format_failure(&failure);
    assert!(report.contains("No shrinking performed"));
    assert!(report.contains("Consider implementing shrinking"));
}

#[test]
fn test_error_reporter_format_for_test_output() {
    let error = PropertyError::PropertyFailed {
        message: "test failed".to_string(),
        context: None,
        iteration: None,
    };
    let config = TestConfig::default();
    let failure = TestFailure::new(
        error,
        42,
        None,
        0,
        config,
        0,
        Duration::from_millis(50),
        Duration::from_millis(0),
    );
    let verbose_output = ErrorReporter::new().verbose().format_for_test_output(&failure);
    assert!(verbose_output.contains("PROPERTY TEST FAILURE"));

    let concise_output = ErrorReporter::new().format_for_test_output(&failure);
    assert!(concise_output.contains("QUICK SUMMARY"));
    assert!(concise_output.len() < verbose_output.len());
}

#[test]
fn test_property_error_display() {
    let error = PropertyError::PropertyFailed {
        message: "test failed".to_string(),
        context: None,
        iteration: None,
    };
    assert_eq!(error.to_string(), "Property failed: test failed");

    let error = PropertyError::ShrinkageTimeout { iterations: 500, last_successful_shrink: None };
    assert_eq!(error.to_string(), "Shrinkage timeout after 500 iterations");
}

#[test]
fn shrink_progress_rate_is_one_decimal_steps_per_second() {
    let error = PropertyError::property_failed("x");
    let failure = TestFailure::new(
        error,
        1,
        Some(0),
        3,
        TestConfig::default(),
        0,
        Duration::from_millis(10),
        Duration::from_millis(2000),
    );
    let report = ErrorReporter::new().show_shrink_progress().format_failure(&failure);
    assert!(report.contains("   Shrink progress:\n   ██▶\n"));
    assert!(report.contains("   Shrink rate:    1.5 steps/sec\n"));
    assert!(report.contains("   Avg shrink time:  666.666666ms\n"));
}

#[test]
fn error_context_lists_iteration_of_property_failure() {
    let reporter = ErrorReporter::new();
    let error = PropertyError::property_failed_with_context("boom", None, Some(7));
    assert_eq!(
        reporter.format_error_context(&error),
        "   Type: Property assertion failure\n   Message: boom\n   Failed at iteration: 7\n"
    );
}

#[test]
fn reports_place_the_given_input_texts() {
    let error = PropertyError::PropertyFailed { message: "broken".to_string(), context: None, iteration: None };
    let failure = TestFailure::new(
        error,
        100,
        Some(7),
        2,
        TestConfig::default(),
        4,
        Duration::from_millis(10),
        Duration::from_millis(5),
    );
    assert_eq!(
        failure.summary_with("ORIG", "SHR"),
        "Property failed with input SHR (shrunk from ORIG) on iteration 4"
    );
    let detailed = failure.detailed_report_with("ORIG", "SHR");
    assert!(detailed.contains("Original input: ORIG\n"));
    assert!(detailed.contains("Shrunk input: SHR\n"));
    let reporter = ErrorReporter::new();
    let quick = reporter.format_summary_with(&failure, "ORIG", "SHR");
    assert!(quick.contains("Focus on input: SHR\n"));
    assert_eq!(reporter.format_for_test_output_with(&failure, "ORIG", "SHR"), quick);
    let full = reporter.format_failure_with(&failure, "ORIG", "SHR");
    assert!(full.contains("ORIG"));
    assert!(full.contains("SHR"));
    assert_eq!(quick, reporter.format_summary(&failure).replace("7", "SHR").replace("100", "ORIG"));
}
