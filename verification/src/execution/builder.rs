//! A builder of property tests: configuration, reporting and persistence set step by step.

use vstd::prelude::*;
use crate::config::{TestConfig, is_default_test_config};
use crate::error::{ErrorReporter, TestFailure, TestSuccess, spec_default_reporter};
use crate::execution::{PropertyTest, run_outcome};
use crate::generator::Generator;
use crate::persistence::PersistenceConfig;
use crate::property::Property;
use crate::time::Duration;

verus! {

/// A builder of property tests.
#[derive(Debug)]
pub struct PropertyTestBuilder<T> {
    /// The configuration of the test.
    pub config: TestConfig,
    /// The reporter of failures.
    pub error_reporter: ErrorReporter,
    /// Where failures are saved, when they are.
    pub persistence_config: Option<PersistenceConfig>,
    /// The name failures are saved under.
    pub test_name: Option<String>,
    /// Ties the builder to its input type.
    pub marker: core::marker::PhantomData<T>,
}

impl<T> PropertyTestBuilder<T> {
    /// A builder with the default configuration and reporter, without persistence.
    pub fn new() -> (r: Self)
        ensures
            is_default_test_config(r.config),
            r.error_reporter == spec_default_reporter(),
            r.persistence_config is None,
            r.test_name is None,
    {
        PropertyTestBuilder {
            config: TestConfig::default(),
            error_reporter: ErrorReporter::new(),
            persistence_config: None,
            test_name: None,
            marker: core::marker::PhantomData,
        }
    }

    /// Sets the number of iterations.
    pub fn iterations(self, iterations: usize) -> (r: Self)
        ensures
            r.config == (TestConfig { iterations, ..self.config }),
            r.error_reporter == self.error_reporter,
            r.persistence_config == self.persistence_config,
            r.test_name == self.test_name,
    {
        let mut b = self;
        b.config.iterations = iterations;
        b
    }

    /// Sets the seed.
    pub fn seed(self, seed: u64) -> (r: Self)
        ensures
            r.config == (TestConfig { seed: Some(seed), ..self.config }),
            r.error_reporter == self.error_reporter,
            r.persistence_config == self.persistence_config,
            r.test_name == self.test_name,
    {
        let mut b = self;
        b.config.seed = Some(seed);
        b
    }

    /// Sets the maximum number of shrinking iterations.
    pub fn max_shrink_iterations(self, max_iterations: usize) -> (r: Self)
        ensures
            r.config == (TestConfig { max_shrink_iterations: max_iterations, ..self.config }),
            r.error_reporter == self.error_reporter,
            r.persistence_config == self.persistence_config,
            r.test_name == self.test_name,
    {
        let mut b = self;
        b.config.max_shrink_iterations = max_iterations;
        b
    }

    /// Sets the shrinking timeout.
    pub fn shrink_timeout(self, timeout: Duration) -> (r: Self)
        ensures
            r.config == (TestConfig { shrink_timeout: timeout, ..self.config }),
            r.error_reporter == self.error_reporter,
            r.persistence_config == self.persistence_config,
            r.test_name == self.test_name,
    {
        let mut b = self;
        b.config.shrink_timeout = timeout;
        b
    }

    /// Makes failure reports verbose.
    pub fn verbose_errors(self) -> (r: Self)
        ensures
            r.config == self.config,
            r.error_reporter == (ErrorReporter { verbose: true, ..self.error_reporter }),
            r.persistence_config == self.persistence_config,
            r.test_name == self.test_name,
    {
        let mut b = self;
        b.error_reporter = b.error_reporter.verbose();
        b
    }

    /// Shows shrinking progress in failure reports.
    pub fn show_shrink_progress(self) -> (r: Self)
        ensures
            r.config == self.config,
            r.error_reporter == (ErrorReporter { show_shrink_progress: true, ..self.error_reporter }),
            r.persistence_config == self.persistence_config,
            r.test_name == self.test_name,
    {
        let mut b = self;
        b.error_reporter = b.error_reporter.show_shrink_progress();
        b
    }

    /// Shows the configuration in failure reports.
    pub fn show_config_in_errors(self) -> (r: Self)
        ensures
            r.config == self.config,
            r.error_reporter == (ErrorReporter { show_config: true, ..self.error_reporter }),
            r.persistence_config == self.persistence_config,
            r.test_name == self.test_name,
    {
        let mut b = self;
        b.error_reporter = b.error_reporter.show_config();
        b
    }

    /// Sets the reporter of failures.
    pub fn error_reporter(self, reporter: ErrorReporter) -> (r: Self)
        ensures
            r.config == self.config,
            r.error_reporter == reporter,
            r.persistence_config == self.persistence_config,
            r.test_name == self.test_name,
    {
        let mut b = self;
        b.error_reporter = reporter;
        b
    }

    /// Saves failures, with everything of persistence on.
    pub fn persist_failures(self) -> (r: Self)
        ensures
            r.config == self.config,
            r.error_reporter == self.error_reporter,
            r.persistence_config matches Some(p) && p.persist_failures && p.use_corpus
                && p.replay_failures,
            r.test_name == self.test_name,
    {
        let mut b = self;
        b.persistence_config = Some(PersistenceConfig::enabled());
        b
    }

    /// Sets the persistence configuration.
    pub fn persistence_config(self, config: PersistenceConfig) -> (r: Self)
        ensures
            r.config == self.config,
            r.error_reporter == self.error_reporter,
            r.persistence_config == Some(config),
            r.test_name == self.test_name,
    {
        let mut b = self;
        b.persistence_config = Some(config);
        b
    }

    /// Sets the name failures are saved under.
    pub fn test_name(self, name: &str) -> (r: Self)
        ensures
            r.config == self.config,
            r.error_reporter == self.error_reporter,
            r.persistence_config == self.persistence_config,
            r.test_name matches Some(n) && n@ == name@,
    {
        let mut b = self;
        b.test_name = Some(String::from_str(name));
        b
    }

    /// Runs a property test with the built configuration and reporter.
    pub fn run<G: Generator<T>, P: Property<T>>(self, generator: G, property: P) -> (r: Result<
        TestSuccess<T>,
        TestFailure<T>,
    >) where T: Clone + core::fmt::Debug + PartialEq
        requires
            generator.can_generate(self.config.generator_config),
            forall|x: T| #[trigger] property.accepts(x),
            forall|x: T| #[trigger] generator.can_shrink(x),
        ensures
            run_outcome(generator, property, self.config, r),
    {
        PropertyTest::with_error_reporter(generator, property, self.config, self.error_reporter).run()
    }
}

impl<T> Default for PropertyTestBuilder<T> {
    fn default() -> (r: Self)
        ensures
            is_default_test_config(r.config),
            r.error_reporter == spec_default_reporter(),
            r.persistence_config is None,
            r.test_name is None,
    {
        PropertyTestBuilder::new()
    }
}

} // verus!
