//! Configuration of generation and of test runs, with validation and merging.

use vstd::prelude::*;
use crate::text::{decimal, fmt_usize, same_string};
use crate::time::Duration;

verus! {

broadcast use crate::time::Duration::lemma_spec_from_secs;

/// Configuration validation errors.
#[derive(Debug, Clone, Copy, PartialEq, Eq, Structural)]
pub enum ConfigError {
    /// Invalid number of iterations (must be > 0).
    InvalidIterations(usize),
    /// Invalid number of shrink iterations (must be > 0).
    InvalidShrinkIterations(usize),
    /// Invalid timeout (must be > 0).
    InvalidTimeout,
    /// Invalid max depth (must be > 0).
    InvalidMaxDepth(usize),
}

/// The message of a configuration error.
pub open spec fn config_error_text(e: ConfigError) -> Seq<char> {
    match e {
        ConfigError::InvalidIterations(n) =>
            "Invalid iterations count: "@ + decimal(n as nat) + " (must be > 0)"@,
        ConfigError::InvalidShrinkIterations(n) =>
            "Invalid shrink iterations count: "@ + decimal(n as nat) + " (must be > 0)"@,
        ConfigError::InvalidTimeout => "Invalid timeout (must be > 0)"@,
        ConfigError::InvalidMaxDepth(n) =>
            "Invalid max depth: "@ + decimal(n as nat) + " (must be > 0)"@,
    }
}

impl ConfigError {
    /// The message of the error, as its `Display` text.
    pub fn to_string(&self) -> (r: String)
        ensures
            r@ == config_error_text(*self),
    {
        match self {
            ConfigError::InvalidIterations(n) => {
                let mut s = String::from_str("Invalid iterations count: ");
                s.append(fmt_usize(*n).as_str());
                s.append(" (must be > 0)");
                s
            },
            ConfigError::InvalidShrinkIterations(n) => {
                let mut s = String::from_str("Invalid shrink iterations count: ");
                s.append(fmt_usize(*n).as_str());
                s.append(" (must be > 0)");
                s
            },
            ConfigError::InvalidTimeout => String::from_str("Invalid timeout (must be > 0)"),
            ConfigError::InvalidMaxDepth(n) => {
                let mut s = String::from_str("Invalid max depth: ");
                s.append(fmt_usize(*n).as_str());
                s.append(" (must be > 0)");
                s
            },
        }
    }
}

/// Default size hint of generated collections.
pub const DEFAULT_SIZE_HINT: usize = 10;

/// Default maximum depth of nested structures.
pub const DEFAULT_MAX_DEPTH: usize = 5;

/// Configuration for generators.
#[derive(Debug, Clone, Copy, PartialEq, Eq, Structural)]
pub struct GeneratorConfig {
    /// Hint for the size of generated collections.
    pub size_hint: usize,
    /// Maximum depth for nested structures.
    pub max_depth: usize,
}

impl Default for GeneratorConfig {
    fn default() -> (r: Self)
        ensures
            r.size_hint == DEFAULT_SIZE_HINT,
            r.max_depth == DEFAULT_MAX_DEPTH,
    {
        GeneratorConfig { size_hint: DEFAULT_SIZE_HINT, max_depth: DEFAULT_MAX_DEPTH }
    }
}

impl GeneratorConfig {
    /// Whether the configuration is valid: the depth limit is positive.
    pub open spec fn valid(self) -> bool {
        self.max_depth > 0
    }

    /// The default configuration.
    pub open spec fn spec_default() -> GeneratorConfig {
        GeneratorConfig { size_hint: DEFAULT_SIZE_HINT, max_depth: DEFAULT_MAX_DEPTH }
    }

    /// Create a new generator configuration with validation.
    pub fn new(size_hint: usize, max_depth: usize) -> (r: Result<Self, ConfigError>)
        ensures
            max_depth == 0 ==> r == Err::<Self, ConfigError>(ConfigError::InvalidMaxDepth(0)),
            max_depth > 0 ==> r == Ok::<Self, ConfigError>(
                GeneratorConfig { size_hint, max_depth },
            ),
    {
        if max_depth == 0 {
            return Err(ConfigError::InvalidMaxDepth(max_depth));
        }
        Ok(GeneratorConfig { size_hint, max_depth })
    }

    /// Validate the generator configuration.
    pub fn validate(&self) -> (r: Result<(), ConfigError>)
        ensures
            self.valid() ==> r == Ok::<(), ConfigError>(()),
            !self.valid() ==> r == Err::<(), ConfigError>(ConfigError::InvalidMaxDepth(0)),
    {
        if self.max_depth == 0 {
            return Err(ConfigError::InvalidMaxDepth(self.max_depth));
        }
        Ok(())
    }

    /// The merge of `self` with `other`: each field of `self` that differs from its
    /// default wins, the others come from `other`.
    pub open spec fn spec_merge(self, other: GeneratorConfig) -> GeneratorConfig {
        GeneratorConfig {
            size_hint: if self.size_hint != DEFAULT_SIZE_HINT {
                self.size_hint
            } else {
                other.size_hint
            },
            max_depth: if self.max_depth != DEFAULT_MAX_DEPTH {
                self.max_depth
            } else {
                other.max_depth
            },
        }
    }

    /// Merge this configuration with another, with this config taking precedence for
    /// non-default values.
    pub fn merge_with(self, other: &GeneratorConfig) -> (r: Self)
        ensures
            r == self.spec_merge(*other),
    {
        GeneratorConfig {
            size_hint: if self.size_hint != DEFAULT_SIZE_HINT {
                self.size_hint
            } else {
                other.size_hint
            },
            max_depth: if self.max_depth != DEFAULT_MAX_DEPTH {
                self.max_depth
            } else {
                other.max_depth
            },
        }
    }
}

/// Default number of test iterations.
pub const DEFAULT_ITERATIONS: usize = 100;

/// Default number of shrinking iterations.
pub const DEFAULT_MAX_SHRINK_ITERATIONS: usize = 1000;

/// Default shrinking timeout, in seconds.
pub const DEFAULT_SHRINK_TIMEOUT_SECS: u64 = 10;

/// Configuration for individual property tests.
#[derive(Debug, Clone, Copy, PartialEq, Eq, Structural)]
pub struct TestConfig {
    /// Number of test iterations to run.
    pub iterations: usize,
    /// Maximum number of shrinking iterations.
    pub max_shrink_iterations: usize,
    /// Timeout for the shrinking process.
    pub shrink_timeout: Duration,
    /// Optional seed for reproducible tests.
    pub seed: Option<u64>,
    /// Generator configuration overrides.
    pub generator_config: GeneratorConfig,
}

/// Whether `c` is the default test configuration: 100 iterations, 1000 shrink
/// iterations, a 10 second shrink timeout, no seed and the default generator
/// configuration.
pub open spec fn is_default_test_config(c: TestConfig) -> bool {
    &&& c.iterations == DEFAULT_ITERATIONS
    &&& c.max_shrink_iterations == DEFAULT_MAX_SHRINK_ITERATIONS
    &&& c.shrink_timeout@ == DEFAULT_SHRINK_TIMEOUT_SECS * 1_000_000_000
    &&& c.seed.is_none()
    &&& c.generator_config == GeneratorConfig::spec_default()
}

impl Default for TestConfig {
    fn default() -> (r: Self)
        ensures
            r.iterations == DEFAULT_ITERATIONS,
            r.max_shrink_iterations == DEFAULT_MAX_SHRINK_ITERATIONS,
            r.shrink_timeout@ == DEFAULT_SHRINK_TIMEOUT_SECS * 1_000_000_000,
            r.seed.is_none(),
            r.generator_config == GeneratorConfig::spec_default(),
            is_default_test_config(r),
    {
        TestConfig {
            iterations: DEFAULT_ITERATIONS,
            max_shrink_iterations: DEFAULT_MAX_SHRINK_ITERATIONS,
            shrink_timeout: Duration::from_secs(DEFAULT_SHRINK_TIMEOUT_SECS),
            seed: None,
            generator_config: GeneratorConfig::default(),
        }
    }
}

/// The first validation error of a test configuration's own limits, if any.
pub open spec fn test_limits_error(
    iterations: usize,
    max_shrink_iterations: usize,
    shrink_timeout: Duration,
) -> Option<ConfigError> {
    if iterations == 0 {
        Some(ConfigError::InvalidIterations(0))
    } else if max_shrink_iterations == 0 {
        Some(ConfigError::InvalidShrinkIterations(0))
    } else if shrink_timeout@ == 0 {
        Some(ConfigError::InvalidTimeout)
    } else {
        None
    }
}

impl TestConfig {
    /// The first validation error of the configuration, if any.
    pub open spec fn spec_error(self) -> Option<ConfigError> {
        match test_limits_error(self.iterations, self.max_shrink_iterations, self.shrink_timeout) {
            Some(e) => Some(e),
            None => if self.generator_config.valid() {
                None
            } else {
                Some(ConfigError::InvalidMaxDepth(0))
            },
        }
    }

    /// Whether the configuration is valid.
    pub open spec fn valid(self) -> bool {
        self.spec_error().is_none()
    }

    /// Create a new test configuration with validation.
    pub fn new(
        iterations: usize,
        max_shrink_iterations: usize,
        shrink_timeout: Duration,
        seed: Option<u64>,
        generator_config: GeneratorConfig,
    ) -> (r: Result<Self, ConfigError>)
        ensures
            match test_limits_error(iterations, max_shrink_iterations, shrink_timeout) {
                Some(e) => r == Err::<Self, ConfigError>(e),
                None => r == Ok::<Self, ConfigError>(
                    TestConfig {
                        iterations,
                        max_shrink_iterations,
                        shrink_timeout,
                        seed,
                        generator_config,
                    },
                ),
            },
    {
        if iterations == 0 {
            return Err(ConfigError::InvalidIterations(iterations));
        }
        if max_shrink_iterations == 0 {
            return Err(ConfigError::InvalidShrinkIterations(max_shrink_iterations));
        }
        if shrink_timeout.is_zero() {
            return Err(ConfigError::InvalidTimeout);
        }
        Ok(TestConfig { iterations, max_shrink_iterations, shrink_timeout, seed, generator_config })
    }

    /// Validate the test configuration.
    pub fn validate(&self) -> (r: Result<(), ConfigError>)
        ensures
            match self.spec_error() {
                Some(e) => r == Err::<(), ConfigError>(e),
                None => r == Ok::<(), ConfigError>(()),
            },
    {
        if self.iterations == 0 {
            return Err(ConfigError::InvalidIterations(self.iterations));
        }
        if self.max_shrink_iterations == 0 {
            return Err(ConfigError::InvalidShrinkIterations(self.max_shrink_iterations));
        }
        if self.shrink_timeout.is_zero() {
            return Err(ConfigError::InvalidTimeout);
        }
        self.generator_config.validate()
    }

    /// The merge of a test configuration with a global one.
    pub open spec fn spec_merge_with_global(self, global: GlobalConfig) -> TestConfig {
        TestConfig {
            iterations: self.iterations,
            max_shrink_iterations: self.max_shrink_iterations,
            shrink_timeout: self.shrink_timeout,
            seed: match self.seed {
                Some(s) => Some(s),
                None => global.default_seed,
            },
            generator_config: self.generator_config.spec_merge(global.generator_config),
        }
    }

    /// Merge this configuration with a global configuration, with this config taking
    /// precedence.
    pub fn merge_with_global(self, global: &GlobalConfig) -> (r: Self)
        ensures
            r == self.spec_merge_with_global(*global),
    {
        TestConfig {
            iterations: self.iterations,
            max_shrink_iterations: self.max_shrink_iterations,
            shrink_timeout: self.shrink_timeout,
            seed: match self.seed {
                Some(s) => Some(s),
                None => global.default_seed,
            },
            generator_config: self.generator_config.merge_with(&global.generator_config),
        }
    }

    /// The configuration built from global defaults and overrides, before validation.
    pub open spec fn spec_from_global(
        global: GlobalConfig,
        iterations: Option<usize>,
        seed: Option<u64>,
        generator_overrides: Option<GeneratorConfig>,
    ) -> TestConfig {
        TestConfig {
            iterations: match iterations {
                Some(n) => n,
                None => global.default_iterations,
            },
            max_shrink_iterations: DEFAULT_MAX_SHRINK_ITERATIONS,
            shrink_timeout: Duration::spec_from_secs(DEFAULT_SHRINK_TIMEOUT_SECS),
            seed: match seed {
                Some(s) => Some(s),
                None => global.default_seed,
            },
            generator_config: match generator_overrides {
                Some(g) => g,
                None => global.generator_config,
            },
        }
    }

    /// Create a test configuration from global defaults with optional overrides.
    pub fn from_global_with_overrides(
        global: &GlobalConfig,
        iterations: Option<usize>,
        seed: Option<u64>,
        generator_overrides: Option<GeneratorConfig>,
    ) -> (r: Result<Self, ConfigError>)
        ensures
            ({
                let c = TestConfig::spec_from_global(*global, iterations, seed, generator_overrides);
                match c.spec_error() {
                    Some(e) => r == Err::<Self, ConfigError>(e),
                    None => r == Ok::<Self, ConfigError>(c),
                }
            }),
    {
        let config = TestConfig {
            iterations: match iterations {
                Some(n) => n,
                None => global.default_iterations,
            },
            max_shrink_iterations: DEFAULT_MAX_SHRINK_ITERATIONS,
            shrink_timeout: Duration::from_secs(DEFAULT_SHRINK_TIMEOUT_SECS),
            seed: match seed {
                Some(s) => Some(s),
                None => global.default_seed,
            },
            generator_config: match generator_overrides {
                Some(g) => g,
                None => global.generator_config,
            },
        };
        match config.validate() {
            Ok(()) => Ok(config),
            Err(e) => Err(e),
        }
    }
}

/// Global configuration for default test behavior.
#[derive(Debug, Clone, Copy, PartialEq, Eq, Structural)]
pub struct GlobalConfig {
    /// Default number of iterations for tests.
    pub default_iterations: usize,
    /// Default seed for reproducible tests.
    pub default_seed: Option<u64>,
    /// Default generator configuration.
    pub generator_config: GeneratorConfig,
}

impl Default for GlobalConfig {
    fn default() -> (r: Self)
        ensures
            r == GlobalConfig::spec_default(),
    {
        GlobalConfig {
            default_iterations: DEFAULT_ITERATIONS,
            default_seed: None,
            generator_config: GeneratorConfig::default(),
        }
    }
}

impl GlobalConfig {
    /// The default global configuration.
    pub open spec fn spec_default() -> GlobalConfig {
        GlobalConfig {
            default_iterations: DEFAULT_ITERATIONS,
            default_seed: None,
            generator_config: GeneratorConfig::spec_default(),
        }
    }

    /// The first validation error of the configuration, if any.
    pub open spec fn spec_error(self) -> Option<ConfigError> {
        if self.default_iterations == 0 {
            Some(ConfigError::InvalidIterations(0))
        } else if !self.generator_config.valid() {
            Some(ConfigError::InvalidMaxDepth(0))
        } else {
            None
        }
    }

    /// Whether the configuration is valid.
    pub open spec fn valid(self) -> bool {
        self.spec_error().is_none()
    }

    /// Create a new global configuration with validation.
    pub fn new(
        default_iterations: usize,
        default_seed: Option<u64>,
        generator_config: GeneratorConfig,
    ) -> (r: Result<Self, ConfigError>)
        ensures
            default_iterations == 0 ==> r == Err::<Self, ConfigError>(
                ConfigError::InvalidIterations(0),
            ),
            default_iterations > 0 ==> r == Ok::<Self, ConfigError>(
                GlobalConfig { default_iterations, default_seed, generator_config },
            ),
    {
        if default_iterations == 0 {
            return Err(ConfigError::InvalidIterations(default_iterations));
        }
        Ok(GlobalConfig { default_iterations, default_seed, generator_config })
    }

    /// Validate the global configuration.
    pub fn validate(&self) -> (r: Result<(), ConfigError>)
        ensures
            match self.spec_error() {
                Some(e) => r == Err::<(), ConfigError>(e),
                None => r == Ok::<(), ConfigError>(()),
            },
    {
        if self.default_iterations == 0 {
            return Err(ConfigError::InvalidIterations(self.default_iterations));
        }
        self.generator_config.validate()
    }
}

/// Configuration manager holding a global configuration that is always valid.
pub struct ConfigManager {
    global_config: GlobalConfig,
}

impl ConfigManager {
    #[verifier::type_invariant]
    spec fn holds_valid_config(&self) -> bool {
        self.global_config.valid()
    }

    /// The global configuration held.
    pub closed spec fn spec_global(&self) -> GlobalConfig {
        self.global_config
    }

    /// Create a new configuration manager with the default global configuration.
    pub fn new() -> (r: Self)
        ensures
            r.spec_global() == GlobalConfig::spec_default(),
    {
        ConfigManager { global_config: GlobalConfig::default() }
    }

    /// Create a new configuration manager with a custom global configuration.
    pub fn with_global_config(global_config: GlobalConfig) -> (r: Result<Self, ConfigError>)
        ensures
            match global_config.spec_error() {
                Some(e) => r matches Err(x) && x == e,
                None => r matches Ok(m) && m.spec_global() == global_config,
            },
    {
        match global_config.validate() {
            Ok(()) => Ok(ConfigManager { global_config }),
            Err(e) => Err(e),
        }
    }

    /// The current global configuration.
    pub fn global_config(&self) -> (r: &GlobalConfig)
        ensures
            *r == self.spec_global(),
            r.valid(),
    {
        proof {
            use_type_invariant(self);
        }
        &self.global_config
    }

    /// Update the global configuration; an invalid one is refused and the old one kept.
    pub fn set_global_config(&mut self, global_config: GlobalConfig) -> (r: Result<(), ConfigError>)
        ensures
            match global_config.spec_error() {
                Some(e) => r == Err::<(), ConfigError>(e)
                    && final(self).spec_global() == old(self).spec_global(),
                None => r == Ok::<(), ConfigError>(())
                    && final(self).spec_global() == global_config,
            },
    {
        match global_config.validate() {
            Ok(()) => {
                self.global_config = global_config;
                Ok(())
            },
            Err(e) => Err(e),
        }
    }

    /// Create a test configuration that inherits from the global defaults.
    pub fn create_test_config(&self) -> (r: TestConfig)
        ensures
            r == TestConfig::spec_from_global(self.spec_global(), None, None, None),
            r.valid(),
    {
        proof {
            use_type_invariant(self);
        }
        match TestConfig::from_global_with_overrides(&self.global_config, None, None, None) {
            Ok(c) => c,
            Err(_) => TestConfig::default(),
        }
    }

    /// Create a test configuration with specific overrides.
    pub fn create_test_config_with_overrides(
        &self,
        iterations: Option<usize>,
        seed: Option<u64>,
        generator_overrides: Option<GeneratorConfig>,
    ) -> (r: Result<TestConfig, ConfigError>)
        ensures
            ({
                let c = TestConfig::spec_from_global(
                    self.spec_global(),
                    iterations,
                    seed,
                    generator_overrides,
                );
                match c.spec_error() {
                    Some(e) => r == Err::<TestConfig, ConfigError>(e),
                    None => r == Ok::<TestConfig, ConfigError>(c),
                }
            }),
    {
        TestConfig::from_global_with_overrides(
            &self.global_config,
            iterations,
            seed,
            generator_overrides,
        )
    }
}

impl Default for ConfigManager {
    fn default() -> (r: Self)
        ensures
            r.spec_global() == GlobalConfig::spec_default(),
    {
        ConfigManager::new()
    }
}

} // verus!

verus! {

/// Memory usage statistics of generation.
#[derive(Debug, Clone, Copy, PartialEq, Eq, Structural)]
pub struct MemoryStats {
    /// Peak memory usage during generation.
    pub peak_memory_usage: usize,
    /// Average memory usage.
    pub average_memory_usage: usize,
    /// Total allocations.
    pub total_allocations: usize,
}

impl Default for MemoryStats {
    /// No memory used, no allocations.
    fn default() -> (r: Self)
        ensures
            r == (MemoryStats { peak_memory_usage: 0, average_memory_usage: 0, total_allocations: 0 }),
    {
        MemoryStats { peak_memory_usage: 0, average_memory_usage: 0, total_allocations: 0 }
    }
}

/// Performance metrics of generation.
#[derive(Debug, Clone, Copy, PartialEq, Eq, Structural)]
pub struct GenerationPerformanceMetrics {
    /// Total time spent generating values.
    pub total_generation_time: Duration,
    /// Average time per generation.
    pub average_generation_time: Duration,
    /// Fastest generation time.
    pub fastest_generation: Duration,
    /// Slowest generation time.
    pub slowest_generation: Duration,
    /// Memory usage statistics.
    pub memory_stats: MemoryStats,
}

impl Default for GenerationPerformanceMetrics {
    /// No time spent, no memory used; the fastest generation starts at the longest
    /// duration, so that any measured one is faster.
    fn default() -> (r: Self)
        ensures
            r.total_generation_time@ == 0,
            r.average_generation_time@ == 0,
            r.fastest_generation@ == u64::MAX * 1_000_000_000,
            r.slowest_generation@ == 0,
            r.memory_stats == (MemoryStats {
                peak_memory_usage: 0,
                average_memory_usage: 0,
                total_allocations: 0,
            }),
    {
        GenerationPerformanceMetrics {
            total_generation_time: Duration::zero(),
            average_generation_time: Duration::zero(),
            fastest_generation: Duration::from_secs(u64::MAX),
            slowest_generation: Duration::zero(),
            memory_stats: MemoryStats::default(),
        }
    }
}

/// Report of coverage threshold checking: a pass or fail per type, by kind.
///
/// Each kind holds one result per type name, in the order first added.
#[derive(Debug, Clone)]
pub struct CoverageReport {
    /// Results for numeric types.
    pub numeric_results: Vec<(String, bool)>,
    /// Results for boolean types.
    pub boolean_results: Vec<(String, bool)>,
    /// Results for enum types.
    pub enum_results: Vec<(String, bool)>,
    /// Whether every result passed.
    pub overall_pass: bool,
}

/// The results as plain values.
pub open spec fn results_view(r: Seq<(String, bool)>) -> Seq<(Seq<char>, bool)> {
    r.map_values(|e: (String, bool)| (e.0@, e.1))
}

/// Whether no type name occurs twice.
pub open spec fn names_distinct(r: Seq<(String, bool)>) -> bool {
    forall|i: int, j: int| 0 <= i < j < r.len() ==> (#[trigger] r[i]).0@ != (#[trigger] r[j]).0@
}

/// The results after setting the result of `name` to `passed`: the entry of the name
/// replaced, or a new entry at the end.
pub open spec fn set_result(r: Seq<(Seq<char>, bool)>, name: Seq<char>, passed: bool) -> Seq<
    (Seq<char>, bool),
> {
    if exists|k: int| 0 <= k < r.len() && (#[trigger] r[k]).0 == name {
        r.update(choose|k: int| 0 <= k < r.len() && (#[trigger] r[k]).0 == name, (name, passed))
    } else {
        r.push((name, passed))
    }
}

/// Whether every result passed.
pub open spec fn all_passed(r: Seq<(Seq<char>, bool)>) -> bool {
    forall|i: int| 0 <= i < r.len() ==> (#[trigger] r[i]).1
}

/// Setting a passing result keeps every result passing.
pub proof fn lemma_set_passing_result(r: Seq<(Seq<char>, bool)>, name: Seq<char>)
    requires
        all_passed(r),
    ensures
        all_passed(set_result(r, name, true)),
{
    if exists|k: int| 0 <= k < r.len() && (#[trigger] r[k]).0 == name {
        let k = choose|k: int| 0 <= k < r.len() && (#[trigger] r[k]).0 == name;
        let u = r.update(k, (name, true));
        assert forall|i: int| 0 <= i < u.len() implies (#[trigger] u[i]).1 by {
            if i != k {
                assert(u[i] == r[i]);
            }
        }
    } else {
        let u = r.push((name, true));
        assert forall|i: int| 0 <= i < u.len() implies (#[trigger] u[i]).1 by {
            if i < r.len() {
                assert(u[i] == r[i]);
            }
        }
    }
}

/// Whether no name occurs twice among the results.
pub open spec fn view_names_distinct(r: Seq<(Seq<char>, bool)>) -> bool {
    forall|i: int, j: int| 0 <= i < j < r.len() ==> (#[trigger] r[i]).0 != (#[trigger] r[j]).0
}

/// The results read as a map from each name to whether it passed.
pub open spec fn results_map(r: Seq<(Seq<char>, bool)>) -> Map<Seq<char>, bool> {
    Map::new(
        |n: Seq<char>| exists|k: int| 0 <= k < r.len() && (#[trigger] r[k]).0 == n,
        |n: Seq<char>| r[choose|k: int| 0 <= k < r.len() && (#[trigger] r[k]).0 == n].1,
    )
}

/// Results with distinct names keep them distinct in their plain view.
pub proof fn lemma_results_view_distinct(r: Seq<(String, bool)>)
    requires
        names_distinct(r),
    ensures
        view_names_distinct(results_view(r)),
{
    let v = results_view(r);
    assert forall|i: int, j: int| 0 <= i < j < v.len() implies (#[trigger] v[i]).0 != (
    #[trigger] v[j]).0 by {
        assert(v[i] == (r[i].0@, r[i].1) && v[j] == (r[j].0@, r[j].1));
    }
}

/// Setting the result of a name, among results with distinct names, maps the name to the
/// new outcome and leaves every other name as it was; the names stay distinct.
pub proof fn lemma_set_result_map(r: Seq<(Seq<char>, bool)>, name: Seq<char>, passed: bool)
    requires
        view_names_distinct(r),
    ensures
        view_names_distinct(set_result(r, name, passed)),
        results_map(set_result(r, name, passed)) == results_map(r).insert(name, passed),
{
    let u = set_result(r, name, passed);
    if exists|k: int| 0 <= k < r.len() && (#[trigger] r[k]).0 == name {
        let k = choose|k: int| 0 <= k < r.len() && (#[trigger] r[k]).0 == name;
        assert(u == r.update(k, (name, passed)));
        assert forall|i: int, j: int| 0 <= i < j < u.len() implies (#[trigger] u[i]).0 != (
        #[trigger] u[j]).0 by {
            if i != k && j != k {
                assert(u[i] == r[i] && u[j] == r[j]);
            } else if i == k {
                assert(u[j] == r[j]);
            } else {
                assert(u[i] == r[i]);
            }
        }
        assert forall|n: Seq<char>| #[trigger] results_map(u).contains_key(n) == results_map(
            r,
        ).insert(name, passed).contains_key(n) by {
            if exists|j: int| 0 <= j < r.len() && (#[trigger] r[j]).0 == n {
                let j = choose|j: int| 0 <= j < r.len() && (#[trigger] r[j]).0 == n;
                if j == k {
                    assert(u[k].0 == n);
                } else {
                    assert(u[j] == r[j]);
                }
            }
            if exists|j: int| 0 <= j < u.len() && (#[trigger] u[j]).0 == n {
                let j = choose|j: int| 0 <= j < u.len() && (#[trigger] u[j]).0 == n;
                if j != k {
                    assert(u[j] == r[j]);
                }
            }
        }
        assert forall|n: Seq<char>| #[trigger] results_map(u).contains_key(n) implies results_map(
            u,
        )[n] == results_map(r).insert(name, passed)[n] by {
            let j = choose|j: int| 0 <= j < u.len() && (#[trigger] u[j]).0 == n;
            if j == k {
                assert(n == name);
            } else {
                assert(u[j] == r[j]);
                assert(n != name);
                let j2 = choose|j2: int| 0 <= j2 < r.len() && (#[trigger] r[j2]).0 == n;
                assert(j2 != k);
                assert(u[j2] == r[j2]);
            }
        }
        assert(results_map(u) =~= results_map(r).insert(name, passed));
    } else {
        assert(u == r.push((name, passed)));
        assert forall|i: int, j: int| 0 <= i < j < u.len() implies (#[trigger] u[i]).0 != (
        #[trigger] u[j]).0 by {
            if j < r.len() {
                assert(u[i] == r[i] && u[j] == r[j]);
            } else {
                assert(u[i] == r[i]);
            }
        }
        assert forall|n: Seq<char>| #[trigger] results_map(u).contains_key(n) == results_map(
            r,
        ).insert(name, passed).contains_key(n) by {
            if n == name {
                assert(u[r.len() as int].0 == n);
            }
            if exists|j: int| 0 <= j < r.len() && (#[trigger] r[j]).0 == n {
                let j = choose|j: int| 0 <= j < r.len() && (#[trigger] r[j]).0 == n;
                assert(u[j] == r[j]);
            }
            if exists|j: int| 0 <= j < u.len() && (#[trigger] u[j]).0 == n {
                let j = choose|j: int| 0 <= j < u.len() && (#[trigger] u[j]).0 == n;
                if j < r.len() {
                    assert(u[j] == r[j]);
                }
            }
        }
        assert forall|n: Seq<char>| #[trigger] results_map(u).contains_key(n) implies results_map(
            u,
        )[n] == results_map(r).insert(name, passed)[n] by {
            let j = choose|j: int| 0 <= j < u.len() && (#[trigger] u[j]).0 == n;
            if j == r.len() {
                assert(n == name);
            } else {
                assert(u[j] == r[j]);
                assert(n != name);
                let j2 = choose|j2: int| 0 <= j2 < r.len() && (#[trigger] r[j2]).0 == n;
                assert(u[j2] == r[j2]);
            }
        }
        assert(results_map(u) =~= results_map(r).insert(name, passed));
    }
}

/// The results and the overall status after a sequence of calls from an empty report; each
/// call is the kind of result (0 numeric, 1 boolean, otherwise enum), the name and whether
/// it passed.
pub open spec fn apply_result_calls(calls: Seq<(int, Seq<char>, bool)>) -> (
    Seq<(Seq<char>, bool)>,
    Seq<(Seq<char>, bool)>,
    Seq<(Seq<char>, bool)>,
    bool,
)
    decreases calls.len(),
{
    if calls.len() == 0 {
        (seq![], seq![], seq![], true)
    } else {
        let before = apply_result_calls(calls.drop_last());
        let call = calls.last();
        if call.0 == 0 {
            (set_result(before.0, call.1, call.2), before.1, before.2, before.3 && call.2)
        } else if call.0 == 1 {
            (before.0, set_result(before.1, call.1, call.2), before.2, before.3 && call.2)
        } else {
            (before.0, before.1, set_result(before.2, call.1, call.2), before.3 && call.2)
        }
    }
}

/// A report passes exactly when no result set on it failed: a failure is never undone by a
/// later pass.
pub proof fn lemma_overall_pass_tracks_failures(calls: Seq<(int, Seq<char>, bool)>)
    ensures
        apply_result_calls(calls).3 <==> forall|i: int| 0 <= i < calls.len() ==> (#[trigger] calls[i]).2,
    decreases calls.len(),
{
    if calls.len() > 0 {
        lemma_overall_pass_tracks_failures(calls.drop_last());
        assert forall|i: int| 0 <= i < calls.len() - 1 implies calls.drop_last()[i] == #[trigger] calls[i] by {}
    }
}

/// Sets the result of `name` to `passed`.
fn insert_result(results: &mut Vec<(String, bool)>, name: String, passed: bool)
    requires
        names_distinct(old(results)@),
    ensures
        names_distinct(final(results)@),
        results_view(final(results)@) == set_result(results_view(old(results)@), name@, passed),
{
    let ghost m = results_view(results@);
    let ghost orig = results@;
    let n = results.len();
    let mut i: usize = 0;
    while i < n
        invariant
            n == results@.len(),
            i <= n,
            results@ == orig,
            orig == old(results)@,
            names_distinct(orig),
            m == results_view(orig),
            forall|k: int| 0 <= k < i ==> (#[trigger] m[k]).0 != name@,
        decreases n - i,
    {
        assert(m[i as int] == (orig[i as int].0@, orig[i as int].1));
        if same_string(results[i].0.as_str(), name.as_str()) {
            results.set(i, (name, passed));
            proof {
                let k = choose|k: int| 0 <= k < m.len() && (#[trigger] m[k]).0 == name@;
                assert(k == i) by {
                    if k != i {
                        if k < i {
                            assert(m[k].0 != name@);
                        } else {
                            assert(m[k] == (orig[k].0@, orig[k].1));
                            assert(orig[i as int].0@ != orig[k].0@);
                        }
                    }
                }
            }
            assert(results_view(results@) =~= set_result(m, name@, passed));
            assert forall|a: int, b: int| 0 <= a < b < results@.len() implies (
            #[trigger] results@[a]).0@ != (#[trigger] results@[b]).0@ by {
                if a != i && b != i {
                    assert(results@[a] == orig[a] && results@[b] == orig[b]);
                } else if a == i {
                    assert(results@[b] == orig[b]);
                    assert(m[b] == (orig[b].0@, orig[b].1));
                } else {
                    assert(results@[a] == orig[a]);
                    assert(m[a] == (orig[a].0@, orig[a].1));
                }
            }
            return;
        }
        i = i + 1;
    }
    results.push((name, passed));
    assert(results_view(results@) =~= set_result(m, name@, passed));
    assert forall|a: int, b: int| 0 <= a < b < results@.len() implies (#[trigger] results@[a]).0@
        != (#[trigger] results@[b]).0@ by {
        if b < n {
            assert(results@[a] == orig[a] && results@[b] == orig[b]);
        } else {
            assert(results@[a] == orig[a]);
            assert(m[a] == (orig[a].0@, orig[a].1));
        }
    }
}

/// The lines of one kind of results: a heading and a marked line per type.
pub open spec fn result_lines(r: Seq<(Seq<char>, bool)>) -> Seq<char>
    decreases r.len(),
{
    if r.len() == 0 {
        seq![]
    } else {
        result_lines(r.drop_last()) + "  "@ + (if r.last().1 {
            "✓"@
        } else {
            "✗"@
        }) + " "@ + r.last().0 + "\n"@
    }
}

/// The section of one kind of results, when there are any.
pub open spec fn result_section(heading: Seq<char>, r: Seq<(Seq<char>, bool)>) -> Seq<char> {
    if r.len() > 0 {
        heading + result_lines(r)
    } else {
        seq![]
    }
}

/// The text of a coverage report.
pub open spec fn coverage_report_text(c: CoverageReport) -> Seq<char> {
    "Coverage Threshold Report:\n"@ + "Overall Status: "@ + (if c.overall_pass {
        "PASS"@
    } else {
        "FAIL"@
    }) + "\n"@ + result_section("\nNumeric Coverage:\n"@, results_view(c.numeric_results@))
        + result_section("\nBoolean Coverage:\n"@, results_view(c.boolean_results@))
        + result_section("\nEnum Coverage:\n"@, results_view(c.enum_results@))
}

/// Appends a section of results.
fn append_results(out: &mut String, heading: &str, results: &Vec<(String, bool)>)
    ensures
        final(out)@ == old(out)@ + result_section(heading@, results_view(results@)),
{
    let n = results.len();
    if n > 0 {
        out.append(heading);
        let ghost start = out@;
        let mut i: usize = 0;
        while i < n
            invariant
                n == results@.len(),
                i <= n,
                out@ == start + result_lines(results_view(results@).take(i as int)),
            decreases n - i,
        {
            out.append("  ");
            if results[i].1 {
                out.append("✓");
            } else {
                out.append("✗");
            }
            out.append(" ");
            out.append(results[i].0.as_str());
            out.append("\n");
            assert(results_view(results@).take(i + 1).drop_last() =~= results_view(results@).take(
                i as int,
            ));
            i = i + 1;
        }
        assert(results_view(results@).take(n as int) =~= results_view(results@));
    }
    assert(final(out)@ =~= old(out)@ + result_section(heading@, results_view(results@)));
}

impl CoverageReport {
    /// Whether no kind holds a type name twice, and a passing report holds only passing
    /// results.
    pub open spec fn well_formed(&self) -> bool {
        &&& names_distinct(self.numeric_results@) && names_distinct(self.boolean_results@)
            && names_distinct(self.enum_results@)
        &&& self.overall_pass ==> all_passed(results_view(self.numeric_results@)) && all_passed(
            results_view(self.boolean_results@),
        ) && all_passed(results_view(self.enum_results@))
    }

    /// An empty report, passing.
    pub fn new() -> (r: Self)
        ensures
            r.well_formed(),
            r.numeric_results@.len() == 0,
            r.boolean_results@.len() == 0,
            r.enum_results@.len() == 0,
            r.overall_pass,
    {
        CoverageReport {
            numeric_results: Vec::new(),
            boolean_results: Vec::new(),
            enum_results: Vec::new(),
            overall_pass: true,
        }
    }

    /// Sets the numeric result of `kind_name`; a failure makes the report fail.
    pub fn add_numeric_result(&mut self, kind_name: String, passed: bool)
        requires
            old(self).well_formed(),
        ensures
            final(self).well_formed(),
            results_view(final(self).numeric_results@) == set_result(
                results_view(old(self).numeric_results@),
                kind_name@,
                passed,
            ),
            results_map(results_view(final(self).numeric_results@)) == results_map(
                results_view(old(self).numeric_results@),
            ).insert(kind_name@, passed),
            final(self).boolean_results == old(self).boolean_results,
            final(self).enum_results == old(self).enum_results,
            final(self).overall_pass == (old(self).overall_pass && passed),
    {
        let ghost before = results_view(self.numeric_results@);
        proof {
            lemma_results_view_distinct(self.numeric_results@);
            lemma_set_result_map(before, kind_name@, passed);
        }
        insert_result(&mut self.numeric_results, kind_name, passed);
        if !passed {
            self.overall_pass = false;
        } else if self.overall_pass {
            proof {
                lemma_set_passing_result(before, kind_name@);
            }
        }
    }

    /// Sets the boolean result of `kind_name`; a failure makes the report fail.
    pub fn add_boolean_result(&mut self, kind_name: String, passed: bool)
        requires
            old(self).well_formed(),
        ensures
            final(self).well_formed(),
            results_view(final(self).boolean_results@) == set_result(
                results_view(old(self).boolean_results@),
                kind_name@,
                passed,
            ),
            results_map(results_view(final(self).boolean_results@)) == results_map(
                results_view(old(self).boolean_results@),
            ).insert(kind_name@, passed),
            final(self).numeric_results == old(self).numeric_results,
            final(self).enum_results == old(self).enum_results,
            final(self).overall_pass == (old(self).overall_pass && passed),
    {
        let ghost before = results_view(self.boolean_results@);
        proof {
            lemma_results_view_distinct(self.boolean_results@);
            lemma_set_result_map(before, kind_name@, passed);
        }
        insert_result(&mut self.boolean_results, kind_name, passed);
        if !passed {
            self.overall_pass = false;
        } else if self.overall_pass {
            proof {
                lemma_set_passing_result(before, kind_name@);
            }
        }
    }

    /// Sets the enum result of `kind_name`; a failure makes the report fail.
    pub fn add_enum_result(&mut self, kind_name: String, passed: bool)
        requires
            old(self).well_formed(),
        ensures
            final(self).well_formed(),
            results_view(final(self).enum_results@) == set_result(
                results_view(old(self).enum_results@),
                kind_name@,
                passed,
            ),
            results_map(results_view(final(self).enum_results@)) == results_map(
                results_view(old(self).enum_results@),
            ).insert(kind_name@, passed),
            final(self).numeric_results == old(self).numeric_results,
            final(self).boolean_results == old(self).boolean_results,
            final(self).overall_pass == (old(self).overall_pass && passed),
    {
        let ghost before = results_view(self.enum_results@);
        proof {
            lemma_results_view_distinct(self.enum_results@);
            lemma_set_result_map(before, kind_name@, passed);
        }
        insert_result(&mut self.enum_results, kind_name, passed);
        if !passed {
            self.overall_pass = false;
        } else if self.overall_pass {
            proof {
                lemma_set_passing_result(before, kind_name@);
            }
        }
    }

    /// The report: overall status, then each kind with results, one marked line per type.
    pub fn generate_report(&self) -> (r: String)
        ensures
            r@ == coverage_report_text(*self),
    {
        let mut report = String::from_str("Coverage Threshold Report:\n");
        report.append("Overall Status: ");
        if self.overall_pass {
            report.append("PASS");
        } else {
            report.append("FAIL");
        }
        report.append("\n");
        append_results(&mut report, "\nNumeric Coverage:\n", &self.numeric_results);
        append_results(&mut report, "\nBoolean Coverage:\n", &self.boolean_results);
        append_results(&mut report, "\nEnum Coverage:\n", &self.enum_results);
        assert(report@ =~= coverage_report_text(*self));
        report
    }
}

impl Default for CoverageReport {
    fn default() -> (r: Self)
        ensures
            r.well_formed(),
            r.numeric_results@.len() == 0,
            r.boolean_results@.len() == 0,
            r.enum_results@.len() == 0,
            r.overall_pass,
    {
        CoverageReport::new()
    }
}

} // verus!
