//! Property-based testing: generators, shrinking, configuration and reports.

pub mod text;

pub mod time;
pub mod config;
pub mod coverage;
pub mod prim_int;
pub mod property;
pub mod performance;
pub mod persistence;
pub mod primitives;
pub mod ergonomic;
pub mod error;
pub mod execution;
pub mod generator;
pub mod rng;
pub mod shrink;

pub use config::{ConfigError, ConfigManager, GeneratorConfig, GlobalConfig, TestConfig};
pub use coverage::{CoverageStats, CoverageTracker, path_hash};
pub use error::{PropertyError, PropertyResult, TestFailure, TestSuccess};
pub use execution::{PropertyTest, check, check_with_config};
pub use generator::{ConstantGenerator, Generator, OneOfGenerator};
pub use performance::{LazyGenerator, ParallelConfig, ParallelPropertyTest, StreamingShrinkStrategy, lazy};
pub use persistence::{CorpusCase, FailureCase, PersistenceConfig};
pub use primitives::{
    ArrayGenerator, BTreeMapGenerator, BTreeSetGenerator, BoolGenerator, BoolStrategy, CharGenerator, CharStrategy, I32Strategy,
    HashMapGenerator, HashSetGenerator, IntGenerator, OptionGenerator, ResultGenerator, StringGenerator, StringStrategy,
    Tuple3Generator, Tuple4Generator, TupleGenerator, U32Strategy, UnitGenerator, VecGenerator,
};
pub use property::Property;
pub use rng::{DefaultRngProvider, RngManager, RngProvider, create_rng, create_seeded_rng};
pub use shrink::{ShrinkConfig, ShrinkEngine, ShrinkResult, Shrinkable};
pub use execution::stepped::{AsyncAction, AsyncPropertyTest};
pub use shrink::stepped::{AsyncShrinkEngine, AsyncShrinkRun, ShrinkAction};
pub use execution::builder::PropertyTestBuilder;
