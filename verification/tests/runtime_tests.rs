use protest::coverage::{hash_string, path_hash, CoverageTracker};
use protest::performance::{
    first_failure, lazy, thread_plan, thread_seed, LazyGenerator, ParallelConfig,
    StreamingShrinkStrategy,
};
use protest::persistence::{failure_file_name, CorpusCase, FailureCase, PersistenceConfig};
use protest::rng::{
    create_rng, create_seeded_rng, DefaultRngProvider, RngManager, RngProvider, RngWrapper,
    TestRngProvider,
};
use protest::config::GeneratorConfig;
use protest::generator::{ConstantGenerator, Generator};
use protest::primitives::IntGenerator;
use rand::RngCore;

#[test]
fn test_coverage_tracker() {
    let mut tracker = CoverageTracker::new();

    tracker.record_path("input1", 123);
    tracker.record_path("input1", 456);
    tracker.record_path("input2", 123);

    assert_eq!(tracker.unique_paths(), 2);
}

#[test]
fn test_path_hash() {
    let hash1 = path_hash(&[1, 2, 3]);
    let hash2 = path_hash(&[1, 2, 3]);
    let hash3 = path_hash(&[3, 2, 1]);

    assert_eq!(hash1, hash2);
    assert_ne!(hash1, hash3);
}

#[test]
fn test_hash_string() {
    let h1 = hash_string("test");
    let h2 = hash_string("test");
    let h3 = hash_string("different");

    assert_eq!(h1, h2);
    assert_ne!(h1, h3);
}

#[test]
fn hash_string_is_lowercase_hex() {
    let h = hash_string("anything");
    assert!(!h.is_empty());
    assert!(h.len() <= 16);
    assert!(h.chars().all(|c| c.is_ascii_digit() || ('a'..='f').contains(&c)));
}

#[test]
fn coverage_tracker_new_coverage_and_order() {
    let mut tracker = CoverageTracker::new();
    tracker.record_path("a", 1);
    tracker.record_path("b", 1);
    tracker.record_path("b", 2);
    tracker.record_path("b", 2);
    tracker.record_path("c", 3);

    assert_eq!(tracker.unique_paths(), 3);
    assert!(tracker.has_new_coverage("a"));
    assert!(tracker.has_new_coverage("b"));
    assert!(tracker.has_new_coverage("c"));
    assert!(!tracker.has_new_coverage("missing"));

    let ranked = tracker.inputs_by_coverage();
    assert_eq!(ranked[0], ("b".to_string(), 2));
    assert_eq!(ranked.len(), 3);

    tracker.reset();
    assert_eq!(tracker.unique_paths(), 0);
    assert!(tracker.inputs_by_coverage().is_empty());
    assert!(!tracker.has_new_coverage("a"));
}

#[test]
fn coverage_tracker_only_first_finder_discovers() {
    let mut tracker = CoverageTracker::new();
    tracker.record_path("a", 1);
    assert!(tracker.has_new_coverage("a"));
    assert!(!tracker.has_new_coverage("never_recorded"));
    tracker.record_path("b", 1);
    assert!(!tracker.has_new_coverage("b"));
    tracker.record_path("b", 9);
    assert!(tracker.has_new_coverage("b"));
}

#[test]
fn test_parallel_config_default() {
    let config = ParallelConfig::default();
    assert!(config.enabled);
    assert!(config.num_threads > 0);
    assert_eq!(config.batch_size, 10);
}

#[test]
fn test_streaming_shrink_strategy() {
    let mut strategy = StreamingShrinkStrategy::<i32>::new(1);

    assert!(strategy.within_memory_limit(1024));

    strategy.update_memory_usage(1024);
    assert!(!strategy.within_memory_limit(1024 * 1024));

    strategy.reset_memory_usage();
    assert!(strategy.within_memory_limit(1024 * 1024));
}

#[test]
fn thread_plan_splits_all_iterations() {
    assert_eq!(thread_plan(10, 3), vec![4, 3, 3]);
    assert_eq!(thread_plan(2, 4), vec![1, 1]);
    let plan = thread_plan(1001, 7);
    assert_eq!(plan.iter().sum::<usize>(), 1001);
}

#[test]
fn thread_seeds_differ_per_thread() {
    assert_eq!(thread_seed(100, 0), 100);
    assert_eq!(thread_seed(100, 3), 103);
    assert_eq!(thread_seed(u64::MAX, 1), 0);
}

#[test]
fn first_failure_of_no_results_is_success() {
    let results: Vec<Result<protest::TestSuccess<i32>, protest::TestFailure<i32>>> = Vec::new();
    let outcome = first_failure(results, protest::TestConfig::default());
    assert!(outcome.is_ok());
}

#[test]
fn test_default_rng_provider() {
    let provider = DefaultRngProvider;

    let mut rng1 = provider.create_rng(None);
    let mut rng2 = provider.create_rng(None);

    let _val1: u32 = rng1.next_u32();
    let _val2: u32 = rng2.next_u32();

    let mut rng3 = provider.create_rng(Some(12345));
    let mut rng4 = provider.create_rng(Some(12345));

    let val3: u32 = rng3.next_u32();
    let val4: u32 = rng4.next_u32();
    assert_eq!(val3, val4);
}

#[test]
fn test_rng_manager() {
    let provider = DefaultRngProvider;
    let manager = RngManager::new(provider);

    let mut rng = manager.get_rng();
    let _value: u32 = rng.next_u32();

    let mut seeded_rng = manager.create_seeded_rng(42);
    let seeded_value: u32 = seeded_rng.next_u32();

    let mut seeded_rng2 = manager.create_seeded_rng(42);
    let seeded_value2: u32 = seeded_rng2.next_u32();

    assert_eq!(seeded_value, seeded_value2);
}

#[test]
fn test_rng_manager_with_seed() {
    let provider = DefaultRngProvider;
    let manager = RngManager::with_seed(provider, 999);

    assert_eq!(manager.seed(), Some(999));

    let mut rng1 = manager.get_rng();
    let mut rng2 = manager.get_rng();

    let val1: u32 = rng1.next_u32();
    let val2: u32 = rng2.next_u32();

    assert_eq!(val1, val2);
}

#[test]
fn test_test_rng_provider() {
    let provider = TestRngProvider::new(777);

    let mut rng1 = provider.create_rng(None);
    let mut rng2 = provider.create_rng(None);

    let val1: u32 = rng1.next_u32();
    let val2: u32 = rng2.next_u32();

    assert_eq!(val1, val2);

    let mut rng3 = provider.create_rng(Some(888));
    let val3: u32 = rng3.next_u32();

    assert_ne!(val1, val3);
}

#[test]
fn test_rng_wrapper() {
    let base_rng = create_seeded_rng(12345);
    let mut wrapper = RngWrapper::new(base_rng);

    let _value = wrapper.inner_mut().next_u32();
    let _value = wrapper.inner_mut().next_u64();

    let mut bytes = [0u8; 10];
    wrapper.inner_mut().fill_bytes(&mut bytes);

    let _inner = wrapper.inner();
    let _inner_mut = wrapper.inner_mut();
}

#[test]
fn test_global_rng_functions() {
    let mut rng = create_rng();
    let _value: u32 = rng.next_u32();

    let mut seeded_rng1 = create_seeded_rng(555);
    let mut seeded_rng2 = create_seeded_rng(555);

    let val1: u32 = seeded_rng1.next_u32();
    let val2: u32 = seeded_rng2.next_u32();

    assert_eq!(val1, val2);
}

#[test]
fn test_rng_manager_clone() {
    let provider = DefaultRngProvider;
    let manager1 = RngManager::with_seed(provider, 123);
    let manager2 = manager1.clone();

    assert_eq!(manager1.seed(), manager2.seed());

    let mut rng1 = manager1.get_rng();
    let mut rng2 = manager2.get_rng();

    let val1: u32 = rng1.next_u32();
    let val2: u32 = rng2.next_u32();

    assert_eq!(val1, val2);
}

#[test]
fn test_rng_manager_set_seed() {
    let provider = DefaultRngProvider;
    let mut manager = RngManager::new(provider);

    assert_eq!(manager.seed(), None);

    manager.set_seed(Some(456));
    assert_eq!(manager.seed(), Some(456));

    manager.set_seed(None);
    assert_eq!(manager.seed(), None);
}

#[test]
fn failure_case_metadata_replaces_keys() {
    let case = FailureCase::new(42, "input".to_string(), "boom".to_string(), 3)
        .with_metadata("k".to_string(), "v1".to_string())
        .with_metadata("other".to_string(), "x".to_string())
        .with_metadata("k".to_string(), "v2".to_string());
    assert_eq!(case.seed, 42);
    assert_eq!(case.shrink_steps, 3);
    assert_eq!(case.metadata.len(), 2);
    assert!(case.metadata.iter().any(|(k, v)| k == "k" && v == "v2"));
    assert_eq!(failure_file_name(42), "failure_seed_42.json");
}

#[test]
fn persistence_config_builders() {
    let config = PersistenceConfig::default();
    assert!(!config.persist_failures);
    assert!(config.replay_failures);
    let config = PersistenceConfig::default().with_failure_dir("out").enable_persistence();
    assert!(config.persist_failures);
    assert!(!config.use_corpus);
    assert_eq!(config.failure_dir, "out");
    let corpus = CorpusCase::new("abc".to_string(), "new path".to_string());
    assert!(corpus.file_name().starts_with("corpus_"));
    assert!(corpus.file_name().ends_with(".json"));
}

#[test]
fn test_lazy_generator() {
    let lazy_gen = lazy(|| ConstantGenerator::new(42));
    let mut rng = protest::rng::create_rng();
    let config = GeneratorConfig::default();

    let value = lazy_gen.generate(&mut rng, &config);
    assert_eq!(value, 42);

    let shrinks: Vec<_> = lazy_gen.shrink(&value);
    assert!(shrinks.is_empty());
}

#[test]
fn test_lazy_generator_makes_its_generator_on_each_use() {
    let made = std::cell::Cell::new(0);
    let lazy_gen = LazyGenerator::new(|| {
        made.set(made.get() + 1);
        IntGenerator::new(0, 10)
    });
    let mut rng = protest::rng::create_seeded_rng(3);
    let config = GeneratorConfig::default();
    let value = lazy_gen.generate(&mut rng, &config);
    assert!((0..=10).contains(&value));
    assert_eq!(made.get(), 1);
    let shrinks = lazy_gen.shrink(&10);
    assert_eq!(made.get(), 2);
    assert_eq!(shrinks, IntGenerator::new(0, 10).shrink(&10));
}

#[test]
fn test_providers_give_the_generator_of_the_seed() {
    let mut expected = create_seeded_rng(31);
    let want: Vec<u64> = (0..4).map(|_| expected.next_u64()).collect();

    let mut from_manager = RngManager::with_seed(DefaultRngProvider, 31).get_rng();
    let mut from_request = RngManager::new(DefaultRngProvider).create_seeded_rng(31);
    let mut from_test_base = TestRngProvider::new(31).create_random_rng();
    for w in want {
        assert_eq!(from_manager.next_u64(), w);
        assert_eq!(from_request.next_u64(), w);
        assert_eq!(from_test_base.next_u64(), w);
    }
}

#[test]
fn test_corpus_cache_keeps_cases_in_order() {
    let mut cache = protest::persistence::CorpusCache::new();
    assert!(cache.cases.is_empty());
    cache.record(CorpusCase::new("a".to_string(), "first".to_string()));
    cache.record(CorpusCase::new("b".to_string(), "second".to_string()));
    assert_eq!(cache.cases.len(), 2);
    assert_eq!(cache.cases[0].input, "a");
    assert_eq!(cache.cases[1].reason, "second");
    cache.clear();
    assert!(cache.cases.is_empty());
}
