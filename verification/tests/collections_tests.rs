use std::collections::{BTreeMap, BTreeSet, HashMap, HashSet};

use protest::config::GeneratorConfig;
use protest::generator::Generator;
use protest::primitives::{
    BTreeMapGenerator, BTreeSetGenerator, HashMapGenerator, HashSetGenerator, IntGenerator,
    StringGenerator,
};
use protest::rng::{create_rng, create_seeded_rng};
use protest::shrink::Shrinkable;

#[test]
fn test_hashmap_generator() {
    let key_gen = IntGenerator::new(1, 100);
    let value_gen = StringGenerator::ascii_alphanumeric(1, 5);
    let generator = HashMapGenerator::new(key_gen, value_gen, 1, 3);
    let mut rng = create_rng();
    let config = GeneratorConfig::default();

    for _ in 0..20 {
        let value = generator.generate(&mut rng, &config);
        assert!(!value.is_empty() && value.len() <= 3);
    }
}

#[test]
fn test_hashmap_structural_shrinking() {
    let key_gen = IntGenerator::new(1, 100);
    let value_gen = IntGenerator::new(1, 100);
    let generator = HashMapGenerator::new(key_gen, value_gen, 0, 5);

    let mut map = HashMap::new();
    map.insert(1, 10);
    map.insert(2, 20);
    map.insert(3, 30);

    let shrinks: Vec<HashMap<i32, i32>> = generator.shrink(&map);

    assert!(shrinks.iter().any(|m| m.is_empty()), "Should shrink to empty map");
    assert!(shrinks.iter().any(|m| m.len() < map.len()), "Should have smaller maps");
}

#[test]
fn test_hashmap_value_shrinking() {
    let key_gen = IntGenerator::new(1, 100);
    let value_gen = IntGenerator::new(0, 100);
    let generator = HashMapGenerator::new(key_gen, value_gen, 0, 5);

    let mut map = HashMap::new();
    map.insert(1, 100);
    map.insert(2, 50);

    let shrinks: Vec<HashMap<i32, i32>> = generator.shrink(&map);

    assert!(
        shrinks
            .iter()
            .any(|m| m.len() == map.len() && m.get(&1).map(|&v| v < 100).unwrap_or(false)),
        "Should shrink value at key 1"
    );
    assert!(
        shrinks
            .iter()
            .any(|m| m.len() == map.len() && m.get(&2).map(|&v| v < 50).unwrap_or(false)),
        "Should shrink value at key 2"
    );
}

#[test]
fn test_hashmap_key_shrinking() {
    let key_gen = IntGenerator::new(0, 100);
    let value_gen = IntGenerator::new(1, 10);
    let generator = HashMapGenerator::new(key_gen, value_gen, 0, 5);

    let mut map = HashMap::new();
    map.insert(100, 1);
    map.insert(50, 2);

    let shrinks: Vec<HashMap<i32, i32>> = generator.shrink(&map);

    assert!(
        shrinks
            .iter()
            .any(|m| m.len() == map.len() && m.contains_key(&25) && m.get(&25) == Some(&1)),
        "Should shrink key 100 to smaller values like 25"
    );
}

#[test]
fn test_hashmap_combined_shrinking() {
    let key_gen = IntGenerator::new(0, 100);
    let value_gen = IntGenerator::new(0, 100);
    let generator = HashMapGenerator::new(key_gen, value_gen, 0, 5);

    let mut map = HashMap::new();
    map.insert(80, 90);
    map.insert(40, 45);

    let shrinks: Vec<HashMap<i32, i32>> = generator.shrink(&map);

    assert!(shrinks.iter().any(|m| m.is_empty()), "Should have empty map");
    assert!(shrinks.iter().any(|m| m.len() == 1), "Should have single-entry map");
    assert!(
        shrinks
            .iter()
            .any(|m| m.len() == 2 && m.get(&80).map(|&v| v < 90).unwrap_or(false)),
        "Should shrink values"
    );
    let has_key_shrinks = shrinks.iter().any(|m| {
        m.len() == 2
            && ((m.contains_key(&80) && !m.contains_key(&40))
                || (!m.contains_key(&80) && m.contains_key(&40)))
    });
    assert!(has_key_shrinks, "Should have attempted to shrink keys");
}

#[test]
fn test_hashset_element_shrinking() {
    let elem_gen = IntGenerator::new(0, 100);
    let generator = HashSetGenerator::new(elem_gen, 0, 5);

    let mut set = HashSet::new();
    set.insert(100);
    set.insert(50);
    set.insert(25);

    let shrinks: Vec<HashSet<i32>> = generator.shrink(&set);

    assert!(shrinks.iter().any(|s| s.is_empty()), "Should shrink to empty set");
    assert!(shrinks.iter().any(|s| s.len() < set.len()), "Should have smaller sets");
    assert!(
        shrinks
            .iter()
            .any(|s| s.len() == set.len() && s.contains(&50) && s.contains(&25) && !s.contains(&100)),
        "Should shrink element 100 to smaller values"
    );
}

#[test]
fn test_hashset_generator() {
    let mut rng = create_rng();
    let config = GeneratorConfig::default();

    let generator = HashSetGenerator::new(IntGenerator::new(1, 100), 0, 10);
    let set = generator.generate(&mut rng, &config);

    assert!(set.len() <= 10);
    for elem in &set {
        assert!(*elem >= 1 && *elem <= 100);
    }
}

#[test]
fn test_btreemap_generator() {
    let mut rng = create_rng();
    let config = GeneratorConfig::default();

    let generator = BTreeMapGenerator::new(
        IntGenerator::new(1, 10),
        StringGenerator::ascii_printable(1, 5),
        0,
        5,
    );
    let map = generator.generate(&mut rng, &config);

    assert!(map.len() <= 5);
    for (key, value) in &map {
        assert!(*key >= 1 && *key <= 10);
        assert!(!value.is_empty() && value.len() <= 5);
    }
}

#[test]
fn test_btreeset_generator() {
    let mut rng = create_rng();
    let config = GeneratorConfig::default();

    let generator = BTreeSetGenerator::new(IntGenerator::new(1, 50), 0, 8);
    let set = generator.generate(&mut rng, &config);

    assert!(set.len() <= 8);
    for elem in &set {
        assert!(*elem >= 1 && *elem <= 50);
    }
}

#[test]
fn primitives_test_hashset_shrinking() {
    let generator = HashSetGenerator::new(IntGenerator::new(1, 100), 0, 10);

    let mut set = HashSet::new();
    set.insert(42);
    set.insert(43);
    set.insert(44);

    let shrinks: Vec<_> = generator.shrink(&set);

    assert!(shrinks.iter().any(|s| s.is_empty()));
}

#[test]
fn test_btreeset_generator_shrink_candidates_in_order() {
    let generator = BTreeSetGenerator::new(IntGenerator::new(0, 100), 0, 8);
    let set: BTreeSet<i32> = [10, 20, 30, 40].into_iter().collect();

    let shrinks = generator.shrink(&set);

    // The empty set, then the set without each of the first half of the elements.
    assert!(shrinks[0].is_empty());
    let without_10: BTreeSet<i32> = [20, 30, 40].into_iter().collect();
    let without_20: BTreeSet<i32> = [10, 30, 40].into_iter().collect();
    assert_eq!(shrinks[1], without_10);
    assert_eq!(shrinks[2], without_20);
    // Then replacements, which keep the size or lose one element when the candidate is
    // already there; none equals the original set.
    for s in &shrinks[3..] {
        assert!(s.len() == 4 || s.len() == 3);
        assert_ne!(s, &set);
    }
    let first_candidates = IntGenerator::new(0, 100).shrink(&10);
    let fresh: Vec<i32> = first_candidates.into_iter().filter(|c| *c != 10).collect();
    assert!(shrinks.len() >= 3 + fresh.len());
    let mut expected_first = set.clone();
    expected_first.remove(&10);
    expected_first.insert(fresh[0]);
    assert_eq!(shrinks[3], expected_first);
}

#[test]
fn test_btreemap_generator_shrinks_values_in_place() {
    let generator = BTreeMapGenerator::new(IntGenerator::new(0, 10), IntGenerator::new(0, 100), 0, 5);
    let mut map = BTreeMap::new();
    map.insert(1, 40);
    map.insert(2, 60);
    map.insert(3, 80);

    let shrinks = generator.shrink(&map);

    assert!(shrinks[0].is_empty());
    let mut without_first = map.clone();
    without_first.remove(&1);
    assert_eq!(shrinks[1], without_first);
    // Only the first half (one key of three) is removed; the rest change one value.
    for m in &shrinks[2..] {
        assert_eq!(m.len(), 3);
        let changed = m.iter().filter(|(k, v)| map.get(k) != Some(v)).count();
        assert_eq!(changed, 1);
    }
    let value_candidates = IntGenerator::new(0, 100).shrink(&40);
    assert_eq!(shrinks.len(), 2 + value_candidates.len()
        + IntGenerator::new(0, 100).shrink(&60).len()
        + IntGenerator::new(0, 100).shrink(&80).len());
}

#[test]
fn test_hashmap_generator_respects_min_size_when_shrinking() {
    let generator = HashMapGenerator::new(IntGenerator::new(0, 100), IntGenerator::new(0, 100), 2, 5);
    let mut map = HashMap::new();
    map.insert(1, 1);
    map.insert(2, 2);
    map.insert(3, 3);

    let shrinks = generator.shrink(&map);
    // Above the least size by one: the empty map, then one map without a key.
    assert!(shrinks[0].is_empty());
    assert_eq!(shrinks[1].len(), 2);
    assert!(shrinks[2..].iter().all(|m| !m.is_empty()));

    let at_min: HashMap<i32, i32> = [(1, 1), (2, 2)].into_iter().collect();
    let shrinks = generator.shrink(&at_min);
    assert!(shrinks.iter().all(|m| !m.is_empty()));
}

#[test]
fn test_seeded_collection_generation_is_reproducible() {
    let config = GeneratorConfig::default();
    let generator = BTreeSetGenerator::new(IntGenerator::new(0, 1000), 2, 6);
    let a = generator.generate(&mut create_seeded_rng(7), &config);
    let b = generator.generate(&mut create_seeded_rng(7), &config);
    assert_eq!(a, b);
}

#[test]
fn test_btreeset_shrinking() {
    let mut original = BTreeSet::new();
    original.insert(10i32);
    original.insert(20i32);
    original.insert(30i32);

    let shrunk: Vec<BTreeSet<i32>> = original.shrink();

    assert!(!shrunk.is_empty());
    assert!(shrunk.iter().any(|s| s.is_empty()));
    assert!(shrunk.iter().any(|s| s.len() == 2 && !s.contains(&10)));
    assert!(shrunk.iter().any(|s| s.len() == 2 && !s.contains(&20)));
    assert!(shrunk.iter().any(|s| s.len() == 2 && !s.contains(&30)));
    assert!(shrunk.iter().any(|s| s.contains(&0)));
}

#[test]
fn test_btreemap_shrinking() {
    let mut original = BTreeMap::new();
    original.insert(1i32, "value1".to_string());
    original.insert(2i32, "value2".to_string());
    original.insert(3i32, "value3".to_string());

    let shrunk: Vec<BTreeMap<i32, String>> = original.shrink();

    assert!(!shrunk.is_empty());
    assert!(shrunk.iter().any(|m| m.is_empty()));
    assert!(shrunk.iter().any(|m| m.len() == 2 && !m.contains_key(&1)));
    assert!(shrunk.iter().any(|m| m.len() == 2 && !m.contains_key(&2)));
    assert!(shrunk.iter().any(|m| m.len() == 2 && !m.contains_key(&3)));
    assert!(shrunk.iter().any(|m| m.get(&1) == Some(&String::new())));
    assert!(shrunk.iter().any(|m| m.get(&2) == Some(&String::new())));
    assert!(shrunk.iter().any(|m| m.get(&3) == Some(&String::new())));
}

#[test]
fn test_btreeset_shrink_order_and_halves() {
    let original: BTreeSet<u8> = [1u8, 2, 3, 4].into_iter().collect();
    let shrunk: Vec<BTreeSet<u8>> = original.shrink();

    // The empty set, then the set without each element in ascending order.
    assert!(shrunk[0].is_empty());
    for (i, x) in [1u8, 2, 3, 4].iter().enumerate() {
        let mut expected = original.clone();
        expected.remove(x);
        assert_eq!(shrunk[1 + i], expected);
    }
    // The last two candidates are the lower and the upper half.
    let n = shrunk.len();
    let lower: BTreeSet<u8> = [1u8, 2].into_iter().collect();
    let upper: BTreeSet<u8> = [3u8, 4].into_iter().collect();
    assert_eq!(shrunk[n - 2], lower);
    assert_eq!(shrunk[n - 1], upper);
    // Replacements never bring in an element the set already holds.
    for s in &shrunk[5..n - 2] {
        assert_eq!(s.len(), 4);
    }
}

#[test]
fn test_small_sets_have_no_halves() {
    let two: HashSet<i64> = [5i64, 9].into_iter().collect();
    let shrunk: Vec<HashSet<i64>> = two.shrink();
    assert!(shrunk[0].is_empty());
    assert!(shrunk.iter().all(|s| s.len() <= 2));
    assert!(shrunk.iter().filter(|s| s.len() == 1).count() == 2);

    let empty: HashSet<i64> = HashSet::new();
    assert!(empty.shrink().is_empty());
}

#[test]
fn test_hashmap_shrinkable_moves_keys_and_values() {
    let mut original: HashMap<u32, u32> = HashMap::new();
    original.insert(4, 40);
    original.insert(8, 80);
    original.insert(12, 120);

    let shrunk: Vec<HashMap<u32, u32>> = original.shrink();

    assert!(shrunk[0].is_empty());
    for k in [4u32, 8, 12] {
        assert!(shrunk.iter().any(|m| m.len() == 2 && !m.contains_key(&k)));
        assert!(shrunk.iter().any(|m| m.len() == 3 && m.get(&k) == Some(&0)));
    }
    // A moved entry keeps its value under a smaller key that was free.
    assert!(shrunk
        .iter()
        .any(|m| m.len() == 3 && !m.contains_key(&12) && m.values().any(|v| *v == 120)));
    // With three entries, the last two candidates split the keys in two.
    let n = shrunk.len();
    assert_eq!(shrunk[n - 2].len() + shrunk[n - 1].len(), 3);
    assert_eq!(shrunk[n - 2].len(), 1);
}
