use protest::error::PropertyError;
use protest::shrink::strategies;
use protest::shrink::{ShrinkConfig, ShrinkEngine, ShrinkResult, Shrinkable};
use protest::time::Duration;

fn too_large(message: String) -> PropertyError {
    PropertyError::PropertyFailed { message, context: None, iteration: None }
}

#[test]
fn test_shrink_result_creation() {
    let result = ShrinkResult::new(100, 5, 10, Duration::from_millis(500), true);

    assert_eq!(result.original, 100);
    assert_eq!(result.minimal, 5);
    assert_eq!(result.shrink_steps, 10);
    assert_eq!(result.shrink_duration, Duration::from_millis(500));
    assert!(result.completed);
}

#[test]
fn test_shrink_result_no_shrinking() {
    let result = ShrinkResult::no_shrinking(42);

    assert_eq!(result.original, 42);
    assert_eq!(result.minimal, 42);
    assert_eq!(result.shrink_steps, 0);
    assert_eq!(result.shrink_duration, Duration::from_secs(0));
    assert!(result.completed);
}

#[test]
fn test_shrink_config_defaults() {
    let config = ShrinkConfig::default();

    assert_eq!(config.max_iterations, 1000);
    assert_eq!(config.timeout, Duration::from_secs(10));
    assert!(!config.verbose);
}

#[test]
fn test_shrink_config_builders() {
    let config = ShrinkConfig::with_timeout(Duration::from_secs(5));
    assert_eq!(config.timeout, Duration::from_secs(5));
    assert_eq!(config.max_iterations, 1000);

    let config = ShrinkConfig::with_max_iterations(500);
    assert_eq!(config.max_iterations, 500);
    assert_eq!(config.timeout, Duration::from_secs(10));

    let config = ShrinkConfig::default().verbose();
    assert!(config.verbose);
}

#[test]
fn test_shrink_engine_creation() {
    let engine = ShrinkEngine::new();
    assert_eq!(engine.config.max_iterations, 1000);

    let custom_config = ShrinkConfig::with_max_iterations(500);
    let engine = ShrinkEngine::with_config(custom_config);
    assert_eq!(engine.config.max_iterations, 500);
}

#[test]
fn test_shrink_engine_basic_shrinking() {
    let engine = ShrinkEngine::new();

    let property = |x: &i32| {
        if *x > 10 {
            Err(too_large(format!("Value {} is too large", x)))
        } else {
            Ok(())
        }
    };

    let result = engine.shrink(100, property);

    assert_eq!(result.original, 100);
    assert!(result.minimal > 10);
    assert!(result.shrink_steps > 0);
    assert!(result.completed);
}

#[test]
fn test_shrink_engine_no_shrinking_needed() {
    let engine = ShrinkEngine::new();

    let property = |_x: &i32| Ok(());

    let result = engine.shrink(100, property);

    assert_eq!(result.original, 100);
    assert_eq!(result.minimal, 100);
    assert_eq!(result.shrink_steps, 0);
    assert!(result.completed);
}

#[test]
fn test_shrink_engine_max_iterations() {
    let config = ShrinkConfig::with_max_iterations(5);
    let engine = ShrinkEngine::with_config(config);

    let property = |_x: &i32| Err(too_large("Always fails".to_string()));

    let result = engine.shrink(100, property);

    assert_eq!(result.original, 100);
    assert!(result.shrink_steps <= 5);
    if result.shrink_steps == 5 {
        assert!(!result.completed);
    }
}

#[test]
fn test_shrink_engine_with_custom_strategy() {
    let engine = ShrinkEngine::new();

    let strategy = |x: &i32| if *x > 0 { vec![*x / 2] } else { Vec::new() };

    let property = |x: &i32| {
        if *x > 5 {
            Err(too_large(format!("Value {} is too large", x)))
        } else {
            Ok(())
        }
    };

    let result = engine.shrink_with_strategy(20, property, strategy);

    assert_eq!(result.original, 20);
    assert_eq!(result.minimal, 10);
    assert_eq!(result.shrink_steps, 1);
    assert!(result.completed);
}

#[test]
fn test_binary_search_shrink_strategy() {
    let shrunk: Vec<i32> = strategies::binary_search_shrink(&100, 0);

    assert!(!shrunk.is_empty());
    assert!(shrunk.contains(&0));

    for value in &shrunk {
        assert!(*value < 100);
        assert!(*value >= 0);
    }
}

#[test]
fn test_linear_shrink_strategy() {
    let shrunk: Vec<i32> = strategies::linear_shrink(&10, 2, 0);

    assert!(!shrunk.is_empty());

    let expected = vec![8, 6, 4, 2, 0];
    assert_eq!(shrunk, expected);
}

#[test]
fn test_collection_shrink_strategy() {
    let original = vec![1, 2, 3, 4];
    let shrunk: Vec<Vec<i32>> = strategies::collection_shrink(&original);

    assert!(!shrunk.is_empty());
    assert!(shrunk.contains(&vec![]));

    assert!(shrunk.contains(&vec![2, 3, 4]));
    assert!(shrunk.contains(&vec![1, 3, 4]));
    assert!(shrunk.contains(&vec![1, 2, 4]));
    assert!(shrunk.contains(&vec![1, 2, 3]));

    assert!(shrunk.contains(&vec![1, 2]));
    assert!(shrunk.contains(&vec![3, 4]));
}

#[test]
fn test_collection_shrink_empty() {
    let original: Vec<i32> = vec![];
    let shrunk: Vec<Vec<i32>> = strategies::collection_shrink(&original);

    assert!(shrunk.is_empty());
}

#[test]
fn test_collection_shrink_single_element() {
    let original = vec![42];
    let shrunk: Vec<Vec<i32>> = strategies::collection_shrink(&original);

    assert!(!shrunk.is_empty());
    assert!(shrunk.contains(&vec![]));
}

#[test]
fn test_shrinkable_trait_for_integers() {
    let value = 50;
    let shrunk: Vec<i32> = value.shrink();

    assert!(!shrunk.is_empty());
    assert!(shrunk.contains(&0));

    for shrunk_value in shrunk {
        assert!(shrunk_value < value);
    }
}

#[test]
fn test_shrinkable_trait_for_vectors() {
    let value = vec![1, 2, 3];
    let shrunk: Vec<Vec<i32>> = value.shrink();

    assert!(!shrunk.is_empty());
    assert!(shrunk.contains(&vec![]));

    for shrunk_vec in shrunk {
        assert!(shrunk_vec.len() <= value.len());
    }
}

#[test]
fn test_shrink_engine_integration_with_vectors() {
    let engine = ShrinkEngine::new();

    let property = |v: &Vec<i32>| {
        if v.len() > 2 {
            Err(too_large(format!("Vector too long: {}", v.len())))
        } else {
            Ok(())
        }
    };

    let original = vec![1, 2, 3, 4, 5];
    let result = engine.shrink(original.clone(), property);

    assert_eq!(result.original, original);
    assert!(result.minimal.len() > 2);
    assert!(result.minimal.len() < original.len());
    assert!(result.shrink_steps > 0);
    assert!(result.completed);
}

#[test]
fn test_shrink_result_clone() {
    let result = ShrinkResult::new(100, 5, 10, Duration::from_millis(500), true);

    let cloned = result.clone();
    assert_eq!(cloned.original, result.original);
    assert_eq!(cloned.minimal, result.minimal);
    assert_eq!(cloned.shrink_steps, result.shrink_steps);
    assert_eq!(cloned.shrink_duration, result.shrink_duration);
    assert_eq!(cloned.completed, result.completed);
}

#[test]
fn test_bool_shrinking() {
    let shrunk: Vec<bool> = true.shrink();
    assert_eq!(shrunk, vec![false]);

    let shrunk: Vec<bool> = false.shrink();
    assert!(shrunk.is_empty());
}

#[test]
fn test_char_shrinking() {
    let shrunk: Vec<char> = 'z'.shrink();
    assert!(!shrunk.is_empty());
    assert!(shrunk.contains(&'a'));

    for &c in &shrunk {
        assert!(c < 'z');
    }

    let shrunk: Vec<char> = 'a'.shrink();
    for &c in &shrunk {
        assert!(c < 'a');
    }
}

#[test]
fn test_string_shrinking() {
    let original = "hello".to_string();
    let shrunk: Vec<String> = original.shrink();

    assert!(!shrunk.is_empty());
    assert!(shrunk.contains(&String::new()));

    for s in &shrunk {
        assert!(s.len() <= original.len());
    }

    assert!(shrunk.iter().any(|s| s == "hell"));
    assert!(shrunk.iter().any(|s| s == "ello"));
}

#[test]
fn test_signed_integer_shrinking() {
    let shrunk: Vec<i32> = 100i32.shrink();
    assert!(!shrunk.is_empty());
    assert!(shrunk.contains(&0));

    for &val in &shrunk {
        assert!(val.abs() < 100);
    }

    let shrunk: Vec<i32> = (-50i32).shrink();
    assert!(!shrunk.is_empty());
    assert!(shrunk.contains(&0));

    assert!(shrunk.contains(&50));

    for &val in &shrunk {
        assert!(val.abs() <= 50);
    }
}

#[test]
fn test_unsigned_integer_shrinking() {
    let shrunk: Vec<u32> = 100u32.shrink();
    assert!(!shrunk.is_empty());
    assert!(shrunk.contains(&0));

    for &val in &shrunk {
        assert!(val < 100);
    }
}

#[test]
fn test_option_shrinking() {
    let original = Some(100i32);
    let shrunk: Vec<Option<i32>> = original.shrink();

    assert!(!shrunk.is_empty());
    assert!(shrunk.contains(&None));

    assert!(shrunk.iter().any(|opt| opt == &Some(0)));

    let shrunk: Vec<Option<i32>> = None.shrink();
    assert!(shrunk.is_empty());
}

#[test]
fn test_tuple_shrinking() {
    let original = (100i32, true);
    let shrunk: Vec<(i32, bool)> = original.shrink();

    assert!(!shrunk.is_empty());

    assert!(shrunk.iter().any(|(a, b)| *a == 0 && *b));

    assert!(shrunk.iter().any(|(a, b)| *a == 100 && !(*b)));
}

#[test]
fn test_triple_tuple_shrinking() {
    let original = (10i32, true, "hi".to_string());
    let shrunk: Vec<(i32, bool, String)> = original.shrink();

    assert!(!shrunk.is_empty());

    assert!(shrunk.iter().any(|(a, b, c)| *a == 0 && *b && c == "hi"));
    assert!(shrunk.iter().any(|(a, b, c)| *a == 10 && !(*b) && c == "hi"));
    assert!(shrunk.iter().any(|(a, b, c)| *a == 10 && *b && c.is_empty()));
}

#[test]
fn test_string_shrink_strategy() {
    let shrunk: Vec<String> = strategies::string_shrink("hello");

    assert!(!shrunk.is_empty());
    assert!(shrunk.contains(&String::new()));

    assert!(shrunk.contains(&"hell".to_string()));
    assert!(shrunk.contains(&"hel".to_string()));

    assert!(shrunk.contains(&"ello".to_string()));
    assert!(shrunk.contains(&"llo".to_string()));
}

#[test]
fn test_bool_shrink_strategy() {
    let shrunk: Vec<bool> = strategies::bool_shrink(&true);
    assert_eq!(shrunk, vec![false]);

    let shrunk: Vec<bool> = strategies::bool_shrink(&false);
    assert!(shrunk.is_empty());
}

#[test]
fn test_char_shrink_strategy() {
    let shrunk: Vec<char> = strategies::char_shrink(&'z');
    assert!(!shrunk.is_empty());

    assert!(shrunk.contains(&'a'));

    for &c in &shrunk {
        assert!(c < 'z');
    }
}

#[test]
fn test_signed_int_shrink_strategy() {
    let shrunk: Vec<i32> = strategies::signed_int_shrink(&100);
    assert!(!shrunk.is_empty());
    assert!(shrunk.contains(&0));

    let shrunk: Vec<i32> = strategies::signed_int_shrink(&-50);
    assert!(!shrunk.is_empty());
    assert!(shrunk.contains(&0));
    assert!(shrunk.contains(&50));
}

#[test]
fn test_unsigned_int_shrink_strategy() {
    let shrunk: Vec<u32> = strategies::unsigned_int_shrink(&100);
    assert!(!shrunk.is_empty());
    assert!(shrunk.contains(&0));

    for &val in &shrunk {
        assert!(val < 100);
    }
}

#[test]
fn test_comprehensive_shrinking_integration() {
    let engine = ShrinkEngine::new();

    let property = |data: &(i32, String, bool)| {
        let (num, text, flag) = data;
        if *num > 50 || text.len() > 3 || *flag {
            Err(too_large("Complex condition failed".to_string()))
        } else {
            Ok(())
        }
    };

    let original = (100, "hello".to_string(), true);
    let result = engine.shrink(original.clone(), property);

    assert_eq!(result.original, original);
    assert!(result.shrink_steps > 0);
    assert!(result.completed);

    let (min_num, min_text, min_flag) = &result.minimal;
    assert!(*min_num > 50 || min_text.len() > 3 || *min_flag);
}

#[test]
fn shrink_test_result_shrinking() {
    let ok_result: Result<i32, String> = Ok(100);
    let shrunk: Vec<Result<i32, String>> = ok_result.shrink();

    assert!(!shrunk.is_empty());
    assert!(shrunk.contains(&Ok(0)));

    let err_result: Result<i32, String> = Err("error message".to_string());
    let shrunk: Vec<Result<i32, String>> = err_result.shrink();

    assert!(!shrunk.is_empty());
    assert!(shrunk.contains(&Err(String::new())));
}

#[test]
fn test_four_tuple_shrinking() {
    let original = (10i32, true, "hi".to_string(), 5u32);
    let shrunk: Vec<(i32, bool, String, u32)> = original.shrink();

    assert!(!shrunk.is_empty());

    assert!(shrunk.iter().any(|(a, b, c, d)| *a == 0 && *b && c == "hi" && *d == 5));
    assert!(shrunk.iter().any(|(a, b, c, d)| *a == 10 && !(*b) && c == "hi" && *d == 5));
    assert!(shrunk.iter().any(|(a, b, c, d)| *a == 10 && *b && c.is_empty() && *d == 5));
    assert!(shrunk.iter().any(|(a, b, c, d)| *a == 10 && *b && c == "hi" && *d == 0));
}

#[test]
fn test_five_tuple_shrinking() {
    let original = (1i32, 2i32, 3i32, 4i32, 5i32);
    let shrunk: Vec<(i32, i32, i32, i32, i32)> = original.shrink();

    assert!(!shrunk.is_empty());

    assert!(shrunk.iter().any(|(a, b, c, d, e)| *a == 0 && *b == 2 && *c == 3 && *d == 4 && *e == 5));
    assert!(shrunk.iter().any(|(a, b, c, d, e)| *a == 1 && *b == 0 && *c == 3 && *d == 4 && *e == 5));
    assert!(shrunk.iter().any(|(a, b, c, d, e)| *a == 1 && *b == 2 && *c == 0 && *d == 4 && *e == 5));
    assert!(shrunk.iter().any(|(a, b, c, d, e)| *a == 1 && *b == 2 && *c == 3 && *d == 0 && *e == 5));
    assert!(shrunk.iter().any(|(a, b, c, d, e)| *a == 1 && *b == 2 && *c == 3 && *d == 4 && *e == 0));
}

#[test]
fn test_nested_vec_shrinking() {
    let original = vec![vec![1, 2, 3], vec![4, 5], vec![6, 7, 8, 9]];

    let shrunk: Vec<Vec<Vec<i32>>> = original.shrink();

    assert!(!shrunk.is_empty());

    assert!(shrunk.iter().any(|v| v.is_empty()));

    assert!(shrunk.iter().any(|v| v.len() == 2 && v[0] == vec![4, 5]));
    assert!(shrunk.iter().any(|v| v.len() == 2 && v[0] == vec![1, 2, 3]));

    assert!(shrunk.iter().any(|v| v.contains(&vec![])));
    assert!(shrunk.iter().any(|v| v.iter().any(|inner| inner.contains(&0))));
}

#[test]
fn test_coordinated_shrinking_strategies() {
    let original = (100i32, "hello".to_string());

    let field1_shrink = |tuple: &(i32, String)| {
        let mut candidates = Vec::new();
        for shrunk in tuple.0.shrink() {
            candidates.push((shrunk, tuple.1.clone()));
        }
        candidates
    };

    let field2_shrink = |tuple: &(i32, String)| {
        let mut candidates = Vec::new();
        for shrunk in tuple.1.shrink() {
            candidates.push((tuple.0, shrunk));
        }
        candidates
    };

    let shrunk: Vec<(i32, String)> =
        strategies::coordinated_field_shrink(&original, field1_shrink, field2_shrink);

    assert!(!shrunk.is_empty());

    assert!(shrunk.contains(&(0, "hello".to_string())));
    assert!(shrunk.contains(&(100, String::new())));

    assert!(shrunk.contains(&(0, String::new())));
}

#[derive(Clone, Debug, PartialEq)]
struct Node {
    value: i32,
    children: Vec<Node>,
}

fn node_candidates(node: &Node) -> Vec<Node> {
    let mut candidates = Vec::new();

    for shrunk_value in node.value.shrink() {
        candidates.push(Node { value: shrunk_value, children: node.children.clone() });
    }

    if !node.children.is_empty() {
        candidates.push(Node { value: node.value, children: Vec::new() });
        for i in 0..node.children.len() {
            let mut fewer = node.children.clone();
            fewer.remove(i);
            candidates.push(Node { value: node.value, children: fewer });
        }
    }

    candidates
}

#[test]
fn test_recursive_shrinking_strategy() {
    let original = Node {
        value: 10,
        children: vec![Node { value: 5, children: vec![] }, Node { value: 15, children: vec![] }],
    };

    let get_children = |node: &Node| node_candidates(node);

    let shrunk: Vec<Node> = strategies::recursive_shrink(&original, get_children);

    assert!(!shrunk.is_empty());

    assert!(shrunk.iter().any(|n| n.value == 0 && n.children.len() == 2));

    assert!(shrunk.iter().any(|n| n.value == 10 && n.children.is_empty()));
}

#[test]
fn test_tuple_coordinated_shrinking_strategy() {
    let original = (50i32, true);
    let shrunk: Vec<(i32, bool)> = strategies::tuple_shrink(&original);

    assert!(!shrunk.is_empty());

    assert!(shrunk.contains(&(0, true)));
    assert!(shrunk.contains(&(50, false)));

    assert!(shrunk.contains(&(0, false)));
}

#[test]
fn test_nested_collection_shrinking_strategy() {
    let original = vec![vec![1, 2], vec![3, 4, 5]];
    let shrunk: Vec<Vec<Vec<i32>>> = strategies::nested_collection_shrink(&original);

    assert!(!shrunk.is_empty());

    assert!(shrunk.contains(&vec![]));

    assert!(shrunk.contains(&vec![vec![3, 4, 5]]));
    assert!(shrunk.contains(&vec![vec![1, 2]]));

    assert!(shrunk.iter().any(|v| v.contains(&vec![])));
    assert!(shrunk.iter().any(|v| v.iter().any(|inner| inner.contains(&0))));
}

#[test]
fn shrink_of_zero_is_empty() {
    let shrunk: Vec<i32> = 0i32.shrink();
    assert!(shrunk.is_empty());
    let shrunk: Vec<u64> = 0u64.shrink();
    assert!(shrunk.is_empty());
}

#[test]
fn engine_minimal_still_fails_on_every_step_limit() {
    for limit in 0..8usize {
        let engine = ShrinkEngine::with_config(ShrinkConfig::with_max_iterations(limit));
        let property = |x: &i64| if *x >= 7 { Err(too_large(format!("{}", x))) } else { Ok(()) };
        let result = engine.shrink(1000i64, property);
        assert!(result.minimal >= 7);
        assert!(result.shrink_steps <= limit);
    }
}

#[test]
fn engine_reaches_boundary_when_complete() {
    let engine = ShrinkEngine::new();
    let property = |x: &u32| if *x >= 37 { Err(too_large(format!("{}", x))) } else { Ok(()) };
    let result = engine.shrink(5000u32, property);
    assert!(result.completed);
    assert!(result.minimal >= 37);
    for c in result.minimal.shrink() {
        assert!(c < 37);
    }
}

#[test]
fn set_shrink_removes_elements_and_halves() {
    let set: std::collections::BTreeSet<i32> = [1, 2, 3, 4].into_iter().collect();
    let c = protest::shrink::collections::set_shrink(&set);
    let as_vecs: Vec<Vec<i32>> = c.iter().map(|s| s.iter().cloned().collect()).collect();
    assert_eq!(
        as_vecs,
        vec![vec![], vec![2, 3, 4], vec![1, 3, 4], vec![1, 2, 4], vec![1, 2, 3], vec![1, 2], vec![3, 4]]
    );
    let small: std::collections::BTreeSet<i32> = [5].into_iter().collect();
    assert_eq!(protest::shrink::collections::set_shrink(&small).len(), 2);
}

#[test]
fn map_shrink_removes_entries_and_halves() {
    let map: std::collections::BTreeMap<u8, i32> = [(1, 10), (2, 20), (3, 30)].into_iter().collect();
    let c = protest::shrink::collections::map_shrink(&map);
    let as_vecs: Vec<Vec<(u8, i32)>> = c.iter().map(|m| m.iter().map(|(k, v)| (*k, *v)).collect()).collect();
    assert_eq!(
        as_vecs,
        vec![
            vec![],
            vec![(2, 20), (3, 30)],
            vec![(1, 10), (3, 30)],
            vec![(1, 10), (2, 20)],
            vec![(1, 10)],
            vec![(2, 20), (3, 30)],
        ]
    );
    let empty: std::collections::BTreeMap<u8, i32> = std::collections::BTreeMap::new();
    assert_eq!(protest::shrink::collections::map_shrink(&empty).len(), 1);
}
