use protest::config::TestConfig;
use protest::ergonomic::patterns::{
    associative, commutative, distributive, has_identity, idempotent, inverse, monotonic_decreasing,
    monotonic_increasing, round_trip,
};
use protest::ergonomic::{
    check_with_closure, check_with_closure_config, property, ErgonomicPropertyTest,
};
use protest::execution::check;
use protest::primitives::{IntGenerator, Tuple3Generator, TupleGenerator};

#[test]
fn test_property_macro_basic() {
    let result = check_with_closure(IntGenerator::new(1, 10), |x: i32| x > 0);
    assert!(result.is_ok());
}

#[test]
fn test_property_macro_with_iterations() {
    let result = check_with_closure_config(
        IntGenerator::new(1, 10),
        |x: i32| x > 0,
        TestConfig { iterations: 50, ..TestConfig::default() },
    );
    assert!(result.is_ok());
}

#[test]
fn test_property_macro_with_seed() {
    let result = check_with_closure_config(
        IntGenerator::new(1, 10),
        |x: i32| x > 0,
        TestConfig { seed: Some(42), ..TestConfig::default() },
    );
    assert!(result.is_ok());
}

#[test]
fn test_property_macro_with_both() {
    let result = check_with_closure_config(
        IntGenerator::new(1, 10),
        |x: i32| x > 0,
        TestConfig { iterations: 25, seed: Some(123), ..TestConfig::default() },
    );
    assert!(result.is_ok());
}

#[test]
fn test_assert_property_passing() {
    let result = check_with_closure(IntGenerator::new(1, 10), |x: i32| x > 0);
    if let Err(failure) = result {
        panic!("Property assertion failed: {}", failure.error.to_string());
    }
}

#[test]
fn test_assert_property_with_message() {
    let result = check_with_closure(IntGenerator::new(1, 10), |x: i32| x > 0);
    if let Err(failure) = result {
        panic!(
            "{}: {}",
            "Positive numbers should be greater than zero",
            failure.error.to_string()
        );
    }
}

#[test]
#[should_panic(expected = "Property assertion failed")]
fn test_assert_property_failing() {
    let result = check_with_closure(IntGenerator::new(1, 100), |x: i32| x < 50);
    if let Err(failure) = result {
        panic!("Property assertion failed: {}", failure.error.to_string());
    }
}

#[test]
fn test_closure_property_bool_return() {
    let result = check_with_closure(IntGenerator::new(1, 10), |x: i32| x > 0);
    assert!(result.is_ok());
}

#[test]
fn test_closure_property_with_operations() {
    let result = check_with_closure(IntGenerator::new(-100, 100), |x: i32| x.abs() >= 0);
    assert!(result.is_ok());
}

#[test]
fn test_closure_property_failing_case() {
    let result = check_with_closure(IntGenerator::new(1, 100), |x: i32| x < 50);
    assert!(result.is_err());
}

#[test]
fn test_closure_property_with_config() {
    let config = TestConfig { iterations: 10, seed: Some(42), ..TestConfig::default() };

    let result = check_with_closure_config(IntGenerator::new(1, 10), |x: i32| x > 0, config);
    assert!(result.is_ok());
}

#[test]
fn test_commutative_addition() {
    let property = commutative(|a: i32, b: i32| a.wrapping_add(b));
    let tuple_gen = TupleGenerator::new(IntGenerator::<i32>::full_range(), IntGenerator::<i32>::full_range());
    let result = check(tuple_gen, property);
    assert!(result.is_ok());
}

#[test]
fn test_associative_addition() {
    let property = associative(|a: i32, b: i32| a.wrapping_add(b));
    let tuple_gen = Tuple3Generator::new(
        IntGenerator::<i32>::full_range(),
        IntGenerator::<i32>::full_range(),
        IntGenerator::<i32>::full_range(),
    );
    let result = check(tuple_gen, property);
    assert!(result.is_ok());
}

#[test]
fn test_idempotent_abs() {
    let property = idempotent(|x: i32| x.abs());
    let result = check(IntGenerator::new(-100, 100), property);
    assert!(result.is_ok());
}

#[test]
fn test_round_trip_string_conversion() {
    let property = round_trip(|x: i32| x.to_string(), |s: String| s.parse::<i32>().unwrap());
    let result = check(IntGenerator::new(-100, 100), property);
    assert!(result.is_ok());
}

#[test]
fn test_identity_addition() {
    let property = has_identity(|a: i32, b: i32| a.wrapping_add(b), 0);
    let result = check(IntGenerator::new(-100, 100), property);
    assert!(result.is_ok());
}

#[test]
fn subtraction_is_not_commutative() {
    let property = commutative(|a: i32, b: i32| a.wrapping_sub(b));
    let tuple_gen = TupleGenerator::new(IntGenerator::new(1, 100), IntGenerator::new(101, 200));
    let result = check(tuple_gen, property);
    assert!(result.is_err());
}

#[test]
fn negation_is_its_own_inverse() {
    let property = inverse(|x: i64| -x, |x: i64| -x);
    let result = check(IntGenerator::new(-1000, 1000), property);
    assert!(result.is_ok());
}

#[test]
fn multiplication_distributes_over_addition() {
    let property = distributive(|a: i64, b: i64| a * b, |a: i64, b: i64| a + b);
    let tuple_gen = Tuple3Generator::new(
        IntGenerator::new(-100, 100),
        IntGenerator::new(-100, 100),
        IntGenerator::new(-100, 100),
    );
    let result = check(tuple_gen, property);
    assert!(result.is_ok());
}

#[test]
fn monotonic_patterns() {
    let up = monotonic_increasing(|x: i32| x.wrapping_mul(1));
    let tuple_gen = TupleGenerator::new(IntGenerator::new(-50, 50), IntGenerator::new(-50, 50));
    assert!(check(tuple_gen, up).is_ok());

    let down = monotonic_decreasing(|x: i32| -x);
    let tuple_gen = TupleGenerator::new(IntGenerator::new(-50, 50), IntGenerator::new(-50, 50));
    assert!(check(tuple_gen, down).is_ok());

    let wrong = monotonic_decreasing(|x: i32| x);
    let tuple_gen = TupleGenerator::new(IntGenerator::new(-50, -1), IntGenerator::new(1, 50));
    assert!(check(tuple_gen, wrong).is_err());
}

#[test]
fn failure_is_shrunk_to_boundary() {
    let result = check_with_closure(IntGenerator::new(1, 1000), |x: i32| x < 50);
    match result {
        Err(failure) => {
            assert!(failure.original_input >= 50);
            let shrunk = failure.shrunk_input.unwrap();
            assert!(shrunk >= 50 && shrunk <= failure.original_input);
        }
        Ok(_) => panic!("the property fails on most inputs"),
    }
}

#[test]
fn test_builder_basic() {
    let result = ErgonomicPropertyTest::<i32>::new()
        .iterations(10)
        .run_with(IntGenerator::new(1, 100), |x: i32| x > 0);
    assert!(result.is_ok());
}

#[test]
fn test_builder_with_seed() {
    let result = ErgonomicPropertyTest::<i32>::new()
        .iterations(10)
        .seed(42)
        .run_with(IntGenerator::new(1, 100), |x: i32| x > 0);
    assert!(result.is_ok());
}

#[test]
fn test_property_function_basic() {
    let result = property(|x: i32| x >= 0)
        .iterations(10)
        .run_with(IntGenerator::new(0, 100));
    assert!(result.is_ok());
}

#[test]
fn test_property_function_with_seed() {
    let result = property(|x: i32| x.abs() >= 0)
        .iterations(10)
        .seed(123)
        .run_with(IntGenerator::new(-100, 100));
    assert!(result.is_ok());
}

#[test]
fn test_builder_config_chaining() {
    let result = ErgonomicPropertyTest::<i32>::new()
        .iterations(20)
        .seed(42)
        .max_shrink_iterations(100)
        .size_hint(5)
        .max_depth(3)
        .run_with(IntGenerator::new(1, 50), |x: i32| x > 0);
    assert!(result.is_ok());
}

#[test]
fn test_property_failing_case() {
    let result = property(|x: i32| x < 50)
        .iterations(10)
        .run_with(IntGenerator::new(1, 100));
    assert!(result.is_err());
}

#[test]
fn test_builder_records_its_configuration() {
    let test = ErgonomicPropertyTest::<i32>::default()
        .iterations(7)
        .seed(9)
        .max_shrink_iterations(3)
        .size_hint(4)
        .max_depth(2);
    assert_eq!(test.config.iterations, 7);
    assert_eq!(test.config.seed, Some(9));
    assert_eq!(test.config.max_shrink_iterations, 3);
    assert_eq!(test.config.generator_config.size_hint, 4);
    assert_eq!(test.config.generator_config.max_depth, 2);

    let failure = property(|x: i32| x < 50)
        .iterations(200)
        .seed(5)
        .run_with(IntGenerator::new(1, 100))
        .unwrap_err();
    assert_eq!(failure.config.iterations, 200);
    assert!(failure.original_input >= 50);
    let shrunk = failure.shrunk_input.unwrap_or(failure.original_input);
    assert!(shrunk >= 50);
}

#[test]
fn identity_is_checked_on_the_right() {
    // op(a, b) = a has every value as a right identity, though not as a left one.
    let property = has_identity(|a: i32, _b: i32| a, 0);
    assert!(check(IntGenerator::new(1, 100), property).is_ok());
    let property = has_identity(|a: i32, b: i32| a.wrapping_sub(b), 0);
    assert!(check(IntGenerator::new(-100, 100), property).is_ok());
    let property = has_identity(|a: i32, b: i32| a.wrapping_add(b), 1);
    assert!(check(IntGenerator::new(-100, 100), property).is_err());
}
