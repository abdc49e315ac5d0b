use protest::config::GeneratorConfig;
use protest::generator::{ConstantGenerator, Generator, OneOfGenerator};
use protest::primitives::{
    ArrayGenerator, BoolGenerator, CharGenerator, IntGenerator, OptionGenerator, ResultGenerator,
    StringGenerator, TupleGenerator, UnitGenerator, VecGenerator,
};
use protest::rng::{create_rng, create_seeded_rng};

#[test]
fn test_bool_generator() {
    let generator = BoolGenerator;
    let mut rng = create_rng();
    let config = GeneratorConfig::default();

    for _ in 0..10 {
        let _value = generator.generate(&mut rng, &config);
    }

    let shrinks_true: Vec<_> = generator.shrink(&true);
    assert_eq!(shrinks_true, vec![false]);

    let shrinks_false: Vec<_> = generator.shrink(&false);
    assert!(shrinks_false.is_empty());
}

#[test]
fn test_int_generator() {
    let generator = IntGenerator::new(1, 10);
    let mut rng = create_rng();
    let config = GeneratorConfig::default();

    for _ in 0..20 {
        let value = generator.generate(&mut rng, &config);
        assert!((1..=10).contains(&value));
    }

    let shrinks: Vec<_> = generator.shrink(&5);
    assert!(!shrinks.is_empty());
    assert!(shrinks.iter().all(|&x| (1..5).contains(&x)));
}

#[test]
fn test_char_generator() {
    let generator = CharGenerator::ascii_alphanumeric();
    let mut rng = create_rng();
    let config = GeneratorConfig::default();

    for _ in 0..20 {
        let value = generator.generate(&mut rng, &config);
        assert!(value.is_ascii_alphanumeric());
    }
}

#[test]
fn test_string_generator() {
    let generator = StringGenerator::ascii_alphanumeric(2, 10);
    let mut rng = create_rng();
    let config = GeneratorConfig::default();

    for _ in 0..20 {
        let value = generator.generate(&mut rng, &config);
        assert!(value.len() >= 2 && value.len() <= 10);
        assert!(value.chars().all(|c| c.is_ascii_alphanumeric()));
    }

    let test_string = "hello".to_string();
    let shrinks: Vec<_> = generator.shrink(&test_string);
    assert!(!shrinks.is_empty());
}

#[test]
fn test_vec_generator() {
    let element_gen = IntGenerator::new(1, 100);
    let generator = VecGenerator::new(element_gen, 1, 5);
    let mut rng = create_rng();
    let config = GeneratorConfig::default();

    for _ in 0..20 {
        let value = generator.generate(&mut rng, &config);
        assert!(!value.is_empty() && value.len() <= 5);
        assert!(value.iter().all(|&x| (1..=100).contains(&x)));
    }

    let test_vec = vec![1, 2, 3, 4, 5];
    let shrinks: Vec<_> = generator.shrink(&test_vec);
    assert!(!shrinks.is_empty());
}

#[test]
fn test_unit_generator() {
    let mut rng = create_rng();
    let config = GeneratorConfig::default();

    let generator = UnitGenerator;
    generator.generate(&mut rng, &config);
}

#[test]
fn test_full_range_generators() {
    let i32_gen = IntGenerator::<i32>::full_range();

    let mut rng = create_rng();
    let config = GeneratorConfig::default();

    let _int_val = i32_gen.generate(&mut rng, &config);
}

#[test]
fn test_constant_generator() {
    let generator = ConstantGenerator::new(42);
    let mut rng = create_rng();
    let config = GeneratorConfig::default();

    for _ in 0..10 {
        let value = generator.generate(&mut rng, &config);
        assert_eq!(value, 42);
    }

    let shrinks: Vec<_> = generator.shrink(&42);
    assert!(shrinks.is_empty());
}

#[test]
fn test_one_of_generator() {
    let values = vec![1, 2, 3, 4, 5];
    let generator = OneOfGenerator::new(values.clone());
    let mut rng = create_rng();
    let config = GeneratorConfig::default();

    for _ in 0..20 {
        let value = generator.generate(&mut rng, &config);
        assert!(values.contains(&value));
    }
}

#[test]
fn test_string_shrinks_to_simple_strings() {
    let generator = StringGenerator::ascii_printable(0, 10);
    let test_string = "complex".to_string();

    let shrinks: Vec<String> = generator.shrink(&test_string);

    assert!(shrinks.contains(&"".to_string()), "Should shrink to empty string");
    assert!(shrinks.contains(&"a".to_string()), "Should shrink to 'a'");
    assert!(shrinks.contains(&"test".to_string()), "Should shrink to 'test'");
}

#[test]
fn test_string_character_simplification() {
    let generator = StringGenerator::ascii_printable(0, 10);
    let test_string = "ZXY".to_string();

    let shrinks: Vec<String> = generator.shrink(&test_string);

    assert!(
        shrinks.contains(&"zXY".to_string())
            || shrinks.contains(&"ZxY".to_string())
            || shrinks.contains(&"ZXy".to_string()),
        "Should shrink some uppercase letters to lowercase"
    );

    assert!(
        shrinks.contains(&"aXY".to_string())
            || shrinks.contains(&"ZaY".to_string())
            || shrinks.contains(&"ZXa".to_string()),
        "Should shrink some letters toward 'a'"
    );
}

#[test]
fn test_string_digit_simplification() {
    let generator = StringGenerator::ascii_alphanumeric(0, 10);
    let test_string = "abc789".to_string();

    let shrinks: Vec<String> = generator.shrink(&test_string);

    assert!(shrinks.iter().any(|s| s.contains('0')), "Should shrink some digits toward '0'");
}

#[test]
fn test_string_length_reduction() {
    let generator = StringGenerator::ascii_printable(0, 20);
    let test_string = "verylongstring".to_string();

    let shrinks: Vec<String> = generator.shrink(&test_string);

    assert!(shrinks.iter().any(|s| s.len() < test_string.len()), "Should produce shorter strings");

    let half_len = test_string.len() / 2;
    assert!(shrinks.iter().any(|s| s.len() == half_len), "Should try removing half the string");
}

#[test]
fn test_string_respects_min_length() {
    let generator = StringGenerator::ascii_printable(3, 10);
    let test_string = "hello".to_string();

    let shrinks: Vec<String> = generator.shrink(&test_string);

    for shrink in &shrinks {
        assert!(
            shrink.len() >= 3,
            "Shrink '{}' should be at least {} chars, got {}",
            shrink,
            3,
            shrink.len()
        );
    }

    assert!(!shrinks.contains(&"".to_string()), "Should not shrink below min_length");
    assert!(!shrinks.contains(&"a".to_string()), "Should not shrink below min_length");
}

#[test]
fn test_string_combined_shrinking() {
    let generator = StringGenerator::ascii_alphanumeric(0, 20);
    let test_string = "HELLO123".to_string();

    let shrinks: Vec<String> = generator.shrink(&test_string);

    assert!(shrinks.iter().any(|s| s.len() < test_string.len()));

    assert!(shrinks.iter().any(|s| s.chars().any(|c| c.is_lowercase())));

    assert!(shrinks.iter().any(|s| s.contains('0')));

    assert!(shrinks.contains(&"test".to_string()) || shrinks.contains(&"foo".to_string()));
}

#[test]
fn seeded_generation_is_reproducible() {
    let generator = VecGenerator::new(IntGenerator::new(-1000, 1000), 0, 8);
    let config = GeneratorConfig::default();
    let mut rng1 = create_seeded_rng(7);
    let mut rng2 = create_seeded_rng(7);
    for _ in 0..10 {
        assert_eq!(generator.generate(&mut rng1, &config), generator.generate(&mut rng2, &config));
    }
}

#[test]
fn int_shrinks_stay_in_range() {
    let generator = IntGenerator::new(-20i64, 30);
    for v in -20i64..=30 {
        for c in generator.shrink(&v) {
            assert!((-20..=30).contains(&c));
            assert_ne!(c, v);
        }
    }
}

#[test]
fn tuple_generator_shrinks_each_side() {
    let generator = TupleGenerator::new(IntGenerator::new(0, 10), IntGenerator::new(0, 10));
    let shrinks = generator.shrink(&(4, 6));
    assert!(shrinks.iter().any(|&(a, b)| a < 4 && b == 6));
    assert!(shrinks.iter().any(|&(a, b)| a == 4 && b < 6));
}

#[test]
fn string_generator_respects_max_length_in_generation() {
    let generator = StringGenerator::ascii_printable(0, 3);
    let mut rng = create_seeded_rng(99);
    let config = GeneratorConfig::default();
    for _ in 0..50 {
        let s = generator.generate(&mut rng, &config);
        assert!(s.chars().count() <= 3);
        assert!(s.chars().all(|c| (' '..='~').contains(&c)));
    }
}

#[test]
fn test_result_generator() {
    let mut rng = create_rng();
    let config = GeneratorConfig::default();

    let generator = ResultGenerator::new(IntGenerator::new(1, 100), StringGenerator::ascii_printable(1, 10));

    let mut ok_count = 0;
    let mut err_count = 0;

    for _ in 0..100 {
        match generator.generate(&mut rng, &config) {
            Ok(n) => {
                assert!((1..=100).contains(&n));
                ok_count += 1;
            }
            Err(s) => {
                assert!(!s.is_empty() && s.len() <= 10);
                err_count += 1;
            }
        }
    }

    assert!(ok_count > 0);
    assert!(err_count > 0);
}

#[test]
fn test_array_generator() {
    let mut rng = create_rng();
    let config = GeneratorConfig::default();

    let generator = ArrayGenerator::<i32, _, 5>::new(IntGenerator::new(1, 10));
    let arr = generator.generate(&mut rng, &config);

    assert_eq!(arr.len(), 5);
    for elem in &arr {
        assert!(*elem >= 1 && *elem <= 10);
    }
}

#[test]
fn primitives_test_result_shrinking() {
    let generator = ResultGenerator::new(IntGenerator::new(0, 100), StringGenerator::ascii_printable(0, 10));

    let ok_value: Result<i32, String> = Ok(50);
    let shrinks: Vec<_> = generator.shrink(&ok_value);

    assert!(!shrinks.is_empty());
}

#[test]
fn result_generator_shrinks_keep_the_variant() {
    let generator = ResultGenerator::new(IntGenerator::new(0, 100), IntGenerator::new(0, 100));
    assert!(generator.shrink(&Ok(40)).iter().all(|r| matches!(r, Ok(v) if *v < 40)));
    assert!(generator.shrink(&Err(40)).iter().all(|r| matches!(r, Err(v) if *v < 40)));
}

#[test]
fn option_generator_probabilities_and_shrinks() {
    let mut rng = create_seeded_rng(5);
    let config = GeneratorConfig::default();
    let always = OptionGenerator::with_probability(IntGenerator::new(1, 9), 2_000_000);
    assert_eq!(always.some_probability, 1_000_000);
    let never = OptionGenerator::with_probability(IntGenerator::new(1, 9), 0);
    for _ in 0..50 {
        assert!(always.generate(&mut rng, &config).is_some());
        assert!(never.generate(&mut rng, &config).is_none());
    }
    let half = OptionGenerator::new(IntGenerator::new(1, 9));
    let shrinks = half.shrink(&Some(5));
    assert_eq!(shrinks[0], None);
    assert!(shrinks[1..].iter().all(|o| matches!(o, Some(v) if *v < 5)));
    assert!(half.shrink(&None).is_empty());
}

#[test]
fn array_generator_shrinks_one_element_at_a_time() {
    let generator = ArrayGenerator::<i32, _, 3>::new(IntGenerator::new(0, 10));
    let value = [3, 0, 7];
    let shrinks = generator.shrink(&value);
    assert!(!shrinks.is_empty());
    for s in &shrinks {
        let changed = (0..3).filter(|&i| s[i] != value[i]).count();
        assert_eq!(changed, 1);
    }
}

#[test]
fn pair_of_generators_is_a_generator() {
    let generator = (IntGenerator::new(0, 5), BoolGenerator);
    let mut rng = create_seeded_rng(11);
    let config = GeneratorConfig::default();
    let (n, _b) = generator.generate(&mut rng, &config);
    assert!((0..=5).contains(&n));
    let shrinks = generator.shrink(&(3, true));
    assert!(shrinks.contains(&(3, false)));
    assert!(shrinks.iter().any(|&(a, b)| a < 3 && b));
}
