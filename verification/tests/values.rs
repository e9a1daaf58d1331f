use ucsvgen::decimal::{decimal_digits, pow10_u64, push_decimal};
use ucsvgen::value::{date_string, number_string, quoted_string};
use ucsvgen::{rand_date, rand_number_of_len, rand_string_of_len, NumberGeneratorError};

fn text_of(chars: Vec<char>) -> String {
    chars.into_iter().collect()
}

#[test]
fn decimal_digits_of_small_and_large_numbers() {
    assert_eq!(text_of(decimal_digits(0)), "0");
    assert_eq!(text_of(decimal_digits(7)), "7");
    assert_eq!(text_of(decimal_digits(10)), "10");
    assert_eq!(text_of(decimal_digits(1900)), "1900");
    assert_eq!(text_of(decimal_digits(1_000_000)), "1000000");
    assert_eq!(text_of(decimal_digits(u64::MAX)), "18446744073709551615");
}

#[test]
fn push_decimal_appends_to_what_is_there() {
    let mut chars = vec!['n', '='];
    push_decimal(&mut chars, 305);
    push_decimal(&mut chars, 0);
    assert_eq!(text_of(chars), "n=3050");
}

#[test]
fn powers_of_ten() {
    assert_eq!(pow10_u64(0), 1);
    assert_eq!(pow10_u64(1), 10);
    assert_eq!(pow10_u64(6), 1_000_000);
    assert_eq!(pow10_u64(19), 10_000_000_000_000_000_000);
}

#[test]
fn number_string_places_the_point_from_the_right() {
    assert_eq!(number_string(12345, 0), "12345");
    assert_eq!(number_string(12345, 1), "1234.5");
    assert_eq!(number_string(12345, 2), "123.45");
    assert_eq!(number_string(12345, 4), "1.2345");
    assert_eq!(number_string(12345, 5), ".12345");
    assert_eq!(number_string(7, 1), ".7");
    assert_eq!(number_string(7, 0), "7");
    assert_eq!(
        number_string(9_999_999_999_999_999_999, 19),
        ".9999999999999999999"
    );
}

#[test]
fn date_string_does_not_pad() {
    assert_eq!(date_string(2024, 3, 7), "2024-3-7");
    assert_eq!(date_string(1900, 1, 1), "1900-1-1");
    assert_eq!(date_string(9999, 12, 28), "9999-12-28");
    assert_eq!(date_string(2000, 10, 5), "2000-10-5");
    assert_eq!(date_string(2000, 5, 10), "2000-5-10");
}

#[test]
fn quoted_string_wraps_in_double_quotes() {
    assert_eq!(quoted_string(&vec!['a', 'B', '1']), "\"aB1\"");
    assert_eq!(quoted_string(&Vec::new()), "\"\"");
}

#[test]
fn number_size_out_of_range_is_refused() {
    for size in [0u8, 20, 21, 100, 255] {
        for exponent in [0u8, 1, 30, 255] {
            assert_eq!(
                rand_number_of_len(size, exponent),
                Err(NumberGeneratorError::SizeTooLarge { size })
            );
        }
    }
}

#[test]
fn number_exponent_above_size_is_refused() {
    for size in 1u8..20 {
        for exponent in [size + 1, size + 2, 255] {
            assert_eq!(
                rand_number_of_len(size, exponent),
                Err(NumberGeneratorError::ExponentTooLarge { size, exponent })
            );
        }
    }
}

#[test]
fn number_size_is_judged_before_exponent() {
    assert_eq!(
        rand_number_of_len(0, 5),
        Err(NumberGeneratorError::SizeTooLarge { size: 0 })
    );
    assert_eq!(
        rand_number_of_len(25, 30),
        Err(NumberGeneratorError::SizeTooLarge { size: 25 })
    );
}

#[test]
fn number_has_exact_width_and_point_position() {
    for size in 1u8..20 {
        for exponent in 0..=size {
            for _ in 0..20 {
                let text = rand_number_of_len(size, exponent).unwrap();
                let chars: Vec<char> = text.chars().collect();
                let digits: Vec<char> =
                    chars.iter().copied().filter(|c| c.is_ascii_digit()).collect();
                assert_eq!(digits.len(), size as usize);
                assert_ne!(digits[0], '0');
                if exponent == 0 {
                    assert_eq!(chars.len(), size as usize);
                    assert!(!text.contains('.'));
                } else {
                    assert_eq!(chars.len(), size as usize + 1);
                    assert_eq!(chars[chars.len() - 1 - exponent as usize], '.');
                    assert_eq!(chars.iter().filter(|c| **c == '.').count(), 1);
                }
            }
        }
    }
}

#[test]
fn number_of_one_digit_is_one_to_nine() {
    for _ in 0..200 {
        let text = rand_number_of_len(1, 0).unwrap();
        let value: u64 = text.parse().unwrap();
        assert!((1..10).contains(&value));
    }
}

#[test]
fn number_of_nineteen_digits_is_in_range() {
    for _ in 0..200 {
        let text = rand_number_of_len(19, 0).unwrap();
        let value: u64 = text.parse().unwrap();
        assert!(value >= 1_000_000_000_000_000_000);
        assert!(value < 10_000_000_000_000_000_000);
    }
}

#[test]
fn numbers_differ_from_draw_to_draw() {
    let first = rand_number_of_len(18, 0).unwrap();
    let mut differs = false;
    let mut above_lower_bound = false;
    for _ in 0..50 {
        let text = rand_number_of_len(18, 0).unwrap();
        differs = differs || text != first;
        above_lower_bound = above_lower_bound || text != "100000000000000000";
    }
    assert!(differs);
    assert!(above_lower_bound);
}

#[test]
fn quoted_string_has_quotes_and_exact_length() {
    for size in [0u8, 1, 2, 5, 10, 100, 255] {
        for _ in 0..20 {
            let text = rand_string_of_len(size);
            let chars: Vec<char> = text.chars().collect();
            assert_eq!(chars.len(), size as usize + 2);
            assert_eq!(chars[0], '"');
            assert_eq!(chars[chars.len() - 1], '"');
            assert!(chars[1..chars.len() - 1]
                .iter()
                .all(|c| c.is_ascii_alphanumeric()));
        }
    }
}

#[test]
fn quoted_string_of_size_zero_is_two_quotes() {
    assert_eq!(rand_string_of_len(0), "\"\"");
}

#[test]
fn quoted_strings_differ_from_draw_to_draw() {
    let first = rand_string_of_len(32);
    let mut differs = false;
    for _ in 0..50 {
        differs = differs || rand_string_of_len(32) != first;
    }
    assert!(differs);
}

#[test]
fn date_matches_pattern_and_ranges() {
    for _ in 0..2000 {
        let text = rand_date();
        assert!(text.len() >= 8 && text.len() <= 10);
        let parts: Vec<&str> = text.split('-').collect();
        assert_eq!(parts.len(), 3);
        assert_eq!(parts[0].len(), 4);
        assert!(parts[1].len() == 1 || parts[1].len() == 2);
        assert!(parts[2].len() == 1 || parts[2].len() == 2);
        for part in &parts {
            assert!(part.chars().all(|c| c.is_ascii_digit()));
            assert!(!part.starts_with('0'));
        }
        let year: u32 = parts[0].parse().unwrap();
        let month: u32 = parts[1].parse().unwrap();
        let day: u32 = parts[2].parse().unwrap();
        assert!((1900..=9999).contains(&year));
        assert!((1..=12).contains(&month));
        assert!((1..=28).contains(&day));
    }
}

#[test]
fn dates_differ_from_draw_to_draw() {
    let first = rand_date();
    let mut differs = false;
    let mut above_lower_bounds = false;
    for _ in 0..50 {
        let text = rand_date();
        differs = differs || text != first;
        above_lower_bounds = above_lower_bounds || text != "1900-1-1";
    }
    assert!(differs);
    assert!(above_lower_bounds);
}
