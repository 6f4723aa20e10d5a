use std::ops::RangeInclusive;

use tbx::essential::StringEssential;
use tbx::random::{
    next, next_alpha_numeric_lower, next_alpha_numeric_mixed, next_alpha_numeric_upper,
    next_alphabet_lower, next_alphabet_mixed, next_alphabet_upper, next_hex_lower,
    next_hex_upper, next_numeric, Random,
};

/// Make sure each number of the range appears at least once in `q`.
fn verify_numeric(range: &RangeInclusive<usize>, q: &str, expected_length: usize, formatter: fn(i: usize) -> String) -> bool {
    let mut sum_length: usize = 0;
    for i in range.to_owned() {
        let j = formatter(i);
        let c = q.count_char(j.chars().nth(0).unwrap_or('\0'));
        if c < 1 {
            return false;
        }
        sum_length += c;
    }
    sum_length == expected_length
}

#[test]
fn ascii_test_next() {
    for i in 1..100 {
        assert_eq!(next(i, vec!['0']), "0".repeat(i).as_str())
    }
    let verify_abc = |q: &str, len: usize| {
        let num_a = q.count_char('A');
        let num_b = q.count_char('B');
        let num_c = q.count_char('C');
        assert_eq!(num_a + num_b + num_c, len, "testing string[{}]", q);
    };

    for i in 1..100 {
        let mut last = next(i, vec!['A', 'B', 'C']);
        let mut q = next(i, vec!['A', 'B', 'C']);
        verify_abc(&q, i);

        while last == q {
            last = q;
            q = next(i, vec!['A', 'B', 'C']);
            verify_abc(&q, i);
        }
    }
}

fn verify_next_numeric(range: RangeInclusive<usize>, generator: fn(c: usize) -> String, formatter: fn(i: usize) -> String) {
    let nn = || -> String {
        let expected_length = 1000;
        let abort_limit = expected_length * 100;
        let mut abort_count = 0;
        let mut q = generator(expected_length);
        while !verify_numeric(&range, &q, expected_length, formatter) {
            q = generator(expected_length);
            abort_count += 1;
            assert!(abort_count < abort_limit, "limit {}, count {}", abort_limit, abort_count);
            if abort_limit < abort_count {
                return "".to_string();
            }
        }
        q
    };
    let mut last = nn();
    let mut q = nn();

    while last == q {
        last = q;
        q = nn();
    }
}

#[test]
fn test_next_numeric() {
    verify_next_numeric(0..=9 as usize, next_numeric, |i: usize| -> String { format!("{}", i) });
}

#[test]
fn test_next_hex_upper() {
    verify_next_numeric(0..=15 as usize, next_hex_upper, |i: usize| -> String { format!("{:X}", i) });
}

#[test]
fn test_next_hex_lower() {
    verify_next_numeric(0..=15 as usize, next_hex_lower, |i: usize| -> String { format!("{:x}", i) });
}

fn verify_ascii_appearance(chars: &Vec<RangeInclusive<char>>, expected_length: usize, q: &str) -> bool {
    let mut sum_length: usize = 0;
    for cr in chars {
        for k in cr.clone().into_iter() {
            let c = q.count_char(k);
            if c < 1 {
                return false;
            }
            sum_length += c;
        }
    }
    sum_length == expected_length
}

fn verify_ascii(chars: Vec<RangeInclusive<char>>, num_samples: usize, generator: fn(c: usize) -> String) {
    let nn = || -> String {
        let expected_length = num_samples;
        let abort_limit = expected_length * 100;
        let mut abort_count = 0;
        let mut q = generator(expected_length);
        while !verify_ascii_appearance(&chars, expected_length, &q) {
            q = generator(expected_length);
            abort_count += 1;
            assert!(abort_count < abort_limit, "limit {}, count {}", abort_limit, abort_count);
            if abort_limit < abort_count {
                return String::from("");
            }
        }
        q
    };
    let mut last = nn();
    let mut q = nn();

    while last == q {
        last = q;
        q = nn();
    }
}

#[test]
fn test_next_alphabet_upper() {
    verify_ascii(vec!['A'..='Z'], 26 * 5, next_alphabet_upper)
}

#[test]
fn test_next_alphabet_lower() {
    verify_ascii(vec!['a'..='z'], 26 * 5, next_alphabet_lower)
}

#[test]
fn test_next_alphabet_mixed() {
    verify_ascii(vec!['a'..='z', 'A'..='Z'], 26 * 10, next_alphabet_mixed)
}

#[test]
fn test_next_alpha_numeric_upper() {
    verify_ascii(vec!['0'..='9', 'A'..='Z'], (10 + 26) * 5, next_alpha_numeric_upper)
}

#[test]
fn test_next_alpha_numeric_lower() {
    verify_ascii(vec!['0'..='9', 'a'..='z'], (10 + 26) * 5, next_alpha_numeric_lower)
}

#[test]
fn test_next_alpha_numeric_mixed() {
    verify_ascii(vec!['0'..='9', 'a'..='z', 'A'..='Z'], (10 + 26 + 26) * 5, next_alpha_numeric_mixed)
}

#[test]
fn random_stays_in_range() {
    let mut r = Random::new_thread_local();
    for _ in 0..1000 {
        let x = r.next_range_usize(10..20);
        assert!(10 <= x && x < 20);
    }
}

#[test]
fn random_text_has_requested_length_and_class() {
    let s = next_hex_lower(64);
    assert_eq!(64, s.chars().count());
    assert!(s.chars().all(|c| c.is_ascii_digit() || ('a'..='f').contains(&c)));
    let s = next_alpha_numeric_upper(1);
    assert_eq!(1, s.chars().count());
}

#[test]
fn random_ranges_of_every_integer_type() {
    let mut r = Random::new_thread_local();
    for _ in 0..200 {
        assert!((10..20).contains(&r.next_range_u8(10..20)));
        assert!((10..20).contains(&r.next_range_u16(10..20)));
        assert!((10..20).contains(&r.next_range_u32(10..20)));
        assert!((10..20).contains(&r.next_range_u64(10..20)));
        assert!((10..20).contains(&r.next_range_u128(10..20)));
        assert!((-10..10).contains(&r.next_range_i8(-10..10)));
        assert!((-10..10).contains(&r.next_range_i16(-10..10)));
        assert!((-10..10).contains(&r.next_range_i32(-10..10)));
        assert!((-10..10).contains(&r.next_range_i64(-10..10)));
        assert!((-10..10).contains(&r.next_range_i128(-10..10)));
        assert!((-10..10).contains(&r.next_range_isize(-10..10)));
        assert!(!r.next_ratio(0, 3));
        assert!(r.next_ratio(3, 3));
    }
    let mut seen_true = false;
    let mut seen_false = false;
    for _ in 0..200 {
        if r.next_bool() { seen_true = true } else { seen_false = true }
    }
    assert!(seen_true && seen_false);
    let _ = (r.next_u8(), r.next_u16(), r.next_u32(), r.next_u64(), r.next_u128(), r.next_usize());
    let _ = (r.next_i8(), r.next_i16(), r.next_i32(), r.next_i64(), r.next_i128(), r.next_isize());
}
