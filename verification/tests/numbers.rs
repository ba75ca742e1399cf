use visit_gate::parse::{env_key, parse_arg, try_parse_usize, ParseError};
use visit_gate::primes::{count_primes_up_to, is_prime};
use visit_gate::text::{greeting_body, i32_string, str_eq, u32_string, welcome_body};
use visit_gate::workload::{hot_allocation, stage_a, stage_b, sum};

#[test]
fn decimal_rendering_unsigned() {
    assert_eq!(u32_string(0), "0");
    assert_eq!(u32_string(7), "7");
    assert_eq!(u32_string(10), "10");
    assert_eq!(u32_string(1234567890), "1234567890");
    assert_eq!(u32_string(u32::MAX), "4294967295");
}

#[test]
fn decimal_rendering_signed() {
    assert_eq!(i32_string(0), "0");
    assert_eq!(i32_string(-1), "-1");
    assert_eq!(i32_string(-42), "-42");
    assert_eq!(i32_string(i32::MAX), "2147483647");
    assert_eq!(i32_string(i32::MIN), "-2147483648");
}

#[test]
fn greeting_interpolates_both_values() {
    assert_eq!(greeting_body("Alice", 3), "Hello Alice! You are visitor number 3!");
    assert_eq!(greeting_body("", -5), "Hello ! You are visitor number -5!");
    assert_eq!(greeting_body("Visitor", 0), "Hello Visitor! You are visitor number 0!");
}

#[test]
fn welcome_interpolates_both_values() {
    assert_eq!(welcome_body("Bob", 7), "Welcome Bob, user_id 7!");
    assert_eq!(welcome_body("", 4294967295), "Welcome , user_id 4294967295!");
}

#[test]
fn string_equality() {
    assert!(str_eq("", ""));
    assert!(str_eq("abc", "abc"));
    assert!(!str_eq("abc", "abd"));
    assert!(!str_eq("abc", "abcd"));
    assert!(str_eq("naïve", "naïve"));
}

#[test]
fn primality_of_small_numbers() {
    assert!(!is_prime(0));
    assert!(!is_prime(1));
    assert!(is_prime(2));
    assert!(is_prime(3));
    assert!(!is_prime(4));
    assert!(is_prime(17));
    assert!(!is_prime(25));
    assert!(is_prime(97));
    assert!(!is_prime(100));
}

#[test]
fn prime_counts() {
    assert_eq!(count_primes_up_to(0), 0);
    assert_eq!(count_primes_up_to(1), 0);
    assert_eq!(count_primes_up_to(2), 1);
    assert_eq!(count_primes_up_to(10), 4);
    assert_eq!(count_primes_up_to(100), 25);
}

#[test]
fn workload_checksums() {
    assert_eq!(hot_allocation(0), 0);
    assert_eq!(hot_allocation(10), 420);
    assert_eq!(stage_b(0, 100), 0);
    assert_eq!(stage_b(3, 5), 630);
    assert_eq!(stage_a(3, 5), 630);
    assert_eq!(stage_a(5000, 1000), 5000 * 42 * 1000);
}

#[test]
fn saturating_sum() {
    assert_eq!(sum(&[]), 0);
    assert_eq!(sum(&[1, 2, 3]), 6);
    assert_eq!(sum(&[u64::MAX, 0]), u64::MAX);
    assert_eq!(sum(&[u64::MAX, 1]), u64::MAX);
    assert_eq!(sum(&[u64::MAX - 1, 1]), u64::MAX);
    assert_eq!(sum(&[1u64 << 63, 1u64 << 63, 5]), u64::MAX);
}

#[test]
fn parsing_valid_numbers() {
    assert_eq!(try_parse_usize("0"), Ok(0));
    assert_eq!(try_parse_usize("123"), Ok(123));
    assert_eq!(try_parse_usize("+77"), Ok(77));
    assert_eq!(try_parse_usize("007"), Ok(7));
    assert_eq!(try_parse_usize("18446744073709551615"), Ok(usize::MAX));
}

#[test]
fn parsing_rejects_bad_input() {
    assert_eq!(try_parse_usize(""), Err(ParseError::Empty));
    assert_eq!(try_parse_usize("+"), Err(ParseError::InvalidDigit));
    assert_eq!(try_parse_usize("abc"), Err(ParseError::InvalidDigit));
    assert_eq!(try_parse_usize("12a"), Err(ParseError::InvalidDigit));
    assert_eq!(try_parse_usize("-5"), Err(ParseError::InvalidDigit));
    assert_eq!(try_parse_usize("1 2"), Err(ParseError::InvalidDigit));
}

#[test]
fn parsing_overflow() {
    assert_eq!(try_parse_usize("18446744073709551616"), Err(ParseError::PosOverflow));
    // Overflow strikes before the scan can reach the bad character.
    assert_eq!(try_parse_usize("99999999999999999999x"), Err(ParseError::PosOverflow));
}

fn args(list: &[&str]) -> Vec<String> {
    list.iter().map(|s| s.to_string()).collect()
}

#[test]
fn parse_arg_prefers_the_command_line() {
    let a = args(&["prog", "--iters", "5000", "--size", "9"]);
    assert_eq!(parse_arg(&a, "--iters", &Some("111".to_string()), 7), 5000);
    assert_eq!(parse_arg(&a, "--size", &None, 7), 9);
}

#[test]
fn parse_arg_falls_back_to_environment_then_default() {
    let missing = args(&["prog"]);
    assert_eq!(parse_arg(&missing, "--iters", &Some("111".to_string()), 7), 111);
    assert_eq!(parse_arg(&missing, "--iters", &Some("bad".to_string()), 7), 7);
    assert_eq!(parse_arg(&missing, "--iters", &None, 7), 7);
    // A flag with no following value falls through as well.
    let dangling = args(&["prog", "--iters"]);
    assert_eq!(parse_arg(&dangling, "--iters", &Some("42".to_string()), 7), 42);
    // So does a value that does not parse.
    let bad_value = args(&["prog", "--iters", "many"]);
    assert_eq!(parse_arg(&bad_value, "--iters", &None, 7), 7);
}

#[test]
fn parse_arg_uses_only_the_first_occurrence() {
    let a = args(&["prog", "--iters", "bad", "--iters", "9"]);
    assert_eq!(parse_arg(&a, "--iters", &None, 7), 7);
}

#[test]
fn env_keys_for_known_flags() {
    assert_eq!(env_key("--iters"), "ITERS");
    assert_eq!(env_key("--size"), "SIZE");
    assert_eq!(env_key("--other"), "");
}
