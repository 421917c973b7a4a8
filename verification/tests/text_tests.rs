use mudibot::text::{i64_to_string, str_eq, u64_to_string};
use mudibot::arguments::Args;

#[test]
fn decimal_rendering() {
    assert_eq!(u64_to_string(0), "0");
    assert_eq!(u64_to_string(90210), "90210");
    assert_eq!(u64_to_string(u64::MAX), "18446744073709551615");
    assert_eq!(i64_to_string(-1), "-1");
    assert_eq!(i64_to_string(i64::MIN), "-9223372036854775808");
    assert_eq!(i64_to_string(i64::MAX), "9223372036854775807");
}

#[test]
fn string_equality_is_exact() {
    assert!(str_eq("abc", "abc"));
    assert!(!str_eq("abc", "abd"));
    assert!(!str_eq("abc", "abcd"));
    assert!(str_eq("", ""));
}

#[test]
fn tokenizer_keeps_the_tail_verbatim() {
    let mut args = Args::new("$say a  b   c");
    args.advance();
    assert_eq!(args.remains(), Some("a  b   c".to_string()));
    args.advance();
    assert_eq!(args.remains(), Some(" b   c".to_string()));
}

#[test]
fn tokenizer_counts_tokens() {
    let mut args = Args::new("$say one two three");
    args.advance();
    assert_eq!(args.count_remaining(), 3);
    let empty = Args::new("");
    assert_eq!(empty.count_remaining(), 0);
}

#[test]
fn reference_tokens_resolve_by_id_or_directory() {
    let directory = vec![("general".to_string(), 17)];
    let mut args = Args::new("$say general hi");
    args.advance();
    assert_eq!(args.parse_ref(&directory), Some(17));
    let mut args2 = Args::new("$say 123 hi");
    args2.advance();
    assert_eq!(args2.parse_ref(&directory), Some(123));
    let mut args3 = Args::new("$say unknown hi");
    args3.advance();
    assert_eq!(args3.parse_ref(&directory), None);
}
