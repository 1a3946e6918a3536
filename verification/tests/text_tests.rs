use context7_cache::text::push_decimal;
use context7_cache::text::push_joined;

fn decimal(n: u64) -> String {
    let mut out = String::new();
    push_decimal(&mut out, n);
    out
}

fn joined(parts: &[&str], sep: &str) -> String {
    let parts: Vec<String> = parts.iter().map(|p| p.to_string()).collect();
    let mut out = String::new();
    push_joined(&mut out, &parts, sep);
    out
}

#[test]
fn decimal_numerals() {
    assert_eq!(decimal(0), "0");
    assert_eq!(decimal(7), "7");
    assert_eq!(decimal(9), "9");
    assert_eq!(decimal(10), "10");
    assert_eq!(decimal(42), "42");
    assert_eq!(decimal(100), "100");
    assert_eq!(decimal(1234567890), "1234567890");
    assert_eq!(decimal(u64::MAX), "18446744073709551615");
}

#[test]
fn decimal_numerals_are_those_of_the_standard_formatter() {
    let mut n: u64 = 1;
    for _ in 0..64 {
        assert_eq!(decimal(n), format!("{}", n));
        assert_eq!(decimal(n - 1), format!("{}", n - 1));
        n = n.wrapping_mul(2);
    }
    let mut n: u64 = 1;
    for _ in 0..19 {
        assert_eq!(decimal(n), format!("{}", n));
        assert_eq!(decimal(n - 1), format!("{}", n - 1));
        n *= 10;
    }
}

#[test]
fn decimal_is_appended() {
    let mut out = String::from("removed ");
    push_decimal(&mut out, 12);
    assert_eq!(out, "removed 12");
}

#[test]
fn joined_lists() {
    assert_eq!(joined(&[], "; "), "");
    assert_eq!(joined(&["a"], "; "), "a");
    assert_eq!(joined(&["a", "b"], "; "), "a; b");
    assert_eq!(joined(&["a", "b", "c"], "; "), "a; b; c");
    assert_eq!(joined(&["", ""], "; "), "; ");
    assert_eq!(joined(&["a", "", "c"], ","), "a,,c");
    assert_eq!(joined(&["a", "b"], ""), "ab");
}

#[test]
fn joined_lists_are_those_of_the_standard_join() {
    let lists: [&[&str]; 5] =
        [&[], &["x"], &["x", "y"], &["/cache/a.json: denied", "/cache/b.json: busy"], &["", "", ""]];
    for parts in lists {
        assert_eq!(joined(parts, "; "), parts.join("; "));
    }
}

#[test]
fn joined_is_appended() {
    let parts = vec!["a".to_string(), "b".to_string()];
    let mut out = String::from("errors: ");
    push_joined(&mut out, &parts, "; ");
    assert_eq!(out, "errors: a; b");
}
