use dexpaprika_cli::text::truncate;
use dexpaprika_cli::text::truncate_address;

#[test]
fn truncate_short_string_unchanged() {
    assert_eq!(truncate("hello", 10), "hello");
}

#[test]
fn truncate_long_string_appends_ellipsis() {
    let result = truncate("hello world", 5);
    assert_eq!(result.chars().count(), 5);
    assert!(result.ends_with('\u{2026}'));
}

#[test]
fn truncate_address_short() {
    assert_eq!(truncate_address("0x1234567890abcdef"), "0x1234...cdef");
}

#[test]
fn truncate_exact_length_kept() {
    assert_eq!(truncate("hello", 5), "hello");
}

#[test]
fn truncate_zero_max_is_one_ellipsis() {
    assert_eq!(truncate("hello", 0), "\u{2026}");
}

#[test]
fn truncate_address_boundary_untouched() {
    assert_eq!(truncate_address("exactly13char"), "exactly13char");
}

#[test]
fn truncate_address_long_keeps_ends() {
    assert_eq!(
        truncate_address("0xc02aaa39b223fe8d0a0e5c4f27ead9083c756cc2"),
        "0xc02a...6cc2"
    );
}
