use dexpaprika_cli::events::StreamEvent;
use dexpaprika_cli::watchlist::SubscriptionTarget;
use dexpaprika_cli::wire::event_json;
use dexpaprika_cli::wire::i64_text;
use dexpaprika_cli::wire::subscription_body;
use dexpaprika_cli::wire::u128_text;

#[test]
fn body_lists_targets_with_method_literal() {
    let targets = vec![
        SubscriptionTarget {
            chain: "ethereum".to_string(),
            address: "0xaaa".to_string(),
        },
        SubscriptionTarget {
            chain: "solana".to_string(),
            address: "So1111".to_string(),
        },
    ];
    let expected = "[{\"chain\":\"ethereum\",\"address\":\"0xaaa\",\"method\":\"t_p\"},{\"chain\":\"solana\",\"address\":\"So1111\",\"method\":\"t_p\"}]";
    assert_eq!(subscription_body(&targets), expected);
}

#[test]
fn body_escapes_quotes_and_backslashes() {
    let targets = vec![SubscriptionTarget {
        chain: "et\"h".to_string(),
        address: "a\\b".to_string(),
    }];
    assert_eq!(
        subscription_body(&targets),
        "[{\"chain\":\"et\\\"h\",\"address\":\"a\\\\b\",\"method\":\"t_p\"}]"
    );
}

#[test]
fn body_escapes_control_characters() {
    let targets = vec![SubscriptionTarget {
        chain: "a\nb".to_string(),
        address: "c\u{1f}d".to_string(),
    }];
    assert_eq!(
        subscription_body(&targets),
        "[{\"chain\":\"a\\u000ab\",\"address\":\"c\\u001fd\",\"method\":\"t_p\"}]"
    );
}

#[test]
fn event_line_uses_readable_names_in_wire_order() {
    let event = StreamEvent {
        address: "0xc02aaa".to_string(),
        chain: "ethereum".to_string(),
        price_usd: "1850.125".to_string(),
        timestamp: 1700000000,
        price_timestamp: 1699999999,
    };
    let expected = "{\"address\":\"0xc02aaa\",\"chain\":\"ethereum\",\"price_usd\":\"1850.125\",\"timestamp\":1700000000,\"price_timestamp\":1699999999}";
    assert_eq!(event_json(&event), expected);
}

#[test]
fn decimal_text_handles_edges() {
    assert_eq!(i64_text(0), "0");
    assert_eq!(i64_text(-1), "-1");
    assert_eq!(i64_text(i64::MAX), "9223372036854775807");
    assert_eq!(i64_text(i64::MIN), "-9223372036854775808");
    assert_eq!(u128_text(0), "0");
    assert_eq!(u128_text(340282366920938463463374607431768211455), "340282366920938463463374607431768211455");
}
