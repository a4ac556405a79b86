use dexpaprika_cli::watchlist::load_watchlist;
use dexpaprika_cli::watchlist::validate_entries;
use dexpaprika_cli::watchlist::RawEntry;
use dexpaprika_cli::watchlist::WatchlistError;

#[test]
fn loader_returns_targets_in_file_order() {
    let content = r#"[
        {"chain":"ethereum","address":"0xaaa"},
        {"chain":"solana","address":"So1111"},
        {"chain":"bsc","address":"0xbbb"}
    ]"#;
    let targets = load_watchlist(content.as_bytes()).unwrap();
    assert_eq!(targets.len(), 3);
    assert_eq!(targets[0].chain, "ethereum");
    assert_eq!(targets[0].address, "0xaaa");
    assert_eq!(targets[1].chain, "solana");
    assert_eq!(targets[1].address, "So1111");
    assert_eq!(targets[2].chain, "bsc");
    assert_eq!(targets[2].address, "0xbbb");
}

#[test]
fn loader_rejects_empty_list() {
    assert_eq!(
        load_watchlist(b"[]").unwrap_err(),
        WatchlistError::EmptyWatchlist
    );
}

#[test]
fn loader_rejects_non_json() {
    assert_eq!(
        load_watchlist(b"not json at all").unwrap_err(),
        WatchlistError::ParseError
    );
}

#[test]
fn loader_rejects_object_instead_of_array() {
    assert_eq!(
        load_watchlist(b"{\"chain\":\"ethereum\"}").unwrap_err(),
        WatchlistError::ParseError
    );
}

#[test]
fn loader_accepts_maximum_and_rejects_one_over() {
    let mut entries = String::from("[");
    for i in 0..2000 {
        if i > 0 {
            entries.push(',');
        }
        entries.push_str(&format!("{{\"chain\":\"net{i}\",\"address\":\"0x{i}\"}}"));
    }
    let at_cap = format!("{entries}]");
    let targets = load_watchlist(at_cap.as_bytes()).unwrap();
    assert_eq!(targets.len(), 2000);

    let over_cap = format!("{entries},{{\"chain\":\"extra\",\"address\":\"0xextra\"}}]");
    assert_eq!(
        load_watchlist(over_cap.as_bytes()).unwrap_err(),
        WatchlistError::TooManyTargets(2001)
    );
}

#[test]
fn loader_names_first_incomplete_entry() {
    let content = r#"[
        {"chain":"ethereum","address":"0xaaa"},
        {"chain":"solana"},
        {"address":"0xccc"}
    ]"#;
    assert_eq!(
        load_watchlist(content.as_bytes()).unwrap_err(),
        WatchlistError::MissingField(1)
    );
}

#[test]
fn loader_rejects_empty_field_values() {
    let content = r#"[{"chain":"","address":"0xaaa"}]"#;
    assert_eq!(
        load_watchlist(content.as_bytes()).unwrap_err(),
        WatchlistError::MissingField(0)
    );
}

#[test]
fn loader_rejects_non_string_field() {
    let content = r#"[{"chain":7,"address":"0xaaa"}]"#;
    assert_eq!(
        load_watchlist(content.as_bytes()).unwrap_err(),
        WatchlistError::MissingField(0)
    );
}

#[test]
fn validate_reports_first_failure_only() {
    let entries = vec![
        RawEntry {
            chain: Some("ethereum".to_string()),
            address: Some("0xaaa".to_string()),
        },
        RawEntry {
            chain: None,
            address: Some("0xbbb".to_string()),
        },
        RawEntry {
            chain: None,
            address: None,
        },
    ];
    assert_eq!(
        validate_entries(&entries).unwrap_err(),
        WatchlistError::MissingField(1)
    );
}

#[test]
fn validate_empty_is_empty_watchlist() {
    let entries: Vec<RawEntry> = Vec::new();
    assert_eq!(
        validate_entries(&entries).unwrap_err(),
        WatchlistError::EmptyWatchlist
    );
}
