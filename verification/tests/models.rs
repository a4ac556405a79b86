use dexpaprika_cli::models::ApiStatus;
use dexpaprika_cli::models::count_cell;
use dexpaprika_cli::models::DexStats;
use dexpaprika_cli::models::Network;
use dexpaprika_cli::models::ResponseMeta;
use dexpaprika_cli::models::StatusResult;

#[test]
fn stats_rows_show_counts_or_dash() {
    let stats = DexStats {
        chains: Some(26),
        factories: Some(110),
        pools: None,
        tokens: Some(500000),
    };
    let rows = stats.rows();
    assert_eq!(rows.len(), 4);
    assert_eq!(rows[0], ("Chains/Networks".to_string(), "26".to_string()));
    assert_eq!(rows[1], ("DEXes/Factories".to_string(), "110".to_string()));
    assert_eq!(rows[2], ("Pools".to_string(), "\u{2014}".to_string()));
    assert_eq!(rows[3], ("Tokens".to_string(), "500000".to_string()));
}

#[test]
fn status_row_includes_response_time() {
    let result = StatusResult {
        dexpaprika: ApiStatus {
            status: "OK".to_string(),
            response_time_ms: 123,
        },
    };
    let row = result.row();
    assert_eq!(row.0, "DexPaprika API");
    assert_eq!(row.1, "OK (123ms)");
}

#[test]
fn network_row_falls_back_to_id() {
    let with_name = Network {
        id: "eth".to_string(),
        display_name: Some("Ethereum".to_string()),
        name: None,
        dexes_count: None,
        chain: None,
    };
    assert_eq!(with_name.row(), ("eth".to_string(), "Ethereum".to_string()));

    let without_name = Network {
        id: "bsc".to_string(),
        display_name: None,
        name: None,
        dexes_count: None,
        chain: None,
    };
    assert_eq!(without_name.row(), ("bsc".to_string(), "bsc".to_string()));
}

#[test]
fn count_cell_renders_negative_numbers() {
    assert_eq!(count_cell(Some(-7)), "-7");
    assert_eq!(count_cell(None), "\u{2014}");
}

#[test]
fn response_meta_builds_entity_url() {
    let meta = ResponseMeta::dexpaprika("/networks", "2024-01-01T00:00:00Z".to_string());
    assert_eq!(meta.source, "DexPaprika");
    assert_eq!(meta.url, "https://dexpaprika.com/networks");
    assert_eq!(meta.api_docs, "https://api.dexpaprika.com");
    assert_eq!(meta.timestamp, "2024-01-01T00:00:00Z");
}

#[test]
fn search_token_line_shortens_address() {
    let token = dexpaprika_cli::models::DexSearchToken {
        id: Some("0x1234567890abcdef".to_string()),
        name: Some("Wrapped Ether".to_string()),
        symbol: Some("WETH".to_string()),
        chain: Some("ethereum".to_string()),
    };
    assert_eq!(
        token.line(),
        "  Wrapped Ether (WETH) \u{2014} 0x1234...cdef [ethereum]"
    );
}

#[test]
fn search_pool_line_dashes_missing_values() {
    let pool = dexpaprika_cli::models::DexSearchPool {
        id: None,
        chain: Some("solana".to_string()),
        dex_name: None,
    };
    assert_eq!(pool.line(), "  \u{2014} \u{2014} \u{2014} [solana]");
}

#[test]
fn search_dex_line_keeps_full_id() {
    let dex = dexpaprika_cli::models::DexSearchDex {
        id: Some("uniswap_v3_long_identifier".to_string()),
        name: Some("Uniswap V3".to_string()),
        chain: Some("ethereum".to_string()),
    };
    assert_eq!(
        dex.line(),
        "  uniswap_v3_long_identifier \u{2014} Uniswap V3 [ethereum]"
    );
}

#[test]
fn pool_pair_joins_symbols() {
    let symbols = Some(vec![
        Some("WETH".to_string()),
        None,
        Some("USDC".to_string()),
    ]);
    assert_eq!(dexpaprika_cli::models::pool_pair(&symbols), "WETH/?/USDC");
}

#[test]
fn pool_pair_without_token_list_is_a_dash() {
    assert_eq!(dexpaprika_cli::models::pool_pair(&None), "\u{2014}");
    let empty: Option<Vec<Option<String>>> = Some(Vec::new());
    assert_eq!(dexpaprika_cli::models::pool_pair(&empty), "");
}
