use dexpaprika_cli::controller::plan_stream;
use dexpaprika_cli::controller::stream_url;
use dexpaprika_cli::controller::ConfigError;
use dexpaprika_cli::controller::StreamPlan;

#[test]
fn zero_limit_is_a_no_op_whatever_else_is_given() {
    let plan = plan_stream(
        Some("ethereum".to_string()),
        Some("0xaaa".to_string()),
        Some("watchlist.json".to_string()),
        Some(0),
    );
    assert!(matches!(plan, Ok(StreamPlan::NoOp)));
}

#[test]
fn both_modes_conflict() {
    let plan = plan_stream(
        Some("ethereum".to_string()),
        Some("0xaaa".to_string()),
        Some("watchlist.json".to_string()),
        None,
    );
    assert_eq!(plan.unwrap_err(), ConfigError::ConflictingMode);
}

#[test]
fn half_a_pair_with_watchlist_still_conflicts() {
    let plan = plan_stream(
        Some("ethereum".to_string()),
        None,
        Some("watchlist.json".to_string()),
        Some(5),
    );
    assert_eq!(plan.unwrap_err(), ConfigError::ConflictingMode);
}

#[test]
fn pair_selects_single_mode() {
    let plan = plan_stream(
        Some("ethereum".to_string()),
        Some("0xaaa".to_string()),
        None,
        Some(10),
    );
    match plan.unwrap() {
        StreamPlan::Single { network, address } => {
            assert_eq!(network, "ethereum");
            assert_eq!(address, "0xaaa");
        }
        other => panic!("expected single mode, got {other:?}"),
    }
}

#[test]
fn watchlist_selects_multi_mode() {
    let plan = plan_stream(None, None, Some("tokens.json".to_string()), None);
    match plan.unwrap() {
        StreamPlan::Multi { watchlist_path } => assert_eq!(watchlist_path, "tokens.json"),
        other => panic!("expected multi mode, got {other:?}"),
    }
}

#[test]
fn nothing_supplied_names_no_target() {
    let plan = plan_stream(None, None, None, None);
    assert_eq!(plan.unwrap_err(), ConfigError::MissingTarget);
}

#[test]
fn half_a_pair_alone_names_no_target() {
    let plan = plan_stream(Some("ethereum".to_string()), None, None, None);
    assert_eq!(plan.unwrap_err(), ConfigError::MissingTarget);
}

#[test]
fn single_mode_url_carries_the_pair() {
    assert_eq!(
        stream_url("ethereum", "0xc02aaa"),
        "https://streaming.dexpaprika.com/stream?method=t_p&chain=ethereum&address=0xc02aaa"
    );
}
