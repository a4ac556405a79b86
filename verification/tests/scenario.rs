//! The multi-subscription flow end to end, without the network: load
//! the watchlist, build the subscription body, then feed the session a
//! stream split in the middle of a record line.

use dexpaprika_cli::session::MultiSession;
use dexpaprika_cli::session::SessionPhase;
use dexpaprika_cli::watchlist::load_watchlist;
use dexpaprika_cli::wire::subscription_body;

#[test]
fn one_event_then_completed() {
    let file = br#"[{"chain":"ethereum","address":"0xc02aaa39b223fe8d0a0e5c4f27ead9083c756cc2"}]"#;
    let targets = load_watchlist(file).unwrap();
    assert_eq!(targets.len(), 1);

    let body = subscription_body(&targets);
    let expected_body = "[{\"chain\":\"ethereum\",\"address\":\"0xc02aaa39b223fe8d0a0e5c4f27ead9083c756cc2\",\"method\":\"t_p\"}]";
    assert_eq!(body, expected_body);

    let mut session = MultiSession::new(Some(1));

    // Two valid records back to back, delivered in two chunks whose
    // boundary falls in the middle of the first line.
    let first = "data: {\"a\":\"0xc02aaa39b223fe8d0a0e5c4f27ead9083c756cc2\",\"c\":\"ethereum\",\"p\":\"1850.125\",\"t\":1700000000,\"t_p\":1699999999}\n";
    let second = "data: {\"a\":\"0xc02aaa39b223fe8d0a0e5c4f27ead9083c756cc2\",\"c\":\"ethereum\",\"p\":\"1851.000\",\"t\":1700000002,\"t_p\":1700000001}\n";
    let joined = format!("{first}{second}");
    let stream = joined.as_bytes();
    let split: usize = 40;

    let mut delivered = session.on_chunk(&stream[..split]);
    delivered.extend(session.on_chunk(&stream[split..]));

    assert_eq!(delivered.len(), 1);
    let event = &delivered[0];
    assert_eq!(event.address, "0xc02aaa39b223fe8d0a0e5c4f27ead9083c756cc2");
    assert_eq!(event.chain, "ethereum");
    assert_eq!(event.price_usd, "1850.125");
    assert_eq!(event.timestamp, 1700000000);
    assert_eq!(event.price_timestamp, 1699999999);
    assert_eq!(session.session.phase, SessionPhase::Completed);
    assert_eq!(session.session.emitted, 1);
}
