use dexpaprika_cli::events::DecodeError;
use dexpaprika_cli::events::WireField;
use dexpaprika_cli::session::MultiSession;
use dexpaprika_cli::session::SessionInput;
use dexpaprika_cli::session::SessionPhase;
use dexpaprika_cli::session::SingleSession;
use dexpaprika_cli::session::StreamSession;

fn record(n: u32) -> String {
    format!(
        "data: {{\"a\":\"0x{n}\",\"c\":\"ethereum\",\"p\":\"{n}.0\",\"t\":{n},\"t_p\":{n}}}\n"
    )
}

fn message(n: u32) -> String {
    format!("{{\"a\":\"0x{n}\",\"c\":\"ethereum\",\"p\":\"{n}.0\",\"t\":{n},\"t_p\":{n}}}")
}

#[test]
fn zero_limit_session_is_complete_at_birth() {
    let s = StreamSession::new(Some(0));
    assert_eq!(s.phase, SessionPhase::Completed);
    assert_eq!(s.emitted, 0);
}

#[test]
fn limit_stops_multi_session_exactly() {
    let mut session = MultiSession::new(Some(2));
    let mut chunk = String::new();
    for n in 1..=5 {
        chunk.push_str(&record(n));
    }
    let out = session.on_chunk(chunk.as_bytes());
    assert_eq!(out.len(), 2);
    assert_eq!(out[0].address, "0x1");
    assert_eq!(out[1].address, "0x2");
    assert_eq!(session.session.phase, SessionPhase::Completed);
    assert_eq!(session.session.emitted, 2);

    // Later input is not consumed.
    let more = session.on_chunk(record(6).as_bytes());
    assert!(more.is_empty());
    assert_eq!(session.session.emitted, 2);
}

#[test]
fn malformed_records_are_skipped_without_a_slot() {
    let mut session = MultiSession::new(Some(10));
    let chunk = format!(
        "{}data: this is not json\n{}",
        record(1),
        record(2)
    );
    let out = session.on_chunk(chunk.as_bytes());
    assert_eq!(out.len(), 2);
    assert_eq!(out[0].address, "0x1");
    assert_eq!(out[1].address, "0x2");
    assert_eq!(session.session.phase, SessionPhase::Streaming);
}

#[test]
fn keep_alive_lines_do_not_count() {
    let mut session = MultiSession::new(None);
    let chunk = format!(": ping\n\n{}: pong\n", record(7));
    let out = session.on_chunk(chunk.as_bytes());
    assert_eq!(out.len(), 1);
    assert_eq!(session.session.emitted, 1);
}

#[test]
fn transport_error_fails_the_session() {
    let mut session = MultiSession::new(None);
    session.signal(SessionInput::TransportError);
    assert_eq!(session.session.phase, SessionPhase::Failed);
}

#[test]
fn end_of_stream_completes_the_session() {
    let mut session = MultiSession::new(Some(5));
    session.signal(SessionInput::EndOfStream);
    assert_eq!(session.session.phase, SessionPhase::Completed);
}

#[test]
fn cancellation_is_terminal_and_not_a_failure() {
    let mut session = MultiSession::new(None);
    session.signal(SessionInput::CancelRequested);
    assert_eq!(session.session.phase, SessionPhase::Cancelled);

    // A cancelled session consumes nothing more.
    let out = session.on_chunk(record(1).as_bytes());
    assert!(out.is_empty());
    assert_eq!(session.session.emitted, 0);
}

#[test]
fn single_session_counts_and_completes_at_limit() {
    let mut session = SingleSession::new(Some(2));
    let first = session.on_message(message(1).as_bytes()).unwrap();
    assert_eq!(first.address, "0x1");
    assert_eq!(session.session.phase, SessionPhase::Streaming);

    let second = session.on_message(message(2).as_bytes()).unwrap();
    assert_eq!(second.address, "0x2");
    assert_eq!(session.session.phase, SessionPhase::Completed);
    assert_eq!(session.session.emitted, 2);
}

#[test]
fn single_session_drops_malformed_message() {
    let mut session = SingleSession::new(None);
    let err = session.on_message(b"{\"a\":\"x\"}").unwrap_err();
    assert_eq!(err, DecodeError::MalformedEvent(WireField::Chain));
    assert_eq!(session.session.emitted, 0);
    assert_eq!(session.session.phase, SessionPhase::Streaming);

    let err = session.on_message(b"not json").unwrap_err();
    assert_eq!(err, DecodeError::NotJson);
    assert_eq!(session.session.emitted, 0);
}

#[test]
fn open_signal_is_a_no_op() {
    let mut session = SingleSession::new(None);
    session.signal(SessionInput::Opened);
    assert_eq!(session.session.phase, SessionPhase::Streaming);
    assert_eq!(session.session.emitted, 0);
}
