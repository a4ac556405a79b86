//! The stream session state machine.
//!
//! A session starts in `Streaming` (connection setup is the caller's
//! I/O, not part of the machine) and reacts to one input at a time:
//! a decoded event is delivered and counted, a malformed record is
//! dropped, a transport error fails the session, end-of-stream completes
//! it, and a cancellation request ends it as `Cancelled` — a first-class
//! success, not an error. When a consumption limit is set, the event
//! that reaches it is still delivered and the session completes on the
//! spot; a terminal session ignores every further input.
//!
//! [`spec_step`] is the machine's transition function; [`spec_run`]
//! folds it over an input sequence, and [`lemma_run_completes_at_limit`]
//! proves the bounded-output law: with limit `l`, a benign input stream
//! carrying at least the missing number of events yields exactly the
//! first events up to `l`, in arrival order, and ends in `Completed`.
//! [`run_records`] is the same fold over raw wire records — framing's
//! output feeding the decoder feeding the machine — with the law
//! restated at that level by [`lemma_records_complete_at_limit`] and
//! composed across chunks by [`lemma_run_records_concat`].

use vstd::prelude::*;

use crate::events::DecodeError;
use crate::events::StreamEvent;
use crate::events::decode_ok;
use crate::events::decode_record;
use crate::events::event_matches_payload;
use crate::events::spec_decode_error;
use crate::events::spec_decoded_fields;
use crate::framer::LineFramer;
use crate::framer::find_nl;

verus! {

/// Where a session stands. There is no explicit connecting state: the
/// machine is created once the transport is up, and `Completed` at once
/// when the limit is already met.
#[derive(Debug, Clone, Copy, PartialEq, Eq, Structural)]
pub enum SessionPhase {
    /// Consuming inputs.
    Streaming,
    /// Ended by reaching the limit or by a clean end-of-stream.
    Completed,
    /// Ended by a user cancellation request; a success, not an error.
    Cancelled,
    /// Ended by a transport-level error.
    Failed,
}

/// One thing that can happen to a streaming session.
#[derive(Debug, Clone)]
pub enum SessionInput {
    /// The connection-level open/handshake signal: a no-op.
    Opened,
    /// One successfully decoded event.
    Event(StreamEvent),
    /// One wire record that failed to decode: dropped, never fatal.
    Malformed,
    /// A transport-level error: fails the session.
    TransportError,
    /// The transport closed without error: completes the session.
    EndOfStream,
    /// The user asked to stop: cancels the session.
    CancelRequested,
}

/// The session state: how many events went to the sink, the optional
/// consumption limit, and the phase.
#[derive(Debug, Clone, Copy)]
pub struct StreamSession {
    pub emitted: usize,
    pub limit: Option<usize>,
    pub phase: SessionPhase,
}

/// The events one step's output contributes to the delivered sequence.
pub open spec fn out_events(o: Option<StreamEvent>) -> Seq<StreamEvent> {
    match o {
        Some(e) => seq![e],
        None => Seq::empty(),
    }
}

/// The transition function: next state and the event (if any) that this
/// input delivers to the output sink.
pub open spec fn spec_step(s: StreamSession, inp: SessionInput) -> (StreamSession, Option<
    StreamEvent,
>) {
    if s.phase != SessionPhase::Streaming {
        (s, None)
    } else {
        match inp {
            SessionInput::Opened => (s, None),
            SessionInput::Malformed => (s, None),
            SessionInput::TransportError => (
                StreamSession { phase: SessionPhase::Failed, ..s },
                None,
            ),
            SessionInput::EndOfStream => (
                StreamSession { phase: SessionPhase::Completed, ..s },
                None,
            ),
            SessionInput::CancelRequested => (
                StreamSession { phase: SessionPhase::Cancelled, ..s },
                None,
            ),
            SessionInput::Event(e) => (count_event(s), Some(e)),
        }
    }
}

/// The state change one delivered event causes: the count rises and,
/// when it reaches the limit, the session completes on the spot.
pub open spec fn count_event(s: StreamSession) -> StreamSession {
    let newc = (s.emitted + 1) as usize;
    let done = match s.limit {
        Some(l) => newc >= l,
        None => false,
    };
    StreamSession {
        emitted: newc,
        phase: if done {
            SessionPhase::Completed
        } else {
            SessionPhase::Streaming
        },
        ..s
    }
}

/// The machine folded over a whole input sequence: final state and the
/// events delivered to the sink, in order.
pub open spec fn spec_run(s: StreamSession, inputs: Seq<SessionInput>) -> (StreamSession, Seq<
    StreamEvent,
>)
    decreases inputs.len(),
{
    if inputs.len() == 0 {
        (s, Seq::empty())
    } else {
        let first = spec_step(s, inputs[0]);
        let rest = spec_run(first.0, inputs.drop_first());
        (rest.0, out_events(first.1) + rest.1)
    }
}

/// An input that neither ends the stream nor signals trouble at the
/// transport: what an uninterrupted feed consists of.
pub open spec fn benign(inp: SessionInput) -> bool {
    match inp {
        SessionInput::Opened => true,
        SessionInput::Event(_) => true,
        SessionInput::Malformed => true,
        SessionInput::TransportError => false,
        SessionInput::EndOfStream => false,
        SessionInput::CancelRequested => false,
    }
}

/// The events an input sequence carries, in arrival order. A malformed
/// or connection-level input occupies no slot here.
pub open spec fn events_of(inputs: Seq<SessionInput>) -> Seq<StreamEvent>
    decreases inputs.len(),
{
    if inputs.len() == 0 {
        Seq::empty()
    } else {
        (match inputs[0] {
            SessionInput::Event(e) => seq![e],
            _ => Seq::empty(),
        }) + events_of(inputs.drop_first())
    }
}

/// The machine folded over a sequence of framed records: a record that
/// decodes is delivered and counted, one that does not is dropped, and
/// consumption stops once the session leaves `Streaming`. The result
/// is the final state and the field tuples (address, chain, price,
/// timestamp, price timestamp) of the delivered events, in order.
pub open spec fn run_records(s: StreamSession, records: Seq<Seq<u8>>) -> (StreamSession, Seq<
    (Seq<char>, Seq<char>, Seq<char>, i64, i64),
>)
    decreases records.len(),
{
    if records.len() == 0 || s.phase != SessionPhase::Streaming {
        (s, Seq::empty())
    } else if decode_ok(records[0]) {
        let rest = run_records(count_event(s), records.drop_first());
        (rest.0, seq![spec_decoded_fields(records[0])] + rest.1)
    } else {
        run_records(s, records.drop_first())
    }
}

/// Appending one record to a run: while the session still streams, a
/// decoding record is delivered and counted, any other appended record
/// changes nothing.
proof fn lemma_run_records_snoc(s: StreamSession, records: Seq<Seq<u8>>, rec: Seq<u8>)
    ensures
        ({
            let prior = run_records(s, records);
            let whole = run_records(s, records.push(rec));
            if prior.0.phase != SessionPhase::Streaming {
                whole == prior
            } else if decode_ok(rec) {
                whole.0 == count_event(prior.0) && whole.1 == prior.1.push(
                    spec_decoded_fields(rec),
                )
            } else {
                whole == prior
            }
        }),
    decreases records.len(),
{
    let prior = run_records(s, records);
    let w = records.push(rec);
    let whole = run_records(s, w);
    if records.len() == 0 {
        assert(prior == (s, Seq::<(Seq<char>, Seq<char>, Seq<char>, i64, i64)>::empty()));
        if s.phase == SessionPhase::Streaming {
            assert(w[0] == rec);
            assert(w.drop_first() =~= Seq::<Seq<u8>>::empty());
            if decode_ok(rec) {
                let rest = run_records(count_event(s), w.drop_first());
                assert(rest == (
                    count_event(s),
                    Seq::<(Seq<char>, Seq<char>, Seq<char>, i64, i64)>::empty(),
                ));
                assert(whole.1 =~= prior.1.push(spec_decoded_fields(rec)));
            } else {
                assert(whole == run_records(s, w.drop_first()));
                assert(whole == prior);
            }
        }
    } else if s.phase != SessionPhase::Streaming {
        assert(whole == (s, Seq::<(Seq<char>, Seq<char>, Seq<char>, i64, i64)>::empty()));
        assert(whole == prior);
    } else {
        assert(w[0] == records[0]);
        assert(w.drop_first() =~= records.drop_first().push(rec));
        if decode_ok(records[0]) {
            let f0 = spec_decoded_fields(records[0]);
            let prior2 = run_records(count_event(s), records.drop_first());
            let x = run_records(count_event(s), w.drop_first());
            lemma_run_records_snoc(count_event(s), records.drop_first(), rec);
            assert(prior.0 == prior2.0 && prior.1 == seq![f0] + prior2.1);
            assert(whole.0 == x.0 && whole.1 == seq![f0] + x.1);
            if prior2.0.phase != SessionPhase::Streaming {
                assert(x == prior2);
                assert(whole.1 =~= prior.1);
            } else if decode_ok(rec) {
                assert(x.0 == count_event(prior2.0));
                assert(x.1 == prior2.1.push(spec_decoded_fields(rec)));
                assert(whole.1 =~= prior.1.push(spec_decoded_fields(rec)));
            } else {
                assert(x == prior2);
                assert(whole.1 =~= prior.1);
            }
        } else {
            lemma_run_records_snoc(s, records.drop_first(), rec);
            assert(prior == run_records(s, records.drop_first()));
            assert(whole == run_records(s, w.drop_first()));
        }
    }
}

/// The decoded field tuples a record sequence carries, in order: one
/// tuple per record that decodes, nothing for a record that does not.
pub open spec fn decoded_of(records: Seq<Seq<u8>>) -> Seq<(Seq<char>, Seq<char>, Seq<char>, i64, i64)>
    decreases records.len(),
{
    if records.len() == 0 {
        Seq::empty()
    } else {
        (if decode_ok(records[0]) {
            seq![spec_decoded_fields(records[0])]
        } else {
            Seq::empty()
        }) + decoded_of(records.drop_first())
    }
}

/// The bounded-output law at the wire level. A session streaming under
/// limit `l`, fed records that carry at least the `l - emitted`
/// decoding records it still accepts, delivers exactly the fields of
/// those first decoding records, in order, and ends in `Completed`
/// with its count at the limit — however many malformed records are
/// interleaved and however many further records the feed holds.
pub proof fn lemma_records_complete_at_limit(s: StreamSession, records: Seq<Seq<u8>>)
    requires
        s.wf(),
        s.phase == SessionPhase::Streaming,
        s.limit matches Some(l) && decoded_of(records).len() >= l - s.emitted,
    ensures
        ({
            let rr = run_records(s, records);
            &&& rr.1 == decoded_of(records).take(s.limit->Some_0 - s.emitted)
            &&& rr.0.phase == SessionPhase::Completed
            &&& rr.0.emitted == s.limit->Some_0
            &&& rr.0.limit == s.limit
        }),
    decreases records.len(),
{
    let l = s.limit->Some_0;
    if records.len() == 0 {
        assert(false);
    } else {
        let tail = records.drop_first();
        if decode_ok(records[0]) {
            let f0 = spec_decoded_fields(records[0]);
            assert(decoded_of(records) =~= seq![f0] + decoded_of(tail));
            if s.emitted + 1 >= l {
                assert(s.emitted + 1 == l);
                let s1 = count_event(s);
                assert(s1.phase == SessionPhase::Completed);
                assert(run_records(s1, tail) == (
                    s1,
                    Seq::<(Seq<char>, Seq<char>, Seq<char>, i64, i64)>::empty(),
                ));
                assert(run_records(s, records).1 =~= seq![f0]);
                assert(decoded_of(records).take(l - s.emitted) =~= seq![f0]);
            } else {
                lemma_records_complete_at_limit(count_event(s), tail);
                assert(run_records(s, records).1 =~= seq![f0] + run_records(
                    count_event(s),
                    tail,
                ).1);
                assert(decoded_of(records).take(l - s.emitted) =~= seq![f0] + decoded_of(
                    tail,
                ).take(l - s.emitted - 1));
            }
        } else {
            assert(decoded_of(records) =~= decoded_of(tail));
            lemma_records_complete_at_limit(s, tail);
            assert(run_records(s, records).1 =~= run_records(s, tail).1);
        }
    }
}

/// Splitting a record sequence splits the run: the machine over
/// `a + b` is the machine over `a`, then over `b` from where `a` left
/// it, with the delivered events concatenated. Together with the
/// framer's chunking transparency this composes [`MultiSession::on_chunk`]'s
/// per-call contract over a whole stream: however the bytes were
/// chunked, the session's deliveries are the run over the records of
/// the whole byte sequence.
pub proof fn lemma_run_records_concat(s: StreamSession, a: Seq<Seq<u8>>, b: Seq<Seq<u8>>)
    ensures
        ({
            let ra = run_records(s, a);
            let rb = run_records(ra.0, b);
            let rw = run_records(s, a + b);
            rw.0 == rb.0 && rw.1 == ra.1 + rb.1
        }),
    decreases a.len(),
{
    let ra = run_records(s, a);
    let rb = run_records(ra.0, b);
    let rw = run_records(s, a + b);
    if a.len() == 0 {
        assert(a + b =~= b);
        assert(ra == (s, Seq::<(Seq<char>, Seq<char>, Seq<char>, i64, i64)>::empty()));
        assert(rw.1 =~= ra.1 + rb.1);
    } else if s.phase != SessionPhase::Streaming {
        assert(ra == (s, Seq::<(Seq<char>, Seq<char>, Seq<char>, i64, i64)>::empty()));
        assert(rb == (s, Seq::<(Seq<char>, Seq<char>, Seq<char>, i64, i64)>::empty()));
        assert(rw == (s, Seq::<(Seq<char>, Seq<char>, Seq<char>, i64, i64)>::empty()));
        assert(rw.1 =~= ra.1 + rb.1);
    } else {
        assert((a + b)[0] == a[0]);
        assert((a + b).drop_first() =~= a.drop_first() + b);
        if decode_ok(a[0]) {
            let f0 = spec_decoded_fields(a[0]);
            lemma_run_records_concat(count_event(s), a.drop_first(), b);
            let ra2 = run_records(count_event(s), a.drop_first());
            assert(ra.0 == ra2.0 && ra.1 == seq![f0] + ra2.1);
            let x = run_records(count_event(s), a.drop_first() + b);
            assert(rw.0 == x.0 && rw.1 == seq![f0] + x.1);
            assert(rw.1 =~= ra.1 + rb.1);
        } else {
            lemma_run_records_concat(s, a.drop_first(), b);
        }
    }
}

impl StreamSession {
    /// The state invariant: a limited session never passes its limit,
    /// and is still under it while streaming.
    pub open spec fn wf(self) -> bool {
        self.limit matches Some(l) ==> self.emitted <= l && (self.phase
            == SessionPhase::Streaming ==> self.emitted < l)
    }

    /// A fresh session: nothing emitted; with an explicit limit of zero
    /// there is nothing to do and the session is complete already.
    pub fn new(limit: Option<usize>) -> (r: Self)
        ensures
            r.wf(),
            r.emitted == 0,
            r.limit == limit,
            r.phase == (if limit == Some(0usize) {
                SessionPhase::Completed
            } else {
                SessionPhase::Streaming
            }),
    {
        let phase = match limit {
            Some(0) => SessionPhase::Completed,
            _ => SessionPhase::Streaming,
        };
        StreamSession { emitted: 0, limit, phase }
    }

    /// Feed one input through the transition function.
    pub fn apply(&mut self, inp: SessionInput) -> (r: Option<StreamEvent>)
        requires
            old(self).wf(),
            old(self).limit is None && (inp matches SessionInput::Event(_)) ==> old(
                self,
            ).emitted < usize::MAX,
        ensures
            final(self).wf(),
            (*final(self), r) == spec_step(*old(self), inp),
    {
        match self.phase {
            SessionPhase::Streaming => {
                match inp {
                    SessionInput::Opened => None,
                    SessionInput::Malformed => None,
                    SessionInput::TransportError => {
                        self.phase = SessionPhase::Failed;
                        None
                    },
                    SessionInput::EndOfStream => {
                        self.phase = SessionPhase::Completed;
                        None
                    },
                    SessionInput::CancelRequested => {
                        self.phase = SessionPhase::Cancelled;
                        None
                    },
                    SessionInput::Event(e) => {
                        self.emitted = self.emitted + 1;
                        let done = match self.limit {
                            Some(l) => self.emitted >= l,
                            None => false,
                        };
                        if done {
                            self.phase = SessionPhase::Completed;
                        }
                        Some(e)
                    },
                }
            },
            _ => None,
        }
    }
}

/// A terminal session ignores every further input: the state stays put
/// and nothing more is delivered.
pub proof fn lemma_run_terminal(s: StreamSession, inputs: Seq<SessionInput>)
    requires
        s.phase != SessionPhase::Streaming,
    ensures
        spec_run(s, inputs) == (s, Seq::<StreamEvent>::empty()),
    decreases inputs.len(),
{
    if inputs.len() == 0 {
    } else {
        lemma_run_terminal(s, inputs.drop_first());
        assert(out_events(None) + Seq::<StreamEvent>::empty() =~= Seq::<StreamEvent>::empty());
    }
}

/// The bounded-output law. A session streaming under limit `l`, fed
/// only benign inputs that carry at least the `l - emitted` events it
/// still accepts, delivers exactly those first events, in arrival
/// order, and ends in `Completed` with its count at the limit —
/// whatever else (keep-alives, malformed records) is interleaved, and
/// however many further events the feed would have produced.
pub proof fn lemma_run_completes_at_limit(s: StreamSession, inputs: Seq<SessionInput>)
    requires
        s.wf(),
        s.phase == SessionPhase::Streaming,
        s.limit matches Some(l) && events_of(inputs).len() >= l - s.emitted,
        forall|i: int| 0 <= i < inputs.len() ==> benign(#[trigger] inputs[i]),
    ensures
        ({
            let r = spec_run(s, inputs);
            &&& r.1 == events_of(inputs).take(s.limit->Some_0 - s.emitted)
            &&& r.0.phase == SessionPhase::Completed
            &&& r.0.emitted == s.limit->Some_0
            &&& r.0.limit == s.limit
        }),
    decreases inputs.len(),
{
    let l = s.limit->Some_0;
    if inputs.len() == 0 {
        assert(false);
    } else {
        let first = spec_step(s, inputs[0]);
        let tail = inputs.drop_first();
        assert(forall|i: int| 0 <= i < tail.len() ==> benign(#[trigger] tail[i]));
        match inputs[0] {
            SessionInput::Event(e0) => {
                assert(events_of(inputs) =~= seq![e0] + events_of(tail));
                if s.emitted + 1 >= l {
                    assert(s.emitted + 1 == l);
                    assert(first.0.phase == SessionPhase::Completed);
                    lemma_run_terminal(first.0, tail);
                    assert(spec_run(s, inputs).1 =~= seq![e0]);
                    assert(events_of(inputs).take(l - s.emitted) =~= seq![e0]);
                } else {
                    lemma_run_completes_at_limit(first.0, tail);
                    assert(spec_run(s, inputs).1 =~= seq![e0] + spec_run(first.0, tail).1);
                    assert(events_of(inputs).take(l - s.emitted) =~= seq![e0] + events_of(
                        tail,
                    ).take(l - s.emitted - 1));
                }
            },
            SessionInput::Opened => {
                assert(first.0 == s);
                assert(events_of(inputs) =~= events_of(tail));
                lemma_run_completes_at_limit(s, tail);
                assert(spec_run(s, inputs).1 =~= spec_run(s, tail).1);
            },
            SessionInput::Malformed => {
                assert(first.0 == s);
                assert(events_of(inputs) =~= events_of(tail));
                lemma_run_completes_at_limit(s, tail);
                assert(spec_run(s, inputs).1 =~= spec_run(s, tail).1);
            },
            _ => {
                assert(false);
            },
        }
    }
}

/// A single-subscription session: one state machine fed one decoded
/// message at a time. The transport (an event-stream connection) and
/// the output sink live with the caller; the machine here makes every
/// decision.
pub struct SingleSession {
    pub session: StreamSession,
}

impl SingleSession {
    pub open spec fn wf(self) -> bool {
        self.session.wf()
    }

    pub fn new(limit: Option<usize>) -> (r: Self)
        ensures
            r.wf(),
            r.session == StreamSession::new_spec(limit),
    {
        SingleSession { session: StreamSession::new(limit) }
    }

    /// One inbound message: decode it and step the machine. `Ok(e)`
    /// means `e` was delivered to the output sink and counted — exactly
    /// when the payload decodes, with the payload's five fields
    /// losslessly renamed. `Err` reports why the record was dropped
    /// (for a diagnostic line); the state is then unchanged.
    pub fn on_message(&mut self, data: &[u8]) -> (r: Result<StreamEvent, DecodeError>)
        requires
            old(self).wf(),
            old(self).session.phase == SessionPhase::Streaming,
            old(self).session.limit is None ==> old(self).session.emitted < usize::MAX,
        ensures
            final(self).wf(),
            final(self).session.limit == old(self).session.limit,
            match spec_decode_error(data@) {
                Some(err) => r == Err::<StreamEvent, DecodeError>(err) && final(self).session
                    == old(self).session,
                None => r matches Ok(ev) && event_matches_payload(ev, data@) && (
                final(self).session, Some(ev)) == spec_step(
                    old(self).session,
                    SessionInput::Event(ev),
                ),
            },
    {
        match decode_record(data) {
            Ok(event) => {
                let delivered = self.session.apply(SessionInput::Event(event));
                match delivered {
                    Some(ev) => Ok(ev),
                    None => {
                        // The machine delivers every event while it is
                        // streaming; this arm is unreachable.
                        Err(DecodeError::NotJson)
                    },
                }
            },
            Err(err) => {
                let _ = self.session.apply(SessionInput::Malformed);
                Err(err)
            },
        }
    }

    /// A connection-level signal: open, error, end-of-stream or
    /// cancellation. Never an event.
    pub fn signal(&mut self, inp: SessionInput)
        requires
            old(self).wf(),
            !(inp matches SessionInput::Event(_)),
        ensures
            final(self).wf(),
            final(self).session == spec_step(old(self).session, inp).0,
            final(self).session.emitted == old(self).session.emitted,
    {
        let _ = self.session.apply(inp);
    }
}

impl StreamSession {
    /// What `new` returns, for use in contracts.
    pub open spec fn new_spec(limit: Option<usize>) -> StreamSession {
        StreamSession {
            emitted: 0,
            limit,
            phase: if limit == Some(0usize) {
                SessionPhase::Completed
            } else {
                SessionPhase::Streaming
            },
        }
    }
}

/// A multi-subscription session: the line framer feeding the decoder
/// feeding the state machine. The transport (a byte-stream response)
/// and the output sink live with the caller.
pub struct MultiSession {
    pub framer: LineFramer,
    pub session: StreamSession,
}

impl MultiSession {
    pub open spec fn wf(self) -> bool {
        self.framer.wf() && self.session.wf()
    }

    pub fn new(limit: Option<usize>) -> (r: Self)
        ensures
            r.wf(),
            r.session == StreamSession::new_spec(limit),
            r.framer.fed() == Seq::<u8>::empty(),
            r.framer.emitted() == Seq::<Seq<u8>>::empty(),
    {
        MultiSession { framer: LineFramer::new(), session: StreamSession::new(limit) }
    }

    /// One inbound chunk: buffer it, then frame, decode and apply
    /// records while the session is still streaming. The returned
    /// events must go to the output sink now, in order.
    ///
    /// Once the session leaves `Streaming` (the limit is reached), no
    /// further record is framed or decoded: the rest of the buffer is
    /// simply dropped, as are all later chunks.
    ///
    /// The delivered events are pinned exactly: the state and the
    /// returned events equal [`run_records`] folded over the records
    /// the framer emitted during this call, so each event carries, in
    /// order, the losslessly renamed fields of one decoding record.
    pub fn on_chunk(&mut self, chunk: &[u8]) -> (out: Vec<StreamEvent>)
        requires
            old(self).wf(),
            old(self).session.limit is None ==> old(self).session.emitted
                + old(self).framer.pending().len() + chunk@.len() < usize::MAX,
        ensures
            final(self).wf(),
            final(self).framer.fed() == old(self).framer.fed() + chunk@,
            final(self).session.limit == old(self).session.limit,
            final(self).session.emitted == old(self).session.emitted + out@.len(),
            old(self).framer.emitted().is_prefix_of(final(self).framer.emitted()),
            ({
                let fresh = final(self).framer.emitted().skip(
                    old(self).framer.emitted().len() as int,
                );
                let rr = run_records(old(self).session, fresh);
                &&& final(self).session == rr.0
                &&& out@.len() == rr.1.len()
                &&& forall|i: int|
                    0 <= i < out@.len() ==> (#[trigger] out@[i]).address@ == rr.1[i].0
                        && out@[i].chain@ == rr.1[i].1 && out@[i].price_usd@ == rr.1[i].2
                        && out@[i].timestamp == rr.1[i].3 && out@[i].price_timestamp
                        == rr.1[i].4
            }),
            old(self).session.phase != SessionPhase::Streaming ==> final(self).session
                == old(self).session && out@.len() == 0,
            final(self).session.phase == SessionPhase::Streaming ==> find_nl(
                final(self).framer.pending(),
            ) == final(self).framer.pending().len(),
            final(self).session.phase != old(self).session.phase ==> final(self).session.phase
                == SessionPhase::Completed,
    {
        let ghost budget = old(self).session.emitted + old(self).framer.pending().len()
            + chunk@.len();
        let ghost base = old(self).framer.emitted().len() as int;
        self.framer.push_chunk(chunk);
        let mut out: Vec<StreamEvent> = Vec::new();
        proof {
            assert(self.framer.emitted().skip(base) =~= Seq::<Seq<u8>>::empty());
        }
        loop
            invariant
                self.wf(),
                self.framer.fed() == old(self).framer.fed() + chunk@,
                self.session.limit == old(self).session.limit,
                self.session.emitted == old(self).session.emitted + out@.len(),
                self.session.limit is None ==> self.session.emitted
                    + self.framer.pending().len() <= budget && budget < usize::MAX,
                base == old(self).framer.emitted().len(),
                old(self).framer.emitted().is_prefix_of(self.framer.emitted()),
                ({
                    let fresh = self.framer.emitted().skip(base);
                    let rr = run_records(old(self).session, fresh);
                    &&& self.session == rr.0
                    &&& out@.len() == rr.1.len()
                    &&& forall|i: int|
                        0 <= i < out@.len() ==> (#[trigger] out@[i]).address@ == rr.1[i].0
                            && out@[i].chain@ == rr.1[i].1 && out@[i].price_usd@ == rr.1[i].2
                            && out@[i].timestamp == rr.1[i].3 && out@[i].price_timestamp
                            == rr.1[i].4
                }),
                old(self).session.phase != SessionPhase::Streaming ==> self.session
                    == old(self).session && out@.len() == 0,
                self.session.phase != old(self).session.phase ==> self.session.phase
                    == SessionPhase::Completed,
            decreases self.framer.pending().len(),
        {
            match self.session.phase {
                SessionPhase::Streaming => {},
                _ => {
                    return out;
                },
            }
            let ghost fresh0 = self.framer.emitted().skip(base);
            let rec = match self.framer.next_record() {
                Some(rec) => rec,
                None => {
                    return out;
                },
            };
            proof {
                assert(self.framer.emitted().skip(base) =~= fresh0.push(rec@));
                lemma_run_records_snoc(old(self).session, fresh0, rec@);
            }
            match decode_record(rec.as_slice()) {
                Ok(event) => {
                    proof {
                        assert(decode_ok(rec@));
                    }
                    match self.session.apply(SessionInput::Event(event)) {
                        Some(e) => {
                            out.push(e);
                        },
                        None => {},
                    }
                },
                Err(_) => {
                    proof {
                        assert(!decode_ok(rec@));
                    }
                    let _ = self.session.apply(SessionInput::Malformed);
                },
            }
        }
    }

    /// How many bytes wait in the framer for a closing newline.
    pub fn pending_len(&self) -> (n: usize)
        ensures
            n == self.framer.pending().len(),
    {
        self.framer.pending_len()
    }

    /// A connection-level signal: error, end-of-stream or cancellation.
    pub fn signal(&mut self, inp: SessionInput)
        requires
            old(self).wf(),
            !(inp matches SessionInput::Event(_)),
        ensures
            final(self).wf(),
            final(self).session == spec_step(old(self).session, inp).0,
            final(self).session.emitted == old(self).session.emitted,
            final(self).framer == old(self).framer,
    {
        let _ = self.session.apply(inp);
    }
}

/// A dropped record never moves the count: the `Malformed` step leaves
/// the session exactly as it was, so a discarded record occupies no
/// ordinal slot in the delivered sequence.
pub proof fn lemma_malformed_preserves_state(s: StreamSession)
    ensures
        spec_step(s, SessionInput::Malformed) == (s, None::<StreamEvent>),
{
}

} // verus!
