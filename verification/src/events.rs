//! The event decoder: one wire record in, one normalized event out.
//!
//! A wire record is a JSON object with the five short protocol keys
//! `a`, `c`, `p`, `t`, `t_p`. All five are required; a record missing one,
//! or carrying a value of the wrong type, is rejected with an error naming
//! the first offending field. Decoding is pure: it never ends a session.

use vstd::prelude::*;

use crate::json;

verus! {

/// One wire-format price update with all five protocol fields present
/// (wire keys: `a` address, `c` chain, `p` price, `t` event timestamp,
/// `t_p` price-observation timestamp, both timestamps in epoch seconds).
#[derive(Debug, Clone)]
pub struct RawStreamEvent {
    pub address: String,
    pub chain: String,
    pub price_usd: String,
    pub timestamp: i64,
    pub price_timestamp: i64,
}

/// The consumer-facing event: the same five values as [`RawStreamEvent`],
/// under readable names. The price stays a string so no decimal precision
/// is lost; timestamps stay integral epoch seconds.
#[derive(Debug, Clone)]
pub struct StreamEvent {
    pub address: String,
    pub chain: String,
    pub price_usd: String,
    pub timestamp: i64,
    pub price_timestamp: i64,
}

/// The five required wire fields, in the order the decoder checks them.
#[derive(Clone, Copy, Debug, PartialEq, Eq, Structural)]
pub enum WireField {
    Address,
    Chain,
    PriceUsd,
    Timestamp,
    PriceTimestamp,
}

/// Why one wire record was rejected. A rejected record is discarded and
/// the stream goes on: decode failures never end a session.
#[derive(Clone, Copy, Debug, PartialEq, Eq, Structural)]
pub enum DecodeError {
    /// The record is not a well-formed JSON value.
    NotJson,
    /// The record parses, but the named field is missing or has the
    /// wrong type.
    MalformedEvent(WireField),
}

/// What assembling a record from its five extracted fields yields: the
/// wire event when all five are present, otherwise the first missing
/// field in wire order.
pub open spec fn spec_assemble(
    address: Option<String>,
    chain: Option<String>,
    price_usd: Option<String>,
    timestamp: Option<i64>,
    price_timestamp: Option<i64>,
) -> Result<RawStreamEvent, DecodeError> {
    if address is None {
        Err(DecodeError::MalformedEvent(WireField::Address))
    } else if chain is None {
        Err(DecodeError::MalformedEvent(WireField::Chain))
    } else if price_usd is None {
        Err(DecodeError::MalformedEvent(WireField::PriceUsd))
    } else if timestamp is None {
        Err(DecodeError::MalformedEvent(WireField::Timestamp))
    } else if price_timestamp is None {
        Err(DecodeError::MalformedEvent(WireField::PriceTimestamp))
    } else {
        Ok(
            RawStreamEvent {
                address: address->Some_0,
                chain: chain->Some_0,
                price_usd: price_usd->Some_0,
                timestamp: timestamp->Some_0,
                price_timestamp: price_timestamp->Some_0,
            },
        )
    }
}

/// Assemble a wire event from the five extracted protocol fields, or
/// report the first field (in wire order) that the record lacks.
pub fn assemble_event(
    address: Option<String>,
    chain: Option<String>,
    price_usd: Option<String>,
    timestamp: Option<i64>,
    price_timestamp: Option<i64>,
) -> (r: Result<RawStreamEvent, DecodeError>)
    ensures
        r == spec_assemble(address, chain, price_usd, timestamp, price_timestamp),
{
    let a = match address {
        Some(v) => v,
        None => {
            return Err(DecodeError::MalformedEvent(WireField::Address));
        },
    };
    let c = match chain {
        Some(v) => v,
        None => {
            return Err(DecodeError::MalformedEvent(WireField::Chain));
        },
    };
    let p = match price_usd {
        Some(v) => v,
        None => {
            return Err(DecodeError::MalformedEvent(WireField::PriceUsd));
        },
    };
    let t = match timestamp {
        Some(v) => v,
        None => {
            return Err(DecodeError::MalformedEvent(WireField::Timestamp));
        },
    };
    let tp = match price_timestamp {
        Some(v) => v,
        None => {
            return Err(DecodeError::MalformedEvent(WireField::PriceTimestamp));
        },
    };
    Ok(RawStreamEvent { address: a, chain: c, price_usd: p, timestamp: t, price_timestamp: tp })
}

impl From<RawStreamEvent> for StreamEvent {
    /// The normalization step: a lossless rename of the five wire fields.
    fn from(raw: RawStreamEvent) -> (r: Self) {
        StreamEvent {
            address: raw.address,
            chain: raw.chain,
            price_usd: raw.price_usd,
            timestamp: raw.timestamp,
            price_timestamp: raw.price_timestamp,
        }
    }
}

impl vstd::std_specs::convert::FromSpecImpl<RawStreamEvent> for StreamEvent {
    open spec fn obeys_from_spec() -> bool {
        true
    }

    open spec fn from_spec(raw: RawStreamEvent) -> Self {
        StreamEvent {
            address: raw.address,
            chain: raw.chain,
            price_usd: raw.price_usd,
            timestamp: raw.timestamp,
            price_timestamp: raw.price_timestamp,
        }
    }
}

impl WireField {
    /// The wire key this field is carried under.
    pub fn wire_key(&self) -> (r: &'static str)
        ensures
            r@ == (match *self {
                WireField::Address => "a"@,
                WireField::Chain => "c"@,
                WireField::PriceUsd => "p"@,
                WireField::Timestamp => "t"@,
                WireField::PriceTimestamp => "t_p"@,
            }),
    {
        match self {
            WireField::Address => "a",
            WireField::Chain => "c",
            WireField::PriceUsd => "p",
            WireField::Timestamp => "t",
            WireField::PriceTimestamp => "t_p",
        }
    }
}

/// The first wire field (in wire order) missing from an extracted
/// record, if any.
pub open spec fn spec_first_missing(
    f: (Option<Seq<char>>, Option<Seq<char>>, Option<Seq<char>>, Option<i64>, Option<i64>),
) -> Option<WireField> {
    if f.0 is None {
        Some(WireField::Address)
    } else if f.1 is None {
        Some(WireField::Chain)
    } else if f.2 is None {
        Some(WireField::PriceUsd)
    } else if f.3 is None {
        Some(WireField::Timestamp)
    } else if f.4 is None {
        Some(WireField::PriceTimestamp)
    } else {
        None
    }
}

/// Why decoding this payload fails, if it does: unparseable bytes are
/// `NotJson`, a parsed record lacking a field is `MalformedEvent`
/// naming the first missing field, and a record with all five fields
/// decodes cleanly.
pub open spec fn spec_decode_error(payload: Seq<u8>) -> Option<DecodeError> {
    match json::wire_fields_of(payload) {
        None => Some(DecodeError::NotJson),
        Some(f) => match spec_first_missing(f) {
            Some(w) => Some(DecodeError::MalformedEvent(w)),
            None => None,
        },
    }
}

/// Does this payload decode to an event?
pub open spec fn decode_ok(payload: Seq<u8>) -> bool {
    spec_decode_error(payload) is None
}

/// The five field values of a cleanly decoding payload, in wire order.
pub open spec fn spec_decoded_fields(payload: Seq<u8>) -> (
    Seq<char>,
    Seq<char>,
    Seq<char>,
    i64,
    i64,
) {
    let f = json::wire_fields_of(payload)->Some_0;
    (f.0->Some_0, f.1->Some_0, f.2->Some_0, f.3->Some_0, f.4->Some_0)
}

/// Is `e` the normalized event of this payload: each wire field,
/// losslessly renamed?
pub open spec fn event_matches_payload(e: StreamEvent, payload: Seq<u8>) -> bool {
    &&& e.address@ == spec_decoded_fields(payload).0
    &&& e.chain@ == spec_decoded_fields(payload).1
    &&& e.price_usd@ == spec_decoded_fields(payload).2
    &&& e.timestamp == spec_decoded_fields(payload).3
    &&& e.price_timestamp == spec_decoded_fields(payload).4
}

/// Decode one wire record: parse the JSON text, pull out the five
/// protocol fields, and assemble the normalized event. Exactly the
/// payloads with all five fields decode; every other payload yields
/// the error [`spec_decode_error`] fixes for it.
pub fn decode_record(payload: &[u8]) -> (r: Result<StreamEvent, DecodeError>)
    ensures
        match spec_decode_error(payload@) {
            Some(err) => r == Err::<StreamEvent, DecodeError>(err),
            None => r matches Ok(e) && event_matches_payload(e, payload@),
        },
{
    let fields = match json::extract_wire_fields(payload) {
        Some(f) => f,
        None => {
            return Err(DecodeError::NotJson);
        },
    };
    let ghost fv = json::fields_view(fields);
    let (address, chain, price_usd, timestamp, price_timestamp) = fields;
    proof {
        assert(fv.0 is Some <==> address is Some);
        assert(fv.1 is Some <==> chain is Some);
        assert(fv.2 is Some <==> price_usd is Some);
        assert(fv.3 == timestamp && fv.4 == price_timestamp);
    }
    match assemble_event(address, chain, price_usd, timestamp, price_timestamp) {
        Ok(raw) => {
            let event = StreamEvent::from(raw);
            proof {
                assert(spec_first_missing(fv) is None);
                assert(event_matches_payload(event, payload@));
            }
            Ok(event)
        },
        Err(err) => {
            proof {
                assert(spec_first_missing(fv) matches Some(w) && err
                    == DecodeError::MalformedEvent(w));
            }
            Err(err)
        },
    }
}

} // verus!
