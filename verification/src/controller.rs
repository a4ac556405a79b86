//! The stream controller: validates the caller's input and selects the
//! session mode, before any connection is opened.
//!
//! The two subscription modes are mutually exclusive: either a single
//! (network, token-address) pair, streamed over an event-stream
//! connection, or a watchlist file, streamed over a byte-stream
//! connection. An explicit limit of zero is a valid no-op request.

use vstd::prelude::*;
use vstd::string::StringExecFns;

verus! {

/// The validated request: what the caller actually asked for.
#[derive(Debug, Clone)]
pub enum StreamPlan {
    /// An explicit limit of zero: succeed at once, emit nothing, open
    /// no connection.
    NoOp,
    /// Stream one token on one network.
    Single { network: String, address: String },
    /// Stream every token of the watchlist in this file.
    Multi { watchlist_path: String },
}

/// Why a request was rejected before any I/O.
#[derive(Debug, Clone, Copy, PartialEq, Eq, Structural)]
pub enum ConfigError {
    /// Both a (network, address) pair and a watchlist file were given.
    ConflictingMode,
    /// Neither mode was given, or only half of the pair.
    MissingTarget,
}

/// The validation and mode-selection policy, in order: a zero limit is
/// a no-op; a watchlist combined with any half of the pair is a
/// conflict; a watchlist alone selects multi mode; a full pair selects
/// single mode; anything else names no target.
pub open spec fn spec_plan(
    network: Option<String>,
    token_address: Option<String>,
    tokens_file: Option<String>,
    limit: Option<usize>,
) -> Result<StreamPlan, ConfigError> {
    if limit == Some(0usize) {
        Ok(StreamPlan::NoOp)
    } else if tokens_file is Some && (network is Some || token_address is Some) {
        Err(ConfigError::ConflictingMode)
    } else if tokens_file is Some {
        Ok(StreamPlan::Multi { watchlist_path: tokens_file->Some_0 })
    } else if network is Some && token_address is Some {
        Ok(StreamPlan::Single { network: network->Some_0, address: token_address->Some_0 })
    } else {
        Err(ConfigError::MissingTarget)
    }
}

/// Validate a stream request and pick the session mode. Pure: performs
/// no I/O, so every rejection precedes any connection attempt.
pub fn plan_stream(
    network: Option<String>,
    token_address: Option<String>,
    tokens_file: Option<String>,
    limit: Option<usize>,
) -> (r: Result<StreamPlan, ConfigError>)
    ensures
        r == spec_plan(network, token_address, tokens_file, limit),
{
    if let Some(0) = limit {
        return Ok(StreamPlan::NoOp);
    }
    match tokens_file {
        Some(p) => {
            if network.is_some() || token_address.is_some() {
                Err(ConfigError::ConflictingMode)
            } else {
                Ok(StreamPlan::Multi { watchlist_path: p })
            }
        },
        None => {
            match (network, token_address) {
                (Some(n), Some(a)) => Ok(StreamPlan::Single { network: n, address: a }),
                _ => Err(ConfigError::MissingTarget),
            }
        },
    }
}

/// The event-stream endpoint for one (network, address) pair: the fixed
/// stream base with the price-ticker method and the pair in the query.
pub open spec fn spec_stream_url(network: Seq<char>, address: Seq<char>) -> Seq<char> {
    "https://streaming.dexpaprika.com/stream?method=t_p&chain="@ + network + "&address="@ + address
}

/// Build the single-subscription connection URL.
pub fn stream_url(network: &str, address: &str) -> (r: String)
    ensures
        r@ == spec_stream_url(network@, address@),
{
    let mut r = String::from_str("https://streaming.dexpaprika.com/stream?method=t_p&chain=");
    r.append(network);
    r.append("&address=");
    r.append(address);
    r
}

} // verus!
