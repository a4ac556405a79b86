//! The watchlist loader: validates a user-supplied token list.
//!
//! A watchlist is a JSON array of objects, each with non-empty string
//! fields `chain` and `address`. Validation happens entirely before any
//! connection is opened, in this order: an empty list is rejected, then
//! entries are checked in file order and the first incomplete one is
//! reported by index, then the hard entry cap is enforced.

use vstd::prelude::*;

use crate::json;

verus! {

/// Hard cap on watchlist entries per stream connection.
pub const MAX_WATCHLIST_TARGETS: usize = 2000;

/// One validated subscription target: one token on one network.
/// Both fields are non-empty once validation has passed.
#[derive(Debug, Clone)]
pub struct SubscriptionTarget {
    pub chain: String,
    pub address: String,
}

impl SubscriptionTarget {
    /// The validated shape: both fields non-empty.
    pub open spec fn wf(self) -> bool {
        self.chain@.len() > 0 && self.address@.len() > 0
    }
}

/// One watchlist entry as read from the file, before validation.
/// A field is `None` when the entry lacks it or it is not a string.
#[derive(Debug, Clone)]
pub struct RawEntry {
    pub chain: Option<String>,
    pub address: Option<String>,
}

/// Why a watchlist was rejected. All of these are fatal to the
/// multi-subscription attempt and precede any network traffic.
#[derive(Debug, Clone, Copy, PartialEq, Eq, Structural)]
pub enum WatchlistError {
    /// The watchlist file could not be read at all.
    ReadError,
    /// The content is not a JSON array of objects.
    ParseError,
    /// The content parses but holds no entries.
    EmptyWatchlist,
    /// The entry at this index is missing `chain` or `address`
    /// (or has an empty value for one of them).
    MissingField(usize),
    /// The entry count, given here, exceeds the hard cap.
    TooManyTargets(usize),
}

/// Is one entry complete: both fields present and non-empty?
pub open spec fn entry_ok(e: RawEntry) -> bool {
    &&& e.chain matches Some(c) && c@.len() > 0
    &&& e.address matches Some(a) && a@.len() > 0
}

/// The views of one entry's two extracted fields.
pub open spec fn entry_fields(e: RawEntry) -> (Option<Seq<char>>, Option<Seq<char>>) {
    (
        match e.chain {
            Some(c) => Some(c@),
            None => None,
        },
        match e.address {
            Some(a) => Some(a@),
            None => None,
        },
    )
}

/// The views of every entry's fields, in order.
pub open spec fn entries_fields(es: Seq<RawEntry>) -> Seq<(Option<Seq<char>>, Option<Seq<char>>)> {
    Seq::new(es.len(), |i: int| entry_fields(es[i]))
}

/// Is one extracted entry complete, judged by its field views?
pub open spec fn fields_ok(f: (Option<Seq<char>>, Option<Seq<char>>)) -> bool {
    &&& f.0 matches Some(c) && c.len() > 0
    &&& f.1 matches Some(a) && a.len() > 0
}

/// [`first_bad`] over extracted field views.
pub open spec fn first_bad_fields(fs: Seq<(Option<Seq<char>>, Option<Seq<char>>)>) -> int
    decreases fs.len(),
{
    if fs.len() == 0 {
        0
    } else if !fields_ok(fs[0]) {
        0
    } else {
        1 + first_bad_fields(fs.drop_first())
    }
}

/// An entry is complete exactly when its field views are, so the two
/// first-incomplete indices agree.
proof fn lemma_first_bad_fields(es: Seq<RawEntry>)
    ensures
        first_bad_fields(entries_fields(es)) == first_bad(es),
    decreases es.len(),
{
    if es.len() == 0 {
    } else {
        assert(entries_fields(es)[0] == entry_fields(es[0]));
        assert(fields_ok(entry_fields(es[0])) == entry_ok(es[0]));
        if entry_ok(es[0]) {
            lemma_first_bad_fields(es.drop_first());
            assert(entries_fields(es).drop_first() =~= entries_fields(es.drop_first()));
        }
    }
}

/// What loading a watchlist from these bytes must yield, case by case
/// over the named extraction: unparseable bytes are `ParseError`; an
/// empty array is `EmptyWatchlist`; otherwise the first incomplete
/// entry is named by index; otherwise a list over the cap is
/// `TooManyTargets` with the count; otherwise every entry becomes a
/// target, in file order, with its field values carried over.
pub open spec fn spec_load_outcome(
    content: Seq<u8>,
    r: Result<Vec<SubscriptionTarget>, WatchlistError>,
) -> bool {
    match crate::json::watchlist_fields_of(content) {
        None => r == Err::<Vec<SubscriptionTarget>, WatchlistError>(WatchlistError::ParseError),
        Some(fs) => {
            let k = first_bad_fields(fs);
            if fs.len() == 0 {
                r == Err::<Vec<SubscriptionTarget>, WatchlistError>(WatchlistError::EmptyWatchlist)
            } else if k < fs.len() {
                r == Err::<Vec<SubscriptionTarget>, WatchlistError>(
                    WatchlistError::MissingField(k as usize),
                )
            } else if fs.len() > MAX_WATCHLIST_TARGETS {
                r == Err::<Vec<SubscriptionTarget>, WatchlistError>(
                    WatchlistError::TooManyTargets(fs.len() as usize),
                )
            } else {
                r matches Ok(ts) && ts@.len() == fs.len() && (forall|i: int|
                    0 <= i < fs.len() ==> (#[trigger] ts@[i]).chain@ == fs[i].0->Some_0
                        && ts@[i].address@ == fs[i].1->Some_0)
            }
        },
    }
}

/// Index of the first incomplete entry, or the length when every entry
/// is complete.
pub open spec fn first_bad(entries: Seq<RawEntry>) -> int
    decreases entries.len(),
{
    if entries.len() == 0 {
        0
    } else if !entry_ok(entries[0]) {
        0
    } else {
        1 + first_bad(entries.drop_first())
    }
}

/// The targets a fully valid entry sequence maps to, in file order.
pub open spec fn targets_of(entries: Seq<RawEntry>) -> Seq<SubscriptionTarget> {
    Seq::new(
        entries.len(),
        |i: int|
            SubscriptionTarget {
                chain: entries[i].chain->Some_0,
                address: entries[i].address->Some_0,
            },
    )
}

/// What `first_bad` means, in plain terms: it stays within bounds, it
/// equals the length exactly when every entry is complete, and when it
/// points inside the list it names an incomplete entry whose
/// predecessors are all complete.
pub proof fn lemma_first_bad_characterization(entries: Seq<RawEntry>)
    ensures
        0 <= first_bad(entries) <= entries.len(),
        first_bad(entries) == entries.len() <==> (forall|i: int|
            0 <= i < entries.len() ==> entry_ok(#[trigger] entries[i])),
        first_bad(entries) < entries.len() ==> !entry_ok(entries[first_bad(entries)]) && (
        forall|i: int| 0 <= i < first_bad(entries) ==> entry_ok(#[trigger] entries[i])),
    decreases entries.len(),
{
    if entries.len() == 0 {
    } else if !entry_ok(entries[0]) {
    } else {
        lemma_first_bad_characterization(entries.drop_first());
        assert forall|i: int| 1 <= i < entries.len() implies entries[i] == entries.drop_first()[i
            - 1] by {}
        if first_bad(entries) < entries.len() {
            assert(entries[first_bad(entries)] == entries.drop_first()[first_bad(entries) - 1]);
        }
    }
}

/// A position whose predecessors are all complete, and which is either
/// the end or an incomplete entry, is where `first_bad` points.
proof fn lemma_first_bad_at(entries: Seq<RawEntry>, i: int)
    requires
        0 <= i <= entries.len(),
        forall|j: int| 0 <= j < i ==> entry_ok(entries[j]),
        i < entries.len() ==> !entry_ok(entries[i]),
    ensures
        first_bad(entries) == i,
    decreases entries.len(),
{
    if entries.len() == 0 {
    } else if !entry_ok(entries[0]) {
    } else {
        assert(forall|j: int| 0 <= j < i - 1 ==> entry_ok(entries.drop_first()[j]));
        lemma_first_bad_at(entries.drop_first(), i - 1);
    }
}

/// Validate the entries read from a watchlist file.
///
/// Exactly one of four things happens: an empty list yields
/// `EmptyWatchlist`; otherwise the first incomplete entry (in file
/// order) yields `MissingField` with its index, and no later entry is
/// considered; otherwise a list over the cap yields `TooManyTargets`
/// with the count; otherwise every entry becomes a target, in file
/// order, with its fields carried over unchanged.
pub fn validate_entries(entries: &Vec<RawEntry>) -> (r: Result<
    Vec<SubscriptionTarget>,
    WatchlistError,
>)
    ensures
        entries@.len() == 0 ==> r == Err::<Vec<SubscriptionTarget>, WatchlistError>(
            WatchlistError::EmptyWatchlist,
        ),
        entries@.len() > 0 && first_bad(entries@) < entries@.len() ==> r == Err::<
            Vec<SubscriptionTarget>,
            WatchlistError,
        >(WatchlistError::MissingField(first_bad(entries@) as usize)),
        entries@.len() > MAX_WATCHLIST_TARGETS && first_bad(entries@) == entries@.len() ==> r
            == Err::<Vec<SubscriptionTarget>, WatchlistError>(
            WatchlistError::TooManyTargets(entries@.len() as usize),
        ),
        0 < entries@.len() <= MAX_WATCHLIST_TARGETS && first_bad(entries@) == entries@.len()
            ==> (r matches Ok(ts) && ts@ == targets_of(entries@)),
        r matches Ok(ts) ==> 1 <= ts@.len() <= MAX_WATCHLIST_TARGETS && forall|i: int|
            0 <= i < ts@.len() ==> (#[trigger] ts@[i]).wf(),
        r matches Err(e) ==> e != WatchlistError::ReadError && e != WatchlistError::ParseError,
{
    let n = entries.len();
    if n == 0 {
        return Err(WatchlistError::EmptyWatchlist);
    }
    let mut out: Vec<SubscriptionTarget> = Vec::new();
    let mut i: usize = 0;
    while i < n
        invariant
            n == entries@.len(),
            i <= n,
            forall|j: int| 0 <= j < i ==> entry_ok(entries@[j]),
            out@ == targets_of(entries@.subrange(0, i as int)),
            forall|j: int| 0 <= j < out@.len() ==> (#[trigger] out@[j]).wf(),
        decreases n - i,
    {
        let e = &entries[i];
        let chain = match &e.chain {
            Some(c) => {
                if c.as_str().is_empty() {
                    None
                } else {
                    Some(c.clone())
                }
            },
            None => None,
        };
        let address = match &e.address {
            Some(a) => {
                if a.as_str().is_empty() {
                    None
                } else {
                    Some(a.clone())
                }
            },
            None => None,
        };
        match (chain, address) {
            (Some(c), Some(a)) => {
                let ghost prev_out = out@;
                out.push(SubscriptionTarget { chain: c, address: a });
                proof {
                    assert(entry_ok(entries@[i as int]));
                    assert(out@ =~= targets_of(entries@.subrange(0, i as int + 1)));
                }
            },
            _ => {
                proof {
                    assert(!entry_ok(entries@[i as int]));
                    lemma_first_bad_at(entries@, i as int);
                }
                return Err(WatchlistError::MissingField(i));
            },
        }
        i += 1;
    }
    proof {
        lemma_first_bad_at(entries@, n as int);
    }
    if n > MAX_WATCHLIST_TARGETS {
        return Err(WatchlistError::TooManyTargets(n));
    }
    proof {
        assert(entries@.subrange(0, n as int) =~= entries@);
    }
    Ok(out)
}

/// Load a watchlist from the bytes of its file.
///
/// The extracted entries are handed to [`validate_entries`];
/// [`spec_load_outcome`] fixes the result for every input, over the
/// named extraction: when `ParseError` and each other error comes, and
/// that on success every entry becomes a target, in file order, with
/// its field values carried over. Reading the file itself is the
/// caller's; `ReadError` is never produced here.
pub fn load_watchlist(content: &[u8]) -> (r: Result<Vec<SubscriptionTarget>, WatchlistError>)
    ensures
        spec_load_outcome(content@, r),
        r matches Ok(ts) ==> 1 <= ts@.len() <= MAX_WATCHLIST_TARGETS && forall|i: int|
            0 <= i < ts@.len() ==> (#[trigger] ts@[i]).wf(),
        r matches Err(e) ==> e != WatchlistError::ReadError,
{
    let entries = match json::extract_watchlist_fields(content) {
        Some(es) => es,
        None => {
            return Err(WatchlistError::ParseError);
        },
    };
    let r = validate_entries(&entries);
    proof {
        let fs = entries_fields(entries@);
        lemma_first_bad_fields(entries@);
        lemma_first_bad_characterization(entries@);
        assert(fs.len() == entries@.len());
        if 0 < entries@.len() <= MAX_WATCHLIST_TARGETS && first_bad(entries@)
            == entries@.len() {
            let ts = r->Ok_0;
            assert(ts@ == targets_of(entries@));
            assert forall|i: int| 0 <= i < fs.len() implies (#[trigger] ts@[i]).chain@
                == fs[i].0->Some_0 && ts@[i].address@ == fs[i].1->Some_0 by {
                assert(entry_ok(entries@[i]));
                assert(fs[i] == entry_fields(entries@[i]));
            }
        }
    }
    r
}

} // verus!
