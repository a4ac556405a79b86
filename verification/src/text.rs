//! Character-level helpers shared by the table output paths.

use vstd::prelude::*;
use vstd::string::*;

verus! {

/// A string cut down to `max` characters: a short string is kept whole, a
/// longer one keeps its first `max - 1` characters and ends in an ellipsis.
pub open spec fn spec_truncate(s: Seq<char>, max: nat) -> Seq<char> {
    if s.len() <= max {
        s
    } else if max == 0 {
        seq!['\u{2026}']
    } else {
        s.subrange(0, max - 1).push('\u{2026}')
    }
}

/// An address shortened for a table cell: short addresses are kept whole,
/// longer ones keep the first six and the last four characters.
pub open spec fn spec_truncate_address(s: Seq<char>) -> Seq<char> {
    if s.len() <= 13 {
        s
    } else {
        s.subrange(0, 6) + seq!['.', '.', '.'] + s.subrange(s.len() - 4, s.len() as int)
    }
}

/// Cut `s` down to at most `max` characters, ending in an ellipsis when
/// anything was dropped.
pub fn truncate(s: &str, max: usize) -> (r: String)
    ensures
        r@ == spec_truncate(s@, max as nat),
{
    let n = s.unicode_len();
    if n <= max {
        return s.to_owned();
    }
    let keep: usize = if max == 0 { 0 } else { max - 1 };
    let mut r = s.substring_char(0, keep).to_owned();
    r.append("\u{2026}");
    proof {
        reveal_strlit("\u{2026}");
        assert(r@ =~= spec_truncate(s@, max as nat));
    }
    r
}

/// Shorten an address to its first six and last four characters.
pub fn truncate_address(addr: &str) -> (r: String)
    ensures
        r@ == spec_truncate_address(addr@),
{
    let n = addr.unicode_len();
    if n <= 13 {
        return addr.to_owned();
    }
    let mut r = addr.substring_char(0, 6).to_owned();
    r.append("...");
    r.append(addr.substring_char(n - 4, n));
    proof {
        reveal_strlit("...");
        assert(r@ =~= spec_truncate_address(addr@));
    }
    r
}

} // verus!
