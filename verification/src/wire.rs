//! Verified wire encoding: the subscription request body and the
//! machine-readable event line.
//!
//! Both are JSON texts built character by character against an exact
//! specification: strings are escaped as JSON demands (quote and
//! backslash get a backslash escape, control characters a `\u00XX`
//! escape), numbers are printed in decimal. The multi-subscription
//! request body is a JSON array of `{chain, address, method}` objects
//! with the fixed price-ticker method literal; the event line is one
//! JSON object with the five readable field names.

use vstd::prelude::*;
use vstd::string::*;

use crate::events::StreamEvent;
use crate::watchlist::SubscriptionTarget;

verus! {

/// The decimal digit character for one value below ten.
pub open spec fn digit_char(n: int) -> char {
    if n == 0 {
        '0'
    } else if n == 1 {
        '1'
    } else if n == 2 {
        '2'
    } else if n == 3 {
        '3'
    } else if n == 4 {
        '4'
    } else if n == 5 {
        '5'
    } else if n == 6 {
        '6'
    } else if n == 7 {
        '7'
    } else if n == 8 {
        '8'
    } else {
        '9'
    }
}

/// The lowercase hex digit character for one value below sixteen.
pub open spec fn hex_char(n: int) -> char {
    if n < 10 {
        digit_char(n)
    } else if n == 10 {
        'a'
    } else if n == 11 {
        'b'
    } else if n == 12 {
        'c'
    } else if n == 13 {
        'd'
    } else if n == 14 {
        'e'
    } else {
        'f'
    }
}

/// An unsigned integer in decimal.
pub open spec fn dec_nat(n: nat) -> Seq<char>
    decreases n,
{
    if n < 10 {
        seq![digit_char(n as int)]
    } else {
        dec_nat(n / 10) + seq![digit_char((n % 10) as int)]
    }
}

/// A signed integer in decimal.
pub open spec fn dec_i64(n: int) -> Seq<char> {
    if n < 0 {
        seq!['-'] + dec_nat((-n) as nat)
    } else {
        dec_nat(n as nat)
    }
}

/// The JSON escape of one character: quote and backslash get a
/// backslash escape, control characters a `\u00XX` escape, everything
/// else stands for itself.
pub open spec fn esc_char(c: char) -> Seq<char> {
    if c == '"' {
        seq!['\\', '"']
    } else if c == '\\' {
        seq!['\\', '\\']
    } else if (c as u32) < 32 {
        seq!['\\', 'u', '0', '0', hex_char((c as u32) as int / 16), hex_char(
            (c as u32) as int % 16,
        )]
    } else {
        seq![c]
    }
}

/// The JSON escape of a whole string.
pub open spec fn esc_str(s: Seq<char>) -> Seq<char>
    decreases s.len(),
{
    if s.len() == 0 {
        Seq::empty()
    } else {
        esc_char(s[0]) + esc_str(s.drop_first())
    }
}

/// One subscription target as a JSON object with the fixed
/// price-ticker method literal.
pub open spec fn spec_target_json(t: SubscriptionTarget) -> Seq<char> {
    "{\"chain\":\""@ + esc_str(t.chain@) + "\",\"address\":\""@ + esc_str(t.address@)
        + "\",\"method\":\"t_p\"}"@
}

/// The comma-joined target objects, in watchlist order.
pub open spec fn spec_targets_json(ts: Seq<SubscriptionTarget>) -> Seq<char>
    decreases ts.len(),
{
    if ts.len() == 0 {
        Seq::empty()
    } else if ts.len() == 1 {
        spec_target_json(ts[0])
    } else {
        spec_target_json(ts[0]) + ","@ + spec_targets_json(ts.drop_first())
    }
}

/// The whole subscription request body: a JSON array of target objects.
pub open spec fn spec_subscription_body(ts: Seq<SubscriptionTarget>) -> Seq<char> {
    "["@ + spec_targets_json(ts) + "]"@
}

/// One normalized event as a single JSON object line, fields in wire
/// order under their readable names.
pub open spec fn spec_event_json(e: StreamEvent) -> Seq<char> {
    "{\"address\":\""@ + esc_str(e.address@) + "\",\"chain\":\""@ + esc_str(e.chain@)
        + "\",\"price_usd\":\""@ + esc_str(e.price_usd@) + "\",\"timestamp\":"@ + dec_i64(
        e.timestamp as int,
    ) + ",\"price_timestamp\":"@ + dec_i64(e.price_timestamp as int) + "}"@
}

proof fn lemma_esc_str_snoc(s: Seq<char>, c: char)
    ensures
        esc_str(s.push(c)) == esc_str(s) + esc_char(c),
    decreases s.len(),
{
    if s.len() == 0 {
        let w = s.push(c);
        assert(w[0] == c);
        assert(w.drop_first() =~= Seq::<char>::empty());
        assert(esc_str(w) == esc_char(c) + esc_str(Seq::<char>::empty()));
        assert(esc_char(c) + Seq::<char>::empty() =~= esc_char(c));
        assert(esc_str(s) + esc_char(c) =~= esc_char(c));
    } else {
        assert(s.push(c).drop_first() =~= s.drop_first().push(c));
        lemma_esc_str_snoc(s.drop_first(), c);
        assert(esc_char(s[0]) + (esc_str(s.drop_first()) + esc_char(c)) =~= (esc_char(s[0])
            + esc_str(s.drop_first())) + esc_char(c));
    }
}

proof fn lemma_targets_json_snoc(ts: Seq<SubscriptionTarget>, t: SubscriptionTarget)
    requires
        ts.len() >= 1,
    ensures
        spec_targets_json(ts.push(t)) == spec_targets_json(ts) + ","@ + spec_target_json(t),
    decreases ts.len(),
{
    let w = ts.push(t);
    if ts.len() == 1 {
        assert(w.drop_first() =~= seq![t]);
        assert(spec_targets_json(seq![t]) == spec_target_json(t));
    } else {
        assert(w.drop_first() =~= ts.drop_first().push(t));
        lemma_targets_json_snoc(ts.drop_first(), t);
        assert(spec_target_json(ts[0]) + ","@ + (spec_targets_json(ts.drop_first()) + ","@
            + spec_target_json(t)) =~= (spec_target_json(ts[0]) + ","@ + spec_targets_json(
            ts.drop_first(),
        )) + ","@ + spec_target_json(t));
    }
}

/// Append one decimal digit character.
fn push_digit(out: &mut String, d: usize)
    requires
        d < 10,
    ensures
        final(out)@ == old(out)@ + seq![digit_char(d as int)],
{
    let table = "0123456789";
    proof {
        reveal_strlit("0123456789");
    }
    let c = table.substring_char(d, d + 1);
    out.append(c);
    proof {
        assert(c@ =~= seq![digit_char(d as int)]);
    }
}

/// Append one lowercase hex digit character.
fn push_hex_digit(out: &mut String, d: usize)
    requires
        d < 16,
    ensures
        final(out)@ == old(out)@ + seq![hex_char(d as int)],
{
    let table = "0123456789abcdef";
    proof {
        reveal_strlit("0123456789abcdef");
    }
    let c = table.substring_char(d, d + 1);
    out.append(c);
    proof {
        assert(c@ =~= seq![hex_char(d as int)]);
    }
}

/// Append an unsigned integer in decimal.
fn push_dec_u64(out: &mut String, n: u64)
    ensures
        final(out)@ == old(out)@ + dec_nat(n as nat),
    decreases n,
{
    if n >= 10 {
        push_dec_u64(out, n / 10);
    }
    push_digit(out, (n % 10) as usize);
    proof {
        if n >= 10 {
            assert(old(out)@ + dec_nat((n / 10) as nat) + seq![digit_char((n % 10) as int)]
                =~= old(out)@ + (dec_nat((n / 10) as nat) + seq![digit_char((n % 10) as int)]));
        }
    }
}

/// Append a signed integer in decimal.
fn push_dec_i64(out: &mut String, n: i64)
    ensures
        final(out)@ == old(out)@ + dec_i64(n as int),
{
    if n >= 0 {
        push_dec_u64(out, n as u64);
    } else {
        out.append("-");
        let mag: u64 = ((-(n + 1)) as u64) + 1;
        push_dec_u64(out, mag);
        proof {
            reveal_strlit("-");
            assert("-"@ =~= seq!['-']);
            assert(mag as nat == (-(n as int)) as nat);
            assert(old(out)@ + "-"@ + dec_nat(mag as nat) =~= old(out)@ + dec_i64(n as int));
        }
    }
}

/// Append the JSON escape of a string.
fn push_escaped(out: &mut String, s: &str)
    ensures
        final(out)@ == old(out)@ + esc_str(s@),
{
    let n = s.unicode_len();
    let mut i: usize = 0;
    while i < n
        invariant
            n == s@.len(),
            i <= n,
            out@ == old(out)@ + esc_str(s@.subrange(0, i as int)),
        decreases n - i,
    {
        let c = s.get_char(i);
        if c == '"' {
            out.append("\\\"");
            proof {
                reveal_strlit("\\\"");
                assert("\\\""@ =~= esc_char(c));
            }
        } else if c == '\\' {
            out.append("\\\\");
            proof {
                reveal_strlit("\\\\");
                assert("\\\\"@ =~= esc_char(c));
            }
        } else if (c as u32) < 32 {
            let code = c as u32;
            out.append("\\u00");
            push_hex_digit(out, (code / 16) as usize);
            push_hex_digit(out, (code % 16) as usize);
            proof {
                reveal_strlit("\\u00");
                assert("\\u00"@ + seq![hex_char(code as int / 16)] + seq![hex_char(
                    code as int % 16,
                )] =~= esc_char(c));
            }
        } else {
            let piece = s.substring_char(i, i + 1);
            out.append(piece);
            proof {
                assert(piece@ =~= seq![c]);
                assert(seq![c] =~= esc_char(c));
            }
        }
        proof {
            assert(s@.subrange(0, i as int + 1) =~= s@.subrange(0, i as int).push(c));
            lemma_esc_str_snoc(s@.subrange(0, i as int), c);
            assert(out@ =~= old(out)@ + esc_str(s@.subrange(0, i as int + 1)));
        }
        i += 1;
    }
    proof {
        assert(s@.subrange(0, n as int) =~= s@);
    }
}

/// Append an unsigned 128-bit integer in decimal.
fn push_dec_u128(out: &mut String, n: u128)
    ensures
        final(out)@ == old(out)@ + dec_nat(n as nat),
    decreases n,
{
    if n >= 10 {
        push_dec_u128(out, n / 10);
    }
    push_digit(out, (n % 10) as usize);
    proof {
        if n >= 10 {
            assert(old(out)@ + dec_nat((n / 10) as nat) + seq![digit_char((n % 10) as int)]
                =~= old(out)@ + (dec_nat((n / 10) as nat) + seq![digit_char((n % 10) as int)]));
        }
    }
}

/// A signed integer as decimal text.
pub fn i64_text(n: i64) -> (r: String)
    ensures
        r@ == dec_i64(n as int),
{
    let mut out = String::new();
    push_dec_i64(&mut out, n);
    out
}

/// An unsigned 128-bit integer as decimal text.
pub fn u128_text(n: u128) -> (r: String)
    ensures
        r@ == dec_nat(n as nat),
{
    let mut out = String::new();
    push_dec_u128(&mut out, n);
    out
}

/// Build the multi-subscription request body: the watchlist targets as
/// a JSON array of `{chain, address, method}` objects, in order, with
/// the fixed price-ticker method.
pub fn subscription_body(targets: &Vec<SubscriptionTarget>) -> (r: String)
    ensures
        r@ == spec_subscription_body(targets@),
{
    let mut out = String::from_str("[");
    let n = targets.len();
    let mut i: usize = 0;
    while i < n
        invariant
            n == targets@.len(),
            i <= n,
            out@ == "["@ + spec_targets_json(targets@.subrange(0, i as int)),
        decreases n - i,
    {
        let ghost before = out@;
        if i > 0 {
            out.append(",");
            proof {
                reveal_strlit(",");
                assert(","@ =~= seq![',']);
            }
        }
        let t = &targets[i];
        out.append("{\"chain\":\"");
        push_escaped(&mut out, t.chain.as_str());
        out.append("\",\"address\":\"");
        push_escaped(&mut out, t.address.as_str());
        out.append("\",\"method\":\"t_p\"}");
        proof {
            let prefix = targets@.subrange(0, i as int);
            assert(targets@.subrange(0, i as int + 1) =~= prefix.push(targets@[i as int]));
            if i == 0 {
                assert(prefix =~= Seq::<SubscriptionTarget>::empty());
                assert(spec_targets_json(seq![targets@[0int]]) == spec_target_json(
                    targets@[0int],
                ));
                assert(out@ =~= "["@ + spec_targets_json(targets@.subrange(0, 1int)));
            } else {
                lemma_targets_json_snoc(prefix, targets@[i as int]);
                assert(out@ =~= "["@ + spec_targets_json(targets@.subrange(0, i as int + 1)));
            }
        }
        i += 1;
    }
    out.append("]");
    proof {
        assert(targets@.subrange(0, n as int) =~= targets@);
    }
    out
}

/// Build the machine-readable output line for one event: one JSON
/// object, fields in wire order under their readable names.
pub fn event_json(e: &StreamEvent) -> (r: String)
    ensures
        r@ == spec_event_json(*e),
{
    let mut out = String::from_str("{\"address\":\"");
    push_escaped(&mut out, e.address.as_str());
    out.append("\",\"chain\":\"");
    push_escaped(&mut out, e.chain.as_str());
    out.append("\",\"price_usd\":\"");
    push_escaped(&mut out, e.price_usd.as_str());
    out.append("\",\"timestamp\":");
    push_dec_i64(&mut out, e.timestamp);
    out.append(",\"price_timestamp\":");
    push_dec_i64(&mut out, e.price_timestamp);
    out.append("}");
    proof {
        assert(out@ =~= spec_event_json(*e));
    }
    out
}

} // verus!
