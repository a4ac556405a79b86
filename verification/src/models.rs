//! Data models for the request/response commands, and the pure compute
//! side of their table output.
//!
//! These are the plain shapes the REST commands work with. Fetching
//! them is I/O and lives with the caller; what can be computed —
//! turning a model into the label/value rows or cells a table renders —
//! is verified here.

use vstd::prelude::*;
use vstd::string::*;

use crate::wire::dec_i64;
use crate::wire::dec_nat;

verus! {

/// How command output is rendered: a human-readable table or JSON.
#[derive(Debug, Clone, Copy, PartialEq, Eq, Structural)]
pub enum OutputFormat {
    Table,
    Json,
}

/// One supported network.
#[derive(Debug, Clone)]
pub struct Network {
    pub id: String,
    pub display_name: Option<String>,
    pub name: Option<String>,
    pub dexes_count: Option<i64>,
    pub chain: Option<String>,
}

/// Global ecosystem statistics.
#[derive(Debug, Clone)]
pub struct DexStats {
    pub chains: Option<i64>,
    pub factories: Option<i64>,
    pub pools: Option<i64>,
    pub tokens: Option<i64>,
}

/// The health-check outcome.
#[derive(Debug, Clone)]
pub struct StatusResult {
    pub dexpaprika: ApiStatus,
}

/// One API's health: status text and response time.
#[derive(Debug, Clone)]
pub struct ApiStatus {
    pub status: String,
    pub response_time_ms: u128,
}

/// A cross-network search result.
#[derive(Debug, Clone)]
pub struct DexSearchResult {
    pub tokens: Option<Vec<DexSearchToken>>,
    pub pools: Option<Vec<DexSearchPool>>,
    pub dexes: Option<Vec<DexSearchDex>>,
}

#[derive(Debug, Clone)]
pub struct DexSearchToken {
    pub id: Option<String>,
    pub name: Option<String>,
    pub symbol: Option<String>,
    pub chain: Option<String>,
}

#[derive(Debug, Clone)]
pub struct DexSearchPool {
    pub id: Option<String>,
    pub chain: Option<String>,
    pub dex_name: Option<String>,
}

#[derive(Debug, Clone)]
pub struct DexSearchDex {
    pub id: Option<String>,
    pub name: Option<String>,
    pub chain: Option<String>,
}

/// The attribution metadata that wraps JSON command output.
#[derive(Debug, Clone)]
pub struct ResponseMeta {
    pub source: String,
    pub url: String,
    pub api_docs: String,
    pub attribution: String,
    pub timestamp: String,
}

/// A count cell: the number in decimal, or an em dash when absent.
pub open spec fn spec_count_cell(n: Option<i64>) -> Seq<char> {
    match n {
        Some(v) => dec_i64(v as int),
        None => "\u{2014}"@,
    }
}

/// Render one optional count for a table cell.
pub fn count_cell(n: Option<i64>) -> (r: String)
    ensures
        r@ == spec_count_cell(n),
{
    match n {
        Some(v) => crate::wire::i64_text(v),
        None => String::from_str("\u{2014}"),
    }
}

impl DexStats {
    /// The label/value rows of the statistics table, in display order.
    pub fn rows(&self) -> (r: Vec<(String, String)>)
        ensures
            r@.len() == 4,
            r@[0].0@ == "Chains/Networks"@ && r@[0].1@ == spec_count_cell(self.chains),
            r@[1].0@ == "DEXes/Factories"@ && r@[1].1@ == spec_count_cell(self.factories),
            r@[2].0@ == "Pools"@ && r@[2].1@ == spec_count_cell(self.pools),
            r@[3].0@ == "Tokens"@ && r@[3].1@ == spec_count_cell(self.tokens),
    {
        let mut rows: Vec<(String, String)> = Vec::new();
        rows.push((String::from_str("Chains/Networks"), count_cell(self.chains)));
        rows.push((String::from_str("DEXes/Factories"), count_cell(self.factories)));
        rows.push((String::from_str("Pools"), count_cell(self.pools)));
        rows.push((String::from_str("Tokens"), count_cell(self.tokens)));
        rows
    }
}

impl StatusResult {
    /// The one label/value row of the status table: the status text
    /// with the response time in milliseconds.
    pub fn row(&self) -> (r: (String, String))
        ensures
            r.0@ == "DexPaprika API"@,
            r.1@ == self.dexpaprika.status@ + " ("@ + dec_nat(
                self.dexpaprika.response_time_ms as nat,
            ) + "ms)"@,
    {
        let mut v = self.dexpaprika.status.clone();
        v.append(" (");
        let ms = crate::wire::u128_text(self.dexpaprika.response_time_ms);
        v.append(ms.as_str());
        v.append("ms)");
        (String::from_str("DexPaprika API"), v)
    }
}

impl Network {
    /// The id/name cells of one networks-table row: the display name
    /// falls back to the id.
    pub fn row(&self) -> (r: (String, String))
        ensures
            r.0@ == self.id@,
            r.1@ == (match self.display_name {
                Some(d) => d@,
                None => self.id@,
            }),
    {
        let name = match &self.display_name {
            Some(d) => d.clone(),
            None => self.id.clone(),
        };
        (self.id.clone(), name)
    }
}

/// One token symbol cell of the pair column: the symbol, or a
/// question mark when the token has none.
pub open spec fn spec_symbol_cell(s: Option<String>) -> Seq<char> {
    match s {
        Some(x) => x@,
        None => "?"@,
    }
}

/// The token symbols joined with a slash, in order.
pub open spec fn spec_joined_symbols(ss: Seq<Option<String>>) -> Seq<char>
    decreases ss.len(),
{
    if ss.len() == 0 {
        Seq::empty()
    } else if ss.len() == 1 {
        spec_symbol_cell(ss[0])
    } else {
        spec_symbol_cell(ss[0]) + "/"@ + spec_joined_symbols(ss.drop_first())
    }
}

proof fn lemma_joined_symbols_snoc(ss: Seq<Option<String>>, x: Option<String>)
    requires
        ss.len() >= 1,
    ensures
        spec_joined_symbols(ss.push(x)) == spec_joined_symbols(ss) + "/"@ + spec_symbol_cell(x),
    decreases ss.len(),
{
    let w = ss.push(x);
    if ss.len() == 1 {
        assert(w.drop_first() =~= seq![x]);
        assert(spec_joined_symbols(seq![x]) == spec_symbol_cell(x));
    } else {
        assert(w.drop_first() =~= ss.drop_first().push(x));
        lemma_joined_symbols_snoc(ss.drop_first(), x);
        assert(spec_symbol_cell(ss[0]) + "/"@ + (spec_joined_symbols(ss.drop_first()) + "/"@
            + spec_symbol_cell(x)) =~= (spec_symbol_cell(ss[0]) + "/"@ + spec_joined_symbols(
            ss.drop_first(),
        )) + "/"@ + spec_symbol_cell(x));
    }
}

/// The pair cell of a pool row: the pool's token symbols joined with a
/// slash, a question mark standing in for a token without a symbol,
/// and an em dash when the pool carries no token list at all.
pub fn pool_pair(symbols: &Option<Vec<Option<String>>>) -> (r: String)
    ensures
        *symbols is None ==> r@ == "\u{2014}"@,
        *symbols matches Some(list) ==> r@ == spec_joined_symbols(list@),
{
    let list = match symbols {
        Some(l) => l,
        None => {
            return String::from_str("\u{2014}");
        },
    };
    let mut out = String::new();
    let n = list.len();
    let mut i: usize = 0;
    while i < n
        invariant
            n == list@.len(),
            i <= n,
            out@ == spec_joined_symbols(list@.subrange(0, i as int)),
        decreases n - i,
    {
        if i > 0 {
            out.append("/");
        }
        match &list[i] {
            Some(sym) => out.append(sym.as_str()),
            None => out.append("?"),
        }
        proof {
            let prefix = list@.subrange(0, i as int);
            assert(list@.subrange(0, i as int + 1) =~= prefix.push(list@[i as int]));
            if i == 0 {
                assert(spec_joined_symbols(seq![list@[0int]]) == spec_symbol_cell(list@[0int]));
                assert(out@ =~= spec_joined_symbols(list@.subrange(0, 1int)));
            } else {
                lemma_joined_symbols_snoc(prefix, list@[i as int]);
                assert(out@ =~= spec_joined_symbols(list@.subrange(0, i as int + 1)));
            }
        }
        i += 1;
    }
    proof {
        assert(list@.subrange(0, n as int) =~= list@);
    }
    out
}

/// An optional text cell: the value, or an em dash when absent.
pub open spec fn spec_text_cell(o: Option<String>) -> Seq<char> {
    match o {
        Some(s) => s@,
        None => "\u{2014}"@,
    }
}

/// An optional address cell: the shortened address, or an em dash.
pub open spec fn spec_address_cell(o: Option<String>) -> Seq<char> {
    match o {
        Some(s) => crate::text::spec_truncate_address(s@),
        None => "\u{2014}"@,
    }
}

/// Render one optional text value for a table or list cell.
pub fn text_cell(o: &Option<String>) -> (r: String)
    ensures
        r@ == spec_text_cell(*o),
{
    match o {
        Some(s) => s.clone(),
        None => String::from_str("\u{2014}"),
    }
}

/// Render one optional address, shortened, for a table or list cell.
pub fn address_cell(o: &Option<String>) -> (r: String)
    ensures
        r@ == spec_address_cell(*o),
{
    match o {
        Some(s) => crate::text::truncate_address(s.as_str()),
        None => String::from_str("\u{2014}"),
    }
}

impl DexSearchToken {
    /// One search-result line for a token: name, symbol, shortened
    /// address and chain, with em dashes for missing values.
    pub fn line(&self) -> (r: String)
        ensures
            r@ == "  "@ + spec_text_cell(self.name) + " ("@ + spec_text_cell(self.symbol)
                + ") \u{2014} "@ + spec_address_cell(self.id) + " ["@ + spec_text_cell(self.chain)
                + "]"@,
    {
        let mut out = String::from_str("  ");
        out.append(text_cell(&self.name).as_str());
        out.append(" (");
        out.append(text_cell(&self.symbol).as_str());
        out.append(") \u{2014} ");
        out.append(address_cell(&self.id).as_str());
        out.append(" [");
        out.append(text_cell(&self.chain).as_str());
        out.append("]");
        proof {
            assert(out@ =~= "  "@ + spec_text_cell(self.name) + " ("@ + spec_text_cell(
                self.symbol,
            ) + ") \u{2014} "@ + spec_address_cell(self.id) + " ["@ + spec_text_cell(self.chain)
                + "]"@);
        }
        out
    }
}

impl DexSearchPool {
    /// One search-result line for a pool: shortened address, venue name
    /// and chain, with em dashes for missing values.
    pub fn line(&self) -> (r: String)
        ensures
            r@ == "  "@ + spec_address_cell(self.id) + " \u{2014} "@ + spec_text_cell(
                self.dex_name,
            ) + " ["@ + spec_text_cell(self.chain) + "]"@,
    {
        let mut out = String::from_str("  ");
        out.append(address_cell(&self.id).as_str());
        out.append(" \u{2014} ");
        out.append(text_cell(&self.dex_name).as_str());
        out.append(" [");
        out.append(text_cell(&self.chain).as_str());
        out.append("]");
        proof {
            assert(out@ =~= "  "@ + spec_address_cell(self.id) + " \u{2014} "@ + spec_text_cell(
                self.dex_name,
            ) + " ["@ + spec_text_cell(self.chain) + "]"@);
        }
        out
    }
}

impl DexSearchDex {
    /// One search-result line for a venue: id, name and chain, with
    /// em dashes for missing values.
    pub fn line(&self) -> (r: String)
        ensures
            r@ == "  "@ + spec_text_cell(self.id) + " \u{2014} "@ + spec_text_cell(self.name)
                + " ["@ + spec_text_cell(self.chain) + "]"@,
    {
        let mut out = String::from_str("  ");
        out.append(text_cell(&self.id).as_str());
        out.append(" \u{2014} ");
        out.append(text_cell(&self.name).as_str());
        out.append(" [");
        out.append(text_cell(&self.chain).as_str());
        out.append("]");
        proof {
            assert(out@ =~= "  "@ + spec_text_cell(self.id) + " \u{2014} "@ + spec_text_cell(
                self.name,
            ) + " ["@ + spec_text_cell(self.chain) + "]"@);
        }
        out
    }
}

impl ResponseMeta {
    /// The fixed attribution block for one entity path, with the
    /// caller-supplied timestamp (the current time is the caller's to
    /// read, not this library's).
    pub fn dexpaprika(entity_path: &str, timestamp: String) -> (r: ResponseMeta)
        ensures
            r.source@ == "DexPaprika"@,
            r.url@ == "https://dexpaprika.com"@ + entity_path@,
            r.api_docs@ == "https://api.dexpaprika.com"@,
            r.attribution@ == "Powered by DexPaprika \u{00b7} Free DEX & DeFi data"@,
            r.timestamp == timestamp,
    {
        let mut url = String::from_str("https://dexpaprika.com");
        url.append(entity_path);
        ResponseMeta {
            source: String::from_str("DexPaprika"),
            url,
            api_docs: String::from_str("https://api.dexpaprika.com"),
            attribution: String::from_str("Powered by DexPaprika \u{00b7} Free DEX & DeFi data"),
            timestamp,
        }
    }
}

} // verus!
