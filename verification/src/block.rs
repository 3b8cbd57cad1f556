use vstd::prelude::*;
use vstd::string::*;

use crate::cache::{DenomMap, ExchangeRateSet, SupplySet};
use crate::decimal::{parse_rate, parse_rate_spec, parse_u64, parse_u64_spec, Rate};
use crate::errors::FeedError;
use crate::textparse::{find_char, find_char_in, lemma_find_char, split_char, split_char_str,
    text_eq};

verus! {

/// A block notification: the top-level payload of one observer message.
#[derive(Debug)]
pub struct Block {
    pub chain_id: String,
    /// The chain's type tag; empty when the message carries none.
    pub chain_type: String,
    /// The nested payload; a block without it carries no usable facts.
    pub data: Option<Data>,
}

/// The nested payload of a block: its transactions and supply entries.
#[derive(Debug)]
pub struct Data {
    pub txs: Vec<Tx>,
    pub supply: Vec<Supply>,
}

/// One transaction, with its ordered logs.
#[derive(Debug)]
pub struct Tx {
    pub height: String,
    pub logs: Vec<Log>,
}

/// One log, with its ordered events.
#[derive(Debug)]
pub struct Log {
    pub events: Vec<Event>,
}

/// One event: a type tag and ordered key/value attributes.
#[derive(Debug)]
pub struct Event {
    /// The event's type tag; empty when the message carries none.
    pub event_type: String,
    pub attributes: Vec<Attribute>,
}

/// One key/value attribute of an event.
#[derive(Debug)]
pub struct Attribute {
    pub key: String,
    pub value: String,
}

/// One supply entry: a denomination and its amount as a decimal string.
#[derive(Debug)]
pub struct Supply {
    pub denom: String,
    pub amount: String,
}

/// The derived price list handed to readers.
#[derive(Debug)]
pub struct Prices {
    pub prices: Vec<Price>,
}

impl Prices {
    /// Wraps a list of price records.
    pub fn new(prices: Vec<Price>) -> (r: Self)
        ensures
            r.prices == prices,
    {
        Self { prices }
    }
}

/// One price record: a denomination, its rate, and its supply amount.
#[derive(Debug)]
pub struct Price {
    pub denom: String,
    pub price: Rate,
    pub volume: u64,
}

impl Price {
    /// Builds one price record.
    pub fn new(denom: &str, price: Rate, volume: u64) -> (r: Self)
        ensures
            r.denom@ == denom@,
            r.price == price,
            r.volume == volume,
    {
        Self { denom: String::from_str(denom), price, volume }
    }
}

/// The value of the first `exchange_rates` attribute among `attrs`, if any.
pub open spec fn scan_attrs(attrs: Seq<Attribute>) -> Option<Seq<char>>
    decreases attrs.len(),
{
    if attrs.len() == 0 {
        None
    } else if attrs.first().key@ == "exchange_rates"@ {
        Some(attrs.first().value@)
    } else {
        scan_attrs(attrs.drop_first())
    }
}

/// The rate attribute of the first aggregate-vote event that carries one,
/// scanning events in order.
pub open spec fn scan_events(events: Seq<Event>) -> Option<Seq<char>>
    decreases events.len(),
{
    if events.len() == 0 {
        None
    } else {
        let found = if events.first().event_type@ == "aggregate_vote"@ {
            scan_attrs(events.first().attributes@)
        } else {
            None
        };
        if found is Some {
            found
        } else {
            scan_events(events.drop_first())
        }
    }
}

/// The first rate attribute among a transaction's logs, in order.
pub open spec fn scan_logs(logs: Seq<Log>) -> Option<Seq<char>>
    decreases logs.len(),
{
    if logs.len() == 0 {
        None
    } else {
        let found = scan_events(logs.first().events@);
        if found is Some {
            found
        } else {
            scan_logs(logs.drop_first())
        }
    }
}

/// The first rate attribute in a block's transactions, in transaction, log,
/// event order; the first match wins and later ones are never considered.
pub open spec fn scan_txs(txs: Seq<Tx>) -> Option<Seq<char>>
    decreases txs.len(),
{
    if txs.len() == 0 {
        None
    } else {
        let found = scan_logs(txs.first().logs@);
        if found is Some {
            found
        } else {
            scan_txs(txs.drop_first())
        }
    }
}

/// The denomination and rate one `<rate>u<denom>` token denotes: the part
/// before the first `u` read as a decimal rate, the part after it prefixed
/// back with `u`. A token without `u`, or with a malformed rate, denotes
/// nothing.
pub open spec fn parse_token_spec(t: Seq<char>) -> Option<(Seq<char>, Rate)> {
    let i = find_char(t, 'u');
    if i < 0 {
        None
    } else {
        match parse_rate_spec(t.subrange(0, i)) {
            Some(r) => Some((seq!['u'] + t.subrange(i + 1, t.len() as int), r)),
            None => None,
        }
    }
}

/// The rate map a token list denotes, later tokens overwriting earlier
/// ones; nothing as soon as one token is malformed.
pub open spec fn rates_map_spec(tokens: Seq<Seq<char>>) -> Option<Map<Seq<char>, Rate>>
    decreases tokens.len(),
{
    if tokens.len() == 0 {
        Some(Map::empty())
    } else {
        match rates_map_spec(tokens.drop_last()) {
            Some(m) => match parse_token_spec(tokens.last()) {
                Some(kv) => Some(m.insert(kv.0, kv.1)),
                None => None,
            },
            None => None,
        }
    }
}

/// The rate map a whole comma-separated attribute string denotes, with the
/// numeraire `uluna` put at rate one over anything the string said.
pub open spec fn rates_of_attr(s: Seq<char>) -> Option<Map<Seq<char>, Rate>> {
    match rates_map_spec(split_char(s, ',')) {
        Some(m) => Some(m.insert("uluna"@, Rate::spec_one())),
        None => None,
    }
}

/// What rate extraction returns on `b`: `MissingData` without a data
/// section; an empty map when no aggregate-vote event carries a rate
/// attribute, or the attribute found is empty; otherwise the parsed map, or
/// `MalformedPayload` when the attribute does not parse.
pub open spec fn spec_exchange_rates(b: Block) -> Result<Map<Seq<char>, Rate>, FeedError> {
    match b.data {
        None => Err(FeedError::MissingData),
        Some(d) => match scan_txs(d.txs@) {
            None => Ok(Map::empty()),
            Some(attr) => if attr.len() == 0 {
                Ok(Map::empty())
            } else {
                match rates_of_attr(attr) {
                    Some(m) => Ok(m),
                    None => Err(FeedError::MalformedPayload),
                }
            },
        },
    }
}

/// The supply map a supply list denotes, later entries overwriting earlier
/// ones with the same denomination; nothing as soon as one amount is not a
/// decimal `u64`.
pub open spec fn supply_map_spec(entries: Seq<Supply>) -> Option<Map<Seq<char>, u64>>
    decreases entries.len(),
{
    if entries.len() == 0 {
        Some(Map::empty())
    } else {
        match supply_map_spec(entries.drop_last()) {
            Some(m) => match parse_u64_spec(entries.last().amount@) {
                Some(v) => Some(m.insert(entries.last().denom@, v)),
                None => None,
            },
            None => None,
        }
    }
}

/// What supply extraction returns on `b`: `MissingData` without a data
/// section, otherwise the parsed supply map or `MalformedPayload`.
pub open spec fn spec_supply(b: Block) -> Result<Map<Seq<char>, u64>, FeedError> {
    match b.data {
        None => Err(FeedError::MissingData),
        Some(d) => match supply_map_spec(d.supply@) {
            Some(m) => Ok(m),
            None => Err(FeedError::MalformedPayload),
        },
    }
}

/// Scans one event's attributes for the first `exchange_rates` key.
fn scan_attrs_exec(attrs: &Vec<Attribute>) -> (r: Option<String>)
    ensures
        match r {
            Some(s) => scan_attrs(attrs@) == Some(s@),
            None => scan_attrs(attrs@) is None,
        },
{
    let n = attrs.len();
    let mut i: usize = 0;
    proof {
        assert(attrs@.subrange(0, n as int) =~= attrs@);
    }
    while i < n
        invariant
            i <= n,
            n == attrs@.len(),
            scan_attrs(attrs@) == scan_attrs(attrs@.subrange(i as int, n as int)),
        decreases n - i,
    {
        proof {
            let rest = attrs@.subrange(i as int, n as int);
            assert(rest.first() == attrs@[i as int]);
            assert(rest.drop_first() =~= attrs@.subrange(i as int + 1, n as int));
        }
        if text_eq(&attrs[i].key, "exchange_rates") {
            return Some(attrs[i].value.clone());
        }
        i += 1;
    }
    None
}

/// Scans one log's events in order for an aggregate-vote rate attribute.
fn scan_events_exec(events: &Vec<Event>) -> (r: Option<String>)
    ensures
        match r {
            Some(s) => scan_events(events@) == Some(s@),
            None => scan_events(events@) is None,
        },
{
    let n = events.len();
    let mut i: usize = 0;
    proof {
        assert(events@.subrange(0, n as int) =~= events@);
    }
    while i < n
        invariant
            i <= n,
            n == events@.len(),
            scan_events(events@) == scan_events(events@.subrange(i as int, n as int)),
        decreases n - i,
    {
        proof {
            let rest = events@.subrange(i as int, n as int);
            assert(rest.first() == events@[i as int]);
            assert(rest.drop_first() =~= events@.subrange(i as int + 1, n as int));
        }
        if text_eq(&events[i].event_type, "aggregate_vote") {
            match scan_attrs_exec(&events[i].attributes) {
                Some(v) => {
                    return Some(v);
                },
                None => {},
            }
        }
        i += 1;
    }
    None
}

/// Scans one transaction's logs in order.
fn scan_logs_exec(logs: &Vec<Log>) -> (r: Option<String>)
    ensures
        match r {
            Some(s) => scan_logs(logs@) == Some(s@),
            None => scan_logs(logs@) is None,
        },
{
    let n = logs.len();
    let mut i: usize = 0;
    proof {
        assert(logs@.subrange(0, n as int) =~= logs@);
    }
    while i < n
        invariant
            i <= n,
            n == logs@.len(),
            scan_logs(logs@) == scan_logs(logs@.subrange(i as int, n as int)),
        decreases n - i,
    {
        proof {
            let rest = logs@.subrange(i as int, n as int);
            assert(rest.first() == logs@[i as int]);
            assert(rest.drop_first() =~= logs@.subrange(i as int + 1, n as int));
        }
        match scan_events_exec(&logs[i].events) {
            Some(v) => {
                return Some(v);
            },
            None => {},
        }
        i += 1;
    }
    None
}

/// Scans a block's transactions in order; the first match wins.
fn scan_txs_exec(txs: &Vec<Tx>) -> (r: Option<String>)
    ensures
        match r {
            Some(s) => scan_txs(txs@) == Some(s@),
            None => scan_txs(txs@) is None,
        },
{
    let n = txs.len();
    let mut i: usize = 0;
    proof {
        assert(txs@.subrange(0, n as int) =~= txs@);
    }
    while i < n
        invariant
            i <= n,
            n == txs@.len(),
            scan_txs(txs@) == scan_txs(txs@.subrange(i as int, n as int)),
        decreases n - i,
    {
        proof {
            let rest = txs@.subrange(i as int, n as int);
            assert(rest.first() == txs@[i as int]);
            assert(rest.drop_first() =~= txs@.subrange(i as int + 1, n as int));
        }
        match scan_logs_exec(&txs[i].logs) {
            Some(v) => {
                return Some(v);
            },
            None => {},
        }
        i += 1;
    }
    None
}

/// Parses one `<rate>u<denom>` token.
fn parse_token_exec(t: &String) -> (r: Option<(String, Rate)>)
    ensures
        match r {
            Some(kv) => parse_token_spec(t@) == Some((kv.0@, kv.1)),
            None => parse_token_spec(t@) is None,
        },
{
    let s = t.as_str();
    let n = s.unicode_len();
    match find_char_in(s, 'u') {
        None => None,
        Some(i) => {
            proof {
                lemma_find_char(s@, 'u');
            }
            let prefix = s.substring_char(0, i);
            match parse_rate(prefix) {
                Some(rate) => {
                    let suffix = s.substring_char(i + 1, n);
                    let denom = String::from_str("u").concat(suffix);
                    proof {
                        reveal_strlit("u");
                        assert(denom@ =~= seq!['u'] + s@.subrange(i as int + 1, n as int));
                    }
                    Some((denom, rate))
                },
                None => None,
            }
        },
    }
}

/// Once a token list has a malformed prefix, the whole list is malformed.
proof fn lemma_rates_prefix_none(tokens: Seq<Seq<char>>, j: int)
    requires
        0 <= j <= tokens.len(),
        rates_map_spec(tokens.subrange(0, j)) is None,
    ensures
        rates_map_spec(tokens) is None,
    decreases tokens.len() - j,
{
    if j == tokens.len() {
        assert(tokens.subrange(0, j) =~= tokens);
    } else {
        assert(tokens.subrange(0, j + 1).drop_last() =~= tokens.subrange(0, j));
        lemma_rates_prefix_none(tokens, j + 1);
    }
}

impl Block {
    /// Extracts the exchange rates a block carries.
    ///
    /// The transactions are scanned in transaction, log, event order; the
    /// first aggregate-vote event carrying an `exchange_rates` attribute
    /// settles the attribute string, and later matches are never read. A
    /// block with no such attribute yields an empty set, not an error; a
    /// block without a data section fails with `MissingData`; an attribute
    /// string with a malformed token fails with `MalformedPayload`. A
    /// non-empty attribute always puts the numeraire `uluna` at rate one in
    /// the result, whether or not it appeared.
    #[verifier::loop_isolation(false)]
    pub fn get_exchange_rates(&self) -> (r: Result<ExchangeRateSet, FeedError>)
        ensures
            match r {
                Ok(set) => spec_exchange_rates(*self) == Ok::<Map<Seq<char>, Rate>, FeedError>(
                    set@,
                ),
                Err(e) => spec_exchange_rates(*self) == Err::<Map<Seq<char>, Rate>, FeedError>(
                    e,
                ),
            },
            self.data is None ==> (r matches Err(e) && e == FeedError::MissingData),
    {
        let data = match &self.data {
            Some(d) => d,
            None => {
                return Err(FeedError::MissingData);
            },
        };
        let attr = match scan_txs_exec(&data.txs) {
            Some(v) => v,
            None => {
                return Ok(DenomMap::new());
            },
        };
        if attr.as_str().is_empty() {
            return Ok(DenomMap::new());
        }
        let tokens = split_char_str(attr.as_str(), ',');
        let ghost toks = tokens@.map_values(|t: String| t@);
        let mut set = DenomMap::<Rate>::new();
        let n = tokens.len();
        let mut i: usize = 0;
        proof {
            assert(toks.subrange(0, 0) =~= Seq::<Seq<char>>::empty());
        }
        while i < n
            invariant
                i <= n,
                rates_map_spec(toks.subrange(0, i as int)) == Some(set@),
            decreases n - i,
        {
            proof {
                assert(toks.subrange(0, i as int + 1).drop_last() =~= toks.subrange(0, i as int));
                assert(toks.subrange(0, i as int + 1).last() == toks[i as int]);
            }
            match parse_token_exec(&tokens[i]) {
                Some(kv) => {
                    let (denom, rate) = kv;
                    set.insert(denom, rate);
                },
                None => {
                    proof {
                        lemma_rates_prefix_none(toks, i as int + 1);
                    }
                    return Err(FeedError::MalformedPayload);
                },
            }
            i += 1;
        }
        proof {
            assert(toks.subrange(0, n as int) =~= toks);
        }
        set.insert(String::from_str("uluna"), Rate::one());
        Ok(set)
    }

    /// Extracts the supply amounts a block carries: one entry per supply
    /// record, later records overwriting earlier ones with the same
    /// denomination. Fails with `MissingData` without a data section and
    /// with `MalformedPayload` when an amount is not a decimal `u64`.
    #[verifier::loop_isolation(false)]
    pub fn get_supply(&self) -> (r: Result<SupplySet, FeedError>)
        ensures
            match r {
                Ok(set) => spec_supply(*self) == Ok::<Map<Seq<char>, u64>, FeedError>(set@),
                Err(e) => spec_supply(*self) == Err::<Map<Seq<char>, u64>, FeedError>(e),
            },
            self.data is None ==> (r matches Err(e) && e == FeedError::MissingData),
    {
        let data = match &self.data {
            Some(d) => d,
            None => {
                return Err(FeedError::MissingData);
            },
        };
        let mut set = DenomMap::<u64>::new();
        let n = data.supply.len();
        let mut i: usize = 0;
        proof {
            assert(data.supply@.subrange(0, 0) =~= Seq::<Supply>::empty());
        }
        while i < n
            invariant
                i <= n,
                supply_map_spec(data.supply@.subrange(0, i as int)) == Some(set@),
            decreases n - i,
        {
            proof {
                assert(data.supply@.subrange(0, i as int + 1).drop_last() =~= data.supply@
                    .subrange(0, i as int));
                assert(data.supply@.subrange(0, i as int + 1).last() == data.supply@[i as int]);
            }
            match parse_u64(data.supply[i].amount.as_str()) {
                Some(v) => {
                    set.insert(data.supply[i].denom.clone(), v);
                },
                None => {
                    proof {
                        lemma_supply_prefix_none(data.supply@, i as int + 1);
                    }
                    return Err(FeedError::MalformedPayload);
                },
            }
            i += 1;
        }
        proof {
            assert(data.supply@.subrange(0, n as int) =~= data.supply@);
        }
        Ok(set)
    }
}

/// Once a supply list has a malformed prefix, the whole list is malformed.
proof fn lemma_supply_prefix_none(entries: Seq<Supply>, j: int)
    requires
        0 <= j <= entries.len(),
        supply_map_spec(entries.subrange(0, j)) is None,
    ensures
        supply_map_spec(entries) is None,
    decreases entries.len() - j,
{
    if j == entries.len() {
        assert(entries.subrange(0, j) =~= entries);
    } else {
        assert(entries.subrange(0, j + 1).drop_last() =~= entries.subrange(0, j));
        lemma_supply_prefix_none(entries, j + 1);
    }
}

/// Every rate map parsed from a non-empty, well-formed attribute string
/// carries the numeraire `uluna` at rate exactly one, whether or not the
/// string mentioned it.
pub proof fn lemma_rates_include_numeraire(s: Seq<char>)
    requires
        rates_of_attr(s) is Some,
    ensures
        rates_of_attr(s)->Some_0.contains_key("uluna"@),
        rates_of_attr(s)->Some_0["uluna"@] == Rate::spec_one(),
{
}

/// A block that carries a data section and a parsable, non-empty rate
/// attribute extracts to a map holding the numeraire `uluna` at rate one.
pub proof fn lemma_exchange_rates_numeraire(b: Block, attr: Seq<char>)
    requires
        b.data is Some,
        scan_txs(b.data->Some_0.txs@) == Some(attr),
        attr.len() > 0,
        rates_of_attr(attr) is Some,
    ensures
        spec_exchange_rates(b) matches Ok(m) && m.contains_key("uluna"@) && m["uluna"@]
            == Rate::spec_one(),
{
    lemma_rates_include_numeraire(attr);
}

/// Scanning events none of which carries the aggregate-vote tag finds
/// nothing.
proof fn lemma_scan_events_none(events: Seq<Event>)
    requires
        forall|e: int| 0 <= e < events.len() ==> events[e].event_type@ != "aggregate_vote"@,
    ensures
        scan_events(events) is None,
    decreases events.len(),
{
    if events.len() > 0 {
        assert(events.first() == events[0]);
        assert forall|e: int| 0 <= e < events.drop_first().len() implies events.drop_first()[
            e
        ].event_type@ != "aggregate_vote"@ by {
            assert(events.drop_first()[e] == events[e + 1]);
        }
        lemma_scan_events_none(events.drop_first());
    }
}

/// Scanning logs whose events nowhere carry the aggregate-vote tag finds
/// nothing.
proof fn lemma_scan_logs_none(logs: Seq<Log>)
    requires
        forall|l: int, e: int|
            0 <= l < logs.len() && 0 <= e < logs[l].events@.len() ==> logs[l].events@[
                e
            ].event_type@ != "aggregate_vote"@,
    ensures
        scan_logs(logs) is None,
    decreases logs.len(),
{
    if logs.len() > 0 {
        assert(logs.first() == logs[0]);
        lemma_scan_events_none(logs[0].events@);
        assert forall|l: int, e: int|
            0 <= l < logs.drop_first().len() && 0 <= e < logs.drop_first()[l].events@.len()
            implies logs.drop_first()[l].events@[e].event_type@ != "aggregate_vote"@ by {
            assert(logs.drop_first()[l] == logs[l + 1]);
        }
        lemma_scan_logs_none(logs.drop_first());
    }
}

/// Scanning transactions whose events nowhere carry the aggregate-vote tag
/// finds nothing.
proof fn lemma_scan_txs_none(txs: Seq<Tx>)
    requires
        forall|t: int, l: int, e: int|
            0 <= t < txs.len() && 0 <= l < txs[t].logs@.len() && 0 <= e < txs[t].logs@[
                l
            ].events@.len() ==> txs[t].logs@[l].events@[e].event_type@ != "aggregate_vote"@,
    ensures
        scan_txs(txs) is None,
    decreases txs.len(),
{
    if txs.len() > 0 {
        assert(txs.first() == txs[0]);
        lemma_scan_logs_none(txs[0].logs@);
        assert forall|t: int, l: int, e: int|
            0 <= t < txs.drop_first().len() && 0 <= l < txs.drop_first()[t].logs@.len() && 0 <= e
            < txs.drop_first()[t].logs@[l].events@.len() implies txs.drop_first()[t].logs@[
            l
        ].events@[e].event_type@ != "aggregate_vote"@ by {
            assert(txs.drop_first()[t] == txs[t + 1]);
        }
        lemma_scan_txs_none(txs.drop_first());
    }
}

/// A block with a data section but no aggregate-vote event anywhere
/// extracts to an empty rate set, not an error.
pub proof fn lemma_no_vote_empty_rates(b: Block)
    requires
        b.data is Some,
        forall|t: int, l: int, e: int|
            0 <= t < b.data->Some_0.txs@.len() && 0 <= l < b.data->Some_0.txs@[t].logs@.len() && 0
                <= e < b.data->Some_0.txs@[t].logs@[l].events@.len() ==> b.data->Some_0.txs@[
                t
            ].logs@[l].events@[e].event_type@ != "aggregate_vote"@,
    ensures
        spec_exchange_rates(b) == Ok::<Map<Seq<char>, Rate>, FeedError>(Map::empty()),
{
    lemma_scan_txs_none(b.data->Some_0.txs@);
}

} // verus!
