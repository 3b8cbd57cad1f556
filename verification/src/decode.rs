use vstd::prelude::*;
use vstd::string::*;

use crate::block::{Attribute, Block, Data, Event, Log, Supply, Tx};
use crate::errors::FeedError;
use crate::jsonio::{json_doc, json_from_slice, val_arr, val_field, val_is_null, val_str,
    value_as_array, value_as_str, value_get, value_is_null};

verus! {

/// What one attribute holds, at the specification level.
pub ghost struct AttributeV {
    pub key: Seq<char>,
    pub value: Seq<char>,
}

/// What one event holds, at the specification level.
pub ghost struct EventV {
    pub event_type: Seq<char>,
    pub attributes: Seq<AttributeV>,
}

/// What one log holds, at the specification level.
pub ghost struct LogV {
    pub events: Seq<EventV>,
}

/// What one transaction holds, at the specification level.
pub ghost struct TxV {
    pub height: Seq<char>,
    pub logs: Seq<LogV>,
}

/// What one supply entry holds, at the specification level.
pub ghost struct SupplyV {
    pub denom: Seq<char>,
    pub amount: Seq<char>,
}

/// What a data section holds, at the specification level.
pub ghost struct DataV {
    pub txs: Seq<TxV>,
    pub supply: Seq<SupplyV>,
}

/// What a block holds, at the specification level.
pub ghost struct BlockV {
    pub chain_id: Seq<char>,
    pub chain_type: Seq<char>,
    pub data: Option<DataV>,
}

pub open spec fn view_of_attr(a: Attribute) -> AttributeV {
    AttributeV { key: a.key@, value: a.value@ }
}

pub open spec fn view_of_event(e: Event) -> EventV {
    EventV {
        event_type: e.event_type@,
        attributes: e.attributes@.map_values(|a: Attribute| view_of_attr(a)),
    }
}

pub open spec fn view_of_log(l: Log) -> LogV {
    LogV { events: l.events@.map_values(|e: Event| view_of_event(e)) }
}

pub open spec fn view_of_tx(t: Tx) -> TxV {
    TxV { height: t.height@, logs: t.logs@.map_values(|l: Log| view_of_log(l)) }
}

pub open spec fn view_of_supply(s: Supply) -> SupplyV {
    SupplyV { denom: s.denom@, amount: s.amount@ }
}

pub open spec fn view_of_data(d: Data) -> DataV {
    DataV {
        txs: d.txs@.map_values(|t: Tx| view_of_tx(t)),
        supply: d.supply@.map_values(|s: Supply| view_of_supply(s)),
    }
}

pub open spec fn view_of_block(b: Block) -> BlockV {
    BlockV {
        chain_id: b.chain_id@,
        chain_type: b.chain_type@,
        data: match b.data {
            Some(d) => Some(view_of_data(d)),
            None => None,
        },
    }
}

/// Decodes every element of a JSON array with `f`; nothing as soon as one
/// element does not decode.
pub open spec fn json_list<A>(
    items: Seq<serde_json::Value>,
    f: spec_fn(serde_json::Value) -> Option<A>,
) -> Option<Seq<A>>
    decreases items.len(),
{
    if items.len() == 0 {
        Some(Seq::empty())
    } else {
        match json_list(items.drop_last(), f) {
            Some(rest) => match f(items.last()) {
                Some(a) => Some(rest.push(a)),
                None => None,
            },
            None => None,
        }
    }
}

/// Once a prefix of a JSON array fails to decode, the whole array fails.
proof fn lemma_json_list_none<A>(
    items: Seq<serde_json::Value>,
    f: spec_fn(serde_json::Value) -> Option<A>,
    j: int,
)
    requires
        0 <= j <= items.len(),
        json_list(items.subrange(0, j), f) is None,
    ensures
        json_list(items, f) is None,
    decreases items.len() - j,
{
    if j == items.len() {
        assert(items.subrange(0, j) =~= items);
    } else {
        assert(items.subrange(0, j + 1).drop_last() =~= items.subrange(0, j));
        lemma_json_list_none(items, f, j + 1);
    }
}

/// The member's text under `k`, with a missing member reading as empty
/// text; nothing when the member is there but is not a string.
pub open spec fn json_text_or_empty(v: serde_json::Value, k: Seq<char>) -> Option<Seq<char>> {
    match val_field(v, k) {
        None => Some(Seq::empty()),
        Some(tv) => val_str(tv),
    }
}

/// The member's text under `k`; nothing when the member is missing or is
/// not a string.
pub open spec fn json_text(v: serde_json::Value, k: Seq<char>) -> Option<Seq<char>> {
    match val_field(v, k) {
        None => None,
        Some(tv) => val_str(tv),
    }
}

/// What an attribute object decodes to: its `key` and `value` members,
/// both required strings.
pub open spec fn json_attr(v: serde_json::Value) -> Option<AttributeV> {
    match json_text(v, "key"@) {
        Some(k) => match json_text(v, "value"@) {
            Some(val) => Some(AttributeV { key: k, value: val }),
            None => None,
        },
        None => None,
    }
}

/// What an event object decodes to: an optional `type` tag defaulting to
/// empty, and a required `attributes` array.
pub open spec fn json_event(v: serde_json::Value) -> Option<EventV> {
    match json_text_or_empty(v, "type"@) {
        Some(t) => match val_field(v, "attributes"@) {
            Some(av) => match val_arr(av) {
                Some(items) => match json_list(items, |x: serde_json::Value| json_attr(x)) {
                    Some(attrs) => Some(EventV { event_type: t, attributes: attrs }),
                    None => None,
                },
                None => None,
            },
            None => None,
        },
        None => None,
    }
}

/// What a log object decodes to: a required `events` array.
pub open spec fn json_log(v: serde_json::Value) -> Option<LogV> {
    match val_field(v, "events"@) {
        Some(ev) => match val_arr(ev) {
            Some(items) => match json_list(items, |x: serde_json::Value| json_event(x)) {
                Some(events) => Some(LogV { events }),
                None => None,
            },
            None => None,
        },
        None => None,
    }
}

/// What a transaction object decodes to: a required `height` string and a
/// required `logs` array.
pub open spec fn json_tx(v: serde_json::Value) -> Option<TxV> {
    match json_text(v, "height"@) {
        Some(h) => match val_field(v, "logs"@) {
            Some(lv) => match val_arr(lv) {
                Some(items) => match json_list(items, |x: serde_json::Value| json_log(x)) {
                    Some(logs) => Some(TxV { height: h, logs }),
                    None => None,
                },
                None => None,
            },
            None => None,
        },
        None => None,
    }
}

/// What a supply object decodes to: its `denom` and `amount` members, both
/// required strings.
pub open spec fn json_supply(v: serde_json::Value) -> Option<SupplyV> {
    match json_text(v, "denom"@) {
        Some(d) => match json_text(v, "amount"@) {
            Some(a) => Some(SupplyV { denom: d, amount: a }),
            None => None,
        },
        None => None,
    }
}

/// What a data object decodes to: required `txs` and `supply` arrays.
pub open spec fn json_data(v: serde_json::Value) -> Option<DataV> {
    match val_field(v, "txs"@) {
        Some(tv) => match val_arr(tv) {
            Some(titems) => match json_list(titems, |x: serde_json::Value| json_tx(x)) {
                Some(txs) => match val_field(v, "supply"@) {
                    Some(sv) => match val_arr(sv) {
                        Some(sitems) => match json_list(
                            sitems,
                            |x: serde_json::Value| json_supply(x),
                        ) {
                            Some(supply) => Some(DataV { txs, supply }),
                            None => None,
                        },
                        None => None,
                    },
                    None => None,
                },
                None => None,
            },
            None => None,
        },
        None => None,
    }
}

/// What a block object decodes to: a required `chain_id` string, an
/// optional `type` tag defaulting to empty, and an optional `data` member
/// where both a missing member and `null` mean no data. Unknown members
/// are ignored throughout.
pub open spec fn json_block(v: serde_json::Value) -> Option<BlockV> {
    match json_text(v, "chain_id"@) {
        Some(cid) => match json_text_or_empty(v, "type"@) {
            Some(ct) => match val_field(v, "data"@) {
                None => Some(BlockV { chain_id: cid, chain_type: ct, data: None }),
                Some(dv) => if val_is_null(dv) {
                    Some(BlockV { chain_id: cid, chain_type: ct, data: None })
                } else {
                    match json_data(dv) {
                        Some(d) => Some(BlockV { chain_id: cid, chain_type: ct, data: Some(d) }),
                        None => None,
                    }
                },
            },
            None => None,
        },
        None => None,
    }
}

/// Reads a required string member.
fn decode_text(v: &serde_json::Value, key: &str) -> (r: Option<String>)
    ensures
        match r {
            Some(s) => json_text(*v, key@) == Some(s@),
            None => json_text(*v, key@) is None,
        },
{
    match value_get(v, key) {
        Some(tv) => match value_as_str(tv) {
            Some(s) => Some(String::from_str(s)),
            None => None,
        },
        None => None,
    }
}

/// Reads an optional string member, empty when missing.
fn decode_text_or_empty(v: &serde_json::Value, key: &str) -> (r: Option<String>)
    ensures
        match r {
            Some(s) => json_text_or_empty(*v, key@) == Some(s@),
            None => json_text_or_empty(*v, key@) is None,
        },
{
    match value_get(v, key) {
        Some(tv) => match value_as_str(tv) {
            Some(s) => Some(String::from_str(s)),
            None => None,
        },
        None => Some(String::new()),
    }
}

/// Decodes one attribute object.
fn decode_attr(v: &serde_json::Value) -> (r: Option<Attribute>)
    ensures
        match r {
            Some(a) => json_attr(*v) == Some(view_of_attr(a)),
            None => json_attr(*v) is None,
        },
{
    let key = match decode_text(v, "key") {
        Some(s) => s,
        None => {
            return None;
        },
    };
    let value = match decode_text(v, "value") {
        Some(s) => s,
        None => {
            return None;
        },
    };
    Some(Attribute { key, value })
}

/// Decodes an array of attribute objects.
#[verifier::loop_isolation(false)]
fn decode_attrs(items: &Vec<serde_json::Value>) -> (r: Option<Vec<Attribute>>)
    ensures
        match r {
            Some(list) => json_list(items@, |x: serde_json::Value| json_attr(x)) == Some(
                list@.map_values(|a: Attribute| view_of_attr(a)),
            ),
            None => json_list(items@, |x: serde_json::Value| json_attr(x)) is None,
        },
{
    let ghost f = (|x: serde_json::Value| json_attr(x));
    let n = items.len();
    let mut out: Vec<Attribute> = Vec::new();
    let mut i: usize = 0;
    proof {
        assert(items@.subrange(0, 0) =~= Seq::<serde_json::Value>::empty());
        assert(out@.map_values(|a: Attribute| view_of_attr(a)) =~= Seq::<AttributeV>::empty());
    }
    while i < n
        invariant
            i <= n,
            json_list(items@.subrange(0, i as int), f) == Some(
                out@.map_values(|a: Attribute| view_of_attr(a)),
            ),
        decreases n - i,
    {
        proof {
            assert(items@.subrange(0, i as int + 1).drop_last() =~= items@.subrange(0, i as int));
            assert(items@.subrange(0, i as int + 1).last() == items@[i as int]);
        }
        match decode_attr(&items[i]) {
            Some(a) => {
                let ghost prev = out@;
                out.push(a);
                proof {
                    assert(out@.map_values(|a: Attribute| view_of_attr(a)) =~= prev.map_values(
                        |a: Attribute| view_of_attr(a),
                    ).push(view_of_attr(a)));
                }
            },
            None => {
                proof {
                    lemma_json_list_none(items@, f, i as int + 1);
                }
                return None;
            },
        }
        i += 1;
    }
    proof {
        assert(items@.subrange(0, n as int) =~= items@);
    }
    Some(out)
}

/// Decodes one event object.
fn decode_event(v: &serde_json::Value) -> (r: Option<Event>)
    ensures
        match r {
            Some(e) => json_event(*v) == Some(view_of_event(e)),
            None => json_event(*v) is None,
        },
{
    let event_type = match decode_text_or_empty(v, "type") {
        Some(s) => s,
        None => {
            return None;
        },
    };
    let attributes = match value_get(v, "attributes") {
        Some(av) => match value_as_array(av) {
            Some(items) => match decode_attrs(items) {
                Some(list) => list,
                None => {
                    return None;
                },
            },
            None => {
                return None;
            },
        },
        None => {
            return None;
        },
    };
    Some(Event { event_type, attributes })
}

/// Decodes an array of event objects.
#[verifier::loop_isolation(false)]
fn decode_events(items: &Vec<serde_json::Value>) -> (r: Option<Vec<Event>>)
    ensures
        match r {
            Some(list) => json_list(items@, |x: serde_json::Value| json_event(x)) == Some(
                list@.map_values(|e: Event| view_of_event(e)),
            ),
            None => json_list(items@, |x: serde_json::Value| json_event(x)) is None,
        },
{
    let ghost f = (|x: serde_json::Value| json_event(x));
    let n = items.len();
    let mut out: Vec<Event> = Vec::new();
    let mut i: usize = 0;
    proof {
        assert(items@.subrange(0, 0) =~= Seq::<serde_json::Value>::empty());
        assert(out@.map_values(|e: Event| view_of_event(e)) =~= Seq::<EventV>::empty());
    }
    while i < n
        invariant
            i <= n,
            json_list(items@.subrange(0, i as int), f) == Some(
                out@.map_values(|e: Event| view_of_event(e)),
            ),
        decreases n - i,
    {
        proof {
            assert(items@.subrange(0, i as int + 1).drop_last() =~= items@.subrange(0, i as int));
            assert(items@.subrange(0, i as int + 1).last() == items@[i as int]);
        }
        match decode_event(&items[i]) {
            Some(e) => {
                let ghost prev = out@;
                out.push(e);
                proof {
                    assert(out@.map_values(|e: Event| view_of_event(e)) =~= prev.map_values(
                        |e: Event| view_of_event(e),
                    ).push(view_of_event(e)));
                }
            },
            None => {
                proof {
                    lemma_json_list_none(items@, f, i as int + 1);
                }
                return None;
            },
        }
        i += 1;
    }
    proof {
        assert(items@.subrange(0, n as int) =~= items@);
    }
    Some(out)
}

/// Decodes one log object.
fn decode_log(v: &serde_json::Value) -> (r: Option<Log>)
    ensures
        match r {
            Some(l) => json_log(*v) == Some(view_of_log(l)),
            None => json_log(*v) is None,
        },
{
    let events = match value_get(v, "events") {
        Some(ev) => match value_as_array(ev) {
            Some(items) => match decode_events(items) {
                Some(list) => list,
                None => {
                    return None;
                },
            },
            None => {
                return None;
            },
        },
        None => {
            return None;
        },
    };
    Some(Log { events })
}

/// Decodes an array of log objects.
#[verifier::loop_isolation(false)]
fn decode_logs(items: &Vec<serde_json::Value>) -> (r: Option<Vec<Log>>)
    ensures
        match r {
            Some(list) => json_list(items@, |x: serde_json::Value| json_log(x)) == Some(
                list@.map_values(|l: Log| view_of_log(l)),
            ),
            None => json_list(items@, |x: serde_json::Value| json_log(x)) is None,
        },
{
    let ghost f = (|x: serde_json::Value| json_log(x));
    let n = items.len();
    let mut out: Vec<Log> = Vec::new();
    let mut i: usize = 0;
    proof {
        assert(items@.subrange(0, 0) =~= Seq::<serde_json::Value>::empty());
        assert(out@.map_values(|l: Log| view_of_log(l)) =~= Seq::<LogV>::empty());
    }
    while i < n
        invariant
            i <= n,
            json_list(items@.subrange(0, i as int), f) == Some(
                out@.map_values(|l: Log| view_of_log(l)),
            ),
        decreases n - i,
    {
        proof {
            assert(items@.subrange(0, i as int + 1).drop_last() =~= items@.subrange(0, i as int));
            assert(items@.subrange(0, i as int + 1).last() == items@[i as int]);
        }
        match decode_log(&items[i]) {
            Some(l) => {
                let ghost prev = out@;
                out.push(l);
                proof {
                    assert(out@.map_values(|l: Log| view_of_log(l)) =~= prev.map_values(
                        |l: Log| view_of_log(l),
                    ).push(view_of_log(l)));
                }
            },
            None => {
                proof {
                    lemma_json_list_none(items@, f, i as int + 1);
                }
                return None;
            },
        }
        i += 1;
    }
    proof {
        assert(items@.subrange(0, n as int) =~= items@);
    }
    Some(out)
}

/// Decodes one transaction object.
fn decode_tx(v: &serde_json::Value) -> (r: Option<Tx>)
    ensures
        match r {
            Some(t) => json_tx(*v) == Some(view_of_tx(t)),
            None => json_tx(*v) is None,
        },
{
    let height = match decode_text(v, "height") {
        Some(s) => s,
        None => {
            return None;
        },
    };
    let logs = match value_get(v, "logs") {
        Some(lv) => match value_as_array(lv) {
            Some(items) => match decode_logs(items) {
                Some(list) => list,
                None => {
                    return None;
                },
            },
            None => {
                return None;
            },
        },
        None => {
            return None;
        },
    };
    Some(Tx { height, logs })
}

/// Decodes an array of transaction objects.
#[verifier::loop_isolation(false)]
fn decode_txs(items: &Vec<serde_json::Value>) -> (r: Option<Vec<Tx>>)
    ensures
        match r {
            Some(list) => json_list(items@, |x: serde_json::Value| json_tx(x)) == Some(
                list@.map_values(|t: Tx| view_of_tx(t)),
            ),
            None => json_list(items@, |x: serde_json::Value| json_tx(x)) is None,
        },
{
    let ghost f = (|x: serde_json::Value| json_tx(x));
    let n = items.len();
    let mut out: Vec<Tx> = Vec::new();
    let mut i: usize = 0;
    proof {
        assert(items@.subrange(0, 0) =~= Seq::<serde_json::Value>::empty());
        assert(out@.map_values(|t: Tx| view_of_tx(t)) =~= Seq::<TxV>::empty());
    }
    while i < n
        invariant
            i <= n,
            json_list(items@.subrange(0, i as int), f) == Some(
                out@.map_values(|t: Tx| view_of_tx(t)),
            ),
        decreases n - i,
    {
        proof {
            assert(items@.subrange(0, i as int + 1).drop_last() =~= items@.subrange(0, i as int));
            assert(items@.subrange(0, i as int + 1).last() == items@[i as int]);
        }
        match decode_tx(&items[i]) {
            Some(t) => {
                let ghost prev = out@;
                out.push(t);
                proof {
                    assert(out@.map_values(|t: Tx| view_of_tx(t)) =~= prev.map_values(
                        |t: Tx| view_of_tx(t),
                    ).push(view_of_tx(t)));
                }
            },
            None => {
                proof {
                    lemma_json_list_none(items@, f, i as int + 1);
                }
                return None;
            },
        }
        i += 1;
    }
    proof {
        assert(items@.subrange(0, n as int) =~= items@);
    }
    Some(out)
}

/// Decodes one supply object.
fn decode_supply(v: &serde_json::Value) -> (r: Option<Supply>)
    ensures
        match r {
            Some(s) => json_supply(*v) == Some(view_of_supply(s)),
            None => json_supply(*v) is None,
        },
{
    let denom = match decode_text(v, "denom") {
        Some(s) => s,
        None => {
            return None;
        },
    };
    let amount = match decode_text(v, "amount") {
        Some(s) => s,
        None => {
            return None;
        },
    };
    Some(Supply { denom, amount })
}

/// Decodes an array of supply objects.
#[verifier::loop_isolation(false)]
fn decode_supplies(items: &Vec<serde_json::Value>) -> (r: Option<Vec<Supply>>)
    ensures
        match r {
            Some(list) => json_list(items@, |x: serde_json::Value| json_supply(x)) == Some(
                list@.map_values(|s: Supply| view_of_supply(s)),
            ),
            None => json_list(items@, |x: serde_json::Value| json_supply(x)) is None,
        },
{
    let ghost f = (|x: serde_json::Value| json_supply(x));
    let n = items.len();
    let mut out: Vec<Supply> = Vec::new();
    let mut i: usize = 0;
    proof {
        assert(items@.subrange(0, 0) =~= Seq::<serde_json::Value>::empty());
        assert(out@.map_values(|s: Supply| view_of_supply(s)) =~= Seq::<SupplyV>::empty());
    }
    while i < n
        invariant
            i <= n,
            json_list(items@.subrange(0, i as int), f) == Some(
                out@.map_values(|s: Supply| view_of_supply(s)),
            ),
        decreases n - i,
    {
        proof {
            assert(items@.subrange(0, i as int + 1).drop_last() =~= items@.subrange(0, i as int));
            assert(items@.subrange(0, i as int + 1).last() == items@[i as int]);
        }
        match decode_supply(&items[i]) {
            Some(s) => {
                let ghost prev = out@;
                out.push(s);
                proof {
                    assert(out@.map_values(|s: Supply| view_of_supply(s)) =~= prev.map_values(
                        |s: Supply| view_of_supply(s),
                    ).push(view_of_supply(s)));
                }
            },
            None => {
                proof {
                    lemma_json_list_none(items@, f, i as int + 1);
                }
                return None;
            },
        }
        i += 1;
    }
    proof {
        assert(items@.subrange(0, n as int) =~= items@);
    }
    Some(out)
}

/// Decodes one data object.
fn decode_data(v: &serde_json::Value) -> (r: Option<Data>)
    ensures
        match r {
            Some(d) => json_data(*v) == Some(view_of_data(d)),
            None => json_data(*v) is None,
        },
{
    let txs = match value_get(v, "txs") {
        Some(tv) => match value_as_array(tv) {
            Some(items) => match decode_txs(items) {
                Some(list) => list,
                None => {
                    return None;
                },
            },
            None => {
                return None;
            },
        },
        None => {
            return None;
        },
    };
    let supply = match value_get(v, "supply") {
        Some(sv) => match value_as_array(sv) {
            Some(items) => match decode_supplies(items) {
                Some(list) => list,
                None => {
                    return None;
                },
            },
            None => {
                return None;
            },
        },
        None => {
            return None;
        },
    };
    Some(Data { txs, supply })
}

/// Decodes one block object.
fn decode_block(v: &serde_json::Value) -> (r: Option<Block>)
    ensures
        match r {
            Some(b) => json_block(*v) == Some(view_of_block(b)),
            None => json_block(*v) is None,
        },
{
    let chain_id = match decode_text(v, "chain_id") {
        Some(s) => s,
        None => {
            return None;
        },
    };
    let chain_type = match decode_text_or_empty(v, "type") {
        Some(s) => s,
        None => {
            return None;
        },
    };
    let data = match value_get(v, "data") {
        None => None,
        Some(dv) => {
            if value_is_null(dv) {
                None
            } else {
                match decode_data(dv) {
                    Some(d) => Some(d),
                    None => {
                        return None;
                    },
                }
            }
        },
    };
    Some(Block { chain_id, chain_type, data })
}

/// Deserializes one observer message.
///
/// The bytes must be valid JSON whose top level decodes as a block object:
/// a required `chain_id` string, an optional `type` tag defaulting to
/// empty, and an optional `data` member — missing or `null` both mean a
/// block without data. Unknown members are ignored everywhere. Anything
/// else fails with `MalformedPayload`, the only error this operation
/// reports.
pub fn parse(b: &[u8]) -> (r: Result<Block, FeedError>)
    ensures
        match r {
            Ok(blk) => (json_doc(b@) matches Some(v) && json_block(v) == Some(view_of_block(blk))),
            Err(e) => e == FeedError::MalformedPayload && (match json_doc(b@) {
                Some(v) => json_block(v) is None,
                None => true,
            }),
        },
{
    let v = match json_from_slice(b) {
        Some(v) => v,
        None => {
            return Err(FeedError::MalformedPayload);
        },
    };
    match decode_block(&v) {
        Some(blk) => Ok(blk),
        None => Err(FeedError::MalformedPayload),
    }
}

} // verus!
