//! Price-feed aggregation for a blockchain observer stream.
//!
//! The library extracts per-denomination exchange rates and token supply
//! amounts from a block notification's nested transaction/log/event data,
//! keeps the last known good values in a pair of maps, and derives a price
//! snapshot from the two. Transport, HTTP serving and process bootstrap are
//! left to the surrounding program, which drives the poll loop through the
//! library's state machine.

mod block;
mod cache;
mod decimal;
mod decode;
mod errors;
mod jsonio;
mod poller;
mod request;
mod textparse;

pub use block::{
    lemma_exchange_rates_numeraire, lemma_no_vote_empty_rates, lemma_rates_include_numeraire,
    parse_token_spec, rates_map_spec, rates_of_attr, scan_attrs, scan_events, scan_logs,
    scan_txs, spec_exchange_rates, spec_supply, supply_map_spec, Attribute, Block, Data, Event,
    Log, Price, Prices, Supply, Tx,
};
pub use cache::{
    snapshot_prices, update_rates, update_supply, DenomMap, ExchangeRateSet, SupplySet,
};
pub use decimal::{
    all_digits, digits_val, is_digit, parse_rate, parse_rate_spec, parse_u64, parse_u64_spec,
    Rate,
};
pub use decode::{
    json_attr, json_block, json_data, json_event, json_list, json_log, json_supply, json_text,
    json_text_or_empty, json_tx, parse, view_of_attr, view_of_block, view_of_data,
    view_of_event, view_of_log, view_of_supply, view_of_tx, AttributeV, BlockV, DataV, EventV,
    LogV, SupplyV, TxV,
};
pub use errors::FeedError;
pub use jsonio::{json_doc, val_arr, val_field, val_is_null, val_str};
pub use poller::{
    poll_step, process_cycle, spec_cycle_rates, spec_cycle_supply, spec_poll_step, PollAction,
    PollEvent, PollerState,
};
pub use request::{
    encode_request, escape_char, hex_digit, json_escaped, spec_encode_request, Request,
};
pub use textparse::{find_char, find_char_in, split_char, split_char_str, text_eq};
