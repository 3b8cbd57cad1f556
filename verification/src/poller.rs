use vstd::prelude::*;

use crate::block::{spec_exchange_rates, spec_supply, Block};
use crate::cache::{DenomMap, ExchangeRateSet, SupplySet};
use crate::decimal::Rate;
use crate::errors::FeedError;

verus! {

/// Where the poll loop stands over the connection's lifetime.
///
/// The loop begins once a connection stands: establishing it comes first
/// and involves no decision — a failure there is fatal to the whole
/// poller, with no reconnect policy — so the machine starts at `Polling`.
#[derive(Clone, Copy, Debug, PartialEq, Eq, Structural)]
pub enum PollerState {
    /// Each tick: send a subscription request, then wait for a message.
    Polling,
    /// A read failed: wait a tick and retry the read without re-sending
    /// the request.
    RetryingRead,
    /// The stop signal arrived; the connection is closed and the loop
    /// returns.
    Stopped,
}

/// What the loop observed at a suspension or read point.
#[derive(Clone, Copy, Debug, PartialEq, Eq, Structural)]
pub enum PollEvent {
    /// The stop signal arrived; it wins every race.
    StopReceived,
    /// The fixed interval elapsed.
    TimerElapsed,
    /// A message arrived from the transport.
    MessageReceived,
    /// A read attempt failed with a transport error.
    ReadFailed,
}

/// What the loop must do next.
#[derive(Clone, Copy, Debug, PartialEq, Eq, Structural)]
pub enum PollAction {
    /// Send a subscription request, then wait for the next message.
    SendRequestAndRead,
    /// Wait one interval, then retry the read; the request is not re-sent.
    ReadAgain,
    /// Hand the received payload through a poll cycle, then wait for the
    /// next tick.
    ProcessMessage,
    /// Close the connection, best-effort, and return.
    CloseConnection,
}

/// The poll loop's transition function.
pub open spec fn spec_poll_step(state: PollerState, event: PollEvent) -> (PollerState, PollAction) {
    match event {
        PollEvent::StopReceived => (PollerState::Stopped, PollAction::CloseConnection),
        PollEvent::TimerElapsed => match state {
            PollerState::Polling => (PollerState::Polling, PollAction::SendRequestAndRead),
            PollerState::RetryingRead => (PollerState::RetryingRead, PollAction::ReadAgain),
            PollerState::Stopped => (PollerState::Stopped, PollAction::CloseConnection),
        },
        PollEvent::MessageReceived => match state {
            PollerState::Stopped => (PollerState::Stopped, PollAction::CloseConnection),
            _ => (PollerState::Polling, PollAction::ProcessMessage),
        },
        PollEvent::ReadFailed => match state {
            PollerState::Stopped => (PollerState::Stopped, PollAction::CloseConnection),
            _ => (PollerState::RetryingRead, PollAction::ReadAgain),
        },
    }
}

/// Advances the poll loop by one observation.
///
/// The stop signal always wins: it alone moves the loop to `Stopped`, from
/// any state, and once stopped the loop stays stopped. A failed read moves
/// the loop into the retrying state, whose only action is to wait and read
/// again — the request is never re-sent until a message has arrived.
pub fn poll_step(state: PollerState, event: PollEvent) -> (r: (PollerState, PollAction))
    ensures
        r == spec_poll_step(state, event),
        event == PollEvent::StopReceived ==> r.0 == PollerState::Stopped && r.1
            == PollAction::CloseConnection,
        (r.0 == PollerState::Stopped) <==> (event == PollEvent::StopReceived || state
            == PollerState::Stopped),
        state != PollerState::Stopped && event == PollEvent::ReadFailed ==> r.0
            == PollerState::RetryingRead && r.1 == PollAction::ReadAgain,
        state != PollerState::Stopped && event == PollEvent::MessageReceived ==> r.0
            == PollerState::Polling && r.1 == PollAction::ProcessMessage,
{
    match event {
        PollEvent::StopReceived => (PollerState::Stopped, PollAction::CloseConnection),
        PollEvent::TimerElapsed => match state {
            PollerState::Polling => (PollerState::Polling, PollAction::SendRequestAndRead),
            PollerState::RetryingRead => (PollerState::RetryingRead, PollAction::ReadAgain),
            PollerState::Stopped => (PollerState::Stopped, PollAction::CloseConnection),
        },
        PollEvent::MessageReceived => match state {
            PollerState::Stopped => (PollerState::Stopped, PollAction::CloseConnection),
            _ => (PollerState::Polling, PollAction::ProcessMessage),
        },
        PollEvent::ReadFailed => match state {
            PollerState::Stopped => (PollerState::Stopped, PollAction::CloseConnection),
            _ => (PollerState::RetryingRead, PollAction::ReadAgain),
        },
    }
}

/// The rates one cycle contributes: what extraction found, or an empty map
/// when extraction failed — a bad block never halts monitoring.
pub open spec fn spec_cycle_rates(b: Block) -> Map<Seq<char>, Rate> {
    match spec_exchange_rates(b) {
        Ok(m) => m,
        Err(_) => Map::empty(),
    }
}

/// The supply one cycle contributes, under the same tolerance.
pub open spec fn spec_cycle_supply(b: Block) -> Map<Seq<char>, u64> {
    match spec_supply(b) {
        Ok(m) => m,
        Err(_) => Map::empty(),
    }
}

/// Runs the computation of one poll cycle on a parse outcome.
///
/// A failed parse, or a failed extraction, contributes an empty map for
/// the part it affects; handing either result to `update_rates` /
/// `update_supply` then leaves that side of the cache unchanged. This is
/// the per-cycle tolerance policy: errors are confined to the cycle, and
/// the loop goes on.
pub fn process_cycle(parsed: Result<Block, FeedError>) -> (r: (ExchangeRateSet, SupplySet))
    ensures
        match parsed {
            Ok(b) => r.0@ == spec_cycle_rates(b) && r.1@ == spec_cycle_supply(b),
            Err(_) => r.0@ == Map::<Seq<char>, Rate>::empty() && r.1@ == Map::<
                Seq<char>,
                u64,
            >::empty(),
        },
{
    let b = match parsed {
        Ok(b) => b,
        Err(_) => {
            return (DenomMap::new(), DenomMap::new());
        },
    };
    let rates = match b.get_exchange_rates() {
        Ok(set) => set,
        Err(_) => DenomMap::new(),
    };
    let supply = match b.get_supply() {
        Ok(set) => set,
        Err(_) => DenomMap::new(),
    };
    (rates, supply)
}

} // verus!
