use vstd::prelude::*;

verus! {

/// The failures the library reports.
#[derive(Clone, Copy, Debug, PartialEq, Eq, Structural)]
pub enum FeedError {
    /// Input bytes or an embedded field do not match the expected shape.
    MalformedPayload,
    /// A block carries no `data` section, so no facts can be read from it.
    MissingData,
    /// No successful extraction has populated the cache yet.
    NotReady,
    /// The stop signal could not be handed to the poller.
    SignalDeliveryFailed,
}

impl FeedError {
    /// A short description, for callers that log or display failures.
    pub fn as_text(&self) -> (r: &'static str)
        ensures
            r@ == self.spec_text(),
    {
        match self {
            FeedError::MalformedPayload => "malformed payload",
            FeedError::MissingData => "no data found",
            FeedError::NotReady => "cache not ready",
            FeedError::SignalDeliveryFailed => "failed to send stop signal",
        }
    }

    /// The description each failure carries.
    pub open spec fn spec_text(&self) -> Seq<char> {
        match self {
            FeedError::MalformedPayload => "malformed payload"@,
            FeedError::MissingData => "no data found"@,
            FeedError::NotReady => "cache not ready"@,
            FeedError::SignalDeliveryFailed => "failed to send stop signal"@,
        }
    }
}

} // verus!
