//! The failure classes of the agent and how far each one propagates.

use vstd::prelude::*;

verus! {

/// Every failure the agent distinguishes.
#[derive(Clone, Copy, Debug, PartialEq, Eq, Structural)]
pub enum AgentError {
    /// A network hiccup or a chain endpoint that is briefly unavailable.
    Transient,
    /// The validator already voted for this slot; a benign race.
    AlreadyVoted,
    /// Cross-message nonces do not continue where the chain left off.
    MessageGap,
    /// A transaction was broadcast but no receipt arrived within the budget.
    ReceiptUnknown,
    /// An address of the wrong class met the boundary between the two chains.
    AddressConversion,
    /// Parent missing, wrong network, or gateway mismatch.
    Configuration,
    /// A broken invariant, such as a tipset with several blocks.
    Fatal,
}

/// What the smallest unit that saw a failure does about it.
#[derive(Clone, Copy, Debug, PartialEq, Eq, Structural)]
pub enum Disposition {
    /// Nothing happened that needs attention.
    Suppress,
    /// Give up on this submission and look again at the next poll.
    RetryNextTick,
    /// The supervisor of the affected pair stops; other pairs go on.
    StopPair,
}

impl AgentError {
    /// The reaction each failure class calls for.
    pub open spec fn spec_disposition(self) -> Disposition {
        match self {
            AgentError::AlreadyVoted => Disposition::Suppress,
            AgentError::Transient | AgentError::MessageGap | AgentError::ReceiptUnknown =>
                Disposition::RetryNextTick,
            AgentError::AddressConversion | AgentError::Configuration | AgentError::Fatal =>
                Disposition::StopPair,
        }
    }

    /// True for the classes that end the supervisor of the pair.
    pub open spec fn spec_stops_pair(self) -> bool {
        self.spec_disposition() == Disposition::StopPair
    }

    #[verifier::when_used_as_spec(spec_disposition)]
    pub fn disposition(self) -> (d: Disposition)
        ensures
            d == self.spec_disposition(),
    {
        match self {
            AgentError::AlreadyVoted => Disposition::Suppress,
            AgentError::Transient => Disposition::RetryNextTick,
            AgentError::MessageGap => Disposition::RetryNextTick,
            AgentError::ReceiptUnknown => Disposition::RetryNextTick,
            AgentError::AddressConversion => Disposition::StopPair,
            AgentError::Configuration => Disposition::StopPair,
            AgentError::Fatal => Disposition::StopPair,
        }
    }

    #[verifier::when_used_as_spec(spec_stops_pair)]
    pub fn stops_pair(self) -> (b: bool)
        ensures
            b == self.spec_stops_pair(),
    {
        match self.disposition() {
            Disposition::StopPair => true,
            _ => false,
        }
    }

    /// A short name for messages.
    pub fn name(self) -> (s: &'static str)
        ensures
            s@ == self.spec_name(),
    {
        match self {
            AgentError::Transient => "transient",
            AgentError::AlreadyVoted => "already voted",
            AgentError::MessageGap => "message gap",
            AgentError::ReceiptUnknown => "receipt unknown",
            AgentError::AddressConversion => "address conversion",
            AgentError::Configuration => "configuration",
            AgentError::Fatal => "fatal",
        }
    }

    pub open spec fn spec_name(self) -> Seq<char> {
        match self {
            AgentError::Transient => "transient"@,
            AgentError::AlreadyVoted => "already voted"@,
            AgentError::MessageGap => "message gap"@,
            AgentError::ReceiptUnknown => "receipt unknown"@,
            AgentError::AddressConversion => "address conversion"@,
            AgentError::Configuration => "configuration"@,
            AgentError::Fatal => "fatal"@,
        }
    }
}

} // verus!
