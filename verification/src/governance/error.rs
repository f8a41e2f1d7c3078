//! The ways a call on the engine can fail. A failed call leaves the engine as it was.

use vstd::prelude::*;
use vstd::string::*;

verus! {

/// The classes that failures fall into.
#[derive(Clone, Copy, Debug, PartialEq, Eq, Structural)]
pub enum ErrorKind {
    /// The caller lacks the role or the ownership that the action asks for.
    Unauthorized,
    /// A proposal, a contribution or a member is absent.
    NotFound,
    /// The action was attempted against something not in the status it asks for.
    InvalidState,
    /// The action was attempted outside its time window.
    TimingViolation,
    /// A deposit or the treasury falls short.
    InsufficientFunds,
    /// A parameter is malformed or out of range.
    ValidationError,
}

/// Why a call on the engine failed.
#[derive(Clone, Copy, Debug, PartialEq, Eq, Structural)]
pub enum DaoError {
    EnginePaused,
    Unauthorized,
    InsufficientDeposit,
    TooManyActiveProposals,
    ProposalNotFound,
    ProposalNotActive,
    /// The vote came before the voting window opened or after it closed.
    VotingClosed,
    NotAMember,
    NoVotingPower,
    VotingPeriodNotEnded,
    /// The total voting power given for a quorum is zero.
    InvalidTotalPower,
    /// A voting period of zero: a voting window ends after it starts.
    InvalidVotingPeriod,
    ProposalNotSucceeded,
    ExecutionDelayNotMet,
    ProposalNotQueued,
    ContributionNotFound,
    /// The contribution has had its one review.
    ContributionAlreadyReviewed,
    AlreadyMember,
    DelegateNotMember,
    SelfDelegation,
    /// An amount, a time or a counter would leave the range of its type.
    ArithmeticOverflow,
}

impl DaoError {
    /// The class of this failure.
    pub open spec fn spec_kind(self) -> ErrorKind {
        match self {
            DaoError::Unauthorized | DaoError::NoVotingPower => ErrorKind::Unauthorized,
            DaoError::ProposalNotFound
            | DaoError::ContributionNotFound
            | DaoError::NotAMember
            | DaoError::DelegateNotMember => ErrorKind::NotFound,
            DaoError::EnginePaused
            | DaoError::TooManyActiveProposals
            | DaoError::ProposalNotActive
            | DaoError::ProposalNotSucceeded
            | DaoError::ProposalNotQueued
            | DaoError::ContributionAlreadyReviewed
            | DaoError::AlreadyMember => ErrorKind::InvalidState,
            DaoError::VotingClosed
            | DaoError::VotingPeriodNotEnded
            | DaoError::ExecutionDelayNotMet => ErrorKind::TimingViolation,
            DaoError::InsufficientDeposit => ErrorKind::InsufficientFunds,
            DaoError::InvalidTotalPower
            | DaoError::InvalidVotingPeriod
            | DaoError::SelfDelegation
            | DaoError::ArithmeticOverflow => ErrorKind::ValidationError,
        }
    }

    /// The class of this failure.
    #[verifier::when_used_as_spec(spec_kind)]
    pub fn kind(self) -> (k: ErrorKind)
        ensures
            k == self.spec_kind(),
    {
        match self {
            DaoError::Unauthorized | DaoError::NoVotingPower => ErrorKind::Unauthorized,
            DaoError::ProposalNotFound
            | DaoError::ContributionNotFound
            | DaoError::NotAMember
            | DaoError::DelegateNotMember => ErrorKind::NotFound,
            DaoError::EnginePaused
            | DaoError::TooManyActiveProposals
            | DaoError::ProposalNotActive
            | DaoError::ProposalNotSucceeded
            | DaoError::ProposalNotQueued
            | DaoError::ContributionAlreadyReviewed
            | DaoError::AlreadyMember => ErrorKind::InvalidState,
            DaoError::VotingClosed
            | DaoError::VotingPeriodNotEnded
            | DaoError::ExecutionDelayNotMet => ErrorKind::TimingViolation,
            DaoError::InsufficientDeposit => ErrorKind::InsufficientFunds,
            DaoError::InvalidTotalPower
            | DaoError::InvalidVotingPeriod
            | DaoError::SelfDelegation
            | DaoError::ArithmeticOverflow => ErrorKind::ValidationError,
        }
    }

    /// The short reason shown to the caller.
    pub open spec fn message_text(self) -> Seq<char> {
        match self {
            DaoError::EnginePaused => "DAO is paused"@,
            DaoError::Unauthorized => "Not authorized"@,
            DaoError::InsufficientDeposit => "Insufficient deposit"@,
            DaoError::TooManyActiveProposals => "Too many active proposals"@,
            DaoError::ProposalNotFound => "Proposal not found"@,
            DaoError::ProposalNotActive => "Proposal not active"@,
            DaoError::VotingClosed => "Not in voting period"@,
            DaoError::NotAMember => "Not a DAO member"@,
            DaoError::NoVotingPower => "No voting power"@,
            DaoError::VotingPeriodNotEnded => "Voting period not ended"@,
            DaoError::InvalidTotalPower => "Total voting power is zero"@,
            DaoError::InvalidVotingPeriod => "Voting period is zero"@,
            DaoError::ProposalNotSucceeded => "Proposal not succeeded"@,
            DaoError::ExecutionDelayNotMet => "Execution delay not met"@,
            DaoError::ProposalNotQueued => "Proposal not queued"@,
            DaoError::ContributionNotFound => "Contribution not found"@,
            DaoError::ContributionAlreadyReviewed => "Contribution already reviewed"@,
            DaoError::AlreadyMember => "Already a member"@,
            DaoError::DelegateNotMember => "Delegate not a member"@,
            DaoError::SelfDelegation => "Cannot delegate to self"@,
            DaoError::ArithmeticOverflow => "Arithmetic overflow"@,
        }
    }

    /// The short reason shown to the caller.
    pub fn message(self) -> (s: String)
        ensures
            s@ == self.message_text(),
    {
        let text: &str = match self {
            DaoError::EnginePaused => "DAO is paused",
            DaoError::Unauthorized => "Not authorized",
            DaoError::InsufficientDeposit => "Insufficient deposit",
            DaoError::TooManyActiveProposals => "Too many active proposals",
            DaoError::ProposalNotFound => "Proposal not found",
            DaoError::ProposalNotActive => "Proposal not active",
            DaoError::VotingClosed => "Not in voting period",
            DaoError::NotAMember => "Not a DAO member",
            DaoError::NoVotingPower => "No voting power",
            DaoError::VotingPeriodNotEnded => "Voting period not ended",
            DaoError::InvalidTotalPower => "Total voting power is zero",
            DaoError::InvalidVotingPeriod => "Voting period is zero",
            DaoError::ProposalNotSucceeded => "Proposal not succeeded",
            DaoError::ExecutionDelayNotMet => "Execution delay not met",
            DaoError::ProposalNotQueued => "Proposal not queued",
            DaoError::ContributionNotFound => "Contribution not found",
            DaoError::ContributionAlreadyReviewed => "Contribution already reviewed",
            DaoError::AlreadyMember => "Already a member",
            DaoError::DelegateNotMember => "Delegate not a member",
            DaoError::SelfDelegation => "Cannot delegate to self",
            DaoError::ArithmeticOverflow => "Arithmetic overflow",
        };
        String::from_str(text)
    }
}

} // verus!
