//! Data records of the governance collaborator, as the core sees them.
//!
//! Governance elects parameter changes and is otherwise a black box to
//! the lending pool; only its plain counters and vote records appear
//! here.

use vstd::prelude::*;

verus! {

/// Governance global state.
#[derive(Clone, Copy, Debug, PartialEq, Eq, Structural)]
pub struct Basecamp {
    /// Number of proposals submitted so far.
    pub proposal_count: u64,
}

/// Lifecycle stage of a governance proposal.
#[derive(Clone, Copy, Debug, PartialEq, Eq, Structural)]
pub enum ProposalStatus {
    Active,
    Passed,
    Rejected,
    Executed,
}

/// A voter's choice on a proposal.
#[derive(Clone, Copy, Debug, PartialEq, Eq, Structural)]
pub enum ProposalVoteOption {
    For,
    Against,
}

impl ProposalVoteOption {
    /// The option's name as it appears in messages.
    pub fn as_text(&self) -> (r: &'static str)
        ensures
            *self == ProposalVoteOption::For ==> r@ == "for"@,
            *self == ProposalVoteOption::Against ==> r@ == "against"@,
    {
        match self {
            ProposalVoteOption::For => "for",
            ProposalVoteOption::Against => "against",
        }
    }
}

} // verus!
