//! On-chain supervisor: deterministic governance logic for a
//! Byzantine-fault-tolerant blockchain node.
//!
//! The library models the supervisor's persistent schema, quorum rules,
//! deploy and migration lifecycles, and the per-block epoch hook as a
//! deterministic state machine over plain values. External collaborators
//! (the consensus core, the dispatcher, and the runtime host) appear as
//! data: their observable state is carried in the execution context, and
//! calls into them are recorded as actions.

pub mod confirms;
pub mod hook;
pub mod laws;
pub mod state;
pub mod storage;
pub mod digest;
pub mod tables;
pub mod transactions;
pub mod types;
pub mod verify;

use vstd::prelude::*;

verus! {

/// Mode of the supervisor: decides the approval threshold for
/// governance actions.
#[derive(Clone, Copy, PartialEq, Eq, Structural, Debug)]
pub enum SupervisorMode {
    /// A single validator decides alone.
    Simple,
    /// A two-thirds-plus-one majority of the validators decides.
    Decentralized,
}

impl SupervisorMode {
    /// Number of confirmations required for an action to be approved,
    /// given the current validator count.
    pub open spec fn spec_quorum(self, n: nat) -> nat {
        match self {
            SupervisorMode::Simple => 1,
            SupervisorMode::Decentralized => (2 * n) / 3 + 1,
        }
    }

    /// Computes the approval threshold over `n` validators.
    pub fn quorum(self, n: usize) -> (q: usize)
        requires
            2 * n <= usize::MAX,
        ensures
            q == self.spec_quorum(n as nat),
    {
        match self {
            SupervisorMode::Simple => 1,
            SupervisorMode::Decentralized => (2 * n) / 3 + 1,
        }
    }
}

} // verus!
