pub mod account;
pub mod actions;
pub mod contract;
pub mod json;
pub mod ledger;
pub mod lifecycle;

use vstd::prelude::*;

verus! {

/// A yoctoNEAR-denominated balance, the smallest unit of ledger value.
pub type Balance = u128;

/// An execution-resource allowance for one remote hop.
pub type GasAmount = u64;

/// Default funding a new subordinate account receives, chosen to cover the
/// ledger's minimum viable balance for account existence.
pub const MIN_STORAGE: Balance = 100_000_000_000_000_000_000_000;

/// Conservative default execution budget for one remote call hop.
pub const CALL_GAS: GasAmount = 5_000_000_000_000;

/// No value attached to a call.
pub const NO_DEPOSIT: Balance = 0;

/// Why an entry point refused to act; rejection happens before any state
/// mutation or scheduling request.
#[derive(Clone, Copy, Debug, PartialEq, Eq, Structural)]
pub enum ContractError {
    /// The invoker is not the required privileged identity.
    Authorization,
    /// Attached value or execution allowance exceeds what the program holds
    /// or what policy allows.
    Budget,
    /// A given or derived account identifier fails the ledger grammar.
    InvalidAccountId,
    /// Argument text the payload codec does not carry (non-ASCII).
    InvalidArgument,
    /// Durable state already exists; the one-time constructor refuses to run.
    AlreadyInitialized,
}

/// The settled result of a remote call, as delivered to a callback. Nothing
/// beyond presence is guaranteed on success.
#[derive(Clone, Copy, Debug, PartialEq, Eq, Structural)]
pub enum CallOutcome {
    Completed,
    Failed,
}

/// What the callback recorded about the remote outcome it observed.
#[derive(Clone, Copy, Debug, PartialEq, Eq, Structural)]
pub enum Diagnostic {
    RemoteSucceeded,
    RemoteFailed,
}

} // verus!
