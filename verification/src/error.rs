//! The errors that the library reports.

use vstd::prelude::*;

verus! {

/// Why a contract was refused.
#[derive(Clone, Copy, Debug, PartialEq, Eq, Structural)]
pub enum ContractError {
    /// A script does not have the agreed form.
    MalformedScript,
    /// A signature does not verify for the transaction and the expected key.
    SignatureMismatch,
    /// A value lies outside the agreed bounds.
    ValueOutOfBounds,
    /// A hop's locktime is not strictly less than that of the hop before it.
    LocktimeNotDecreasing,
}

/// Why a swap attempt failed, as the Taker reports it.
#[derive(Clone, Copy, Debug, PartialEq, Eq, Structural)]
pub enum TakerError {
    /// No Maker could be reached for a hop.
    MakerUnreachable,
    /// A Maker refused the terms, or too few Makers offer them.
    NegotiationRejected,
    /// A Maker's contract data does not match what was agreed.
    ContractMismatch,
    /// A funding transaction did not confirm in time.
    ConfirmationTimeout,
    /// The wallet cannot fund the swap.
    FundsInsufficient,
}

} // verus!
