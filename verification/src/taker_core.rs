//! The Taker's decisions: from where a swap attempt stands and what just
//! happened to where it stands next, what to do, and whom to ban. Peers,
//! wallet and network stay outside; they appear here only as inputs.

use vstd::prelude::*;
use crate::error::TakerError;
use crate::ledger::BanReason;

verus! {

/// Where a swap attempt stands.
#[derive(Clone, Copy, Debug, PartialEq, Eq, Structural)]
pub enum TakerPhase {
    /// Nothing has been started.
    Idle,
    /// The Directory was asked for the offers.
    Listing,
    /// A connection to the candidate for the current hop is being opened.
    Connecting,
    /// `Hello` was sent.
    Greeting,
    /// `OfferRequest` was sent.
    Negotiating,
    /// The wallet was asked to prepare the current hop's funding.
    Reserving,
    /// `ContractSetupRequest` was sent.
    AwaitRefundSigs,
    /// The wallet was asked to broadcast the current hop's funding.
    Broadcasting,
    /// `FundingProof` was sent.
    AwaitFundingAck,
    /// The current hop's funding awaits its confirmations.
    Confirming,
    /// `PreimageReveal` was sent to the current hop.
    AwaitRedeemSigs,
    /// The current hop's redeem signatures are held and `Ack` was sent.
    Closing,
    /// The wallet was asked to redeem the current hop with the preimage.
    Redeeming,
    /// Every hop is settled.
    Completed,
    /// The attempt was given up before the preimage was revealed.
    Aborted,
}

/// What just happened, as far as the decisions depend on it.
#[derive(Clone, Copy, Debug, PartialEq, Eq, Structural)]
pub enum TakerInput {
    /// The caller asks for the swap.
    Start,
    /// The Directory listed the offers.
    OffersListed,
    /// The Directory could not be asked.
    DirectoryFailed,
    /// The connection is open.
    Connected,
    /// The connection could not be opened.
    ConnectFailed,
    /// The Maker sent `Ack`.
    Ack,
    /// The Maker's offer fits the swap.
    OfferAccepted,
    /// The Maker's offer does not fit the swap.
    OfferRejected,
    /// The last offer fits, but the amounts or locktimes of the chain cannot
    /// be laid out.
    PlanFailed,
    /// The wallet prepared funding that matches the hop's amount.
    FundingPrepared,
    /// The wallet cannot fund the hop.
    FundingUnavailable,
    /// The Maker sent refund signatures, and all verify.
    RefundSigsValid,
    /// The Maker sent refund signatures, and not all verify.
    RefundSigsInvalid,
    /// The funding was broadcast and accepted.
    FundingBroadcast,
    /// The funding was refused by the network.
    BroadcastRejected,
    /// The funding has its confirmations.
    Confirmed,
    /// The funding did not get its confirmations in time.
    ConfirmationTimeout,
    /// The Maker sent redeem signatures, and all verify.
    RedeemSigsValid,
    /// The Maker sent redeem signatures, and not all verify.
    RedeemSigsInvalid,
    /// The wallet redeemed the hop with the preimage.
    Redeemed,
    /// The Maker sent `Error`.
    PeerError,
    /// The Maker sent a message that does not belong here.
    Unexpected,
    /// The Maker did not answer in time.
    Timeout,
    /// The Maker closed the connection.
    Disconnected,
}

/// What the Taker does next.
#[derive(Clone, Copy, Debug, PartialEq, Eq, Structural)]
pub enum TakerMove {
    /// Nothing: wait for the next input.
    Wait,
    /// Ask the Directory for the offers.
    ListOffers,
    /// Open a connection to the next candidate for the current hop.
    Connect,
    /// Send `Hello`.
    SendHello,
    /// Send `OfferRequest`.
    SendOfferRequest,
    /// Ask the wallet to prepare the current hop's funding.
    PrepareFunding,
    /// Send `ContractSetupRequest`.
    SendSetupRequest,
    /// Ask the wallet to broadcast the current hop's funding.
    BroadcastFunding,
    /// Send `FundingProof`.
    SendFundingProof,
    /// Wait for the confirmations of the current hop's funding.
    AwaitConfirmations,
    /// Send `PreimageReveal` to the current hop.
    SendPreimage,
    /// Send `Ack`.
    SendAck,
    /// Ask the wallet to redeem the current hop with the preimage.
    Redeem,
    /// Report success.
    Finish,
    /// Release what was reserved, leave what was funded to its refund, and
    /// report the failure.
    Abort,
}

/// The state of a swap attempt.
#[derive(Clone, Copy, Debug, PartialEq, Eq, Structural)]
pub struct TakerCore {
    pub phase: TakerPhase,
    /// The number of hops of the swap.
    pub hops: usize,
    /// The hop that is being worked on.
    pub hop: usize,
    /// How many hops have their Maker.
    pub selected: usize,
    /// How many hops have verified refund signatures.
    pub signed: usize,
    /// How many hops have their funding broadcast.
    pub funded: usize,
    /// How many hops have their funding confirmed.
    pub confirmed: usize,
    /// To how many hops, counted from the last, the preimage was sent.
    pub revealed: usize,
    /// How many hops, counted from the last, are settled.
    pub settled: usize,
    /// Why the attempt was given up.
    pub error: Option<TakerError>,
}

/// The outcome of one decision.
#[derive(Clone, Copy, Debug, PartialEq, Eq, Structural)]
pub struct TakerStep {
    pub next: TakerCore,
    pub action: TakerMove,
    /// Why the current hop's Maker is banned, if it is.
    pub ban: Option<BanReason>,
}

/// The state before anything was started.
pub open spec fn spec_initial(hops: usize) -> TakerCore {
    TakerCore {
        phase: TakerPhase::Idle,
        hops,
        hop: 0,
        selected: 0,
        signed: 0,
        funded: 0,
        confirmed: 0,
        revealed: 0,
        settled: 0,
        error: None,
    }
}

/// The states that a swap attempt can be in.
pub open spec fn well_formed(core: TakerCore) -> bool {
    match core.phase {
        TakerPhase::Idle => core == spec_initial(core.hops),
        TakerPhase::Listing => core.hops >= 1 && core == (TakerCore {
            phase: TakerPhase::Listing,
            ..spec_initial(core.hops)
        }),
        TakerPhase::Connecting | TakerPhase::Greeting | TakerPhase::Negotiating => {
            &&& core.hop < core.hops
            &&& core.selected == core.hop
            &&& core.signed == 0 && core.funded == 0 && core.confirmed == 0
            &&& core.revealed == 0 && core.settled == 0
            &&& core.error is None
        },
        TakerPhase::Reserving | TakerPhase::AwaitRefundSigs => {
            &&& core.hop < core.hops
            &&& core.selected == core.hops
            &&& core.signed == core.hop && core.funded == core.hop && core.confirmed == core.hop
            &&& core.revealed == 0 && core.settled == 0
            &&& core.error is None
        },
        TakerPhase::Broadcasting => {
            &&& core.hop < core.hops
            &&& core.selected == core.hops
            &&& core.signed == core.hop + 1 && core.funded == core.hop && core.confirmed
                == core.hop
            &&& core.revealed == 0 && core.settled == 0
            &&& core.error is None
        },
        TakerPhase::AwaitFundingAck | TakerPhase::Confirming => {
            &&& core.hop < core.hops
            &&& core.selected == core.hops
            &&& core.signed == core.hop + 1 && core.funded == core.hop + 1 && core.confirmed
                == core.hop
            &&& core.revealed == 0 && core.settled == 0
            &&& core.error is None
        },
        TakerPhase::AwaitRedeemSigs | TakerPhase::Closing | TakerPhase::Redeeming => {
            &&& core.hop < core.hops
            &&& core.selected == core.hops
            &&& core.signed == core.hops && core.funded == core.hops && core.confirmed
                == core.hops
            &&& core.revealed == core.hops - core.hop
            &&& core.settled == core.hops - core.hop - 1
            &&& core.error is None
        },
        TakerPhase::Completed => {
            &&& core.hops >= 1
            &&& core.selected == core.hops
            &&& core.signed == core.hops && core.funded == core.hops && core.confirmed
                == core.hops
            &&& core.revealed == core.hops && core.settled == core.hops
            &&& core.error is None
        },
        TakerPhase::Aborted => {
            &&& core.selected <= core.hops
            &&& core.confirmed <= core.funded && core.funded <= core.signed && core.signed
                <= core.selected
            &&& core.revealed == 0 && core.settled == 0
            &&& core.error is Some
        },
    }
}

/// Whether the input is a message of the Maker, as opposed to a report of
/// the transport or the wallet.
pub open spec fn spec_from_peer(input: TakerInput) -> bool {
    match input {
        TakerInput::Ack
        | TakerInput::OfferAccepted
        | TakerInput::OfferRejected
        | TakerInput::PlanFailed
        | TakerInput::RefundSigsValid
        | TakerInput::RefundSigsInvalid
        | TakerInput::RedeemSigsValid
        | TakerInput::RedeemSigsInvalid
        | TakerInput::PeerError
        | TakerInput::Unexpected => true,
        _ => false,
    }
}

/// Nothing changes and nothing is done.
pub open spec fn spec_stay(core: TakerCore) -> TakerStep {
    TakerStep { next: core, action: TakerMove::Wait, ban: None }
}

/// The attempt is given up.
pub open spec fn spec_abort(core: TakerCore, error: TakerError, ban: Option<BanReason>) -> TakerStep {
    TakerStep {
        next: TakerCore { phase: TakerPhase::Aborted, error: Some(error), ..core },
        action: TakerMove::Abort,
        ban,
    }
}

/// The candidate for the current hop is given up: the next one is tried, or
/// the attempt is given up where there is none.
pub open spec fn spec_fall_back(
    core: TakerCore,
    more_candidates: bool,
    error: TakerError,
    ban: Option<BanReason>,
) -> TakerStep {
    if more_candidates {
        TakerStep {
            next: TakerCore { phase: TakerPhase::Connecting, ..core },
            action: TakerMove::Connect,
            ban,
        }
    } else {
        spec_abort(core, error, ban)
    }
}

/// The current hop is settled: the preimage goes to the hop before it, or
/// the swap is complete where there is none.
pub open spec fn spec_settle(core: TakerCore, ban: Option<BanReason>) -> TakerStep {
    if core.hop > 0 {
        TakerStep {
            next: TakerCore {
                phase: TakerPhase::AwaitRedeemSigs,
                hop: (core.hop - 1) as usize,
                revealed: (core.revealed + 1) as usize,
                settled: (core.settled + 1) as usize,
                ..core
            },
            action: TakerMove::SendPreimage,
            ban,
        }
    } else {
        TakerStep {
            next: TakerCore {
                phase: TakerPhase::Completed,
                settled: (core.settled + 1) as usize,
                ..core
            },
            action: TakerMove::Finish,
            ban,
        }
    }
}

/// The hop's Maker failed after the preimage was revealed: it is banned and
/// the hop is redeemed with the preimage alone.
pub open spec fn spec_redeem_alone(core: TakerCore, reason: BanReason) -> TakerStep {
    TakerStep {
        next: TakerCore { phase: TakerPhase::Redeeming, ..core },
        action: TakerMove::Redeem,
        ban: Some(reason),
    }
}

/// The decision. `more_candidates` says whether the offer book holds
/// another Maker that could take the current hop.
///
/// A message that does not belong where the attempt stands is a violation:
/// its sender is banned. Before the preimage is revealed a failure ends the
/// attempt, or, while Makers are still being chosen, moves on to the next
/// candidate. After it is revealed nothing ends the attempt: a hop whose
/// Maker fails is redeemed with the preimage alone.
#[verifier::opaque]
pub open spec fn spec_step(core: TakerCore, input: TakerInput, more_candidates: bool) -> TakerStep {
    match core.phase {
        TakerPhase::Idle => match input {
            TakerInput::Start => if core.hops >= 1 {
                TakerStep {
                    next: TakerCore { phase: TakerPhase::Listing, ..core },
                    action: TakerMove::ListOffers,
                    ban: None,
                }
            } else {
                spec_abort(core, TakerError::NegotiationRejected, None)
            },
            _ => spec_stay(core),
        },
        TakerPhase::Listing => match input {
            TakerInput::OffersListed => if more_candidates {
                TakerStep {
                    next: TakerCore { phase: TakerPhase::Connecting, ..core },
                    action: TakerMove::Connect,
                    ban: None,
                }
            } else {
                spec_abort(core, TakerError::NegotiationRejected, None)
            },
            TakerInput::DirectoryFailed | TakerInput::Timeout | TakerInput::Disconnected => spec_abort(
                core,
                TakerError::MakerUnreachable,
                None,
            ),
            _ => spec_stay(core),
        },
        TakerPhase::Connecting => match input {
            TakerInput::Connected => TakerStep {
                next: TakerCore { phase: TakerPhase::Greeting, ..core },
                action: TakerMove::SendHello,
                ban: None,
            },
            TakerInput::ConnectFailed | TakerInput::Timeout | TakerInput::Disconnected => spec_fall_back(
                core,
                more_candidates,
                TakerError::MakerUnreachable,
                None,
            ),
            _ => spec_stay(core),
        },
        TakerPhase::Greeting => match input {
            TakerInput::Ack => TakerStep {
                next: TakerCore { phase: TakerPhase::Negotiating, ..core },
                action: TakerMove::SendOfferRequest,
                ban: None,
            },
            _ => spec_selection_failure(core, input, more_candidates),
        },
        TakerPhase::Negotiating => match input {
            TakerInput::OfferAccepted => if core.hop + 1 < core.hops {
                if more_candidates {
                    TakerStep {
                        next: TakerCore {
                            phase: TakerPhase::Connecting,
                            hop: (core.hop + 1) as usize,
                            selected: (core.selected + 1) as usize,
                            ..core
                        },
                        action: TakerMove::Connect,
                        ban: None,
                    }
                } else {
                    spec_abort(
                        TakerCore { selected: (core.selected + 1) as usize, ..core },
                        TakerError::NegotiationRejected,
                        None,
                    )
                }
            } else {
                TakerStep {
                    next: TakerCore {
                        phase: TakerPhase::Reserving,
                        hop: 0,
                        selected: (core.selected + 1) as usize,
                        ..core
                    },
                    action: TakerMove::PrepareFunding,
                    ban: None,
                }
            },
            TakerInput::PlanFailed => spec_abort(core, TakerError::FundsInsufficient, None),
            _ => spec_selection_failure(core, input, more_candidates),
        },
        TakerPhase::Reserving => match input {
            TakerInput::FundingPrepared => TakerStep {
                next: TakerCore { phase: TakerPhase::AwaitRefundSigs, ..core },
                action: TakerMove::SendSetupRequest,
                ban: None,
            },
            TakerInput::FundingUnavailable => spec_abort(core, TakerError::FundsInsufficient, None),
            _ => spec_setup_failure(core, input, false, false),
        },
        TakerPhase::AwaitRefundSigs => match input {
            TakerInput::RefundSigsValid => TakerStep {
                next: TakerCore {
                    phase: TakerPhase::Broadcasting,
                    signed: (core.signed + 1) as usize,
                    ..core
                },
                action: TakerMove::BroadcastFunding,
                ban: None,
            },
            _ => spec_setup_failure(core, input, true, false),
        },
        TakerPhase::Broadcasting => match input {
            TakerInput::FundingBroadcast => TakerStep {
                next: TakerCore {
                    phase: TakerPhase::AwaitFundingAck,
                    funded: (core.funded + 1) as usize,
                    ..core
                },
                action: TakerMove::SendFundingProof,
                ban: None,
            },
            TakerInput::BroadcastRejected => spec_abort(core, TakerError::ConfirmationTimeout, None),
            _ => spec_setup_failure(core, input, false, false),
        },
        TakerPhase::AwaitFundingAck => match input {
            TakerInput::Ack => TakerStep {
                next: TakerCore { phase: TakerPhase::Confirming, ..core },
                action: TakerMove::AwaitConfirmations,
                ban: None,
            },
            _ => spec_setup_failure(core, input, true, true),
        },
        TakerPhase::Confirming => match input {
            TakerInput::Confirmed => if core.hop + 1 < core.hops {
                TakerStep {
                    next: TakerCore {
                        phase: TakerPhase::Reserving,
                        hop: (core.hop + 1) as usize,
                        confirmed: (core.confirmed + 1) as usize,
                        ..core
                    },
                    action: TakerMove::PrepareFunding,
                    ban: None,
                }
            } else {
                TakerStep {
                    next: TakerCore {
                        phase: TakerPhase::AwaitRedeemSigs,
                        confirmed: (core.confirmed + 1) as usize,
                        revealed: 1,
                        ..core
                    },
                    action: TakerMove::SendPreimage,
                    ban: None,
                }
            },
            TakerInput::ConfirmationTimeout => spec_abort(
                core,
                TakerError::ConfirmationTimeout,
                None,
            ),
            _ => spec_setup_failure(core, input, false, true),
        },
        TakerPhase::AwaitRedeemSigs => match input {
            TakerInput::RedeemSigsValid => TakerStep {
                next: TakerCore { phase: TakerPhase::Closing, ..core },
                action: TakerMove::SendAck,
                ban: None,
            },
            TakerInput::Timeout => spec_redeem_alone(core, BanReason::Stalled),
            TakerInput::Disconnected => spec_redeem_alone(core, BanReason::DroppedConnection),
            _ => if spec_from_peer(input) {
                spec_redeem_alone(core, BanReason::InvalidData)
            } else {
                spec_stay(core)
            },
        },
        TakerPhase::Closing => match input {
            TakerInput::Ack => spec_settle(core, None),
            TakerInput::Timeout => spec_settle(core, Some(BanReason::Stalled)),
            TakerInput::Disconnected => spec_settle(core, Some(BanReason::DroppedConnection)),
            _ => if spec_from_peer(input) {
                spec_settle(core, Some(BanReason::InvalidData))
            } else {
                spec_stay(core)
            },
        },
        TakerPhase::Redeeming => match input {
            TakerInput::Redeemed => spec_settle(core, None),
            _ => spec_stay(core),
        },
        TakerPhase::Completed | TakerPhase::Aborted => spec_stay(core),
    }
}

/// What a failure does while Makers are still being chosen and a message of
/// the candidate is awaited: the candidate is given up, and banned where it
/// stalled or broke the protocol.
pub open spec fn spec_selection_failure(core: TakerCore, input: TakerInput, more_candidates: bool) -> TakerStep {
    match input {
        TakerInput::OfferRejected | TakerInput::PeerError => spec_fall_back(
            core,
            more_candidates,
            TakerError::NegotiationRejected,
            None,
        ),
        TakerInput::Timeout => spec_fall_back(
            core,
            more_candidates,
            TakerError::MakerUnreachable,
            Some(BanReason::Stalled),
        ),
        TakerInput::Disconnected => spec_fall_back(
            core,
            more_candidates,
            TakerError::MakerUnreachable,
            None,
        ),
        _ => if spec_from_peer(input) {
            spec_fall_back(
                core,
                more_candidates,
                TakerError::NegotiationRejected,
                Some(BanReason::InvalidData),
            )
        } else {
            spec_stay(core)
        },
    }
}

/// What a failure does while the hops are being set up and funded: the
/// attempt is given up. `awaiting` says whether a message of the Maker is
/// awaited, `committed` whether the hop's funding has been broadcast. A
/// Maker that drops the connection is banned only where the funding has
/// been broadcast; one that does not answer, only where an answer is
/// awaited.
pub open spec fn spec_setup_failure(core: TakerCore, input: TakerInput, awaiting: bool, committed: bool) -> TakerStep {
    match input {
        TakerInput::PeerError => if awaiting {
            spec_abort(
                core,
                if committed {
                    TakerError::ContractMismatch
                } else {
                    TakerError::NegotiationRejected
                },
                None,
            )
        } else {
            spec_abort(core, TakerError::ContractMismatch, Some(BanReason::InvalidData))
        },
        TakerInput::Timeout => if awaiting {
            spec_abort(core, TakerError::MakerUnreachable, Some(BanReason::Stalled))
        } else {
            spec_stay(core)
        },
        TakerInput::Disconnected => spec_abort(
            core,
            TakerError::MakerUnreachable,
            if committed {
                Some(BanReason::DroppedConnection)
            } else {
                None
            },
        ),
        _ => if spec_from_peer(input) {
            spec_abort(core, TakerError::ContractMismatch, Some(BanReason::InvalidData))
        } else {
            spec_stay(core)
        },
    }
}

/// Whether the input is a message of the Maker.
pub fn from_peer(input: TakerInput) -> (peer: bool)
    ensures
        peer == spec_from_peer(input),
{
    match input {
        TakerInput::Ack
        | TakerInput::OfferAccepted
        | TakerInput::OfferRejected
        | TakerInput::PlanFailed
        | TakerInput::RefundSigsValid
        | TakerInput::RefundSigsInvalid
        | TakerInput::RedeemSigsValid
        | TakerInput::RedeemSigsInvalid
        | TakerInput::PeerError
        | TakerInput::Unexpected => true,
        _ => false,
    }
}

fn stay(core: TakerCore) -> (step: TakerStep)
    ensures
        step == spec_stay(core),
{
    TakerStep { next: core, action: TakerMove::Wait, ban: None }
}

fn abort(core: TakerCore, error: TakerError, ban: Option<BanReason>) -> (step: TakerStep)
    ensures
        step == spec_abort(core, error, ban),
{
    let mut next = core;
    next.phase = TakerPhase::Aborted;
    next.error = Some(error);
    TakerStep { next, action: TakerMove::Abort, ban }
}

fn advance(core: TakerCore, phase: TakerPhase, action: TakerMove) -> (step: TakerStep)
    ensures
        step == (TakerStep { next: TakerCore { phase, ..core }, action, ban: None }),
{
    let mut next = core;
    next.phase = phase;
    TakerStep { next, action, ban: None }
}

fn fall_back(core: TakerCore, more_candidates: bool, error: TakerError, ban: Option<BanReason>) -> (step: TakerStep)
    ensures
        step == spec_fall_back(core, more_candidates, error, ban),
{
    if more_candidates {
        let mut next = core;
        next.phase = TakerPhase::Connecting;
        TakerStep { next, action: TakerMove::Connect, ban }
    } else {
        abort(core, error, ban)
    }
}

fn settle(core: TakerCore, ban: Option<BanReason>) -> (step: TakerStep)
    requires
        well_formed(core),
        core.phase == TakerPhase::Closing || core.phase == TakerPhase::Redeeming,
    ensures
        step == spec_settle(core, ban),
{
    let mut next = core;
    next.settled = core.settled + 1;
    if core.hop > 0 {
        next.phase = TakerPhase::AwaitRedeemSigs;
        next.hop = core.hop - 1;
        next.revealed = core.revealed + 1;
        TakerStep { next, action: TakerMove::SendPreimage, ban }
    } else {
        next.phase = TakerPhase::Completed;
        TakerStep { next, action: TakerMove::Finish, ban }
    }
}

fn redeem_alone(core: TakerCore, reason: BanReason) -> (step: TakerStep)
    ensures
        step == spec_redeem_alone(core, reason),
{
    let mut next = core;
    next.phase = TakerPhase::Redeeming;
    TakerStep { next, action: TakerMove::Redeem, ban: Some(reason) }
}

fn selection_failure(core: TakerCore, input: TakerInput, more_candidates: bool) -> (step: TakerStep)
    ensures
        step == spec_selection_failure(core, input, more_candidates),
{
    match input {
        TakerInput::OfferRejected | TakerInput::PeerError => fall_back(
            core,
            more_candidates,
            TakerError::NegotiationRejected,
            None,
        ),
        TakerInput::Timeout => fall_back(
            core,
            more_candidates,
            TakerError::MakerUnreachable,
            Some(BanReason::Stalled),
        ),
        TakerInput::Disconnected => fall_back(
            core,
            more_candidates,
            TakerError::MakerUnreachable,
            None,
        ),
        _ => if from_peer(input) {
            fall_back(
                core,
                more_candidates,
                TakerError::NegotiationRejected,
                Some(BanReason::InvalidData),
            )
        } else {
            stay(core)
        },
    }
}

fn setup_failure(core: TakerCore, input: TakerInput, awaiting: bool, committed: bool) -> (step: TakerStep)
    ensures
        step == spec_setup_failure(core, input, awaiting, committed),
{
    match input {
        TakerInput::PeerError => if awaiting {
            let error = if committed {
                TakerError::ContractMismatch
            } else {
                TakerError::NegotiationRejected
            };
            abort(core, error, None)
        } else {
            abort(core, TakerError::ContractMismatch, Some(BanReason::InvalidData))
        },
        TakerInput::Timeout => if awaiting {
            abort(core, TakerError::MakerUnreachable, Some(BanReason::Stalled))
        } else {
            stay(core)
        },
        TakerInput::Disconnected => {
            let ban = if committed {
                Some(BanReason::DroppedConnection)
            } else {
                None
            };
            abort(core, TakerError::MakerUnreachable, ban)
        },
        _ => if from_peer(input) {
            abort(core, TakerError::ContractMismatch, Some(BanReason::InvalidData))
        } else {
            stay(core)
        },
    }
}

impl TakerCore {
    /// The state before anything was started.
    pub fn new(hops: usize) -> (core: TakerCore)
        ensures
            core == spec_initial(hops),
            well_formed(core),
    {
        TakerCore {
            phase: TakerPhase::Idle,
            hops,
            hop: 0,
            selected: 0,
            signed: 0,
            funded: 0,
            confirmed: 0,
            revealed: 0,
            settled: 0,
            error: None,
        }
    }

    /// Whether the state is one that a swap attempt can be in.
    pub fn is_well_formed(&self) -> (valid: bool)
        ensures
            valid == well_formed(*self),
    {
        let at_start: bool = self.signed == 0 && self.funded == 0 && self.confirmed == 0;
        let unrevealed: bool = self.revealed == 0 && self.settled == 0;
        let no_error: bool = self.error.is_none();
        let in_chain: bool = self.hop < self.hops && self.selected == self.hops;
        match self.phase {
            TakerPhase::Idle => self.hop == 0 && self.selected == 0 && at_start && unrevealed
                && no_error,
            TakerPhase::Listing => self.hops >= 1 && self.hop == 0 && self.selected == 0
                && at_start && unrevealed && no_error,
            TakerPhase::Connecting | TakerPhase::Greeting | TakerPhase::Negotiating => self.hop
                < self.hops && self.selected == self.hop && at_start && unrevealed && no_error,
            TakerPhase::Reserving | TakerPhase::AwaitRefundSigs => in_chain && self.signed
                == self.hop && self.funded == self.hop && self.confirmed == self.hop && unrevealed
                && no_error,
            TakerPhase::Broadcasting => in_chain && self.signed >= 1 && self.signed - 1 == self.hop
                && self.funded == self.hop && self.confirmed == self.hop && unrevealed && no_error,
            TakerPhase::AwaitFundingAck | TakerPhase::Confirming => in_chain && self.signed >= 1
                && self.signed - 1 == self.hop && self.funded >= 1 && self.funded - 1 == self.hop && self.confirmed == self.hop
                && unrevealed && no_error,
            TakerPhase::AwaitRedeemSigs | TakerPhase::Closing | TakerPhase::Redeeming => in_chain
                && self.signed == self.hops && self.funded == self.hops && self.confirmed
                == self.hops && self.revealed == self.hops - self.hop && self.settled == self.hops
                - self.hop - 1 && no_error,
            TakerPhase::Completed => self.hops >= 1 && self.selected == self.hops && self.signed
                == self.hops && self.funded == self.hops && self.confirmed == self.hops
                && self.revealed == self.hops && self.settled == self.hops && no_error,
            TakerPhase::Aborted => self.selected <= self.hops && self.confirmed <= self.funded
                && self.funded <= self.signed && self.signed <= self.selected && unrevealed
                && self.error.is_some(),
        }
    }

    /// Whether the attempt has ended.
    pub fn is_final(&self) -> (ended: bool)
        ensures
            ended == (self.phase == TakerPhase::Completed || self.phase == TakerPhase::Aborted),
    {
        match self.phase {
            TakerPhase::Completed | TakerPhase::Aborted => true,
            _ => false,
        }
    }
}

/// Decides what follows an input. The preimage is sent only where every
/// hop's refund signatures are verified and every hop's funding is
/// confirmed; funding is counted only on the wallet's report of a broadcast.
pub fn step(core: TakerCore, input: TakerInput, more_candidates: bool) -> (decided: TakerStep)
    requires
        well_formed(core),
    ensures
        decided == spec_step(core, input, more_candidates),
        well_formed(decided.next),
        decided.action == TakerMove::SendPreimage ==> core.signed == core.hops && core.funded
            == core.hops,
        decided.next.funded != core.funded ==> input == TakerInput::FundingBroadcast,
{
    proof {
        reveal(spec_step);
        lemma_step_keeps_well_formed(core, input, more_candidates);
        lemma_hops_in_order(core, input, more_candidates);
        lemma_reveal_from_well_formed(core, input, more_candidates);
    }
    match core.phase {
        TakerPhase::Idle => match input {
            TakerInput::Start => if core.hops >= 1 {
                advance(core, TakerPhase::Listing, TakerMove::ListOffers)
            } else {
                abort(core, TakerError::NegotiationRejected, None)
            },
            _ => stay(core),
        },
        TakerPhase::Listing => match input {
            TakerInput::OffersListed => if more_candidates {
                advance(core, TakerPhase::Connecting, TakerMove::Connect)
            } else {
                abort(core, TakerError::NegotiationRejected, None)
            },
            TakerInput::DirectoryFailed | TakerInput::Timeout | TakerInput::Disconnected => abort(
                core,
                TakerError::MakerUnreachable,
                None,
            ),
            _ => stay(core),
        },
        TakerPhase::Connecting => match input {
            TakerInput::Connected => advance(core, TakerPhase::Greeting, TakerMove::SendHello),
            TakerInput::ConnectFailed | TakerInput::Timeout | TakerInput::Disconnected => fall_back(
                core,
                more_candidates,
                TakerError::MakerUnreachable,
                None,
            ),
            _ => stay(core),
        },
        TakerPhase::Greeting => match input {
            TakerInput::Ack => advance(core, TakerPhase::Negotiating, TakerMove::SendOfferRequest),
            _ => selection_failure(core, input, more_candidates),
        },
        TakerPhase::Negotiating => match input {
            TakerInput::OfferAccepted => {
                let mut next = core;
                next.selected = core.selected + 1;
                if core.hop + 1 < core.hops {
                    if more_candidates {
                        next.phase = TakerPhase::Connecting;
                        next.hop = core.hop + 1;
                        TakerStep { next, action: TakerMove::Connect, ban: None }
                    } else {
                        abort(next, TakerError::NegotiationRejected, None)
                    }
                } else {
                    next.phase = TakerPhase::Reserving;
                    next.hop = 0;
                    TakerStep { next, action: TakerMove::PrepareFunding, ban: None }
                }
            },
            TakerInput::PlanFailed => abort(core, TakerError::FundsInsufficient, None),
            _ => selection_failure(core, input, more_candidates),
        },
        TakerPhase::Reserving => match input {
            TakerInput::FundingPrepared => advance(
                core,
                TakerPhase::AwaitRefundSigs,
                TakerMove::SendSetupRequest,
            ),
            TakerInput::FundingUnavailable => abort(core, TakerError::FundsInsufficient, None),
            _ => setup_failure(core, input, false, false),
        },
        TakerPhase::AwaitRefundSigs => match input {
            TakerInput::RefundSigsValid => {
                let mut next = core;
                next.phase = TakerPhase::Broadcasting;
                next.signed = core.signed + 1;
                TakerStep { next, action: TakerMove::BroadcastFunding, ban: None }
            },
            _ => setup_failure(core, input, true, false),
        },
        TakerPhase::Broadcasting => match input {
            TakerInput::FundingBroadcast => {
                let mut next = core;
                next.phase = TakerPhase::AwaitFundingAck;
                next.funded = core.funded + 1;
                TakerStep { next, action: TakerMove::SendFundingProof, ban: None }
            },
            TakerInput::BroadcastRejected => abort(core, TakerError::ConfirmationTimeout, None),
            _ => setup_failure(core, input, false, false),
        },
        TakerPhase::AwaitFundingAck => match input {
            TakerInput::Ack => advance(core, TakerPhase::Confirming, TakerMove::AwaitConfirmations),
            _ => setup_failure(core, input, true, true),
        },
        TakerPhase::Confirming => match input {
            TakerInput::Confirmed => {
                let mut next = core;
                next.confirmed = core.confirmed + 1;
                if core.hop + 1 < core.hops {
                    next.phase = TakerPhase::Reserving;
                    next.hop = core.hop + 1;
                    TakerStep { next, action: TakerMove::PrepareFunding, ban: None }
                } else {
                    next.phase = TakerPhase::AwaitRedeemSigs;
                    next.revealed = 1;
                    TakerStep { next, action: TakerMove::SendPreimage, ban: None }
                }
            },
            TakerInput::ConfirmationTimeout => abort(core, TakerError::ConfirmationTimeout, None),
            _ => setup_failure(core, input, false, true),
        },
        TakerPhase::AwaitRedeemSigs => match input {
            TakerInput::RedeemSigsValid => advance(core, TakerPhase::Closing, TakerMove::SendAck),
            TakerInput::Timeout => redeem_alone(core, BanReason::Stalled),
            TakerInput::Disconnected => redeem_alone(core, BanReason::DroppedConnection),
            _ => if from_peer(input) {
                redeem_alone(core, BanReason::InvalidData)
            } else {
                stay(core)
            },
        },
        TakerPhase::Closing => match input {
            TakerInput::Ack => settle(core, None),
            TakerInput::Timeout => settle(core, Some(BanReason::Stalled)),
            TakerInput::Disconnected => settle(core, Some(BanReason::DroppedConnection)),
            _ => if from_peer(input) {
                settle(core, Some(BanReason::InvalidData))
            } else {
                stay(core)
            },
        },
        TakerPhase::Redeeming => match input {
            TakerInput::Redeemed => settle(core, None),
            _ => stay(core),
        },
        TakerPhase::Completed | TakerPhase::Aborted => stay(core),
    }
}

/// Where the attempt stands after a sequence of inputs, each with the
/// answer to whether another candidate is left.
pub open spec fn spec_run(core: TakerCore, inputs: Seq<(TakerInput, bool)>) -> TakerCore
    decreases inputs.len(),
{
    if inputs.len() == 0 {
        core
    } else {
        spec_step(spec_run(core, inputs.drop_last()), inputs.last().0, inputs.last().1).next
    }
}

/// Whether the Taker's funds are safe where the attempt has ended: after
/// success every hop is settled; after failure the preimage was never
/// revealed and every hop that was funded has verified refund signatures.
pub open spec fn funds_safe(core: TakerCore) -> bool {
    &&& core.phase == TakerPhase::Completed ==> core.settled == core.hops
    &&& core.phase == TakerPhase::Aborted ==> core.revealed == 0 && core.funded <= core.signed
}

/// Every decision leads from a state that an attempt can be in to another.
pub proof fn lemma_step_keeps_well_formed(core: TakerCore, input: TakerInput, more_candidates: bool)
    requires
        well_formed(core),
    ensures
        well_formed(spec_step(core, input, more_candidates).next),
        spec_step(core, input, more_candidates).next.hops == core.hops,
{
    reveal(spec_step);
}

/// The preimage is sent only from a state in which every hop's refund
/// signatures are verified and every hop's funding is broadcast.
pub proof fn lemma_reveal_from_well_formed(core: TakerCore, input: TakerInput, more_candidates: bool)
    requires
        well_formed(core),
    ensures
        ({
            let decided = spec_step(core, input, more_candidates);
            &&& decided.action == TakerMove::SendPreimage ==> core.signed == core.hops
                && core.funded == core.hops
            &&& decided.next.signed != core.signed ==> input == TakerInput::RefundSigsValid
                && decided.next.signed == core.signed + 1
            &&& decided.next.revealed > 0 ==> decided.next.signed == core.hops
        }),
{
    reveal(spec_step);
}

/// Whatever happens, in whatever order, the attempt stays in a state that
/// it can be in, and there the Taker's funds are safe.
pub proof fn lemma_run_keeps_well_formed(hops: usize, inputs: Seq<(TakerInput, bool)>)
    ensures
        well_formed(spec_run(spec_initial(hops), inputs)),
        funds_safe(spec_run(spec_initial(hops), inputs)),
        spec_run(spec_initial(hops), inputs).hops == hops,
    decreases inputs.len(),
{
    if inputs.len() > 0 {
        lemma_run_keeps_well_formed(hops, inputs.drop_last());
        lemma_step_keeps_well_formed(
            spec_run(spec_initial(hops), inputs.drop_last()),
            inputs.last().0,
            inputs.last().1,
        );
    }
}

/// The preimage is never sent before every hop's refund signatures are
/// verified and every hop's funding is broadcast; and a hop's refund
/// signatures count only when they arrive and verify.
pub proof fn lemma_reveal_needs_every_refund_signature(
    hops: usize,
    inputs: Seq<(TakerInput, bool)>,
    input: TakerInput,
    more_candidates: bool,
)
    ensures
        ({
            let core = spec_run(spec_initial(hops), inputs);
            let decided = spec_step(core, input, more_candidates);
            &&& decided.action == TakerMove::SendPreimage ==> core.signed == hops && core.funded
                == hops
            &&& decided.next.signed != core.signed ==> input == TakerInput::RefundSigsValid
                && decided.next.signed == core.signed + 1
            &&& decided.next.revealed > 0 ==> decided.next.signed == hops
        }),
{
    lemma_run_keeps_well_formed(hops, inputs);
    lemma_reveal_from_well_formed(spec_run(spec_initial(hops), inputs), input, more_candidates);
}

/// Where the Maker drops the connection after its refund signatures were
/// verified and before the funding is broadcast, the attempt is given up,
/// nothing is broadcast, nobody is banned, and whatever comes later changes
/// nothing.
pub proof fn lemma_disconnect_before_broadcast(core: TakerCore, more_candidates: bool, later: TakerInput, later_more: bool)
    requires
        well_formed(core),
        core.phase == TakerPhase::Broadcasting,
    ensures
        ({
            let decided = spec_step(core, TakerInput::Disconnected, more_candidates);
            &&& decided.next.phase == TakerPhase::Aborted
            &&& decided.next.error == Some(TakerError::MakerUnreachable)
            &&& decided.action == TakerMove::Abort
            &&& decided.ban is None
            &&& decided.next.funded == core.funded
            &&& decided.next.revealed == 0
            &&& spec_step(decided.next, later, later_more) == spec_stay(decided.next)
        }),
{
    reveal(spec_step);
}

/// Where the Maker drops the connection right after its redeem signatures
/// were verified, the hop is settled all the same, the Maker is banned, and
/// the attempt goes on to the hop before it or is complete.
pub proof fn lemma_disconnect_after_redeem_signatures(core: TakerCore, more_candidates: bool)
    requires
        well_formed(core),
        core.phase == TakerPhase::Closing,
    ensures
        ({
            let decided = spec_step(core, TakerInput::Disconnected, more_candidates);
            &&& decided.ban == Some(BanReason::DroppedConnection)
            &&& decided.next.settled == core.settled + 1
            &&& decided.next.funded == core.funded
            &&& core.hop == 0 ==> decided.next.phase == TakerPhase::Completed && decided.action
                == TakerMove::Finish
            &&& core.hop > 0 ==> decided.next.phase == TakerPhase::AwaitRedeemSigs
                && decided.next.hop == core.hop - 1 && decided.action == TakerMove::SendPreimage
        }),
{
    reveal(spec_step);
}

/// Once the preimage is revealed the attempt is never given up, and no
/// settled hop is lost.
pub proof fn lemma_no_abort_after_reveal(core: TakerCore, input: TakerInput, more_candidates: bool)
    requires
        well_formed(core),
        core.revealed > 0,
    ensures
        spec_step(core, input, more_candidates).next.phase != TakerPhase::Aborted,
        spec_step(core, input, more_candidates).next.settled >= core.settled,
        spec_step(core, input, more_candidates).next.revealed >= core.revealed,
{
    reveal(spec_step);
}

/// An attempt that has ended stays as it is.
pub proof fn lemma_ended_stays(core: TakerCore, input: TakerInput, more_candidates: bool)
    requires
        core.phase == TakerPhase::Completed || core.phase == TakerPhase::Aborted,
    ensures
        spec_step(core, input, more_candidates) == spec_stay(core),
{
    reveal(spec_step);
}

/// The hops are funded in order, one at a time, and only on the wallet's
/// report of a broadcast: a hop is never started before the one in front of
/// it is funded and confirmed.
pub proof fn lemma_hops_in_order(core: TakerCore, input: TakerInput, more_candidates: bool)
    requires
        well_formed(core),
    ensures
        ({
            let decided = spec_step(core, input, more_candidates);
            &&& decided.next.funded == core.funded || (decided.next.funded == core.funded + 1
                && input == TakerInput::FundingBroadcast && core.phase == TakerPhase::Broadcasting)
            &&& decided.action == TakerMove::BroadcastFunding ==> core.funded == core.hop
                && core.confirmed == core.hop && decided.next.signed == core.hop + 1
            &&& decided.action == TakerMove::PrepareFunding ==> decided.next.confirmed
                == decided.next.hop
        }),
{
    reveal(spec_step);
}

/// Whom a decision bans does not depend on whether another candidate is
/// left.
pub proof fn lemma_ban_regardless_of_candidates(core: TakerCore, input: TakerInput)
    ensures
        spec_step(core, input, true).ban == spec_step(core, input, false).ban,
{
    reveal(spec_step);
}

/// Whether Makers are still being chosen.
pub open spec fn spec_selecting(core: TakerCore) -> bool {
    core.phase == TakerPhase::Connecting || core.phase == TakerPhase::Greeting || core.phase
        == TakerPhase::Negotiating
}

/// Whether the hops are being set up, funded or settled, or all are settled.
pub open spec fn spec_working(core: TakerCore) -> bool {
    !spec_selecting(core) && core.phase != TakerPhase::Idle && core.phase != TakerPhase::Listing
        && core.phase != TakerPhase::Aborted
}

/// For how many hops the wallet has prepared funding, where the attempt has
/// not been given up.
pub open spec fn spec_prepared(core: TakerCore) -> int {
    match core.phase {
        TakerPhase::Reserving => core.hop as int,
        TakerPhase::AwaitRefundSigs
        | TakerPhase::Broadcasting
        | TakerPhase::AwaitFundingAck
        | TakerPhase::Confirming => core.hop + 1,
        TakerPhase::AwaitRedeemSigs
        | TakerPhase::Closing
        | TakerPhase::Redeeming
        | TakerPhase::Completed => core.hops as int,
        _ => 0,
    }
}

/// How a decision moves the attempt through its stages: a Maker is counted
/// only when its offer is accepted, funding only when the wallet prepared
/// it, and the stages follow each other in order.
pub proof fn lemma_step_shape(core: TakerCore, input: TakerInput, more_candidates: bool)
    requires
        well_formed(core),
    ensures
        ({
            let decided = spec_step(core, input, more_candidates);
            let next = decided.next;
            let accepted = core.phase == TakerPhase::Negotiating && input
                == TakerInput::OfferAccepted;
            let prepared = core.phase == TakerPhase::Reserving && input
                == TakerInput::FundingPrepared;
            &&& next.selected == core.selected + if accepted {
                1int
            } else {
                0int
            }
            &&& spec_selecting(next) ==> decided.action == TakerMove::Connect || spec_selecting(core)
            &&& decided.action == TakerMove::Connect ==> spec_selecting(next) && more_candidates
            &&& spec_working(next) ==> spec_working(core) || (accepted && core.hop + 1 == core.hops)
            &&& next.phase != TakerPhase::Aborted ==> spec_prepared(next) == spec_prepared(core)
                + if prepared {
                1int
            } else {
                0int
            }
            &&& next.funded <= spec_prepared(core) || next.funded == core.funded
            &&& decided.ban is Some ==> spec_selecting(core) || spec_working(core)
            &&& decided.ban is Some ==> core.phase != TakerPhase::Completed
            &&& decided.action == TakerMove::Abort ==> next.error is Some
            &&& (decided.action == TakerMove::PrepareFunding || decided.action
                == TakerMove::SendSetupRequest || decided.action == TakerMove::SendFundingProof)
                ==> spec_working(next) && next.hop < next.hops
            &&& decided.action == TakerMove::SendSetupRequest || decided.action
                == TakerMove::SendFundingProof ==> next.hop < spec_prepared(next)
            &&& next.hops == core.hops
            &&& core.phase == TakerPhase::Aborted ==> next == core
        }),
{
    reveal(spec_step);
}

/// Whether the attempt has not yet begun to choose Makers.
pub open spec fn spec_before_selection(core: TakerCore) -> bool {
    core.phase == TakerPhase::Idle || core.phase == TakerPhase::Listing
}

/// How far the attempt is from its end, where no other Maker has to be
/// tried: every decision that is not a wait and asks for no connection
/// brings the attempt closer to its end.
pub open spec fn spec_distance(core: TakerCore) -> int {
    let hops = core.hops as int;
    let hop = core.hop as int;
    let settling = 3 * hops + 1;
    let selecting = settling + 5 * hops + 1;
    match core.phase {
        TakerPhase::Completed | TakerPhase::Aborted => 0,
        TakerPhase::Redeeming => 3 * hop + 1,
        TakerPhase::Closing => 3 * hop + 2,
        TakerPhase::AwaitRedeemSigs => 3 * hop + 3,
        TakerPhase::Confirming => settling + 5 * (hops - 1 - hop) + 1,
        TakerPhase::AwaitFundingAck => settling + 5 * (hops - 1 - hop) + 2,
        TakerPhase::Broadcasting => settling + 5 * (hops - 1 - hop) + 3,
        TakerPhase::AwaitRefundSigs => settling + 5 * (hops - 1 - hop) + 4,
        TakerPhase::Reserving => settling + 5 * (hops - 1 - hop) + 5,
        TakerPhase::Negotiating => selecting + 3 * (hops - 1 - hop) + 1,
        TakerPhase::Greeting => selecting + 3 * (hops - 1 - hop) + 2,
        TakerPhase::Connecting => selecting + 3 * (hops - 1 - hop) + 3,
        TakerPhase::Listing => selecting + 3 * hops + 1,
        TakerPhase::Idle => selecting + 3 * hops + 2,
    }
}

/// Every decision either waits and changes nothing, or asks for a
/// connection to the next candidate, or brings the attempt closer to its
/// end. An attempt ends with `Finish` or `Abort`, and only so.
pub proof fn lemma_step_progress(core: TakerCore, input: TakerInput, more_candidates: bool)
    requires
        well_formed(core),
    ensures
        ({
            let decided = spec_step(core, input, more_candidates);
            &&& 0 <= spec_distance(decided.next)
            &&& decided.action == TakerMove::Wait ==> decided.next == core && decided.ban is None
            &&& decided.action != TakerMove::Wait && decided.action != TakerMove::Connect
                ==> spec_distance(decided.next) < spec_distance(core)
            &&& decided.action == TakerMove::Finish <==> decided.next.phase == TakerPhase::Completed
                && core.phase != TakerPhase::Completed
            &&& decided.action == TakerMove::Abort <==> decided.next.phase == TakerPhase::Aborted
                && core.phase != TakerPhase::Aborted
            &&& decided.next.phase == TakerPhase::Idle ==> core.phase == TakerPhase::Idle && input
                != TakerInput::Start
            &&& spec_before_selection(decided.next) ==> spec_before_selection(core)
            &&& spec_before_selection(decided.next) && decided.action != TakerMove::Wait
                ==> core.phase == TakerPhase::Idle && decided.action == TakerMove::ListOffers
            &&& spec_before_selection(core) && !spec_before_selection(decided.next) ==> (
            decided.action == TakerMove::Abort || (core.phase == TakerPhase::Listing && input
                == TakerInput::OffersListed))
        }),
{
    reveal(spec_step);
}

/// What `Start` does: an attempt without a hop is given up at once, one
/// with a hop asks the Directory, and an attempt that was started before
/// passes the input over.
pub proof fn lemma_start(core: TakerCore, more_candidates: bool)
    ensures
        core.phase == TakerPhase::Idle && core.hops == 0 ==> spec_step(
            core,
            TakerInput::Start,
            more_candidates,
        ) == spec_abort(core, TakerError::NegotiationRejected, None),
        core.phase == TakerPhase::Idle && core.hops >= 1 ==> spec_step(
            core,
            TakerInput::Start,
            more_candidates,
        ) == (TakerStep {
            next: TakerCore { phase: TakerPhase::Listing, ..core },
            action: TakerMove::ListOffers,
            ban: None,
        }),
        core.phase != TakerPhase::Idle ==> spec_step(core, TakerInput::Start, more_candidates)
            == spec_stay(core),
{
    reveal(spec_step);
}

} // verus!
