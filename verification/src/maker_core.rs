//! The Maker's decisions on one connection: from the phase, the configured
//! behaviour and what arrived, to the next phase, the reply, and whether the
//! connection is closed. The Maker only answers; it never retries.

use vstd::prelude::*;

verus! {

/// Where a connection stands.
#[derive(Clone, Copy, Debug, PartialEq, Eq, Structural)]
pub enum MakerPhase {
    AwaitHello,
    Negotiating,
    AwaitFundingProof,
    /// The funding is known and awaits its confirmations.
    ContractSetup,
    AwaitPreimage,
    Settled,
    Aborted,
}

/// At which step, if any, the Maker fails on purpose. `Normal` is what runs
/// in production; the others exist to try the Taker's recovery.
#[derive(Clone, Copy, Debug, PartialEq, Eq, Structural)]
pub enum MakerBehavior {
    Normal,
    /// Closes the connection instead of answering a contract setup request.
    CloseAtReqContractSigsForSender,
    /// Closes the connection right after sending the refund signatures.
    CloseAtContractSigsForSender,
    /// Sends refund signatures that do not verify.
    CorruptContractSigs,
    /// Closes the connection instead of answering a funding proof.
    CloseAtProofOfFunding,
    /// Closes the connection instead of answering the preimage.
    CloseAtHashPreimage,
    /// Closes the connection right after sending the redeem signatures.
    CloseAtContractSigsForRecvr,
}

/// Why the Maker refuses.
#[derive(Clone, Copy, Debug, PartialEq, Eq, Structural)]
pub enum ErrorReason {
    UnsupportedVersion,
    UnexpectedMessage,
    InvalidTerms,
    InvalidFunding,
    InvalidPreimage,
}

/// What arrived, as far as the decisions depend on it.
#[derive(Clone, Copy, Debug, PartialEq, Eq, Structural)]
pub enum MakerInput {
    /// `Hello` with the version that the Maker speaks.
    HelloSupported,
    /// `Hello` with another version.
    HelloUnsupported,
    OfferRequest,
    /// A contract setup request whose terms the Maker accepts.
    SetupValid,
    /// A contract setup request whose terms the Maker refuses.
    SetupInvalid,
    /// A funding proof that names the funding of the agreed contract.
    FundingProofValid,
    /// A funding proof that names something else.
    FundingProofInvalid,
    /// The wallet reports that the funding has its confirmations.
    FundingConfirmed,
    /// The preimage of the agreed hash value.
    PreimageValid,
    /// Something that is not the preimage of the agreed hash value.
    PreimageInvalid,
    Ack,
    /// Bytes that are no message.
    Unreadable,
    /// The Taker sent `Error`.
    PeerError,
    /// Nothing arrived in time.
    Timeout,
    /// The Taker closed the connection.
    Disconnected,
}

/// What the Maker sends.
#[derive(Clone, Copy, Debug, PartialEq, Eq, Structural)]
pub enum MakerReply {
    Nothing,
    Ack,
    Offer,
    RefundSignatures,
    /// Refund signatures that do not verify.
    CorruptSignatures,
    RedeemSignatures,
    Error(ErrorReason),
}

/// The outcome of one decision.
#[derive(Clone, Copy, Debug, PartialEq, Eq, Structural)]
pub struct MakerStep {
    pub next: MakerPhase,
    pub reply: MakerReply,
    /// Whether the connection is closed after the reply.
    pub close: bool,
}

/// Whether the input is a message of the Taker.
pub open spec fn spec_is_message(input: MakerInput) -> bool {
    match input {
        MakerInput::FundingConfirmed | MakerInput::Timeout | MakerInput::Disconnected => false,
        _ => true,
    }
}

/// The connection is given up with an `Error`.
pub open spec fn spec_refuse(reason: ErrorReason) -> MakerStep {
    MakerStep { next: MakerPhase::Aborted, reply: MakerReply::Error(reason), close: true }
}

/// The connection is given up without a word.
pub open spec fn spec_drop() -> MakerStep {
    MakerStep { next: MakerPhase::Aborted, reply: MakerReply::Nothing, close: true }
}

/// What an input does that the phase has no answer for: a message of the
/// Taker, a timeout or a lost connection end the connection; a report of the
/// wallet changes nothing.
pub open spec fn spec_otherwise(phase: MakerPhase, input: MakerInput) -> MakerStep {
    match input {
        MakerInput::FundingConfirmed => MakerStep {
            next: phase,
            reply: MakerReply::Nothing,
            close: false,
        },
        MakerInput::Timeout | MakerInput::Disconnected | MakerInput::PeerError => spec_drop(),
        _ => spec_refuse(ErrorReason::UnexpectedMessage),
    }
}

/// The decision.
pub open spec fn spec_step(phase: MakerPhase, behavior: MakerBehavior, input: MakerInput) -> MakerStep {
    match phase {
        MakerPhase::AwaitHello => match input {
            MakerInput::HelloSupported => MakerStep {
                next: MakerPhase::Negotiating,
                reply: MakerReply::Ack,
                close: false,
            },
            MakerInput::HelloUnsupported => spec_refuse(ErrorReason::UnsupportedVersion),
            _ => spec_otherwise(phase, input),
        },
        MakerPhase::Negotiating => match input {
            MakerInput::OfferRequest => MakerStep {
                next: MakerPhase::Negotiating,
                reply: MakerReply::Offer,
                close: false,
            },
            MakerInput::SetupValid => match behavior {
                MakerBehavior::CloseAtReqContractSigsForSender => spec_drop(),
                MakerBehavior::CloseAtContractSigsForSender => MakerStep {
                    next: MakerPhase::Aborted,
                    reply: MakerReply::RefundSignatures,
                    close: true,
                },
                MakerBehavior::CorruptContractSigs => MakerStep {
                    next: MakerPhase::AwaitFundingProof,
                    reply: MakerReply::CorruptSignatures,
                    close: false,
                },
                _ => MakerStep {
                    next: MakerPhase::AwaitFundingProof,
                    reply: MakerReply::RefundSignatures,
                    close: false,
                },
            },
            MakerInput::SetupInvalid => match behavior {
                MakerBehavior::CloseAtReqContractSigsForSender => spec_drop(),
                _ => spec_refuse(ErrorReason::InvalidTerms),
            },
            _ => spec_otherwise(phase, input),
        },
        MakerPhase::AwaitFundingProof => match input {
            MakerInput::FundingProofValid => match behavior {
                MakerBehavior::CloseAtProofOfFunding => spec_drop(),
                _ => MakerStep {
                    next: MakerPhase::ContractSetup,
                    reply: MakerReply::Ack,
                    close: false,
                },
            },
            MakerInput::FundingProofInvalid => match behavior {
                MakerBehavior::CloseAtProofOfFunding => spec_drop(),
                _ => spec_refuse(ErrorReason::InvalidFunding),
            },
            _ => spec_otherwise(phase, input),
        },
        MakerPhase::ContractSetup => match input {
            MakerInput::FundingConfirmed => MakerStep {
                next: MakerPhase::AwaitPreimage,
                reply: MakerReply::Nothing,
                close: false,
            },
            _ => spec_otherwise(phase, input),
        },
        MakerPhase::AwaitPreimage => match input {
            MakerInput::PreimageValid => match behavior {
                MakerBehavior::CloseAtHashPreimage => spec_drop(),
                MakerBehavior::CloseAtContractSigsForRecvr => MakerStep {
                    next: MakerPhase::Settled,
                    reply: MakerReply::RedeemSignatures,
                    close: true,
                },
                _ => MakerStep {
                    next: MakerPhase::Settled,
                    reply: MakerReply::RedeemSignatures,
                    close: false,
                },
            },
            MakerInput::PreimageInvalid => match behavior {
                MakerBehavior::CloseAtHashPreimage => spec_drop(),
                _ => spec_refuse(ErrorReason::InvalidPreimage),
            },
            _ => spec_otherwise(phase, input),
        },
        MakerPhase::Settled => match input {
            MakerInput::Ack => MakerStep {
                next: MakerPhase::Settled,
                reply: MakerReply::Ack,
                close: true,
            },
            MakerInput::FundingConfirmed => MakerStep {
                next: MakerPhase::Settled,
                reply: MakerReply::Nothing,
                close: false,
            },
            _ => MakerStep { next: MakerPhase::Settled, reply: MakerReply::Nothing, close: true },
        },
        MakerPhase::Aborted => MakerStep {
            next: MakerPhase::Aborted,
            reply: MakerReply::Nothing,
            close: true,
        },
    }
}

fn refuse(reason: ErrorReason) -> (step: MakerStep)
    ensures
        step == spec_refuse(reason),
{
    MakerStep { next: MakerPhase::Aborted, reply: MakerReply::Error(reason), close: true }
}

fn drop_connection() -> (step: MakerStep)
    ensures
        step == spec_drop(),
{
    MakerStep { next: MakerPhase::Aborted, reply: MakerReply::Nothing, close: true }
}

fn otherwise(phase: MakerPhase, input: MakerInput) -> (step: MakerStep)
    ensures
        step == spec_otherwise(phase, input),
{
    match input {
        MakerInput::FundingConfirmed => MakerStep {
            next: phase,
            reply: MakerReply::Nothing,
            close: false,
        },
        MakerInput::Timeout | MakerInput::Disconnected | MakerInput::PeerError => drop_connection(),
        _ => refuse(ErrorReason::UnexpectedMessage),
    }
}

/// Decides what follows an input.
pub fn step(phase: MakerPhase, behavior: MakerBehavior, input: MakerInput) -> (decided: MakerStep)
    ensures
        decided == spec_step(phase, behavior, input),
{
    match phase {
        MakerPhase::AwaitHello => match input {
            MakerInput::HelloSupported => MakerStep {
                next: MakerPhase::Negotiating,
                reply: MakerReply::Ack,
                close: false,
            },
            MakerInput::HelloUnsupported => refuse(ErrorReason::UnsupportedVersion),
            _ => otherwise(phase, input),
        },
        MakerPhase::Negotiating => match input {
            MakerInput::OfferRequest => MakerStep {
                next: MakerPhase::Negotiating,
                reply: MakerReply::Offer,
                close: false,
            },
            MakerInput::SetupValid => match behavior {
                MakerBehavior::CloseAtReqContractSigsForSender => drop_connection(),
                MakerBehavior::CloseAtContractSigsForSender => MakerStep {
                    next: MakerPhase::Aborted,
                    reply: MakerReply::RefundSignatures,
                    close: true,
                },
                MakerBehavior::CorruptContractSigs => MakerStep {
                    next: MakerPhase::AwaitFundingProof,
                    reply: MakerReply::CorruptSignatures,
                    close: false,
                },
                _ => MakerStep {
                    next: MakerPhase::AwaitFundingProof,
                    reply: MakerReply::RefundSignatures,
                    close: false,
                },
            },
            MakerInput::SetupInvalid => match behavior {
                MakerBehavior::CloseAtReqContractSigsForSender => drop_connection(),
                _ => refuse(ErrorReason::InvalidTerms),
            },
            _ => otherwise(phase, input),
        },
        MakerPhase::AwaitFundingProof => match input {
            MakerInput::FundingProofValid => match behavior {
                MakerBehavior::CloseAtProofOfFunding => drop_connection(),
                _ => MakerStep {
                    next: MakerPhase::ContractSetup,
                    reply: MakerReply::Ack,
                    close: false,
                },
            },
            MakerInput::FundingProofInvalid => match behavior {
                MakerBehavior::CloseAtProofOfFunding => drop_connection(),
                _ => refuse(ErrorReason::InvalidFunding),
            },
            _ => otherwise(phase, input),
        },
        MakerPhase::ContractSetup => match input {
            MakerInput::FundingConfirmed => MakerStep {
                next: MakerPhase::AwaitPreimage,
                reply: MakerReply::Nothing,
                close: false,
            },
            _ => otherwise(phase, input),
        },
        MakerPhase::AwaitPreimage => match input {
            MakerInput::PreimageValid => match behavior {
                MakerBehavior::CloseAtHashPreimage => drop_connection(),
                MakerBehavior::CloseAtContractSigsForRecvr => MakerStep {
                    next: MakerPhase::Settled,
                    reply: MakerReply::RedeemSignatures,
                    close: true,
                },
                _ => MakerStep {
                    next: MakerPhase::Settled,
                    reply: MakerReply::RedeemSignatures,
                    close: false,
                },
            },
            MakerInput::PreimageInvalid => match behavior {
                MakerBehavior::CloseAtHashPreimage => drop_connection(),
                _ => refuse(ErrorReason::InvalidPreimage),
            },
            _ => otherwise(phase, input),
        },
        MakerPhase::Settled => match input {
            MakerInput::Ack => MakerStep {
                next: MakerPhase::Settled,
                reply: MakerReply::Ack,
                close: true,
            },
            MakerInput::FundingConfirmed => MakerStep {
                next: MakerPhase::Settled,
                reply: MakerReply::Nothing,
                close: false,
            },
            _ => MakerStep { next: MakerPhase::Settled, reply: MakerReply::Nothing, close: true },
        },
        MakerPhase::Aborted => MakerStep {
            next: MakerPhase::Aborted,
            reply: MakerReply::Nothing,
            close: true,
        },
    }
}

/// The place of a phase in the order in which a connection passes through
/// the phases.
pub open spec fn phase_rank(phase: MakerPhase) -> int {
    match phase {
        MakerPhase::AwaitHello => 0,
        MakerPhase::Negotiating => 1,
        MakerPhase::AwaitFundingProof => 2,
        MakerPhase::ContractSetup => 3,
        MakerPhase::AwaitPreimage => 4,
        MakerPhase::Settled => 5,
        MakerPhase::Aborted => 6,
    }
}

/// A connection never goes back: each decision keeps the phase, moves to
/// the one that follows it, or ends the connection. A connection that was
/// given up stays given up and says nothing more.
pub proof fn lemma_phases_in_order(phase: MakerPhase, behavior: MakerBehavior, input: MakerInput)
    ensures
        ({
            let decided = spec_step(phase, behavior, input);
            &&& decided.next == phase || decided.next == MakerPhase::Aborted || phase_rank(
                decided.next,
            ) == phase_rank(phase) + 1
            &&& phase == MakerPhase::Aborted ==> decided.next == MakerPhase::Aborted
                && decided.reply == MakerReply::Nothing
            &&& decided.next == MakerPhase::Aborted ==> decided.close
        }),
{
}

/// Signatures leave the Maker only in answer to what it checked: refund
/// signatures to accepted terms while negotiating, redeem signatures to the
/// true preimage while it is awaited.
pub proof fn lemma_signatures_only_on_valid_input(phase: MakerPhase, behavior: MakerBehavior, input: MakerInput)
    ensures
        ({
            let decided = spec_step(phase, behavior, input);
            &&& decided.reply == MakerReply::RefundSignatures || decided.reply
                == MakerReply::CorruptSignatures ==> phase == MakerPhase::Negotiating && input
                == MakerInput::SetupValid
            &&& decided.reply == MakerReply::RedeemSignatures ==> phase == MakerPhase::AwaitPreimage
                && input == MakerInput::PreimageValid
        }),
{
}

/// A Maker that behaves normally answers every message of the Taker: with
/// the message that the protocol asks for or with an `Error`.
pub proof fn lemma_normal_always_answers(phase: MakerPhase, input: MakerInput)
    requires
        spec_is_message(input),
        input != MakerInput::PeerError,
        phase != MakerPhase::Aborted,
        phase != MakerPhase::Settled,
    ensures
        spec_step(phase, MakerBehavior::Normal, input).reply != MakerReply::Nothing,
{
}

/// Every behaviour decides as `Normal` does except at its own step.
pub proof fn lemma_behaviors_differ_only_at_their_step(
    phase: MakerPhase,
    behavior: MakerBehavior,
    input: MakerInput,
)
    ensures
        spec_step(phase, behavior, input) != spec_step(phase, MakerBehavior::Normal, input) ==> {
            ||| phase == MakerPhase::Negotiating && (input == MakerInput::SetupValid || input
                == MakerInput::SetupInvalid)
            ||| phase == MakerPhase::AwaitFundingProof && (input == MakerInput::FundingProofValid
                || input == MakerInput::FundingProofInvalid)
            ||| phase == MakerPhase::AwaitPreimage && (input == MakerInput::PreimageValid || input
                == MakerInput::PreimageInvalid)
        },
{
}

} // verus!
