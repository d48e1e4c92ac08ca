//! What a Maker that fails on purpose does to the Taker's attempt: the
//! Maker's decision and the Taker's decisions that follow it, taken
//! together.

use vstd::prelude::*;
use crate::error::TakerError;
use crate::ledger::BanReason;
use crate::maker_core::{MakerBehavior, MakerInput, MakerPhase, MakerReply};
use crate::taker_core::{spec_step, well_formed, TakerCore, TakerInput, TakerMove, TakerPhase};

verus! {

/// A Maker that closes the connection right after sending its redeem
/// signatures: the Taker holds the signatures, finds the connection closed
/// when it acknowledges them, settles the hop all the same and bans the
/// Maker. The attempt is not given up: it goes on to the hop before, or is
/// complete.
pub proof fn lemma_close_at_contract_sigs_for_recvr(taker: TakerCore, more_candidates: bool)
    requires
        well_formed(taker),
        taker.phase == TakerPhase::AwaitRedeemSigs,
    ensures
        ({
            let maker = crate::maker_core::spec_step(
                MakerPhase::AwaitPreimage,
                MakerBehavior::CloseAtContractSigsForRecvr,
                MakerInput::PreimageValid,
            );
            let held = spec_step(taker, TakerInput::RedeemSigsValid, more_candidates);
            let left = spec_step(held.next, TakerInput::Disconnected, more_candidates);
            &&& maker.reply == MakerReply::RedeemSignatures
            &&& maker.close
            &&& maker.next == MakerPhase::Settled
            &&& held.action == TakerMove::SendAck
            &&& held.ban is None
            &&& held.next.phase == TakerPhase::Closing
            &&& left.ban == Some(BanReason::DroppedConnection)
            &&& left.next.settled == taker.settled + 1
            &&& left.next.funded == taker.funded
            &&& left.next.phase != TakerPhase::Aborted
            &&& taker.hop == 0 ==> left.next.phase == TakerPhase::Completed && left.action
                == TakerMove::Finish
            &&& taker.hop > 0 ==> left.next.phase == TakerPhase::AwaitRedeemSigs && left.next.hop
                == taker.hop - 1 && left.action == TakerMove::SendPreimage
        }),
{
    reveal(spec_step);
}

/// A Maker that closes the connection right after sending its refund
/// signatures: the Taker holds the signatures, finds the connection closed
/// before the funding is broadcast, and gives the attempt up. Nothing is
/// broadcast, nothing is revealed and nobody is banned.
pub proof fn lemma_close_at_contract_sigs_for_sender(taker: TakerCore, more_candidates: bool)
    requires
        well_formed(taker),
        taker.phase == TakerPhase::AwaitRefundSigs,
    ensures
        ({
            let maker = crate::maker_core::spec_step(
                MakerPhase::Negotiating,
                MakerBehavior::CloseAtContractSigsForSender,
                MakerInput::SetupValid,
            );
            let held = spec_step(taker, TakerInput::RefundSigsValid, more_candidates);
            let left = spec_step(held.next, TakerInput::Disconnected, more_candidates);
            &&& maker.reply == MakerReply::RefundSignatures
            &&& maker.close
            &&& maker.next == MakerPhase::Aborted
            &&& held.action == TakerMove::BroadcastFunding
            &&& held.next.phase == TakerPhase::Broadcasting
            &&& left.action == TakerMove::Abort
            &&& left.next.phase == TakerPhase::Aborted
            &&& left.next.error == Some(TakerError::MakerUnreachable)
            &&& left.ban is None
            &&& left.next.funded == taker.funded
            &&& left.next.revealed == 0
        }),
{
    reveal(spec_step);
}

/// A Maker that closes the connection instead of answering the preimage:
/// the Taker bans it and redeems the hop with the preimage alone; once that
/// is done the hop is settled and the attempt goes on.
pub proof fn lemma_close_at_hash_preimage(taker: TakerCore, more_candidates: bool)
    requires
        well_formed(taker),
        taker.phase == TakerPhase::AwaitRedeemSigs,
    ensures
        ({
            let maker = crate::maker_core::spec_step(
                MakerPhase::AwaitPreimage,
                MakerBehavior::CloseAtHashPreimage,
                MakerInput::PreimageValid,
            );
            let left = spec_step(taker, TakerInput::Disconnected, more_candidates);
            let redeemed = spec_step(left.next, TakerInput::Redeemed, more_candidates);
            &&& maker.reply == MakerReply::Nothing
            &&& maker.close
            &&& left.action == TakerMove::Redeem
            &&& left.ban == Some(BanReason::DroppedConnection)
            &&& redeemed.ban is None
            &&& redeemed.next.settled == taker.settled + 1
            &&& redeemed.next.phase != TakerPhase::Aborted
        }),
{
    reveal(spec_step);
}

} // verus!
