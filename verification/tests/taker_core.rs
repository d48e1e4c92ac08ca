use coinswap::error::TakerError;
use coinswap::ledger::BanReason;
use coinswap::taker_core::{from_peer, step, TakerCore, TakerInput, TakerMove, TakerPhase};

/// Runs the inputs of a swap in which everything goes well, up to the point
/// where the given phase is reached for the given hop.
fn run_until(hops: usize, phase: TakerPhase, hop: usize) -> TakerCore {
    let mut core = TakerCore::new(hops);
    let mut guard = 0;
    loop {
        if core.phase == phase && core.hop == hop {
            return core;
        }
        let input = match core.phase {
            TakerPhase::Idle => TakerInput::Start,
            TakerPhase::Listing => TakerInput::OffersListed,
            TakerPhase::Connecting => TakerInput::Connected,
            TakerPhase::Greeting => TakerInput::Ack,
            TakerPhase::Negotiating => TakerInput::OfferAccepted,
            TakerPhase::Reserving => TakerInput::FundingPrepared,
            TakerPhase::AwaitRefundSigs => TakerInput::RefundSigsValid,
            TakerPhase::Broadcasting => TakerInput::FundingBroadcast,
            TakerPhase::AwaitFundingAck => TakerInput::Ack,
            TakerPhase::Confirming => TakerInput::Confirmed,
            TakerPhase::AwaitRedeemSigs => TakerInput::RedeemSigsValid,
            TakerPhase::Closing => TakerInput::Ack,
            TakerPhase::Redeeming => TakerInput::Redeemed,
            TakerPhase::Completed | TakerPhase::Aborted => panic!("ended in {:?}", core),
        };
        core = step(core, input, true).next;
        guard += 1;
        assert!(guard < 1000);
    }
}

#[test]
fn a_swap_that_goes_well_takes_these_steps() {
    let mut core = TakerCore::new(2);
    let script = [
        (TakerInput::Start, TakerMove::ListOffers, TakerPhase::Listing, 0),
        (TakerInput::OffersListed, TakerMove::Connect, TakerPhase::Connecting, 0),
        (TakerInput::Connected, TakerMove::SendHello, TakerPhase::Greeting, 0),
        (TakerInput::Ack, TakerMove::SendOfferRequest, TakerPhase::Negotiating, 0),
        (TakerInput::OfferAccepted, TakerMove::Connect, TakerPhase::Connecting, 1),
        (TakerInput::Connected, TakerMove::SendHello, TakerPhase::Greeting, 1),
        (TakerInput::Ack, TakerMove::SendOfferRequest, TakerPhase::Negotiating, 1),
        (TakerInput::OfferAccepted, TakerMove::PrepareFunding, TakerPhase::Reserving, 0),
        (TakerInput::FundingPrepared, TakerMove::SendSetupRequest, TakerPhase::AwaitRefundSigs, 0),
        (TakerInput::RefundSigsValid, TakerMove::BroadcastFunding, TakerPhase::Broadcasting, 0),
        (TakerInput::FundingBroadcast, TakerMove::SendFundingProof, TakerPhase::AwaitFundingAck, 0),
        (TakerInput::Ack, TakerMove::AwaitConfirmations, TakerPhase::Confirming, 0),
        (TakerInput::Confirmed, TakerMove::PrepareFunding, TakerPhase::Reserving, 1),
        (TakerInput::FundingPrepared, TakerMove::SendSetupRequest, TakerPhase::AwaitRefundSigs, 1),
        (TakerInput::RefundSigsValid, TakerMove::BroadcastFunding, TakerPhase::Broadcasting, 1),
        (TakerInput::FundingBroadcast, TakerMove::SendFundingProof, TakerPhase::AwaitFundingAck, 1),
        (TakerInput::Ack, TakerMove::AwaitConfirmations, TakerPhase::Confirming, 1),
        (TakerInput::Confirmed, TakerMove::SendPreimage, TakerPhase::AwaitRedeemSigs, 1),
        (TakerInput::RedeemSigsValid, TakerMove::SendAck, TakerPhase::Closing, 1),
        (TakerInput::Ack, TakerMove::SendPreimage, TakerPhase::AwaitRedeemSigs, 0),
        (TakerInput::RedeemSigsValid, TakerMove::SendAck, TakerPhase::Closing, 0),
        (TakerInput::Ack, TakerMove::Finish, TakerPhase::Completed, 0),
    ];
    for (input, action, phase, hop) in script {
        let decided = step(core, input, true);
        assert_eq!(decided.action, action, "after {:?}", input);
        assert_eq!(decided.next.phase, phase, "after {:?}", input);
        assert_eq!(decided.next.hop, hop, "after {:?}", input);
        assert_eq!(decided.ban, None);
        core = decided.next;
    }
    assert_eq!(core.selected, 2);
    assert_eq!(core.signed, 2);
    assert_eq!(core.funded, 2);
    assert_eq!(core.confirmed, 2);
    assert_eq!(core.revealed, 2);
    assert_eq!(core.settled, 2);
    assert_eq!(core.error, None);
    assert!(core.is_final());
    assert!(core.is_well_formed());
    let mut broken = core;
    broken.settled = 1;
    assert!(!broken.is_well_formed());
}

#[test]
fn a_swap_needs_a_hop_and_a_candidate() {
    let none = step(TakerCore::new(0), TakerInput::Start, true);
    assert_eq!(none.next.phase, TakerPhase::Aborted);
    assert_eq!(none.next.error, Some(TakerError::NegotiationRejected));
    assert_eq!(none.action, TakerMove::Abort);
    let listing = step(TakerCore::new(2), TakerInput::Start, false).next;
    assert_eq!(listing.phase, TakerPhase::Listing);
    let empty = step(listing, TakerInput::OffersListed, false);
    assert_eq!(empty.next.error, Some(TakerError::NegotiationRejected));
    assert_eq!(empty.action, TakerMove::Abort);
    for input in [TakerInput::DirectoryFailed, TakerInput::Timeout, TakerInput::Disconnected] {
        let failed = step(listing, input, true);
        assert_eq!(failed.next.error, Some(TakerError::MakerUnreachable));
        assert_eq!(failed.ban, None);
    }
    let idle = step(TakerCore::new(2), TakerInput::Connected, true);
    assert_eq!(idle.next, TakerCore::new(2));
    assert_eq!(idle.action, TakerMove::Wait);
}

#[test]
fn failed_connection_falls_back_to_the_next_candidate() {
    let core = run_until(2, TakerPhase::Connecting, 1);
    for input in [TakerInput::ConnectFailed, TakerInput::Timeout, TakerInput::Disconnected] {
        let again = step(core, input, true);
        assert_eq!(again.action, TakerMove::Connect);
        assert_eq!(again.next.phase, TakerPhase::Connecting);
        assert_eq!(again.next.hop, 1);
        assert_eq!(again.ban, None);
        let over = step(core, input, false);
        assert_eq!(over.action, TakerMove::Abort);
        assert_eq!(over.next.error, Some(TakerError::MakerUnreachable));
        assert_eq!(over.ban, None);
    }
}

#[test]
fn failed_negotiation_falls_back_to_the_next_candidate() {
    let core = run_until(2, TakerPhase::Negotiating, 0);
    let cases = [
        (TakerInput::OfferRejected, TakerError::NegotiationRejected, None),
        (TakerInput::PeerError, TakerError::NegotiationRejected, None),
        (TakerInput::Timeout, TakerError::MakerUnreachable, Some(BanReason::Stalled)),
        (TakerInput::Disconnected, TakerError::MakerUnreachable, None),
        (TakerInput::Unexpected, TakerError::NegotiationRejected, Some(BanReason::InvalidData)),
        (TakerInput::RefundSigsValid, TakerError::NegotiationRejected, Some(BanReason::InvalidData)),
    ];
    for (input, error, ban) in cases {
        let again = step(core, input, true);
        assert_eq!(again.action, TakerMove::Connect, "on {:?}", input);
        assert_eq!(again.next.hop, 0);
        assert_eq!(again.ban, ban, "on {:?}", input);
        let over = step(core, input, false);
        assert_eq!(over.next.error, Some(error), "on {:?}", input);
        assert_eq!(over.ban, ban);
    }
    let plan = step(core, TakerInput::PlanFailed, true);
    assert_eq!(plan.next.error, Some(TakerError::FundsInsufficient));
    let short = step(core, TakerInput::OfferAccepted, false);
    assert_eq!(short.next.error, Some(TakerError::NegotiationRejected));
    assert_eq!(short.next.selected, 1);
}

#[test]
fn each_error_has_an_input_that_gives_it() {
    let reserving = run_until(2, TakerPhase::Reserving, 0);
    let funds = step(reserving, TakerInput::FundingUnavailable, true);
    assert_eq!(funds.next.error, Some(TakerError::FundsInsufficient));

    let signing = run_until(2, TakerPhase::AwaitRefundSigs, 1);
    let mismatch = step(signing, TakerInput::RefundSigsInvalid, true);
    assert_eq!(mismatch.next.error, Some(TakerError::ContractMismatch));
    assert_eq!(mismatch.ban, Some(BanReason::InvalidData));
    let refused = step(signing, TakerInput::PeerError, true);
    assert_eq!(refused.next.error, Some(TakerError::NegotiationRejected));
    assert_eq!(refused.ban, None);
    let gone = step(signing, TakerInput::Disconnected, true);
    assert_eq!(gone.next.error, Some(TakerError::MakerUnreachable));
    assert_eq!(gone.ban, None);

    let confirming = run_until(2, TakerPhase::Confirming, 0);
    let late = step(confirming, TakerInput::ConfirmationTimeout, true);
    assert_eq!(late.next.error, Some(TakerError::ConfirmationTimeout));
    let rejected = step(run_until(2, TakerPhase::Broadcasting, 0), TakerInput::BroadcastRejected, true);
    assert_eq!(rejected.next.error, Some(TakerError::ConfirmationTimeout));
}

#[test]
fn disconnect_before_broadcast_aborts_and_moves_no_funds() {
    for hop in 0..3 {
        let core = run_until(3, TakerPhase::Broadcasting, hop);
        assert_eq!(core.signed, hop + 1);
        assert_eq!(core.funded, hop);
        let decided = step(core, TakerInput::Disconnected, true);
        assert_eq!(decided.action, TakerMove::Abort);
        assert_eq!(decided.next.phase, TakerPhase::Aborted);
        assert_eq!(decided.next.error, Some(TakerError::MakerUnreachable));
        assert_eq!(decided.next.funded, hop);
        assert_eq!(decided.next.revealed, 0);
        assert_eq!(decided.ban, None);
        // whatever comes later changes nothing
        for later in [TakerInput::FundingBroadcast, TakerInput::Disconnected, TakerInput::Start] {
            let again = step(decided.next, later, true);
            assert_eq!(again.next, decided.next);
            assert_eq!(again.action, TakerMove::Wait);
            assert_eq!(again.ban, None);
        }
    }
}

#[test]
fn disconnect_after_broadcast_bans_the_maker() {
    for phase in [TakerPhase::AwaitFundingAck, TakerPhase::Confirming] {
        let core = run_until(2, phase, 0);
        let decided = step(core, TakerInput::Disconnected, true);
        assert_eq!(decided.next.phase, TakerPhase::Aborted);
        assert_eq!(decided.ban, Some(BanReason::DroppedConnection));
        assert_eq!(decided.next.funded, 1);
        assert_eq!(decided.next.revealed, 0);
    }
}

#[test]
fn disconnect_after_redeem_signatures_still_settles() {
    let last = run_until(2, TakerPhase::Closing, 1);
    let decided = step(last, TakerInput::Disconnected, true);
    assert_eq!(decided.ban, Some(BanReason::DroppedConnection));
    assert_eq!(decided.action, TakerMove::SendPreimage);
    assert_eq!(decided.next.phase, TakerPhase::AwaitRedeemSigs);
    assert_eq!(decided.next.hop, 0);
    assert_eq!(decided.next.settled, 1);

    let first = run_until(2, TakerPhase::Closing, 0);
    let done = step(first, TakerInput::Disconnected, true);
    assert_eq!(done.ban, Some(BanReason::DroppedConnection));
    assert_eq!(done.action, TakerMove::Finish);
    assert_eq!(done.next.phase, TakerPhase::Completed);
    assert_eq!(done.next.settled, 2);
}

#[test]
fn failure_after_reveal_is_redeemed_with_the_preimage() {
    let core = run_until(2, TakerPhase::AwaitRedeemSigs, 1);
    let cases = [
        (TakerInput::Timeout, BanReason::Stalled),
        (TakerInput::Disconnected, BanReason::DroppedConnection),
        (TakerInput::RedeemSigsInvalid, BanReason::InvalidData),
        (TakerInput::PeerError, BanReason::InvalidData),
        (TakerInput::Unexpected, BanReason::InvalidData),
    ];
    for (input, reason) in cases {
        let decided = step(core, input, true);
        assert_eq!(decided.action, TakerMove::Redeem);
        assert_eq!(decided.next.phase, TakerPhase::Redeeming);
        assert_eq!(decided.ban, Some(reason));
        let redeemed = step(decided.next, TakerInput::Redeemed, true);
        assert_eq!(redeemed.action, TakerMove::SendPreimage);
        assert_eq!(redeemed.next.hop, 0);
        assert_eq!(redeemed.next.settled, 1);
        assert_eq!(redeemed.ban, None);
    }
}

#[test]
fn preimage_is_sent_only_after_every_hop_is_signed_and_funded() {
    // every state that the good run passes through, under every input
    let inputs = [
        TakerInput::Start,
        TakerInput::OffersListed,
        TakerInput::DirectoryFailed,
        TakerInput::Connected,
        TakerInput::ConnectFailed,
        TakerInput::Ack,
        TakerInput::OfferAccepted,
        TakerInput::OfferRejected,
        TakerInput::PlanFailed,
        TakerInput::FundingPrepared,
        TakerInput::FundingUnavailable,
        TakerInput::RefundSigsValid,
        TakerInput::RefundSigsInvalid,
        TakerInput::FundingBroadcast,
        TakerInput::BroadcastRejected,
        TakerInput::Confirmed,
        TakerInput::ConfirmationTimeout,
        TakerInput::RedeemSigsValid,
        TakerInput::RedeemSigsInvalid,
        TakerInput::Redeemed,
        TakerInput::PeerError,
        TakerInput::Unexpected,
        TakerInput::Timeout,
        TakerInput::Disconnected,
    ];
    let phases = [
        TakerPhase::Listing,
        TakerPhase::Connecting,
        TakerPhase::Greeting,
        TakerPhase::Negotiating,
        TakerPhase::Reserving,
        TakerPhase::AwaitRefundSigs,
        TakerPhase::Broadcasting,
        TakerPhase::AwaitFundingAck,
        TakerPhase::Confirming,
        TakerPhase::AwaitRedeemSigs,
        TakerPhase::Closing,
    ];
    for phase in phases {
        for hop in 0..3 {
            if phase == TakerPhase::Listing && hop > 0 {
                continue;
            }
            let core = run_until(3, phase, hop);
            for input in inputs {
                for more in [true, false] {
                    let decided = step(core, input, more);
                    if decided.action == TakerMove::SendPreimage {
                        assert_eq!(core.signed, 3);
                        assert_eq!(core.funded, 3);
                    }
                    if core.revealed > 0 {
                        assert_ne!(decided.next.phase, TakerPhase::Aborted);
                    }
                    if decided.next.phase == TakerPhase::Aborted {
                        assert_eq!(decided.next.revealed, 0);
                        assert!(decided.next.funded <= decided.next.signed);
                    }
                }
            }
        }
    }
}

#[test]
fn reports_of_wallet_and_transport_are_no_messages() {
    assert!(from_peer(TakerInput::Ack));
    assert!(from_peer(TakerInput::Unexpected));
    assert!(from_peer(TakerInput::RedeemSigsInvalid));
    assert!(!from_peer(TakerInput::Timeout));
    assert!(!from_peer(TakerInput::Confirmed));
    assert!(!from_peer(TakerInput::Start));
    // a report that does not belong where the attempt stands is passed over
    let core = run_until(2, TakerPhase::AwaitRefundSigs, 0);
    let stray = step(core, TakerInput::Confirmed, true);
    assert_eq!(stray.next, core);
    assert_eq!(stray.action, TakerMove::Wait);
}
