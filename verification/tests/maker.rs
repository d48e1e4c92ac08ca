use coinswap::amounts::FeeSchedule;
use coinswap::contract::{hash_value_of, public_key_of, ContractKind, FundingCoin, HopTerms};
use coinswap::maker::{MakerConfig, MakerConnection, MakerEvent, MakerAction, preimage_valid};
use coinswap::maker_core::{step, ErrorReason, MakerBehavior, MakerInput, MakerPhase, MakerReply};
use coinswap::messages::{MakerMessage, TakerMessage, PROTOCOL_VERSION};
use coinswap::offer::{FidelityProof, OfferTerms};
use coinswap::tx::OutPoint;

fn secret_key(byte: u8) -> Vec<u8> {
    let mut key = vec![0u8; 32];
    key[31] = byte;
    key
}

fn config() -> MakerConfig {
    MakerConfig {
        offer: OfferTerms {
            fees: FeeSchedule { absolute_fee: 1000, relative_fee_ppb: 0 },
            min_size: 10_000,
            max_size: 1_000_000,
            fidelity: FidelityProof {
                bond_value: 5_000_000,
                bond_locktime: 1000,
                public_key: public_key_of(&secret_key(2)).unwrap(),
            },
        },
        secret_key: secret_key(2),
        min_locktime: 20,
        tolerance: 10,
    }
}

fn preimage() -> Vec<u8> {
    vec![7u8; 32]
}

fn terms() -> HopTerms {
    HopTerms {
        amount: 500_000,
        funder_key: public_key_of(&secret_key(1)).unwrap(),
        receiver_key: public_key_of(&secret_key(2)).unwrap(),
        hash_value: hash_value_of(&preimage()),
        locktime: 48,
        fee_rate: 1,
    }
}

fn coins() -> Vec<FundingCoin> {
    vec![
        FundingCoin { outpoint: OutPoint { txid: vec![1u8; 32], vout: 0 }, value: 250_000 },
        FundingCoin { outpoint: OutPoint { txid: vec![2u8; 32], vout: 1 }, value: 250_000 },
    ]
}

fn setup_request() -> MakerEvent {
    MakerEvent::Message(TakerMessage::ContractSetupRequest { terms: terms(), coins: coins() })
}

fn send(connection: &mut MakerConnection, message: TakerMessage) -> MakerAction {
    connection.handle(MakerEvent::Message(message))
}

/// Brings a connection to the point where the contract setup request is due.
fn negotiating(behavior: MakerBehavior) -> MakerConnection {
    let mut connection = MakerConnection::new(config(), behavior);
    let hello = send(&mut connection, TakerMessage::Hello { version: PROTOCOL_VERSION });
    assert!(matches!(hello.reply, Some(MakerMessage::Ack)));
    assert!(!hello.close);
    connection
}

/// Brings a connection to the point where the preimage is due.
fn awaiting_preimage(behavior: MakerBehavior) -> MakerConnection {
    let mut connection = negotiating(behavior);
    connection.handle(setup_request());
    let txids = vec![vec![1u8; 32], vec![2u8; 32]];
    let proof = send(&mut connection, TakerMessage::FundingProof { txids });
    assert!(matches!(proof.reply, Some(MakerMessage::Ack)));
    assert_eq!(connection.phase, MakerPhase::ContractSetup);
    let confirmed = connection.handle(MakerEvent::FundingConfirmed);
    assert!(confirmed.reply.is_none());
    assert_eq!(connection.phase, MakerPhase::AwaitPreimage);
    connection
}

#[test]
fn normal_maker_goes_through_every_phase() {
    let mut connection = MakerConnection::new(config(), MakerBehavior::Normal);
    assert_eq!(connection.phase, MakerPhase::AwaitHello);
    send(&mut connection, TakerMessage::Hello { version: PROTOCOL_VERSION });
    assert_eq!(connection.phase, MakerPhase::Negotiating);

    let offer = send(&mut connection, TakerMessage::OfferRequest);
    match offer.reply {
        Some(MakerMessage::OfferResponse { terms }) => {
            assert_eq!(terms.fees, config().offer.fees);
            assert_eq!(terms.min_size, 10_000);
            assert_eq!(terms.max_size, 1_000_000);
            assert_eq!(terms.fidelity.public_key, config().offer.fidelity.public_key);
        }
        other => panic!("no offer: {:?}", other),
    }
    assert_eq!(connection.phase, MakerPhase::Negotiating);

    let setup = connection.handle(setup_request());
    assert_eq!(connection.phase, MakerPhase::AwaitFundingProof);
    match setup.reply {
        Some(MakerMessage::ContractSetupResponse { refund_signatures }) => {
            let key = config().offer.fidelity.public_key;
            assert_eq!(
                terms().verify_contracts(ContractKind::Refund, &coins(), &key, &refund_signatures),
                Ok(())
            );
        }
        other => panic!("no refund signatures: {:?}", other),
    }

    send(&mut connection, TakerMessage::FundingProof { txids: vec![vec![1u8; 32], vec![2u8; 32]] });
    connection.handle(MakerEvent::FundingConfirmed);
    let redeem = send(&mut connection, TakerMessage::PreimageReveal { secret: preimage() });
    assert_eq!(connection.phase, MakerPhase::Settled);
    assert!(!redeem.close);
    match redeem.reply {
        Some(MakerMessage::RedeemSignatures { signatures }) => {
            let key = config().offer.fidelity.public_key;
            assert_eq!(
                terms().verify_contracts(ContractKind::Hashlock, &coins(), &key, &signatures),
                Ok(())
            );
        }
        other => panic!("no redeem signatures: {:?}", other),
    }
    let closing = send(&mut connection, TakerMessage::Ack);
    assert!(matches!(closing.reply, Some(MakerMessage::Ack)));
    assert!(closing.close);
    assert_eq!(connection.phase, MakerPhase::Settled);
}

#[test]
fn unsupported_version_is_refused() {
    let mut connection = MakerConnection::new(config(), MakerBehavior::Normal);
    let action = send(&mut connection, TakerMessage::Hello { version: PROTOCOL_VERSION + 1 });
    assert!(matches!(
        action.reply,
        Some(MakerMessage::Error { reason: ErrorReason::UnsupportedVersion })
    ));
    assert!(action.close);
    assert_eq!(connection.phase, MakerPhase::Aborted);
}

#[test]
fn out_of_order_message_aborts_the_connection() {
    let mut connection = MakerConnection::new(config(), MakerBehavior::Normal);
    let action = send(&mut connection, TakerMessage::OfferRequest);
    assert!(matches!(
        action.reply,
        Some(MakerMessage::Error { reason: ErrorReason::UnexpectedMessage })
    ));
    assert!(action.close);
    assert_eq!(connection.phase, MakerPhase::Aborted);
    // nothing more is said on a connection that was given up
    let later = send(&mut connection, TakerMessage::Hello { version: PROTOCOL_VERSION });
    assert!(later.reply.is_none());
    assert!(later.close);
    assert_eq!(connection.phase, MakerPhase::Aborted);
}

#[test]
fn timeout_aborts_without_a_word() {
    let mut connection = negotiating(MakerBehavior::Normal);
    let action = connection.handle(MakerEvent::Timeout);
    assert!(action.reply.is_none());
    assert!(action.close);
    assert_eq!(connection.phase, MakerPhase::Aborted);
}

#[test]
fn terms_outside_the_makers_bounds_are_refused() {
    let cases: Vec<(HopTerms, Vec<FundingCoin>)> = vec![
        (HopTerms { amount: 9_999, ..terms() }, coins()),
        (HopTerms { amount: 1_000_001, ..terms() }, coins()),
        (HopTerms { locktime: 19, ..terms() }, coins()),
        (HopTerms { receiver_key: public_key_of(&secret_key(3)).unwrap(), ..terms() }, coins()),
        (HopTerms { hash_value: vec![], ..terms() }, coins()),
        (terms(), vec![]),
        (terms(), vec![coins().remove(0)]),
        (HopTerms { fee_rate: 1_000_000, ..terms() }, coins()),
    ];
    for (terms, coins) in cases {
        let mut connection = negotiating(MakerBehavior::Normal);
        assert!(!connection.setup_acceptable(&terms, &coins));
        let action = send(&mut connection, TakerMessage::ContractSetupRequest { terms, coins });
        assert!(matches!(
            action.reply,
            Some(MakerMessage::Error { reason: ErrorReason::InvalidTerms })
        ));
        assert!(action.close);
        assert_eq!(connection.phase, MakerPhase::Aborted);
        assert!(connection.terms.is_none());
    }
}

#[test]
fn funding_within_tolerance_is_accepted() {
    let connection = negotiating(MakerBehavior::Normal);
    let mut near = coins();
    near[0].value = 250_010;
    assert!(connection.setup_acceptable(&terms(), &near));
    near[0].value = 250_011;
    assert!(!connection.setup_acceptable(&terms(), &near));
}

#[test]
fn funding_proof_must_name_the_agreed_funding() {
    let mut connection = negotiating(MakerBehavior::Normal);
    connection.handle(setup_request());
    let action = send(&mut connection, TakerMessage::FundingProof { txids: vec![vec![1u8; 32]] });
    assert!(matches!(
        action.reply,
        Some(MakerMessage::Error { reason: ErrorReason::InvalidFunding })
    ));
    assert_eq!(connection.phase, MakerPhase::Aborted);
}

#[test]
fn wrong_preimage_is_refused() {
    let mut connection = awaiting_preimage(MakerBehavior::Normal);
    let action = send(&mut connection, TakerMessage::PreimageReveal { secret: vec![8u8; 32] });
    assert!(matches!(
        action.reply,
        Some(MakerMessage::Error { reason: ErrorReason::InvalidPreimage })
    ));
    assert_eq!(connection.phase, MakerPhase::Aborted);
    assert!(preimage_valid(&hash_value_of(&preimage()), &preimage()));
    assert!(!preimage_valid(&hash_value_of(&preimage()), &vec![8u8; 32]));
    assert!(!preimage_valid(&hash_value_of(&vec![7u8; 31]), &vec![7u8; 31]));
}

#[test]
fn preimage_before_confirmation_is_out_of_order() {
    let mut connection = negotiating(MakerBehavior::Normal);
    connection.handle(setup_request());
    send(&mut connection, TakerMessage::FundingProof { txids: vec![vec![1u8; 32], vec![2u8; 32]] });
    let action = send(&mut connection, TakerMessage::PreimageReveal { secret: preimage() });
    assert!(matches!(
        action.reply,
        Some(MakerMessage::Error { reason: ErrorReason::UnexpectedMessage })
    ));
    assert_eq!(connection.phase, MakerPhase::Aborted);
}

#[test]
fn close_at_req_contract_sigs_for_sender_closes_in_silence() {
    let mut connection = negotiating(MakerBehavior::CloseAtReqContractSigsForSender);
    let action = connection.handle(setup_request());
    assert!(action.reply.is_none());
    assert!(action.close);
    assert_eq!(connection.phase, MakerPhase::Aborted);
}

#[test]
fn close_at_contract_sigs_for_sender_sends_then_closes() {
    let mut connection = negotiating(MakerBehavior::CloseAtContractSigsForSender);
    let action = connection.handle(setup_request());
    assert!(matches!(action.reply, Some(MakerMessage::ContractSetupResponse { .. })));
    assert!(action.close);
    assert_eq!(connection.phase, MakerPhase::Aborted);
}

#[test]
fn corrupt_contract_sigs_do_not_verify() {
    let mut connection = negotiating(MakerBehavior::CorruptContractSigs);
    let action = connection.handle(setup_request());
    assert!(!action.close);
    match action.reply {
        Some(MakerMessage::ContractSetupResponse { refund_signatures }) => {
            assert_eq!(refund_signatures, vec![vec![0u8; 64], vec![0u8; 64]]);
            let key = config().offer.fidelity.public_key;
            assert!(terms()
                .verify_contracts(ContractKind::Refund, &coins(), &key, &refund_signatures)
                .is_err());
        }
        other => panic!("no signatures: {:?}", other),
    }
}

#[test]
fn close_at_proof_of_funding_closes_in_silence() {
    let mut connection = negotiating(MakerBehavior::CloseAtProofOfFunding);
    connection.handle(setup_request());
    let txids = vec![vec![1u8; 32], vec![2u8; 32]];
    let action = send(&mut connection, TakerMessage::FundingProof { txids });
    assert!(action.reply.is_none());
    assert!(action.close);
    assert_eq!(connection.phase, MakerPhase::Aborted);
}

#[test]
fn close_at_hash_preimage_closes_in_silence() {
    let mut connection = awaiting_preimage(MakerBehavior::CloseAtHashPreimage);
    let action = send(&mut connection, TakerMessage::PreimageReveal { secret: preimage() });
    assert!(action.reply.is_none());
    assert!(action.close);
    assert_eq!(connection.phase, MakerPhase::Aborted);
}

#[test]
fn close_at_contract_sigs_for_recvr_sends_then_closes() {
    let mut connection = awaiting_preimage(MakerBehavior::CloseAtContractSigsForRecvr);
    let action = send(&mut connection, TakerMessage::PreimageReveal { secret: preimage() });
    assert!(matches!(action.reply, Some(MakerMessage::RedeemSignatures { .. })));
    assert!(action.close);
    assert_eq!(connection.phase, MakerPhase::Settled);
}

#[test]
fn maker_decisions_by_phase_and_input() {
    let normal = MakerBehavior::Normal;
    let hello = step(MakerPhase::AwaitHello, normal, MakerInput::HelloSupported);
    assert_eq!(hello.next, MakerPhase::Negotiating);
    assert_eq!(hello.reply, MakerReply::Ack);
    let wallet = step(MakerPhase::Negotiating, normal, MakerInput::FundingConfirmed);
    assert_eq!(wallet.next, MakerPhase::Negotiating);
    assert_eq!(wallet.reply, MakerReply::Nothing);
    assert!(!wallet.close);
    let peer_error = step(MakerPhase::AwaitPreimage, normal, MakerInput::PeerError);
    assert_eq!(peer_error.next, MakerPhase::Aborted);
    assert_eq!(peer_error.reply, MakerReply::Nothing);
    let settled = step(MakerPhase::Settled, normal, MakerInput::Disconnected);
    assert_eq!(settled.next, MakerPhase::Settled);
    assert!(settled.close);
}

#[test]
fn unreadable_bytes_abort_the_connection() {
    let mut connection = negotiating(MakerBehavior::Normal);
    let action = connection.handle(MakerEvent::Unreadable);
    assert!(matches!(
        action.reply,
        Some(MakerMessage::Error { reason: ErrorReason::UnexpectedMessage })
    ));
    assert!(action.close);
    assert_eq!(connection.phase, MakerPhase::Aborted);
}
