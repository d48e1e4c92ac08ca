use coinswap::amounts::FeeSchedule;
use coinswap::contract::{hash_value_of, public_key_of, FundingCoin};
use coinswap::error::TakerError;
use coinswap::ledger::{BanLedger, BanReason};
use coinswap::locktime::check_locktimes;
use coinswap::maker::{MakerConfig, MakerConnection, MakerEvent};
use coinswap::maker_core::{MakerBehavior, MakerPhase};
use coinswap::messages::{MakerMessage, TakerMessage};
use coinswap::offer::{FidelityProof, Offer, OfferTerms, TieBreak};
use coinswap::taker::{
    Environment, SwapOutcome, SwapParams, TakerAction, TakerConfig, TakerEvent, TakerSwap,
};
use coinswap::taker_core::TakerPhase;
use coinswap::tx::OutPoint;

fn secret_key(byte: u8) -> Vec<u8> {
    let mut key = vec![0u8; 32];
    key[31] = byte;
    key
}

fn offer_terms(key_byte: u8, absolute_fee: u64) -> OfferTerms {
    OfferTerms {
        fees: FeeSchedule { absolute_fee, relative_fee_ppb: 1_000_000 },
        min_size: 10_000,
        max_size: 10_000_000,
        fidelity: FidelityProof {
            bond_value: 5_000_000,
            bond_locktime: 100_000,
            public_key: public_key_of(&secret_key(key_byte)).unwrap(),
        },
    }
}

/// A Maker as the simulation knows it.
struct SimMaker {
    port: u16,
    key_byte: u8,
    absolute_fee: u64,
    behavior: MakerBehavior,
    /// Whether connections to it are refused.
    offline: bool,
}

impl SimMaker {
    fn new(port: u16, key_byte: u8, absolute_fee: u64, behavior: MakerBehavior) -> SimMaker {
        SimMaker { port, key_byte, absolute_fee, behavior, offline: false }
    }

    fn address(&self) -> String {
        format!("127.0.0.1:{}", self.port)
    }

    fn config(&self) -> MakerConfig {
        MakerConfig {
            offer: offer_terms(self.key_byte, self.absolute_fee),
            secret_key: secret_key(self.key_byte),
            min_locktime: 20,
            tolerance: 0,
        }
    }

    fn offer(&self) -> Offer {
        Offer { address: self.address(), terms: offer_terms(self.key_byte, self.absolute_fee) }
    }
}

/// What the simulated wallet and network do wrong, if anything.
#[derive(Clone, Copy, PartialEq)]
enum Fault {
    Nothing,
    FundsInsufficient,
    BroadcastRejected,
    ConfirmationTimeout,
}

/// How a simulated attempt ended.
struct Outcome {
    swap: TakerSwap,
    result: Result<(), TakerError>,
    /// The hops whose funding was broadcast.
    broadcast: Vec<usize>,
    /// The hops that were redeemed with the preimage alone.
    redeemed_alone: Vec<usize>,
    /// The hops that the wallet was told to leave to their refund.
    left_to_refund: usize,
    /// Whether the preimage left the Taker.
    preimage_sent: bool,
    /// The phase in which each hop's Maker ended.
    maker_phases: Vec<MakerPhase>,
    /// Every action that the Taker took.
    actions: Vec<String>,
}

fn taker_config() -> TakerConfig {
    TakerConfig {
        funder_key: public_key_of(&secret_key(1)).unwrap(),
        secret: vec![7u8; 32],
        final_locktime: 48,
        locktime_step: 48,
        fee_rate: 1,
        tolerance: 0,
        tie_break: TieBreak::First,
    }
}

/// The simulated Makers, wallet and network.
struct Sim<'a> {
    makers: &'a [SimMaker],
    /// What the Directory lists; `None` where it cannot be reached.
    listed: Option<Vec<Offer>>,
    params: SwapParams,
    fault: Fault,
    connections: Vec<Option<MakerConnection>>,
    open: Vec<bool>,
    broadcast: Vec<usize>,
    redeemed_alone: Vec<usize>,
    left_to_refund: usize,
    preimage_sent: bool,
    actions: Vec<String>,
}

impl<'a> Environment for Sim<'a> {
    fn perform(&mut self, action: TakerAction) -> TakerEvent {
        self.actions.push(format!("{:?}", action));
        match action {
            TakerAction::Wait => panic!("the Taker waits and nothing is under way"),
            TakerAction::ListOffers => match &self.listed {
                Some(offers) => TakerEvent::OffersListed { offers: offers.clone() },
                None => TakerEvent::DirectoryUnreachable,
            },
            TakerAction::Connect { hop, address } => {
                while self.connections.len() <= hop {
                    self.connections.push(None);
                    self.open.push(false);
                }
                let maker = self.makers.iter().find(|m| m.address() == address).unwrap();
                if maker.offline {
                    TakerEvent::ConnectFailed
                } else {
                    self.connections[hop] =
                        Some(MakerConnection::new(maker.config(), maker.behavior));
                    self.open[hop] = true;
                    TakerEvent::Connected
                }
            }
            TakerAction::Send { hop, message } => {
                if let TakerMessage::PreimageReveal { .. } = &message {
                    self.preimage_sent = true;
                }
                if !self.open[hop] {
                    TakerEvent::Disconnected
                } else {
                    let connection = self.connections[hop].as_mut().unwrap();
                    let answer = connection.handle(MakerEvent::Message(message));
                    if answer.close {
                        self.open[hop] = false;
                    }
                    match answer.reply {
                        Some(reply) => TakerEvent::Message(reply),
                        None => TakerEvent::Disconnected,
                    }
                }
            }
            TakerAction::PrepareFunding { hop, outputs } => {
                if self.fault == Fault::FundsInsufficient {
                    TakerEvent::FundsInsufficient
                } else {
                    let mut coins = Vec::new();
                    for (index, output) in outputs.iter().enumerate() {
                        coins.push(FundingCoin {
                            outpoint: OutPoint { txid: vec![hop as u8 + 1; 32], vout: index as u32 },
                            value: output.value,
                        });
                    }
                    TakerEvent::FundingPrepared { coins }
                }
            }
            TakerAction::BroadcastFunding { hop } => {
                if !self.open[hop] {
                    TakerEvent::Disconnected
                } else if self.fault == Fault::BroadcastRejected {
                    TakerEvent::BroadcastRejected
                } else {
                    self.broadcast.push(hop);
                    TakerEvent::FundingBroadcast
                }
            }
            TakerAction::AwaitConfirmations { hop, required_confirms } => {
                assert_eq!(required_confirms, self.params.required_confirms);
                if self.fault == Fault::ConfirmationTimeout {
                    TakerEvent::ConfirmationTimeout
                } else {
                    self.connections[hop].as_mut().unwrap().handle(MakerEvent::FundingConfirmed);
                    TakerEvent::Confirmed
                }
            }
            TakerAction::Redeem { hop } => {
                self.redeemed_alone.push(hop);
                TakerEvent::Redeemed
            }
            TakerAction::Finish => TakerEvent::Redeemed,
            TakerAction::Abort { error: _, funded } => {
                self.left_to_refund = funded;
                TakerEvent::Redeemed
            }
        }
    }
}

/// Runs one swap attempt against simulated Makers, wallet and network.
fn do_coinswap(makers: &[SimMaker], params: SwapParams, ledger: BanLedger, fault: Fault) -> Outcome {
    let listed: Vec<Offer> = makers.iter().map(|m| m.offer()).collect();
    run(makers, Some(listed), params, ledger, fault)
}

/// Runs one swap attempt with the given listing of the Directory.
fn run(
    makers: &[SimMaker],
    listed: Option<Vec<Offer>>,
    params: SwapParams,
    ledger: BanLedger,
    fault: Fault,
) -> Outcome {
    let mut swap = TakerSwap::new(params, taker_config(), ledger).unwrap();
    let mut sim = Sim {
        makers,
        listed,
        params,
        fault,
        connections: Vec::new(),
        open: Vec::new(),
        broadcast: Vec::new(),
        redeemed_alone: Vec::new(),
        left_to_refund: 0,
        preimage_sent: false,
        actions: Vec::new(),
    };
    let result = match swap.do_coinswap(&mut sim) {
        SwapOutcome::Completed => Ok(()),
        SwapOutcome::Aborted(error) => Err(error),
        SwapOutcome::Interrupted => panic!("the simulation answered out of turn"),
    };
    Outcome {
        swap,
        result,
        broadcast: sim.broadcast,
        redeemed_alone: sim.redeemed_alone,
        left_to_refund: sim.left_to_refund,
        preimage_sent: sim.preimage_sent,
        maker_phases: sim.connections.iter().flatten().map(|c| c.phase).collect(),
        actions: sim.actions,
    }
}

/// A swap that has just been given the listing.
fn listed_swap(params: SwapParams, listed: Vec<Offer>) -> (TakerSwap, TakerAction) {
    let mut swap = TakerSwap::new(params, taker_config(), BanLedger::new()).unwrap();
    assert!(matches!(swap.handle(TakerEvent::Start), TakerAction::ListOffers));
    let action = swap.handle(TakerEvent::OffersListed { offers: listed });
    (swap, action)
}

fn params() -> SwapParams {
    SwapParams { send_amount: 500000, maker_count: 2, tx_count: 3, required_confirms: 1 }
}

fn bad_addresses(swap: &TakerSwap) -> Vec<String> {
    swap.get_bad_makers().iter().map(|b| b.address.clone()).collect()
}

#[test]
fn abort3_case2_close_at_contract_sigs_for_recvr() {
    // 6102 is naughty. And theres not enough makers.
    let makers = [
        SimMaker::new(6102, 2, 1000, MakerBehavior::CloseAtContractSigsForRecvr),
        SimMaker::new(16102, 3, 1000, MakerBehavior::Normal),
    ];
    let outcome = do_coinswap(&makers, params(), BanLedger::new(), Fault::Nothing);

    // The swap completes: the funding that was confirmed is settled.
    assert_eq!(outcome.result, Ok(()));
    assert_eq!(outcome.swap.state().phase, TakerPhase::Completed);
    assert_eq!(outcome.swap.state().settled, 2);
    assert_eq!(outcome.broadcast, vec![0, 1]);
    assert_eq!(outcome.left_to_refund, 0);

    // Maker gets banned for being naughty.
    assert_eq!(
        format!("127.0.0.1:{}", 6102),
        outcome.swap.get_bad_makers()[0].address.to_string()
    );
    assert_eq!(outcome.swap.get_bad_makers().len(), 1);
    assert_eq!(outcome.swap.get_bad_makers()[0].reason, BanReason::DroppedConnection);
}

#[test]
fn swap_with_normal_makers_completes_and_bans_nobody() {
    let makers = [
        SimMaker::new(6102, 2, 1000, MakerBehavior::Normal),
        SimMaker::new(16102, 3, 2000, MakerBehavior::Normal),
    ];
    let outcome = do_coinswap(&makers, params(), BanLedger::new(), Fault::Nothing);
    assert_eq!(outcome.result, Ok(()));
    assert!(bad_addresses(&outcome.swap).is_empty());
    assert!(outcome.redeemed_alone.is_empty());
    assert_eq!(outcome.maker_phases, vec![MakerPhase::Settled, MakerPhase::Settled]);
    assert!(outcome.preimage_sent);
    // the Directory is asked first, and the cheaper Maker takes the first hop
    assert_eq!(outcome.actions[0], "ListOffers");
    assert!(outcome.actions[1].contains("127.0.0.1:6102"));
}

#[test]
fn completed_swap_funds_the_send_amount_plus_the_fees() {
    let makers = [
        SimMaker::new(6102, 2, 1000, MakerBehavior::Normal),
        SimMaker::new(16102, 3, 2000, MakerBehavior::Normal),
    ];
    let outcome = do_coinswap(&makers, params(), BanLedger::new(), Fault::Nothing);
    let swap = &outcome.swap;
    // 500000 * 1_000_000 / 1_000_000_000 = 500 on top of the flat fee
    assert_eq!(*swap.fees(), vec![1500, 2500]);
    assert_eq!(swap.plan()[0].amount, 504_000);
    assert_eq!(swap.plan()[1].amount, 502_500);
    let funded: Vec<u64> =
        swap.funding().iter().map(|coins| coins.iter().map(|c| c.value).sum()).collect();
    assert_eq!(funded, vec![504_000, 502_500]);
    assert_eq!(funded[0], 500_000 + 1500 + 2500);
    for coins in swap.funding() {
        assert_eq!(coins.len(), 3);
    }
}

#[test]
fn planned_chain_shares_one_hash_and_decreasing_locktimes() {
    let makers = [
        SimMaker::new(1, 2, 10, MakerBehavior::Normal),
        SimMaker::new(2, 3, 20, MakerBehavior::Normal),
        SimMaker::new(3, 4, 30, MakerBehavior::Normal),
    ];
    let mut three = params();
    three.maker_count = 3;
    let outcome = do_coinswap(&makers, three, BanLedger::new(), Fault::Nothing);
    assert_eq!(outcome.result, Ok(()));
    let locktimes: Vec<u32> = outcome.swap.plan().iter().map(|t| t.locktime).collect();
    assert_eq!(locktimes, vec![144, 96, 48]);
    assert_eq!(check_locktimes(&locktimes), Ok(()));
    for (hop, terms) in outcome.swap.plan().iter().enumerate() {
        assert_eq!(terms.hash_value, hash_value_of(&vec![7u8; 32]));
        assert_eq!(terms.funder_key, public_key_of(&secret_key(1)).unwrap());
        assert_eq!(terms.receiver_key, public_key_of(&secret_key(hop as u8 + 2)).unwrap());
    }
}

#[test]
fn preimage_goes_to_the_last_hop_first() {
    let makers = [
        SimMaker::new(1, 2, 10, MakerBehavior::Normal),
        SimMaker::new(2, 3, 20, MakerBehavior::Normal),
        SimMaker::new(3, 4, 30, MakerBehavior::Normal),
    ];
    let mut three = params();
    three.maker_count = 3;
    let outcome = do_coinswap(&makers, three, BanLedger::new(), Fault::Nothing);
    let reveals: Vec<&String> =
        outcome.actions.iter().filter(|a| a.contains("PreimageReveal")).collect();
    assert_eq!(reveals.len(), 3);
    assert!(reveals[0].contains("hop: 2"));
    assert!(reveals[1].contains("hop: 1"));
    assert!(reveals[2].contains("hop: 0"));
    // nothing is revealed before the last funding is broadcast
    let first_reveal = outcome.actions.iter().position(|a| a.contains("PreimageReveal")).unwrap();
    let last_broadcast =
        outcome.actions.iter().rposition(|a| a.contains("BroadcastFunding")).unwrap();
    assert!(last_broadcast < first_reveal);
}

#[test]
fn maker_that_closes_after_refund_signatures_aborts_without_funds_moving() {
    let makers = [
        SimMaker::new(6102, 2, 1000, MakerBehavior::CloseAtContractSigsForSender),
        SimMaker::new(16102, 3, 2000, MakerBehavior::Normal),
    ];
    let outcome = do_coinswap(&makers, params(), BanLedger::new(), Fault::Nothing);
    assert_eq!(outcome.result, Err(TakerError::MakerUnreachable));
    assert!(outcome.broadcast.is_empty());
    assert_eq!(outcome.left_to_refund, 0);
    assert!(!outcome.preimage_sent);
    assert!(bad_addresses(&outcome.swap).is_empty());
    assert_eq!(outcome.swap.state().signed, 1);
    assert_eq!(outcome.swap.state().funded, 0);
}

#[test]
fn second_hop_that_closes_after_refund_signatures_leaves_the_first_to_its_refund() {
    let makers = [
        SimMaker::new(6102, 2, 1000, MakerBehavior::Normal),
        SimMaker::new(16102, 3, 2000, MakerBehavior::CloseAtContractSigsForSender),
    ];
    let outcome = do_coinswap(&makers, params(), BanLedger::new(), Fault::Nothing);
    assert_eq!(outcome.result, Err(TakerError::MakerUnreachable));
    assert_eq!(outcome.broadcast, vec![0]);
    assert_eq!(outcome.left_to_refund, 1);
    assert!(!outcome.preimage_sent);
}

#[test]
fn corrupt_refund_signatures_ban_the_maker_before_anything_is_funded() {
    let makers = [
        SimMaker::new(6102, 2, 1000, MakerBehavior::CorruptContractSigs),
        SimMaker::new(16102, 3, 2000, MakerBehavior::Normal),
    ];
    let outcome = do_coinswap(&makers, params(), BanLedger::new(), Fault::Nothing);
    assert_eq!(outcome.result, Err(TakerError::ContractMismatch));
    assert!(outcome.broadcast.is_empty());
    assert!(!outcome.preimage_sent);
    assert_eq!(bad_addresses(&outcome.swap), vec!["127.0.0.1:6102".to_string()]);
    assert_eq!(outcome.swap.get_bad_makers()[0].reason, BanReason::InvalidData);
}

#[test]
fn maker_that_closes_at_the_setup_request_aborts_the_attempt() {
    let makers = [
        SimMaker::new(6102, 2, 1000, MakerBehavior::Normal),
        SimMaker::new(16102, 3, 2000, MakerBehavior::CloseAtReqContractSigsForSender),
    ];
    let outcome = do_coinswap(&makers, params(), BanLedger::new(), Fault::Nothing);
    assert_eq!(outcome.result, Err(TakerError::MakerUnreachable));
    assert_eq!(outcome.broadcast, vec![0]);
    assert!(!outcome.preimage_sent);
    assert!(bad_addresses(&outcome.swap).is_empty());
}

#[test]
fn maker_that_closes_at_the_funding_proof_is_banned() {
    let makers = [
        SimMaker::new(6102, 2, 1000, MakerBehavior::CloseAtProofOfFunding),
        SimMaker::new(16102, 3, 2000, MakerBehavior::Normal),
    ];
    let outcome = do_coinswap(&makers, params(), BanLedger::new(), Fault::Nothing);
    assert_eq!(outcome.result, Err(TakerError::MakerUnreachable));
    assert_eq!(outcome.broadcast, vec![0]);
    assert_eq!(outcome.left_to_refund, 1);
    assert!(!outcome.preimage_sent);
    assert_eq!(bad_addresses(&outcome.swap), vec!["127.0.0.1:6102".to_string()]);
    assert_eq!(outcome.swap.get_bad_makers()[0].reason, BanReason::DroppedConnection);
}

#[test]
fn maker_that_closes_at_the_preimage_is_redeemed_without_it() {
    let makers = [
        SimMaker::new(6102, 2, 1000, MakerBehavior::Normal),
        SimMaker::new(16102, 3, 2000, MakerBehavior::CloseAtHashPreimage),
    ];
    let outcome = do_coinswap(&makers, params(), BanLedger::new(), Fault::Nothing);
    assert_eq!(outcome.result, Ok(()));
    assert_eq!(outcome.redeemed_alone, vec![1]);
    assert_eq!(bad_addresses(&outcome.swap), vec!["127.0.0.1:16102".to_string()]);
    assert_eq!(outcome.swap.state().settled, 2);
}

#[test]
fn both_makers_misbehaving_are_each_recorded_once() {
    let makers = [
        SimMaker::new(6102, 2, 1000, MakerBehavior::CloseAtContractSigsForRecvr),
        SimMaker::new(16102, 3, 2000, MakerBehavior::CloseAtHashPreimage),
    ];
    let outcome = do_coinswap(&makers, params(), BanLedger::new(), Fault::Nothing);
    assert_eq!(outcome.result, Ok(()));
    // the last hop settles first, so its Maker is recorded first
    assert_eq!(
        bad_addresses(&outcome.swap),
        vec!["127.0.0.1:16102".to_string(), "127.0.0.1:6102".to_string()]
    );
}

#[test]
fn banned_maker_is_not_chosen_again() {
    let makers = [
        SimMaker::new(6102, 2, 1000, MakerBehavior::CloseAtContractSigsForRecvr),
        SimMaker::new(16102, 3, 2000, MakerBehavior::Normal),
        SimMaker::new(26102, 4, 3000, MakerBehavior::Normal),
    ];
    let first = do_coinswap(&makers, params(), BanLedger::new(), Fault::Nothing);
    assert_eq!(bad_addresses(&first.swap), vec!["127.0.0.1:6102".to_string()]);
    let second = do_coinswap(&makers, params(), first.swap.into_ledger(), Fault::Nothing);
    assert_eq!(second.result, Ok(()));
    assert!(second.actions.iter().all(|a| !a.contains("127.0.0.1:6102")));
    assert_eq!(bad_addresses(&second.swap), vec!["127.0.0.1:6102".to_string()]);
    assert_eq!(second.swap.book().len(), 2);
}

#[test]
fn unreachable_maker_is_replaced_by_the_next_offer() {
    let mut makers = [
        SimMaker::new(6102, 2, 1000, MakerBehavior::Normal),
        SimMaker::new(16102, 3, 2000, MakerBehavior::Normal),
        SimMaker::new(26102, 4, 3000, MakerBehavior::Normal),
    ];
    makers[0].offline = true;
    let outcome = do_coinswap(&makers, params(), BanLedger::new(), Fault::Nothing);
    assert_eq!(outcome.result, Ok(()));
    assert_eq!(*outcome.swap.chosen(), vec![1, 2]);
    assert!(bad_addresses(&outcome.swap).is_empty());
}

#[test]
fn too_few_reachable_makers_fail_the_attempt() {
    let mut makers = [
        SimMaker::new(6102, 2, 1000, MakerBehavior::Normal),
        SimMaker::new(16102, 3, 2000, MakerBehavior::Normal),
    ];
    makers[1].offline = true;
    let outcome = do_coinswap(&makers, params(), BanLedger::new(), Fault::Nothing);
    assert_eq!(outcome.result, Err(TakerError::MakerUnreachable));
    assert!(outcome.broadcast.is_empty());

    let alone = [SimMaker::new(6102, 2, 1000, MakerBehavior::Normal)];
    let short = do_coinswap(&alone, params(), BanLedger::new(), Fault::Nothing);
    assert_eq!(short.result, Err(TakerError::NegotiationRejected));
    let nobody = do_coinswap(&[], params(), BanLedger::new(), Fault::Nothing);
    assert_eq!(nobody.result, Err(TakerError::NegotiationRejected));
}

#[test]
fn wallet_and_network_failures_are_reported() {
    let makers = [
        SimMaker::new(6102, 2, 1000, MakerBehavior::Normal),
        SimMaker::new(16102, 3, 2000, MakerBehavior::Normal),
    ];
    let funds = do_coinswap(&makers, params(), BanLedger::new(), Fault::FundsInsufficient);
    assert_eq!(funds.result, Err(TakerError::FundsInsufficient));
    assert!(funds.broadcast.is_empty());
    let rejected = do_coinswap(&makers, params(), BanLedger::new(), Fault::BroadcastRejected);
    assert_eq!(rejected.result, Err(TakerError::ConfirmationTimeout));
    assert!(rejected.broadcast.is_empty());
    let late = do_coinswap(&makers, params(), BanLedger::new(), Fault::ConfirmationTimeout);
    assert_eq!(late.result, Err(TakerError::ConfirmationTimeout));
    assert_eq!(late.left_to_refund, 1);
    for outcome in [funds, rejected, late] {
        assert!(!outcome.preimage_sent);
        assert!(bad_addresses(&outcome.swap).is_empty());
    }
}

#[test]
fn swap_size_outside_every_offer_is_rejected() {
    let makers = [
        SimMaker::new(6102, 2, 1000, MakerBehavior::Normal),
        SimMaker::new(16102, 3, 2000, MakerBehavior::Normal),
    ];
    let mut small = params();
    small.send_amount = 9_999;
    let outcome = do_coinswap(&makers, small, BanLedger::new(), Fault::Nothing);
    assert_eq!(outcome.result, Err(TakerError::NegotiationRejected));
}

#[test]
fn maker_that_asks_more_than_listed_is_passed_over() {
    let makers = [
        SimMaker::new(6102, 2, 1000, MakerBehavior::Normal),
        SimMaker::new(16102, 3, 2000, MakerBehavior::Normal),
        SimMaker::new(26102, 4, 3000, MakerBehavior::Normal),
    ];
    // the Directory lists the first Maker cheaper than it answers
    let mut listed: Vec<Offer> = makers.iter().map(|m| m.offer()).collect();
    listed[0].terms.fees.absolute_fee = 500;
    let (mut swap, connect) = listed_swap(params(), listed);
    assert!(matches!(connect, TakerAction::Connect { hop: 0, .. }));
    swap.handle(TakerEvent::Connected);
    swap.handle(TakerEvent::Message(MakerMessage::Ack));
    let answer = MakerMessage::OfferResponse { terms: makers[0].offer().terms };
    let next = swap.handle(TakerEvent::Message(answer));
    match next {
        TakerAction::Connect { hop, address } => {
            assert_eq!(hop, 0);
            assert_eq!(address, "127.0.0.1:16102");
        }
        other => panic!("no fallback: {:?}", other),
    }
    assert!(swap.chosen().is_empty());
    let tried: Vec<bool> = swap.book().entries.iter().map(|e| e.tried).collect();
    assert_eq!(tried, vec![true, true, false]);
}

#[test]
fn funding_that_does_not_match_the_hop_is_refused() {
    let makers = [SimMaker::new(6102, 2, 1000, MakerBehavior::Normal)];
    let mut one = params();
    one.maker_count = 1;
    let listed: Vec<Offer> = makers.iter().map(|m| m.offer()).collect();
    let (mut swap, _) = listed_swap(one, listed);
    swap.handle(TakerEvent::Connected);
    swap.handle(TakerEvent::Message(MakerMessage::Ack));
    let prepare =
        swap.handle(TakerEvent::Message(MakerMessage::OfferResponse { terms: makers[0].offer().terms }));
    match prepare {
        TakerAction::PrepareFunding { hop, outputs } => {
            assert_eq!(hop, 0);
            let values: Vec<u64> = outputs.iter().map(|o| o.value).collect();
            assert_eq!(values, vec![167_167, 167_167, 167_166]);
            let terms = &swap.plan()[0];
            let script =
                coinswap::script::joint_script(&terms.funder_key, &terms.receiver_key).unwrap();
            assert!(outputs.iter().all(|o| o.script == script));
        }
        other => panic!("no funding asked for: {:?}", other),
    }
    // one unit short of the hop's amount, with no tolerance
    let coins = vec![
        FundingCoin { outpoint: OutPoint { txid: vec![1u8; 32], vout: 0 }, value: 167_166 },
        FundingCoin { outpoint: OutPoint { txid: vec![1u8; 32], vout: 1 }, value: 167_167 },
        FundingCoin { outpoint: OutPoint { txid: vec![1u8; 32], vout: 2 }, value: 167_166 },
    ];
    let action = swap.handle(TakerEvent::FundingPrepared { coins });
    assert!(matches!(
        action,
        TakerAction::Abort { error: TakerError::FundsInsufficient, funded: 0 }
    ));
    assert!(swap.funding().is_empty());
}

#[test]
fn swap_needs_a_key_and_a_secret_of_their_length() {
    let mut short_secret = taker_config();
    short_secret.secret = vec![7u8; 31];
    let made = TakerSwap::new(params(), short_secret, BanLedger::new());
    assert_eq!(made.err(), Some(coinswap::error::ContractError::MalformedScript));
    let mut short_key = taker_config();
    short_key.funder_key = vec![2u8; 32];
    let made = TakerSwap::new(params(), short_key, BanLedger::new());
    assert_eq!(made.err(), Some(coinswap::error::ContractError::MalformedScript));
}

/// An environment that answers every action with the same event.
struct Stubborn {
    event: fn() -> TakerEvent,
    asked: usize,
}

impl Environment for Stubborn {
    fn perform(&mut self, _action: TakerAction) -> TakerEvent {
        self.asked += 1;
        (self.event)()
    }
}

#[test]
fn swap_ends_whatever_the_environment_reports() {
    let events: [fn() -> TakerEvent; 8] = [
        || TakerEvent::DirectoryUnreachable,
        || TakerEvent::OffersListed {
            offers: vec![
                SimMaker::new(6102, 2, 1000, MakerBehavior::Normal).offer(),
                SimMaker::new(16102, 3, 2000, MakerBehavior::Normal).offer(),
            ],
        },
        || TakerEvent::Connected,
        || TakerEvent::ConnectFailed,
        || TakerEvent::Timeout,
        || TakerEvent::Disconnected,
        || TakerEvent::Message(MakerMessage::Ack),
        || TakerEvent::Confirmed,
    ];
    for event in events {
        let mut swap = TakerSwap::new(params(), taker_config(), BanLedger::new()).unwrap();
        let mut stubborn = Stubborn { event, asked: 0 };
        let outcome = swap.do_coinswap(&mut stubborn);
        assert!(stubborn.asked < 20);
        assert_eq!(swap.state().revealed, 0);
        match outcome {
            SwapOutcome::Aborted(error) => assert_eq!(swap.state().error, Some(error)),
            SwapOutcome::Interrupted => assert!(!swap.state().is_final()),
            SwapOutcome::Completed => panic!("nothing was funded"),
        }
    }
}

#[test]
fn swap_that_cannot_be_split_over_its_outputs_is_not_funded() {
    let makers = [
        SimMaker::new(6102, 2, 1000, MakerBehavior::Normal),
        SimMaker::new(16102, 3, 2000, MakerBehavior::Normal),
    ];
    let mut none = params();
    none.tx_count = 0;
    let outcome = do_coinswap(&makers, none, BanLedger::new(), Fault::Nothing);
    assert_eq!(outcome.result, Err(TakerError::FundsInsufficient));
    assert!(outcome.broadcast.is_empty());
    assert!(outcome.swap.plan().is_empty());
}

#[test]
fn unreadable_answer_bans_the_maker() {
    let makers = [SimMaker::new(6102, 2, 1000, MakerBehavior::Normal)];
    let mut one = params();
    one.maker_count = 1;
    let listed: Vec<Offer> = makers.iter().map(|m| m.offer()).collect();
    let (mut swap, _) = listed_swap(one, listed);
    swap.handle(TakerEvent::Connected);
    let action = swap.handle(TakerEvent::Unreadable);
    assert!(matches!(
        action,
        TakerAction::Abort { error: TakerError::NegotiationRejected, funded: 0 }
    ));
    assert_eq!(bad_addresses(&swap), vec!["127.0.0.1:6102".to_string()]);
    assert_eq!(swap.get_bad_makers()[0].reason, BanReason::InvalidData);
}

#[test]
fn maker_banned_during_the_attempt_is_not_tried_under_another_offer() {
    // the Directory lists the first Maker twice
    let makers = [
        SimMaker::new(6102, 2, 1000, MakerBehavior::Normal),
        SimMaker::new(16102, 3, 2000, MakerBehavior::Normal),
    ];
    let mut listed: Vec<Offer> = makers.iter().map(|m| m.offer()).collect();
    listed.push(makers[0].offer());
    let mut one = params();
    one.maker_count = 1;
    let (mut swap, first) = listed_swap(one, listed);
    assert!(matches!(first, TakerAction::Connect { hop: 0, .. }));
    swap.handle(TakerEvent::Connected);
    // the Maker stalls and is banned: its second offer is passed over
    match swap.handle(TakerEvent::Timeout) {
        TakerAction::Connect { hop, address } => {
            assert_eq!(hop, 0);
            assert_eq!(address, "127.0.0.1:16102");
        }
        other => panic!("no fallback: {:?}", other),
    }
    assert_eq!(bad_addresses(&swap), vec!["127.0.0.1:6102".to_string()]);
    swap.handle(TakerEvent::ConnectFailed);
    assert_eq!(swap.state().error, Some(TakerError::MakerUnreachable));
}

#[test]
fn directory_that_cannot_be_reached_fails_the_attempt() {
    let makers = [SimMaker::new(6102, 2, 1000, MakerBehavior::Normal)];
    let outcome = run(&makers, None, params(), BanLedger::new(), Fault::Nothing);
    assert_eq!(outcome.result, Err(TakerError::MakerUnreachable));
    assert_eq!(outcome.actions.len(), 2);
    assert!(outcome.swap.book().entries.is_empty());
}

#[test]
fn listing_is_taken_without_the_banned_makers() {
    let makers = [
        SimMaker::new(6102, 2, 1000, MakerBehavior::Normal),
        SimMaker::new(16102, 3, 2000, MakerBehavior::Normal),
        SimMaker::new(26102, 4, 3000, MakerBehavior::Normal),
    ];
    let mut ledger = BanLedger::new();
    ledger.record("127.0.0.1:6102", BanReason::Stalled);
    let outcome = do_coinswap(&makers, params(), ledger, Fault::Nothing);
    assert_eq!(outcome.result, Ok(()));
    let booked: Vec<String> =
        outcome.swap.book().entries.iter().map(|e| e.offer.address.clone()).collect();
    assert_eq!(booked, vec!["127.0.0.1:16102".to_string(), "127.0.0.1:26102".to_string()]);
    // a listing that comes out of turn is passed over
    let mut swap = outcome.swap;
    let stray = swap.handle(TakerEvent::OffersListed { offers: vec![makers[0].offer()] });
    assert!(matches!(stray, TakerAction::Wait));
    assert_eq!(swap.book().len(), 2);
}

#[test]
fn swap_without_a_hop_is_given_up_at_once() {
    let mut none = params();
    none.maker_count = 0;
    let mut swap = TakerSwap::new(none, taker_config(), BanLedger::new()).unwrap();
    let mut stubborn = Stubborn { event: || TakerEvent::Connected, asked: 0 };
    let outcome = swap.do_coinswap(&mut stubborn);
    assert_eq!(outcome, SwapOutcome::Aborted(TakerError::NegotiationRejected));
    // only the end of the attempt was handed to the environment
    assert_eq!(stubborn.asked, 1);
    assert_eq!(swap.state().phase, TakerPhase::Aborted);
}

#[test]
fn swap_that_was_started_before_is_left_untouched() {
    let makers = [
        SimMaker::new(6102, 2, 1000, MakerBehavior::Normal),
        SimMaker::new(16102, 3, 2000, MakerBehavior::Normal),
    ];
    let listed: Vec<Offer> = makers.iter().map(|m| m.offer()).collect();
    let (mut swap, _) = listed_swap(params(), listed);
    let before = format!("{:?}", swap);
    let mut stubborn = Stubborn { event: || TakerEvent::Connected, asked: 0 };
    assert_eq!(swap.do_coinswap(&mut stubborn), SwapOutcome::Interrupted);
    assert_eq!(stubborn.asked, 0);
    assert_eq!(format!("{:?}", swap), before);
    // so is one that has ended
    let done = do_coinswap(&makers, params(), BanLedger::new(), Fault::Nothing);
    let mut swap = done.swap;
    let before = format!("{:?}", swap);
    assert_eq!(swap.do_coinswap(&mut stubborn), SwapOutcome::Interrupted);
    assert_eq!(stubborn.asked, 0);
    assert_eq!(format!("{:?}", swap), before);
}
