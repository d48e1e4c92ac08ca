//! The Taker's side of a swap attempt: each event is checked against the
//! offer book, the plan of the chain and the contracts agreed so far, the
//! decision is taken, the ban ledger is kept, and the next action is built.

use vstd::prelude::*;
use crate::amounts::{build_hop_amounts, hop_amount};
use crate::bytes::clone_bytes;
use crate::contract::{
    clone_coins, coins_match, coins_view, contract_signatures_valid, contracts_buildable,
    funding_txids, spec_coins_match, spec_funding_outputs, strings_view, terms_well_formed,
    ContractKind, FundingCoin, FundingCoinView, HopTerms, HopTermsView,
};
use crate::tx::{outputs_view, TxOutput, TxOutputView};
use crate::crypto::{hash160, spec_hash160, HASH_LEN, PUBLIC_KEY_LEN};
use crate::error::{ContractError, TakerError};
use crate::ledger::{occurrences, record_addresses, BadMaker, BanLedger, BanReason};
use crate::locktime::{build_locktimes, hop_locktime, strictly_decreasing};
use crate::messages::{
    MakerMessage, TakerMessage, TakerMessageView, PREIMAGE_LEN, PROTOCOL_VERSION,
};
use crate::offer::{
    lemma_trying_leaves_fewer, offers_view, spec_covers, spec_has_candidate, spec_is_choice,
    spec_unbanned, untried_count, Offer, OfferBook, OfferTerms, OfferTermsView, OfferView,
    TieBreak,
};
use crate::taker_core::{
    funds_safe, lemma_ban_regardless_of_candidates, lemma_reveal_from_well_formed, lemma_start,
    spec_abort,
    lemma_step_keeps_well_formed, lemma_step_progress, lemma_step_shape, spec_before_selection,
    spec_distance, spec_initial, spec_prepared,
    spec_selecting, spec_step, spec_working, step, well_formed, TakerCore, TakerInput, TakerMove,
    TakerPhase,
};

verus! {

/// What the caller asks for. It does not change once the attempt started.
#[derive(Clone, Copy, Debug, PartialEq, Eq, Structural)]
pub struct SwapParams {
    /// The amount that arrives at the end of the chain.
    pub send_amount: u64,
    /// The number of Makers, which is the number of hops.
    pub maker_count: usize,
    /// The number of funding outputs of each hop.
    pub tx_count: u32,
    /// The confirmations that a funding transaction needs.
    pub required_confirms: u64,
}

/// What a Taker is set up with.
#[derive(Debug)]
pub struct TakerConfig {
    /// The public key that refunds are paid to.
    pub funder_key: Vec<u8>,
    /// The swap's secret. Its hash locks every hop.
    pub secret: Vec<u8>,
    /// The refund locktime of the last hop.
    pub final_locktime: u32,
    /// How much earlier each hop's refund opens than that of the hop before.
    pub locktime_step: u32,
    /// Fee per encoded byte of a contract transaction.
    pub fee_rate: u64,
    /// How far a hop's funding may differ from the hop's amount.
    pub tolerance: u64,
    /// Which of several Makers with the same fee is tried first.
    pub tie_break: TieBreak,
}

/// What a `TakerConfig` holds.
pub struct TakerConfigView {
    pub funder_key: Seq<u8>,
    pub secret: Seq<u8>,
    pub final_locktime: u32,
    pub locktime_step: u32,
    pub fee_rate: u64,
    pub tolerance: u64,
    pub tie_break: TieBreak,
}

impl View for TakerConfig {
    type V = TakerConfigView;

    open spec fn view(&self) -> TakerConfigView {
        TakerConfigView {
            funder_key: self.funder_key@,
            secret: self.secret@,
            final_locktime: self.final_locktime,
            locktime_step: self.locktime_step,
            fee_rate: self.fee_rate,
            tolerance: self.tolerance,
            tie_break: self.tie_break,
        }
    }
}

/// What happens during an attempt.
#[derive(Debug)]
pub enum TakerEvent {
    /// The caller asks for the swap.
    Start,
    /// The Directory listed these offers.
    OffersListed { offers: Vec<Offer> },
    /// The Directory could not be asked.
    DirectoryUnreachable,
    Connected,
    ConnectFailed,
    Message(MakerMessage),
    /// The Maker sent bytes that are no message.
    Unreadable,
    /// The Maker did not answer in time.
    Timeout,
    /// The Maker closed the connection.
    Disconnected,
    /// The wallet reserved coins and prepared the hop's funding.
    FundingPrepared { coins: Vec<FundingCoin> },
    /// The wallet cannot fund the hop.
    FundsInsufficient,
    FundingBroadcast,
    BroadcastRejected,
    Confirmed,
    ConfirmationTimeout,
    /// The wallet redeemed the hop with the preimage.
    Redeemed,
}

/// What the Taker does next.
#[derive(Debug)]
pub enum TakerAction {
    /// Nothing: wait for the next event.
    Wait,
    /// Ask the Directory for the offers.
    ListOffers,
    /// Open a connection for the hop to the Maker at the address.
    Connect { hop: usize, address: String },
    /// Send the message to the hop's Maker.
    Send { hop: usize, message: TakerMessage },
    /// Reserve coins and prepare the funding of the hop: one transaction
    /// for each output.
    PrepareFunding { hop: usize, outputs: Vec<TxOutput> },
    /// Broadcast the hop's funding.
    BroadcastFunding { hop: usize },
    /// Wait until the hop's funding has the confirmations.
    AwaitConfirmations { hop: usize, required_confirms: u64 },
    /// Redeem the hop with the preimage, without the Maker.
    Redeem { hop: usize },
    /// Report success.
    Finish,
    /// Release what was reserved, leave the first `funded` hops to their
    /// refund, and report the error.
    Abort { error: TakerError, funded: usize },
}

/// What a `TakerAction` holds.
pub enum TakerActionView {
    Wait,
    ListOffers,
    Connect { hop: usize, address: Seq<char> },
    Send { hop: usize, message: TakerMessageView },
    PrepareFunding { hop: usize, outputs: Seq<TxOutputView> },
    BroadcastFunding { hop: usize },
    AwaitConfirmations { hop: usize, required_confirms: u64 },
    Redeem { hop: usize },
    Finish,
    Abort { error: TakerError, funded: usize },
}

impl View for TakerAction {
    type V = TakerActionView;

    open spec fn view(&self) -> TakerActionView {
        match self {
            TakerAction::Wait => TakerActionView::Wait,
            TakerAction::ListOffers => TakerActionView::ListOffers,
            TakerAction::Connect { hop, address } => TakerActionView::Connect {
                hop: *hop,
                address: address@,
            },
            TakerAction::Send { hop, message } => TakerActionView::Send {
                hop: *hop,
                message: message@,
            },
            TakerAction::PrepareFunding { hop, outputs } => TakerActionView::PrepareFunding {
                hop: *hop,
                outputs: outputs_view(outputs),
            },
            TakerAction::BroadcastFunding { hop } => TakerActionView::BroadcastFunding { hop: *hop },
            TakerAction::AwaitConfirmations {
                hop,
                required_confirms,
            } => TakerActionView::AwaitConfirmations {
                hop: *hop,
                required_confirms: *required_confirms,
            },
            TakerAction::Redeem { hop } => TakerActionView::Redeem { hop: *hop },
            TakerAction::Finish => TakerActionView::Finish,
            TakerAction::Abort { error, funded } => TakerActionView::Abort {
                error: *error,
                funded: *funded,
            },
        }
    }
}

/// Whether the chain can be laid out: the first hop's amount and locktime
/// can be written down, the locktimes decrease, and every hop's amount can
/// be split over the funding outputs.
pub open spec fn spec_plan_feasible(
    send_amount: u64,
    fees: Seq<u64>,
    final_locktime: u32,
    locktime_step: u32,
    tx_count: u32,
) -> bool {
    &&& hop_amount(send_amount, fees, 0) <= u64::MAX
    &&& fees.len() <= 1 || (locktime_step >= 1 && hop_locktime(
        fees.len() as int,
        final_locktime,
        locktime_step,
        0,
    ) <= u32::MAX)
    &&& fees.len() >= 1 ==> 1 <= tx_count <= hop_amount(send_amount, fees, fees.len() - 1)
}

/// The terms of hop `hop` of the chain: it carries the send amount and the
/// fees of this and every later hop, pays to its Maker's key, is locked by
/// the hash of the secret, and its refund opens `locktime_step` before that
/// of the hop in front of it.
pub open spec fn spec_hop_terms(
    send_amount: u64,
    fees: Seq<u64>,
    keys: Seq<Seq<u8>>,
    funder_key: Seq<u8>,
    secret: Seq<u8>,
    final_locktime: u32,
    locktime_step: u32,
    fee_rate: u64,
    hop: int,
) -> HopTermsView {
    HopTermsView {
        amount: hop_amount(send_amount, fees, hop) as u64,
        funder_key,
        receiver_key: keys[hop],
        hash_value: spec_hash160(secret),
        locktime: hop_locktime(fees.len() as int, final_locktime, locktime_step, hop) as u32,
        fee_rate,
    }
}

/// What a list of hop terms holds.
pub open spec fn terms_view(plan: &Vec<HopTerms>) -> Seq<HopTermsView> {
    plan@.map_values(|t: HopTerms| t@)
}

/// Lays out the chain: the terms of every hop, first hop first. `None`
/// where the chain cannot be laid out.
pub fn build_plan(
    send_amount: u64,
    fees: &Vec<u64>,
    keys: &Vec<Vec<u8>>,
    config: &TakerConfig,
    tx_count: u32,
) -> (plan: Option<Vec<HopTerms>>)
    requires
        keys@.len() == fees@.len(),
    ensures
        plan is Some <==> spec_plan_feasible(
            send_amount,
            fees@,
            config.final_locktime,
            config.locktime_step,
            tx_count,
        ),
        plan is Some ==> spec_hash160(config.secret@).len() == HASH_LEN,
        plan matches Some(p) ==> forall|k: int|
            0 <= k < fees@.len() ==> 1 <= tx_count <= (#[trigger] terms_view(&p)[k]).amount,
        plan matches Some(p) ==> p@.len() == fees@.len() && forall|k: int|
            0 <= k < fees@.len() ==> #[trigger] terms_view(&p)[k] == spec_hop_terms(
                send_amount,
                fees@,
                strings_view(keys),
                config.funder_key@,
                config.secret@,
                config.final_locktime,
                config.locktime_step,
                config.fee_rate,
                k,
            ),
{
    let amounts = match build_hop_amounts(send_amount, fees) {
        Some(amounts) => amounts,
        None => {
            return None;
        },
    };
    let locktimes = match build_locktimes(fees.len(), config.final_locktime, config.locktime_step) {
        Ok(locktimes) => locktimes,
        Err(e) => {
            return None;
        },
    };
    if fees.len() >= 1 && (tx_count == 0 || tx_count as u64 > amounts[fees.len() - 1]) {
        return None;
    }
    proof {
        assert forall|j: int| 0 <= j < fees@.len() implies tx_count <= hop_amount(
            send_amount,
            fees@,
            j,
        ) by {
            crate::amounts::lemma_fee_sum_monotone(fees@, j, fees@.len() - 1);
        }
    }
    let hash_value = hash160(config.secret.as_slice());
    let mut plan: Vec<HopTerms> = Vec::new();
    let mut k: usize = 0;
    while k < fees.len()
        invariant
            k <= fees@.len(),
            keys@.len() == fees@.len(),
            amounts@.len() == fees@.len(),
            locktimes@.len() == fees@.len(),
            hash_value@ == spec_hash160(config.secret@),
            forall|j: int| 0 <= j < fees@.len() ==> tx_count <= hop_amount(send_amount, fees@, j),
            fees@.len() >= 1 ==> tx_count >= 1,
            forall|j: int|
                0 <= j < fees@.len() ==> #[trigger] amounts@[j] == hop_amount(send_amount, fees@, j),
            forall|j: int| 0 <= j < k ==> 1 <= tx_count <= (#[trigger] terms_view(&plan)[j]).amount,
            forall|j: int|
                0 <= j < fees@.len() ==> #[trigger] locktimes@[j] == hop_locktime(
                    fees@.len() as int,
                    config.final_locktime,
                    config.locktime_step,
                    j,
                ),
            plan@.len() == k,
            forall|j: int|
                0 <= j < k ==> #[trigger] terms_view(&plan)[j] == spec_hop_terms(
                    send_amount,
                    fees@,
                    strings_view(keys),
                    config.funder_key@,
                    config.secret@,
                    config.final_locktime,
                    config.locktime_step,
                    config.fee_rate,
                    j,
                ),
        decreases fees@.len() - k,
    {
        let ghost before = terms_view(&plan);
        assert(strings_view(keys)[k as int] == keys@[k as int]@);
        let terms = HopTerms {
            amount: amounts[k],
            funder_key: clone_bytes(&config.funder_key),
            receiver_key: clone_bytes(&keys[k]),
            hash_value: clone_bytes(&hash_value),
            locktime: locktimes[k],
            fee_rate: config.fee_rate,
        };
        plan.push(terms);
        proof {
            let after = terms_view(&plan);
            assert forall|j: int| 0 <= j < k implies after[j] == before[j] by {}
        }
        k += 1;
    }
    Some(plan)
}

/// What the list of the hops' funding holds.
pub open spec fn funding_view(funding: &Vec<Vec<FundingCoin>>) -> Seq<Seq<FundingCoinView>> {
    funding@.map_values(|coins: Vec<FundingCoin>| coins_view(&coins))
}

/// Whether the wallet's funding fits the hop: it has the agreed number of
/// outputs, holds the hop's amount within the tolerance, and both contract
/// transactions can be built for every output.
pub open spec fn spec_funding_acceptable(
    terms: HopTermsView,
    coins: Seq<FundingCoinView>,
    tx_count: u32,
    tolerance: u64,
) -> bool {
    &&& coins.len() == tx_count
    &&& spec_coins_match(coins, terms.amount, tolerance)
    &&& contracts_buildable(terms, ContractKind::Refund, coins)
    &&& contracts_buildable(terms, ContractKind::Hashlock, coins)
}

/// Whether the wallet's funding fits the hop.
pub fn funding_acceptable(terms: &HopTerms, coins: &Vec<FundingCoin>, tx_count: u32, tolerance: u64) -> (acceptable: bool)
    ensures
        acceptable == spec_funding_acceptable(terms@, coins_view(coins), tx_count, tolerance),
{
    coins.len() == tx_count as usize && coins_match(coins, terms.amount, tolerance) && terms.can_build(
        ContractKind::Refund,
        coins,
    ) && terms.can_build(ContractKind::Hashlock, coins)
}

/// The ledger after a decision: the Maker is added where the decision bans
/// it and the ledger does not hold it yet.
pub open spec fn spec_ledger_after(
    before: Seq<(Seq<char>, BanReason)>,
    address: Seq<char>,
    ban: Option<BanReason>,
) -> Seq<(Seq<char>, BanReason)> {
    match ban {
        Some(reason) => if record_addresses(before).contains(address) {
            before
        } else {
            before.push((address, reason))
        },
        None => before,
    }
}

/// Whether the Taker's key and secret have their lengths.
pub open spec fn spec_config_valid(config: TakerConfigView) -> bool {
    config.funder_key.len() == PUBLIC_KEY_LEN && config.secret.len() == PREIMAGE_LEN
}

/// One swap attempt of the Taker.
#[derive(Debug)]
pub struct TakerSwap {
    params: SwapParams,
    config: TakerConfig,
    book: OfferBook,
    ledger: BanLedger,
    core: TakerCore,
    /// The entry of the book that is being tried for the current hop.
    candidate: Option<usize>,
    /// The entry of the book of each hop's Maker.
    chosen: Vec<usize>,
    /// The fee negotiated with each hop's Maker.
    fees: Vec<u64>,
    /// The public key of each hop's Maker.
    keys: Vec<Vec<u8>>,
    /// The terms of every hop, once all Makers are chosen.
    plan: Vec<HopTerms>,
    /// The funding of each hop that the wallet has prepared.
    funding: Vec<Vec<FundingCoin>>,
}

/// What a `TakerSwap` holds.
pub struct TakerSwapView {
    pub params: SwapParams,
    pub config: TakerConfigView,
    /// The offers of the book.
    pub offers: Seq<OfferView>,
    /// Which offers of the book were tried.
    pub tried: Seq<bool>,
    /// The ban ledger.
    pub banned: Seq<(Seq<char>, BanReason)>,
    pub core: TakerCore,
    /// The entry of the book that is being tried for the current hop.
    pub candidate: Option<usize>,
    /// The entry of the book of each hop's Maker.
    pub chosen: Seq<usize>,
    /// The fee negotiated with each hop's Maker.
    pub fees: Seq<u64>,
    /// The public key of each hop's Maker.
    pub keys: Seq<Seq<u8>>,
    /// The terms of every hop, once all Makers are chosen.
    pub plan: Seq<HopTermsView>,
    /// The funding of each hop that the wallet has prepared.
    pub funding: Seq<Seq<FundingCoinView>>,
}

impl View for TakerSwap {
    type V = TakerSwapView;

    closed spec fn view(&self) -> TakerSwapView {
        TakerSwapView {
            params: self.params,
            config: self.config@,
            offers: self.book.offers(),
            tried: self.book.tried(),
            banned: self.ledger@,
            core: self.core,
            candidate: self.candidate,
            chosen: self.chosen@,
            fees: self.fees@,
            keys: strings_view(&self.keys),
            plan: terms_view(&self.plan),
            funding: funding_view(&self.funding),
        }
    }
}

impl TakerSwapView {
    /// Whether Makers are still being chosen.
    pub open spec fn selecting(self) -> bool {
        spec_selecting(self.core)
    }

    /// Whether the hops are being set up, funded or settled.
    pub open spec fn working(self) -> bool {
        spec_working(self.core)
    }

    /// The terms that the chain gives to hop `hop`.
    pub open spec fn hop_terms(self, hop: int) -> HopTermsView {
        spec_hop_terms(
            self.params.send_amount,
            self.fees,
            self.keys,
            self.config.funder_key,
            self.config.secret,
            self.config.final_locktime,
            self.config.locktime_step,
            self.config.fee_rate,
            hop,
        )
    }

    /// Whether the chain is laid out, and as `spec_hop_terms` says.
    pub open spec fn planned(self) -> bool {
        &&& self.plan.len() == self.fees.len()
        &&& self.fees.len() == self.core.hops
        &&& spec_plan_feasible(
            self.params.send_amount,
            self.fees,
            self.config.final_locktime,
            self.config.locktime_step,
            self.params.tx_count,
        )
        &&& forall|k: int| 0 <= k < self.plan.len() ==> #[trigger] self.plan[k] == self.hop_terms(k)
        &&& forall|k: int|
            0 <= k < self.plan.len() ==> terms_well_formed(#[trigger] self.plan[k]) && 1
                <= self.params.tx_count <= self.plan[k].amount
    }

    /// The part of the invariant that does not depend on where the attempt
    /// stands: the lists belong together, the ledger holds no address
    /// twice, the plan is as laid out, and the funding of every hop fits
    /// the hop.
    pub open spec fn data_wf(self) -> bool {
        &&& self.tried.len() == self.offers.len()
        &&& record_addresses(self.banned).no_duplicates()
        &&& self.fees.len() == self.chosen.len()
        &&& self.keys.len() == self.chosen.len()
        &&& forall|k: int| 0 <= k < self.keys.len() ==> (#[trigger] self.keys[k]).len() == PUBLIC_KEY_LEN
        &&& forall|k: int| 0 <= k < self.chosen.len() ==> #[trigger] self.chosen[k] < self.offers.len()
        &&& self.plan.len() == 0 || self.planned()
        &&& self.funding.len() <= self.plan.len()
        &&& forall|j: int|
            0 <= j < self.funding.len() ==> spec_funding_acceptable(
                self.plan[j],
                #[trigger] self.funding[j],
                self.params.tx_count,
                self.config.tolerance,
            )
    }

    /// The part of the invariant that ties the lists to where the attempt
    /// stands.
    pub open spec fn phase_wf(self) -> bool {
        &&& self.chosen.len() == self.core.selected
        &&& self.selecting() ==> self.candidate is Some && self.candidate.unwrap()
            < self.offers.len()
        &&& self.working() ==> self.planned()
        &&& self.core.phase != TakerPhase::Aborted ==> self.funding.len() == spec_prepared(
            self.core,
        )
        &&& self.core.funded <= self.funding.len()
    }

    /// The attempt's invariant.
    pub open spec fn wf(self) -> bool {
        &&& well_formed(self.core)
        &&& self.core.hops == self.params.maker_count
        &&& spec_config_valid(self.config)
        &&& self.data_wf()
        &&& self.phase_wf()
    }

    /// The entry of the book of the Maker that the attempt is dealing with.
    pub open spec fn current_entry(self) -> int {
        if self.selecting() {
            self.candidate.unwrap() as int
        } else {
            self.chosen[self.core.hop as int] as int
        }
    }

    /// The address of the Maker that the attempt is dealing with.
    pub open spec fn current_address(self) -> Seq<char> {
        self.offers[self.current_entry()].address
    }

    /// Whether the candidate's answer to the offer request is accepted: it
    /// covers the swap, asks no more than the Directory listed, and names a
    /// public key.
    pub open spec fn offer_accepted(self, terms: OfferTermsView) -> bool {
        let listed = self.offers[self.candidate.unwrap() as int].terms;
        &&& spec_covers(terms, self.params.send_amount)
        &&& spec_covers(listed, self.params.send_amount)
        &&& terms.fees.spec_fee(self.params.send_amount) <= listed.fees.spec_fee(
            self.params.send_amount,
        )
        &&& terms.fidelity.public_key.len() == PUBLIC_KEY_LEN
    }

    /// Whether the signatures that the current hop's Maker sent verify for
    /// the hop's contract transactions of the given kind.
    pub open spec fn signatures_valid(self, kind: ContractKind, signatures: Seq<Seq<u8>>) -> bool {
        contract_signatures_valid(
            self.plan[self.core.hop as int],
            kind,
            self.funding[self.core.hop as int],
            self.keys[self.core.hop as int],
            signatures,
        )
    }

    /// What an event amounts to for the decision.
    #[verifier::opaque]
    pub open spec fn classify(self, event: &TakerEvent) -> TakerInput {
        match event {
            TakerEvent::Start => TakerInput::Start,
            TakerEvent::OffersListed { offers } => TakerInput::OffersListed,
            TakerEvent::DirectoryUnreachable => TakerInput::DirectoryFailed,
            TakerEvent::Connected => TakerInput::Connected,
            TakerEvent::ConnectFailed => TakerInput::ConnectFailed,
            TakerEvent::Unreadable => TakerInput::Unexpected,
            TakerEvent::Timeout => TakerInput::Timeout,
            TakerEvent::Disconnected => TakerInput::Disconnected,
            TakerEvent::FundsInsufficient => TakerInput::FundingUnavailable,
            TakerEvent::FundingBroadcast => TakerInput::FundingBroadcast,
            TakerEvent::BroadcastRejected => TakerInput::BroadcastRejected,
            TakerEvent::Confirmed => TakerInput::Confirmed,
            TakerEvent::ConfirmationTimeout => TakerInput::ConfirmationTimeout,
            TakerEvent::Redeemed => TakerInput::Redeemed,
            TakerEvent::FundingPrepared { coins } => if self.core.phase == TakerPhase::Reserving
                && spec_funding_acceptable(
                self.plan[self.core.hop as int],
                coins_view(coins),
                self.params.tx_count,
                self.config.tolerance,
            ) {
                TakerInput::FundingPrepared
            } else {
                TakerInput::FundingUnavailable
            },
            TakerEvent::Message(message) => match message {
                MakerMessage::Ack => TakerInput::Ack,
                MakerMessage::Error { reason } => TakerInput::PeerError,
                MakerMessage::OfferResponse { terms } => if self.core.phase
                    != TakerPhase::Negotiating {
                    TakerInput::Unexpected
                } else if !self.offer_accepted(terms@) {
                    TakerInput::OfferRejected
                } else if self.core.hop + 1 == self.core.hops && !spec_plan_feasible(
                    self.params.send_amount,
                    self.fees.push(terms@.fees.spec_fee(self.params.send_amount) as u64),
                    self.config.final_locktime,
                    self.config.locktime_step,
                    self.params.tx_count,
                ) {
                    TakerInput::PlanFailed
                } else {
                    TakerInput::OfferAccepted
                },
                MakerMessage::ContractSetupResponse { refund_signatures } => if self.core.phase
                    != TakerPhase::AwaitRefundSigs {
                    TakerInput::Unexpected
                } else if self.signatures_valid(
                    ContractKind::Refund,
                    strings_view(refund_signatures),
                ) {
                    TakerInput::RefundSigsValid
                } else {
                    TakerInput::RefundSigsInvalid
                },
                MakerMessage::RedeemSignatures { signatures } => if self.core.phase
                    != TakerPhase::AwaitRedeemSigs {
                    TakerInput::Unexpected
                } else if self.signatures_valid(ContractKind::Hashlock, strings_view(signatures)) {
                    TakerInput::RedeemSigsValid
                } else {
                    TakerInput::RedeemSigsInvalid
                },
            },
        }
    }

    /// The action that a move stands for, where the attempt stands after
    /// the decision.
    #[verifier::opaque]
    pub open spec fn render(self, action: TakerMove) -> TakerActionView {
        let hop = self.core.hop;
        match action {
            TakerMove::Wait => TakerActionView::Wait,
            TakerMove::ListOffers => TakerActionView::ListOffers,
            TakerMove::Connect => TakerActionView::Connect {
                hop,
                address: self.offers[self.candidate.unwrap() as int].address,
            },
            TakerMove::SendHello => TakerActionView::Send {
                hop,
                message: TakerMessageView::Hello { version: PROTOCOL_VERSION },
            },
            TakerMove::SendOfferRequest => TakerActionView::Send {
                hop,
                message: TakerMessageView::OfferRequest,
            },
            TakerMove::PrepareFunding => TakerActionView::PrepareFunding {
                hop,
                outputs: spec_funding_outputs(self.plan[hop as int], self.params.tx_count),
            },
            TakerMove::SendSetupRequest => TakerActionView::Send {
                hop,
                message: TakerMessageView::ContractSetupRequest {
                    terms: self.plan[hop as int],
                    coins: self.funding[hop as int],
                },
            },
            TakerMove::BroadcastFunding => TakerActionView::BroadcastFunding { hop },
            TakerMove::SendFundingProof => TakerActionView::Send {
                hop,
                message: TakerMessageView::FundingProof {
                    txids: self.funding[hop as int].map_values(
                        |c: FundingCoinView| c.outpoint.txid,
                    ),
                },
            },
            TakerMove::AwaitConfirmations => TakerActionView::AwaitConfirmations {
                hop,
                required_confirms: self.params.required_confirms,
            },
            TakerMove::SendPreimage => TakerActionView::Send {
                hop,
                message: TakerMessageView::PreimageReveal { secret: self.config.secret },
            },
            TakerMove::SendAck => TakerActionView::Send { hop, message: TakerMessageView::Ack },
            TakerMove::Redeem => TakerActionView::Redeem { hop },
            TakerMove::Finish => TakerActionView::Finish,
            TakerMove::Abort => TakerActionView::Abort {
                error: self.core.error.unwrap(),
                funded: self.core.funded,
            },
        }
    }

    /// Whether the state holds what the action is built from.
    pub open spec fn render_ready(self, action: TakerMove) -> bool {
        match action {
            TakerMove::Connect => self.candidate is Some && self.candidate.unwrap()
                < self.offers.len(),
            TakerMove::PrepareFunding => self.core.hop < self.plan.len() && terms_well_formed(
                self.plan[self.core.hop as int],
            ) && 1 <= self.params.tx_count <= self.plan[self.core.hop as int].amount,
            TakerMove::SendSetupRequest | TakerMove::SendFundingProof => self.core.hop
                < self.plan.len() && self.core.hop < self.funding.len(),
            TakerMove::Abort => self.core.error is Some,
            _ => true,
        }
    }

    /// Whom the event gets banned, if anybody.
    pub open spec fn ban(self, event: &TakerEvent) -> Option<BanReason> {
        spec_step(self.core, self.classify(event), false).ban
    }

    /// The ledger after the event.
    pub open spec fn banned_after(self, event: &TakerEvent) -> Seq<(Seq<char>, BanReason)> {
        spec_ledger_after(self.banned, self.current_address(), self.ban(event))
    }

    /// Whether the event is the listing that the attempt waits for.
    pub open spec fn listing(self, event: &TakerEvent) -> bool {
        self.core.phase == TakerPhase::Listing && event is OffersListed
    }

    /// The offers of the book after the event: what the Directory listed,
    /// without the Makers that are banned, where the event is the listing
    /// that the attempt waits for.
    pub open spec fn offers_after(self, event: &TakerEvent) -> Seq<OfferView> {
        if self.listing(event) {
            spec_unbanned(
                offers_view(&event->OffersListed_offers),
                record_addresses(self.banned),
                event->OffersListed_offers@.len() as int,
            )
        } else {
            self.offers
        }
    }

    /// Which offers were tried after the event, before the next candidate
    /// is chosen: none of a book that was just listed.
    pub open spec fn tried_after(self, event: &TakerEvent) -> Seq<bool> {
        if self.listing(event) {
            Seq::new(self.offers_after(event).len(), |i: int| false)
        } else {
            self.tried
        }
    }

    /// Whether another Maker can be tried once the event is taken: one
    /// whose offer was not tried and covers the swap, and who is not
    /// banned, not even by this event.
    pub open spec fn more_candidates(self, event: &TakerEvent) -> bool {
        spec_has_candidate(
            self.offers_after(event),
            self.tried_after(event),
            record_addresses(self.banned_after(event)),
            self.params.send_amount,
        )
    }

    /// The decision that an event leads to.
    pub open spec fn decide(self, event: &TakerEvent) -> crate::taker_core::TakerStep {
        spec_step(self.core, self.classify(event), self.more_candidates(event))
    }
}

/// What the attempt holds once it has moved on as decided.
pub open spec fn spec_advanced(
    kept: TakerSwapView,
    decided: crate::taker_core::TakerStep,
    next_candidate: Option<usize>,
) -> TakerSwapView {
    if decided.action == TakerMove::Connect {
        TakerSwapView {
            core: decided.next,
            candidate: next_candidate,
            tried: if next_candidate.unwrap() < kept.offers.len() {
                kept.tried.update(next_candidate.unwrap() as int, true)
            } else {
                kept.tried
            },
            ..kept
        }
    } else {
        TakerSwapView { core: decided.next, ..kept }
    }
}

/// Taking an event keeps the invariant: `kept` is what the attempt holds
/// after the ban was recorded and what the event brought was kept, `after`
/// what it holds once it has moved on.
pub proof fn lemma_advance_keeps_wf(
    before: TakerSwapView,
    kept: TakerSwapView,
    after: TakerSwapView,
    input: TakerInput,
    more_candidates: bool,
    next_candidate: Option<usize>,
)
    requires
        before.wf(),
        kept.data_wf(),
        kept.params == before.params,
        kept.config == before.config,
        !(input == TakerInput::OffersListed && before.core.phase == TakerPhase::Listing)
            ==> kept.offers == before.offers && kept.tried == before.tried,
        kept.core == before.core,
        kept.candidate == before.candidate,
        input == TakerInput::OfferAccepted ==> before.core.phase == TakerPhase::Negotiating
            && kept.chosen.len() == before.chosen.len() + 1,
        input != TakerInput::OfferAccepted ==> kept.chosen == before.chosen && kept.fees
            == before.fees && kept.keys == before.keys,
        input == TakerInput::OfferAccepted && before.core.hop + 1 == before.core.hops
            ==> kept.planned(),
        !(input == TakerInput::OfferAccepted && before.core.hop + 1 == before.core.hops)
            ==> kept.plan == before.plan,
        input == TakerInput::FundingPrepared ==> before.core.phase == TakerPhase::Reserving
            && kept.funding.len() == before.funding.len() + 1,
        input != TakerInput::FundingPrepared ==> kept.funding == before.funding,
        next_candidate matches Some(c) ==> c < kept.offers.len(),
        spec_step(before.core, input, more_candidates).action == TakerMove::Connect
            ==> next_candidate is Some,
        after == spec_advanced(
            kept,
            spec_step(before.core, input, more_candidates),
            next_candidate,
        ),
    ensures
        after.wf(),
        after.render_ready(spec_step(before.core, input, more_candidates).action),
{
    let decided = spec_step(before.core, input, more_candidates);
    lemma_step_shape(before.core, input, more_candidates);
    lemma_step_keeps_well_formed(before.core, input, more_candidates);
    lemma_data_wf_transfers(kept, after);
    if kept.plan == before.plan && input != TakerInput::OfferAccepted {
        lemma_planned_transfers(before, kept);
    }
    assert(after.chosen.len() == after.core.selected);
    assert(after.selecting() ==> after.candidate is Some && after.candidate.unwrap()
        < after.offers.len());
    assert(after.working() ==> after.planned()) by {
        if after.working() {
            if input == TakerInput::OfferAccepted && before.core.hop + 1 == before.core.hops {
                assert(kept.planned());
            } else {
                assert(before.working());
                assert(before.planned());
                assert(kept.planned());
            }
        }
    }
    assert(after.core.phase != TakerPhase::Aborted ==> after.funding.len() == spec_prepared(
        after.core,
    ));
    assert(after.core.funded <= after.funding.len());
    assert(after.phase_wf());
    assert(after.render_ready(decided.action));
}

/// A chain that is laid out is laid out in any attempt that holds the same
/// plan, fees, keys and settings.
pub proof fn lemma_planned_transfers(first: TakerSwapView, second: TakerSwapView)
    requires
        second.params == first.params,
        second.config == first.config,
        second.fees == first.fees,
        second.keys == first.keys,
        second.plan == first.plan,
        second.core.hops == first.core.hops,
    ensures
        first.planned() ==> second.planned(),
{
    if first.planned() {
        assert forall|k: int| 0 <= k < second.plan.len() implies #[trigger] second.plan[k]
            == second.hop_terms(k) by {
            assert(first.plan[k] == first.hop_terms(k));
        }
        assert forall|k: int| 0 <= k < second.plan.len() implies terms_well_formed(
            #[trigger] second.plan[k],
        ) && 1 <= second.params.tx_count <= second.plan[k].amount by {
            assert(terms_well_formed(first.plan[k]));
        }
    }
}

/// The part of the invariant that does not depend on where the attempt
/// stands holds of any attempt that holds the same lists.
pub proof fn lemma_data_wf_transfers(first: TakerSwapView, second: TakerSwapView)
    requires
        first.tried.len() == first.offers.len() ==> second.tried.len() == second.offers.len(),
        second.params == first.params,
        second.config == first.config,
        second.offers == first.offers,
        second.banned == first.banned,
        second.chosen == first.chosen,
        second.fees == first.fees,
        second.keys == first.keys,
        second.plan == first.plan,
        second.funding == first.funding,
        second.core.hops == first.core.hops,
    ensures
        first.planned() ==> second.planned(),
        first.data_wf() ==> second.data_wf(),
{
    lemma_planned_transfers(first, second);
    if first.data_wf() {
        assert forall|j: int| 0 <= j < second.funding.len() implies spec_funding_acceptable(
            second.plan[j],
            #[trigger] second.funding[j],
            second.params.tx_count,
            second.config.tolerance,
        ) by {
            assert(spec_funding_acceptable(
                first.plan[j],
                first.funding[j],
                first.params.tx_count,
                first.config.tolerance,
            ));
        }
    }
}

/// An action is of the kind of the move that it stands for: it asks for a
/// connection only where the move does, and then to the candidate.
pub proof fn lemma_render_kind(swap: TakerSwapView, action: TakerMove)
    ensures
        swap.render(action) is Connect <==> action == TakerMove::Connect,
        swap.render(action) is Wait <==> action == TakerMove::Wait,
        swap.render(action) is ListOffers <==> action == TakerMove::ListOffers,
        swap.render(action) is Finish <==> action == TakerMove::Finish,
        swap.render(action) is Abort <==> action == TakerMove::Abort,
        swap.render(action) matches TakerActionView::Connect { hop, address } ==> address
            == swap.offers[swap.candidate.unwrap() as int].address,
        swap.render(action) matches TakerActionView::Abort { error, funded } ==> error
            == swap.core.error.unwrap() && funded == swap.core.funded,
{
    reveal(TakerSwapView::render);
}

/// An offer counts as accepted only where the event is an offer response
/// and it is awaited, funding as prepared only where the event is prepared
/// funding and it is awaited.
pub proof fn lemma_classify_kind(swap: TakerSwapView, event: &TakerEvent)
    ensures
        swap.classify(event) == TakerInput::OfferAccepted ==> swap.core.phase
            == TakerPhase::Negotiating && event is Message && event->Message_0 is OfferResponse,
        swap.classify(event) == TakerInput::FundingPrepared ==> swap.core.phase
            == TakerPhase::Reserving && event is FundingPrepared,
        event is Start ==> swap.classify(event) == TakerInput::Start,
        swap.classify(event) == TakerInput::OffersListed <==> event is OffersListed,
{
    reveal(TakerSwapView::classify);
}

/// What an event amounts to does not depend on the ledger.
pub proof fn lemma_classify_ignores_ledger(first: TakerSwapView, second: TakerSwapView, event: &TakerEvent)
    requires
        second == (TakerSwapView { banned: second.banned, ..first }),
    ensures
        first.classify(event) == second.classify(event),
{
    reveal(TakerSwapView::classify);
}

/// Copies a list of values.
pub fn clone_values(values: &Vec<u64>) -> (copy: Vec<u64>)
    ensures
        copy@ == values@,
{
    let copy = values.clone();
    assert(copy@ =~= values@);
    copy
}

/// Whether the chain can be laid out.
pub fn plan_feasible(
    send_amount: u64,
    fees: &Vec<u64>,
    final_locktime: u32,
    locktime_step: u32,
    tx_count: u32,
) -> (feasible: bool)
    ensures
        feasible == spec_plan_feasible(send_amount, fees@, final_locktime, locktime_step, tx_count),
{
    let amounts = match build_hop_amounts(send_amount, fees) {
        Some(amounts) => amounts,
        None => {
            return false;
        },
    };
    if build_locktimes(fees.len(), final_locktime, locktime_step).is_err() {
        return false;
    }
    fees.len() == 0 || (tx_count >= 1 && tx_count as u64 <= amounts[fees.len() - 1])
}

impl TakerSwap {
    /// The attempt's invariant. It holds of every attempt that `new` made
    /// and `handle` changed.
    pub open spec fn wf(&self) -> bool {
        self@.wf()
    }

    /// A new attempt. Nothing happens before `Start` is handled. Fails
    /// where the Taker's key or secret has not its length.
    pub fn new(params: SwapParams, config: TakerConfig, ledger: BanLedger) -> (made: Result<
        TakerSwap,
        ContractError,
    >)
        requires
            ledger.wf(),
        ensures
            made is Ok <==> spec_config_valid(config@),
            made matches Err(e) ==> e == ContractError::MalformedScript,
            made matches Ok(swap) ==> {
                &&& swap.wf()
                &&& swap@.params == params
                &&& swap@.config == config@
                &&& swap@.offers.len() == 0
                &&& swap@.banned == ledger@
                &&& swap@.core == spec_initial(params.maker_count)
                &&& swap@.candidate is None
                &&& swap@.chosen.len() == 0
                &&& swap@.plan.len() == 0
                &&& swap@.funding.len() == 0
            },
    {
        if config.funder_key.len() != PUBLIC_KEY_LEN || config.secret.len() != PREIMAGE_LEN {
            return Err(ContractError::MalformedScript);
        }
        let swap = TakerSwap {
            params,
            config,
            book: OfferBook { entries: Vec::new() },
            ledger,
            core: TakerCore::new(params.maker_count),
            candidate: None,
            chosen: Vec::new(),
            fees: Vec::new(),
            keys: Vec::new(),
            plan: Vec::new(),
            funding: Vec::new(),
        };
        Ok(swap)
    }

    /// The Makers that were banned, oldest first. No address occurs twice.
    pub fn get_bad_makers(&self) -> (records: &Vec<BadMaker>)
        ensures
            records@.map_values(|r: BadMaker| r@) == self@.banned,
    {
        self.ledger.get_bad_makers()
    }

    /// What was asked for.
    pub fn params(&self) -> (params: SwapParams)
        ensures
            params == self@.params,
    {
        self.params
    }

    /// Where the attempt stands.
    pub fn state(&self) -> (state: TakerCore)
        ensures
            state == self@.core,
    {
        self.core
    }

    /// The offer book.
    pub fn book(&self) -> (book: &OfferBook)
        ensures
            book.offers() == self@.offers,
            book.tried() == self@.tried,
    {
        &self.book
    }

    /// The entry of the book of each hop's Maker.
    pub fn chosen(&self) -> (chosen: &Vec<usize>)
        ensures
            chosen@ == self@.chosen,
    {
        &self.chosen
    }

    /// The fee negotiated with each hop's Maker.
    pub fn fees(&self) -> (fees: &Vec<u64>)
        ensures
            fees@ == self@.fees,
    {
        &self.fees
    }

    /// The terms of every hop, once all Makers are chosen.
    pub fn plan(&self) -> (plan: &Vec<HopTerms>)
        ensures
            terms_view(plan) == self@.plan,
    {
        &self.plan
    }

    /// The funding of each hop that the wallet has prepared.
    pub fn funding(&self) -> (funding: &Vec<Vec<FundingCoin>>)
        ensures
            funding_view(funding) == self@.funding,
    {
        &self.funding
    }

    /// Ends the attempt and hands out the ledger, for the next attempt.
    pub fn into_ledger(self) -> (ledger: BanLedger)
        ensures
            ledger@ == self@.banned,
            self.wf() ==> ledger.wf(),
    {
        self.ledger
    }

    /// Whether the candidate's answer to the offer request is accepted.
    fn offer_accepted(&self, terms: &OfferTerms) -> (accepted: bool)
        requires
            self.wf(),
            self@.selecting(),
        ensures
            accepted == self@.offer_accepted(terms@),
    {
        let candidate: usize = match self.candidate {
            Some(c) => c,
            None => {
                return false;
            },
        };
        assert(self.book.offers()[candidate as int] == self.book.entries@[candidate as int].offer@);
        let listed = self.book.entries[candidate].offer.terms.quote(self.params.send_amount);
        let asked = terms.quote(self.params.send_amount);
        match (listed, asked) {
            (Some(listed_fee), Some(asked_fee)) => asked_fee <= listed_fee
                && terms.fidelity.public_key.len() == PUBLIC_KEY_LEN,
            _ => false,
        }
    }

    /// What an event amounts to for the decision.
    pub fn classify(&self, event: &TakerEvent) -> (input: TakerInput)
        requires
            self.wf(),
        ensures
            input == self@.classify(event),
    {
        reveal(TakerSwapView::classify);
        let hop: usize = self.core.hop;
        match event {
            TakerEvent::Start => TakerInput::Start,
            TakerEvent::OffersListed { offers } => TakerInput::OffersListed,
            TakerEvent::DirectoryUnreachable => TakerInput::DirectoryFailed,
            TakerEvent::Connected => TakerInput::Connected,
            TakerEvent::ConnectFailed => TakerInput::ConnectFailed,
            TakerEvent::Unreadable => TakerInput::Unexpected,
            TakerEvent::Timeout => TakerInput::Timeout,
            TakerEvent::Disconnected => TakerInput::Disconnected,
            TakerEvent::FundsInsufficient => TakerInput::FundingUnavailable,
            TakerEvent::FundingBroadcast => TakerInput::FundingBroadcast,
            TakerEvent::BroadcastRejected => TakerInput::BroadcastRejected,
            TakerEvent::Confirmed => TakerInput::Confirmed,
            TakerEvent::ConfirmationTimeout => TakerInput::ConfirmationTimeout,
            TakerEvent::Redeemed => TakerInput::Redeemed,
            TakerEvent::FundingPrepared { coins } => {
                if self.core.phase == TakerPhase::Reserving {
                    assert(terms_view(&self.plan)[hop as int] == self.plan@[hop as int]@);
                    if funding_acceptable(
                        &self.plan[hop],
                        coins,
                        self.params.tx_count,
                        self.config.tolerance,
                    ) {
                        return TakerInput::FundingPrepared;
                    }
                }
                TakerInput::FundingUnavailable
            },
            TakerEvent::Message(message) => match message {
                MakerMessage::Ack => TakerInput::Ack,
                MakerMessage::Error { reason } => TakerInput::PeerError,
                MakerMessage::OfferResponse { terms } => {
                    if self.core.phase != TakerPhase::Negotiating {
                        return TakerInput::Unexpected;
                    }
                    if !self.offer_accepted(terms) {
                        return TakerInput::OfferRejected;
                    }
                    if hop + 1 == self.core.hops {
                        let fee: u64 = match terms.quote(self.params.send_amount) {
                            Some(fee) => fee,
                            None => {
                                return TakerInput::OfferRejected;
                            },
                        };
                        let mut fees = clone_values(&self.fees);
                        fees.push(fee);
                        if !plan_feasible(
                            self.params.send_amount,
                            &fees,
                            self.config.final_locktime,
                            self.config.locktime_step,
                            self.params.tx_count,
                        ) {
                            return TakerInput::PlanFailed;
                        }
                    }
                    TakerInput::OfferAccepted
                },
                MakerMessage::ContractSetupResponse { refund_signatures } => {
                    if self.core.phase != TakerPhase::AwaitRefundSigs {
                        return TakerInput::Unexpected;
                    }
                    if self.judge_signatures(ContractKind::Refund, refund_signatures) {
                        TakerInput::RefundSigsValid
                    } else {
                        TakerInput::RefundSigsInvalid
                    }
                },
                MakerMessage::RedeemSignatures { signatures } => {
                    if self.core.phase != TakerPhase::AwaitRedeemSigs {
                        return TakerInput::Unexpected;
                    }
                    if self.judge_signatures(ContractKind::Hashlock, signatures) {
                        TakerInput::RedeemSigsValid
                    } else {
                        TakerInput::RedeemSigsInvalid
                    }
                },
            },
        }
    }

    /// Checks the signatures that the current hop's Maker sent for the
    /// hop's contract transactions of the given kind.
    fn judge_signatures(&self, kind: ContractKind, signatures: &Vec<Vec<u8>>) -> (valid: bool)
        requires
            self.wf(),
            self.core.phase == TakerPhase::AwaitRefundSigs || self.core.phase
                == TakerPhase::AwaitRedeemSigs,
        ensures
            valid == self@.signatures_valid(kind, strings_view(signatures)),
    {
        let hop: usize = self.core.hop;
        assert(terms_view(&self.plan)[hop as int] == self.plan@[hop as int]@);
        assert(funding_view(&self.funding)[hop as int] == coins_view(&self.funding@[hop as int]));
        assert(strings_view(&self.keys)[hop as int] == self.keys@[hop as int]@);
        self.plan[hop].verify_contracts(kind, &self.funding[hop], &self.keys[hop], signatures).is_ok()
    }

    /// Builds the action that a move stands for.
    fn render(&self, action: TakerMove) -> (built: TakerAction)
        requires
            self@.render_ready(action),
        ensures
            built@ == self@.render(action),
    {
        reveal(TakerSwapView::render);
        let hop: usize = self.core.hop;
        match action {
            TakerMove::Wait => TakerAction::Wait,
            TakerMove::ListOffers => TakerAction::ListOffers,
            TakerMove::Connect => {
                let candidate: usize = self.candidate.unwrap();
                assert(self.book.offers()[candidate as int]
                    == self.book.entries@[candidate as int].offer@);
                TakerAction::Connect {
                    hop,
                    address: self.book.entries[candidate].offer.address.clone(),
                }
            },
            TakerMove::SendHello => TakerAction::Send {
                hop,
                message: TakerMessage::Hello { version: PROTOCOL_VERSION },
            },
            TakerMove::SendOfferRequest => TakerAction::Send {
                hop,
                message: TakerMessage::OfferRequest,
            },
            TakerMove::PrepareFunding => {
                assert(terms_view(&self.plan)[hop as int] == self.plan@[hop as int]@);
                let outputs = match self.plan[hop].funding_outputs(self.params.tx_count) {
                    Ok(outputs) => outputs,
                    Err(e) => Vec::new(),
                };
                TakerAction::PrepareFunding { hop, outputs }
            },
            TakerMove::SendSetupRequest => {
                assert(terms_view(&self.plan)[hop as int] == self.plan@[hop as int]@);
                assert(funding_view(&self.funding)[hop as int] == coins_view(
                    &self.funding@[hop as int],
                ));
                TakerAction::Send {
                    hop,
                    message: TakerMessage::ContractSetupRequest {
                        terms: self.plan[hop].clone(),
                        coins: clone_coins(&self.funding[hop]),
                    },
                }
            },
            TakerMove::BroadcastFunding => TakerAction::BroadcastFunding { hop },
            TakerMove::SendFundingProof => {
                assert(funding_view(&self.funding)[hop as int] == coins_view(
                    &self.funding@[hop as int],
                ));
                let txids = funding_txids(&self.funding[hop]);
                proof {
                    let coins = coins_view(&self.funding@[hop as int]);
                    assert(strings_view(&txids) =~= coins.map_values(
                        |c: FundingCoinView| c.outpoint.txid,
                    ));
                }
                TakerAction::Send { hop, message: TakerMessage::FundingProof { txids } }
            },
            TakerMove::AwaitConfirmations => TakerAction::AwaitConfirmations {
                hop,
                required_confirms: self.params.required_confirms,
            },
            TakerMove::SendPreimage => TakerAction::Send {
                hop,
                message: TakerMessage::PreimageReveal { secret: clone_bytes(&self.config.secret) },
            },
            TakerMove::SendAck => TakerAction::Send { hop, message: TakerMessage::Ack },
            TakerMove::Redeem => TakerAction::Redeem { hop },
            TakerMove::Finish => TakerAction::Finish,
            TakerMove::Abort => TakerAction::Abort {
                error: self.core.error.unwrap(),
                funded: self.core.funded,
            },
        }
    }

    /// Adds the Maker that the attempt is dealing with to the ledger, where
    /// the decision bans it.
    fn record_ban(&mut self, ban: Option<BanReason>)
        requires
            old(self).wf(),
            ban is Some ==> old(self)@.selecting() || old(self)@.working(),
            ban is Some ==> old(self).core.phase != TakerPhase::Completed,
        ensures
            final(self).ledger.wf(),
            final(self).ledger@ == spec_ledger_after(
                old(self).ledger@,
                old(self)@.current_address(),
                ban,
            ),
            ban is Some ==> occurrences(final(self).ledger@, old(self)@.current_address()) == 1,
            final(self).params == old(self).params,
            final(self).config == old(self).config,
            final(self).book == old(self).book,
            final(self).core == old(self).core,
            final(self).candidate == old(self).candidate,
            final(self).chosen == old(self).chosen,
            final(self).fees == old(self).fees,
            final(self).keys == old(self).keys,
            final(self).plan == old(self).plan,
            final(self).funding == old(self).funding,
    {
        match ban {
            Some(reason) => {
                let entry: usize = match self.core.phase {
                    TakerPhase::Connecting | TakerPhase::Greeting | TakerPhase::Negotiating => {
                        self.candidate.unwrap()
                    },
                    _ => self.chosen[self.core.hop],
                };
                assert(self.book.offers()[entry as int] == self.book.entries@[entry as int].offer@);
                self.ledger.record(self.book.entries[entry].offer.address.as_str(), reason);
            },
            None => {},
        }
    }

    /// Keeps what an accepted offer or prepared funding brings: the hop's
    /// Maker, fee and key, and the plan once the last Maker is chosen; or
    /// the hop's funding.
    fn keep(&mut self, event: TakerEvent, input: TakerInput)
        requires
            old(self).core.hops == old(self).params.maker_count,
            well_formed(old(self).core),
            spec_config_valid(old(self)@.config),
            old(self)@.data_wf(),
            old(self)@.phase_wf(),
            input == old(self)@.classify(&event),
        ensures
            final(self)@.data_wf(),
            final(self).params == old(self).params,
            final(self).config == old(self).config,
            final(self)@.offers == old(self)@.offers_after(&event),
            final(self)@.tried == old(self)@.tried_after(&event),
            final(self).ledger == old(self).ledger,
            final(self).core == old(self).core,
            final(self).candidate == old(self).candidate,
            input == TakerInput::OfferAccepted ==> (event matches TakerEvent::Message(
                MakerMessage::OfferResponse { terms },
            ) && final(self)@.fees == old(self)@.fees.push(
                terms@.fees.spec_fee(old(self).params.send_amount) as u64,
            ) && final(self)@.keys == old(self)@.keys.push(terms@.fidelity.public_key)
                && final(self)@.chosen == old(self)@.chosen.push(old(self).candidate.unwrap())),
            input == TakerInput::OfferAccepted && old(self).core.hop + 1 == old(self).core.hops
                ==> final(self)@.planned(),
            input != TakerInput::OfferAccepted ==> final(self).fees == old(self).fees,
            input != TakerInput::OfferAccepted ==> final(self).keys == old(self).keys,
            input != TakerInput::OfferAccepted ==> final(self).chosen == old(self).chosen,
            !(input == TakerInput::OfferAccepted && old(self).core.hop + 1 == old(self).core.hops)
                ==> final(self).plan == old(self).plan,
            input == TakerInput::FundingPrepared ==> (event matches TakerEvent::FundingPrepared {
                coins,
            } && final(self)@.funding == old(self)@.funding.push(coins_view(&coins))),
            input != TakerInput::FundingPrepared ==> final(self).funding == old(self).funding,
            final(self)@.funding.len() == old(self)@.funding.len() + if input
                == TakerInput::FundingPrepared {
                1int
            } else {
                0int
            },
    {
        reveal(TakerSwapView::classify);
        let send_amount: u64 = self.params.send_amount;
        match event {
            TakerEvent::Message(MakerMessage::OfferResponse { terms }) => {
                if input == TakerInput::OfferAccepted {
                    let fee: u64 = terms.quote(send_amount).unwrap();
                    let ghost keys_before = strings_view(&self.keys);
                    self.chosen.push(self.candidate.unwrap());
                    self.fees.push(fee);
                    self.keys.push(terms.fidelity.public_key);
                    proof {
                        assert(strings_view(&self.keys) =~= keys_before.push(
                            terms@.fidelity.public_key,
                        ));
                    }
                    if self.core.hop + 1 == self.core.hops {
                        self.plan = build_plan(
                            send_amount,
                            &self.fees,
                            &self.keys,
                            &self.config,
                            self.params.tx_count,
                        ).unwrap();
                    }
                }
            },
            TakerEvent::OffersListed { offers } => {
                if self.core.phase == TakerPhase::Listing {
                    self.book = OfferBook::refresh(&offers, &self.ledger);
                    proof {
                        assert(self.book.tried() =~= Seq::new(
                            self.book.offers().len(),
                            |i: int| false,
                        ));
                    }
                }
            },
            TakerEvent::FundingPrepared { coins } => {
                if input == TakerInput::FundingPrepared {
                    let ghost funding_before = funding_view(&self.funding);
                    let ghost added = coins_view(&coins);
                    self.funding.push(coins);
                    proof {
                        let after = funding_view(&self.funding);
                        assert(after =~= funding_before.push(added));
                        assert forall|j: int| 0 <= j < self.funding@.len() implies spec_funding_acceptable(
                            terms_view(&self.plan)[j],
                            #[trigger] after[j],
                            self.params.tx_count,
                            self.config.tolerance,
                        ) by {
                            if j < funding_before.len() {
                                assert(after[j] == funding_before[j]);
                            }
                        }
                    }
                }
            },
            _ => {},
        }
    }

    /// Records the ban that the input leads to.
    fn note_ban(&mut self, input: TakerInput)
        requires
            old(self).wf(),
        ensures
            final(self).ledger.wf(),
            final(self).ledger@ == spec_ledger_after(
                old(self).ledger@,
                old(self)@.current_address(),
                spec_step(old(self).core, input, false).ban,
            ),
            spec_step(old(self).core, input, false).ban is Some ==> occurrences(
                final(self).ledger@,
                old(self)@.current_address(),
            ) == 1,
            final(self).params == old(self).params,
            final(self).config == old(self).config,
            final(self).book == old(self).book,
            final(self).core == old(self).core,
            final(self).candidate == old(self).candidate,
            final(self).chosen == old(self).chosen,
            final(self).fees == old(self).fees,
            final(self).keys == old(self).keys,
            final(self).plan == old(self).plan,
            final(self).funding == old(self).funding,
    {
        let ban = step(self.core, input, false).ban;
        proof {
            lemma_step_shape(self.core, input, false);
        }
        self.record_ban(ban);
    }

    /// Looks for the next candidate among the Makers that are not banned,
    /// and decides.
    fn pick(&self, input: TakerInput) -> (chosen: (crate::taker_core::TakerStep, Option<usize>))
        requires
            well_formed(self.core),
        ensures
            chosen.0 == spec_step(
                self.core,
                input,
                spec_has_candidate(
                    self@.offers,
                    self@.tried,
                    record_addresses(self@.banned),
                    self.params.send_amount,
                ),
            ),
            chosen.0.ban == spec_step(self.core, input, false).ban,
            chosen.1 matches Some(c) ==> c < self@.offers.len() && spec_is_choice(
                self@.offers,
                self@.tried,
                record_addresses(self@.banned),
                self.params.send_amount,
                self.config.tie_break,
                c as int,
            ),
            chosen.0.action == TakerMove::Connect ==> chosen.1 is Some,
    {
        let next_candidate = self.book.cheapest(
            self.params.send_amount,
            self.config.tie_break,
            &self.ledger,
        );
        let more: bool = next_candidate.is_some();
        let decided = step(self.core, input, more);
        proof {
            lemma_ban_regardless_of_candidates(self.core, input);
            lemma_step_shape(self.core, input, more);
        }
        (decided, next_candidate)
    }

    /// Moves the attempt on as decided: to the next state, and to the next
    /// candidate where a connection is asked for.
    fn advance(&mut self, decided: crate::taker_core::TakerStep, next_candidate: Option<usize>)
        requires
            decided.action == TakerMove::Connect ==> next_candidate is Some,
        ensures
            final(self)@ == spec_advanced(old(self)@, decided, next_candidate),
    {
        match decided.action {
            TakerMove::Connect => {
                let candidate: usize = next_candidate.unwrap();
                self.candidate = Some(candidate);
                self.book.mark_tried(candidate);
            },
            _ => {},
        }
        self.core = decided.next;
    }

    /// Takes one event: decides, bans the Maker where the decision says so,
    /// keeps what was agreed, and builds the next action.
    ///
    /// The decision is that of `taker_core::spec_step` on what the event
    /// amounts to. A Maker that is banned is added to the ledger unless the
    /// ledger holds it, so that it occurs there exactly once. The listing
    /// of the Directory becomes the offer book, without the Makers that are
    /// banned. The next candidate, where one is asked for, is the cheapest
    /// offer of the book that was not tried, whose Maker is not banned, and
    /// that covers the swap.
    pub fn handle(&mut self, event: TakerEvent) -> (action: TakerAction)
        requires
            old(self).wf(),
        ensures
            final(self).wf(),
            final(self)@.params == old(self)@.params,
            final(self)@.config == old(self)@.config,
            final(self)@.offers == old(self)@.offers_after(&event),
            final(self)@.core == old(self)@.decide(&event).next,
            action@ == final(self)@.render(old(self)@.decide(&event).action),
            final(self)@.banned == old(self)@.banned_after(&event),
            old(self)@.decide(&event).ban == old(self)@.ban(&event),
            action@ matches TakerActionView::Connect { hop, address } ==> !record_addresses(
                final(self)@.banned,
            ).contains(address),
            old(self)@.decide(&event).ban is Some ==> occurrences(
                final(self)@.banned,
                old(self)@.current_address(),
            ) == 1,
            ({
                let input = old(self)@.classify(&event);
                let decided = old(self)@.decide(&event);
                &&& decided.action == TakerMove::Connect ==> final(self)@.candidate is Some
                    && spec_is_choice(
                    old(self)@.offers_after(&event),
                    old(self)@.tried_after(&event),
                    record_addresses(final(self)@.banned),
                    old(self)@.params.send_amount,
                    old(self)@.config.tie_break,
                    final(self)@.candidate.unwrap() as int,
                ) && final(self)@.tried == old(self)@.tried_after(&event).update(
                    final(self)@.candidate.unwrap() as int,
                    true,
                )
                &&& decided.action != TakerMove::Connect ==> final(self)@.candidate == old(self)@.candidate
                &&& decided.action != TakerMove::Connect ==> final(self)@.tried == old(self)@.tried_after(&event)
                &&& input == TakerInput::OfferAccepted ==> (event matches TakerEvent::Message(
                    MakerMessage::OfferResponse { terms },
                ) && final(self)@.fees == old(self)@.fees.push(
                    terms@.fees.spec_fee(old(self)@.params.send_amount) as u64,
                ) && final(self)@.keys == old(self)@.keys.push(terms@.fidelity.public_key)
                    && final(self)@.chosen == old(self)@.chosen.push(
                    old(self)@.candidate.unwrap(),
                ))
                &&& input != TakerInput::OfferAccepted ==> final(self)@.fees == old(self)@.fees
                    && final(self)@.keys == old(self)@.keys && final(self)@.chosen == old(self)@.chosen
                &&& if input == TakerInput::OfferAccepted && old(self)@.core.hop + 1 == old(self)@.core.hops {
                    final(self)@.planned()
                } else {
                    final(self)@.plan == old(self)@.plan
                }
                &&& input == TakerInput::FundingPrepared ==> (event matches TakerEvent::FundingPrepared {
                    coins,
                } && final(self)@.funding == old(self)@.funding.push(coins_view(&coins)))
                &&& input != TakerInput::FundingPrepared ==> final(self)@.funding == old(self)@.funding
            }),
    {
        let ghost before = self@;
        let input = self.classify(&event);
        proof {
            lemma_classify_kind(before, &event);
        }
        self.note_ban(input);
        proof {
            lemma_classify_ignores_ledger(before, self@, &event);
            lemma_step_shape(before.core, input, false);
        }
        self.keep(event, input);
        let ghost kept = self@;
        let (decided, next_candidate) = self.pick(input);
        self.advance(decided, next_candidate);
        proof {
            lemma_advance_keeps_wf(
                before,
                kept,
                self@,
                input,
                spec_has_candidate(
                    kept.offers,
                    kept.tried,
                    record_addresses(kept.banned),
                    before.params.send_amount,
                ),
                next_candidate,
            );
            lemma_render_kind(self@, decided.action);
        }
        self.render(decided.action)
    }
}

/// What carries out the Taker's actions: the transport, the wallet and the
/// network. Nothing is assumed of it.
pub trait Environment {
    /// Carries out the action and reports what came of it.
    fn perform(&mut self, action: TakerAction) -> TakerEvent;
}

/// How a swap attempt ended.
#[derive(Clone, Copy, Debug, PartialEq, Eq, Structural)]
pub enum SwapOutcome {
    /// Every hop is settled.
    Completed,
    /// The attempt was given up before the preimage was revealed.
    Aborted(TakerError),
    /// The environment reported what does not belong where the attempt
    /// stands. The attempt is left as it stands.
    Interrupted,
}

impl TakerSwap {
    /// Attempts the swap: starts it, has each action carried out and takes
    /// what came of it, until the swap is complete or given up.
    ///
    /// An attempt without a hop is given up at once, and an attempt that
    /// was started before is left untouched; neither asks anything of the
    /// environment. Otherwise the environment decides. Whatever it reports,
    /// the attempt comes to an end, the ledger only grows, and the funds
    /// are safe where it ends: after success every hop is settled, after
    /// failure the preimage was never revealed and every funded hop can be
    /// refunded. An attempt that is interrupted has begun and has not
    /// ended.
    pub fn do_coinswap<E: Environment>(&mut self, environment: &mut E) -> (outcome: SwapOutcome)
        requires
            old(self).wf(),
        ensures
            final(self).wf(),
            final(self)@.params == old(self)@.params,
            final(self)@.config == old(self)@.config,
            funds_safe(final(self)@.core),
            old(self)@.banned.is_prefix_of(final(self)@.banned),
            old(self)@.core.phase != TakerPhase::Idle ==> outcome == SwapOutcome::Interrupted
                && final(self)@ == old(self)@,
            old(self)@.core.phase == TakerPhase::Idle && old(self)@.params.maker_count == 0
                ==> outcome == SwapOutcome::Aborted(TakerError::NegotiationRejected)
                && final(self)@.core == spec_abort(
                old(self)@.core,
                TakerError::NegotiationRejected,
                None,
            ).next,
            old(self)@.core.phase == TakerPhase::Idle ==> final(self)@.core.phase
                != TakerPhase::Idle,
            match outcome {
                SwapOutcome::Completed => final(self)@.core.phase == TakerPhase::Completed
                    && final(self)@.core.settled == final(self)@.params.maker_count,
                SwapOutcome::Aborted(error) => final(self)@.core.phase == TakerPhase::Aborted
                    && final(self)@.core.error == Some(error) && final(self)@.core.revealed == 0,
                SwapOutcome::Interrupted => old(self)@.core.phase == TakerPhase::Idle ==> {
                    &&& old(self)@.params.maker_count >= 1
                    &&& final(self)@.core.phase != TakerPhase::Completed
                    &&& final(self)@.core.phase != TakerPhase::Aborted
                },
            },
    {
        let mut event = TakerEvent::Start;
        let ghost mut first = true;
        loop
            invariant
                self.wf(),
                self@.params == old(self)@.params,
                self@.config == old(self)@.config,
                old(self)@.banned.is_prefix_of(self@.banned),
                first ==> event is Start && self@ == old(self)@,
                !first ==> old(self)@.core.phase == TakerPhase::Idle && old(self)@.params.maker_count >= 1 && self@.core.phase != TakerPhase::Idle
                    && self@.core.phase != TakerPhase::Completed && self@.core.phase
                    != TakerPhase::Aborted,
            decreases
                    if spec_before_selection(self@.core) {
                        1nat
                    } else {
                        0nat
                    },
                    untried_count(self@.tried),
                    spec_distance(self@.core),
        {
            let ghost before = self@;
            let ghost decided = before.decide(&event);
            proof {
                lemma_classify_kind(before, &event);
                lemma_step_progress(
                    before.core,
                    before.classify(&event),
                    before.more_candidates(&event),
                );
                if first {
                    lemma_start(before.core, before.more_candidates(&event));
                    lemma_start(before.core, false);
                }
            }
            let action = self.handle(event);
            proof {
                lemma_render_kind(self@, decided.action);
                if first && before.core.phase != TakerPhase::Idle {
                    assert(self@.banned == before.banned);
                    assert(self@.offers == before.offers);
                    assert(self@.tried == before.tried);
                    assert(self@ == before);
                }
                assert(before.banned.is_prefix_of(self@.banned));
                if decided.action == TakerMove::Connect {
                    lemma_trying_leaves_fewer(
                        before.tried_after(&event),
                        self@.candidate.unwrap() as int,
                    );
                }
                if decided.action != TakerMove::Wait && decided.action != TakerMove::Abort
                    && decided.action != TakerMove::Finish {
                    if spec_before_selection(before.core) {
                        if spec_before_selection(self@.core) {
                            assert(before.core.phase == TakerPhase::Idle);
                            assert(!before.listing(&event));
                            assert(self@.tried == before.tried);
                            assert(spec_distance(self@.core) < spec_distance(before.core));
                        }
                    } else {
                        assert(!spec_before_selection(self@.core));
                        assert(!before.listing(&event));
                        if decided.action == TakerMove::Connect {
                            assert(untried_count(self@.tried) < untried_count(before.tried));
                        } else {
                            assert(self@.tried == before.tried);
                            assert(spec_distance(self@.core) < spec_distance(before.core));
                        }
                    }
                }
            }
            match action {
                TakerAction::Wait => {
                    return SwapOutcome::Interrupted;
                },
                TakerAction::Finish => {
                    let _ = environment.perform(TakerAction::Finish);
                    return SwapOutcome::Completed;
                },
                TakerAction::Abort { error, funded } => {
                    let _ = environment.perform(TakerAction::Abort { error, funded });
                    return SwapOutcome::Aborted(error);
                },
                other => {
                    event = environment.perform(other);
                },
            }
            proof {
                first = false;
            }
        }
    }
}

/// The refund locktimes that a plan gives to its hops, first hop first.
pub open spec fn plan_locktimes(plan: Seq<HopTermsView>) -> Seq<u32> {
    plan.map_values(|t: HopTermsView| t.locktime)
}

/// In a chain that can be laid out, every hop's refund opens strictly
/// before that of every hop in front of it.
pub proof fn lemma_chain_locktimes_decrease(
    hops: int,
    final_locktime: u32,
    locktime_step: u32,
    earlier: int,
    later: int,
)
    requires
        hops <= 1 || (locktime_step >= 1 && hop_locktime(hops, final_locktime, locktime_step, 0)
            <= u32::MAX),
        0 <= earlier < later < hops,
    ensures
        hop_locktime(hops, final_locktime, locktime_step, earlier) > hop_locktime(
            hops,
            final_locktime,
            locktime_step,
            later,
        ),
        hop_locktime(hops, final_locktime, locktime_step, earlier) <= u32::MAX,
        hop_locktime(hops, final_locktime, locktime_step, later) >= final_locktime,
{
    assert(locktime_step * (hops - 1 - earlier) > locktime_step * (hops - 1 - later))
        by (nonlinear_arith)
        requires
            locktime_step >= 1,
            earlier < later,
    ;
    assert(locktime_step * (hops - 1 - earlier) <= locktime_step * (hops - 1 - 0))
        by (nonlinear_arith)
        requires
            locktime_step >= 1,
            earlier >= 0,
    ;
    assert(locktime_step * (hops - 1 - later) >= 0) by (nonlinear_arith)
        requires
            locktime_step >= 1,
            later < hops,
    ;
}

/// Once the chain of a swap is laid out, its locktimes are strictly
/// decreasing from the first hop to the last.
pub proof fn lemma_locktimes_strictly_decreasing(swap: TakerSwapView)
    requires
        swap.planned(),
    ensures
        strictly_decreasing(plan_locktimes(swap.plan)),
        forall|i: int, j: int|
            0 <= i < j < swap.plan.len() ==> swap.plan[i].locktime > swap.plan[j].locktime,
{
    let plan = swap.plan;
    let hops = plan.len() as int;
    assert forall|i: int, j: int| 0 <= i < j < hops implies plan[i].locktime
        > plan[j].locktime by {
        assert(plan[i] == swap.hop_terms(i));
        assert(plan[j] == swap.hop_terms(j));
        lemma_chain_locktimes_decrease(
            hops,
            swap.config.final_locktime,
            swap.config.locktime_step,
            i,
            j,
        );
        lemma_chain_locktimes_decrease(
            hops,
            swap.config.final_locktime,
            swap.config.locktime_step,
            0,
            j,
        );
    }
    assert forall|k: int| 0 <= k < plan_locktimes(plan).len() - 1 implies #[trigger] plan_locktimes(
        plan,
    )[k] > plan_locktimes(plan)[k + 1] by {
        assert(plan[k].locktime > plan[k + 1].locktime);
    }
}

/// In a completed swap, the funding of every hop holds, within the
/// tolerance, the send amount plus the fees negotiated for this hop and
/// every hop after it; the first hop's funding, the send amount plus all
/// negotiated fees.
pub proof fn lemma_completed_funding_matches(swap: TakerSwapView, hop: int)
    requires
        swap.wf(),
        swap.core.phase == TakerPhase::Completed,
        0 <= hop < swap.params.maker_count,
    ensures
        swap.funding.len() == swap.params.maker_count,
        swap.fees.len() == swap.params.maker_count,
        hop_amount(swap.params.send_amount, swap.fees, hop) == swap.params.send_amount
            + crate::amounts::fee_sum(swap.fees, hop),
        hop_amount(swap.params.send_amount, swap.fees, hop) <= u64::MAX,
        spec_coins_match(
            swap.funding[hop],
            hop_amount(swap.params.send_amount, swap.fees, hop) as u64,
            swap.config.tolerance,
        ),
{
    crate::amounts::lemma_fee_sum_monotone(swap.fees, 0, hop);
    assert(swap.plan[hop] == swap.hop_terms(hop));
    assert(spec_funding_acceptable(
        swap.plan[hop],
        swap.funding[hop],
        swap.params.tx_count,
        swap.config.tolerance,
    ));
}

/// Where an attempt has ended, the Taker's funds are safe: after success
/// every hop is settled; after failure the preimage was never revealed and
/// every hop that was funded has verified refund signatures, so that its
/// refund can be claimed after the locktime.
pub proof fn lemma_funds_never_lost(swap: TakerSwapView)
    requires
        swap.wf(),
    ensures
        funds_safe(swap.core),
        swap.core.phase == TakerPhase::Aborted ==> swap.core.error is Some,
        swap.core.phase == TakerPhase::Completed ==> swap.funding.len() == swap.core.hops,
{
}

/// The preimage leaves the Taker only when every hop's refund signatures
/// have been verified; and a hop counts as signed only when its Maker's
/// refund signatures arrive and verify, one for the refund transaction of
/// each of the hop's funding outputs, under the Maker's key.
pub proof fn lemma_reveal_only_when_every_hop_is_signed(swap: TakerSwapView, event: &TakerEvent)
    requires
        swap.wf(),
    ensures
        ({
            let decided = swap.decide(event);
            &&& swap.render(decided.action) matches TakerActionView::Send {
                hop,
                message: TakerMessageView::PreimageReveal { secret },
            } ==> swap.core.signed == swap.params.maker_count && swap.core.funded
                == swap.params.maker_count
            &&& decided.next.signed != swap.core.signed ==> decided.next.signed == swap.core.signed
                + 1 && (event matches TakerEvent::Message(
                MakerMessage::ContractSetupResponse { refund_signatures },
            ) && swap.signatures_valid(ContractKind::Refund, strings_view(refund_signatures)))
        }),
{
    reveal(TakerSwapView::classify);
    reveal(TakerSwapView::render);
    lemma_reveal_from_well_formed(swap.core, swap.classify(event), swap.more_candidates(event));
}

/// Signatures that verify for the terms and the funding of the current hop
/// under the key that the terms name for the Maker are the signatures that
/// the Taker accepts for the hop.
pub proof fn lemma_makers_signatures_are_accepted(
    swap: TakerSwapView,
    terms: HopTermsView,
    coins: Seq<FundingCoinView>,
    kind: ContractKind,
    signatures: Seq<Seq<u8>>,
)
    requires
        swap.planned(),
        swap.core.hop < swap.plan.len(),
        swap.core.hop < swap.funding.len(),
        swap.plan[swap.core.hop as int] == terms,
        swap.funding[swap.core.hop as int] == coins,
        contract_signatures_valid(terms, kind, coins, terms.receiver_key, signatures),
    ensures
        swap.signatures_valid(kind, signatures),
{
    assert(swap.plan[swap.core.hop as int] == swap.hop_terms(swap.core.hop as int));
}

/// Every hop of a swap is locked by the hash of the one secret, so that the
/// one preimage that the Taker reveals opens them all.
pub proof fn lemma_one_hash_for_all_hops(swap: TakerSwapView, first: int, second: int)
    requires
        swap.planned(),
        spec_config_valid(swap.config),
        0 <= first < swap.plan.len(),
        0 <= second < swap.plan.len(),
    ensures
        swap.plan[first].hash_value == swap.plan[second].hash_value,
        swap.plan[first].hash_value == spec_hash160(swap.config.secret),
        crate::maker::spec_preimage_valid(swap.plan[first].hash_value, swap.config.secret),
{
    assert(swap.plan[first] == swap.hop_terms(first));
    assert(swap.plan[second] == swap.hop_terms(second));
}

} // verus!
