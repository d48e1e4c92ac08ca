//! The Maker's side of one connection: each message is checked against the
//! Maker's own terms and the contract agreed so far, the decision is taken,
//! and the reply is built.

use vstd::prelude::*;
use crate::bytes::bytes_equal;
use crate::contract::{
    clone_coins, coins_match, coins_view, contract_signatures_valid, contracts_buildable, names_funding, spec_coins_match,
    spec_names_funding, spec_signatures, strings_view, ContractKind, FundingCoin, FundingCoinView,
    HopTerms, HopTermsView,
};
use crate::crypto::{hash160, public_key, spec_hash160, spec_public_key, SIGNATURE_LEN};
use crate::maker_core::{spec_step, step, MakerBehavior, MakerInput, MakerPhase, MakerReply};
use crate::messages::{
    MakerMessage, MakerMessageView, TakerMessage, PREIMAGE_LEN, PROTOCOL_VERSION,
};
use crate::offer::{OfferTerms, OfferTermsView};

verus! {

/// What a Maker is set up with.
#[derive(Debug)]
pub struct MakerConfig {
    /// What the Maker advertises. The fidelity proof names its public key.
    pub offer: OfferTerms,
    /// The key that the Maker signs contracts with.
    pub secret_key: Vec<u8>,
    /// The lowest refund locktime that the Maker accepts.
    pub min_locktime: u32,
    /// How far a hop's funding may differ from the hop's amount.
    pub tolerance: u64,
}

/// What a `MakerConfig` holds.
pub struct MakerConfigView {
    pub offer: OfferTermsView,
    pub secret_key: Seq<u8>,
    pub min_locktime: u32,
    pub tolerance: u64,
}

impl View for MakerConfig {
    type V = MakerConfigView;

    open spec fn view(&self) -> MakerConfigView {
        MakerConfigView {
            offer: self.offer@,
            secret_key: self.secret_key@,
            min_locktime: self.min_locktime,
            tolerance: self.tolerance,
        }
    }
}

/// What happens on a connection.
#[derive(Debug)]
pub enum MakerEvent {
    Message(TakerMessage),
    /// The Taker sent bytes that are no message.
    Unreadable,
    /// The wallet reports that the funding has its confirmations.
    FundingConfirmed,
    /// Nothing arrived in time.
    Timeout,
    /// The Taker closed the connection.
    Disconnected,
}

/// What the Maker does in answer.
#[derive(Debug)]
pub struct MakerAction {
    /// The message to send, if any.
    pub reply: Option<MakerMessage>,
    /// Whether to close the connection after sending.
    pub close: bool,
}

/// The Maker's side of one connection.
#[derive(Debug)]
pub struct MakerConnection {
    pub config: MakerConfig,
    pub behavior: MakerBehavior,
    pub phase: MakerPhase,
    /// The terms of the hop, once agreed.
    pub terms: Option<HopTerms>,
    /// The funding outputs of the hop, once agreed.
    pub coins: Vec<FundingCoin>,
}

/// Whether the Maker accepts the terms and the funding of a hop: the hop
/// pays to the Maker's key, its size lies within the Maker's bounds, its
/// refund does not open too early, the funding holds the hop's amount, and
/// both contract transactions can be built for every funding output.
pub open spec fn spec_setup_acceptable(config: MakerConfigView, terms: HopTermsView, coins: Seq<FundingCoinView>) -> bool {
    &&& spec_public_key(config.secret_key) == Some(terms.receiver_key)
    &&& config.offer.min_size <= terms.amount <= config.offer.max_size
    &&& terms.locktime >= config.min_locktime
    &&& coins.len() >= 1
    &&& spec_coins_match(coins, terms.amount, config.tolerance)
    &&& contracts_buildable(terms, ContractKind::Refund, coins)
    &&& contracts_buildable(terms, ContractKind::Hashlock, coins)
}

/// Whether the bytes are the swap's secret: of the right length, and hashing
/// to the agreed value.
pub open spec fn spec_preimage_valid(hash_value: Seq<u8>, secret: Seq<u8>) -> bool {
    secret.len() == PREIMAGE_LEN && spec_hash160(secret) == hash_value
}

/// Whether the bytes are the swap's secret.
pub fn preimage_valid(hash_value: &Vec<u8>, secret: &Vec<u8>) -> (valid: bool)
    ensures
        valid == spec_preimage_valid(hash_value@, secret@),
{
    if secret.len() != PREIMAGE_LEN {
        return false;
    }
    let digest = hash160(secret.as_slice());
    bytes_equal(&digest, hash_value)
}

/// Signatures that do not verify: one string of zeros for each coin.
pub open spec fn spec_corrupt_signatures(count: nat) -> Seq<Seq<u8>> {
    Seq::new(count, |i: int| Seq::new(SIGNATURE_LEN as nat, |j: int| 0u8))
}

fn corrupt_signatures(count: usize) -> (signatures: Vec<Vec<u8>>)
    ensures
        strings_view(&signatures) == spec_corrupt_signatures(count as nat),
{
    let mut signatures: Vec<Vec<u8>> = Vec::new();
    let mut i: usize = 0;
    while i < count
        invariant
            i <= count,
            signatures@.len() == i,
            forall|k: int|
                0 <= k < i ==> #[trigger] strings_view(&signatures)[k] == Seq::new(
                    SIGNATURE_LEN as nat,
                    |j: int| 0u8,
                ),
        decreases count - i,
    {
        let mut zeros: Vec<u8> = Vec::new();
        let mut j: usize = 0;
        while j < SIGNATURE_LEN
            invariant
                j <= SIGNATURE_LEN,
                zeros@.len() == j,
                forall|k: int| 0 <= k < j ==> zeros@[k] == 0u8,
            decreases SIGNATURE_LEN - j,
        {
            zeros.push(0u8);
            j += 1;
        }
        assert(zeros@ =~= Seq::new(SIGNATURE_LEN as nat, |j: int| 0u8));
        let ghost before = strings_view(&signatures);
        signatures.push(zeros);
        proof {
            let after = strings_view(&signatures);
            assert forall|k: int| 0 <= k < i implies after[k] == before[k] by {}
        }
        i += 1;
    }
    assert(strings_view(&signatures) =~= spec_corrupt_signatures(count as nat));
    signatures
}

impl MakerConnection {
    /// The terms agreed on this connection, if any.
    pub open spec fn agreed_terms(&self) -> Option<HopTermsView> {
        match self.terms {
            Some(terms) => Some(terms@),
            None => None,
        }
    }

    /// The connection's invariant: while a contract is being carried out,
    /// its terms and funding are held and are what the Maker accepted.
    pub open spec fn wf(&self) -> bool {
        (self.phase == MakerPhase::AwaitFundingProof || self.phase == MakerPhase::ContractSetup
            || self.phase == MakerPhase::AwaitPreimage) ==> self.terms is Some
            && spec_setup_acceptable(self.config@, self.terms.unwrap()@, coins_view(&self.coins))
    }

    /// What an event amounts to for the decision.
    pub open spec fn spec_classify(&self, event: &MakerEvent) -> MakerInput {
        match event {
            MakerEvent::FundingConfirmed => MakerInput::FundingConfirmed,
            MakerEvent::Unreadable => MakerInput::Unreadable,
            MakerEvent::Timeout => MakerInput::Timeout,
            MakerEvent::Disconnected => MakerInput::Disconnected,
            MakerEvent::Message(message) => match message {
                TakerMessage::Hello { version } => if *version == PROTOCOL_VERSION {
                    MakerInput::HelloSupported
                } else {
                    MakerInput::HelloUnsupported
                },
                TakerMessage::OfferRequest => MakerInput::OfferRequest,
                TakerMessage::ContractSetupRequest { terms, coins } => if spec_setup_acceptable(
                    self.config@,
                    terms@,
                    coins_view(coins),
                ) {
                    MakerInput::SetupValid
                } else {
                    MakerInput::SetupInvalid
                },
                TakerMessage::FundingProof { txids } => if self.terms is Some && spec_names_funding(
                    coins_view(&self.coins),
                    strings_view(txids),
                ) {
                    MakerInput::FundingProofValid
                } else {
                    MakerInput::FundingProofInvalid
                },
                TakerMessage::PreimageReveal { secret } => if self.terms is Some
                    && spec_preimage_valid(self.terms.unwrap()@.hash_value, secret@) {
                    MakerInput::PreimageValid
                } else {
                    MakerInput::PreimageInvalid
                },
                TakerMessage::Ack => MakerInput::Ack,
                TakerMessage::Error { reason } => MakerInput::PeerError,
            },
        }
    }

    /// The message that a reply stands for. `terms` and `coins` are those of
    /// the contract that the reply belongs to.
    pub open spec fn spec_render(
        config: MakerConfigView,
        terms: Option<HopTermsView>,
        coins: Seq<FundingCoinView>,
        reply: MakerReply,
    ) -> Option<MakerMessageView> {
        match reply {
            MakerReply::Nothing => None,
            MakerReply::Ack => Some(MakerMessageView::Ack),
            MakerReply::Offer => Some(MakerMessageView::OfferResponse { terms: config.offer }),
            MakerReply::RefundSignatures => Some(
                MakerMessageView::ContractSetupResponse {
                    refund_signatures: spec_signatures(
                        terms.unwrap(),
                        ContractKind::Refund,
                        coins,
                        config.secret_key,
                    ),
                },
            ),
            MakerReply::CorruptSignatures => Some(
                MakerMessageView::ContractSetupResponse {
                    refund_signatures: spec_corrupt_signatures(coins.len()),
                },
            ),
            MakerReply::RedeemSignatures => Some(
                MakerMessageView::RedeemSignatures {
                    signatures: spec_signatures(
                        terms.unwrap(),
                        ContractKind::Hashlock,
                        coins,
                        config.secret_key,
                    ),
                },
            ),
            MakerReply::Error(reason) => Some(MakerMessageView::Error { reason }),
        }
    }

    /// A fresh connection.
    pub fn new(config: MakerConfig, behavior: MakerBehavior) -> (connection: MakerConnection)
        ensures
            connection.wf(),
            connection.config == config,
            connection.behavior == behavior,
            connection.phase == MakerPhase::AwaitHello,
            connection.terms is None,
            connection.coins@.len() == 0,
    {
        MakerConnection {
            config,
            behavior,
            phase: MakerPhase::AwaitHello,
            terms: None,
            coins: Vec::new(),
        }
    }

    /// Whether the Maker accepts the terms and the funding of a hop.
    pub fn setup_acceptable(&self, terms: &HopTerms, coins: &Vec<FundingCoin>) -> (acceptable: bool)
        ensures
            acceptable == spec_setup_acceptable(self.config@, terms@, coins_view(coins)),
    {
        let own_key = match public_key(self.config.secret_key.as_slice()) {
            Some(key) => key,
            None => {
                return false;
            },
        };
        bytes_equal(&own_key, &terms.receiver_key) && self.config.offer.min_size <= terms.amount
            && terms.amount <= self.config.offer.max_size && terms.locktime
            >= self.config.min_locktime && coins.len() >= 1 && coins_match(
            coins,
            terms.amount,
            self.config.tolerance,
        ) && terms.can_build(ContractKind::Refund, coins) && terms.can_build(
            ContractKind::Hashlock,
            coins,
        )
    }

    /// What an event amounts to for the decision.
    pub fn classify(&self, event: &MakerEvent) -> (input: MakerInput)
        ensures
            input == self.spec_classify(event),
    {
        match event {
            MakerEvent::FundingConfirmed => MakerInput::FundingConfirmed,
            MakerEvent::Unreadable => MakerInput::Unreadable,
            MakerEvent::Timeout => MakerInput::Timeout,
            MakerEvent::Disconnected => MakerInput::Disconnected,
            MakerEvent::Message(message) => match message {
                TakerMessage::Hello { version } => if *version == PROTOCOL_VERSION {
                    MakerInput::HelloSupported
                } else {
                    MakerInput::HelloUnsupported
                },
                TakerMessage::OfferRequest => MakerInput::OfferRequest,
                TakerMessage::ContractSetupRequest { terms, coins } => if self.setup_acceptable(
                    terms,
                    coins,
                ) {
                    MakerInput::SetupValid
                } else {
                    MakerInput::SetupInvalid
                },
                TakerMessage::FundingProof { txids } => if self.terms.is_some() && names_funding(
                    &self.coins,
                    txids,
                ) {
                    MakerInput::FundingProofValid
                } else {
                    MakerInput::FundingProofInvalid
                },
                TakerMessage::PreimageReveal { secret } => match &self.terms {
                    Some(terms) => if preimage_valid(&terms.hash_value, secret) {
                        MakerInput::PreimageValid
                    } else {
                        MakerInput::PreimageInvalid
                    },
                    None => MakerInput::PreimageInvalid,
                },
                TakerMessage::Ack => MakerInput::Ack,
                TakerMessage::Error { reason } => MakerInput::PeerError,
            },
        }
    }

    /// Takes one event: decides, keeps the contract that was agreed, and
    /// builds the reply.
    ///
    /// The decision is that of `maker_core::spec_step` on what the event
    /// amounts to. Of a connection that `new` made and `handle` changed the
    /// invariant holds, and then the reply is the message that the decision
    /// stands for, and the signatures in it, unless they are corrupted on
    /// purpose, verify under the key that the terms name for the Maker.
    pub fn handle(&mut self, event: MakerEvent) -> (action: MakerAction)
        ensures
            final(self).config == old(self).config,
            final(self).behavior == old(self).behavior,
            old(self).wf() ==> final(self).wf(),
            ({
                let input = old(self).spec_classify(&event);
                let decided = spec_step(old(self).phase, old(self).behavior, input);
                &&& final(self).phase == decided.next
                &&& action.close == decided.close
                &&& old(self).wf() ==> (match action.reply {
                    Some(message) => Some(message@),
                    None => None,
                }) == MakerConnection::spec_render(
                    old(self).config@,
                    final(self).agreed_terms(),
                    coins_view(&final(self).coins),
                    decided.reply,
                )
                &&& old(self).wf() && decided.reply == MakerReply::RefundSignatures ==> (
                action.reply matches Some(MakerMessage::ContractSetupResponse { refund_signatures })
                    && final(self).terms is Some && contract_signatures_valid(
                    final(self).terms.unwrap()@,
                    ContractKind::Refund,
                    coins_view(&final(self).coins),
                    final(self).terms.unwrap()@.receiver_key,
                    strings_view(&refund_signatures),
                ))
                &&& old(self).wf() && decided.reply == MakerReply::RedeemSignatures ==> (
                action.reply matches Some(MakerMessage::RedeemSignatures { signatures })
                    && final(self).terms is Some && contract_signatures_valid(
                    final(self).terms.unwrap()@,
                    ContractKind::Hashlock,
                    coins_view(&final(self).coins),
                    final(self).terms.unwrap()@.receiver_key,
                    strings_view(&signatures),
                ))
                &&& if old(self).phase == MakerPhase::Negotiating && input == MakerInput::SetupValid {
                    event matches MakerEvent::Message(
                        TakerMessage::ContractSetupRequest { terms, coins },
                    ) && final(self).agreed_terms() == Some(terms@) && coins_view(
                        &final(self).coins,
                    ) == coins_view(&coins)
                } else {
                    final(self).agreed_terms() == old(self).agreed_terms() && coins_view(
                        &final(self).coins,
                    ) == coins_view(&old(self).coins)
                }
            }),
    {
        let input = self.classify(&event);
        let decided = step(self.phase, self.behavior, input);
        let ghost old_terms = self.agreed_terms();
        let ghost old_coins = coins_view(&self.coins);
        match (&self.phase, &input, &event) {
            (
                MakerPhase::Negotiating,
                MakerInput::SetupValid,
                MakerEvent::Message(TakerMessage::ContractSetupRequest { terms, coins }),
            ) => {
                self.terms = Some(terms.clone());
                self.coins = clone_coins(coins);
            },
            _ => {},
        }
        self.phase = decided.next;
        let reply: Option<MakerMessage> = match decided.reply {
            MakerReply::Nothing => None,
            MakerReply::Ack => Some(MakerMessage::Ack),
            MakerReply::Offer => Some(MakerMessage::OfferResponse { terms: self.config.offer.clone() }),
            MakerReply::RefundSignatures => {
                let signed = match &self.terms {
                    Some(terms) => terms.sign_contracts(
                        ContractKind::Refund,
                        &self.coins,
                        &self.config.secret_key,
                    ),
                    None => Ok(Vec::new()),
                };
                match signed {
                    Ok(signatures) => Some(
                        MakerMessage::ContractSetupResponse { refund_signatures: signatures },
                    ),
                    Err(e) => Some(
                        MakerMessage::ContractSetupResponse { refund_signatures: Vec::new() },
                    ),
                }
            },
            MakerReply::CorruptSignatures => Some(
                MakerMessage::ContractSetupResponse {
                    refund_signatures: corrupt_signatures(self.coins.len()),
                },
            ),
            MakerReply::RedeemSignatures => {
                let signed = match &self.terms {
                    Some(terms) => terms.sign_contracts(
                        ContractKind::Hashlock,
                        &self.coins,
                        &self.config.secret_key,
                    ),
                    None => Ok(Vec::new()),
                };
                match signed {
                    Ok(signatures) => Some(MakerMessage::RedeemSignatures { signatures }),
                    Err(e) => Some(MakerMessage::RedeemSignatures { signatures: Vec::new() }),
                }
            },
            MakerReply::Error(reason) => Some(MakerMessage::Error { reason }),
        };
        MakerAction { reply, close: decided.close }
    }
}

} // verus!
