//! The messages that Taker and Maker exchange, one per step.

use vstd::prelude::*;
use crate::contract::{coins_view, strings_view, FundingCoin, FundingCoinView, HopTerms, HopTermsView};
use crate::maker_core::ErrorReason;
use crate::offer::{OfferTerms, OfferTermsView};

verus! {

/// The version of the protocol that this library speaks.
pub const PROTOCOL_VERSION: u32 = 1;

/// Length of the swap's secret.
pub const PREIMAGE_LEN: usize = 32;

/// What the Taker sends.
#[derive(Debug)]
pub enum TakerMessage {
    Hello { version: u32 },
    OfferRequest,
    /// The terms of the hop and the funding outputs that it will spend.
    ContractSetupRequest { terms: HopTerms, coins: Vec<FundingCoin> },
    /// The ids of the funding transactions that were broadcast.
    FundingProof { txids: Vec<Vec<u8>> },
    PreimageReveal { secret: Vec<u8> },
    Ack,
    Error { reason: ErrorReason },
}

/// What a `TakerMessage` holds.
pub enum TakerMessageView {
    Hello { version: u32 },
    OfferRequest,
    ContractSetupRequest { terms: HopTermsView, coins: Seq<FundingCoinView> },
    FundingProof { txids: Seq<Seq<u8>> },
    PreimageReveal { secret: Seq<u8> },
    Ack,
    Error { reason: ErrorReason },
}

impl View for TakerMessage {
    type V = TakerMessageView;

    open spec fn view(&self) -> TakerMessageView {
        match self {
            TakerMessage::Hello { version } => TakerMessageView::Hello { version: *version },
            TakerMessage::OfferRequest => TakerMessageView::OfferRequest,
            TakerMessage::ContractSetupRequest { terms, coins } => TakerMessageView::ContractSetupRequest {
                terms: terms@,
                coins: coins_view(coins),
            },
            TakerMessage::FundingProof { txids } => TakerMessageView::FundingProof {
                txids: strings_view(txids),
            },
            TakerMessage::PreimageReveal { secret } => TakerMessageView::PreimageReveal {
                secret: secret@,
            },
            TakerMessage::Ack => TakerMessageView::Ack,
            TakerMessage::Error { reason } => TakerMessageView::Error { reason: *reason },
        }
    }
}

/// What the Maker sends.
#[derive(Debug)]
pub enum MakerMessage {
    Ack,
    OfferResponse { terms: OfferTerms },
    /// One signature for the refund transaction of each funding output.
    ContractSetupResponse { refund_signatures: Vec<Vec<u8>> },
    /// One signature for the hashlock transaction of each funding output.
    RedeemSignatures { signatures: Vec<Vec<u8>> },
    Error { reason: ErrorReason },
}

/// What a `MakerMessage` holds.
pub enum MakerMessageView {
    Ack,
    OfferResponse { terms: OfferTermsView },
    ContractSetupResponse { refund_signatures: Seq<Seq<u8>> },
    RedeemSignatures { signatures: Seq<Seq<u8>> },
    Error { reason: ErrorReason },
}

impl View for MakerMessage {
    type V = MakerMessageView;

    open spec fn view(&self) -> MakerMessageView {
        match self {
            MakerMessage::Ack => MakerMessageView::Ack,
            MakerMessage::OfferResponse { terms } => MakerMessageView::OfferResponse { terms: terms@ },
            MakerMessage::ContractSetupResponse {
                refund_signatures,
            } => MakerMessageView::ContractSetupResponse {
                refund_signatures: strings_view(refund_signatures),
            },
            MakerMessage::RedeemSignatures { signatures } => MakerMessageView::RedeemSignatures {
                signatures: strings_view(signatures),
            },
            MakerMessage::Error { reason } => MakerMessageView::Error { reason: *reason },
        }
    }
}

} // verus!
