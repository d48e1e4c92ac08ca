//! The messages of the protocol as bytes: a tag, then the fields in order.

use vstd::prelude::*;
use vstd::bytes::{spec_u32_to_le_bytes, spec_u64_to_le_bytes};
use crate::amounts::FeeSchedule;
use crate::contract::{
    coins_view, strings_view, FundingCoin, FundingCoinView, HopTerms, HopTermsView,
};
use crate::maker_core::ErrorReason;
use crate::messages::{MakerMessage, MakerMessageView, TakerMessage, TakerMessageView};
use crate::offer::{FidelityProof, FidelityView, OfferTerms, OfferTermsView};
use crate::tx::{OutPoint, OutPointView};
use crate::wire::{
    dec_bytes, dec_items, dec_list, dec_u32, dec_u64, dec_u8, enc_bytes, enc_items, enc_list,
    lemma_bytes_round_trip, lemma_enc_items_push, lemma_list_round_trip, lemma_u32_round_trip,
    lemma_u64_round_trip, lemma_u8_round_trip, read_bytes, read_u32, read_u64, read_u8, rest,
    write_bytes, write_u32, write_u64, write_u8,
};

verus! {

pub const TAG_TAKER_HELLO: u8 = 0;

pub const TAG_TAKER_OFFER_REQUEST: u8 = 1;

pub const TAG_TAKER_SETUP_REQUEST: u8 = 2;

pub const TAG_TAKER_FUNDING_PROOF: u8 = 3;

pub const TAG_TAKER_PREIMAGE: u8 = 4;

pub const TAG_TAKER_ACK: u8 = 5;

pub const TAG_TAKER_ERROR: u8 = 6;

pub const TAG_MAKER_ACK: u8 = 0;

pub const TAG_MAKER_OFFER: u8 = 1;

pub const TAG_MAKER_SETUP_RESPONSE: u8 = 2;

pub const TAG_MAKER_REDEEM: u8 = 3;

pub const TAG_MAKER_ERROR: u8 = 4;

/// How a byte string is written.
pub open spec fn bytes_enc() -> spec_fn(Seq<u8>) -> Seq<u8> {
    |b: Seq<u8>| enc_bytes(b)
}

/// How a byte string is read.
pub open spec fn bytes_dec() -> spec_fn(Seq<u8>) -> Option<(Seq<u8>, Seq<u8>)> {
    |s: Seq<u8>| dec_bytes(s)
}

/// How a funding coin is written.
pub open spec fn coin_enc() -> spec_fn(FundingCoinView) -> Seq<u8> {
    |c: FundingCoinView| enc_coin(c)
}

/// How a funding coin is read.
pub open spec fn coin_dec() -> spec_fn(Seq<u8>) -> Option<(FundingCoinView, Seq<u8>)> {
    |s: Seq<u8>| dec_coin(s)
}

/// The byte that stands for a reason.
pub open spec fn reason_code(reason: ErrorReason) -> u8 {
    match reason {
        ErrorReason::UnsupportedVersion => 0,
        ErrorReason::UnexpectedMessage => 1,
        ErrorReason::InvalidTerms => 2,
        ErrorReason::InvalidFunding => 3,
        ErrorReason::InvalidPreimage => 4,
    }
}

/// The reason that a byte stands for.
pub open spec fn spec_reason(code: u8) -> Option<ErrorReason> {
    if code == 0 {
        Some(ErrorReason::UnsupportedVersion)
    } else if code == 1 {
        Some(ErrorReason::UnexpectedMessage)
    } else if code == 2 {
        Some(ErrorReason::InvalidTerms)
    } else if code == 3 {
        Some(ErrorReason::InvalidFunding)
    } else if code == 4 {
        Some(ErrorReason::InvalidPreimage)
    } else {
        None
    }
}

/// A funding coin as bytes: the transaction id, the index, the value.
pub open spec fn enc_coin(c: FundingCoinView) -> Seq<u8> {
    enc_bytes(c.outpoint.txid) + spec_u32_to_le_bytes(c.outpoint.vout) + spec_u64_to_le_bytes(
        c.value,
    )
}

/// Reads a funding coin.
pub open spec fn dec_coin(s: Seq<u8>) -> Option<(FundingCoinView, Seq<u8>)> {
    match dec_bytes(s) {
        Some((txid, s1)) => match dec_u32(s1) {
            Some((vout, s2)) => match dec_u64(s2) {
                Some((value, s3)) => Some(
                    (FundingCoinView { outpoint: OutPointView { txid, vout }, value }, s3),
                ),
                None => None,
            },
            None => None,
        },
        None => None,
    }
}

/// The terms of a hop as bytes: the amount, the two keys, the hash value,
/// the locktime, the fee rate.
pub open spec fn enc_terms(t: HopTermsView) -> Seq<u8> {
    spec_u64_to_le_bytes(t.amount) + enc_bytes(t.funder_key) + enc_bytes(t.receiver_key)
        + enc_bytes(t.hash_value) + spec_u32_to_le_bytes(t.locktime) + spec_u64_to_le_bytes(
        t.fee_rate,
    )
}

/// Reads the terms of a hop.
pub open spec fn dec_terms(s: Seq<u8>) -> Option<(HopTermsView, Seq<u8>)> {
    match dec_u64(s) {
        Some((amount, s1)) => match dec_bytes(s1) {
            Some((funder_key, s2)) => match dec_bytes(s2) {
                Some((receiver_key, s3)) => match dec_bytes(s3) {
                    Some((hash_value, s4)) => match dec_u32(s4) {
                        Some((locktime, s5)) => match dec_u64(s5) {
                            Some((fee_rate, s6)) => Some(
                                (
                                    HopTermsView {
                                        amount,
                                        funder_key,
                                        receiver_key,
                                        hash_value,
                                        locktime,
                                        fee_rate,
                                    },
                                    s6,
                                ),
                            ),
                            None => None,
                        },
                        None => None,
                    },
                    None => None,
                },
                None => None,
            },
            None => None,
        },
        None => None,
    }
}

/// A Maker's terms as bytes: the two fees, the two bounds, the bond's value
/// and locktime, the public key.
pub open spec fn enc_offer(o: OfferTermsView) -> Seq<u8> {
    spec_u64_to_le_bytes(o.fees.absolute_fee) + spec_u64_to_le_bytes(o.fees.relative_fee_ppb)
        + spec_u64_to_le_bytes(o.min_size) + spec_u64_to_le_bytes(o.max_size)
        + spec_u64_to_le_bytes(o.fidelity.bond_value) + spec_u32_to_le_bytes(
        o.fidelity.bond_locktime,
    ) + enc_bytes(o.fidelity.public_key)
}

/// Reads a Maker's terms.
pub open spec fn dec_offer(s: Seq<u8>) -> Option<(OfferTermsView, Seq<u8>)> {
    match dec_u64(s) {
        Some((absolute_fee, s1)) => match dec_u64(s1) {
            Some((relative_fee_ppb, s2)) => match dec_u64(s2) {
                Some((min_size, s3)) => match dec_u64(s3) {
                    Some((max_size, s4)) => match dec_u64(s4) {
                        Some((bond_value, s5)) => match dec_u32(s5) {
                            Some((bond_locktime, s6)) => match dec_bytes(s6) {
                                Some((public_key, s7)) => Some(
                                    (
                                        OfferTermsView {
                                            fees: FeeSchedule { absolute_fee, relative_fee_ppb },
                                            min_size,
                                            max_size,
                                            fidelity: FidelityView {
                                                bond_value,
                                                bond_locktime,
                                                public_key,
                                            },
                                        },
                                        s7,
                                    ),
                                ),
                                None => None,
                            },
                            None => None,
                        },
                        None => None,
                    },
                    None => None,
                },
                None => None,
            },
            None => None,
        },
        None => None,
    }
}

/// Whether every byte string of the list has a length that can be written.
pub open spec fn strings_encodable(strings: Seq<Seq<u8>>) -> bool {
    strings.len() <= u32::MAX && forall|i: int|
        0 <= i < strings.len() ==> (#[trigger] strings[i]).len() <= u32::MAX
}

/// Whether every coin of the list has a transaction id whose length can be
/// written.
pub open spec fn coins_encodable(coins: Seq<FundingCoinView>) -> bool {
    coins.len() <= u32::MAX && forall|i: int|
        0 <= i < coins.len() ==> (#[trigger] coins[i]).outpoint.txid.len() <= u32::MAX
}

/// Whether the lengths in the terms can be written.
pub open spec fn terms_encodable(t: HopTermsView) -> bool {
    t.funder_key.len() <= u32::MAX && t.receiver_key.len() <= u32::MAX && t.hash_value.len()
        <= u32::MAX
}

/// Whether the lengths in a message of the Taker can be written.
pub open spec fn taker_encodable(m: TakerMessageView) -> bool {
    match m {
        TakerMessageView::ContractSetupRequest { terms, coins } => terms_encodable(terms)
            && coins_encodable(coins),
        TakerMessageView::FundingProof { txids } => strings_encodable(txids),
        TakerMessageView::PreimageReveal { secret } => secret.len() <= u32::MAX,
        _ => true,
    }
}

/// Whether the lengths in a message of the Maker can be written.
pub open spec fn maker_encodable(m: MakerMessageView) -> bool {
    match m {
        MakerMessageView::OfferResponse { terms } => terms.fidelity.public_key.len() <= u32::MAX,
        MakerMessageView::ContractSetupResponse { refund_signatures } => strings_encodable(
            refund_signatures,
        ),
        MakerMessageView::RedeemSignatures { signatures } => strings_encodable(signatures),
        _ => true,
    }
}

/// A message of the Taker as bytes.
pub open spec fn spec_encode_taker(m: TakerMessageView) -> Seq<u8> {
    match m {
        TakerMessageView::Hello { version } => seq![TAG_TAKER_HELLO] + spec_u32_to_le_bytes(
            version,
        ),
        TakerMessageView::OfferRequest => seq![TAG_TAKER_OFFER_REQUEST],
        TakerMessageView::ContractSetupRequest { terms, coins } => seq![TAG_TAKER_SETUP_REQUEST]
            + enc_terms(terms) + enc_list(coins, coin_enc()),
        TakerMessageView::FundingProof { txids } => seq![TAG_TAKER_FUNDING_PROOF] + enc_list(
            txids,
            bytes_enc(),
        ),
        TakerMessageView::PreimageReveal { secret } => seq![TAG_TAKER_PREIMAGE] + enc_bytes(secret),
        TakerMessageView::Ack => seq![TAG_TAKER_ACK],
        TakerMessageView::Error { reason } => seq![TAG_TAKER_ERROR, reason_code(reason)],
    }
}

/// The message of the Taker that the bytes are, where they are one and
/// nothing follows it.
pub open spec fn spec_decode_taker(s: Seq<u8>) -> Option<TakerMessageView> {
    match dec_u8(s) {
        None => None,
        Some((tag, body)) => if tag == TAG_TAKER_HELLO {
            match dec_u32(body) {
                Some((version, end)) => if end.len() == 0 {
                    Some(TakerMessageView::Hello { version })
                } else {
                    None
                },
                None => None,
            }
        } else if tag == TAG_TAKER_OFFER_REQUEST {
            if body.len() == 0 {
                Some(TakerMessageView::OfferRequest)
            } else {
                None
            }
        } else if tag == TAG_TAKER_SETUP_REQUEST {
            match dec_terms(body) {
                Some((terms, more)) => match dec_list(more, coin_dec()) {
                    Some((coins, end)) => if end.len() == 0 {
                        Some(TakerMessageView::ContractSetupRequest { terms, coins })
                    } else {
                        None
                    },
                    None => None,
                },
                None => None,
            }
        } else if tag == TAG_TAKER_FUNDING_PROOF {
            match dec_list(body, bytes_dec()) {
                Some((txids, end)) => if end.len() == 0 {
                    Some(TakerMessageView::FundingProof { txids })
                } else {
                    None
                },
                None => None,
            }
        } else if tag == TAG_TAKER_PREIMAGE {
            match dec_bytes(body) {
                Some((secret, end)) => if end.len() == 0 {
                    Some(TakerMessageView::PreimageReveal { secret })
                } else {
                    None
                },
                None => None,
            }
        } else if tag == TAG_TAKER_ACK {
            if body.len() == 0 {
                Some(TakerMessageView::Ack)
            } else {
                None
            }
        } else if tag == TAG_TAKER_ERROR {
            match dec_u8(body) {
                Some((code, end)) => match spec_reason(code) {
                    Some(reason) => if end.len() == 0 {
                        Some(TakerMessageView::Error { reason })
                    } else {
                        None
                    },
                    None => None,
                },
                None => None,
            }
        } else {
            None
        },
    }
}

/// A message of the Maker as bytes.
pub open spec fn spec_encode_maker(m: MakerMessageView) -> Seq<u8> {
    match m {
        MakerMessageView::Ack => seq![TAG_MAKER_ACK],
        MakerMessageView::OfferResponse { terms } => seq![TAG_MAKER_OFFER] + enc_offer(terms),
        MakerMessageView::ContractSetupResponse {
            refund_signatures,
        } => seq![TAG_MAKER_SETUP_RESPONSE] + enc_list(refund_signatures, bytes_enc()),
        MakerMessageView::RedeemSignatures { signatures } => seq![TAG_MAKER_REDEEM] + enc_list(
            signatures,
            bytes_enc(),
        ),
        MakerMessageView::Error { reason } => seq![TAG_MAKER_ERROR, reason_code(reason)],
    }
}

/// The message of the Maker that the bytes are, where they are one and
/// nothing follows it.
pub open spec fn spec_decode_maker(s: Seq<u8>) -> Option<MakerMessageView> {
    match dec_u8(s) {
        None => None,
        Some((tag, body)) => if tag == TAG_MAKER_ACK {
            if body.len() == 0 {
                Some(MakerMessageView::Ack)
            } else {
                None
            }
        } else if tag == TAG_MAKER_OFFER {
            match dec_offer(body) {
                Some((terms, end)) => if end.len() == 0 {
                    Some(MakerMessageView::OfferResponse { terms })
                } else {
                    None
                },
                None => None,
            }
        } else if tag == TAG_MAKER_SETUP_RESPONSE {
            match dec_list(body, bytes_dec()) {
                Some((refund_signatures, end)) => if end.len() == 0 {
                    Some(MakerMessageView::ContractSetupResponse { refund_signatures })
                } else {
                    None
                },
                None => None,
            }
        } else if tag == TAG_MAKER_REDEEM {
            match dec_list(body, bytes_dec()) {
                Some((signatures, end)) => if end.len() == 0 {
                    Some(MakerMessageView::RedeemSignatures { signatures })
                } else {
                    None
                },
                None => None,
            }
        } else if tag == TAG_MAKER_ERROR {
            match dec_u8(body) {
                Some((code, end)) => match spec_reason(code) {
                    Some(reason) => if end.len() == 0 {
                        Some(MakerMessageView::Error { reason })
                    } else {
                        None
                    },
                    None => None,
                },
                None => None,
            }
        } else {
            None
        },
    }
}

/// Reading gives back the coin that was written.
pub proof fn lemma_coin_round_trip(c: FundingCoinView, tail: Seq<u8>)
    requires
        c.outpoint.txid.len() <= u32::MAX,
    ensures
        dec_coin(enc_coin(c) + tail) == Some((c, tail)),
{
    let s2 = spec_u64_to_le_bytes(c.value) + tail;
    let s1 = spec_u32_to_le_bytes(c.outpoint.vout) + s2;
    assert(enc_coin(c) + tail =~= enc_bytes(c.outpoint.txid) + s1);
    lemma_bytes_round_trip(c.outpoint.txid, s1);
    lemma_u32_round_trip(c.outpoint.vout, s2);
    lemma_u64_round_trip(c.value, tail);
}

/// Reading gives back the terms that were written.
pub proof fn lemma_terms_round_trip(t: HopTermsView, tail: Seq<u8>)
    requires
        terms_encodable(t),
    ensures
        dec_terms(enc_terms(t) + tail) == Some((t, tail)),
{
    let s5 = spec_u64_to_le_bytes(t.fee_rate) + tail;
    let s4 = spec_u32_to_le_bytes(t.locktime) + s5;
    let s3 = enc_bytes(t.hash_value) + s4;
    let s2 = enc_bytes(t.receiver_key) + s3;
    let s1 = enc_bytes(t.funder_key) + s2;
    assert(enc_terms(t) + tail =~= spec_u64_to_le_bytes(t.amount) + s1);
    lemma_u64_round_trip(t.amount, s1);
    lemma_bytes_round_trip(t.funder_key, s2);
    lemma_bytes_round_trip(t.receiver_key, s3);
    lemma_bytes_round_trip(t.hash_value, s4);
    lemma_u32_round_trip(t.locktime, s5);
    lemma_u64_round_trip(t.fee_rate, tail);
}

/// Reading gives back the Maker's terms that were written.
pub proof fn lemma_offer_round_trip(o: OfferTermsView, tail: Seq<u8>)
    requires
        o.fidelity.public_key.len() <= u32::MAX,
    ensures
        dec_offer(enc_offer(o) + tail) == Some((o, tail)),
{
    let s6 = enc_bytes(o.fidelity.public_key) + tail;
    let s5 = spec_u32_to_le_bytes(o.fidelity.bond_locktime) + s6;
    let s4 = spec_u64_to_le_bytes(o.fidelity.bond_value) + s5;
    let s3 = spec_u64_to_le_bytes(o.max_size) + s4;
    let s2 = spec_u64_to_le_bytes(o.min_size) + s3;
    let s1 = spec_u64_to_le_bytes(o.fees.relative_fee_ppb) + s2;
    assert(enc_offer(o) + tail =~= spec_u64_to_le_bytes(o.fees.absolute_fee) + s1);
    lemma_u64_round_trip(o.fees.absolute_fee, s1);
    lemma_u64_round_trip(o.fees.relative_fee_ppb, s2);
    lemma_u64_round_trip(o.min_size, s3);
    lemma_u64_round_trip(o.max_size, s4);
    lemma_u64_round_trip(o.fidelity.bond_value, s5);
    lemma_u32_round_trip(o.fidelity.bond_locktime, s6);
    lemma_bytes_round_trip(o.fidelity.public_key, tail);
}

/// Reading gives back the list of byte strings that was written.
pub proof fn lemma_strings_round_trip(strings: Seq<Seq<u8>>, tail: Seq<u8>)
    requires
        strings_encodable(strings),
    ensures
        dec_list(enc_list(strings, bytes_enc()) + tail, bytes_dec()) == Some((strings, tail)),
{
    assert forall|i: int, after: Seq<u8>| 0 <= i < strings.len() implies #[trigger] bytes_dec()(
        bytes_enc()(strings[i]) + after,
    ) == Some((strings[i], after)) by {
        lemma_bytes_round_trip(strings[i], after);
    }
    lemma_list_round_trip(strings, bytes_enc(), bytes_dec(), tail);
}

/// Reading gives back the list of coins that was written.
pub proof fn lemma_coins_round_trip(coins: Seq<FundingCoinView>, tail: Seq<u8>)
    requires
        coins_encodable(coins),
    ensures
        dec_list(enc_list(coins, coin_enc()) + tail, coin_dec()) == Some((coins, tail)),
{
    assert forall|i: int, after: Seq<u8>| 0 <= i < coins.len() implies #[trigger] coin_dec()(
        coin_enc()(coins[i]) + after,
    ) == Some((coins[i], after)) by {
        lemma_coin_round_trip(coins[i], after);
    }
    lemma_list_round_trip(coins, coin_enc(), coin_dec(), tail);
}

/// A message of the Taker that was written is read back as it was.
pub proof fn lemma_taker_round_trip(m: TakerMessageView)
    requires
        taker_encodable(m),
    ensures
        spec_decode_taker(spec_encode_taker(m)) == Some(m),
{
    let empty = Seq::<u8>::empty();
    match m {
        TakerMessageView::Hello { version } => {
            lemma_u8_round_trip(TAG_TAKER_HELLO, spec_u32_to_le_bytes(version));
            lemma_u32_round_trip(version, empty);
            assert(spec_u32_to_le_bytes(version) + empty =~= spec_u32_to_le_bytes(version));
        },
        TakerMessageView::OfferRequest => {
            lemma_u8_round_trip(TAG_TAKER_OFFER_REQUEST, empty);
            assert(seq![TAG_TAKER_OFFER_REQUEST] + empty =~= seq![TAG_TAKER_OFFER_REQUEST]);
        },
        TakerMessageView::ContractSetupRequest { terms, coins } => {
            let list = enc_list(coins, coin_enc());
            let body = enc_terms(terms) + list;
            assert(spec_encode_taker(m) =~= seq![TAG_TAKER_SETUP_REQUEST] + body);
            lemma_u8_round_trip(TAG_TAKER_SETUP_REQUEST, body);
            lemma_terms_round_trip(terms, list);
            lemma_coins_round_trip(coins, empty);
            assert(list + empty =~= list);
        },
        TakerMessageView::FundingProof { txids } => {
            let list = enc_list(txids, bytes_enc());
            lemma_u8_round_trip(TAG_TAKER_FUNDING_PROOF, list);
            lemma_strings_round_trip(txids, empty);
            assert(list + empty =~= list);
        },
        TakerMessageView::PreimageReveal { secret } => {
            lemma_u8_round_trip(TAG_TAKER_PREIMAGE, enc_bytes(secret));
            lemma_bytes_round_trip(secret, empty);
            assert(enc_bytes(secret) + empty =~= enc_bytes(secret));
        },
        TakerMessageView::Ack => {
            lemma_u8_round_trip(TAG_TAKER_ACK, empty);
            assert(seq![TAG_TAKER_ACK] + empty =~= seq![TAG_TAKER_ACK]);
        },
        TakerMessageView::Error { reason } => {
            let code = reason_code(reason);
            assert(spec_encode_taker(m) =~= seq![TAG_TAKER_ERROR] + seq![code]);
            lemma_u8_round_trip(TAG_TAKER_ERROR, seq![code]);
            lemma_u8_round_trip(code, empty);
            assert(seq![code] + empty =~= seq![code]);
        },
    }
}

/// A message of the Maker that was written is read back as it was.
pub proof fn lemma_maker_round_trip(m: MakerMessageView)
    requires
        maker_encodable(m),
    ensures
        spec_decode_maker(spec_encode_maker(m)) == Some(m),
{
    let empty = Seq::<u8>::empty();
    match m {
        MakerMessageView::Ack => {
            lemma_u8_round_trip(TAG_MAKER_ACK, empty);
            assert(seq![TAG_MAKER_ACK] + empty =~= seq![TAG_MAKER_ACK]);
        },
        MakerMessageView::OfferResponse { terms } => {
            lemma_u8_round_trip(TAG_MAKER_OFFER, enc_offer(terms));
            lemma_offer_round_trip(terms, empty);
            assert(enc_offer(terms) + empty =~= enc_offer(terms));
        },
        MakerMessageView::ContractSetupResponse { refund_signatures } => {
            let list = enc_list(refund_signatures, bytes_enc());
            lemma_u8_round_trip(TAG_MAKER_SETUP_RESPONSE, list);
            lemma_strings_round_trip(refund_signatures, empty);
            assert(list + empty =~= list);
        },
        MakerMessageView::RedeemSignatures { signatures } => {
            let list = enc_list(signatures, bytes_enc());
            lemma_u8_round_trip(TAG_MAKER_REDEEM, list);
            lemma_strings_round_trip(signatures, empty);
            assert(list + empty =~= list);
        },
        MakerMessageView::Error { reason } => {
            let code = reason_code(reason);
            assert(spec_encode_maker(m) =~= seq![TAG_MAKER_ERROR] + seq![code]);
            lemma_u8_round_trip(TAG_MAKER_ERROR, seq![code]);
            lemma_u8_round_trip(code, empty);
            assert(seq![code] + empty =~= seq![code]);
        },
    }
}

/// The byte that stands for a reason.
pub fn code_of(reason: ErrorReason) -> (code: u8)
    ensures
        code == reason_code(reason),
        spec_reason(code) == Some(reason),
{
    match reason {
        ErrorReason::UnsupportedVersion => 0,
        ErrorReason::UnexpectedMessage => 1,
        ErrorReason::InvalidTerms => 2,
        ErrorReason::InvalidFunding => 3,
        ErrorReason::InvalidPreimage => 4,
    }
}

/// The reason that a byte stands for.
pub fn reason_of(code: u8) -> (reason: Option<ErrorReason>)
    ensures
        reason == spec_reason(code),
{
    if code == 0 {
        Some(ErrorReason::UnsupportedVersion)
    } else if code == 1 {
        Some(ErrorReason::UnexpectedMessage)
    } else if code == 2 {
        Some(ErrorReason::InvalidTerms)
    } else if code == 3 {
        Some(ErrorReason::InvalidFunding)
    } else if code == 4 {
        Some(ErrorReason::InvalidPreimage)
    } else {
        None
    }
}

/// Writes a funding coin. Returns whether its lengths can be written.
pub fn write_coin(buffer: &mut Vec<u8>, coin: &FundingCoin) -> (written: bool)
    ensures
        written == (coin@.outpoint.txid.len() <= u32::MAX),
        written ==> final(buffer)@ == old(buffer)@ + enc_coin(coin@),
{
    if !write_bytes(buffer, &coin.outpoint.txid) {
        return false;
    }
    write_u32(buffer, coin.outpoint.vout);
    write_u64(buffer, coin.value);
    assert(buffer@ =~= old(buffer)@ + enc_coin(coin@));
    true
}

/// Writes the terms of a hop. Returns whether their lengths can be written.
pub fn write_terms(buffer: &mut Vec<u8>, terms: &HopTerms) -> (written: bool)
    ensures
        written == terms_encodable(terms@),
        written ==> final(buffer)@ == old(buffer)@ + enc_terms(terms@),
{
    write_u64(buffer, terms.amount);
    if !write_bytes(buffer, &terms.funder_key) {
        return false;
    }
    if !write_bytes(buffer, &terms.receiver_key) {
        return false;
    }
    if !write_bytes(buffer, &terms.hash_value) {
        return false;
    }
    write_u32(buffer, terms.locktime);
    write_u64(buffer, terms.fee_rate);
    assert(buffer@ =~= old(buffer)@ + enc_terms(terms@));
    true
}

/// Writes a Maker's terms. Returns whether their lengths can be written.
pub fn write_offer(buffer: &mut Vec<u8>, offer: &OfferTerms) -> (written: bool)
    ensures
        written == (offer@.fidelity.public_key.len() <= u32::MAX),
        written ==> final(buffer)@ == old(buffer)@ + enc_offer(offer@),
{
    write_u64(buffer, offer.fees.absolute_fee);
    write_u64(buffer, offer.fees.relative_fee_ppb);
    write_u64(buffer, offer.min_size);
    write_u64(buffer, offer.max_size);
    write_u64(buffer, offer.fidelity.bond_value);
    write_u32(buffer, offer.fidelity.bond_locktime);
    if !write_bytes(buffer, &offer.fidelity.public_key) {
        return false;
    }
    assert(buffer@ =~= old(buffer)@ + enc_offer(offer@));
    true
}

/// Writes a list of byte strings. Returns whether its lengths can be
/// written.
pub fn write_strings(buffer: &mut Vec<u8>, strings: &Vec<Vec<u8>>) -> (written: bool)
    ensures
        written == strings_encodable(strings_view(strings)),
        written ==> final(buffer)@ == old(buffer)@ + enc_list(strings_view(strings), bytes_enc()),
{
    if strings.len() > u32::MAX as usize {
        return false;
    }
    let ghost items = strings_view(strings);
    write_u32(buffer, strings.len() as u32);
    let ghost head = buffer@;
    let mut i: usize = 0;
    while i < strings.len()
        invariant
            i <= strings@.len(),
            items == strings_view(strings),
            buffer@ == head + enc_items(items.subrange(0, i as int), bytes_enc()),
            forall|j: int| 0 <= j < i ==> (#[trigger] items[j]).len() <= u32::MAX,
        decreases strings@.len() - i,
    {
        assert(items[i as int] == strings@[i as int]@);
        if !write_bytes(buffer, &strings[i]) {
            return false;
        }
        proof {
            lemma_enc_items_push(items.subrange(0, i as int), items[i as int], bytes_enc());
            assert(items.subrange(0, i as int).push(items[i as int]) =~= items.subrange(0, i + 1));
            assert(buffer@ =~= head + enc_items(items.subrange(0, i + 1), bytes_enc()));
        }
        i += 1;
    }
    proof {
        assert(items.subrange(0, items.len() as int) =~= items);
        assert(buffer@ =~= old(buffer)@ + enc_list(items, bytes_enc()));
    }
    true
}

/// Writes a list of funding coins. Returns whether its lengths can be
/// written.
pub fn write_coins(buffer: &mut Vec<u8>, coins: &Vec<FundingCoin>) -> (written: bool)
    ensures
        written == coins_encodable(coins_view(coins)),
        written ==> final(buffer)@ == old(buffer)@ + enc_list(coins_view(coins), coin_enc()),
{
    if coins.len() > u32::MAX as usize {
        return false;
    }
    let ghost items = coins_view(coins);
    write_u32(buffer, coins.len() as u32);
    let ghost head = buffer@;
    let mut i: usize = 0;
    while i < coins.len()
        invariant
            i <= coins@.len(),
            items == coins_view(coins),
            buffer@ == head + enc_items(items.subrange(0, i as int), coin_enc()),
            forall|j: int| 0 <= j < i ==> (#[trigger] items[j]).outpoint.txid.len() <= u32::MAX,
        decreases coins@.len() - i,
    {
        assert(items[i as int] == coins@[i as int]@);
        if !write_coin(buffer, &coins[i]) {
            return false;
        }
        proof {
            lemma_enc_items_push(items.subrange(0, i as int), items[i as int], coin_enc());
            assert(items.subrange(0, i as int).push(items[i as int]) =~= items.subrange(0, i + 1));
            assert(buffer@ =~= head + enc_items(items.subrange(0, i + 1), coin_enc()));
        }
        i += 1;
    }
    proof {
        assert(items.subrange(0, items.len() as int) =~= items);
        assert(buffer@ =~= old(buffer)@ + enc_list(items, coin_enc()));
    }
    true
}

/// Writes a message of the Taker; `None` where a length in it cannot be
/// written. What is written is read back as the same message.
pub fn encode_taker_message(message: &TakerMessage) -> (bytes: Option<Vec<u8>>)
    ensures
        bytes is Some <==> taker_encodable(message@),
        bytes matches Some(b) ==> b@ == spec_encode_taker(message@) && spec_decode_taker(b@)
            == Some(message@),
{
    let mut buffer: Vec<u8> = Vec::new();
    let written: bool = match message {
        TakerMessage::Hello { version } => {
            write_u8(&mut buffer, TAG_TAKER_HELLO);
            write_u32(&mut buffer, *version);
            true
        },
        TakerMessage::OfferRequest => {
            write_u8(&mut buffer, TAG_TAKER_OFFER_REQUEST);
            true
        },
        TakerMessage::ContractSetupRequest { terms, coins } => {
            write_u8(&mut buffer, TAG_TAKER_SETUP_REQUEST);
            write_terms(&mut buffer, terms) && write_coins(&mut buffer, coins)
        },
        TakerMessage::FundingProof { txids } => {
            write_u8(&mut buffer, TAG_TAKER_FUNDING_PROOF);
            write_strings(&mut buffer, txids)
        },
        TakerMessage::PreimageReveal { secret } => {
            write_u8(&mut buffer, TAG_TAKER_PREIMAGE);
            write_bytes(&mut buffer, secret)
        },
        TakerMessage::Ack => {
            write_u8(&mut buffer, TAG_TAKER_ACK);
            true
        },
        TakerMessage::Error { reason } => {
            write_u8(&mut buffer, TAG_TAKER_ERROR);
            write_u8(&mut buffer, code_of(*reason));
            true
        },
    };
    if written {
        proof {
            assert(buffer@ =~= spec_encode_taker(message@));
            lemma_taker_round_trip(message@);
        }
        Some(buffer)
    } else {
        None
    }
}

/// Writes a message of the Maker; `None` where a length in it cannot be
/// written. What is written is read back as the same message.
pub fn encode_maker_message(message: &MakerMessage) -> (bytes: Option<Vec<u8>>)
    ensures
        bytes is Some <==> maker_encodable(message@),
        bytes matches Some(b) ==> b@ == spec_encode_maker(message@) && spec_decode_maker(b@)
            == Some(message@),
{
    let mut buffer: Vec<u8> = Vec::new();
    let written: bool = match message {
        MakerMessage::Ack => {
            write_u8(&mut buffer, TAG_MAKER_ACK);
            true
        },
        MakerMessage::OfferResponse { terms } => {
            write_u8(&mut buffer, TAG_MAKER_OFFER);
            write_offer(&mut buffer, terms)
        },
        MakerMessage::ContractSetupResponse { refund_signatures } => {
            write_u8(&mut buffer, TAG_MAKER_SETUP_RESPONSE);
            write_strings(&mut buffer, refund_signatures)
        },
        MakerMessage::RedeemSignatures { signatures } => {
            write_u8(&mut buffer, TAG_MAKER_REDEEM);
            write_strings(&mut buffer, signatures)
        },
        MakerMessage::Error { reason } => {
            write_u8(&mut buffer, TAG_MAKER_ERROR);
            write_u8(&mut buffer, code_of(*reason));
            true
        },
    };
    if written {
        proof {
            assert(buffer@ =~= spec_encode_maker(message@));
            lemma_maker_round_trip(message@);
        }
        Some(buffer)
    } else {
        None
    }
}

/// Reads a funding coin at place `at`.
pub fn read_coin(data: &Vec<u8>, at: usize) -> (read: Option<(FundingCoin, usize)>)
    requires
        at <= data@.len(),
    ensures
        match dec_coin(rest(data@, at as int)) {
            Some((c, tail)) => read matches Some(r) && r.0@ == c && at <= r.1 <= data@.len()
                && rest(data@, r.1 as int) == tail,
            None => read is None,
        },
{
    let (txid, end1) = match read_bytes(data, at) {
        Some(r) => r,
        None => {
            return None;
        },
    };
    let (vout, end2) = match read_u32(data, end1) {
        Some(r) => r,
        None => {
            return None;
        },
    };
    let (value, end3) = match read_u64(data, end2) {
        Some(r) => r,
        None => {
            return None;
        },
    };
    Some((FundingCoin { outpoint: OutPoint { txid, vout }, value }, end3))
}

/// Reads the terms of a hop at place `at`.
pub fn read_terms(data: &Vec<u8>, at: usize) -> (read: Option<(HopTerms, usize)>)
    requires
        at <= data@.len(),
    ensures
        match dec_terms(rest(data@, at as int)) {
            Some((t, tail)) => read matches Some(r) && r.0@ == t && at <= r.1 <= data@.len()
                && rest(data@, r.1 as int) == tail,
            None => read is None,
        },
{
    let (amount, end1) = match read_u64(data, at) {
        Some(r) => r,
        None => {
            return None;
        },
    };
    let (funder_key, end2) = match read_bytes(data, end1) {
        Some(r) => r,
        None => {
            return None;
        },
    };
    let (receiver_key, end3) = match read_bytes(data, end2) {
        Some(r) => r,
        None => {
            return None;
        },
    };
    let (hash_value, end4) = match read_bytes(data, end3) {
        Some(r) => r,
        None => {
            return None;
        },
    };
    let (locktime, end5) = match read_u32(data, end4) {
        Some(r) => r,
        None => {
            return None;
        },
    };
    let (fee_rate, end6) = match read_u64(data, end5) {
        Some(r) => r,
        None => {
            return None;
        },
    };
    Some((HopTerms { amount, funder_key, receiver_key, hash_value, locktime, fee_rate }, end6))
}

/// Reads a Maker's terms at place `at`.
pub fn read_offer(data: &Vec<u8>, at: usize) -> (read: Option<(OfferTerms, usize)>)
    requires
        at <= data@.len(),
    ensures
        match dec_offer(rest(data@, at as int)) {
            Some((o, tail)) => read matches Some(r) && r.0@ == o && at <= r.1 <= data@.len()
                && rest(data@, r.1 as int) == tail,
            None => read is None,
        },
{
    let (absolute_fee, end1) = match read_u64(data, at) {
        Some(r) => r,
        None => {
            return None;
        },
    };
    let (relative_fee_ppb, end2) = match read_u64(data, end1) {
        Some(r) => r,
        None => {
            return None;
        },
    };
    let (min_size, end3) = match read_u64(data, end2) {
        Some(r) => r,
        None => {
            return None;
        },
    };
    let (max_size, end4) = match read_u64(data, end3) {
        Some(r) => r,
        None => {
            return None;
        },
    };
    let (bond_value, end5) = match read_u64(data, end4) {
        Some(r) => r,
        None => {
            return None;
        },
    };
    let (bond_locktime, end6) = match read_u32(data, end5) {
        Some(r) => r,
        None => {
            return None;
        },
    };
    let (public_key, end7) = match read_bytes(data, end6) {
        Some(r) => r,
        None => {
            return None;
        },
    };
    Some(
        (
            OfferTerms {
                fees: FeeSchedule { absolute_fee, relative_fee_ppb },
                min_size,
                max_size,
                fidelity: FidelityProof { bond_value, bond_locktime, public_key },
            },
            end7,
        ),
    )
}

/// What is read where `count` more items follow the items read so far.
pub open spec fn spec_continue<T>(
    read: Seq<T>,
    s: Seq<u8>,
    count: nat,
    dec: spec_fn(Seq<u8>) -> Option<(T, Seq<u8>)>,
) -> Option<(Seq<T>, Seq<u8>)> {
    match dec_items(s, count, dec) {
        Some((more, end)) => Some((read + more, end)),
        None => None,
    }
}

/// Reading one item first and the others after it gives what reading all
/// of them gives.
pub proof fn lemma_continue_step<T>(
    read: Seq<T>,
    s: Seq<u8>,
    count: nat,
    dec: spec_fn(Seq<u8>) -> Option<(T, Seq<u8>)>,
)
    requires
        count > 0,
    ensures
        spec_continue(read, s, count, dec) == (match dec(s) {
            Some((item, tail)) => spec_continue(read.push(item), tail, (count - 1) as nat, dec),
            None => None,
        }),
{
    match dec(s) {
        Some((item, tail)) => {
            match dec_items(tail, (count - 1) as nat, dec) {
                Some((more, end)) => {
                    assert(read + (seq![item] + more) =~= read.push(item) + more);
                },
                None => {},
            }
        },
        None => {},
    }
}

/// Reads a list of byte strings at place `at`.
pub fn read_strings(data: &Vec<u8>, at: usize) -> (read: Option<(Vec<Vec<u8>>, usize)>)
    requires
        at <= data@.len(),
    ensures
        match dec_list(rest(data@, at as int), bytes_dec()) {
            Some((l, tail)) => read matches Some(r) && strings_view(&r.0) == l && at <= r.1
                <= data@.len() && rest(data@, r.1 as int) == tail,
            None => read is None,
        },
{
    let (count, start) = match read_u32(data, at) {
        Some(r) => r,
        None => {
            return None;
        },
    };
    let ghost whole = dec_items(rest(data@, start as int), count as nat, bytes_dec());
    let mut items: Vec<Vec<u8>> = Vec::new();
    let mut place: usize = start;
    let mut i: u32 = 0;
    proof {
        match whole {
            Some((l, end)) => {
                assert(Seq::<Seq<u8>>::empty() + l =~= l);
            },
            None => {},
        }
        assert(strings_view(&items) =~= Seq::<Seq<u8>>::empty());
    }
    while i < count
        invariant
            i <= count,
            at <= place <= data@.len(),
            dec_list(rest(data@, at as int), bytes_dec()) == whole,
            whole == spec_continue(
                strings_view(&items),
                rest(data@, place as int),
                (count - i) as nat,
                bytes_dec(),
            ),
        decreases count - i,
    {
        proof {
            lemma_continue_step(
                strings_view(&items),
                rest(data@, place as int),
                (count - i) as nat,
                bytes_dec(),
            );
        }
        let (item, next) = match read_bytes(data, place) {
            Some(r) => r,
            None => {
                return None;
            },
        };
        let ghost before = strings_view(&items);
        let ghost added = item@;
        items.push(item);
        assert(strings_view(&items) =~= before.push(added));
        place = next;
        i += 1;
    }
    proof {
        assert(strings_view(&items) + Seq::<Seq<u8>>::empty() =~= strings_view(&items));
    }
    Some((items, place))
}

/// Reads a list of funding coins at place `at`.
pub fn read_coins(data: &Vec<u8>, at: usize) -> (read: Option<(Vec<FundingCoin>, usize)>)
    requires
        at <= data@.len(),
    ensures
        match dec_list(rest(data@, at as int), coin_dec()) {
            Some((l, tail)) => read matches Some(r) && coins_view(&r.0) == l && at <= r.1
                <= data@.len() && rest(data@, r.1 as int) == tail,
            None => read is None,
        },
{
    let (count, start) = match read_u32(data, at) {
        Some(r) => r,
        None => {
            return None;
        },
    };
    let ghost whole = dec_items(rest(data@, start as int), count as nat, coin_dec());
    let mut items: Vec<FundingCoin> = Vec::new();
    let mut place: usize = start;
    let mut i: u32 = 0;
    proof {
        match whole {
            Some((l, end)) => {
                assert(Seq::<FundingCoinView>::empty() + l =~= l);
            },
            None => {},
        }
        assert(coins_view(&items) =~= Seq::<FundingCoinView>::empty());
    }
    while i < count
        invariant
            i <= count,
            at <= place <= data@.len(),
            dec_list(rest(data@, at as int), coin_dec()) == whole,
            whole == spec_continue(
                coins_view(&items),
                rest(data@, place as int),
                (count - i) as nat,
                coin_dec(),
            ),
        decreases count - i,
    {
        proof {
            lemma_continue_step(
                coins_view(&items),
                rest(data@, place as int),
                (count - i) as nat,
                coin_dec(),
            );
        }
        let (item, next) = match read_coin(data, place) {
            Some(r) => r,
            None => {
                return None;
            },
        };
        let ghost before = coins_view(&items);
        let ghost added = item@;
        items.push(item);
        assert(coins_view(&items) =~= before.push(added));
        place = next;
        i += 1;
    }
    proof {
        assert(coins_view(&items) + Seq::<FundingCoinView>::empty() =~= coins_view(&items));
    }
    Some((items, place))
}

/// What an optional message of the Taker holds.
pub open spec fn taker_view(message: Option<TakerMessage>) -> Option<TakerMessageView> {
    match message {
        Some(m) => Some(m@),
        None => None,
    }
}

/// What an optional message of the Maker holds.
pub open spec fn maker_view(message: Option<MakerMessage>) -> Option<MakerMessageView> {
    match message {
        Some(m) => Some(m@),
        None => None,
    }
}

/// Reads a message of the Taker; `None` where the bytes are none, or more
/// than one.
pub fn decode_taker_message(data: &Vec<u8>) -> (message: Option<TakerMessage>)
    ensures
        taker_view(message) == spec_decode_taker(data@),
{
    assert(rest(data@, 0) =~= data@);
    let (tag, body) = match read_u8(data, 0) {
        Some(r) => r,
        None => {
            return None;
        },
    };
    let n: usize = data.len();
    if tag == TAG_TAKER_HELLO {
        match read_u32(data, body) {
            Some((version, end)) => if end == n {
                Some(TakerMessage::Hello { version })
            } else {
                None
            },
            None => None,
        }
    } else if tag == TAG_TAKER_OFFER_REQUEST {
        if body == n {
            Some(TakerMessage::OfferRequest)
        } else {
            None
        }
    } else if tag == TAG_TAKER_SETUP_REQUEST {
        let (terms, more) = match read_terms(data, body) {
            Some(r) => r,
            None => {
                return None;
            },
        };
        match read_coins(data, more) {
            Some((coins, end)) => if end == n {
                Some(TakerMessage::ContractSetupRequest { terms, coins })
            } else {
                None
            },
            None => None,
        }
    } else if tag == TAG_TAKER_FUNDING_PROOF {
        match read_strings(data, body) {
            Some((txids, end)) => if end == n {
                Some(TakerMessage::FundingProof { txids })
            } else {
                None
            },
            None => None,
        }
    } else if tag == TAG_TAKER_PREIMAGE {
        match read_bytes(data, body) {
            Some((secret, end)) => if end == n {
                Some(TakerMessage::PreimageReveal { secret })
            } else {
                None
            },
            None => None,
        }
    } else if tag == TAG_TAKER_ACK {
        if body == n {
            Some(TakerMessage::Ack)
        } else {
            None
        }
    } else if tag == TAG_TAKER_ERROR {
        match read_u8(data, body) {
            Some((code, end)) => match reason_of(code) {
                Some(reason) => if end == n {
                    Some(TakerMessage::Error { reason })
                } else {
                    None
                },
                None => None,
            },
            None => None,
        }
    } else {
        None
    }
}

/// Reads a message of the Maker; `None` where the bytes are none, or more
/// than one.
pub fn decode_maker_message(data: &Vec<u8>) -> (message: Option<MakerMessage>)
    ensures
        maker_view(message) == spec_decode_maker(data@),
{
    assert(rest(data@, 0) =~= data@);
    let (tag, body) = match read_u8(data, 0) {
        Some(r) => r,
        None => {
            return None;
        },
    };
    let n: usize = data.len();
    if tag == TAG_MAKER_ACK {
        if body == n {
            Some(MakerMessage::Ack)
        } else {
            None
        }
    } else if tag == TAG_MAKER_OFFER {
        match read_offer(data, body) {
            Some((terms, end)) => if end == n {
                Some(MakerMessage::OfferResponse { terms })
            } else {
                None
            },
            None => None,
        }
    } else if tag == TAG_MAKER_SETUP_RESPONSE {
        match read_strings(data, body) {
            Some((refund_signatures, end)) => if end == n {
                Some(MakerMessage::ContractSetupResponse { refund_signatures })
            } else {
                None
            },
            None => None,
        }
    } else if tag == TAG_MAKER_REDEEM {
        match read_strings(data, body) {
            Some((signatures, end)) => if end == n {
                Some(MakerMessage::RedeemSignatures { signatures })
            } else {
                None
            },
            None => None,
        }
    } else if tag == TAG_MAKER_ERROR {
        match read_u8(data, body) {
            Some((code, end)) => match reason_of(code) {
                Some(reason) => if end == n {
                    Some(MakerMessage::Error { reason })
                } else {
                    None
                },
                None => None,
            },
            None => None,
        }
    } else {
        None
    }
}

} // verus!
