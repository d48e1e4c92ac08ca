use coinswap::amounts::FeeSchedule;
use coinswap::codec::{
    decode_maker_message, decode_taker_message, encode_maker_message, encode_taker_message,
};
use coinswap::contract::{FundingCoin, HopTerms};
use coinswap::maker_core::ErrorReason;
use coinswap::messages::{MakerMessage, TakerMessage};
use coinswap::offer::{FidelityProof, OfferTerms};
use coinswap::tx::OutPoint;
use coinswap::wire::{frame, read_bytes, read_u32, read_u64, unframe, write_bytes, write_u32, write_u64};

fn terms() -> HopTerms {
    HopTerms {
        amount: 509_000,
        funder_key: vec![2u8; 33],
        receiver_key: vec![3u8; 33],
        hash_value: vec![9u8; 20],
        locktime: 96,
        fee_rate: 2,
    }
}

fn offer() -> OfferTerms {
    OfferTerms {
        fees: FeeSchedule { absolute_fee: 1000, relative_fee_ppb: 5 },
        min_size: 10_000,
        max_size: 1_000_000,
        fidelity: FidelityProof { bond_value: 7, bond_locktime: 800_000, public_key: vec![2u8; 33] },
    }
}

fn taker_messages() -> Vec<TakerMessage> {
    vec![
        TakerMessage::Hello { version: 1 },
        TakerMessage::Hello { version: u32::MAX },
        TakerMessage::OfferRequest,
        TakerMessage::ContractSetupRequest {
            terms: terms(),
            coins: vec![
                FundingCoin { outpoint: OutPoint { txid: vec![1u8; 32], vout: 0 }, value: 254_500 },
                FundingCoin { outpoint: OutPoint { txid: vec![2u8; 32], vout: 7 }, value: u64::MAX },
            ],
        },
        TakerMessage::ContractSetupRequest { terms: terms(), coins: vec![] },
        TakerMessage::FundingProof { txids: vec![vec![1u8; 32], vec![], vec![2u8; 32]] },
        TakerMessage::FundingProof { txids: vec![] },
        TakerMessage::PreimageReveal { secret: vec![7u8; 32] },
        TakerMessage::Ack,
        TakerMessage::Error { reason: ErrorReason::UnexpectedMessage },
    ]
}

fn maker_messages() -> Vec<MakerMessage> {
    vec![
        MakerMessage::Ack,
        MakerMessage::OfferResponse { terms: offer() },
        MakerMessage::ContractSetupResponse { refund_signatures: vec![vec![5u8; 64], vec![6u8; 64]] },
        MakerMessage::RedeemSignatures { signatures: vec![vec![8u8; 64]] },
        MakerMessage::RedeemSignatures { signatures: vec![] },
        MakerMessage::Error { reason: ErrorReason::UnsupportedVersion },
        MakerMessage::Error { reason: ErrorReason::InvalidTerms },
        MakerMessage::Error { reason: ErrorReason::InvalidFunding },
        MakerMessage::Error { reason: ErrorReason::InvalidPreimage },
    ]
}

#[test]
fn numbers_are_written_little_endian() {
    let mut buffer = Vec::new();
    write_u32(&mut buffer, 0x0102_0304);
    write_u64(&mut buffer, 1);
    assert!(write_bytes(&mut buffer, &vec![0xaa, 0xbb]));
    assert_eq!(
        buffer,
        vec![4, 3, 2, 1, 1, 0, 0, 0, 0, 0, 0, 0, 2, 0, 0, 0, 0xaa, 0xbb]
    );
    assert_eq!(read_u32(&buffer, 0), Some((0x0102_0304, 4)));
    assert_eq!(read_u64(&buffer, 4), Some((1, 12)));
    assert_eq!(read_bytes(&buffer, 12), Some((vec![0xaa, 0xbb], 18)));
    assert_eq!(read_u32(&buffer, 15), None);
    assert_eq!(read_u64(&buffer, 11), None);
    assert_eq!(read_bytes(&buffer, 13), None);
    assert_eq!(read_u32(&buffer, 18), None);
}

#[test]
fn frame_is_the_length_and_the_payload() {
    let framed = frame(&vec![9, 8, 7]).unwrap();
    assert_eq!(framed, vec![3, 0, 0, 0, 9, 8, 7]);
    assert_eq!(unframe(&framed), Some((vec![9, 8, 7], 7)));
    assert_eq!(frame(&vec![]).unwrap(), vec![0, 0, 0, 0]);
    assert_eq!(unframe(&vec![0, 0, 0, 0]), Some((vec![], 4)));
}

#[test]
fn incomplete_frame_waits_for_more_bytes() {
    assert_eq!(unframe(&vec![]), None);
    assert_eq!(unframe(&vec![3, 0, 0]), None);
    assert_eq!(unframe(&vec![3, 0, 0, 0, 9, 8]), None);
    // what follows a complete frame is left for the next one
    assert_eq!(unframe(&vec![1, 0, 0, 0, 9, 2, 0]), Some((vec![9], 5)));
}

#[test]
fn taker_messages_are_read_back_as_written() {
    for message in taker_messages() {
        let bytes = encode_taker_message(&message).unwrap();
        let read = decode_taker_message(&bytes).unwrap();
        assert_eq!(format!("{:?}", read), format!("{:?}", message));
        assert_eq!(encode_taker_message(&read).unwrap(), bytes);
    }
}

#[test]
fn maker_messages_are_read_back_as_written() {
    for message in maker_messages() {
        let bytes = encode_maker_message(&message).unwrap();
        let read = decode_maker_message(&bytes).unwrap();
        assert_eq!(format!("{:?}", read), format!("{:?}", message));
        assert_eq!(encode_maker_message(&read).unwrap(), bytes);
    }
}

#[test]
fn messages_have_this_layout() {
    assert_eq!(encode_taker_message(&TakerMessage::Hello { version: 1 }).unwrap(), vec![0, 1, 0, 0, 0]);
    assert_eq!(encode_taker_message(&TakerMessage::OfferRequest).unwrap(), vec![1]);
    assert_eq!(encode_taker_message(&TakerMessage::Ack).unwrap(), vec![5]);
    assert_eq!(
        encode_taker_message(&TakerMessage::Error { reason: ErrorReason::InvalidPreimage }).unwrap(),
        vec![6, 4]
    );
    assert_eq!(
        encode_taker_message(&TakerMessage::PreimageReveal { secret: vec![7, 7] }).unwrap(),
        vec![4, 2, 0, 0, 0, 7, 7]
    );
    assert_eq!(
        encode_taker_message(&TakerMessage::FundingProof { txids: vec![vec![1], vec![]] }).unwrap(),
        vec![3, 2, 0, 0, 0, 1, 0, 0, 0, 1, 0, 0, 0, 0]
    );
    assert_eq!(encode_maker_message(&MakerMessage::Ack).unwrap(), vec![0]);
    let offer_bytes = encode_maker_message(&MakerMessage::OfferResponse { terms: offer() }).unwrap();
    assert_eq!(offer_bytes.len(), 1 + 5 * 8 + 4 + 4 + 33);
    assert_eq!(&offer_bytes[..9], &[1, 0xe8, 3, 0, 0, 0, 0, 0, 0]);
    let setup = encode_taker_message(&TakerMessage::ContractSetupRequest { terms: terms(), coins: vec![] })
        .unwrap();
    assert_eq!(setup.len(), 1 + 8 + 37 + 37 + 24 + 4 + 8 + 4);
}

#[test]
fn damaged_messages_are_not_read() {
    assert!(decode_taker_message(&vec![]).is_none());
    assert!(decode_taker_message(&vec![7]).is_none());
    assert!(decode_taker_message(&vec![0, 1, 0, 0]).is_none());
    assert!(decode_taker_message(&vec![0, 1, 0, 0, 0, 0]).is_none());
    assert!(decode_taker_message(&vec![1, 0]).is_none());
    assert!(decode_taker_message(&vec![6, 5]).is_none());
    assert!(decode_taker_message(&vec![4, 3, 0, 0, 0, 7, 7]).is_none());
    assert!(decode_taker_message(&vec![3, 2, 0, 0, 0, 1, 0, 0, 0, 1]).is_none());
    assert!(decode_maker_message(&vec![]).is_none());
    assert!(decode_maker_message(&vec![5]).is_none());
    assert!(decode_maker_message(&vec![0, 0]).is_none());
    assert!(decode_maker_message(&vec![2, 0xff, 0xff, 0xff, 0xff]).is_none());
    for message in taker_messages() {
        let mut bytes = encode_taker_message(&message).unwrap();
        bytes.push(0);
        assert!(decode_taker_message(&bytes).is_none());
        bytes.pop();
        bytes.pop();
        assert!(decode_taker_message(&bytes).is_none());
    }
}
