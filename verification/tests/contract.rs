use coinswap::contract::{
    check_balance, coins_match, contract_fee, funding_txids, names_funding, public_key_of,
    total_coins, ContractKind, FundingCoin, HopTerms,
};
use coinswap::error::ContractError;
use coinswap::script::{hashlock_script, joint_script, key_script};
use coinswap::tx::{OutPoint, TxOutput, TxTemplate};

fn secret(byte: u8) -> Vec<u8> {
    let mut key = vec![0u8; 32];
    key[31] = byte;
    key
}

fn terms(amount: u64) -> HopTerms {
    HopTerms {
        amount,
        funder_key: public_key_of(&secret(1)).unwrap(),
        receiver_key: public_key_of(&secret(2)).unwrap(),
        hash_value: vec![9u8; 20],
        locktime: 96,
        fee_rate: 2,
    }
}

fn coin(tag: u8, value: u64) -> FundingCoin {
    FundingCoin { outpoint: OutPoint { txid: vec![tag; 32], vout: 0 }, value }
}

#[test]
fn contract_fee_is_the_rate_times_the_encoded_size() {
    // 72 bytes without the script, 35 for the refund script, 58 for the hashlock script
    assert_eq!(contract_fee(2, ContractKind::Refund), Some(214));
    assert_eq!(contract_fee(2, ContractKind::Hashlock), Some(260));
    assert_eq!(contract_fee(0, ContractKind::Refund), Some(0));
    assert_eq!(contract_fee(u64::MAX, ContractKind::Refund), None);
}

#[test]
fn contract_fee_matches_the_size_of_the_built_transaction() {
    let refund = terms(509_000).contract_tx(ContractKind::Refund, &coin(1, 10_000)).unwrap();
    assert_eq!(refund.encode().len(), 107);
    let hashlock = terms(509_000).contract_tx(ContractKind::Hashlock, &coin(1, 10_000)).unwrap();
    assert_eq!(hashlock.encode().len(), 130);
}

#[test]
fn funding_outputs_split_the_amount_under_joint_control() {
    let terms = terms(509_000);
    let outputs = terms.funding_outputs(3).unwrap();
    let script = joint_script(&terms.funder_key, &terms.receiver_key).unwrap();
    assert_eq!(outputs.len(), 3);
    assert_eq!(outputs[0].value, 169_667);
    assert_eq!(outputs[1].value, 169_667);
    assert_eq!(outputs[2].value, 169_666);
    for output in &outputs {
        assert_eq!(output.script, script);
    }
}

#[test]
fn funding_outputs_are_built_for_every_amount_that_covers_the_outputs() {
    for amount in [3u64, 4, 1000, 500_000, u64::MAX] {
        let outputs = terms(amount).funding_outputs(3).unwrap();
        let mut sum: u128 = 0;
        for output in &outputs {
            sum += output.value as u128;
        }
        assert_eq!(sum, amount as u128);
    }
    assert_eq!(terms(2).funding_outputs(3).err(), Some(ContractError::ValueOutOfBounds));
    assert_eq!(terms(10).funding_outputs(0).err(), Some(ContractError::ValueOutOfBounds));
    let mut broken = terms(10);
    broken.funder_key.pop();
    assert_eq!(broken.funding_outputs(1).err(), Some(ContractError::MalformedScript));
}

#[test]
fn refund_pays_the_funder_after_the_locktime() {
    let terms = terms(509_000);
    let tx = terms.contract_tx(ContractKind::Refund, &coin(1, 169_667)).unwrap();
    assert_eq!(tx.inputs.len(), 1);
    assert_eq!(tx.inputs[0].txid, vec![1u8; 32]);
    assert_eq!(tx.outputs.len(), 1);
    assert_eq!(tx.outputs[0].value, 169_667 - 214);
    assert_eq!(tx.outputs[0].script, key_script(&terms.funder_key).unwrap());
    assert_eq!(tx.locktime, 96);
}

#[test]
fn hashlock_pays_the_receiver_on_reveal() {
    let terms = terms(509_000);
    let tx = terms.contract_tx(ContractKind::Hashlock, &coin(1, 169_667)).unwrap();
    assert_eq!(tx.outputs[0].value, 169_667 - 260);
    assert_eq!(
        tx.outputs[0].script,
        hashlock_script(&terms.hash_value, &terms.receiver_key).unwrap()
    );
    assert_eq!(tx.locktime, 0);
}

#[test]
fn contract_needs_a_value_above_its_fee_and_a_full_txid() {
    let terms = terms(509_000);
    assert_eq!(
        terms.contract_tx(ContractKind::Refund, &coin(1, 214)).err(),
        Some(ContractError::ValueOutOfBounds)
    );
    assert!(terms.contract_tx(ContractKind::Refund, &coin(1, 215)).is_ok());
    let short = FundingCoin { outpoint: OutPoint { txid: vec![1u8; 31], vout: 0 }, value: 1000 };
    assert_eq!(
        terms.contract_tx(ContractKind::Refund, &short).err(),
        Some(ContractError::MalformedScript)
    );
    let mut broken = terms.clone();
    broken.hash_value = vec![];
    assert_eq!(
        broken.contract_tx(ContractKind::Hashlock, &coin(1, 1000)).err(),
        Some(ContractError::MalformedScript)
    );
}

#[test]
fn round_trip_build_sign_verify_succeeds_within_bounds() {
    for amount in [3_000u64, 10_000, 500_000, 5_000_000] {
        let terms = terms(amount);
        let outputs = terms.funding_outputs(3).unwrap();
        let mut coins = Vec::new();
        for (index, output) in outputs.iter().enumerate() {
            coins.push(coin(index as u8 + 1, output.value));
        }
        for kind in [ContractKind::Refund, ContractKind::Hashlock] {
            let signatures = terms.sign_contracts(kind, &coins, &secret(2)).unwrap();
            assert_eq!(signatures.len(), 3);
            assert_eq!(
                terms.verify_contracts(kind, &coins, &terms.receiver_key, &signatures),
                Ok(())
            );
        }
    }
}

#[test]
fn round_trip_fails_for_the_wrong_key() {
    let terms = terms(500_000);
    let coins = vec![coin(1, 250_000), coin(2, 250_000)];
    let signatures = terms.sign_contracts(ContractKind::Refund, &coins, &secret(3)).unwrap();
    assert_eq!(
        terms.verify_contracts(ContractKind::Refund, &coins, &terms.receiver_key, &signatures),
        Err(ContractError::SignatureMismatch)
    );
    let signer = public_key_of(&secret(3)).unwrap();
    assert_eq!(
        terms.verify_contracts(ContractKind::Refund, &coins, &signer, &signatures),
        Ok(())
    );
}

#[test]
fn round_trip_fails_for_a_mutated_transaction() {
    let terms = terms(500_000);
    let coins = vec![coin(1, 250_000), coin(2, 250_000)];
    let signatures = terms.sign_contracts(ContractKind::Refund, &coins, &secret(2)).unwrap();
    let key = terms.receiver_key.clone();
    // another kind of contract over the same coins
    assert_eq!(
        terms.verify_contracts(ContractKind::Hashlock, &coins, &key, &signatures),
        Err(ContractError::SignatureMismatch)
    );
    // another value
    let changed = vec![coin(1, 250_001), coin(2, 250_000)];
    assert_eq!(
        terms.verify_contracts(ContractKind::Refund, &changed, &key, &signatures),
        Err(ContractError::SignatureMismatch)
    );
    // another locktime
    let mut later = terms.clone();
    later.locktime = 97;
    assert_eq!(
        later.verify_contracts(ContractKind::Refund, &coins, &key, &signatures),
        Err(ContractError::SignatureMismatch)
    );
    // signatures in another order, or too few
    let swapped = vec![signatures[1].clone(), signatures[0].clone()];
    assert_eq!(
        terms.verify_contracts(ContractKind::Refund, &coins, &key, &swapped),
        Err(ContractError::SignatureMismatch)
    );
    assert_eq!(
        terms.verify_contracts(ContractKind::Refund, &coins, &key, &vec![signatures[0].clone()]),
        Err(ContractError::SignatureMismatch)
    );
}

#[test]
fn signing_reports_what_is_wrong() {
    let terms = terms(500_000);
    let coins = vec![coin(1, 250_000)];
    assert_eq!(
        terms.sign_contracts(ContractKind::Refund, &coins, &vec![0u8; 32]),
        Err(ContractError::SignatureMismatch)
    );
    let short = vec![FundingCoin { outpoint: OutPoint { txid: vec![], vout: 0 }, value: 250_000 }];
    assert_eq!(
        terms.sign_contracts(ContractKind::Refund, &short, &secret(2)),
        Err(ContractError::MalformedScript)
    );
    assert_eq!(
        terms.sign_contracts(ContractKind::Refund, &vec![coin(1, 10)], &secret(2)),
        Err(ContractError::ValueOutOfBounds)
    );
    assert_eq!(terms.sign_contracts(ContractKind::Refund, &vec![], &secret(2)), Ok(vec![]));
    assert!(terms.can_build(ContractKind::Refund, &coins));
    assert!(!terms.can_build(ContractKind::Refund, &vec![coin(1, 10)]));
}

#[test]
fn balance_is_the_funded_value_less_the_fee_within_tolerance() {
    let tx = TxTemplate {
        inputs: vec![OutPoint { txid: vec![1u8; 32], vout: 0 }],
        outputs: vec![TxOutput { value: 9_786, script: vec![] }],
        locktime: 0,
    };
    assert_eq!(check_balance(&tx, 10_000, 214, 0), Ok(()));
    assert_eq!(check_balance(&tx, 10_000, 200, 14), Ok(()));
    assert_eq!(check_balance(&tx, 10_000, 200, 13), Err(ContractError::ValueOutOfBounds));
    assert_eq!(check_balance(&tx, 10_000, 230, 15), Err(ContractError::ValueOutOfBounds));
    assert_eq!(check_balance(&tx, 10_000, 230, 16), Ok(()));
    assert_eq!(check_balance(&tx, 100, 214, u64::MAX), Err(ContractError::ValueOutOfBounds));
}

#[test]
fn coins_are_totalled_and_matched_to_the_amount() {
    let coins = vec![coin(1, 169_667), coin(2, 169_667), coin(3, 169_666)];
    assert_eq!(total_coins(&coins), Some(509_000));
    assert!(coins_match(&coins, 509_000, 0));
    assert!(coins_match(&coins, 509_010, 10));
    assert!(!coins_match(&coins, 509_011, 10));
    assert_eq!(total_coins(&vec![coin(1, u64::MAX), coin(2, 1)]), None);
    assert!(!coins_match(&vec![coin(1, u64::MAX), coin(2, 1)], u64::MAX, u64::MAX));
}

#[test]
fn funding_proof_names_the_coins_in_order() {
    let coins = vec![coin(1, 5), coin(2, 6)];
    let txids = funding_txids(&coins);
    assert_eq!(txids, vec![vec![1u8; 32], vec![2u8; 32]]);
    assert!(names_funding(&coins, &txids));
    assert!(!names_funding(&coins, &vec![vec![2u8; 32], vec![1u8; 32]]));
    assert!(!names_funding(&coins, &vec![vec![1u8; 32]]));
    assert!(names_funding(&vec![], &vec![]));
}
