use coinswap::contract::{hash_value_of, public_key_of};
use coinswap::error::ContractError;
use coinswap::tx::{OutPoint, TxOutput, TxTemplate};

fn hex(bytes: &[u8]) -> String {
    let mut text = String::new();
    for byte in bytes {
        text.push_str(&format!("{:02x}", byte));
    }
    text
}

fn sample() -> TxTemplate {
    TxTemplate {
        inputs: vec![OutPoint { txid: vec![0xaa; 32], vout: 1 }],
        outputs: vec![TxOutput { value: 1000, script: vec![0x51] }],
        locktime: 7,
    }
}

fn secret(byte: u8) -> Vec<u8> {
    let mut key = vec![0u8; 32];
    key[31] = byte;
    key
}

#[test]
fn encoding_lists_inputs_outputs_and_locktime() {
    assert_eq!(
        hex(&sample().encode()),
        "0100000000000000aaaaaaaaaaaaaaaaaaaaaaaaaaaaaaaaaaaaaaaaaaaaaaaaaaaaaaaaaaaaaaaa\
         010000000100000000000000e80300000000000001000000000000005107000000"
    );
    let empty = TxTemplate { inputs: vec![], outputs: vec![], locktime: 0 };
    assert_eq!(hex(&empty.encode()), "0000000000000000000000000000000000000000");
}

#[test]
fn digest_is_the_double_sha256_of_the_encoding() {
    assert_eq!(
        hex(&sample().digest()),
        "559b18f0a7d28e9b33d412055c255d85f305d6cee512637795631112911687bd"
    );
}

#[test]
fn hash_value_is_the_hash160_of_the_secret() {
    assert_eq!(hex(&hash_value_of(&vec![])), "b472a266d0bd89c13706a4132ccfb16f7c3b9fcb");
    assert_eq!(hex(&hash_value_of(&vec![7u8; 32])), "b566a3eecce809896361988823cd2f423fe800e7");
}

#[test]
fn public_key_is_derived_from_the_secret_key() {
    assert_eq!(
        hex(&public_key_of(&secret(1)).unwrap()),
        "0279be667ef9dcbbac55a06295ce870b07029bfcdb2dce28d959f2815b16f81798"
    );
    assert_eq!(
        hex(&public_key_of(&secret(2)).unwrap()),
        "02c6047f9441ed7d6d3045406e95c07cd85c778e4b8cef3ca7abac09b95c709ee5"
    );
    assert_eq!(public_key_of(&vec![0u8; 32]), None);
    assert_eq!(public_key_of(&vec![0xff; 32]), None);
    assert_eq!(public_key_of(&vec![1u8; 31]), None);
}

#[test]
fn total_output_adds_the_values() {
    assert_eq!(sample().total_output(), Some(1000));
    let two = TxTemplate {
        inputs: vec![],
        outputs: vec![
            TxOutput { value: u64::MAX, script: vec![] },
            TxOutput { value: 1, script: vec![] },
        ],
        locktime: 0,
    };
    assert_eq!(two.total_output(), None);
}

#[test]
fn a_signature_verifies_under_the_signers_key_only() {
    let tx = sample();
    let signature = tx.sign(&secret(1)).unwrap();
    assert_eq!(signature.len(), 64);
    assert_ne!(signature, secret(1));
    assert_eq!(signature, tx.sign(&secret(1)).unwrap());
    let own = public_key_of(&secret(1)).unwrap();
    let other = public_key_of(&secret(2)).unwrap();
    assert_eq!(tx.verify_signature(&own, &signature), Ok(()));
    assert_eq!(tx.verify_signature(&other, &signature), Err(ContractError::SignatureMismatch));
}

#[test]
fn a_signature_does_not_verify_for_a_changed_transaction() {
    let tx = sample();
    let signature = tx.sign(&secret(1)).unwrap();
    let own = public_key_of(&secret(1)).unwrap();
    let mut changed = sample();
    changed.outputs[0].value = 1001;
    assert_eq!(changed.verify_signature(&own, &signature), Err(ContractError::SignatureMismatch));
    let mut later = sample();
    later.locktime = 8;
    assert_eq!(later.verify_signature(&own, &signature), Err(ContractError::SignatureMismatch));
    let mut elsewhere = sample();
    elsewhere.inputs[0].vout = 0;
    assert_eq!(elsewhere.verify_signature(&own, &signature), Err(ContractError::SignatureMismatch));
}

#[test]
fn broken_keys_and_signatures_are_refused() {
    let tx = sample();
    assert_eq!(tx.sign(&vec![0u8; 32]), Err(ContractError::SignatureMismatch));
    assert_eq!(tx.sign(&vec![1u8; 16]), Err(ContractError::SignatureMismatch));
    let own = public_key_of(&secret(1)).unwrap();
    assert_eq!(tx.verify_signature(&own, &vec![0u8; 64]), Err(ContractError::SignatureMismatch));
    assert_eq!(tx.verify_signature(&own, &vec![]), Err(ContractError::SignatureMismatch));
    let signature = tx.sign(&secret(1)).unwrap();
    assert_eq!(tx.verify_signature(&vec![2u8; 33], &signature), Err(ContractError::SignatureMismatch));
    assert_eq!(tx.verify_signature(&vec![], &signature), Err(ContractError::SignatureMismatch));
}
