//! Transaction templates: what a contract transaction spends and pays, its
//! byte encoding, the digest that is signed, and signatures over it.

use vstd::prelude::*;
use vstd::bytes::{spec_u32_to_le_bytes, spec_u64_to_le_bytes, u32_to_le_bytes, u64_to_le_bytes};
use crate::bytes::{append_bytes, clone_bytes};
use crate::crypto::{
    ecdsa_sign, ecdsa_verify, sha256d, spec_ecdsa_sign, spec_ecdsa_verify,
    spec_public_key, spec_sha256d, DIGEST_LEN, SIGNATURE_LEN,
};
use crate::error::ContractError;

verus! {

/// Length of a transaction id.
pub const TXID_LEN: usize = 32;

/// An output of an earlier transaction.
#[derive(Debug)]
pub struct OutPoint {
    pub txid: Vec<u8>,
    pub vout: u32,
}

/// What an `OutPoint` holds.
pub struct OutPointView {
    pub txid: Seq<u8>,
    pub vout: u32,
}

impl View for OutPoint {
    type V = OutPointView;

    open spec fn view(&self) -> OutPointView {
        OutPointView { txid: self.txid@, vout: self.vout }
    }
}

impl Clone for OutPoint {
    fn clone(&self) -> (copy: OutPoint)
        ensures
            copy@ == self@,
    {
        OutPoint { txid: clone_bytes(&self.txid), vout: self.vout }
    }
}

/// A value and the script that guards it.
#[derive(Debug)]
pub struct TxOutput {
    pub value: u64,
    pub script: Vec<u8>,
}

/// What a `TxOutput` holds.
pub struct TxOutputView {
    pub value: u64,
    pub script: Seq<u8>,
}

impl View for TxOutput {
    type V = TxOutputView;

    open spec fn view(&self) -> TxOutputView {
        TxOutputView { value: self.value, script: self.script@ }
    }
}

impl Clone for TxOutput {
    fn clone(&self) -> (copy: TxOutput)
        ensures
            copy@ == self@,
    {
        TxOutput { value: self.value, script: clone_bytes(&self.script) }
    }
}

/// What a list of outputs holds.
pub open spec fn outputs_view(outputs: &Vec<TxOutput>) -> Seq<TxOutputView> {
    outputs@.map_values(|o: TxOutput| o@)
}

/// An unsigned transaction.
#[derive(Debug)]
pub struct TxTemplate {
    pub inputs: Vec<OutPoint>,
    pub outputs: Vec<TxOutput>,
    /// The transaction is valid only at or after this height.
    pub locktime: u32,
}

/// What a `TxTemplate` holds.
pub struct TxView {
    pub inputs: Seq<OutPointView>,
    pub outputs: Seq<TxOutputView>,
    pub locktime: u32,
}

impl View for TxTemplate {
    type V = TxView;

    open spec fn view(&self) -> TxView {
        TxView {
            inputs: self.inputs@.map_values(|i: OutPoint| i@),
            outputs: self.outputs@.map_values(|o: TxOutput| o@),
            locktime: self.locktime,
        }
    }
}

/// The bytes of an outpoint: the transaction id, then the index.
pub open spec fn encode_outpoint(input: OutPointView) -> Seq<u8> {
    input.txid + spec_u32_to_le_bytes(input.vout)
}

/// The bytes of an output: the value, the script's length, the script.
pub open spec fn encode_output(output: TxOutputView) -> Seq<u8> {
    spec_u64_to_le_bytes(output.value) + spec_u64_to_le_bytes(output.script.len() as u64)
        + output.script
}

/// The bytes of the first `upto` inputs.
pub open spec fn encode_inputs(inputs: Seq<OutPointView>, upto: int) -> Seq<u8>
    decreases upto,
{
    if upto <= 0 {
        Seq::<u8>::empty()
    } else {
        encode_inputs(inputs, upto - 1) + encode_outpoint(inputs[upto - 1])
    }
}

/// The bytes of the first `upto` outputs.
pub open spec fn encode_outputs(outputs: Seq<TxOutputView>, upto: int) -> Seq<u8>
    decreases upto,
{
    if upto <= 0 {
        Seq::<u8>::empty()
    } else {
        encode_outputs(outputs, upto - 1) + encode_output(outputs[upto - 1])
    }
}

/// The bytes of a transaction: the number of inputs, the inputs, the number
/// of outputs, the outputs, the locktime. Every number is little-endian.
pub open spec fn spec_encode(tx: TxView) -> Seq<u8> {
    spec_u64_to_le_bytes(tx.inputs.len() as u64) + encode_inputs(tx.inputs, tx.inputs.len() as int)
        + spec_u64_to_le_bytes(tx.outputs.len() as u64) + encode_outputs(
        tx.outputs,
        tx.outputs.len() as int,
    ) + spec_u32_to_le_bytes(tx.locktime)
}

/// The digest that a signature of the transaction is made over.
pub open spec fn spec_digest(tx: TxView) -> Seq<u8> {
    spec_sha256d(spec_encode(tx))
}

/// The sum of the first `upto` output values.
pub open spec fn output_total(outputs: Seq<TxOutputView>, upto: int) -> int
    decreases upto,
{
    if upto <= 0 {
        0
    } else {
        output_total(outputs, upto - 1) + outputs[upto - 1].value
    }
}

impl TxTemplate {
    /// The transaction's bytes.
    pub fn encode(&self) -> (bytes: Vec<u8>)
        ensures
            bytes@ == spec_encode(self@),
    {
        let mut bytes: Vec<u8> = u64_to_le_bytes(self.inputs.len() as u64);
        let ghost head = bytes@;
        let mut i: usize = 0;
        while i < self.inputs.len()
            invariant
                i <= self.inputs.len(),
                bytes@ == head + encode_inputs(self@.inputs, i as int),
            decreases self.inputs.len() - i,
        {
            let input = &self.inputs[i];
            assert(self@.inputs[i as int] == input@);
            append_bytes(&mut bytes, &input.txid);
            let index = u32_to_le_bytes(input.vout);
            append_bytes(&mut bytes, &index);
            assert(bytes@ =~= head + encode_inputs(self@.inputs, i + 1));
            i += 1;
        }
        let count = u64_to_le_bytes(self.outputs.len() as u64);
        append_bytes(&mut bytes, &count);
        let ghost front = bytes@;
        let mut j: usize = 0;
        while j < self.outputs.len()
            invariant
                j <= self.outputs.len(),
                bytes@ == front + encode_outputs(self@.outputs, j as int),
            decreases self.outputs.len() - j,
        {
            let output = &self.outputs[j];
            assert(self@.outputs[j as int] == output@);
            let value = u64_to_le_bytes(output.value);
            append_bytes(&mut bytes, &value);
            let length = u64_to_le_bytes(output.script.len() as u64);
            append_bytes(&mut bytes, &length);
            append_bytes(&mut bytes, &output.script);
            assert(bytes@ =~= front + encode_outputs(self@.outputs, j + 1));
            j += 1;
        }
        let locktime = u32_to_le_bytes(self.locktime);
        append_bytes(&mut bytes, &locktime);
        assert(bytes@ =~= spec_encode(self@));
        bytes
    }

    /// The digest that a signature of this transaction is made over.
    pub fn digest(&self) -> (digest: Vec<u8>)
        ensures
            digest@ == spec_digest(self@),
            digest@.len() == DIGEST_LEN,
    {
        let bytes = self.encode();
        sha256d(bytes.as_slice())
    }

    /// The sum of the output values; `None` where it exceeds `u64::MAX`.
    pub fn total_output(&self) -> (total: Option<u64>)
        ensures
            total matches Some(t) ==> t == output_total(self@.outputs, self@.outputs.len() as int),
            total is None <==> output_total(self@.outputs, self@.outputs.len() as int) > u64::MAX,
    {
        let mut total: u64 = 0;
        let mut i: usize = 0;
        while i < self.outputs.len()
            invariant
                i <= self.outputs.len(),
                total == output_total(self@.outputs, i as int),
            decreases self.outputs.len() - i,
        {
            let value: u64 = self.outputs[i].value;
            assert(self@.outputs[i as int].value == value);
            if value > u64::MAX - total {
                proof {
                    lemma_output_total_monotone(self@.outputs, i + 1, self@.outputs.len() as int);
                }
                return None;
            }
            total = total + value;
            i += 1;
        }
        Some(total)
    }

    /// Signs the transaction's digest. Fails where the bytes are no secret key.
    pub fn sign(&self, secret_key: &Vec<u8>) -> (signature: Result<Vec<u8>, ContractError>)
        ensures
            signature is Ok <==> spec_public_key(secret_key@) is Some,
            signature matches Ok(s) ==> Some(s@) == spec_ecdsa_sign(secret_key@, spec_digest(self@)),
            signature matches Ok(s) ==> s@.len() == SIGNATURE_LEN,
            signature matches Ok(s) ==> spec_ecdsa_verify(
                spec_public_key(secret_key@).unwrap(),
                spec_digest(self@),
                s@,
            ),
            signature matches Err(e) ==> e == ContractError::SignatureMismatch,
    {
        let digest = self.digest();
        match ecdsa_sign(secret_key.as_slice(), digest.as_slice()) {
            Some(signature) => Ok(signature),
            None => Err(ContractError::SignatureMismatch),
        }
    }

    /// Checks a signature against the transaction's digest and the expected
    /// public key.
    pub fn verify_signature(&self, public_key: &Vec<u8>, signature: &Vec<u8>) -> (checked: Result<
        (),
        ContractError,
    >)
        ensures
            checked is Ok <==> spec_ecdsa_verify(public_key@, spec_digest(self@), signature@),
            checked matches Err(e) ==> e == ContractError::SignatureMismatch,
    {
        let digest = self.digest();
        if ecdsa_verify(public_key.as_slice(), digest.as_slice(), signature.as_slice()) {
            Ok(())
        } else {
            Err(ContractError::SignatureMismatch)
        }
    }
}

/// The sum of output values does not shrink as more outputs are counted.
pub proof fn lemma_output_total_monotone(outputs: Seq<TxOutputView>, i: int, j: int)
    requires
        0 <= i <= j,
    ensures
        0 <= output_total(outputs, i) <= output_total(outputs, j),
    decreases j,
{
    if i < j {
        lemma_output_total_monotone(outputs, i, j - 1);
    } else if i > 0 {
        lemma_output_total_monotone(outputs, i - 1, i - 1);
    }
}

} // verus!
