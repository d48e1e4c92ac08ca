//! The contract builder: from the terms of one hop, the funding outputs, the
//! time-locked refund transaction and the hashlock transaction, and the
//! checks that the other side's data is held to.

use vstd::prelude::*;
use crate::amounts::{share, spec_within_tolerance, split_funding, value_sum, within_tolerance};
use crate::bytes::{bytes_equal, clone_bytes};
use crate::crypto::{
    hash160, option_view, public_key, spec_ecdsa_sign, spec_ecdsa_verify, spec_hash160,
    spec_public_key, HASH_LEN, PUBLIC_KEY_LEN,
};
use crate::error::ContractError;
use crate::script::{
    hashlock_script, joint_script, key_script, spec_hashlock_script, spec_joint_script,
    spec_key_script, HASHLOCK_SCRIPT_LEN, KEY_SCRIPT_LEN,
};
use crate::tx::{
    output_total, outputs_view, spec_digest, OutPoint, OutPointView, TxOutput, TxOutputView,
    TxTemplate, TxView, TXID_LEN,
};

verus! {

/// Encoded size of a transaction with one input and one output, without the
/// output's script.
pub const CONTRACT_TX_BASE_SIZE: u64 = 72;

/// The hash value that locks a swap with the given secret.
pub fn hash_value_of(secret: &Vec<u8>) -> (hash_value: Vec<u8>)
    ensures
        hash_value@ == spec_hash160(secret@),
        hash_value@.len() == HASH_LEN,
{
    hash160(secret.as_slice())
}

/// The public key of a secret key; `None` where the bytes are no secret key.
pub fn public_key_of(secret_key: &Vec<u8>) -> (key: Option<Vec<u8>>)
    ensures
        option_view(key) == spec_public_key(secret_key@),
        key matches Some(k) ==> k@.len() == PUBLIC_KEY_LEN,
{
    public_key(secret_key.as_slice())
}

/// What the two parties of a hop agreed on.
#[derive(Debug)]
pub struct HopTerms {
    /// What the hop carries.
    pub amount: u64,
    /// Public key of the party that funds the hop.
    pub funder_key: Vec<u8>,
    /// Public key of the party that the hop pays.
    pub receiver_key: Vec<u8>,
    /// HASH160 of the swap's secret.
    pub hash_value: Vec<u8>,
    /// The refund is valid only at or after this height.
    pub locktime: u32,
    /// Fee per encoded byte of a contract transaction.
    pub fee_rate: u64,
}

/// What a `HopTerms` holds.
pub struct HopTermsView {
    pub amount: u64,
    pub funder_key: Seq<u8>,
    pub receiver_key: Seq<u8>,
    pub hash_value: Seq<u8>,
    pub locktime: u32,
    pub fee_rate: u64,
}

impl View for HopTerms {
    type V = HopTermsView;

    open spec fn view(&self) -> HopTermsView {
        HopTermsView {
            amount: self.amount,
            funder_key: self.funder_key@,
            receiver_key: self.receiver_key@,
            hash_value: self.hash_value@,
            locktime: self.locktime,
            fee_rate: self.fee_rate,
        }
    }
}

impl Clone for HopTerms {
    fn clone(&self) -> (copy: HopTerms)
        ensures
            copy@ == self@,
    {
        HopTerms {
            amount: self.amount,
            funder_key: clone_bytes(&self.funder_key),
            receiver_key: clone_bytes(&self.receiver_key),
            hash_value: clone_bytes(&self.hash_value),
            locktime: self.locktime,
            fee_rate: self.fee_rate,
        }
    }
}

/// One funding output of a hop: where it is and what it holds.
#[derive(Debug)]
pub struct FundingCoin {
    pub outpoint: OutPoint,
    pub value: u64,
}

/// What a `FundingCoin` holds.
pub struct FundingCoinView {
    pub outpoint: OutPointView,
    pub value: u64,
}

impl View for FundingCoin {
    type V = FundingCoinView;

    open spec fn view(&self) -> FundingCoinView {
        FundingCoinView { outpoint: self.outpoint@, value: self.value }
    }
}

impl Clone for FundingCoin {
    fn clone(&self) -> (copy: FundingCoin)
        ensures
            copy@ == self@,
    {
        FundingCoin { outpoint: self.outpoint.clone(), value: self.value }
    }
}

/// The two transactions that can spend a funding output without the other
/// side's further help.
#[derive(Clone, Copy, Debug, PartialEq, Eq, Structural)]
pub enum ContractKind {
    /// Back to the funder, at or after the locktime.
    Refund,
    /// To the receiver, on reveal of the preimage.
    Hashlock,
}

/// Whether the terms can be written into scripts.
pub open spec fn terms_well_formed(terms: HopTermsView) -> bool {
    &&& terms.funder_key.len() == PUBLIC_KEY_LEN
    &&& terms.receiver_key.len() == PUBLIC_KEY_LEN
    &&& terms.hash_value.len() == HASH_LEN
}

/// The funding outputs of a hop: its amount split over `tx_count` outputs,
/// each under the joint control of both parties.
pub open spec fn spec_funding_outputs(terms: HopTermsView, tx_count: u32) -> Seq<TxOutputView> {
    Seq::new(
        tx_count as nat,
        |i: int|
            TxOutputView {
                value: share(terms.amount, tx_count, i) as u64,
                script: spec_joint_script(terms.funder_key, terms.receiver_key),
            },
    )
}

/// The fee of a contract transaction whose output script has the given length.
pub open spec fn spec_contract_fee(fee_rate: u64, script_len: int) -> int {
    fee_rate * (CONTRACT_TX_BASE_SIZE + script_len)
}

/// The script that a contract transaction of the given kind pays to.
pub open spec fn spec_contract_script(terms: HopTermsView, kind: ContractKind) -> Seq<u8> {
    match kind {
        ContractKind::Refund => spec_key_script(terms.funder_key),
        ContractKind::Hashlock => spec_hashlock_script(terms.hash_value, terms.receiver_key),
    }
}

/// The length of the script that a contract transaction of the given kind
/// pays to.
pub open spec fn spec_contract_script_len(kind: ContractKind) -> int {
    match kind {
        ContractKind::Refund => KEY_SCRIPT_LEN as int,
        ContractKind::Hashlock => HASHLOCK_SCRIPT_LEN as int,
    }
}

/// Whether a contract transaction of the given kind can be built for the coin.
pub open spec fn contract_buildable(terms: HopTermsView, kind: ContractKind, coin: FundingCoinView) -> bool {
    &&& terms_well_formed(terms)
    &&& coin.outpoint.txid.len() == TXID_LEN
    &&& spec_contract_fee(terms.fee_rate, spec_contract_script_len(kind)) < coin.value
}

/// The contract transaction of the given kind for the coin: it spends the
/// coin and pays its value less the fee to the kind's script. Only the
/// refund carries the locktime.
pub open spec fn spec_contract_tx(terms: HopTermsView, kind: ContractKind, coin: FundingCoinView) -> TxView {
    TxView {
        inputs: seq![coin.outpoint],
        outputs: seq![
            TxOutputView {
                value: (coin.value - spec_contract_fee(
                    terms.fee_rate,
                    spec_contract_script_len(kind),
                )) as u64,
                script: spec_contract_script(terms, kind),
            },
        ],
        locktime: match kind {
            ContractKind::Refund => terms.locktime,
            ContractKind::Hashlock => 0,
        },
    }
}

/// A contract transaction is encoded in as many bytes as its fee is
/// reckoned for.
pub proof fn lemma_contract_tx_size(terms: HopTermsView, kind: ContractKind, coin: FundingCoinView)
    requires
        contract_buildable(terms, kind, coin),
    ensures
        crate::tx::spec_encode(spec_contract_tx(terms, kind, coin)).len() == CONTRACT_TX_BASE_SIZE
            + spec_contract_script_len(kind),
{
    vstd::bytes::lemma_auto_spec_u32_to_from_le_bytes();
    vstd::bytes::lemma_auto_spec_u64_to_from_le_bytes();
    let tx = spec_contract_tx(terms, kind, coin);
    reveal_with_fuel(crate::tx::encode_inputs, 2);
    reveal_with_fuel(crate::tx::encode_outputs, 2);
    assert(crate::tx::encode_inputs(tx.inputs, 1) =~= crate::tx::encode_outpoint(tx.inputs[0]));
    assert(crate::tx::encode_outputs(tx.outputs, 1) =~= crate::tx::encode_output(tx.outputs[0]));
    assert(tx.inputs[0].txid.len() == TXID_LEN);
    assert(tx.outputs[0].script.len() == spec_contract_script_len(kind));
}

/// The fee of a contract transaction; `None` where it exceeds `u64::MAX`.
pub fn contract_fee(fee_rate: u64, kind: ContractKind) -> (fee: Option<u64>)
    ensures
        fee matches Some(f) ==> f == spec_contract_fee(fee_rate, spec_contract_script_len(kind)),
        fee is None <==> spec_contract_fee(fee_rate, spec_contract_script_len(kind)) > u64::MAX,
{
    let script_len: u64 = match kind {
        ContractKind::Refund => KEY_SCRIPT_LEN as u64,
        ContractKind::Hashlock => HASHLOCK_SCRIPT_LEN as u64,
    };
    let size: u64 = CONTRACT_TX_BASE_SIZE + script_len;
    assert(fee_rate * size <= u64::MAX * 200) by (nonlinear_arith)
        requires
            fee_rate <= u64::MAX,
            0 <= size <= 200,
    ;
    let fee: u128 = (fee_rate as u128) * (size as u128);
    if fee > u64::MAX as u128 {
        None
    } else {
        Some(fee as u64)
    }
}

impl HopTerms {
    /// Checks that the keys and the hash value have their lengths.
    pub fn check(&self) -> (checked: Result<(), ContractError>)
        ensures
            checked is Ok <==> terms_well_formed(self@),
            checked matches Err(e) ==> e == ContractError::MalformedScript,
    {
        if self.funder_key.len() == PUBLIC_KEY_LEN && self.receiver_key.len() == PUBLIC_KEY_LEN
            && self.hash_value.len() == HASH_LEN {
            Ok(())
        } else {
            Err(ContractError::MalformedScript)
        }
    }

    /// The funding outputs of the hop: its amount split over `tx_count`
    /// outputs, each under the joint control of both parties.
    pub fn funding_outputs(&self, tx_count: u32) -> (built: Result<Vec<TxOutput>, ContractError>)
        ensures
            built is Ok <==> terms_well_formed(self@) && 1 <= tx_count <= self.amount,
            built matches Ok(v) ==> outputs_view(&v) == spec_funding_outputs(self@, tx_count),
            built matches Ok(v) ==> output_total(outputs_view(&v), v@.len() as int) == self.amount,
            built matches Err(e) ==> e == (if terms_well_formed(self@) {
                ContractError::ValueOutOfBounds
            } else {
                ContractError::MalformedScript
            }),
    {
        if self.check().is_err() {
            return Err(ContractError::MalformedScript);
        }
        let values = match split_funding(self.amount, tx_count) {
            Some(values) => values,
            None => {
                return Err(ContractError::ValueOutOfBounds);
            },
        };
        let mut outputs: Vec<TxOutput> = Vec::new();
        let mut i: usize = 0;
        while i < values.len()
            invariant
                terms_well_formed(self@),
                i <= values@.len(),
                values@.len() == tx_count,
                outputs@.len() == i,
                forall|j: int|
                    0 <= j < tx_count ==> #[trigger] values@[j] == share(self.amount, tx_count, j),
                forall|j: int|
                    0 <= j < i ==> #[trigger] outputs@[j]@ == (TxOutputView {
                        value: values@[j],
                        script: spec_joint_script(self.funder_key@, self.receiver_key@),
                    }),
                output_total(outputs@.map_values(|o: TxOutput| o@), i as int) == value_sum(
                    values@.subrange(0, i as int),
                ),
            decreases values@.len() - i,
        {
            let script = match joint_script(&self.funder_key, &self.receiver_key) {
                Ok(script) => script,
                Err(e) => {
                    return Err(ContractError::MalformedScript);
                },
            };
            let ghost before = outputs@.map_values(|o: TxOutput| o@);
            outputs.push(TxOutput { value: values[i], script });
            proof {
                let after = outputs@.map_values(|o: TxOutput| o@);
                assert(after.len() == i + 1);
                assert(after[i as int].value == values@[i as int]);
                lemma_output_total_extends(before, after, i as int);
                assert(values@.subrange(0, i + 1).drop_last() =~= values@.subrange(0, i as int));
            }
            i += 1;
        }
        assert(values@.subrange(0, values@.len() as int) =~= values@);
        assert(outputs_view(&outputs) =~= spec_funding_outputs(self@, tx_count));
        Ok(outputs)
    }

    /// The contract transaction of the given kind for one funding output.
    pub fn contract_tx(&self, kind: ContractKind, coin: &FundingCoin) -> (built: Result<
        TxTemplate,
        ContractError,
    >)
        ensures
            built is Ok <==> contract_buildable(self@, kind, coin@),
            built matches Ok(tx) ==> tx@ == spec_contract_tx(self@, kind, coin@),
            built matches Err(e) ==> e == (if terms_well_formed(self@) && coin@.outpoint.txid.len()
                == TXID_LEN {
                ContractError::ValueOutOfBounds
            } else {
                ContractError::MalformedScript
            }),
    {
        if self.check().is_err() || coin.outpoint.txid.len() != TXID_LEN {
            return Err(ContractError::MalformedScript);
        }
        let fee: u64 = match contract_fee(self.fee_rate, kind) {
            Some(fee) => fee,
            None => {
                return Err(ContractError::ValueOutOfBounds);
            },
        };
        if fee >= coin.value {
            return Err(ContractError::ValueOutOfBounds);
        }
        let built = match kind {
            ContractKind::Refund => key_script(&self.funder_key),
            ContractKind::Hashlock => hashlock_script(&self.hash_value, &self.receiver_key),
        };
        let script = match built {
            Ok(script) => script,
            Err(e) => {
                return Err(ContractError::MalformedScript);
            },
        };
        let locktime: u32 = match kind {
            ContractKind::Refund => self.locktime,
            ContractKind::Hashlock => 0,
        };
        let mut inputs: Vec<OutPoint> = Vec::new();
        inputs.push(coin.outpoint.clone());
        let mut outputs: Vec<TxOutput> = Vec::new();
        outputs.push(TxOutput { value: coin.value - fee, script });
        let tx = TxTemplate { inputs, outputs, locktime };
        proof {
            let expected = spec_contract_tx(self@, kind, coin@);
            assert(tx@.inputs =~= expected.inputs);
            assert(tx@.outputs =~= expected.outputs);
        }
        Ok(tx)
    }
}

/// What a list of funding coins holds.
pub open spec fn coins_view(coins: &Vec<FundingCoin>) -> Seq<FundingCoinView> {
    coins@.map_values(|c: FundingCoin| c@)
}

/// What a list of byte strings holds.
pub open spec fn strings_view(strings: &Vec<Vec<u8>>) -> Seq<Seq<u8>> {
    strings@.map_values(|s: Vec<u8>| s@)
}

/// Whether a signature verifies under the key for the coin's contract
/// transaction of the given kind.
pub open spec fn contract_signature_valid(
    terms: HopTermsView,
    kind: ContractKind,
    coin: FundingCoinView,
    key: Seq<u8>,
    signature: Seq<u8>,
) -> bool {
    &&& contract_buildable(terms, kind, coin)
    &&& spec_ecdsa_verify(key, spec_digest(spec_contract_tx(terms, kind, coin)), signature)
}

/// Whether there is one signature for each coin and each verifies under the
/// key for its coin's contract transaction.
pub open spec fn contract_signatures_valid(
    terms: HopTermsView,
    kind: ContractKind,
    coins: Seq<FundingCoinView>,
    key: Seq<u8>,
    signatures: Seq<Seq<u8>>,
) -> bool {
    &&& signatures.len() == coins.len()
    &&& forall|i: int|
        0 <= i < coins.len() ==> contract_signature_valid(
            terms,
            kind,
            #[trigger] coins[i],
            key,
            signatures[i],
        )
}

/// Whether every coin names a transaction id of the right length.
pub open spec fn coins_well_formed(coins: Seq<FundingCoinView>) -> bool {
    forall|i: int| 0 <= i < coins.len() ==> (#[trigger] coins[i]).outpoint.txid.len() == TXID_LEN
}

/// Whether a contract transaction of the given kind can be built for every coin.
pub open spec fn contracts_buildable(terms: HopTermsView, kind: ContractKind, coins: Seq<FundingCoinView>) -> bool {
    forall|i: int| 0 <= i < coins.len() ==> contract_buildable(terms, kind, #[trigger] coins[i])
}

/// The signatures that the secret key makes for the contract transaction of
/// the given kind of every coin, in the coins' order.
pub open spec fn spec_signatures(
    terms: HopTermsView,
    kind: ContractKind,
    coins: Seq<FundingCoinView>,
    secret_key: Seq<u8>,
) -> Seq<Seq<u8>> {
    Seq::new(
        coins.len(),
        |i: int|
            spec_ecdsa_sign(secret_key, spec_digest(spec_contract_tx(terms, kind, coins[i]))).unwrap(),
    )
}

/// The sum of the values of the first `upto` coins.
pub open spec fn coin_total(coins: Seq<FundingCoinView>, upto: int) -> int
    decreases upto,
{
    if upto <= 0 {
        0
    } else {
        coin_total(coins, upto - 1) + coins[upto - 1].value
    }
}

/// The sum of coin values does not shrink as more coins are counted.
pub proof fn lemma_coin_total_monotone(coins: Seq<FundingCoinView>, i: int, j: int)
    requires
        0 <= i <= j,
    ensures
        0 <= coin_total(coins, i) <= coin_total(coins, j),
    decreases j,
{
    if i < j {
        lemma_coin_total_monotone(coins, i, j - 1);
    } else if i > 0 {
        lemma_coin_total_monotone(coins, i - 1, i - 1);
    }
}

/// The sum of the coins' values; `None` where it exceeds `u64::MAX`.
pub fn total_coins(coins: &Vec<FundingCoin>) -> (total: Option<u64>)
    ensures
        total matches Some(t) ==> t == coin_total(coins_view(coins), coins@.len() as int),
        total is None <==> coin_total(coins_view(coins), coins@.len() as int) > u64::MAX,
{
    let mut total: u64 = 0;
    let mut i: usize = 0;
    while i < coins.len()
        invariant
            i <= coins@.len(),
            total == coin_total(coins_view(coins), i as int),
        decreases coins@.len() - i,
    {
        let value: u64 = coins[i].value;
        assert(coins_view(coins)[i as int].value == value);
        if value > u64::MAX - total {
            proof {
                lemma_coin_total_monotone(coins_view(coins), i + 1, coins@.len() as int);
            }
            return None;
        }
        total = total + value;
        i += 1;
    }
    Some(total)
}

/// Whether the coins hold the amount, within the tolerance.
pub open spec fn spec_coins_match(coins: Seq<FundingCoinView>, amount: u64, tolerance: u64) -> bool {
    &&& coin_total(coins, coins.len() as int) <= u64::MAX
    &&& spec_within_tolerance(coin_total(coins, coins.len() as int) as u64, amount, tolerance)
}

/// Whether the coins hold the amount, within the tolerance.
pub fn coins_match(coins: &Vec<FundingCoin>, amount: u64, tolerance: u64) -> (matching: bool)
    ensures
        matching == spec_coins_match(coins_view(coins), amount, tolerance),
{
    match total_coins(coins) {
        Some(total) => within_tolerance(total, amount, tolerance),
        None => false,
    }
}

/// Whether the transaction ids are those of the coins, in order.
pub open spec fn spec_names_funding(coins: Seq<FundingCoinView>, txids: Seq<Seq<u8>>) -> bool {
    &&& txids.len() == coins.len()
    &&& forall|i: int| 0 <= i < coins.len() ==> #[trigger] txids[i] == coins[i].outpoint.txid
}

/// Whether the transaction ids are those of the coins, in order.
pub fn names_funding(coins: &Vec<FundingCoin>, txids: &Vec<Vec<u8>>) -> (named: bool)
    ensures
        named == spec_names_funding(coins_view(coins), strings_view(txids)),
{
    if txids.len() != coins.len() {
        return false;
    }
    let mut i: usize = 0;
    while i < coins.len()
        invariant
            i <= coins@.len(),
            txids@.len() == coins@.len(),
            forall|j: int|
                0 <= j < i ==> #[trigger] strings_view(txids)[j] == coins_view(coins)[j].outpoint.txid,
        decreases coins@.len() - i,
    {
        assert(coins_view(coins)[i as int] == coins@[i as int]@);
        assert(strings_view(txids)[i as int] == txids@[i as int]@);
        if !bytes_equal(&txids[i], &coins[i].outpoint.txid) {
            return false;
        }
        i += 1;
    }
    true
}

/// The transaction ids of the coins, in order.
pub fn funding_txids(coins: &Vec<FundingCoin>) -> (txids: Vec<Vec<u8>>)
    ensures
        spec_names_funding(coins_view(coins), strings_view(&txids)),
{
    let mut txids: Vec<Vec<u8>> = Vec::new();
    let mut i: usize = 0;
    while i < coins.len()
        invariant
            i <= coins@.len(),
            txids@.len() == i,
            forall|j: int|
                0 <= j < i ==> #[trigger] strings_view(&txids)[j] == coins_view(coins)[j].outpoint.txid,
        decreases coins@.len() - i,
    {
        assert(coins_view(coins)[i as int] == coins@[i as int]@);
        let ghost before = strings_view(&txids);
        let txid = clone_bytes(&coins[i].outpoint.txid);
        txids.push(txid);
        proof {
            let after = strings_view(&txids);
            assert(after[i as int] == coins_view(coins)[i as int].outpoint.txid);
            assert forall|j: int| 0 <= j < i implies after[j] == before[j] by {}
        }
        i += 1;
    }
    txids
}

/// Copies a list of coins.
pub fn clone_coins(coins: &Vec<FundingCoin>) -> (copy: Vec<FundingCoin>)
    ensures
        coins_view(&copy) == coins_view(coins),
{
    let mut copy: Vec<FundingCoin> = Vec::new();
    let mut i: usize = 0;
    while i < coins.len()
        invariant
            i <= coins@.len(),
            copy@.len() == i,
            forall|j: int| 0 <= j < i ==> #[trigger] coins_view(&copy)[j] == coins_view(coins)[j],
        decreases coins@.len() - i,
    {
        let ghost before = coins_view(&copy);
        copy.push(coins[i].clone());
        proof {
            let after = coins_view(&copy);
            assert(after[i as int] == coins_view(coins)[i as int]);
            assert forall|j: int| 0 <= j < i implies after[j] == before[j] by {}
        }
        i += 1;
    }
    assert(coins_view(&copy) =~= coins_view(coins));
    copy
}

impl HopTerms {
    /// Checks one signature per coin against the coin's contract
    /// transaction of the given kind and the expected public key.
    pub fn verify_contracts(
        &self,
        kind: ContractKind,
        coins: &Vec<FundingCoin>,
        key: &Vec<u8>,
        signatures: &Vec<Vec<u8>>,
    ) -> (checked: Result<(), ContractError>)
        ensures
            checked is Ok <==> contract_signatures_valid(
                self@,
                kind,
                coins_view(coins),
                key@,
                strings_view(signatures),
            ),
            checked matches Err(e) ==> e == ContractError::SignatureMismatch,
    {
        if signatures.len() != coins.len() {
            return Err(ContractError::SignatureMismatch);
        }
        let mut i: usize = 0;
        while i < coins.len()
            invariant
                i <= coins@.len(),
                signatures@.len() == coins@.len(),
                forall|j: int|
                    0 <= j < i ==> contract_signature_valid(
                        self@,
                        kind,
                        #[trigger] coins_view(coins)[j],
                        key@,
                        strings_view(signatures)[j],
                    ),
            decreases coins@.len() - i,
        {
            assert(coins_view(coins)[i as int] == coins@[i as int]@);
            assert(strings_view(signatures)[i as int] == signatures@[i as int]@);
            let tx = match self.contract_tx(kind, &coins[i]) {
                Ok(tx) => tx,
                Err(e) => {
                    return Err(ContractError::SignatureMismatch);
                },
            };
            if tx.verify_signature(key, &signatures[i]).is_err() {
                return Err(ContractError::SignatureMismatch);
            }
            i += 1;
        }
        Ok(())
    }

    /// Signs the contract transaction of the given kind of every coin. The
    /// signatures verify under the public key of the secret key.
    pub fn sign_contracts(&self, kind: ContractKind, coins: &Vec<FundingCoin>, secret_key: &Vec<u8>) -> (signed: Result<
        Vec<Vec<u8>>,
        ContractError,
    >)
        ensures
            signed is Ok <==> spec_public_key(secret_key@) is Some && contracts_buildable(
                self@,
                kind,
                coins_view(coins),
            ),
            signed matches Ok(s) ==> s@.len() == coins@.len() && contract_signatures_valid(
                self@,
                kind,
                coins_view(coins),
                spec_public_key(secret_key@).unwrap(),
                strings_view(&s),
            ),
            signed matches Ok(s) ==> strings_view(&s) == spec_signatures(
                self@,
                kind,
                coins_view(coins),
                secret_key@,
            ),
            signed matches Err(e) ==> e == (if spec_public_key(secret_key@) is None {
                ContractError::SignatureMismatch
            } else if !terms_well_formed(self@) || !coins_well_formed(coins_view(coins)) {
                ContractError::MalformedScript
            } else {
                ContractError::ValueOutOfBounds
            }),
    {
        if public_key(secret_key.as_slice()).is_none() {
            return Err(ContractError::SignatureMismatch);
        }
        if self.check().is_err() {
            if coins.len() > 0 {
                assert(!contract_buildable(self@, kind, coins_view(coins)[0]));
                return Err(ContractError::MalformedScript);
            }
            return Ok(Vec::new());
        }
        let mut k: usize = 0;
        while k < coins.len()
            invariant
                k <= coins@.len(),
                spec_public_key(secret_key@) is Some,
                forall|j: int|
                    0 <= j < k ==> (#[trigger] coins_view(coins)[j]).outpoint.txid.len() == TXID_LEN,
            decreases coins@.len() - k,
        {
            assert(coins_view(coins)[k as int] == coins@[k as int]@);
            if coins[k].outpoint.txid.len() != TXID_LEN {
                assert(!contract_buildable(self@, kind, coins_view(coins)[k as int]));
                assert(!coins_well_formed(coins_view(coins))) by {
                    assert(coins_view(coins)[k as int].outpoint.txid.len() != TXID_LEN);
                }
                return Err(ContractError::MalformedScript);
            }
            k += 1;
        }
        let mut signatures: Vec<Vec<u8>> = Vec::new();
        let mut i: usize = 0;
        while i < coins.len()
            invariant
                i <= coins@.len(),
                terms_well_formed(self@),
                coins_well_formed(coins_view(coins)),
                spec_public_key(secret_key@) is Some,
                signatures@.len() == i,
                forall|j: int|
                    0 <= j < i ==> contract_signature_valid(
                        self@,
                        kind,
                        #[trigger] coins_view(coins)[j],
                        spec_public_key(secret_key@).unwrap(),
                        strings_view(&signatures)[j],
                    ),
                forall|j: int|
                    0 <= j < i ==> Some(#[trigger] strings_view(&signatures)[j]) == spec_ecdsa_sign(
                        secret_key@,
                        spec_digest(spec_contract_tx(self@, kind, coins_view(coins)[j])),
                    ),
            decreases coins@.len() - i,
        {
            assert(coins_view(coins)[i as int] == coins@[i as int]@);
            let tx = match self.contract_tx(kind, &coins[i]) {
                Ok(tx) => tx,
                Err(e) => {
                    return Err(ContractError::ValueOutOfBounds);
                },
            };
            let signature = match tx.sign(secret_key) {
                Ok(signature) => signature,
                Err(e) => {
                    return Err(ContractError::SignatureMismatch);
                },
            };
            let ghost before = strings_view(&signatures);
            let ghost made = signature@;
            signatures.push(signature);
            proof {
                let after = strings_view(&signatures);
                assert(after[i as int] == made);
                assert forall|j: int| 0 <= j < i implies after[j] == before[j] by {}
            }
            i += 1;
        }
        proof {
            let expected = spec_signatures(self@, kind, coins_view(coins), secret_key@);
            assert forall|j: int| 0 <= j < coins@.len() implies strings_view(&signatures)[j]
                == expected[j] by {
                assert(Some(strings_view(&signatures)[j]) == spec_ecdsa_sign(
                    secret_key@,
                    spec_digest(spec_contract_tx(self@, kind, coins_view(coins)[j])),
                ));
            }
            assert(strings_view(&signatures) =~= expected);
        }
        Ok(signatures)
    }

    /// Whether a contract transaction of the given kind can be built for
    /// every coin.
    pub fn can_build(&self, kind: ContractKind, coins: &Vec<FundingCoin>) -> (buildable: bool)
        ensures
            buildable == contracts_buildable(self@, kind, coins_view(coins)),
    {
        let mut i: usize = 0;
        while i < coins.len()
            invariant
                i <= coins@.len(),
                forall|j: int|
                    0 <= j < i ==> contract_buildable(self@, kind, #[trigger] coins_view(coins)[j]),
            decreases coins@.len() - i,
        {
            assert(coins_view(coins)[i as int] == coins@[i as int]@);
            if self.contract_tx(kind, &coins[i]).is_err() {
                return false;
            }
            i += 1;
        }
        true
    }
}

/// Counting one more output adds its value, whatever follows it.
pub proof fn lemma_output_total_extends(before: Seq<TxOutputView>, after: Seq<TxOutputView>, upto: int)
    requires
        0 <= upto <= before.len(),
        upto < after.len(),
        forall|j: int| 0 <= j < upto ==> before[j] == after[j],
    ensures
        output_total(after, upto + 1) == output_total(before, upto) + after[upto].value,
{
    lemma_output_total_agrees(before, after, upto);
}

/// Two sequences that agree on their first outputs have the same total there.
pub proof fn lemma_output_total_agrees(left: Seq<TxOutputView>, right: Seq<TxOutputView>, upto: int)
    requires
        0 <= upto <= left.len(),
        upto <= right.len(),
        forall|j: int| 0 <= j < upto ==> left[j] == right[j],
    ensures
        output_total(left, upto) == output_total(right, upto),
    decreases upto,
{
    if upto > 0 {
        lemma_output_total_agrees(left, right, upto - 1);
    }
}

/// Whether a transaction that spends `funded` pays it out less the expected
/// fee, within the tolerance.
pub open spec fn spec_balanced(tx: TxView, funded: u64, expected_fee: u64, tolerance: u64) -> bool {
    let paid = output_total(tx.outputs, tx.outputs.len() as int);
    &&& expected_fee <= funded
    &&& paid <= u64::MAX
    &&& spec_within_tolerance(paid as u64, (funded - expected_fee) as u64, tolerance)
}

/// Checks that a transaction that spends `funded` pays it out less the
/// expected fee, within the tolerance.
pub fn check_balance(tx: &TxTemplate, funded: u64, expected_fee: u64, tolerance: u64) -> (checked: Result<
    (),
    ContractError,
>)
    ensures
        checked is Ok <==> spec_balanced(tx@, funded, expected_fee, tolerance),
        checked matches Err(e) ==> e == ContractError::ValueOutOfBounds,
{
    if expected_fee > funded {
        return Err(ContractError::ValueOutOfBounds);
    }
    match tx.total_output() {
        Some(paid) => {
            if within_tolerance(paid, funded - expected_fee, tolerance) {
                Ok(())
            } else {
                Err(ContractError::ValueOutOfBounds)
            }
        },
        None => Err(ContractError::ValueOutOfBounds),
    }
}

} // verus!
