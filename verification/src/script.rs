//! The three scripts of a hop: joint control of the funding by both
//! parties, payment to one key, and payment to one key on reveal of a hash
//! preimage. Each is a fixed byte layout that can be built and read back.

use vstd::prelude::*;
use crate::bytes::{append_bytes, copy_range};
use crate::crypto::{HASH_LEN, PUBLIC_KEY_LEN};
use crate::error::ContractError;

verus! {

/// Pushes the number two.
pub const OP_2: u8 = 0x52;

/// Pushes the next 33 bytes.
pub const OP_PUSH_KEY: u8 = 0x21;

/// Pushes the next 20 bytes.
pub const OP_PUSH_HASH: u8 = 0x14;

/// Hashes the top item with HASH160.
pub const OP_HASH160: u8 = 0xa9;

/// Fails unless the two top items are equal.
pub const OP_EQUALVERIFY: u8 = 0x88;

/// Checks one signature.
pub const OP_CHECKSIG: u8 = 0xac;

/// Checks several signatures.
pub const OP_CHECKMULTISIG: u8 = 0xae;

/// Length of a joint-control script.
pub const JOINT_SCRIPT_LEN: usize = 71;

/// Length of a pay-to-key script.
pub const KEY_SCRIPT_LEN: usize = 35;

/// Length of a hashlock script.
pub const HASHLOCK_SCRIPT_LEN: usize = 58;

/// The script that both keys must sign to spend.
pub open spec fn spec_joint_script(first: Seq<u8>, second: Seq<u8>) -> Seq<u8> {
    seq![OP_2, OP_PUSH_KEY] + first + seq![OP_PUSH_KEY] + second + seq![OP_2, OP_CHECKMULTISIG]
}

/// The script that one key must sign to spend.
pub open spec fn spec_key_script(key: Seq<u8>) -> Seq<u8> {
    seq![OP_PUSH_KEY] + key + seq![OP_CHECKSIG]
}

/// The script that the key must sign, and the preimage of the hash value be
/// shown, to spend.
pub open spec fn spec_hashlock_script(hash_value: Seq<u8>, key: Seq<u8>) -> Seq<u8> {
    seq![OP_HASH160, OP_PUSH_HASH] + hash_value + seq![OP_EQUALVERIFY, OP_PUSH_KEY] + key
        + seq![OP_CHECKSIG]
}

/// Whether the bytes have the layout of a joint-control script.
pub open spec fn is_joint_script(script: Seq<u8>) -> bool {
    &&& script.len() == JOINT_SCRIPT_LEN
    &&& script[0] == OP_2
    &&& script[1] == OP_PUSH_KEY
    &&& script[35] == OP_PUSH_KEY
    &&& script[69] == OP_2
    &&& script[70] == OP_CHECKMULTISIG
}

/// Whether the bytes have the layout of a hashlock script.
pub open spec fn is_hashlock_script(script: Seq<u8>) -> bool {
    &&& script.len() == HASHLOCK_SCRIPT_LEN
    &&& script[0] == OP_HASH160
    &&& script[1] == OP_PUSH_HASH
    &&& script[22] == OP_EQUALVERIFY
    &&& script[23] == OP_PUSH_KEY
    &&& script[57] == OP_CHECKSIG
}

/// Builds the joint-control script of two public keys.
pub fn joint_script(first: &Vec<u8>, second: &Vec<u8>) -> (built: Result<Vec<u8>, ContractError>)
    ensures
        built is Ok <==> first@.len() == PUBLIC_KEY_LEN && second@.len() == PUBLIC_KEY_LEN,
        built matches Ok(s) ==> s@ == spec_joint_script(first@, second@) && is_joint_script(s@),
        built matches Err(e) ==> e == ContractError::MalformedScript,
{
    if first.len() != PUBLIC_KEY_LEN || second.len() != PUBLIC_KEY_LEN {
        return Err(ContractError::MalformedScript);
    }
    let mut script: Vec<u8> = Vec::new();
    script.push(OP_2);
    script.push(OP_PUSH_KEY);
    append_bytes(&mut script, first);
    script.push(OP_PUSH_KEY);
    append_bytes(&mut script, second);
    script.push(OP_2);
    script.push(OP_CHECKMULTISIG);
    assert(script@ =~= spec_joint_script(first@, second@));
    Ok(script)
}

/// Builds the script that pays to one public key.
pub fn key_script(key: &Vec<u8>) -> (built: Result<Vec<u8>, ContractError>)
    ensures
        built is Ok <==> key@.len() == PUBLIC_KEY_LEN,
        built matches Ok(s) ==> s@ == spec_key_script(key@) && s@.len() == KEY_SCRIPT_LEN,
        built matches Err(e) ==> e == ContractError::MalformedScript,
{
    if key.len() != PUBLIC_KEY_LEN {
        return Err(ContractError::MalformedScript);
    }
    let mut script: Vec<u8> = Vec::new();
    script.push(OP_PUSH_KEY);
    append_bytes(&mut script, key);
    script.push(OP_CHECKSIG);
    assert(script@ =~= spec_key_script(key@));
    Ok(script)
}

/// Builds the script that pays to a public key on reveal of the preimage of
/// a hash value.
pub fn hashlock_script(hash_value: &Vec<u8>, key: &Vec<u8>) -> (built: Result<Vec<u8>, ContractError>)
    ensures
        built is Ok <==> hash_value@.len() == HASH_LEN && key@.len() == PUBLIC_KEY_LEN,
        built matches Ok(s) ==> s@ == spec_hashlock_script(hash_value@, key@) && is_hashlock_script(s@),
        built matches Err(e) ==> e == ContractError::MalformedScript,
{
    if hash_value.len() != HASH_LEN || key.len() != PUBLIC_KEY_LEN {
        return Err(ContractError::MalformedScript);
    }
    let mut script: Vec<u8> = Vec::new();
    script.push(OP_HASH160);
    script.push(OP_PUSH_HASH);
    append_bytes(&mut script, hash_value);
    script.push(OP_EQUALVERIFY);
    script.push(OP_PUSH_KEY);
    append_bytes(&mut script, key);
    script.push(OP_CHECKSIG);
    assert(script@ =~= spec_hashlock_script(hash_value@, key@));
    Ok(script)
}

/// Reads the two public keys from a joint-control script.
pub fn read_joint_script(script: &Vec<u8>) -> (keys: Result<(Vec<u8>, Vec<u8>), ContractError>)
    ensures
        keys is Ok <==> is_joint_script(script@),
        keys matches Ok(k) ==> k.0@ == script@.subrange(2, 35) && k.1@ == script@.subrange(36, 69)
            && script@ == spec_joint_script(k.0@, k.1@),
        keys matches Err(e) ==> e == ContractError::MalformedScript,
{
    if script.len() != JOINT_SCRIPT_LEN || script[0] != OP_2 || script[1] != OP_PUSH_KEY
        || script[35] != OP_PUSH_KEY || script[69] != OP_2 || script[70] != OP_CHECKMULTISIG {
        return Err(ContractError::MalformedScript);
    }
    let first = copy_range(script, 2, 35);
    let second = copy_range(script, 36, 69);
    assert(script@ =~= spec_joint_script(first@, second@));
    Ok((first, second))
}

/// Reads the hash value and the public key from a hashlock script.
pub fn read_hashlock_script(script: &Vec<u8>) -> (parts: Result<(Vec<u8>, Vec<u8>), ContractError>)
    ensures
        parts is Ok <==> is_hashlock_script(script@),
        parts matches Ok(p) ==> p.0@ == script@.subrange(2, 22) && p.1@ == script@.subrange(24, 57)
            && script@ == spec_hashlock_script(p.0@, p.1@),
        parts matches Err(e) ==> e == ContractError::MalformedScript,
{
    if script.len() != HASHLOCK_SCRIPT_LEN || script[0] != OP_HASH160 || script[1] != OP_PUSH_HASH
        || script[22] != OP_EQUALVERIFY || script[23] != OP_PUSH_KEY || script[57] != OP_CHECKSIG {
        return Err(ContractError::MalformedScript);
    }
    let hash_value = copy_range(script, 2, 22);
    let key = copy_range(script, 24, 57);
    assert(script@ =~= spec_hashlock_script(hash_value@, key@));
    Ok((hash_value, key))
}

/// Reading a joint-control script gives back the keys it was built from.
pub proof fn lemma_joint_script_round_trip(first: Seq<u8>, second: Seq<u8>)
    requires
        first.len() == PUBLIC_KEY_LEN,
        second.len() == PUBLIC_KEY_LEN,
    ensures
        is_joint_script(spec_joint_script(first, second)),
        spec_joint_script(first, second).subrange(2, 35) == first,
        spec_joint_script(first, second).subrange(36, 69) == second,
{
    let script = spec_joint_script(first, second);
    assert(script.subrange(2, 35) =~= first);
    assert(script.subrange(36, 69) =~= second);
}

/// Reading a hashlock script gives back the hash value and the key it was
/// built from.
pub proof fn lemma_hashlock_script_round_trip(hash_value: Seq<u8>, key: Seq<u8>)
    requires
        hash_value.len() == HASH_LEN,
        key.len() == PUBLIC_KEY_LEN,
    ensures
        is_hashlock_script(spec_hashlock_script(hash_value, key)),
        spec_hashlock_script(hash_value, key).subrange(2, 22) == hash_value,
        spec_hashlock_script(hash_value, key).subrange(24, 57) == key,
{
    let script = spec_hashlock_script(hash_value, key);
    assert(script.subrange(2, 22) =~= hash_value);
    assert(script.subrange(24, 57) =~= key);
}

} // verus!
