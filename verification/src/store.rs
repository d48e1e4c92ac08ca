//! The record of the coins that swaps created, keyed by outpoint, and the
//! record as bytes, so that it outlives the process.

use vstd::prelude::*;
use vstd::bytes::{spec_u32_to_le_bytes, spec_u64_to_le_bytes};
use crate::codec::{lemma_continue_step, spec_continue};
use crate::tx::{OutPoint, OutPointView};
use crate::wallet::{same_outpoint, spec_settled, CoinRole, CoinStatus, SwapCoin};
use crate::wire::{
    dec_bytes, dec_items, dec_list, dec_u32, dec_u64, dec_u8, enc_bytes, enc_items, enc_list,
    lemma_bytes_round_trip, lemma_enc_items_push, lemma_list_round_trip, lemma_u32_round_trip,
    lemma_u64_round_trip, lemma_u8_round_trip, read_bytes, read_u32, read_u64, read_u8, rest,
    write_bytes, write_u32, write_u64, write_u8,
};

verus! {

/// What a `SwapCoin` holds.
pub struct SwapCoinView {
    pub outpoint: OutPointView,
    pub value: u64,
    pub script: Seq<u8>,
    pub role: CoinRole,
    pub swap_id: u64,
    pub status: CoinStatus,
}

impl View for SwapCoin {
    type V = SwapCoinView;

    open spec fn view(&self) -> SwapCoinView {
        SwapCoinView {
            outpoint: self.outpoint@,
            value: self.value,
            script: self.script@,
            role: self.role,
            swap_id: self.swap_id,
            status: self.status,
        }
    }
}

/// What a list of swap coins holds.
pub open spec fn swap_coins_view(coins: &Vec<SwapCoin>) -> Seq<SwapCoinView> {
    coins@.map_values(|c: SwapCoin| c@)
}

/// Whether no two coins have the same outpoint.
pub open spec fn distinct_outpoints(coins: Seq<SwapCoinView>) -> bool {
    forall|i: int, j: int|
        0 <= i < j < coins.len() ==> (#[trigger] coins[i]).outpoint != (
        #[trigger] coins[j]).outpoint
}

/// Whether a coin with the outpoint is among the coins.
pub open spec fn holds_coin(coins: Seq<SwapCoinView>, outpoint: OutPointView) -> bool {
    exists|i: int| 0 <= i < coins.len() && (#[trigger] coins[i]).outpoint == outpoint
}

/// The byte that stands for a role.
pub open spec fn role_code(role: CoinRole) -> u8 {
    match role {
        CoinRole::Incoming => 0,
        CoinRole::Outgoing => 1,
    }
}

/// The role that a byte stands for.
pub open spec fn spec_role(code: u8) -> Option<CoinRole> {
    if code == 0 {
        Some(CoinRole::Incoming)
    } else if code == 1 {
        Some(CoinRole::Outgoing)
    } else {
        None
    }
}

/// The byte that stands for a status.
pub open spec fn status_code(status: CoinStatus) -> u8 {
    match status {
        CoinStatus::Live => 0,
        CoinStatus::Redeemed => 1,
        CoinStatus::Refunded => 2,
    }
}

/// The status that a byte stands for.
pub open spec fn spec_status(code: u8) -> Option<CoinStatus> {
    if code == 0 {
        Some(CoinStatus::Live)
    } else if code == 1 {
        Some(CoinStatus::Redeemed)
    } else if code == 2 {
        Some(CoinStatus::Refunded)
    } else {
        None
    }
}

/// A swap coin as bytes: the transaction id, the index, the value, the
/// script, the role, the swap, the status.
pub open spec fn enc_swap_coin(c: SwapCoinView) -> Seq<u8> {
    enc_bytes(c.outpoint.txid) + spec_u32_to_le_bytes(c.outpoint.vout) + spec_u64_to_le_bytes(
        c.value,
    ) + enc_bytes(c.script) + seq![role_code(c.role)] + spec_u64_to_le_bytes(c.swap_id)
        + seq![status_code(c.status)]
}

/// Reads a swap coin.
pub open spec fn dec_swap_coin(s: Seq<u8>) -> Option<(SwapCoinView, Seq<u8>)> {
    match dec_bytes(s) {
        Some((txid, s1)) => match dec_u32(s1) {
            Some((vout, s2)) => match dec_u64(s2) {
                Some((value, s3)) => match dec_bytes(s3) {
                    Some((script, s4)) => match dec_u8(s4) {
                        Some((role, s5)) => match dec_u64(s5) {
                            Some((swap_id, s6)) => match dec_u8(s6) {
                                Some((status, s7)) => match (spec_role(role), spec_status(status)) {
                                    (Some(role), Some(status)) => Some(
                                        (
                                            SwapCoinView {
                                                outpoint: OutPointView { txid, vout },
                                                value,
                                                script,
                                                role,
                                                swap_id,
                                                status,
                                            },
                                            s7,
                                        ),
                                    ),
                                    _ => None,
                                },
                                None => None,
                            },
                            None => None,
                        },
                        None => None,
                    },
                    None => None,
                },
                None => None,
            },
            None => None,
        },
        None => None,
    }
}

/// How a swap coin is written.
pub open spec fn swap_coin_enc() -> spec_fn(SwapCoinView) -> Seq<u8> {
    |c: SwapCoinView| enc_swap_coin(c)
}

/// How a swap coin is read.
pub open spec fn swap_coin_dec() -> spec_fn(Seq<u8>) -> Option<(SwapCoinView, Seq<u8>)> {
    |s: Seq<u8>| dec_swap_coin(s)
}

/// Whether the lengths in a swap coin can be written.
pub open spec fn swap_coin_encodable(c: SwapCoinView) -> bool {
    c.outpoint.txid.len() <= u32::MAX && c.script.len() <= u32::MAX
}

/// Whether the lengths in a record can be written.
pub open spec fn record_encodable(coins: Seq<SwapCoinView>) -> bool {
    coins.len() <= u32::MAX && forall|i: int|
        0 <= i < coins.len() ==> swap_coin_encodable(#[trigger] coins[i])
}

/// A record as bytes: the list of its coins.
pub open spec fn spec_encode_record(coins: Seq<SwapCoinView>) -> Seq<u8> {
    enc_list(coins, swap_coin_enc())
}

/// The record that the bytes are, where they are a list of coins with
/// distinct outpoints and nothing follows it.
pub open spec fn spec_decode_record(s: Seq<u8>) -> Option<Seq<SwapCoinView>> {
    match dec_list(s, swap_coin_dec()) {
        Some((coins, end)) => if end.len() == 0 && distinct_outpoints(coins) {
            Some(coins)
        } else {
            None
        },
        None => None,
    }
}

/// Reading gives back the swap coin that was written.
pub proof fn lemma_swap_coin_round_trip(c: SwapCoinView, tail: Seq<u8>)
    requires
        swap_coin_encodable(c),
    ensures
        dec_swap_coin(enc_swap_coin(c) + tail) == Some((c, tail)),
{
    let s6 = seq![status_code(c.status)] + tail;
    let s5 = spec_u64_to_le_bytes(c.swap_id) + s6;
    let s4 = seq![role_code(c.role)] + s5;
    let s3 = enc_bytes(c.script) + s4;
    let s2 = spec_u64_to_le_bytes(c.value) + s3;
    let s1 = spec_u32_to_le_bytes(c.outpoint.vout) + s2;
    assert(enc_swap_coin(c) + tail =~= enc_bytes(c.outpoint.txid) + s1);
    lemma_bytes_round_trip(c.outpoint.txid, s1);
    lemma_u32_round_trip(c.outpoint.vout, s2);
    lemma_u64_round_trip(c.value, s3);
    lemma_bytes_round_trip(c.script, s4);
    lemma_u8_round_trip(role_code(c.role), s5);
    lemma_u64_round_trip(c.swap_id, s6);
    lemma_u8_round_trip(status_code(c.status), tail);
}

/// A record that was written is read back as it was.
pub proof fn lemma_record_round_trip(coins: Seq<SwapCoinView>)
    requires
        record_encodable(coins),
        distinct_outpoints(coins),
    ensures
        spec_decode_record(spec_encode_record(coins)) == Some(coins),
{
    let empty = Seq::<u8>::empty();
    assert forall|i: int, after: Seq<u8>| 0 <= i < coins.len() implies #[trigger] swap_coin_dec()(
        swap_coin_enc()(coins[i]) + after,
    ) == Some((coins[i], after)) by {
        lemma_swap_coin_round_trip(coins[i], after);
    }
    lemma_list_round_trip(coins, swap_coin_enc(), swap_coin_dec(), empty);
    assert(spec_encode_record(coins) + empty =~= spec_encode_record(coins));
}

/// Writes a swap coin. Returns whether its lengths can be written.
pub fn write_swap_coin(buffer: &mut Vec<u8>, coin: &SwapCoin) -> (written: bool)
    ensures
        written == swap_coin_encodable(coin@),
        written ==> final(buffer)@ == old(buffer)@ + enc_swap_coin(coin@),
{
    if coin.outpoint.txid.len() > u32::MAX as usize || coin.script.len() > u32::MAX as usize {
        return false;
    }
    write_bytes(buffer, &coin.outpoint.txid);
    write_u32(buffer, coin.outpoint.vout);
    write_u64(buffer, coin.value);
    write_bytes(buffer, &coin.script);
    let role: u8 = match coin.role {
        CoinRole::Incoming => 0,
        CoinRole::Outgoing => 1,
    };
    write_u8(buffer, role);
    write_u64(buffer, coin.swap_id);
    let status: u8 = match coin.status {
        CoinStatus::Live => 0,
        CoinStatus::Redeemed => 1,
        CoinStatus::Refunded => 2,
    };
    write_u8(buffer, status);
    assert(buffer@ =~= old(buffer)@ + enc_swap_coin(coin@));
    true
}

/// Reads a swap coin at place `at`.
pub fn read_swap_coin(data: &Vec<u8>, at: usize) -> (read: Option<(SwapCoin, usize)>)
    requires
        at <= data@.len(),
    ensures
        match dec_swap_coin(rest(data@, at as int)) {
            Some((c, tail)) => read matches Some(r) && r.0@ == c && at <= r.1 <= data@.len()
                && rest(data@, r.1 as int) == tail,
            None => read is None,
        },
{
    let (txid, end1) = match read_bytes(data, at) {
        Some(r) => r,
        None => {
            return None;
        },
    };
    let (vout, end2) = match read_u32(data, end1) {
        Some(r) => r,
        None => {
            return None;
        },
    };
    let (value, end3) = match read_u64(data, end2) {
        Some(r) => r,
        None => {
            return None;
        },
    };
    let (script, end4) = match read_bytes(data, end3) {
        Some(r) => r,
        None => {
            return None;
        },
    };
    let (role_byte, end5) = match read_u8(data, end4) {
        Some(r) => r,
        None => {
            return None;
        },
    };
    let (swap_id, end6) = match read_u64(data, end5) {
        Some(r) => r,
        None => {
            return None;
        },
    };
    let (status_byte, end7) = match read_u8(data, end6) {
        Some(r) => r,
        None => {
            return None;
        },
    };
    let role = if role_byte == 0 {
        CoinRole::Incoming
    } else if role_byte == 1 {
        CoinRole::Outgoing
    } else {
        return None;
    };
    let status = if status_byte == 0 {
        CoinStatus::Live
    } else if status_byte == 1 {
        CoinStatus::Redeemed
    } else if status_byte == 2 {
        CoinStatus::Refunded
    } else {
        return None;
    };
    Some((SwapCoin { outpoint: OutPoint { txid, vout }, value, script, role, swap_id, status }, end7))
}

/// The coins that swaps created. No outpoint is held twice.
#[derive(Debug)]
pub struct SwapCoinStore {
    coins: Vec<SwapCoin>,
}

impl View for SwapCoinStore {
    type V = Seq<SwapCoinView>;

    closed spec fn view(&self) -> Seq<SwapCoinView> {
        swap_coins_view(&self.coins)
    }
}

/// The place of the coin with the outpoint among the first `upto` coins,
/// or `upto` where there is none.
pub open spec fn spec_coin_place(coins: Seq<SwapCoinView>, outpoint: OutPointView, upto: int) -> int
    decreases upto,
{
    if upto <= 0 {
        0
    } else {
        let before = spec_coin_place(coins, outpoint, upto - 1);
        if before < upto - 1 || coins[upto - 1].outpoint == outpoint {
            before
        } else {
            upto
        }
    }
}

/// The place that is found holds the outpoint, and no place before it does.
pub proof fn lemma_coin_place(coins: Seq<SwapCoinView>, outpoint: OutPointView, upto: int)
    requires
        0 <= upto <= coins.len(),
    ensures
        0 <= spec_coin_place(coins, outpoint, upto) <= upto,
        spec_coin_place(coins, outpoint, upto) < upto ==> coins[spec_coin_place(
            coins,
            outpoint,
            upto,
        )].outpoint == outpoint,
        forall|j: int|
            0 <= j < spec_coin_place(coins, outpoint, upto) ==> (#[trigger] coins[j]).outpoint
                != outpoint,
    decreases upto,
{
    if upto > 0 {
        lemma_coin_place(coins, outpoint, upto - 1);
    }
}

impl SwapCoinStore {
    /// The store's invariant: no outpoint is held twice.
    pub open spec fn wf(&self) -> bool {
        distinct_outpoints(self@)
    }

    /// An empty store.
    pub fn new() -> (store: SwapCoinStore)
        ensures
            store.wf(),
            store@ == Seq::<SwapCoinView>::empty(),
    {
        let store = SwapCoinStore { coins: Vec::new() };
        assert(store@ =~= Seq::<SwapCoinView>::empty());
        store
    }

    /// The coins, in the order in which they were added.
    pub fn coins(&self) -> (coins: &Vec<SwapCoin>)
        ensures
            swap_coins_view(coins) == self@,
    {
        &self.coins
    }

    /// The place of the coin with the outpoint.
    pub fn find(&self, outpoint: &OutPoint) -> (place: Option<usize>)
        ensures
            place is Some <==> holds_coin(self@, outpoint@),
            place matches Some(i) ==> i < self@.len() && self@[i as int].outpoint == outpoint@ && i
                == spec_coin_place(self@, outpoint@, self@.len() as int),
    {
        let mut i: usize = 0;
        while i < self.coins.len()
            invariant
                i <= self.coins@.len(),
                spec_coin_place(self@, outpoint@, i as int) == i,
                forall|j: int| 0 <= j < i ==> (#[trigger] self@[j]).outpoint != outpoint@,
            decreases self.coins@.len() - i,
        {
            assert(self@[i as int] == self.coins@[i as int]@);
            if same_outpoint(&self.coins[i].outpoint, outpoint) {
                proof {
                    lemma_coin_place_found(self@, outpoint@, i as int, self@.len() as int);
                }
                return Some(i);
            }
            i += 1;
        }
        None
    }

    /// Adds a coin, unless one with its outpoint is held. Returns whether
    /// it was added.
    pub fn insert(&mut self, coin: SwapCoin) -> (added: bool)
        requires
            old(self).wf(),
        ensures
            final(self).wf(),
            added == !holds_coin(old(self)@, coin@.outpoint),
            added ==> final(self)@ == old(self)@.push(coin@),
            !added ==> final(self)@ == old(self)@,
    {
        if self.find(&coin.outpoint).is_some() {
            return false;
        }
        let ghost before = self@;
        let ghost added = coin@;
        self.coins.push(coin);
        proof {
            assert(self@ =~= before.push(added));
            assert forall|a: int, b: int| 0 <= a < b < self@.len() implies (
            #[trigger] self@[a]).outpoint != (#[trigger] self@[b]).outpoint by {
                if b < before.len() {
                    assert(self@[a] == before[a] && self@[b] == before[b]);
                } else {
                    assert(self@[a] == before[a]);
                }
            }
        }
        true
    }

    /// Settles the coin with the outpoint. Returns whether its status
    /// changed.
    pub fn settle(&mut self, outpoint: &OutPoint, outcome: CoinStatus) -> (changed: bool)
        requires
            old(self).wf(),
        ensures
            final(self).wf(),
            final(self)@.len() == old(self)@.len(),
            forall|i: int|
                0 <= i < old(self)@.len() ==> #[trigger] final(self)@[i] == (if old(
                    self,
                )@[i].outpoint == outpoint@ {
                    SwapCoinView { status: spec_settled(old(self)@[i].status, outcome), ..old(self)@[i] }
                } else {
                    old(self)@[i]
                }),
            changed == exists|i: int|
                0 <= i < old(self)@.len() && (#[trigger] old(self)@[i]).outpoint == outpoint@
                    && spec_settled(old(self)@[i].status, outcome) != old(self)@[i].status,
    {
        let ghost before = self@;
        match self.find(outpoint) {
            Some(place) => {
                assert(before[place as int] == self.coins@[place as int]@);
                let held = &self.coins[place];
                let mut coin = SwapCoin {
                    outpoint: held.outpoint.clone(),
                    value: held.value,
                    script: crate::bytes::clone_bytes(&held.script),
                    role: held.role,
                    swap_id: held.swap_id,
                    status: held.status,
                };
                let changed = coin.settle(outcome);
                let ghost settled = coin@;
                self.coins[place] = coin;
                proof {
                    assert(self@ =~= before.update(place as int, settled));
                    assert forall|a: int, b: int| 0 <= a < b < self@.len() implies (
                    #[trigger] self@[a]).outpoint != (#[trigger] self@[b]).outpoint by {
                        assert(self@[a].outpoint == before[a].outpoint);
                        assert(self@[b].outpoint == before[b].outpoint);
                    }
                    assert forall|i: int| 0 <= i < before.len() implies #[trigger] self@[i] == (
                    if before[i].outpoint == outpoint@ {
                        SwapCoinView { status: spec_settled(before[i].status, outcome), ..before[i] }
                    } else {
                        before[i]
                    }) by {
                        if i != place {
                            if i < place {
                                assert(before[i].outpoint != before[place as int].outpoint);
                            } else {
                                assert(before[place as int].outpoint != before[i].outpoint);
                            }
                        }
                    }
                    if changed {
                        assert(before[place as int].outpoint == outpoint@ && spec_settled(
                            before[place as int].status,
                            outcome,
                        ) != before[place as int].status);
                    } else {
                        assert forall|i: int|
                            0 <= i < before.len() && (#[trigger] before[i]).outpoint
                                == outpoint@ implies spec_settled(before[i].status, outcome)
                            == before[i].status by {
                            if i < place {
                                assert(before[i].outpoint != before[place as int].outpoint);
                            } else if i > place {
                                assert(before[place as int].outpoint != before[i].outpoint);
                            }
                        }
                    }
                }
                changed
            },
            None => {
                proof {
                    assert forall|i: int| 0 <= i < before.len() implies (
                    #[trigger] before[i]).outpoint != outpoint@ by {
                        if before[i].outpoint == outpoint@ {
                            assert(holds_coin(before, outpoint@));
                        }
                    }
                }
                false
            },
        }
    }

    /// The record as bytes; `None` where a length in it cannot be written.
    /// What is written is read back as the same record.
    pub fn encode(&self) -> (bytes: Option<Vec<u8>>)
        requires
            self.wf(),
        ensures
            bytes is Some <==> record_encodable(self@),
            bytes matches Some(b) ==> b@ == spec_encode_record(self@) && spec_decode_record(b@)
                == Some(self@),
    {
        if self.coins.len() > u32::MAX as usize {
            return None;
        }
        let mut buffer: Vec<u8> = Vec::new();
        let ghost items = self@;
        write_u32(&mut buffer, self.coins.len() as u32);
        let ghost head = buffer@;
        let mut i: usize = 0;
        while i < self.coins.len()
            invariant
                i <= self.coins@.len(),
                items == self@,
                buffer@ == head + enc_items(items.subrange(0, i as int), swap_coin_enc()),
                forall|j: int| 0 <= j < i ==> swap_coin_encodable(#[trigger] items[j]),
            decreases self.coins@.len() - i,
        {
            assert(items[i as int] == self.coins@[i as int]@);
            if !write_swap_coin(&mut buffer, &self.coins[i]) {
                return None;
            }
            proof {
                lemma_enc_items_push(items.subrange(0, i as int), items[i as int], swap_coin_enc());
                assert(items.subrange(0, i as int).push(items[i as int]) =~= items.subrange(
                    0,
                    i + 1,
                ));
                assert(buffer@ =~= head + enc_items(items.subrange(0, i + 1), swap_coin_enc()));
            }
            i += 1;
        }
        proof {
            assert(items.subrange(0, items.len() as int) =~= items);
            assert(buffer@ =~= spec_encode_record(items));
            lemma_record_round_trip(items);
        }
        Some(buffer)
    }

    /// Reads a record; `None` where the bytes are none, are followed by
    /// more, or hold an outpoint twice.
    pub fn decode(data: &Vec<u8>) -> (store: Option<SwapCoinStore>)
        ensures
            match spec_decode_record(data@) {
                Some(coins) => store matches Some(s) && s@ == coins && s.wf(),
                None => store is None,
            },
    {
        assert(rest(data@, 0) =~= data@);
        let (count, start) = match read_u32(data, 0) {
            Some(r) => r,
            None => {
                return None;
            },
        };
        let ghost whole = dec_items(rest(data@, start as int), count as nat, swap_coin_dec());
        let mut store = SwapCoinStore::new();
        let mut place: usize = start;
        let mut i: u32 = 0;
        let mut distinct: bool = true;
        let ghost mut read = Seq::<SwapCoinView>::empty();
        proof {
            match whole {
                Some((l, end)) => {
                    assert(Seq::<SwapCoinView>::empty() + l =~= l);
                },
                None => {},
            }
        }
        while i < count
            invariant
                i <= count,
                place <= data@.len(),
                dec_list(data@, swap_coin_dec()) == whole,
                whole == spec_continue(
                    read,
                    rest(data@, place as int),
                    (count - i) as nat,
                    swap_coin_dec(),
                ),
                store.wf(),
                distinct ==> store@ == read,
                distinct == distinct_outpoints(read),
            decreases count - i,
        {
            proof {
                lemma_continue_step(
                    read,
                    rest(data@, place as int),
                    (count - i) as nat,
                    swap_coin_dec(),
                );
            }
            let (coin, next) = match read_swap_coin(data, place) {
                Some(r) => r,
                None => {
                    return None;
                },
            };
            let ghost added = coin@;
            let ghost before = read;
            if distinct {
                if !store.insert(coin) {
                    distinct = false;
                    proof {
                        let k = choose|k: int|
                            0 <= k < before.len() && (#[trigger] before[k]).outpoint
                                == added.outpoint;
                        assert(before.push(added)[k].outpoint == before.push(added)[before.len() as int].outpoint);
                    }
                } else {
                    proof {
                        assert forall|a: int, b: int|
                            0 <= a < b < before.push(added).len() implies (#[trigger] before.push(
                            added,
                        )[a]).outpoint != (#[trigger] before.push(added)[b]).outpoint by {
                            if b == before.len() {
                                if before[a].outpoint == added.outpoint {
                                    assert(holds_coin(before, added.outpoint));
                                }
                            } else {
                                assert(before[a].outpoint != before[b].outpoint);
                            }
                        }
                    }
                }
            } else {
                proof {
                    let (a, b) = choose|a: int, b: int|
                        0 <= a < b < before.len() && (#[trigger] before[a]).outpoint == (
                        #[trigger] before[b]).outpoint;
                    assert(before.push(added)[a].outpoint == before.push(added)[b].outpoint);
                }
            }
            proof {
                read = before.push(added);
            }
            place = next;
            i += 1;
        }
        proof {
            assert(read + Seq::<SwapCoinView>::empty() =~= read);
        }
        if place == data.len() && distinct {
            Some(store)
        } else {
            None
        }
    }
}

/// Where the outpoint stands at a place and nowhere before it, that place
/// is found, however many coins are searched.
pub proof fn lemma_coin_place_found(coins: Seq<SwapCoinView>, outpoint: OutPointView, place: int, upto: int)
    requires
        0 <= place < upto <= coins.len(),
        spec_coin_place(coins, outpoint, place) == place,
        coins[place].outpoint == outpoint,
    ensures
        spec_coin_place(coins, outpoint, upto) == place,
    decreases upto,
{
    if upto > place + 1 {
        lemma_coin_place_found(coins, outpoint, place, upto - 1);
    }
}

} // verus!
