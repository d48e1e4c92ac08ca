//! What the swap engine keeps about the wallet's coins: which outputs are
//! reserved for a negotiation, and the coins that a swap created.

use vstd::prelude::*;
use crate::bytes::bytes_equal;
use crate::tx::{OutPoint, OutPointView};

verus! {

/// Whether two outpoints name the same output.
pub fn same_outpoint(left: &OutPoint, right: &OutPoint) -> (same: bool)
    ensures
        same == (left@ == right@),
{
    left.vout == right.vout && bytes_equal(&left.txid, &right.txid)
}

/// What a list of outpoints holds.
pub open spec fn outpoints_view(outpoints: &Vec<OutPoint>) -> Seq<OutPointView> {
    outpoints@.map_values(|o: OutPoint| o@)
}

/// Whether the outpoint is among the given ones.
pub fn holds_outpoint(outpoints: &Vec<OutPoint>, wanted: &OutPoint) -> (held: bool)
    ensures
        held == outpoints_view(outpoints).contains(wanted@),
{
    let mut i: usize = 0;
    while i < outpoints.len()
        invariant
            i <= outpoints@.len(),
            forall|j: int| 0 <= j < i ==> outpoints_view(outpoints)[j] != wanted@,
        decreases outpoints@.len() - i,
    {
        assert(outpoints_view(outpoints)[i as int] == outpoints@[i as int]@);
        if same_outpoint(&outpoints[i], wanted) {
            return true;
        }
        i += 1;
    }
    false
}

/// The first `upto` of the held outputs without those that the request
/// names, in order.
pub open spec fn spec_without(held: Seq<OutPointView>, unwanted: Seq<OutPointView>, upto: int) -> Seq<
    OutPointView,
>
    decreases upto,
{
    if upto <= 0 {
        Seq::<OutPointView>::empty()
    } else if unwanted.contains(held[upto - 1]) {
        spec_without(held, unwanted, upto - 1)
    } else {
        spec_without(held, unwanted, upto - 1).push(held[upto - 1])
    }
}

/// The outputs that are reserved for negotiations in progress. An output is
/// reserved at most once, so that two negotiations never spend the same one.
#[derive(Debug)]
pub struct Reservations {
    held: Vec<OutPoint>,
}

impl View for Reservations {
    type V = Seq<OutPointView>;

    closed spec fn view(&self) -> Seq<OutPointView> {
        outpoints_view(&self.held)
    }
}

impl Reservations {
    /// The invariant: no output is held twice.
    pub open spec fn wf(&self) -> bool {
        self@.no_duplicates()
    }

    /// Whether a request can be granted: it names no output twice and none
    /// that is held.
    pub open spec fn grantable(&self, wanted: Seq<OutPointView>) -> bool {
        wanted.no_duplicates() && forall|i: int|
            0 <= i < wanted.len() ==> !self@.contains(#[trigger] wanted[i])
    }

    /// Nothing reserved.
    pub fn new() -> (reservations: Reservations)
        ensures
            reservations.wf(),
            reservations@ == Seq::<OutPointView>::empty(),
    {
        let reservations = Reservations { held: Vec::new() };
        assert(reservations@ =~= Seq::<OutPointView>::empty());
        reservations
    }

    /// The reserved outputs, in the order in which they were reserved.
    pub fn held(&self) -> (held: &Vec<OutPoint>)
        ensures
            outpoints_view(held) == self@,
    {
        &self.held
    }

    /// Whether the output is reserved.
    pub fn is_reserved(&self, outpoint: &OutPoint) -> (reserved: bool)
        ensures
            reserved == self@.contains(outpoint@),
    {
        holds_outpoint(&self.held, outpoint)
    }

    /// Reserves all the outputs or none: none where one of them is held
    /// already or is named twice.
    pub fn reserve(&mut self, wanted: &Vec<OutPoint>) -> (granted: bool)
        requires
            old(self).wf(),
        ensures
            final(self).wf(),
            granted == old(self).grantable(outpoints_view(wanted)),
            granted ==> final(self)@ == old(self)@ + outpoints_view(wanted),
            !granted ==> final(self)@ == old(self)@,
    {
        let ghost asked = outpoints_view(wanted);
        let ghost before = self@;
        let mut i: usize = 0;
        while i < wanted.len()
            invariant
                i <= wanted@.len(),
                asked == outpoints_view(wanted),
                self@ == before,
                before.no_duplicates(),
                forall|j: int| 0 <= j < i ==> !self@.contains(#[trigger] asked[j]),
                forall|j: int, k: int| 0 <= j < k < i ==> asked[j] != asked[k],
            decreases wanted@.len() - i,
        {
            assert(asked[i as int] == wanted@[i as int]@);
            if self.is_reserved(&wanted[i]) {
                return false;
            }
            let mut k: usize = 0;
            while k < i
                invariant
                    k <= i < wanted@.len(),
                    asked == outpoints_view(wanted),
                    self@ == before,
                    before.no_duplicates(),
                    forall|j: int| 0 <= j < k ==> asked[j] != asked[i as int],
                decreases i - k,
            {
                assert(asked[k as int] == wanted@[k as int]@);
                assert(asked[i as int] == wanted@[i as int]@);
                if same_outpoint(&wanted[k], &wanted[i]) {
                    assert(!asked.no_duplicates());
                    return false;
                }
                k += 1;
            }
            i += 1;
        }
        let mut n: usize = 0;
        while n < wanted.len()
            invariant
                n <= wanted@.len(),
                asked == outpoints_view(wanted),
                self@ == before + asked.subrange(0, n as int),
            decreases wanted@.len() - n,
        {
            assert(asked[n as int] == wanted@[n as int]@);
            let ghost held = self@;
            self.held.push(wanted[n].clone());
            assert(self@ =~= held.push(asked[n as int]));
            assert(self@ =~= before + asked.subrange(0, n + 1));
            n += 1;
        }
        proof {
            assert(asked.subrange(0, asked.len() as int) =~= asked);
            let after = self@;
            assert forall|a: int, b: int| 0 <= a < b < after.len() implies after[a] != after[b] by {
                if b >= before.len() {
                    if a >= before.len() {
                        assert(after[a] == asked[a - before.len()]);
                        assert(after[b] == asked[b - before.len()]);
                    } else {
                        assert(after[a] == before[a]);
                        assert(before.contains(before[a]));
                        assert(after[b] == asked[b - before.len()]);
                    }
                } else {
                    assert(after[a] == before[a] && after[b] == before[b]);
                }
            }
        }
        true
    }

    /// Releases every output that the request names. Outputs that are not
    /// held are passed over.
    pub fn release(&mut self, unwanted: &Vec<OutPoint>)
        requires
            old(self).wf(),
        ensures
            final(self).wf(),
            final(self)@ == spec_without(
                old(self)@,
                outpoints_view(unwanted),
                old(self)@.len() as int,
            ),
            forall|o: OutPointView|
                #[trigger] final(self)@.contains(o) <==> old(self)@.contains(o)
                    && !outpoints_view(unwanted).contains(o),
    {
        let ghost before = self@;
        let mut kept: Vec<OutPoint> = Vec::new();
        let mut i: usize = 0;
        while i < self.held.len()
            invariant
                i <= self.held@.len(),
                self@ == before,
                before.no_duplicates(),
                outpoints_view(&kept) == spec_without(before, outpoints_view(unwanted), i as int),
                forall|j: int|
                    0 <= j < outpoints_view(&kept).len() ==> before.subrange(0, i as int).contains(
                        #[trigger] outpoints_view(&kept)[j],
                    ) && !outpoints_view(unwanted).contains(outpoints_view(&kept)[j]),
                forall|j: int|
                    0 <= j < i && !outpoints_view(unwanted).contains(#[trigger] before[j])
                        ==> outpoints_view(&kept).contains(before[j]),
                outpoints_view(&kept).no_duplicates(),
            decreases self.held@.len() - i,
        {
            assert(before[i as int] == self.held@[i as int]@);
            let ghost kept_before = outpoints_view(&kept);
            if !holds_outpoint(unwanted, &self.held[i]) {
                kept.push(self.held[i].clone());
                proof {
                    let kept_after = outpoints_view(&kept);
                    assert(kept_after =~= kept_before.push(before[i as int]));
                    assert forall|j: int| 0 <= j < kept_after.len() implies before.subrange(
                        0,
                        i + 1,
                    ).contains(#[trigger] kept_after[j]) && !outpoints_view(unwanted).contains(
                        kept_after[j],
                    ) by {
                        if j < kept_before.len() {
                            let w = choose|w: int|
                                0 <= w < i && before.subrange(0, i as int)[w] == kept_before[j];
                            assert(before.subrange(0, i + 1)[w] == kept_after[j]);
                        } else {
                            assert(before.subrange(0, i + 1)[i as int] == kept_after[j]);
                        }
                    }
                    assert forall|j: int|
                        0 <= j < i + 1 && !outpoints_view(unwanted).contains(
                            #[trigger] before[j],
                        ) implies kept_after.contains(before[j]) by {
                        if j < i {
                            let w = choose|w: int|
                                0 <= w < kept_before.len() && kept_before[w] == before[j];
                            assert(kept_after[w] == before[j]);
                        } else {
                            assert(kept_after[kept_after.len() - 1] == before[j]);
                        }
                    }
                    assert forall|a: int, b: int|
                        0 <= a < b < kept_after.len() implies kept_after[a] != kept_after[b] by {
                        if b == kept_after.len() - 1 {
                            let w = choose|w: int|
                                0 <= w < i && before.subrange(0, i as int)[w] == kept_before[a];
                            assert(before[w] == kept_after[a]);
                        }
                    }
                }
            } else {
                proof {
                    assert forall|j: int| 0 <= j < kept_before.len() implies before.subrange(
                        0,
                        i + 1,
                    ).contains(#[trigger] kept_before[j]) by {
                        let w = choose|w: int|
                            0 <= w < i && before.subrange(0, i as int)[w] == kept_before[j];
                        assert(before.subrange(0, i + 1)[w] == kept_before[j]);
                    }
                }
            }
            i += 1;
        }
        self.held = kept;
        proof {
            let after = self@;
            assert(before.subrange(0, before.len() as int) =~= before);
            assert forall|o: OutPointView|
                after.contains(o) <==> before.contains(o) && !outpoints_view(unwanted).contains(
                    o,
                ) by {
                if after.contains(o) {
                    let j = choose|j: int| 0 <= j < after.len() && after[j] == o;
                    assert(before.contains(after[j]));
                }
                if before.contains(o) && !outpoints_view(unwanted).contains(o) {
                    let j = choose|j: int| 0 <= j < before.len() && before[j] == o;
                    assert(after.contains(before[j]));
                }
            }
        }
    }
}

/// Which way a swap coin flows.
#[derive(Clone, Copy, Debug, PartialEq, Eq, Structural)]
pub enum CoinRole {
    /// The wallet receives it.
    Incoming,
    /// The wallet pays it.
    Outgoing,
}

/// Where a swap coin stands.
#[derive(Clone, Copy, Debug, PartialEq, Eq, Structural)]
pub enum CoinStatus {
    /// The contract is open.
    Live,
    /// It was spent on reveal of the preimage.
    Redeemed,
    /// It went back to its funder after the locktime.
    Refunded,
}

/// An output that a swap created, with what is needed to spend it later.
#[derive(Debug)]
pub struct SwapCoin {
    pub outpoint: OutPoint,
    pub value: u64,
    /// The script that guards the output.
    pub script: Vec<u8>,
    pub role: CoinRole,
    /// The swap attempt that created it.
    pub swap_id: u64,
    pub status: CoinStatus,
}

/// The status of a coin after it is settled as `outcome`: a live coin takes
/// the outcome, a settled one keeps what it has.
pub open spec fn spec_settled(status: CoinStatus, outcome: CoinStatus) -> CoinStatus {
    if status == CoinStatus::Live {
        outcome
    } else {
        status
    }
}

impl SwapCoin {
    /// A coin whose contract has just confirmed.
    pub fn new(outpoint: OutPoint, value: u64, script: Vec<u8>, role: CoinRole, swap_id: u64) -> (coin: SwapCoin)
        ensures
            coin.outpoint == outpoint,
            coin.value == value,
            coin.script == script,
            coin.role == role,
            coin.swap_id == swap_id,
            coin.status == CoinStatus::Live,
    {
        SwapCoin { outpoint, value, script, role, swap_id, status: CoinStatus::Live }
    }

    /// Settles the coin. Returns whether the status changed: a coin is
    /// settled once and never goes back to live.
    pub fn settle(&mut self, outcome: CoinStatus) -> (changed: bool)
        ensures
            final(self).status == spec_settled(old(self).status, outcome),
            changed == (final(self).status != old(self).status),
            final(self).outpoint == old(self).outpoint,
            final(self).value == old(self).value,
            final(self).script == old(self).script,
            final(self).role == old(self).role,
            final(self).swap_id == old(self).swap_id,
    {
        match (self.status, outcome) {
            (CoinStatus::Live, CoinStatus::Redeemed) => {
                self.status = CoinStatus::Redeemed;
                true
            },
            (CoinStatus::Live, CoinStatus::Refunded) => {
                self.status = CoinStatus::Refunded;
                true
            },
            _ => false,
        }
    }
}

} // verus!
