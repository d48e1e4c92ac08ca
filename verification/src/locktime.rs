//! Locktimes along the chain of hops. Every hop's refund opens strictly
//! before that of the hop in front of it, so that the Taker can always react
//! before a Maker's refund path opens.

use vstd::prelude::*;
use crate::error::ContractError;

verus! {

/// Each locktime is strictly less than the one before it.
pub open spec fn strictly_decreasing(locktimes: Seq<u32>) -> bool {
    forall|k: int| 0 <= k < locktimes.len() - 1 ==> #[trigger] locktimes[k] > locktimes[k + 1]
}

/// The locktime of hop `hop` in a chain of `hops` hops whose last hop has
/// the locktime `base`, with `step` between neighbours.
pub open spec fn hop_locktime(hops: int, base: u32, step: u32, hop: int) -> int {
    base + step * (hops - 1 - hop)
}

/// In a strictly decreasing chain, every hop's locktime is greater than that
/// of every later hop.
pub proof fn lemma_locktimes_ordered(locktimes: Seq<u32>, earlier: int, later: int)
    requires
        strictly_decreasing(locktimes),
        0 <= earlier < later < locktimes.len(),
    ensures
        locktimes[earlier] > locktimes[later],
    decreases later - earlier,
{
    if earlier + 1 < later {
        lemma_locktimes_ordered(locktimes, earlier + 1, later);
    }
    assert(locktimes[earlier] > locktimes[earlier + 1]);
}

/// Checks a chain of locktimes, first hop first.
pub fn check_locktimes(locktimes: &Vec<u32>) -> (checked: Result<(), ContractError>)
    ensures
        checked is Ok <==> strictly_decreasing(locktimes@),
        checked matches Err(e) ==> e == ContractError::LocktimeNotDecreasing,
{
    let mut k: usize = 1;
    while k < locktimes.len()
        invariant
            1 <= k,
            forall|j: int| 0 <= j < k - 1 && j < locktimes@.len() - 1 ==> #[trigger] locktimes@[j] > locktimes@[j + 1],
        decreases locktimes.len() - k,
    {
        if locktimes[k - 1] <= locktimes[k] {
            assert(!(locktimes@[k - 1] > locktimes@[k - 1 + 1]));
            return Err(ContractError::LocktimeNotDecreasing);
        }
        k += 1;
    }
    Ok(())
}

/// The locktimes of a chain of `hops` hops, first hop first: the last hop
/// gets `base`, and each hop before it `step` more than its successor.
/// Fails where the chain would not decrease or a locktime would not fit.
pub fn build_locktimes(hops: usize, base: u32, step: u32) -> (built: Result<Vec<u32>, ContractError>)
    ensures
        built is Ok <==> hops <= 1 || (step >= 1 && hop_locktime(hops as int, base, step, 0) <= u32::MAX),
        built matches Ok(v) ==> v@.len() == hops && strictly_decreasing(v@) && forall|k: int|
            0 <= k < hops ==> #[trigger] v@[k] == hop_locktime(hops as int, base, step, k),
        built matches Err(e) ==> e == (if step == 0 {
            ContractError::LocktimeNotDecreasing
        } else {
            ContractError::ValueOutOfBounds
        }),
{
    let mut locktimes: Vec<u32> = Vec::new();
    if hops == 0 {
        return Ok(locktimes);
    }
    if hops >= 2 && step == 0 {
        return Err(ContractError::LocktimeNotDecreasing);
    }
    let room: u64 = (u32::MAX - base) as u64;
    let gaps: u64 = (hops - 1) as u64;
    assert(step * gaps == hop_locktime(hops as int, base, step, 0) - base) by (nonlinear_arith)
        requires
            gaps == hops - 1,
    ;
    if gaps > room {
        assert(step * gaps > room) by (nonlinear_arith)
            requires
                step >= 1,
                gaps > room,
        ;
        return Err(ContractError::ValueOutOfBounds);
    }
    assert(step * gaps <= u32::MAX * u32::MAX) by (nonlinear_arith)
        requires
            step <= u32::MAX,
            gaps <= u32::MAX,
    ;
    if (step as u64) * gaps > room {
        assert(step != 0 && gaps != 0) by (nonlinear_arith)
            requires
                step * gaps > room,
                room >= 0,
        ;
        return Err(ContractError::ValueOutOfBounds);
    }
    let mut k: usize = 0;
    while k < hops
        invariant
            k <= hops,
            hops >= 1,
            hops - 1 <= u32::MAX,
            hops == 1 || step >= 1,
            hop_locktime(hops as int, base, step, 0) <= u32::MAX,
            locktimes@.len() == k,
            forall|j: int| 0 <= j < k ==> #[trigger] locktimes@[j] == hop_locktime(hops as int, base, step, j),
        decreases hops - k,
    {
        let behind: u64 = (hops - 1 - k) as u64;
        assert(0 <= step * behind <= step * (hops - 1)) by (nonlinear_arith)
            requires
                0 <= behind <= hops - 1,
                step >= 0,
        ;
        let value: u64 = (base as u64) + (step as u64) * behind;
        locktimes.push(value as u32);
        k += 1;
    }
    proof {
        assert forall|j: int| 0 <= j < locktimes@.len() - 1 implies #[trigger] locktimes@[j]
            > locktimes@[j + 1] by {
            assert(locktimes@[j] == hop_locktime(hops as int, base, step, j));
            assert(locktimes@[j + 1] == hop_locktime(hops as int, base, step, j + 1));
            assert(step * (hops - 1 - j) == step * (hops - 1 - (j + 1)) + step) by (nonlinear_arith);
        }
    }
    Ok(locktimes)
}

} // verus!
