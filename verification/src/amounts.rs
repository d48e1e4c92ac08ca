//! Fees and amounts of a swap: what each Maker charges, what each hop
//! carries, how a hop's funding is split over several outputs, and when an
//! observed value is close enough to the agreed one.

use vstd::prelude::*;

verus! {

/// Parts of a billion, the unit of a relative fee.
pub const PPB: u64 = 1_000_000_000;

/// What a Maker charges: a flat part and a part relative to the swap size.
#[derive(Clone, Copy, Debug, PartialEq, Eq, Structural)]
pub struct FeeSchedule {
    /// Charged on every swap.
    pub absolute_fee: u64,
    /// Charged per billion units of the swap size, rounded down.
    pub relative_fee_ppb: u64,
}

impl FeeSchedule {
    /// The fee for a swap of the given size.
    pub open spec fn spec_fee(&self, amount: u64) -> int {
        self.absolute_fee + (amount * self.relative_fee_ppb) / (PPB as int)
    }

    /// The fee for a swap of the given size, unless it exceeds `u64::MAX`.
    pub fn fee(&self, amount: u64) -> (fee: Option<u64>)
        ensures
            fee matches Some(f) ==> f == self.spec_fee(amount),
            fee is None <==> self.spec_fee(amount) > u64::MAX,
    {
        assert(amount * self.relative_fee_ppb <= u64::MAX * u64::MAX) by (nonlinear_arith)
            requires
                amount <= u64::MAX,
                self.relative_fee_ppb <= u64::MAX,
        ;
        let product: u128 = (amount as u128) * (self.relative_fee_ppb as u128);
        let relative: u128 = product / (PPB as u128);
        let total: u128 = relative + (self.absolute_fee as u128);
        if total > u64::MAX as u128 {
            None
        } else {
            Some(total as u64)
        }
    }
}

/// The sum of the fees from hop `from` to the last hop.
pub open spec fn fee_sum(fees: Seq<u64>, from: int) -> int
    decreases fees.len() - from,
{
    if from < 0 || from >= fees.len() {
        0
    } else {
        fees[from] + fee_sum(fees, from + 1)
    }
}

/// What hop `hop` carries: the amount that arrives at the end of the chain
/// plus the fees of this hop and of every hop after it.
pub open spec fn hop_amount(send_amount: u64, fees: Seq<u64>, hop: int) -> int {
    send_amount + fee_sum(fees, hop)
}

/// The fee sum does not grow towards the end of the chain.
pub proof fn lemma_fee_sum_monotone(fees: Seq<u64>, i: int, j: int)
    requires
        0 <= i <= j,
    ensures
        0 <= fee_sum(fees, j) <= fee_sum(fees, i),
    decreases fees.len() - i,
{
    if i >= fees.len() {
        assert(fee_sum(fees, i) == 0);
        assert(fee_sum(fees, j) == 0);
    } else if i < j {
        lemma_fee_sum_monotone(fees, i + 1, j);
    } else {
        lemma_fee_sum_nonnegative(fees, i);
    }
}

/// A fee sum is never negative.
pub proof fn lemma_fee_sum_nonnegative(fees: Seq<u64>, from: int)
    ensures
        0 <= fee_sum(fees, from),
    decreases fees.len() - from,
{
    if 0 <= from < fees.len() {
        lemma_fee_sum_nonnegative(fees, from + 1);
    }
}

/// The amount of every hop, first hop first; `None` where the first hop's
/// amount would exceed `u64::MAX`.
pub fn build_hop_amounts(send_amount: u64, fees: &Vec<u64>) -> (amounts: Option<Vec<u64>>)
    ensures
        amounts is Some <==> hop_amount(send_amount, fees@, 0) <= u64::MAX,
        amounts matches Some(a) ==> a@.len() == fees@.len() && forall|k: int|
            0 <= k < fees@.len() ==> #[trigger] a@[k] == hop_amount(send_amount, fees@, k),
{
    let n: usize = fees.len();
    let mut reversed: Vec<u64> = Vec::new();
    let mut running: u64 = send_amount;
    let mut k: usize = n;
    while k > 0
        invariant
            n == fees@.len(),
            k <= n,
            running == hop_amount(send_amount, fees@, k as int),
            reversed@.len() == n - k,
            forall|i: int|
                0 <= i < reversed@.len() ==> #[trigger] reversed@[i] == hop_amount(
                    send_amount,
                    fees@,
                    n - 1 - i,
                ),
        decreases k,
    {
        k -= 1;
        let fee: u64 = fees[k];
        if fee > u64::MAX - running {
            proof {
                lemma_fee_sum_monotone(fees@, 0, k as int);
            }
            return None;
        }
        running = running + fee;
        reversed.push(running);
    }
    let mut amounts: Vec<u64> = Vec::new();
    let mut i: usize = n;
    while i > 0
        invariant
            n == fees@.len(),
            i <= n,
            reversed@.len() == n,
            amounts@.len() == n - i,
            forall|j: int|
                0 <= j < n ==> #[trigger] reversed@[j] == hop_amount(send_amount, fees@, n - 1 - j),
            forall|j: int|
                0 <= j < amounts@.len() ==> #[trigger] amounts@[j] == hop_amount(send_amount, fees@, j),
        decreases i,
    {
        i -= 1;
        amounts.push(reversed[i]);
    }
    Some(amounts)
}

/// The sum of a sequence of values.
pub open spec fn value_sum(values: Seq<u64>) -> int
    decreases values.len(),
{
    if values.len() == 0 {
        0
    } else {
        value_sum(values.drop_last()) + values.last()
    }
}

/// The share of output `index` when `total` is split over `count` outputs:
/// equal shares, the remainder spread over the first outputs.
pub open spec fn share(total: u64, count: u32, index: int) -> int {
    total / (count as u64) + if index < total % (count as u64) {
        1int
    } else {
        0int
    }
}

/// The sum of the first `upto` shares.
pub open spec fn share_prefix(total: u64, count: u32, upto: int) -> int {
    upto * (total / (count as u64)) + if upto < total % (count as u64) {
        upto
    } else {
        (total % (count as u64)) as int
    }
}

/// Splits a hop's amount over `count` funding outputs. Fails where there is
/// no output to fund or an output would be empty.
pub fn split_funding(total: u64, count: u32) -> (outputs: Option<Vec<u64>>)
    ensures
        outputs is Some <==> 1 <= count <= total,
        outputs matches Some(v) ==> v@.len() == count && value_sum(v@) == total && forall|i: int|
            0 <= i < count ==> #[trigger] v@[i] == share(total, count, i),
{
    if count == 0 || (count as u64) > total {
        return None;
    }
    let n: u64 = count as u64;
    let base: u64 = total / n;
    let extra: u64 = total % n;
    let mut outputs: Vec<u64> = Vec::new();
    let mut i: u64 = 0;
    while i < n
        invariant
            n == count,
            1 <= n <= total,
            base == total / n,
            extra == total % n,
            i <= n,
            outputs@.len() == i,
            value_sum(outputs@) == share_prefix(total, count, i as int),
            forall|j: int| 0 <= j < i ==> #[trigger] outputs@[j] == share(total, count, j),
        decreases n - i,
    {
        let ghost before = outputs@;
        let value: u64 = if i < extra {
            assert(base < u64::MAX) by (nonlinear_arith)
                requires
                    base == total / n,
                    n >= 1,
                    total % n > 0,
                    total <= u64::MAX,
            ;
            base + 1
        } else {
            base
        };
        outputs.push(value);
        proof {
            assert(outputs@.drop_last() =~= before);
            assert((i + 1) * base == i * base + base) by (nonlinear_arith);
        }
        i += 1;
    }
    proof {
        assert(total == n * (total / n) + total % n) by (nonlinear_arith)
            requires
                n >= 1,
        ;
        assert(n * base == (n as int) * (base as int));
    }
    Some(outputs)
}

/// Whether `actual` lies within `tolerance` of `expected`.
pub open spec fn spec_within_tolerance(actual: u64, expected: u64, tolerance: u64) -> bool {
    actual - expected <= tolerance && expected - actual <= tolerance
}

/// Whether `actual` lies within `tolerance` of `expected`.
pub fn within_tolerance(actual: u64, expected: u64, tolerance: u64) -> (close: bool)
    ensures
        close == spec_within_tolerance(actual, expected, tolerance),
{
    if actual >= expected {
        actual - expected <= tolerance
    } else {
        expected - actual <= tolerance
    }
}

/// Sums the values; `None` where the sum exceeds `u64::MAX`.
pub fn sum_values(values: &Vec<u64>) -> (sum: Option<u64>)
    ensures
        sum matches Some(s) ==> s == value_sum(values@),
        sum is None <==> value_sum(values@) > u64::MAX,
{
    let mut total: u64 = 0;
    let mut i: usize = 0;
    while i < values.len()
        invariant
            i <= values.len(),
            total == value_sum(values@.subrange(0, i as int)),
        decreases values.len() - i,
    {
        let value: u64 = values[i];
        proof {
            assert(values@.subrange(0, i + 1).drop_last() =~= values@.subrange(0, i as int));
        }
        if value > u64::MAX - total {
            proof {
                lemma_value_sum_prefix(values@, i + 1);
            }
            return None;
        }
        total = total + value;
        i += 1;
    }
    assert(values@.subrange(0, values@.len() as int) =~= values@);
    Some(total)
}

/// The sum of a prefix does not exceed the sum of the whole.
pub proof fn lemma_value_sum_prefix(values: Seq<u64>, upto: int)
    requires
        0 <= upto <= values.len(),
    ensures
        0 <= value_sum(values.subrange(0, upto)) <= value_sum(values),
    decreases values.len(),
{
    if upto == values.len() {
        assert(values.subrange(0, upto) =~= values);
        lemma_value_sum_nonnegative(values);
    } else {
        assert(values.drop_last().subrange(0, upto) =~= values.subrange(0, upto));
        lemma_value_sum_prefix(values.drop_last(), upto);
    }
}

/// A sum of values is never negative.
pub proof fn lemma_value_sum_nonnegative(values: Seq<u64>)
    ensures
        0 <= value_sum(values),
    decreases values.len(),
{
    if values.len() > 0 {
        lemma_value_sum_nonnegative(values.drop_last());
    }
}

} // verus!
