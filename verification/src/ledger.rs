//! The ban ledger: the Makers that broke the protocol during this run.

use vstd::prelude::*;
use crate::text::str_equal;

verus! {

/// Why a Maker was banned.
#[derive(Clone, Copy, Debug, PartialEq, Eq, Structural)]
pub enum BanReason {
    /// It dropped the connection after a step that cannot be undone.
    DroppedConnection,
    /// It sent a signature or other data that does not check.
    InvalidData,
    /// It did not answer within the timeout.
    Stalled,
}

/// One recorded violation.
#[derive(Debug)]
pub struct BadMaker {
    pub address: String,
    pub reason: BanReason,
}

impl View for BadMaker {
    type V = (Seq<char>, BanReason);

    open spec fn view(&self) -> (Seq<char>, BanReason) {
        (self.address@, self.reason)
    }
}

/// The violations recorded so far, oldest first. No address is held twice.
#[derive(Debug)]
pub struct BanLedger {
    records: Vec<BadMaker>,
}

/// The addresses of a sequence of records, in order.
pub open spec fn record_addresses(records: Seq<(Seq<char>, BanReason)>) -> Seq<Seq<char>> {
    records.map_values(|r: (Seq<char>, BanReason)| r.0)
}

/// How often an address occurs among the records.
pub open spec fn occurrences(records: Seq<(Seq<char>, BanReason)>, address: Seq<char>) -> nat
    decreases records.len(),
{
    if records.len() == 0 {
        0
    } else {
        occurrences(records.drop_last(), address) + if records.last().0 == address {
            1nat
        } else {
            0nat
        }
    }
}

/// An address that no record holds occurs zero times.
pub proof fn lemma_absent_occurs_never(records: Seq<(Seq<char>, BanReason)>, address: Seq<char>)
    requires
        !record_addresses(records).contains(address),
    ensures
        occurrences(records, address) == 0,
    decreases records.len(),
{
    if records.len() > 0 {
        let front = records.drop_last();
        assert(record_addresses(records)[records.len() - 1] == records.last().0);
        assert forall|i: int| 0 <= i < front.len() implies record_addresses(front)[i] != address by {
            assert(record_addresses(records)[i] == records[i].0);
        }
        lemma_absent_occurs_never(front, address);
    }
}

/// Among records without a repeated address, an address that is held occurs
/// exactly once.
pub proof fn lemma_present_occurs_once(records: Seq<(Seq<char>, BanReason)>, address: Seq<char>)
    requires
        record_addresses(records).no_duplicates(),
        record_addresses(records).contains(address),
    ensures
        occurrences(records, address) == 1,
    decreases records.len(),
{
    let addresses = record_addresses(records);
    let front = records.drop_last();
    let last = (records.len() - 1) as int;
    assert(addresses[last] == records.last().0);
    assert forall|i: int, j: int|
        0 <= i < front.len() && 0 <= j < front.len() && i != j implies record_addresses(front)[i]
        != record_addresses(front)[j] by {
        assert(addresses[i] == records[i].0 && addresses[j] == records[j].0);
    }
    if records.last().0 == address {
        assert forall|i: int| 0 <= i < front.len() implies record_addresses(front)[i] != address by {
            assert(addresses[i] == records[i].0);
        }
        lemma_absent_occurs_never(front, address);
    } else {
        let k = choose|k: int| 0 <= k < addresses.len() && addresses[k] == address;
        assert(k < front.len());
        assert(record_addresses(front)[k] == address);
        lemma_present_occurs_once(front, address);
    }
}

impl View for BanLedger {
    type V = Seq<(Seq<char>, BanReason)>;

    closed spec fn view(&self) -> Seq<(Seq<char>, BanReason)> {
        self.records@.map_values(|r: BadMaker| r@)
    }
}

impl BanLedger {
    /// The ledger's invariant: no address is held twice.
    pub open spec fn wf(&self) -> bool {
        record_addresses(self@).no_duplicates()
    }

    /// An address that a valid ledger holds occurs in it exactly once.
    pub proof fn lemma_held_once(&self, address: Seq<char>)
        requires
            self.wf(),
        ensures
            self.holds(address) ==> occurrences(self@, address) == 1,
            !self.holds(address) ==> occurrences(self@, address) == 0,
    {
        if self.holds(address) {
            lemma_present_occurs_once(self@, address);
        } else {
            lemma_absent_occurs_never(self@, address);
        }
    }

    /// The addresses held, in the order in which they were recorded.
    pub open spec fn addresses(&self) -> Seq<Seq<char>> {
        record_addresses(self@)
    }

    /// Whether an address is held.
    pub open spec fn holds(&self, address: Seq<char>) -> bool {
        self.addresses().contains(address)
    }

    /// An empty ledger.
    pub fn new() -> (ledger: BanLedger)
        ensures
            ledger.wf(),
            ledger@ == Seq::<(Seq<char>, BanReason)>::empty(),
    {
        let ledger = BanLedger { records: Vec::new() };
        assert(ledger@ =~= Seq::<(Seq<char>, BanReason)>::empty());
        ledger
    }

    /// The number of recorded violations.
    pub fn len(&self) -> (n: usize)
        ensures
            n == self@.len(),
    {
        self.records.len()
    }

    /// Whether the address has been recorded.
    pub fn is_banned(&self, address: &str) -> (banned: bool)
        ensures
            banned == self.holds(address@),
    {
        let mut i: usize = 0;
        while i < self.records.len()
            invariant
                i <= self.records.len(),
                forall|j: int| 0 <= j < i ==> self.addresses()[j] != address@,
            decreases self.records.len() - i,
        {
            if str_equal(self.records[i].address.as_str(), address) {
                assert(self.addresses()[i as int] == address@);
                return true;
            }
            i += 1;
        }
        false
    }

    /// Records a violation, unless the address is held already. Returns
    /// whether a record was added.
    pub fn record(&mut self, address: &str, reason: BanReason) -> (added: bool)
        requires
            old(self).wf(),
        ensures
            final(self).wf(),
            added == !old(self).holds(address@),
            added ==> final(self)@ == old(self)@.push((address@, reason)),
            !added ==> final(self)@ == old(self)@,
            final(self).holds(address@),
            occurrences(final(self)@, address@) == 1,
    {
        if self.is_banned(address) {
            proof {
                lemma_present_occurs_once(self@, address@);
            }
            return false;
        }
        let ghost before = self@;
        let entry = BadMaker { address: address.to_owned(), reason };
        self.records.push(entry);
        proof {
            assert(self@ =~= before.push((address@, reason)));
            let after = record_addresses(self@);
            assert(after =~= record_addresses(before).push(address@));
            assert(after[after.len() - 1] == address@);
            lemma_present_occurs_once(self@, address@);
        }
        true
    }

    /// The recorded violations, oldest first.
    pub fn get_bad_makers(&self) -> (records: &Vec<BadMaker>)
        ensures
            records@.map_values(|r: BadMaker| r@) == self@,
    {
        &self.records
    }
}

} // verus!
