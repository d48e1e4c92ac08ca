//! The offer book: what the Makers that the Directory lists ask for, without
//! the Makers that are banned, and the choice of the next Maker to try.

use vstd::prelude::*;
use crate::amounts::FeeSchedule;
use crate::bytes::clone_bytes;
use crate::ledger::BanLedger;
use crate::text::str_equal;

verus! {

/// A Maker's proof that it locked up value to be listed.
#[derive(Debug)]
pub struct FidelityProof {
    /// The value of the bond.
    pub bond_value: u64,
    /// The height up to which the bond is locked.
    pub bond_locktime: u32,
    /// The key that the Maker signs contracts with.
    pub public_key: Vec<u8>,
}

/// What a `FidelityProof` holds.
pub struct FidelityView {
    pub bond_value: u64,
    pub bond_locktime: u32,
    pub public_key: Seq<u8>,
}

impl View for FidelityProof {
    type V = FidelityView;

    open spec fn view(&self) -> FidelityView {
        FidelityView {
            bond_value: self.bond_value,
            bond_locktime: self.bond_locktime,
            public_key: self.public_key@,
        }
    }
}

/// What a Maker asks for and offers.
#[derive(Debug)]
pub struct OfferTerms {
    pub fees: FeeSchedule,
    /// The smallest swap that the Maker takes.
    pub min_size: u64,
    /// The largest swap that the Maker takes.
    pub max_size: u64,
    pub fidelity: FidelityProof,
}

/// What an `OfferTerms` holds.
pub struct OfferTermsView {
    pub fees: FeeSchedule,
    pub min_size: u64,
    pub max_size: u64,
    pub fidelity: FidelityView,
}

impl View for OfferTerms {
    type V = OfferTermsView;

    open spec fn view(&self) -> OfferTermsView {
        OfferTermsView {
            fees: self.fees,
            min_size: self.min_size,
            max_size: self.max_size,
            fidelity: self.fidelity@,
        }
    }
}

impl Clone for OfferTerms {
    fn clone(&self) -> (copy: OfferTerms)
        ensures
            copy@ == self@,
    {
        OfferTerms {
            fees: self.fees,
            min_size: self.min_size,
            max_size: self.max_size,
            fidelity: FidelityProof {
                bond_value: self.fidelity.bond_value,
                bond_locktime: self.fidelity.bond_locktime,
                public_key: clone_bytes(&self.fidelity.public_key),
            },
        }
    }
}

/// Whether the terms cover a swap of the given size at a fee that can be
/// written down.
pub open spec fn spec_covers(terms: OfferTermsView, amount: u64) -> bool {
    &&& terms.min_size <= amount <= terms.max_size
    &&& terms.fees.spec_fee(amount) <= u64::MAX
}

impl OfferTerms {
    /// The fee for a swap of the given size, where the terms cover it.
    pub fn quote(&self, amount: u64) -> (fee: Option<u64>)
        ensures
            fee is Some <==> spec_covers(self@, amount),
            fee matches Some(f) ==> f == self.fees.spec_fee(amount),
    {
        if amount < self.min_size || amount > self.max_size {
            return None;
        }
        self.fees.fee(amount)
    }
}

/// An entry of the offer book: a Maker's address and its terms.
#[derive(Debug)]
pub struct Offer {
    pub address: String,
    pub terms: OfferTerms,
}

/// What an `Offer` holds.
pub struct OfferView {
    pub address: Seq<char>,
    pub terms: OfferTermsView,
}

impl View for Offer {
    type V = OfferView;

    open spec fn view(&self) -> OfferView {
        OfferView { address: self.address@, terms: self.terms@ }
    }
}

impl Clone for Offer {
    fn clone(&self) -> (copy: Offer)
        ensures
            copy@ == self@,
    {
        Offer { address: self.address.clone(), terms: self.terms.clone() }
    }
}

/// Which of several offers with the same lowest fee is chosen.
#[derive(Clone, Copy, Debug, PartialEq, Eq, Structural)]
pub enum TieBreak {
    /// The one that the Directory listed first.
    First,
    /// The one that the Directory listed last.
    Last,
}

/// The tie-break that a name stands for.
pub open spec fn spec_tie_break(name: Seq<char>) -> Option<TieBreak> {
    if name == "first"@ {
        Some(TieBreak::First)
    } else if name == "last"@ {
        Some(TieBreak::Last)
    } else {
        None
    }
}

impl TieBreak {
    /// Reads a tie-break's name: `first` or `last`.
    pub fn from_name(name: &str) -> (parsed: Option<TieBreak>)
        ensures
            parsed == spec_tie_break(name@),
    {
        if str_equal(name, "first") {
            Some(TieBreak::First)
        } else if str_equal(name, "last") {
            Some(TieBreak::Last)
        } else {
            None
        }
    }
}

/// What a list of offers holds.
pub open spec fn offers_view(offers: &Vec<Offer>) -> Seq<OfferView> {
    offers@.map_values(|o: Offer| o@)
}

/// The first `upto` offers without those whose address is banned, in order.
pub open spec fn spec_unbanned(offers: Seq<OfferView>, banned: Seq<Seq<char>>, upto: int) -> Seq<OfferView>
    decreases upto,
{
    if upto <= 0 {
        Seq::<OfferView>::empty()
    } else if banned.contains(offers[upto - 1].address) {
        spec_unbanned(offers, banned, upto - 1)
    } else {
        spec_unbanned(offers, banned, upto - 1).push(offers[upto - 1])
    }
}

/// An offer of the book, and whether it was tried.
#[derive(Debug)]
pub struct BookEntry {
    pub offer: Offer,
    /// An offer that was tried is never chosen again.
    pub tried: bool,
}

/// The offer book of one swap attempt.
#[derive(Debug)]
pub struct OfferBook {
    pub entries: Vec<BookEntry>,
}

/// Whether entry `index` can be chosen for a swap of the given size: it
/// was not tried, its Maker is not banned, and its terms cover the swap.
pub open spec fn spec_candidate(
    offers: Seq<OfferView>,
    tried: Seq<bool>,
    banned: Seq<Seq<char>>,
    amount: u64,
    index: int,
) -> bool {
    &&& 0 <= index < offers.len()
    &&& index < tried.len()
    &&& !tried[index]
    &&& !banned.contains(offers[index].address)
    &&& spec_covers(offers[index].terms, amount)
}

/// Whether a candidate is left for a swap of the given size.
pub open spec fn spec_has_candidate(
    offers: Seq<OfferView>,
    tried: Seq<bool>,
    banned: Seq<Seq<char>>,
    amount: u64,
) -> bool {
    exists|j: int| spec_candidate(offers, tried, banned, amount, j)
}

/// Whether entry `index` is the one to choose: a candidate with the lowest
/// fee, and among those the first or the last.
pub open spec fn spec_is_choice(
    offers: Seq<OfferView>,
    tried: Seq<bool>,
    banned: Seq<Seq<char>>,
    amount: u64,
    tie: TieBreak,
    index: int,
) -> bool {
    &&& spec_candidate(offers, tried, banned, amount, index)
    &&& forall|j: int| #[trigger]
        spec_candidate(offers, tried, banned, amount, j) ==> offers[index].terms.fees.spec_fee(
            amount,
        ) <= offers[j].terms.fees.spec_fee(amount)
    &&& forall|j: int|
        #[trigger] spec_candidate(offers, tried, banned, amount, j)
            && offers[j].terms.fees.spec_fee(amount) == offers[index].terms.fees.spec_fee(amount)
            ==> match tie {
            TieBreak::First => index <= j,
            TieBreak::Last => j <= index,
        }
}

impl OfferBook {
    /// What the book's offers hold.
    pub open spec fn offers(&self) -> Seq<OfferView> {
        self.entries@.map_values(|e: BookEntry| e.offer@)
    }

    /// Which of the book's offers were tried.
    pub open spec fn tried(&self) -> Seq<bool> {
        self.entries@.map_values(|e: BookEntry| e.tried)
    }

    /// Whether a candidate is left for a swap of the given size.
    pub open spec fn has_candidate(&self, ledger: &BanLedger, amount: u64) -> bool {
        spec_has_candidate(self.offers(), self.tried(), ledger.addresses(), amount)
    }

    /// Builds the book from what the Directory lists, leaving out every
    /// Maker that the ledger holds.
    pub fn refresh(listed: &Vec<Offer>, ledger: &BanLedger) -> (book: OfferBook)
        ensures
            book.offers() == spec_unbanned(offers_view(listed), ledger.addresses(), listed@.len() as int),
            forall|j: int| 0 <= j < book.tried().len() ==> !book.tried()[j],
    {
        let mut entries: Vec<BookEntry> = Vec::new();
        let mut i: usize = 0;
        while i < listed.len()
            invariant
                i <= listed@.len(),
                entries@.map_values(|e: BookEntry| e.offer@) == spec_unbanned(
                    offers_view(listed),
                    ledger.addresses(),
                    i as int,
                ),
                forall|j: int| 0 <= j < entries@.len() ==> !(#[trigger] entries@[j]).tried,
            decreases listed@.len() - i,
        {
            assert(offers_view(listed)[i as int] == listed@[i as int]@);
            if !ledger.is_banned(listed[i].address.as_str()) {
                let ghost before = entries@.map_values(|e: BookEntry| e.offer@);
                entries.push(BookEntry { offer: listed[i].clone(), tried: false });
                assert(entries@.map_values(|e: BookEntry| e.offer@) =~= before.push(
                    listed@[i as int]@,
                ));
            }
            i += 1;
        }
        OfferBook { entries }
    }

    /// The number of offers.
    pub fn len(&self) -> (n: usize)
        ensures
            n == self.offers().len(),
    {
        self.entries.len()
    }

    /// Chooses the next Maker to try for a swap of the given size: among the
    /// offers that were not tried, whose Maker is not banned and that cover
    /// the swap, the one with the lowest fee. `None` where no such offer is
    /// left.
    pub fn cheapest(&self, amount: u64, tie: TieBreak, ledger: &BanLedger) -> (choice: Option<usize>)
        ensures
            choice matches Some(i) ==> spec_is_choice(
                self.offers(),
                self.tried(),
                ledger.addresses(),
                amount,
                tie,
                i as int,
            ),
            choice is None <==> !self.has_candidate(ledger, amount),
    {
        let ghost banned = ledger.addresses();
        let mut best: Option<(usize, u64)> = None;
        let mut i: usize = 0;
        while i < self.entries.len()
            invariant
                i <= self.entries@.len(),
                banned == ledger.addresses(),
                best is None ==> forall|j: int|
                    0 <= j < i ==> !#[trigger] spec_candidate(
                        self.offers(),
                        self.tried(),
                        banned,
                        amount,
                        j,
                    ),
                best matches Some(b) ==> {
                    &&& b.0 < i
                    &&& spec_candidate(self.offers(), self.tried(), banned, amount, b.0 as int)
                    &&& b.1 == self.offers()[b.0 as int].terms.fees.spec_fee(amount)
                    &&& forall|j: int|
                        0 <= j < i && #[trigger] spec_candidate(
                            self.offers(),
                            self.tried(),
                            banned,
                            amount,
                            j,
                        ) ==> b.1 <= self.offers()[j].terms.fees.spec_fee(amount)
                    &&& forall|j: int|
                        0 <= j < i && #[trigger] spec_candidate(
                            self.offers(),
                            self.tried(),
                            banned,
                            amount,
                            j,
                        ) && self.offers()[j].terms.fees.spec_fee(amount) == b.1 ==> match tie {
                            TieBreak::First => b.0 <= j,
                            TieBreak::Last => j <= b.0,
                        }
                },
            decreases self.entries@.len() - i,
        {
            assert(self.offers()[i as int] == self.entries@[i as int].offer@);
            assert(self.tried()[i as int] == self.entries@[i as int].tried);
            if !self.entries[i].tried && !ledger.is_banned(self.entries[i].offer.address.as_str()) {
                match self.entries[i].offer.terms.quote(amount) {
                    Some(fee) => {
                        let better: bool = match best {
                            None => true,
                            Some(b) => match tie {
                                TieBreak::First => fee < b.1,
                                TieBreak::Last => fee <= b.1,
                            },
                        };
                        if better {
                            best = Some((i, fee));
                        }
                    },
                    None => {},
                }
            }
            i += 1;
        }
        match best {
            Some(b) => Some(b.0),
            None => None,
        }
    }

    /// Marks an offer as tried, so that it is not chosen again. An index
    /// beyond the book changes nothing.
    pub fn mark_tried(&mut self, index: usize)
        ensures
            final(self).offers() == old(self).offers(),
            index < old(self).offers().len() ==> final(self).tried() == old(self).tried().update(
                index as int,
                true,
            ),
            index >= old(self).offers().len() ==> final(self).tried() == old(self).tried(),
    {
        if index < self.entries.len() {
            let offer = self.entries[index].offer.clone();
            self.entries[index] = BookEntry { offer, tried: true };
            assert(self.offers() =~= old(self).offers());
            assert(self.tried() =~= old(self).tried().update(index as int, true));
        }
    }
}

/// How many offers were not tried.
pub open spec fn untried_count(tried: Seq<bool>) -> nat
    decreases tried.len(),
{
    if tried.len() == 0 {
        0
    } else {
        untried_count(tried.drop_last()) + if tried.last() {
            0nat
        } else {
            1nat
        }
    }
}

/// Trying an offer that was not tried leaves one offer less to try.
pub proof fn lemma_trying_leaves_fewer(tried: Seq<bool>, index: int)
    requires
        0 <= index < tried.len(),
        !tried[index],
    ensures
        untried_count(tried.update(index, true)) + 1 == untried_count(tried),
    decreases tried.len(),
{
    let after = tried.update(index, true);
    if index == tried.len() - 1 {
        assert(after.drop_last() =~= tried.drop_last());
    } else {
        assert(after.drop_last() =~= tried.drop_last().update(index, true));
        lemma_trying_leaves_fewer(tried.drop_last(), index);
    }
}

/// Leaving out the banned keeps exactly the offers whose address is not
/// banned: none that is banned stays, and none that is not is lost.
pub proof fn lemma_unbanned_holds_exactly(offers: Seq<OfferView>, banned: Seq<Seq<char>>, upto: int)
    requires
        0 <= upto <= offers.len(),
    ensures
        forall|k: int|
            0 <= k < spec_unbanned(offers, banned, upto).len() ==> !banned.contains(
                (#[trigger] spec_unbanned(offers, banned, upto)[k]).address,
            ),
        forall|j: int|
            0 <= j < upto && !banned.contains((#[trigger] offers[j]).address) ==> spec_unbanned(
                offers,
                banned,
                upto,
            ).contains(offers[j]),
        spec_unbanned(offers, banned, upto).len() <= upto,
    decreases upto,
{
    if upto > 0 {
        lemma_unbanned_holds_exactly(offers, banned, upto - 1);
        let rest = spec_unbanned(offers, banned, upto - 1);
        let kept = spec_unbanned(offers, banned, upto);
        if !banned.contains(offers[upto - 1].address) {
            assert(kept[kept.len() - 1] == offers[upto - 1]);
            assert forall|j: int|
                0 <= j < upto && !banned.contains((#[trigger] offers[j]).address) implies kept.contains(
                offers[j],
            ) by {
                if j < upto - 1 {
                    let k = choose|k: int| 0 <= k < rest.len() && rest[k] == offers[j];
                    assert(kept[k] == offers[j]);
                }
            }
        }
    }
}

} // verus!
