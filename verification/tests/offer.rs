use coinswap::amounts::FeeSchedule;
use coinswap::ledger::{BanLedger, BanReason};
use coinswap::offer::{FidelityProof, Offer, OfferBook, OfferTerms, TieBreak};

fn offer(address: &str, absolute_fee: u64, min_size: u64, max_size: u64) -> Offer {
    Offer {
        address: address.to_string(),
        terms: OfferTerms {
            fees: FeeSchedule { absolute_fee, relative_fee_ppb: 0 },
            min_size,
            max_size,
            fidelity: FidelityProof { bond_value: 1, bond_locktime: 100, public_key: vec![2u8; 33] },
        },
    }
}

fn addresses(book: &OfferBook) -> Vec<String> {
    book.entries.iter().map(|e| e.offer.address.clone()).collect()
}

#[test]
fn quote_needs_the_size_within_bounds() {
    let terms = offer("a:1", 1000, 10_000, 1_000_000).terms;
    assert_eq!(terms.quote(500_000), Some(1000));
    assert_eq!(terms.quote(10_000), Some(1000));
    assert_eq!(terms.quote(1_000_000), Some(1000));
    assert_eq!(terms.quote(9_999), None);
    assert_eq!(terms.quote(1_000_001), None);
}

#[test]
fn refresh_leaves_out_banned_makers_and_keeps_the_order() {
    let mut ledger = BanLedger::new();
    ledger.record("b:2", BanReason::Stalled);
    let listed = vec![
        offer("a:1", 3, 0, 10),
        offer("b:2", 1, 0, 10),
        offer("c:3", 2, 0, 10),
        offer("b:2", 5, 0, 10),
    ];
    let book = OfferBook::refresh(&listed, &ledger);
    assert_eq!(addresses(&book), vec!["a:1".to_string(), "c:3".to_string()]);
    assert!(book.entries.iter().all(|e| !e.tried));
    assert_eq!(book.len(), 2);
    let all = OfferBook::refresh(&listed, &BanLedger::new());
    assert_eq!(all.len(), 4);
}

#[test]
fn cheapest_offer_that_covers_the_swap_is_chosen() {
    let listed = vec![
        offer("a:1", 30, 0, 1_000_000),
        offer("b:2", 10, 600_000, 1_000_000),
        offer("c:3", 20, 0, 1_000_000),
    ];
    let mut book = OfferBook::refresh(&listed, &BanLedger::new());
    // b is the cheapest but does not take so small a swap
    assert_eq!(book.cheapest(500_000, TieBreak::First, &BanLedger::new()), Some(2));
    assert_eq!(book.cheapest(700_000, TieBreak::First, &BanLedger::new()), Some(1));
    book.mark_tried(2);
    assert_eq!(book.cheapest(500_000, TieBreak::First, &BanLedger::new()), Some(0));
    book.mark_tried(0);
    book.mark_tried(7);
    assert_eq!(book.cheapest(500_000, TieBreak::First, &BanLedger::new()), None);
    assert_eq!(book.cheapest(700_000, TieBreak::Last, &BanLedger::new()), Some(1));
}

#[test]
fn equal_fees_are_broken_as_configured() {
    let listed = vec![
        offer("a:1", 10, 0, 100),
        offer("b:2", 10, 0, 100),
        offer("c:3", 10, 0, 100),
        offer("d:4", 11, 0, 100),
    ];
    let book = OfferBook::refresh(&listed, &BanLedger::new());
    assert_eq!(book.cheapest(50, TieBreak::First, &BanLedger::new()), Some(0));
    assert_eq!(book.cheapest(50, TieBreak::Last, &BanLedger::new()), Some(2));
    assert_eq!(OfferBook::refresh(&vec![], &BanLedger::new()).cheapest(50, TieBreak::First, &BanLedger::new()), None);
}

#[test]
fn offer_of_a_maker_banned_meanwhile_is_passed_over() {
    let listed = vec![offer("a:1", 10, 0, 100), offer("b:2", 20, 0, 100), offer("a:1", 5, 0, 100)];
    let book = OfferBook::refresh(&listed, &BanLedger::new());
    assert_eq!(book.cheapest(50, TieBreak::First, &BanLedger::new()), Some(2));
    let mut ledger = BanLedger::new();
    ledger.record("a:1", BanReason::InvalidData);
    assert_eq!(book.cheapest(50, TieBreak::First, &ledger), Some(1));
    ledger.record("b:2", BanReason::Stalled);
    assert_eq!(book.cheapest(50, TieBreak::First, &ledger), None);
}

#[test]
fn tie_break_is_read_by_name() {
    assert_eq!(TieBreak::from_name("first"), Some(TieBreak::First));
    assert_eq!(TieBreak::from_name("last"), Some(TieBreak::Last));
    assert_eq!(TieBreak::from_name("First"), None);
    assert_eq!(TieBreak::from_name(""), None);
}
