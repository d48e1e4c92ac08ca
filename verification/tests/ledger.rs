use coinswap::ledger::{BanLedger, BanReason};

#[test]
fn ledger_records_each_address_once() {
    let mut ledger = BanLedger::new();
    assert!(ledger.record("127.0.0.1:6102", BanReason::DroppedConnection));
    assert!(!ledger.record("127.0.0.1:6102", BanReason::Stalled));
    assert!(ledger.record("127.0.0.1:16102", BanReason::InvalidData));
    assert_eq!(ledger.len(), 2);
    assert_eq!(ledger.get_bad_makers()[0].address, "127.0.0.1:6102");
    assert_eq!(ledger.get_bad_makers()[0].reason, BanReason::DroppedConnection);
    assert!(ledger.is_banned("127.0.0.1:16102"));
    assert!(!ledger.is_banned("127.0.0.1:6103"));
}
