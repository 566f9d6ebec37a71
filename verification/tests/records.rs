use stockledger::ledger::{Ledger, LedgerError, TransactionType};

#[test]
fn test_eval_adjustment() {
    let current = 40;

    // IN current > new => OUT
    let tt = TransactionType::new_in();
    let adjustment = tt.eval_adjustment(current, 10).unwrap();
    assert_eq!(adjustment, TransactionType::AdjustmentOut);

    // IN current < new => IN
    let tt = TransactionType::new_in();
    let adjustment = tt.eval_adjustment(current, 100).unwrap();
    assert_eq!(adjustment, TransactionType::AdjustmentIn);

    // IN current == new => None
    let tt = TransactionType::new_in();
    let adjustment = tt.eval_adjustment(current, 40);
    assert!(adjustment.is_none());

    // OUT current > new => IN
    let tt = TransactionType::new_out();
    let adjustment = tt.eval_adjustment(current, 10).unwrap();
    assert_eq!(adjustment, TransactionType::AdjustmentIn);

    // OUT current < new => OUT
    let tt = TransactionType::new_out();
    let adjustment = tt.eval_adjustment(current, 100).unwrap();
    assert_eq!(adjustment, TransactionType::AdjustmentOut);

    // OUT current == new => None
    let tt = TransactionType::new_out();
    let adjustment = tt.eval_adjustment(current, 40);
    assert!(adjustment.is_none());
}

#[test]
fn transaction_type_constructors_and_predicates() {
    assert_eq!(TransactionType::new_in(), TransactionType::In);
    assert_eq!(TransactionType::new_out(), TransactionType::Out);
    assert_eq!(
        TransactionType::new_adjustment_in(),
        TransactionType::AdjustmentIn
    );
    assert_eq!(
        TransactionType::new_adjustment_out(),
        TransactionType::AdjustmentOut
    );
    assert!(!TransactionType::In.is_adjustment());
    assert!(!TransactionType::Out.is_adjustment());
    assert!(TransactionType::AdjustmentIn.is_adjustment());
    assert!(TransactionType::AdjustmentOut.is_adjustment());
}

#[test]
fn transaction_arithmetic_and_signs() {
    assert_eq!(TransactionType::In.do_arithmetic(5, 7), 12);
    assert_eq!(TransactionType::AdjustmentIn.do_arithmetic(5, 7), 12);
    assert_eq!(TransactionType::Out.do_arithmetic(9, 4), 5);
    assert_eq!(TransactionType::AdjustmentOut.do_arithmetic(9, 4), 5);

    assert_eq!(TransactionType::In.casting_to_signed(15), 15);
    assert_eq!(TransactionType::Out.casting_to_signed(15), -15);
    assert_eq!(TransactionType::AdjustmentIn.casting_to_signed(15), 15);
    assert_eq!(TransactionType::AdjustmentOut.casting_to_signed(15), 15);
}

#[test]
fn opposite_always_yields_cancelling_adjustment() {
    assert_eq!(TransactionType::In.opposite(), TransactionType::AdjustmentOut);
    assert_eq!(TransactionType::Out.opposite(), TransactionType::AdjustmentIn);
    assert_eq!(
        TransactionType::AdjustmentIn.opposite(),
        TransactionType::AdjustmentOut
    );
    assert_eq!(
        TransactionType::AdjustmentOut.opposite(),
        TransactionType::AdjustmentIn
    );
}

#[test]
fn wire_codes_round_trip_and_reject_unknown() {
    for t in [
        TransactionType::In,
        TransactionType::Out,
        TransactionType::AdjustmentIn,
        TransactionType::AdjustmentOut,
    ] {
        assert_eq!(TransactionType::decode(t.encode()).unwrap(), t);
    }
    assert_eq!(TransactionType::In.encode(), 1);
    assert_eq!(TransactionType::Out.encode(), 2);
    assert_eq!(TransactionType::AdjustmentIn.encode(), 3);
    assert_eq!(TransactionType::AdjustmentOut.encode(), 4);
    assert!(matches!(
        TransactionType::decode(0),
        Err(LedgerError::UnknownTransactionType)
    ));
    assert!(matches!(
        TransactionType::decode(5),
        Err(LedgerError::UnknownTransactionType)
    ));
}

#[test]
fn ledger_running_total_is_monotonic_chain() {
    let mut ledger = Ledger::new();
    let item = 1;

    let id1 = ledger
        .create(item, 100, TransactionType::new_in(), 10, None)
        .unwrap();
    assert_eq!(ledger.get_last_total(item), 10);

    let id2 = ledger
        .create(item, 200, TransactionType::new_out(), 3, None)
        .unwrap();
    assert_eq!(ledger.get_last_total(item), 7);

    let first = ledger.get(id1).unwrap();
    let second = ledger.get(id2).unwrap();
    assert_eq!(first.total(), 10);
    assert_eq!(second.total(), 7);

    // An untouched item reads a zero total.
    assert_eq!(ledger.get_last_total(9999), 0);
    assert!(ledger.get_last(9999).is_none());
}

#[test]
fn ledger_adjustment_requires_remarks() {
    let mut ledger = Ledger::new();
    let item = 1;

    let result = ledger.create(item, 100, TransactionType::new_adjustment_in(), 5, None);
    assert!(matches!(result, Err(LedgerError::RecordCreationForbidden)));
    assert_eq!(ledger.get_last_total(item), 0);

    let result = ledger.create(item, 100, TransactionType::new_adjustment_in(), 5, Some(1));
    assert!(result.is_ok());
    assert_eq!(ledger.get_last_total(item), 5);
}

#[test]
fn ledger_underflow_and_overflow_are_rejected() {
    let mut ledger = Ledger::new();
    let item = 1;

    let result = ledger.create(item, 100, TransactionType::new_out(), 1, None);
    assert!(matches!(result, Err(LedgerError::InsufficientQuantity)));

    ledger
        .create(item, 100, TransactionType::new_in(), u32::MAX, None)
        .unwrap();
    let result = ledger.create(item, 200, TransactionType::new_in(), 1, None);
    assert!(matches!(result, Err(LedgerError::TotalOverflow)));
    assert_eq!(ledger.get_last_total(item), u32::MAX);
}

#[test]
fn ledger_update_appends_adjustment_and_keeps_original() {
    let mut ledger = Ledger::new();
    let item = 1;

    let record_id = ledger
        .create(item, 100, TransactionType::new_in(), 10, None)
        .unwrap();

    ledger.update(item, record_id, 6).unwrap();

    // The original row is untouched.
    let original = ledger.get(record_id).unwrap();
    assert_eq!(original.quantity(), 10);
    assert_eq!(original.transaction_type(), TransactionType::In);

    // The appended row is the compensating adjustment.
    let last = ledger.get_last(item).unwrap();
    assert_eq!(last.transaction_type(), TransactionType::AdjustmentOut);
    assert_eq!(last.quantity(), 4);
    assert_eq!(last.adjustment_remarks(), Some(record_id));
    assert_eq!(ledger.get_last_total(item), 6);
}

#[test]
fn ledger_update_rejects_mismatch_and_noop() {
    let mut ledger = Ledger::new();
    let record_id = ledger
        .create(1, 100, TransactionType::new_in(), 10, None)
        .unwrap();

    assert!(matches!(
        ledger.update(2, record_id, 6),
        Err(LedgerError::RecordUpdateForbidden)
    ));
    assert!(matches!(
        ledger.update(1, record_id, 10),
        Err(LedgerError::RecordUpdateForbidden)
    ));
    assert!(matches!(
        ledger.update(1, 999, 6),
        Err(LedgerError::RecordNotFound)
    ));
}

#[test]
fn ledger_delete_reverses_via_opposite() {
    let mut ledger = Ledger::new();
    let item = 1;

    let record_id = ledger
        .create(item, 100, TransactionType::new_in(), 10, None)
        .unwrap();

    ledger.delete(record_id, item).unwrap();

    let last = ledger.get_last(item).unwrap();
    assert_eq!(last.transaction_type(), TransactionType::AdjustmentOut);
    assert_eq!(last.quantity(), 10);
    assert_eq!(last.adjustment_remarks(), Some(record_id));
    assert_eq!(ledger.get_last_total(item), 0);
}

#[test]
fn ledger_last_orders_by_date_then_id() {
    let mut ledger = Ledger::new();
    let item = 7;

    // Later rows may carry earlier dates; the most recent date wins.
    ledger.create(item, 500, TransactionType::new_in(), 5, None).unwrap();
    ledger.create(item, 300, TransactionType::new_in(), 2, None).unwrap();
    let last = ledger.get_last(item).unwrap();
    assert_eq!(last.date(), 500);

    // On a date tie the larger identifier wins.
    let id3 = ledger.create(item, 500, TransactionType::new_in(), 1, None).unwrap();
    let last = ledger.get_last(item).unwrap();
    assert_eq!(last.id(), id3);
}

#[test]
fn ledger_listings_filter_and_order() {
    let mut ledger = Ledger::new();
    ledger.create(1, 100, TransactionType::new_in(), 5, None).unwrap();
    ledger.create(2, 150, TransactionType::new_in(), 9, None).unwrap();
    ledger.create(1, 200, TransactionType::new_in(), 3, None).unwrap();

    let listing = ledger.get_all_for_item(1);
    assert_eq!(listing.item_id(), 1);
    assert_eq!(listing.records().len(), 2);
    // Most recently appended first.
    assert_eq!(listing.records()[0].date(), 200);
    assert_eq!(listing.records()[1].date(), 100);

    assert_eq!(ledger.get_all().len(), 3);

    let framed = ledger.get_in_timeframe(120, 180);
    assert_eq!(framed.len(), 1);
    assert_eq!(framed[0].item_id(), 2);

    let framed_item = ledger.get_in_timeframe_for_item(1, 50, 160);
    assert_eq!(framed_item.records().len(), 1);
    assert_eq!(framed_item.records()[0].date(), 100);
    assert_eq!(framed_item.records()[0].quantity(), 5);
}
