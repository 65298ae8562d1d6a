use tx_store::partition::{EpochPartition, IngestError};
use tx_store::record::PostgresTransaction;
use tx_store::schema::EpochRef;

fn rec(signature: &str, slot: i64, fee: i64) -> PostgresTransaction {
    PostgresTransaction {
        signature: signature.to_string(),
        slot,
        err: if fee % 2 == 0 { None } else { Some("AA==".to_string()) },
        cu_requested: Some(fee * 10),
        prioritization_fees: Some(fee),
        cu_consumed: None,
        recent_blockhash: format!("hash{}", fee),
        message: format!("msg{}", fee),
    }
}

fn ingest(p: &mut EpochPartition, batch: &[PostgresTransaction]) -> Result<(), IngestError> {
    let epoch = p.epoch();
    PostgresTransaction::save_transactions_from_block(p, epoch, batch)
}

fn same(a: &PostgresTransaction, b: &PostgresTransaction) -> bool {
    a.signature == b.signature
        && a.slot == b.slot
        && a.err == b.err
        && a.cu_requested == b.cu_requested
        && a.prioritization_fees == b.prioritization_fees
        && a.cu_consumed == b.cu_consumed
        && a.recent_blockhash == b.recent_blockhash
        && a.message == b.message
}

#[test]
fn three_records_read_back_by_slot() {
    let mut p = EpochPartition::new(EpochRef::new(5));
    let batch = vec![rec("A", 100, 1), rec("B", 100, 2), rec("C", 100, 3)];
    assert_eq!(ingest(&mut p, &batch), Ok(()));
    let got = p.get_transactions_for_slot(100);
    assert_eq!(got.len(), 3);
    for (g, b) in got.iter().zip(batch.iter()) {
        assert!(same(g, b));
    }
    assert_eq!(p.signature_count(), 3);
    assert_eq!(p.transaction_id(&"A".to_string()), Some(1));
    assert_eq!(p.transaction_id(&"B".to_string()), Some(2));
    assert_eq!(p.transaction_id(&"C".to_string()), Some(3));
}

#[test]
fn reusing_signature_in_another_slot_keeps_one_key() {
    let mut p = EpochPartition::new(EpochRef::new(5));
    let batch = vec![rec("A", 100, 1), rec("B", 100, 2), rec("C", 100, 3)];
    assert_eq!(ingest(&mut p, &batch), Ok(()));
    let again = vec![rec("A", 101, 4)];
    assert_eq!(ingest(&mut p, &again), Err(IngestError::DuplicateRecordError));
    assert_eq!(p.signature_count(), 3);
    assert_eq!(p.transaction_id(&"A".to_string()), Some(1));
    assert!(p.get_transactions_for_slot(101).is_empty());
    assert_eq!(p.get_transactions_for_slot(100).len(), 3);
}

#[test]
fn shared_signature_gets_one_stable_id() {
    let mut p = EpochPartition::new(EpochRef::new(9));
    assert_eq!(ingest(&mut p, &[rec("X", 10, 1), rec("S", 10, 2)]), Ok(()));
    let id = p.transaction_id(&"S".to_string());
    assert_eq!(id, Some(2));
    let _ = ingest(&mut p, &[rec("Y", 11, 3), rec("S", 11, 4)]);
    assert_eq!(p.transaction_id(&"S".to_string()), id);
    assert_eq!(p.signature_count(), 2);
    assert_eq!(ingest(&mut p, &[rec("Z", 12, 5)]), Ok(()));
    assert_eq!(p.transaction_id(&"S".to_string()), id);
    assert_eq!(p.transaction_id(&"Z".to_string()), Some(3));
}

#[test]
fn empty_slot_reads_as_empty() {
    let mut p = EpochPartition::new(EpochRef::new(1));
    assert!(p.get_transactions_for_slot(7).is_empty());
    assert_eq!(ingest(&mut p, &[rec("A", 8, 1)]), Ok(()));
    assert!(p.get_transactions_for_slot(7).is_empty());
    assert_eq!(p.get_transactions_for_slot(8).len(), 1);
}

#[test]
fn reingesting_identical_batch_is_rejected() {
    let mut p = EpochPartition::new(EpochRef::new(2));
    let batch = vec![rec("A", 20, 1), rec("B", 20, 2)];
    assert_eq!(ingest(&mut p, &batch), Ok(()));
    assert_eq!(ingest(&mut p, &batch), Err(IngestError::DuplicateRecordError));
    assert_eq!(p.signature_count(), 2);
    assert_eq!(p.get_transactions_for_slot(20).len(), 2);
}

#[test]
fn overlapping_blocks_in_either_order_leave_one_key() {
    let first = vec![rec("A", 30, 1), rec("B", 30, 2)];
    let second = vec![rec("A", 31, 3), rec("C", 31, 4)];
    for order in [[&first, &second], [&second, &first]] {
        let mut p = EpochPartition::new(EpochRef::new(4));
        assert_eq!(ingest(&mut p, order[0]), Ok(()));
        assert_eq!(ingest(&mut p, order[1]), Err(IngestError::DuplicateRecordError));
        assert_eq!(p.signature_count(), 2);
        assert_eq!(p.transaction_id(&"A".to_string()), Some(1));
    }
}

#[test]
fn batch_repeating_a_signature_is_rejected() {
    let mut p = EpochPartition::new(EpochRef::new(6));
    let batch = vec![rec("A", 40, 1), rec("B", 40, 2), rec("A", 40, 3)];
    assert_eq!(ingest(&mut p, &batch), Err(IngestError::DuplicateRecordError));
    assert_eq!(p.signature_count(), 0);
    assert!(p.get_transactions_for_slot(40).is_empty());
}

#[test]
fn empty_batch_is_accepted() {
    let mut p = EpochPartition::new(EpochRef::new(6));
    assert_eq!(ingest(&mut p, &[]), Ok(()));
    assert_eq!(p.signature_count(), 0);
}

#[test]
fn rows_of_other_slots_are_not_returned() {
    let mut p = EpochPartition::new(EpochRef::new(5));
    assert_eq!(ingest(&mut p, &[rec("A", 100, 1), rec("B", 101, 2)]), Ok(()));
    assert_eq!(ingest(&mut p, &[rec("C", 100, 3)]), Ok(()));
    let got = p.get_transactions_for_slot(100);
    assert_eq!(got.len(), 2);
    assert_eq!(got[0].signature, "A");
    assert_eq!(got[1].signature, "C");
    let other = p.get_transactions_for_slot(101);
    assert_eq!(other.len(), 1);
    assert!(same(&other[0], &rec("B", 101, 2)));
}
