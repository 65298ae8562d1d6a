use tx_store::record::{PostgresTransaction, RecordError, TransactionInfo};

fn sample_info() -> TransactionInfo {
    TransactionInfo {
        signature: [7u8; 64],
        err: Some(vec![9, 8, 7]),
        cu_requested: Some(200_000),
        prioritization_fees: Some(u64::MAX),
        cu_consumed: Some(1_234),
        recent_blockhash: [3u8; 32],
        message: vec![1, 2, 3],
        readable_accounts: vec![[1u8; 32]],
        writable_accounts: vec![[2u8; 32]],
        is_vote: true,
        address_lookup_tables: vec![[4u8; 32]],
    }
}

#[test]
fn new_encodes_each_field() {
    let info = sample_info();
    let record = PostgresTransaction::new(&info, 100);
    assert_eq!(record.signature, solana_signature::Signature::from([7u8; 64]).to_string());
    assert_ne!(record.signature.len(), 64);
    assert_eq!(record.slot, 100);
    assert_eq!(record.err, Some("CQgH".to_string()));
    assert_eq!(record.cu_requested, Some(200_000));
    assert_eq!(record.prioritization_fees, Some(-1));
    assert_eq!(record.cu_consumed, Some(1_234));
    assert_eq!(
        record.recent_blockhash,
        solana_hash::Hash::new_from_array([3u8; 32]).to_string()
    );
    assert_eq!(record.message, "AQID");
}

#[test]
fn new_of_zero_bytes_gives_base58_ones() {
    let mut info = sample_info();
    info.signature = [0u8; 64];
    info.recent_blockhash = [0u8; 32];
    info.err = None;
    info.cu_requested = None;
    info.prioritization_fees = None;
    info.cu_consumed = None;
    info.message = vec![];
    let record = PostgresTransaction::new(&info, 0);
    assert_eq!(record.signature, "1".repeat(64));
    assert_eq!(record.recent_blockhash, "1".repeat(32));
    assert_eq!(record.err, None);
    assert_eq!(record.cu_requested, None);
    assert_eq!(record.prioritization_fees, None);
    assert_eq!(record.cu_consumed, None);
    assert_eq!(record.message, "");
}

#[test]
fn record_round_trip_keeps_persisted_fields() {
    let info = sample_info();
    let record = PostgresTransaction::new(&info, 42);
    let back = record.to_transaction_info().unwrap();
    assert_eq!(back.signature, info.signature);
    assert_eq!(back.err, info.err);
    assert_eq!(back.cu_requested, info.cu_requested);
    assert_eq!(back.prioritization_fees, info.prioritization_fees);
    assert_eq!(back.cu_consumed, info.cu_consumed);
    assert_eq!(back.recent_blockhash, info.recent_blockhash);
    assert_eq!(back.message, info.message);
    assert!(back.readable_accounts.is_empty());
    assert!(back.writable_accounts.is_empty());
    assert!(!back.is_vote);
    assert!(back.address_lookup_tables.is_empty());
    let again = PostgresTransaction::new(&back, 42);
    assert_eq!(again.signature, record.signature);
    assert_eq!(again.slot, record.slot);
    assert_eq!(again.err, record.err);
    assert_eq!(again.cu_requested, record.cu_requested);
    assert_eq!(again.prioritization_fees, record.prioritization_fees);
    assert_eq!(again.cu_consumed, record.cu_consumed);
    assert_eq!(again.recent_blockhash, record.recent_blockhash);
    assert_eq!(again.message, record.message);
}

#[test]
fn malformed_signature_is_rejected() {
    let mut record = PostgresTransaction::new(&sample_info(), 1);
    record.signature = "0OIl".to_string();
    assert_eq!(record.to_transaction_info().err(), Some(RecordError::InvalidSignature));
    record.signature = "1111".to_string();
    assert_eq!(record.to_transaction_info().err(), Some(RecordError::InvalidSignature));
}

#[test]
fn malformed_blockhash_is_rejected() {
    let mut record = PostgresTransaction::new(&sample_info(), 1);
    record.recent_blockhash = "not a hash".to_string();
    assert_eq!(record.to_transaction_info().err(), Some(RecordError::InvalidBlockhash));
}

#[test]
fn malformed_message_is_rejected() {
    let mut record = PostgresTransaction::new(&sample_info(), 1);
    record.message = "###".to_string();
    assert_eq!(record.to_transaction_info().err(), Some(RecordError::InvalidMessage));
}

#[test]
fn malformed_error_payload_is_rejected() {
    let mut record = PostgresTransaction::new(&sample_info(), 1);
    record.err = Some("%%%".to_string());
    assert_eq!(record.to_transaction_info().err(), Some(RecordError::InvalidError));
    record.err = None;
    let back = record.to_transaction_info().unwrap();
    assert_eq!(back.err, None);
}

#[test]
fn assemble_info_reports_first_missing_part() {
    let record = PostgresTransaction::new(&sample_info(), 1);
    assert_eq!(
        record.assemble_info(None, None, None, None).err(),
        Some(RecordError::InvalidSignature)
    );
    assert_eq!(
        record.assemble_info(Some([1u8; 64]), None, None, Some(vec![])).err(),
        Some(RecordError::InvalidBlockhash)
    );
    assert_eq!(
        record.assemble_info(Some([1u8; 64]), None, Some([2u8; 32]), Some(vec![])).err(),
        Some(RecordError::InvalidError)
    );
    assert_eq!(
        record.assemble_info(Some([1u8; 64]), Some(vec![]), Some([2u8; 32]), None).err(),
        Some(RecordError::InvalidMessage)
    );
    let info = record
        .assemble_info(Some([1u8; 64]), Some(vec![5]), Some([2u8; 32]), Some(vec![6, 7]))
        .unwrap();
    assert_eq!(info.signature, [1u8; 64]);
    assert_eq!(info.err, Some(vec![5]));
    assert_eq!(info.recent_blockhash, [2u8; 32]);
    assert_eq!(info.message, vec![6, 7]);
    assert_eq!(info.cu_requested, Some(200_000));
    assert_eq!(info.prioritization_fees, Some(u64::MAX));
    let mut plain = PostgresTransaction::new(&sample_info(), 1);
    plain.err = None;
    let info = plain
        .assemble_info(Some([1u8; 64]), Some(vec![5]), Some([2u8; 32]), Some(vec![6]))
        .unwrap();
    assert_eq!(info.err, None);
}
