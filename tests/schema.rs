use tx_store::schema::{
    build_commit_statement, build_create_table_statement, build_dedup_statement,
    build_foreign_key_statement, build_partition_statements, build_query_statement,
    build_schema_name, EpochRef, COPY_SQL, STAGING_SQL,
};

#[test]
fn schema_name_is_prefix_and_decimal_epoch() {
    assert_eq!(build_schema_name(EpochRef::new(592)), "rpc2a_epoch_592");
    assert_eq!(build_schema_name(EpochRef::new(0)), "rpc2a_epoch_0");
    assert_eq!(build_schema_name(EpochRef::new(10)), "rpc2a_epoch_10");
    assert_eq!(
        build_schema_name(EpochRef::new(u64::MAX)),
        "rpc2a_epoch_18446744073709551615"
    );
}

#[test]
fn distinct_epochs_give_distinct_names() {
    let a = build_schema_name(EpochRef::new(1));
    let b = build_schema_name(EpochRef::new(11));
    let c = build_schema_name(EpochRef::new(110));
    assert_ne!(a, b);
    assert_ne!(b, c);
    assert_ne!(a, c);
}

#[test]
fn create_table_statement_names_both_tables_and_index() {
    let s = build_create_table_statement(EpochRef::new(5));
    assert!(s.contains("CREATE TABLE rpc2a_epoch_5.transaction_ids("));
    assert!(s.contains("UNIQUE(signature)"));
    assert!(s.contains("transaction_id bigserial PRIMARY KEY"));
    assert!(s.contains("CREATE TABLE IF NOT EXISTS rpc2a_epoch_5.transaction_blockdata("));
    assert!(s.contains(
        "CREATE INDEX idx_slot ON rpc2a_epoch_5.transaction_blockdata USING btree (slot)"
    ));
    assert!(!s.contains("FOREIGN KEY"));
}

#[test]
fn foreign_key_is_a_separate_optional_statement() {
    let fk = build_foreign_key_statement(EpochRef::new(7));
    assert!(fk.contains("ALTER TABLE rpc2a_epoch_7.transaction_blockdata"));
    assert!(fk.contains("REFERENCES rpc2a_epoch_7.blocks (slot)"));
    let without = build_partition_statements(EpochRef::new(7), false);
    assert_eq!(without.len(), 1);
    assert_eq!(without[0], build_create_table_statement(EpochRef::new(7)));
    let with = build_partition_statements(EpochRef::new(7), true);
    assert_eq!(with.len(), 2);
    assert_eq!(with[1], fk);
}

#[test]
fn query_statement_filters_by_slot() {
    let q = build_query_statement(EpochRef::new(5), 100);
    assert!(q.contains("FROM rpc2a_epoch_5.transaction_ids tx_ids"));
    assert!(q.contains("FROM rpc2a_epoch_5.transaction_blockdata\nWHERE slot = 100\n"));
    assert!(q.ends_with("WHERE slot = 100\n"));
}

#[test]
fn query_statement_writes_stored_slot_value() {
    let top = build_query_statement(EpochRef::new(5), u64::MAX);
    assert!(top.ends_with("WHERE slot = -1\n"));
    let half = build_query_statement(EpochRef::new(5), 1u64 << 63);
    assert!(half.ends_with("WHERE slot = -9223372036854775808\n"));
    let max = build_query_statement(EpochRef::new(5), i64::MAX as u64);
    assert!(max.ends_with("WHERE slot = 9223372036854775807\n"));
}

#[test]
fn ingest_statements_target_the_partition() {
    let d = build_dedup_statement(EpochRef::new(3));
    assert!(d.contains("INSERT INTO rpc2a_epoch_3.transaction_ids(signature)"));
    assert!(d.contains("ON CONFLICT DO NOTHING"));
    let c = build_commit_statement(EpochRef::new(3));
    assert!(c.contains("INSERT INTO rpc2a_epoch_3.transaction_blockdata("));
    assert!(c.contains("FROM rpc2a_epoch_3.transaction_ids tx_lkup"));
    assert!(STAGING_SQL.contains("TRUNCATE transaction_raw_blockdata;"));
    assert!(COPY_SQL.contains("FROM STDIN BINARY"));
}
