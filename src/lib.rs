//! Persistence of transaction metadata into epoch-partitioned tables: the
//! stored record and its mapping to transactions, the per-epoch schema and
//! statements, and the ingest and query semantics of a partition.
pub mod codec;
pub mod record;
pub mod schema;
pub mod partition;
