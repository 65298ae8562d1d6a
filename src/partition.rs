//! One epoch partition: the signature table that hands out surrogate ids and
//! the block-data rows keyed by those ids, with the ingest and query rules.
//!
//! Ingest of a block is all-or-nothing and strict: a batch that would write a
//! second row for a transaction id (already present, or twice in the batch)
//! is rejected as a whole and changes nothing.
//!
//! This is an in-memory model of what the store does with the ingest and
//! query statements of `schema`; the database runner does not execute it.
//! Here a signature's id is its position in the table counted from one; a
//! store's generated ids need not take those values, only their uniqueness
//! and stability carry over.
use vstd::prelude::*;

use crate::record::{PostgresTransaction, RecordView};
use crate::schema::EpochRef;

verus! {

/// One block-data row. The signature lives in the signature table.
#[derive(Debug)]
pub struct BlockRow {
    pub transaction_id: u64,
    pub slot: i64,
    pub err: Option<String>,
    pub cu_requested: Option<i64>,
    pub prioritization_fees: Option<i64>,
    pub cu_consumed: Option<i64>,
    pub recent_blockhash: String,
    pub message: String,
}

pub ghost struct RowView {
    pub transaction_id: u64,
    pub slot: i64,
    pub err: Option<Seq<char>>,
    pub cu_requested: Option<i64>,
    pub prioritization_fees: Option<i64>,
    pub cu_consumed: Option<i64>,
    pub recent_blockhash: Seq<char>,
    pub message: Seq<char>,
}

impl View for BlockRow {
    type V = RowView;

    open spec fn view(&self) -> RowView {
        RowView {
            transaction_id: self.transaction_id,
            slot: self.slot,
            err: crate::record::opt_text_view(self.err),
            cu_requested: self.cu_requested,
            prioritization_fees: self.prioritization_fees,
            cu_consumed: self.cu_consumed,
            recent_blockhash: self.recent_blockhash@,
            message: self.message@,
        }
    }
}

/// Why a batch was not ingested.
#[derive(Debug, Clone, Copy, PartialEq, Eq, Structural)]
pub enum IngestError {
    /// A row for one of the batch's transaction ids exists already, or the
    /// batch holds a signature twice.
    DuplicateRecordError,
}

/// Signature table, where the signature at position `i` has id `i + 1`, and
/// the block-data rows.
pub ghost struct PartitionView {
    pub epoch: EpochRef,
    pub keys: Seq<Seq<char>>,
    pub rows: Seq<RowView>,
}

#[derive(Debug)]
pub struct EpochPartition {
    epoch: EpochRef,
    signatures: Vec<String>,
    rows: Vec<BlockRow>,
}

impl View for EpochPartition {
    type V = PartitionView;

    closed spec fn view(&self) -> PartitionView {
        PartitionView {
            epoch: self.epoch,
            keys: self.signatures@.map_values(|s: String| s@),
            rows: self.rows@.map_values(|r: BlockRow| r@),
        }
    }
}

pub open spec fn distinct_keys(keys: Seq<Seq<char>>) -> bool {
    forall|i: int, j: int|
        0 <= i < keys.len() && 0 <= j < keys.len() && i != j ==> keys[i] != keys[j]
}

/// Every signature once, every row's id handed out by the table, and room
/// for one more id.
pub open spec fn well_formed(p: PartitionView) -> bool {
    &&& distinct_keys(p.keys)
    &&& p.keys.len() < usize::MAX
    &&& forall|k: int|
        0 <= k < p.rows.len() ==> 1 <= #[trigger] p.rows[k].transaction_id <= p.keys.len()
}

pub open spec fn key_position(keys: Seq<Seq<char>>, s: Seq<char>) -> int {
    choose|i: int| 0 <= i < keys.len() && keys[i] == s
}

/// The surrogate id of `s`: its position, counted from one.
pub open spec fn transaction_id_of(keys: Seq<Seq<char>>, s: Seq<char>) -> int {
    key_position(keys, s) + 1
}

/// `s` stands in the table exactly once.
pub open spec fn single_key(keys: Seq<Seq<char>>, s: Seq<char>) -> bool {
    &&& keys.contains(s)
    &&& forall|j: int| 0 <= j < keys.len() && keys[j] == s ==> j == key_position(keys, s)
}

pub open spec fn batch_view(records: Seq<PostgresTransaction>) -> Seq<RecordView> {
    records.map_values(|r: PostgresTransaction| r@)
}

/// The table after inserting each signature of `batch` not seen before, in
/// batch order.
pub open spec fn dedup_keys(keys: Seq<Seq<char>>, batch: Seq<RecordView>) -> Seq<Seq<char>>
    decreases batch.len(),
{
    if batch.len() == 0 {
        keys
    } else {
        let k = dedup_keys(keys, batch.drop_last());
        if k.contains(batch.last().signature) {
            k
        } else {
            k.push(batch.last().signature)
        }
    }
}

pub open spec fn has_row(rows: Seq<RowView>, id: int) -> bool {
    exists|k: int| 0 <= k < rows.len() && rows[k].transaction_id == id
}

pub open spec fn repeats_signature(batch: Seq<RecordView>) -> bool {
    exists|i: int, j: int|
        0 <= i < j < batch.len() && #[trigger] batch[i].signature == #[trigger] batch[j].signature
}

pub open spec fn meets_stored_row(p: PartitionView, batch: Seq<RecordView>) -> bool {
    exists|i: int|
        0 <= i < batch.len() && p.keys.contains(#[trigger] batch[i].signature) && has_row(
            p.rows,
            transaction_id_of(p.keys, batch[i].signature),
        )
}

pub open spec fn conflicts(p: PartitionView, batch: Seq<RecordView>) -> bool {
    repeats_signature(batch) || meets_stored_row(p, batch)
}

pub open spec fn row_of(id: int, r: RecordView) -> RowView {
    RowView {
        transaction_id: id as u64,
        slot: r.slot,
        err: r.err,
        cu_requested: r.cu_requested,
        prioritization_fees: r.prioritization_fees,
        cu_consumed: r.cu_consumed,
        recent_blockhash: r.recent_blockhash,
        message: r.message,
    }
}

pub open spec fn committed_rows(keys: Seq<Seq<char>>, batch: Seq<RecordView>) -> Seq<RowView> {
    batch.map_values(|r: RecordView| row_of(transaction_id_of(keys, r.signature), r))
}

/// The partition after ingesting `batch`, and the outcome.
pub open spec fn ingest_result(p: PartitionView, batch: Seq<RecordView>) -> (
    PartitionView,
    Result<(), IngestError>,
) {
    if conflicts(p, batch) {
        (p, Err(IngestError::DuplicateRecordError))
    } else {
        let keys = dedup_keys(p.keys, batch);
        (PartitionView { epoch: p.epoch, keys, rows: p.rows + committed_rows(keys, batch) }, Ok(()))
    }
}

pub open spec fn record_of_row(signature: Seq<char>, r: RowView) -> RecordView {
    RecordView {
        signature,
        slot: r.slot,
        err: r.err,
        cu_requested: r.cu_requested,
        prioritization_fees: r.prioritization_fees,
        cu_consumed: r.cu_consumed,
        recent_blockhash: r.recent_blockhash,
        message: r.message,
    }
}

/// The records of the rows at `slot`, in row order, each joined back to its
/// signature.
pub open spec fn slot_records(keys: Seq<Seq<char>>, rows: Seq<RowView>, slot: i64) -> Seq<
    RecordView,
>
    decreases rows.len(),
{
    if rows.len() == 0 {
        Seq::empty()
    } else {
        let prev = slot_records(keys, rows.drop_last(), slot);
        let r = rows.last();
        if r.slot == slot {
            prev.push(record_of_row(keys[r.transaction_id - 1], r))
        } else {
            prev
        }
    }
}

proof fn lemma_key_position(keys: Seq<Seq<char>>, i: int)
    requires
        distinct_keys(keys),
        0 <= i < keys.len(),
    ensures
        key_position(keys, keys[i]) == i,
{
    let s = keys[i];
    assert(0 <= i < keys.len() && keys[i] == s);
}

proof fn lemma_dedup_keys(keys: Seq<Seq<char>>, batch: Seq<RecordView>)
    requires
        distinct_keys(keys),
    ensures
        distinct_keys(dedup_keys(keys, batch)),
        dedup_keys(keys, batch).len() >= keys.len(),
        dedup_keys(keys, batch).len() <= keys.len() + batch.len(),
        dedup_keys(keys, batch).subrange(0, keys.len() as int) == keys,
        forall|i: int| 0 <= i < batch.len() ==> dedup_keys(keys, batch).contains(#[trigger] batch[i].signature),
    decreases batch.len(),
{
    if batch.len() > 0 {
        let prev = batch.drop_last();
        lemma_dedup_keys(keys, prev);
        let k = dedup_keys(keys, prev);
        let k2 = dedup_keys(keys, batch);
        if !k.contains(batch.last().signature) {
            assert(k2.subrange(0, keys.len() as int) =~= k.subrange(0, keys.len() as int));
        }
        assert forall|i: int| 0 <= i < batch.len() implies k2.contains(#[trigger] batch[i].signature) by {
            if i < batch.len() - 1 {
                assert(prev[i] == batch[i]);
                let w = choose|w: int| 0 <= w < k.len() && k[w] == prev[i].signature;
                assert(k2[w] == batch[i].signature);
            } else if !k.contains(batch.last().signature) {
                assert(k2[k.len() as int] == batch[i].signature);
            }
        }
    }
}

/// Positions already handed out keep their signature: a key's id never
/// changes.
proof fn lemma_position_kept(keys: Seq<Seq<char>>, batch: Seq<RecordView>, s: Seq<char>)
    requires
        distinct_keys(keys),
        keys.contains(s),
    ensures
        key_position(dedup_keys(keys, batch), s) == key_position(keys, s),
        single_key(dedup_keys(keys, batch), s),
{
    lemma_dedup_keys(keys, batch);
    let k = dedup_keys(keys, batch);
    let i = key_position(keys, s);
    assert(k.subrange(0, keys.len() as int)[i] == k[i]);
    lemma_key_position(k, i);
    assert forall|j: int| 0 <= j < k.len() && k[j] == s implies j == key_position(k, s) by {
        lemma_key_position(k, j);
    }
    assert(k.contains(s));
}

proof fn lemma_single_key(keys: Seq<Seq<char>>, s: Seq<char>)
    requires
        distinct_keys(keys),
        keys.contains(s),
    ensures
        single_key(keys, s),
{
    assert forall|j: int| 0 <= j < keys.len() && keys[j] == s implies j == key_position(keys, s) by {
        lemma_key_position(keys, j);
    }
}

/// Two ingests whose batches both hold `s`, the first accepted: afterwards
/// the signature table holds `s` exactly once, under the id that the first
/// ingest gave it, whether the second ingest is accepted or not.
pub proof fn lemma_shared_signature_single_key(
    p: PartitionView,
    b1: Seq<RecordView>,
    b2: Seq<RecordView>,
    s: Seq<char>,
    i: int,
    j: int,
)
    requires
        well_formed(p),
        ingest_result(p, b1).1 is Ok,
        0 <= i < b1.len() && b1[i].signature == s,
        0 <= j < b2.len() && b2[j].signature == s,
    ensures
        single_key(ingest_result(p, b1).0.keys, s),
        single_key(ingest_result(ingest_result(p, b1).0, b2).0.keys, s),
        transaction_id_of(ingest_result(ingest_result(p, b1).0, b2).0.keys, s)
            == transaction_id_of(ingest_result(p, b1).0.keys, s),
{
    let q1 = ingest_result(p, b1).0;
    lemma_dedup_keys(p.keys, b1);
    assert(q1.keys.contains(b1[i].signature));
    lemma_single_key(q1.keys, s);
    lemma_position_kept(q1.keys, b2, s);
}

/// Two ingests that share a signature `s` may run their signature stages in
/// either order: both orders leave `s` in the table exactly once.
pub proof fn lemma_concurrent_dedup_single_key(
    keys: Seq<Seq<char>>,
    b1: Seq<RecordView>,
    b2: Seq<RecordView>,
    s: Seq<char>,
    i: int,
    j: int,
)
    requires
        distinct_keys(keys),
        0 <= i < b1.len() && b1[i].signature == s,
        0 <= j < b2.len() && b2[j].signature == s,
    ensures
        single_key(dedup_keys(dedup_keys(keys, b1), b2), s),
        single_key(dedup_keys(dedup_keys(keys, b2), b1), s),
{
    lemma_dedup_keys(keys, b1);
    lemma_dedup_keys(keys, b2);
    assert(dedup_keys(keys, b1).contains(b1[i].signature));
    assert(dedup_keys(keys, b2).contains(b2[j].signature));
    lemma_position_kept(dedup_keys(keys, b1), b2, s);
    lemma_position_kept(dedup_keys(keys, b2), b1, s);
}

/// Ingesting an accepted, non-empty batch a second time is rejected as a
/// duplicate and leaves the partition as the first ingest left it.
pub proof fn lemma_reingest_rejected(p: PartitionView, batch: Seq<RecordView>)
    requires
        well_formed(p),
        p.keys.len() + batch.len() < usize::MAX,
        batch.len() > 0,
        ingest_result(p, batch).1 is Ok,
    ensures
        ingest_result(ingest_result(p, batch).0, batch) == (
            ingest_result(p, batch).0,
            Err::<(), IngestError>(IngestError::DuplicateRecordError),
        ),
{
    let q = ingest_result(p, batch).0;
    lemma_dedup_keys(p.keys, batch);
    let sig = batch[0].signature;
    assert(q.keys.contains(sig));
    let id = transaction_id_of(q.keys, sig);
    let n = p.rows.len() as int;
    assert(q.rows[n] == row_of(id, batch[0]));
    assert(q.rows[n].transaction_id == id);
    assert(has_row(q.rows, id));
    assert(meets_stored_row(q, batch));
}

/// A slot that no row belongs to reads back as an empty sequence.
pub proof fn lemma_empty_slot(p: PartitionView, slot: i64)
    requires
        forall|k: int| 0 <= k < p.rows.len() ==> #[trigger] p.rows[k].slot != slot,
    ensures
        slot_records(p.keys, p.rows, slot).len() == 0,
    decreases p.rows.len(),
{
    if p.rows.len() > 0 {
        let prev = PartitionView { rows: p.rows.drop_last(), ..p };
        assert forall|k: int| 0 <= k < prev.rows.len() implies #[trigger] prev.rows[k].slot != slot by {
            assert(prev.rows[k] == p.rows[k]);
        }
        lemma_empty_slot(prev, slot);
    }
}

proof fn lemma_slot_records_append(
    keys: Seq<Seq<char>>,
    r1: Seq<RowView>,
    r2: Seq<RowView>,
    slot: i64,
)
    ensures
        slot_records(keys, r1 + r2, slot) == slot_records(keys, r1, slot) + slot_records(
            keys,
            r2,
            slot,
        ),
    decreases r2.len(),
{
    if r2.len() == 0 {
        assert(r1 + r2 =~= r1);
        assert(slot_records(keys, r1, slot) + slot_records(keys, r2, slot) =~= slot_records(
            keys,
            r1,
            slot,
        ));
    } else {
        assert((r1 + r2).drop_last() =~= r1 + r2.drop_last());
        assert((r1 + r2).last() == r2.last());
        lemma_slot_records_append(keys, r1, r2.drop_last(), slot);
        let a = slot_records(keys, r1, slot);
        let b = slot_records(keys, r2.drop_last(), slot);
        let r = r2.last();
        if r.slot == slot {
            let x = record_of_row(keys[r.transaction_id - 1], r);
            assert((a + b).push(x) =~= a + b.push(x));
        }
    }
}

proof fn lemma_committed_read_back(keys: Seq<Seq<char>>, batch: Seq<RecordView>, slot: i64)
    requires
        keys.len() < usize::MAX,
        forall|i: int| 0 <= i < batch.len() ==> (#[trigger] batch[i]).slot == slot,
        forall|i: int| 0 <= i < batch.len() ==> keys.contains(#[trigger] batch[i].signature),
    ensures
        slot_records(keys, committed_rows(keys, batch), slot) == batch,
    decreases batch.len(),
{
    if batch.len() == 0 {
        assert(slot_records(keys, committed_rows(keys, batch), slot) =~= batch);
    } else {
        let prev = batch.drop_last();
        let rows = committed_rows(keys, batch);
        assert(rows.drop_last() =~= committed_rows(keys, prev));
        assert forall|i: int| 0 <= i < prev.len() implies keys.contains(#[trigger] prev[i].signature) by {
            assert(prev[i] == batch[i]);
        }
        assert forall|i: int| 0 <= i < prev.len() implies (#[trigger] prev[i]).slot == slot by {
            assert(prev[i] == batch[i]);
        }
        lemma_committed_read_back(keys, prev, slot);
        let r = batch.last();
        assert(keys.contains(batch[batch.len() - 1].signature));
        let pos = key_position(keys, r.signature);
        assert(0 <= pos < keys.len() && keys[pos] == r.signature);
        assert(rows.last() == row_of(pos + 1, r));
        assert(record_of_row(keys[pos], row_of(pos + 1, r)) == r);
        assert(batch =~= prev.push(r));
    }
}

/// Records written by an accepted ingest into a slot that held no rows read
/// back from that slot unchanged, field by field and in batch order.
pub proof fn lemma_stored_records_read_back(p: PartitionView, batch: Seq<RecordView>, slot: i64)
    requires
        well_formed(p),
        p.keys.len() + batch.len() < usize::MAX,
        ingest_result(p, batch).1 is Ok,
        forall|i: int| 0 <= i < batch.len() ==> (#[trigger] batch[i]).slot == slot,
        forall|k: int| 0 <= k < p.rows.len() ==> #[trigger] p.rows[k].slot != slot,
    ensures
        slot_records(ingest_result(p, batch).0.keys, ingest_result(p, batch).0.rows, slot)
            == batch,
{
    let q = ingest_result(p, batch).0;
    lemma_dedup_keys(p.keys, batch);
    lemma_slot_records_append(q.keys, p.rows, committed_rows(q.keys, batch), slot);
    lemma_empty_slot(PartitionView { keys: q.keys, ..p }, slot);
    lemma_committed_read_back(q.keys, batch, slot);
    assert(slot_records(q.keys, p.rows, slot) + batch =~= batch);
}

impl EpochPartition {
    /// An empty partition of `epoch`.
    pub fn new(epoch: EpochRef) -> (r: Self)
        ensures
            r@.epoch == epoch,
            r@.keys.len() == 0,
            r@.rows.len() == 0,
            well_formed(r@),
    {
        let r = EpochPartition { epoch, signatures: Vec::new(), rows: Vec::new() };
        assert(r@.keys =~= Seq::empty());
        assert(r@.rows =~= Seq::empty());
        r
    }

    /// The epoch whose data this partition holds.
    pub fn epoch(&self) -> (r: EpochRef)
        ensures
            r == self@.epoch,
    {
        self.epoch
    }

    /// Number of rows in the signature table.
    pub fn signature_count(&self) -> (r: usize)
        ensures
            r == self@.keys.len(),
    {
        self.signatures.len()
    }

    fn find_signature(&self, signature: &String) -> (r: Option<usize>)
        requires
            well_formed(self@),
        ensures
            match r {
                Some(i) => i < self@.keys.len() && self@.keys[i as int] == signature@
                    && key_position(self@.keys, signature@) == i,
                None => !self@.keys.contains(signature@),
            },
    {
        let mut i: usize = 0;
        while i < self.signatures.len()
            invariant
                i <= self.signatures@.len(),
                well_formed(self@),
                forall|j: int| 0 <= j < i ==> self@.keys[j] != signature@,
            decreases self.signatures@.len() - i,
        {
            if self.signatures[i] == *signature {
                proof {
                    lemma_key_position(self@.keys, i as int);
                }
                return Some(i);
            }
            i = i + 1;
        }
        None
    }

    /// The surrogate id of `signature`, if the table holds it.
    pub fn transaction_id(&self, signature: &String) -> (r: Option<u64>)
        requires
            well_formed(self@),
        ensures
            match r {
                Some(id) => self@.keys.contains(signature@) && id == transaction_id_of(
                    self@.keys,
                    signature@,
                ),
                None => !self@.keys.contains(signature@),
            },
    {
        match self.find_signature(signature) {
            Some(i) => Some((i + 1) as u64),
            None => None,
        }
    }

    fn row_exists(&self, id: u64) -> (r: bool)
        ensures
            r == has_row(self@.rows, id as int),
    {
        let mut k: usize = 0;
        while k < self.rows.len()
            invariant
                k <= self.rows@.len(),
                forall|m: int| 0 <= m < k ==> self@.rows[m].transaction_id != id,
            decreases self.rows@.len() - k,
        {
            if self.rows[k].transaction_id == id {
                assert(self@.rows[k as int].transaction_id == id);
                return true;
            }
            k = k + 1;
        }
        false
    }

    /// Whether `records` would write a second row for some transaction id.
    fn batch_conflicts(&self, records: &[PostgresTransaction]) -> (r: bool)
        requires
            well_formed(self@),
        ensures
            r == conflicts(self@, batch_view(records@)),
    {
        let ghost batch = batch_view(records@);
        let mut i: usize = 0;
        while i < records.len()
            invariant
                i <= records@.len(),
                batch == batch_view(records@),
                well_formed(self@),
                forall|a: int, b: int|
                    0 <= a < b < i ==> #[trigger] batch[a].signature != #[trigger] batch[b].signature,
                forall|a: int|
                    0 <= a < i ==> !(self@.keys.contains(#[trigger] batch[a].signature) && has_row(
                        self@.rows,
                        transaction_id_of(self@.keys, batch[a].signature),
                    )),
            decreases records@.len() - i,
        {
            let mut j: usize = 0;
            while j < i
                invariant
                    j <= i,
                    i < records@.len(),
                    batch == batch_view(records@),
                    forall|a: int| 0 <= a < j ==> #[trigger] batch[a].signature != batch[i as int].signature,
                decreases i - j,
            {
                if records[j].signature == records[i].signature {
                    assert(batch[j as int].signature == batch[i as int].signature);
                    assert(repeats_signature(batch));
                    return true;
                }
                j = j + 1;
            }
            match self.find_signature(&records[i].signature) {
                Some(pos) => {
                    if self.row_exists((pos + 1) as u64) {
                        assert(self@.keys.contains(batch[i as int].signature));
                        assert(meets_stored_row(self@, batch));
                        return true;
                    }
                },
                None => {},
            }
            i = i + 1;
        }
        false
    }

    /// Inserts each signature of `records` not yet in the table, in order:
    /// known signatures keep their ids.
    fn insert_new_signatures(&mut self, records: &[PostgresTransaction])
        requires
            well_formed(old(self)@),
            old(self)@.keys.len() + records@.len() < usize::MAX,
        ensures
            final(self)@ == (PartitionView {
                keys: dedup_keys(old(self)@.keys, batch_view(records@)),
                ..old(self)@
            }),
            well_formed(final(self)@),
    {
        let ghost start = self@;
        let ghost batch = batch_view(records@);
        let mut i: usize = 0;
        while i < records.len()
            invariant
                i <= records@.len(),
                batch == batch_view(records@),
                start.keys.len() + records@.len() < usize::MAX,
                self@ == (PartitionView { keys: dedup_keys(start.keys, batch.take(i as int)), ..start }),
                self@.keys.len() <= start.keys.len() + i,
                well_formed(self@),
            decreases records@.len() - i,
        {
            let ghost before = self@;
            assert(batch.take(i + 1).drop_last() =~= batch.take(i as int));
            if self.find_signature(&records[i].signature).is_none() {
                self.signatures.push(records[i].signature.clone());
                assert(self@.keys =~= before.keys.push(batch[i as int].signature));
                assert(self@.rows =~= before.rows);
            }
            i = i + 1;
        }
        assert(batch.take(records@.len() as int) =~= batch);
    }

    /// Appends one row per record, under the id of its signature.
    fn append_rows(&mut self, records: &[PostgresTransaction])
        requires
            well_formed(old(self)@),
            forall|i: int|
                0 <= i < records@.len() ==> old(self)@.keys.contains(
                    #[trigger] batch_view(records@)[i].signature,
                ),
        ensures
            final(self)@ == (PartitionView {
                rows: old(self)@.rows + committed_rows(old(self)@.keys, batch_view(records@)),
                ..old(self)@
            }),
            well_formed(final(self)@),
    {
        let ghost start = self@;
        let ghost batch = batch_view(records@);
        let mut i: usize = 0;
        while i < records.len()
            invariant
                i <= records@.len(),
                batch == batch_view(records@),
                forall|a: int| 0 <= a < records@.len() ==> start.keys.contains(#[trigger] batch[a].signature),
                self@ == (PartitionView {
                    rows: start.rows + committed_rows(start.keys, batch.take(i as int)),
                    ..start
                }),
                well_formed(self@),
            decreases records@.len() - i,
        {
            let ghost before = self@;
            let record = &records[i];
            assert(start.keys.contains(batch[i as int].signature));
            match self.find_signature(&record.signature) {
                Some(pos) => {
                    let err = match &record.err {
                        Some(e) => Some(e.clone()),
                        None => None,
                    };
                    let row = BlockRow {
                        transaction_id: (pos + 1) as u64,
                        slot: record.slot,
                        err,
                        cu_requested: record.cu_requested,
                        prioritization_fees: record.prioritization_fees,
                        cu_consumed: record.cu_consumed,
                        recent_blockhash: record.recent_blockhash.clone(),
                        message: record.message.clone(),
                    };
                    self.rows.push(row);
                    assert(batch.take(i + 1) =~= batch.take(i as int).push(batch[i as int]));
                    assert(committed_rows(start.keys, batch.take(i + 1)) =~= committed_rows(
                        start.keys,
                        batch.take(i as int),
                    ).push(row_of(transaction_id_of(start.keys, batch[i as int].signature), batch[i as int])));
                    assert(self@.rows =~= before.rows.push(row@));
                    assert(self@.keys =~= before.keys);
                },
                None => {},
            }
            i = i + 1;
        }
        assert(batch.take(records@.len() as int) =~= batch);
    }

    /// The records stored at `slot`, each with its signature joined back from
    /// the signature table. A slot with no rows gives an empty vector.
    pub fn get_transactions_for_slot(&self, slot: u64) -> (r: Vec<PostgresTransaction>)
        requires
            well_formed(self@),
        ensures
            batch_view(r@) == slot_records(self@.keys, self@.rows, slot as i64),
    {
        let mut out: Vec<PostgresTransaction> = Vec::new();
        let mut k: usize = 0;
        while k < self.rows.len()
            invariant
                k <= self.rows@.len(),
                well_formed(self@),
                batch_view(out@) == slot_records(self@.keys, self@.rows.take(k as int), slot as i64),
            decreases self.rows@.len() - k,
        {
            let row = &self.rows[k];
            assert(self@.rows.take(k + 1).drop_last() =~= self@.rows.take(k as int));
            assert(self@.rows[k as int] == row@);
            if row.slot == slot as i64 {
                assert(1 <= self@.rows[k as int].transaction_id <= self@.keys.len());
                let index = (row.transaction_id - 1) as usize;
                let err = match &row.err {
                    Some(e) => Some(e.clone()),
                    None => None,
                };
                let record = PostgresTransaction {
                    signature: self.signatures[index].clone(),
                    slot: row.slot,
                    err,
                    cu_requested: row.cu_requested,
                    prioritization_fees: row.prioritization_fees,
                    cu_consumed: row.cu_consumed,
                    recent_blockhash: row.recent_blockhash.clone(),
                    message: row.message.clone(),
                };
                let ghost prev = out@;
                out.push(record);
                assert(batch_view(out@) =~= batch_view(prev).push(record@));
            }
            k = k + 1;
        }
        assert(self@.rows.take(self@.rows.len() as int) =~= self@.rows);
        out
    }
}

impl PostgresTransaction {
    /// Ingests one block's records into the partition of `epoch`: stages
    /// them, gives each new signature a surrogate id, then commits one row
    /// per record. The whole batch is rejected, and nothing changes, when it
    /// would write a second row for some transaction id.
    pub fn save_transactions_from_block(
        partition: &mut EpochPartition,
        epoch: EpochRef,
        transactions: &[PostgresTransaction],
    ) -> (r: Result<(), IngestError>)
        requires
            well_formed(old(partition)@),
            old(partition)@.epoch == epoch,
            old(partition)@.keys.len() + transactions@.len() < usize::MAX,
        ensures
            (final(partition)@, r) == ingest_result(old(partition)@, batch_view(transactions@)),
            well_formed(final(partition)@),
    {
        if partition.batch_conflicts(transactions) {
            return Err(IngestError::DuplicateRecordError);
        }
        let ghost start = partition@;
        let ghost batch = batch_view(transactions@);
        partition.insert_new_signatures(transactions);
        proof {
            lemma_dedup_keys(start.keys, batch);
        }
        partition.append_rows(transactions);
        Ok(())
    }
}

} // verus!
