//! Per-epoch schema naming and the statements that create, fill and read an
//! epoch partition.
use vstd::prelude::*;

verus! {

/// An epoch, the administrative unit that owns one partition.
#[derive(Debug, Clone, Copy, PartialEq, Eq, Structural)]
pub struct EpochRef {
    pub epoch: u64,
}

impl EpochRef {
    pub fn new(epoch: u64) -> (r: Self)
        ensures
            r.epoch == epoch,
    {
        EpochRef { epoch }
    }

    pub fn get_epoch(&self) -> (r: u64)
        ensures
            r == self.epoch,
    {
        self.epoch
    }
}

pub open spec fn digit_char(d: nat) -> char {
    if d == 0 {
        '0'
    } else if d == 1 {
        '1'
    } else if d == 2 {
        '2'
    } else if d == 3 {
        '3'
    } else if d == 4 {
        '4'
    } else if d == 5 {
        '5'
    } else if d == 6 {
        '6'
    } else if d == 7 {
        '7'
    } else if d == 8 {
        '8'
    } else {
        '9'
    }
}

/// Decimal digits of `n`, most significant first, without leading zeros.
pub open spec fn decimal(n: nat) -> Seq<char>
    decreases n,
{
    if n < 10 {
        seq![digit_char(n)]
    } else {
        decimal(n / 10).push(digit_char(n % 10))
    }
}

pub open spec fn schema_prefix() -> Seq<char> {
    "rpc2a_epoch_"@
}

/// Name of the schema that holds the partition of `epoch`.
pub open spec fn schema_name(epoch: u64) -> Seq<char> {
    schema_prefix() + decimal(epoch as nat)
}

fn digit_str(d: u64) -> (r: &'static str)
    requires
        d < 10,
    ensures
        r@ == seq![digit_char(d as nat)],
{
    proof {
        reveal_strlit("0");
        reveal_strlit("1");
        reveal_strlit("2");
        reveal_strlit("3");
        reveal_strlit("4");
        reveal_strlit("5");
        reveal_strlit("6");
        reveal_strlit("7");
        reveal_strlit("8");
        reveal_strlit("9");
    }
    if d == 0 {
        "0"
    } else if d == 1 {
        "1"
    } else if d == 2 {
        "2"
    } else if d == 3 {
        "3"
    } else if d == 4 {
        "4"
    } else if d == 5 {
        "5"
    } else if d == 6 {
        "6"
    } else if d == 7 {
        "7"
    } else if d == 8 {
        "8"
    } else {
        "9"
    }
}

/// Appends the decimal digits of `n`.
pub fn append_decimal(s: &mut String, n: u64)
    ensures
        final(s)@ == old(s)@ + decimal(n as nat),
    decreases n,
{
    if n >= 10 {
        append_decimal(s, n / 10);
    }
    s.append(digit_str(n % 10));
    assert(s@ =~= old(s)@ + decimal(n as nat));
}

proof fn lemma_decimal_len(n: nat)
    ensures
        decimal(n).len() >= 1,
        n < 10 ==> decimal(n).len() == 1,
        n >= 10 ==> decimal(n).len() >= 2,
    decreases n,
{
    if n >= 10 {
        lemma_decimal_len(n / 10);
    }
}

proof fn lemma_decimal_injective(a: nat, b: nat)
    requires
        decimal(a) == decimal(b),
    ensures
        a == b,
    decreases a,
{
    lemma_decimal_len(a);
    lemma_decimal_len(b);
    if a < 10 && b < 10 {
        assert(decimal(a) == seq![digit_char(a)]);
        assert(decimal(b) == seq![digit_char(b)]);
        assert(seq![digit_char(a)][0] == digit_char(a));
        assert(seq![digit_char(b)][0] == digit_char(b));
        assert(digit_char(a) == digit_char(b));
    } else if a >= 10 && b >= 10 {
        let da = decimal(a);
        let db = decimal(b);
        assert(da.last() == db.last());
        assert(digit_char(a % 10) == digit_char(b % 10));
        assert(a % 10 == b % 10);
        assert(da.drop_last() =~= decimal(a / 10));
        assert(db.drop_last() =~= decimal(b / 10));
        lemma_decimal_injective(a / 10, b / 10);
        assert(a == 10 * (a / 10) + a % 10);
        assert(b == 10 * (b / 10) + b % 10);
    } else {
        assert(decimal(a).len() == decimal(b).len());
    }
}

/// Distinct epochs are stored under distinct schema names.
pub proof fn lemma_schema_name_injective(a: u64, b: u64)
    ensures
        schema_name(a) == schema_name(b) ==> a == b,
{
    if schema_name(a) == schema_name(b) {
        let p = schema_prefix();
        assert(schema_name(a).subrange(p.len() as int, schema_name(a).len() as int) =~= decimal(
            a as nat,
        ));
        assert(schema_name(b).subrange(p.len() as int, schema_name(b).len() as int) =~= decimal(
            b as nat,
        ));
        lemma_decimal_injective(a as nat, b as nat);
    }
}

pub open spec fn is_identifier_char(c: char) -> bool {
    ('a' <= c <= 'z') || ('0' <= c <= '9') || c == '_'
}

/// An unquoted identifier that the store keeps as written: a lowercase
/// letter, then lowercase letters, digits and underscores, at most 63 in all.
pub open spec fn is_plain_identifier(s: Seq<char>) -> bool {
    &&& 0 < s.len() <= 63
    &&& 'a' <= s[0] <= 'z'
    &&& forall|i: int| 0 <= i < s.len() ==> is_identifier_char(#[trigger] s[i])
}

pub open spec fn pow10(k: nat) -> nat
    decreases k,
{
    if k == 0 {
        1
    } else {
        10 * pow10((k - 1) as nat)
    }
}

proof fn lemma_decimal_shape(n: nat, k: nat)
    requires
        k >= 1,
        n < pow10(k),
    ensures
        decimal(n).len() <= k,
        forall|i: int| 0 <= i < decimal(n).len() ==> '0' <= #[trigger] decimal(n)[i] <= '9',
    decreases n,
{
    if n >= 10 {
        assert(k >= 2) by {
            if k == 1 {
                assert(pow10(1) == 10 * pow10(0));
            }
        }
        assert(n / 10 < pow10((k - 1) as nat)) by {
            assert(pow10(k) == 10 * pow10((k - 1) as nat));
        }
        lemma_decimal_shape(n / 10, (k - 1) as nat);
        let d = decimal(n);
        assert forall|i: int| 0 <= i < d.len() implies '0' <= #[trigger] d[i] <= '9' by {
            if i < d.len() - 1 {
                assert(d[i] == decimal(n / 10)[i]);
            }
        }
    }
}

/// Every schema name is a plain identifier of the store.
pub proof fn lemma_schema_name_is_identifier(epoch: u64)
    ensures
        is_plain_identifier(schema_name(epoch)),
{
    reveal_strlit("rpc2a_epoch_");
    reveal_with_fuel(pow10, 21);
    lemma_decimal_shape(epoch as nat, 20);
    let name = schema_name(epoch);
    let p = schema_prefix();
    assert(p.len() == 12);
    assert forall|i: int| 0 <= i < name.len() implies is_identifier_char(#[trigger] name[i]) by {
        if i >= 12 {
            assert(name[i] == decimal(epoch as nat)[i - 12]);
        }
    }
}

/// Name of the schema of the partition of `epoch`: the prefix, then the
/// epoch in decimal. Distinct epochs give distinct names, and every name is
/// a plain identifier.
pub fn build_schema_name(epoch: EpochRef) -> (r: String)
    ensures
        r@ == schema_name(epoch.epoch),
        is_plain_identifier(r@),
{
    proof {
        lemma_schema_name_is_identifier(epoch.epoch);
    }
    let mut s = String::from_str("rpc2a_epoch_");
    append_decimal(&mut s, epoch.get_epoch());
    s
}

pub const CREATE_IDS_HEAD: &'static str = "
CREATE TABLE ";

pub const CREATE_IDS_BODY: &'static str = ".transaction_ids(
    transaction_id bigserial PRIMARY KEY WITH (FILLFACTOR=90),
    signature text STORAGE PLAIN NOT NULL,
    UNIQUE(signature)
) WITH (FILLFACTOR=100);
CREATE TABLE IF NOT EXISTS ";

pub const CREATE_DATA_BODY: &'static str = ".transaction_blockdata(
    transaction_id bigint PRIMARY KEY WITH (FILLFACTOR=90),
    slot bigint NOT NULL,
    cu_requested bigint,
    prioritization_fees bigint,
    cu_consumed bigint,
    recent_blockhash text NOT NULL,
    err text,
    message text NOT NULL
) WITH (FILLFACTOR=90,TOAST_TUPLE_TARGET=128);
CREATE INDEX idx_slot ON ";

pub const CREATE_INDEX_TAIL: &'static str = ".transaction_blockdata USING btree (slot) WITH (FILLFACTOR=90);
";

/// Tables of a partition: signatures to surrogate ids, block data keyed by
/// id, and an index on the slot.
pub open spec fn create_table_sql(schema: Seq<char>) -> Seq<char> {
    CREATE_IDS_HEAD@ + schema + CREATE_IDS_BODY@ + schema + CREATE_DATA_BODY@ + schema
        + CREATE_INDEX_TAIL@
}

pub const FOREIGN_KEY_HEAD: &'static str = "
ALTER TABLE ";

pub const FOREIGN_KEY_BODY: &'static str = ".transaction_blockdata
ADD CONSTRAINT fk_transactions FOREIGN KEY (slot) REFERENCES ";

pub const FOREIGN_KEY_TAIL: &'static str = ".blocks (slot);
";

/// The optional constraint from each row's slot to the partition's blocks.
pub open spec fn foreign_key_sql(schema: Seq<char>) -> Seq<char> {
    FOREIGN_KEY_HEAD@ + schema + FOREIGN_KEY_BODY@ + schema + FOREIGN_KEY_TAIL@
}

pub const QUERY_HEAD: &'static str = "
SELECT
    (SELECT signature FROM ";

pub const QUERY_JOIN: &'static str = ".transaction_ids tx_ids WHERE tx_ids.transaction_id = transaction_blockdata.transaction_id),
    cu_requested,
    prioritization_fees,
    cu_consumed,
    err,
    recent_blockhash,
    message
FROM ";

pub const QUERY_FILTER: &'static str = ".transaction_blockdata
WHERE slot = ";

pub const STATEMENT_END: &'static str = "
";

/// Decimal text of a signed value: a minus sign before negative ones.
pub open spec fn signed_decimal(v: i64) -> Seq<char> {
    if v < 0 {
        seq!['-'] + decimal((-v) as nat)
    } else {
        decimal(v as nat)
    }
}

/// Rows of one slot, each joined back to its signature. The slot is written
/// as the signed value that a row stores for it.
pub open spec fn query_sql(schema: Seq<char>, slot: u64) -> Seq<char> {
    QUERY_HEAD@ + schema + QUERY_JOIN@ + schema + QUERY_FILTER@ + signed_decimal(slot as i64)
        + STATEMENT_END@
}

/// Appends the decimal text of `v`, with a minus sign where it is negative.
pub fn append_signed_decimal(s: &mut String, v: i64)
    ensures
        final(s)@ == old(s)@ + signed_decimal(v),
{
    if v < 0 {
        proof {
            reveal_strlit("-");
        }
        s.append("-");
        let magnitude: u64 = ((-(v + 1)) as u64) + 1;
        append_decimal(s, magnitude);
        assert(s@ =~= old(s)@ + signed_decimal(v));
    } else {
        append_decimal(s, v as u64);
    }
}

/// Creates the session's holding table if needed, and empties it.
pub const STAGING_SQL: &'static str = "
CREATE TEMP TABLE IF NOT EXISTS transaction_raw_blockdata(
    signature text,
    slot bigint,
    cu_requested bigint,
    prioritization_fees bigint,
    cu_consumed bigint,
    recent_blockhash text STORAGE PLAIN,
    err text STORAGE PLAIN,
    message text STORAGE PLAIN
);
TRUNCATE transaction_raw_blockdata;
";

/// Binary bulk transfer into the holding table. Each row carries, in this
/// order: signature, slot, cu_requested, prioritization_fees, cu_consumed,
/// recent_blockhash, err, message.
pub const COPY_SQL: &'static str = "
COPY transaction_raw_blockdata(
    signature,
    slot,
    cu_requested,
    prioritization_fees,
    cu_consumed,
    recent_blockhash,
    err,
    message
) FROM STDIN BINARY
";

pub const DEDUP_HEAD: &'static str = "
INSERT INTO ";

pub const DEDUP_TAIL: &'static str = ".transaction_ids(signature)
SELECT DISTINCT signature FROM transaction_raw_blockdata
ON CONFLICT DO NOTHING
";

/// Gives every staged signature not seen before a surrogate id.
pub open spec fn dedup_sql(schema: Seq<char>) -> Seq<char> {
    DEDUP_HEAD@ + schema + DEDUP_TAIL@
}

pub const COMMIT_HEAD: &'static str = "
INSERT INTO ";

pub const COMMIT_COLUMNS: &'static str = ".transaction_blockdata(
    transaction_id, slot, cu_requested, prioritization_fees, cu_consumed,
    recent_blockhash, err, message
)
SELECT
    (SELECT transaction_id FROM ";

pub const COMMIT_TAIL: &'static str = ".transaction_ids tx_lkup WHERE tx_lkup.signature = transaction_raw_blockdata.signature),
    slot,
    cu_requested,
    prioritization_fees,
    cu_consumed,
    recent_blockhash,
    err,
    message
FROM transaction_raw_blockdata
";

/// Moves the staged rows into the partition under their surrogate ids. A
/// row whose id is already present fails the statement.
pub open spec fn commit_sql(schema: Seq<char>) -> Seq<char> {
    COMMIT_HEAD@ + schema + COMMIT_COLUMNS@ + schema + COMMIT_TAIL@
}

pub fn build_create_table_statement(epoch: EpochRef) -> (r: String)
    ensures
        r@ == create_table_sql(schema_name(epoch.epoch)),
{
    let schema = build_schema_name(epoch);
    let mut s = String::from_str(CREATE_IDS_HEAD);
    s.append(schema.as_str());
    s.append(CREATE_IDS_BODY);
    s.append(schema.as_str());
    s.append(CREATE_DATA_BODY);
    s.append(schema.as_str());
    s.append(CREATE_INDEX_TAIL);
    s
}

pub fn build_foreign_key_statement(epoch: EpochRef) -> (r: String)
    ensures
        r@ == foreign_key_sql(schema_name(epoch.epoch)),
{
    let schema = build_schema_name(epoch);
    let mut s = String::from_str(FOREIGN_KEY_HEAD);
    s.append(schema.as_str());
    s.append(FOREIGN_KEY_BODY);
    s.append(schema.as_str());
    s.append(FOREIGN_KEY_TAIL);
    s
}

/// The statements that set up the partition of `epoch`, in order: its
/// tables, then the foreign key only where the operator asks for it.
pub fn build_partition_statements(epoch: EpochRef, with_foreign_key: bool) -> (r: Vec<String>)
    ensures
        r@.len() == if with_foreign_key {
            2nat
        } else {
            1nat
        },
        r@[0]@ == create_table_sql(schema_name(epoch.epoch)),
        with_foreign_key ==> r@[1]@ == foreign_key_sql(schema_name(epoch.epoch)),
{
    let mut r: Vec<String> = Vec::new();
    r.push(build_create_table_statement(epoch));
    if with_foreign_key {
        r.push(build_foreign_key_statement(epoch));
    }
    r
}

pub fn build_query_statement(epoch: EpochRef, slot: u64) -> (r: String)
    ensures
        r@ == query_sql(schema_name(epoch.epoch), slot),
{
    let schema = build_schema_name(epoch);
    let mut s = String::from_str(QUERY_HEAD);
    s.append(schema.as_str());
    s.append(QUERY_JOIN);
    s.append(schema.as_str());
    s.append(QUERY_FILTER);
    append_signed_decimal(&mut s, slot as i64);
    s.append(STATEMENT_END);
    s
}

pub fn build_dedup_statement(epoch: EpochRef) -> (r: String)
    ensures
        r@ == dedup_sql(schema_name(epoch.epoch)),
{
    let schema = build_schema_name(epoch);
    let mut s = String::from_str(DEDUP_HEAD);
    s.append(schema.as_str());
    s.append(DEDUP_TAIL);
    s
}

pub fn build_commit_statement(epoch: EpochRef) -> (r: String)
    ensures
        r@ == commit_sql(schema_name(epoch.epoch)),
{
    let schema = build_schema_name(epoch);
    let mut s = String::from_str(COMMIT_HEAD);
    s.append(schema.as_str());
    s.append(COMMIT_COLUMNS);
    s.append(schema.as_str());
    s.append(COMMIT_TAIL);
    s
}

} // verus!
