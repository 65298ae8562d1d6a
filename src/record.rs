//! The persisted form of one transaction and its two-way mapping to the
//! node's runtime transaction.
use vstd::prelude::*;

use crate::codec::{
    base64_bytes_of, base64_text_of, decode_base64, decode_hash, decode_signature,
    encode_base64, encode_hash, encode_signature, hash_bytes_of, hash_text_of, opt_array_view, opt_vec_view,
    signature_bytes_of, signature_text_of,
};

verus! {

/// A transaction as the node hands it over. `err` and `message` are the
/// node's own serialized forms, carried as opaque bytes.
#[derive(Debug)]
pub struct TransactionInfo {
    pub signature: [u8; 64],
    pub err: Option<Vec<u8>>,
    pub cu_requested: Option<u32>,
    pub prioritization_fees: Option<u64>,
    pub cu_consumed: Option<u64>,
    pub recent_blockhash: [u8; 32],
    pub message: Vec<u8>,
    pub readable_accounts: Vec<[u8; 32]>,
    pub writable_accounts: Vec<[u8; 32]>,
    pub is_vote: bool,
    pub address_lookup_tables: Vec<[u8; 32]>,
}

pub ghost struct InfoView {
    pub signature: Seq<u8>,
    pub err: Option<Seq<u8>>,
    pub cu_requested: Option<u32>,
    pub prioritization_fees: Option<u64>,
    pub cu_consumed: Option<u64>,
    pub recent_blockhash: Seq<u8>,
    pub message: Seq<u8>,
    pub readable_accounts: Seq<[u8; 32]>,
    pub writable_accounts: Seq<[u8; 32]>,
    pub is_vote: bool,
    pub address_lookup_tables: Seq<[u8; 32]>,
}

impl View for TransactionInfo {
    type V = InfoView;

    open spec fn view(&self) -> InfoView {
        InfoView {
            signature: self.signature@,
            err: opt_vec_view(self.err),
            cu_requested: self.cu_requested,
            prioritization_fees: self.prioritization_fees,
            cu_consumed: self.cu_consumed,
            recent_blockhash: self.recent_blockhash@,
            message: self.message@,
            readable_accounts: self.readable_accounts@,
            writable_accounts: self.writable_accounts@,
            is_vote: self.is_vote,
            address_lookup_tables: self.address_lookup_tables@,
        }
    }
}

/// One stored transaction row. Integers use the store's signed 64-bit width.
#[derive(Debug)]
pub struct PostgresTransaction {
    pub signature: String,
    pub slot: i64,
    pub err: Option<String>,
    pub cu_requested: Option<i64>,
    pub prioritization_fees: Option<i64>,
    pub cu_consumed: Option<i64>,
    pub recent_blockhash: String,
    pub message: String,
}

pub ghost struct RecordView {
    pub signature: Seq<char>,
    pub slot: i64,
    pub err: Option<Seq<char>>,
    pub cu_requested: Option<i64>,
    pub prioritization_fees: Option<i64>,
    pub cu_consumed: Option<i64>,
    pub recent_blockhash: Seq<char>,
    pub message: Seq<char>,
}

pub open spec fn opt_text_view(o: Option<String>) -> Option<Seq<char>> {
    match o {
        Some(s) => Some(s@),
        None => None,
    }
}

impl View for PostgresTransaction {
    type V = RecordView;

    open spec fn view(&self) -> RecordView {
        RecordView {
            signature: self.signature@,
            slot: self.slot,
            err: opt_text_view(self.err),
            cu_requested: self.cu_requested,
            prioritization_fees: self.prioritization_fees,
            cu_consumed: self.cu_consumed,
            recent_blockhash: self.recent_blockhash@,
            message: self.message@,
        }
    }
}

/// Why a stored row cannot be turned back into a transaction.
#[derive(Debug, Clone, Copy, PartialEq, Eq, Structural)]
pub enum RecordError {
    InvalidSignature,
    InvalidBlockhash,
    InvalidError,
    InvalidMessage,
}

pub open spec fn widen_u32(o: Option<u32>) -> Option<i64> {
    match o {
        Some(x) => Some(x as i64),
        None => None,
    }
}

pub open spec fn narrow_u32(o: Option<i64>) -> Option<u32> {
    match o {
        Some(x) => Some(x as u32),
        None => None,
    }
}

pub open spec fn reinterpret_u64(o: Option<u64>) -> Option<i64> {
    match o {
        Some(x) => Some(x as i64),
        None => None,
    }
}

pub open spec fn reinterpret_i64(o: Option<i64>) -> Option<u64> {
    match o {
        Some(x) => Some(x as u64),
        None => None,
    }
}

/// The row stored for a transaction included at `slot`. Unsigned counters
/// are kept bit for bit in the signed column.
pub open spec fn record_of(info: InfoView, slot: u64) -> RecordView {
    RecordView {
        signature: signature_text_of(info.signature),
        slot: slot as i64,
        err: match info.err {
            Some(e) => Some(base64_text_of(e)),
            None => None,
        },
        cu_requested: widen_u32(info.cu_requested),
        prioritization_fees: reinterpret_u64(info.prioritization_fees),
        cu_consumed: reinterpret_u64(info.cu_consumed),
        recent_blockhash: hash_text_of(info.recent_blockhash),
        message: base64_text_of(info.message),
    }
}

/// The transaction rebuilt from decoded parts. Fields that the row does not
/// hold take their defaults: no accounts, no lookup tables, not a vote.
pub open spec fn info_from_parts(
    signature: Seq<u8>,
    err: Option<Seq<u8>>,
    r: RecordView,
    recent_blockhash: Seq<u8>,
    message: Seq<u8>,
) -> InfoView {
    InfoView {
        signature,
        err,
        cu_requested: narrow_u32(r.cu_requested),
        prioritization_fees: reinterpret_i64(r.prioritization_fees),
        cu_consumed: reinterpret_i64(r.cu_consumed),
        recent_blockhash,
        message,
        readable_accounts: Seq::empty(),
        writable_accounts: Seq::empty(),
        is_vote: false,
        address_lookup_tables: Seq::empty(),
    }
}

/// The decoded error payload; `None` where the row holds none, or where it
/// does not decode.
pub open spec fn decoded_err(r: RecordView) -> Option<Seq<u8>> {
    match r.err {
        Some(e) => base64_bytes_of(e),
        None => None,
    }
}

/// The transaction built from the decoded fields of row `r`, or the first
/// field, in column order, that did not decode. `err` is what the row's error
/// payload decoded to; it is read only where the row holds a payload, and
/// `None` there means a malformed payload.
pub open spec fn assembled(
    r: RecordView,
    signature: Option<Seq<u8>>,
    err: Option<Seq<u8>>,
    recent_blockhash: Option<Seq<u8>>,
    message: Option<Seq<u8>>,
) -> Result<InfoView, RecordError> {
    match signature {
        None => Err(RecordError::InvalidSignature),
        Some(sig) => match recent_blockhash {
            None => Err(RecordError::InvalidBlockhash),
            Some(hash) => if r.err is Some && err is None {
                Err(RecordError::InvalidError)
            } else {
                match message {
                    None => Err(RecordError::InvalidMessage),
                    Some(msg) => Ok(
                        info_from_parts(
                            sig,
                            if r.err is Some {
                                err
                            } else {
                                None
                            },
                            r,
                            hash,
                            msg,
                        ),
                    ),
                }
            },
        },
    }
}

/// The transaction that a stored row stands for, or the first field, in
/// column order, that does not decode.
pub open spec fn info_of(r: RecordView) -> Result<InfoView, RecordError> {
    assembled(
        r,
        signature_bytes_of(r.signature),
        decoded_err(r),
        hash_bytes_of(r.recent_blockhash),
        base64_bytes_of(r.message),
    )
}

/// `info` with the fields that a row does not hold reset to their defaults.
pub open spec fn persisted_part(info: InfoView) -> InfoView {
    InfoView {
        readable_accounts: Seq::empty(),
        writable_accounts: Seq::empty(),
        is_vote: false,
        address_lookup_tables: Seq::empty(),
        ..info
    }
}

pub open spec fn well_formed_info(info: InfoView) -> bool {
    info.signature.len() == 64 && info.recent_blockhash.len() == 32
}

impl PostgresTransaction {
    /// The row for `value` included at `slot`.
    pub fn new(value: &TransactionInfo, slot: u64) -> (r: Self)
        ensures
            r@ == record_of(value@, slot),
    {
        let err = match &value.err {
            Some(e) => Some(encode_base64(e)),
            None => None,
        };
        let cu_requested = match value.cu_requested {
            Some(x) => Some(x as i64),
            None => None,
        };
        let prioritization_fees = match value.prioritization_fees {
            Some(x) => Some(x as i64),
            None => None,
        };
        let cu_consumed = match value.cu_consumed {
            Some(x) => Some(x as i64),
            None => None,
        };
        PostgresTransaction {
            signature: encode_signature(&value.signature),
            slot: slot as i64,
            err,
            cu_requested,
            prioritization_fees,
            cu_consumed,
            recent_blockhash: encode_hash(&value.recent_blockhash),
            message: encode_base64(&value.message),
        }
    }

    /// The transaction that this row stands for. Every row built by `new`
    /// decodes, and gives back the transaction's persisted fields.
    pub fn to_transaction_info(&self) -> (r: Result<TransactionInfo, RecordError>)
        ensures
            match r {
                Ok(info) => info_of(self@) == Ok::<InfoView, RecordError>(info@),
                Err(e) => info_of(self@) == Err::<InfoView, RecordError>(e),
            },
            forall|info: InfoView, slot: u64|
                well_formed_info(info) && #[trigger] record_of(info, slot) == self@ ==> (
                r matches Ok(v) && v@ == persisted_part(info)),
    {
        let signature = decode_signature(self.signature.as_str());
        let recent_blockhash = decode_hash(self.recent_blockhash.as_str());
        let message = decode_base64(self.message.as_str());
        let err = match &self.err {
            Some(e) => decode_base64(e.as_str()),
            None => None,
        };
        let r = Self::assemble_info(self, signature, err, recent_blockhash, message);
        proof {
            assert forall|info: InfoView, slot: u64|
                well_formed_info(info) && #[trigger] record_of(info, slot) == self@ implies (
                r matches Ok(v) && v@ == persisted_part(info)) by {
                assert(signature_text_of(info.signature) == self.signature@);
                assert(hash_text_of(info.recent_blockhash) == self.recent_blockhash@);
                assert(base64_text_of(info.message) == self.message@);
                match info.err {
                    Some(e) => {
                        assert(base64_text_of(e) == self.err->Some_0@);
                    },
                    None => {},
                }
                lemma_counters_round_trip(info, self@);
            }
        }
        r
    }

    /// The transaction built from this row's decoded fields, as
    /// `to_transaction_info` returns it for each outcome of the decoding.
    pub fn assemble_info(
        &self,
        signature: Option<[u8; 64]>,
        err: Option<Vec<u8>>,
        recent_blockhash: Option<[u8; 32]>,
        message: Option<Vec<u8>>,
    ) -> (r: Result<TransactionInfo, RecordError>)
        ensures
            match r {
                Ok(info) => assembled(
                    self@,
                    opt_array_view(signature),
                    opt_vec_view(err),
                    opt_array_view(recent_blockhash),
                    opt_vec_view(message),
                ) == Ok::<InfoView, RecordError>(info@),
                Err(e) => assembled(
                    self@,
                    opt_array_view(signature),
                    opt_vec_view(err),
                    opt_array_view(recent_blockhash),
                    opt_vec_view(message),
                ) == Err::<InfoView, RecordError>(e),
            },
    {
        let signature = match signature {
            Some(s) => s,
            None => return Err(RecordError::InvalidSignature),
        };
        let recent_blockhash = match recent_blockhash {
            Some(h) => h,
            None => return Err(RecordError::InvalidBlockhash),
        };
        let err = match &self.err {
            Some(_) => match err {
                Some(e) => Some(e),
                None => return Err(RecordError::InvalidError),
            },
            None => None,
        };
        let message = match message {
            Some(m) => m,
            None => return Err(RecordError::InvalidMessage),
        };
        let cu_requested = match self.cu_requested {
            Some(x) => Some(x as u32),
            None => None,
        };
        let prioritization_fees = match self.prioritization_fees {
            Some(x) => Some(x as u64),
            None => None,
        };
        let cu_consumed = match self.cu_consumed {
            Some(x) => Some(x as u64),
            None => None,
        };
        let info = TransactionInfo {
            signature,
            err,
            cu_requested,
            prioritization_fees,
            cu_consumed,
            recent_blockhash,
            message,
            readable_accounts: Vec::new(),
            writable_accounts: Vec::new(),
            is_vote: false,
            address_lookup_tables: Vec::new(),
        };
        assert(info@.readable_accounts =~= Seq::empty());
        assert(info@.writable_accounts =~= Seq::empty());
        assert(info@.address_lookup_tables =~= Seq::empty());
        Ok(info)
    }
}

proof fn lemma_counters_round_trip(info: InfoView, r: RecordView)
    requires
        r.cu_requested == widen_u32(info.cu_requested),
        r.prioritization_fees == reinterpret_u64(info.prioritization_fees),
        r.cu_consumed == reinterpret_u64(info.cu_consumed),
    ensures
        narrow_u32(r.cu_requested) == info.cu_requested,
        reinterpret_i64(r.prioritization_fees) == info.prioritization_fees,
        reinterpret_i64(r.cu_consumed) == info.cu_consumed,
{
    match info.prioritization_fees {
        Some(x) => {
            assert(((x as i64) as u64) == x) by (bit_vector);
        },
        None => {},
    }
    match info.cu_consumed {
        Some(x) => {
            assert(((x as i64) as u64) == x) by (bit_vector);
        },
        None => {},
    }
}

} // verus!
