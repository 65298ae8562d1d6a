//! Text forms of signatures, blockhashes and opaque blobs.
//!
//! The encodings themselves belong to outside crates: base58 through
//! `solana_signature` and `solana_hash`, base64 through `base64`'s standard
//! engine. Each result is named here by a spec function of its argument.
use vstd::prelude::*;

verus! {

/// Base58 text of a 64-byte signature.
pub uninterp spec fn signature_text_of(bytes: Seq<u8>) -> Seq<char>;

/// The 64 bytes that a signature text decodes to, if any.
pub uninterp spec fn signature_bytes_of(text: Seq<char>) -> Option<Seq<u8>>;

/// Base58 text of a 32-byte blockhash.
pub uninterp spec fn hash_text_of(bytes: Seq<u8>) -> Seq<char>;

/// The 32 bytes that a blockhash text decodes to, if any.
pub uninterp spec fn hash_bytes_of(text: Seq<char>) -> Option<Seq<u8>>;

/// Padded standard base64 text of a byte string.
pub uninterp spec fn base64_text_of(bytes: Seq<u8>) -> Seq<char>;

/// The bytes that a padded standard base64 text decodes to, if any.
pub uninterp spec fn base64_bytes_of(text: Seq<char>) -> Option<Seq<u8>>;

pub open spec fn opt_array_view<const N: usize>(o: Option<[u8; N]>) -> Option<Seq<u8>> {
    match o {
        Some(a) => Some(a@),
        None => None,
    }
}

pub open spec fn opt_vec_view(o: Option<Vec<u8>>) -> Option<Seq<u8>> {
    match o {
        Some(v) => Some(v@),
        None => None,
    }
}

/// Relies on `Display` of `solana_signature::Signature`: base58 of the bytes.
#[verifier::external_body]
pub(crate) fn encode_signature(bytes: &[u8; 64]) -> (r: String)
    ensures
        r@ == signature_text_of(bytes@),
{
    solana_signature::Signature::from(*bytes).to_string()
}

/// Relies on `FromStr` of `solana_signature::Signature`: base58 decoding into
/// 64 bytes, which inverts the `Display` text of every signature.
#[verifier::external_body]
pub(crate) fn decode_signature(text: &str) -> (r: Option<[u8; 64]>)
    ensures
        opt_array_view(r) == signature_bytes_of(text@),
        forall|b: Seq<u8>|
            b.len() == 64 && #[trigger] signature_text_of(b) == text@ ==> opt_array_view(r)
                == Some(b),
{
    match <solana_signature::Signature as core::str::FromStr>::from_str(text) {
        Ok(sig) => Some(<[u8; 64]>::from(sig)),
        Err(_) => None,
    }
}

/// Relies on `Display` of `solana_hash::Hash`: base58 of the bytes.
#[verifier::external_body]
pub(crate) fn encode_hash(bytes: &[u8; 32]) -> (r: String)
    ensures
        r@ == hash_text_of(bytes@),
{
    solana_hash::Hash::new_from_array(*bytes).to_string()
}

/// Relies on `FromStr` of `solana_hash::Hash`: base58 decoding into 32 bytes,
/// which inverts the `Display` text of every hash.
#[verifier::external_body]
pub(crate) fn decode_hash(text: &str) -> (r: Option<[u8; 32]>)
    ensures
        opt_array_view(r) == hash_bytes_of(text@),
        forall|b: Seq<u8>|
            b.len() == 32 && #[trigger] hash_text_of(b) == text@ ==> opt_array_view(r) == Some(
                b,
            ),
{
    match <solana_hash::Hash as core::str::FromStr>::from_str(text) {
        Ok(hash) => Some(hash.to_bytes()),
        Err(_) => None,
    }
}

/// Relies on `base64::Engine::encode` with the padded standard engine.
#[verifier::external_body]
pub(crate) fn encode_base64(bytes: &Vec<u8>) -> (r: String)
    ensures
        r@ == base64_text_of(bytes@),
{
    base64::Engine::encode(&base64::engine::general_purpose::STANDARD, bytes)
}

/// Relies on `base64::Engine::decode` with the padded standard engine, which
/// gives back the encoded bytes of every text that `encode` produced.
#[verifier::external_body]
pub(crate) fn decode_base64(text: &str) -> (r: Option<Vec<u8>>)
    ensures
        opt_vec_view(r) == base64_bytes_of(text@),
        forall|b: Seq<u8>| #[trigger] base64_text_of(b) == text@ ==> opt_vec_view(r) == Some(b),
{
    base64::Engine::decode(&base64::engine::general_purpose::STANDARD, text).ok()
}

} // verus!
