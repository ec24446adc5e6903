//! The commitment of a memo.
//!
//! A memo of any length is committed to in 32 bytes, in two steps. Its UTF-8
//! bytes are first reduced to one element of the BN254 scalar field: they are
//! hashed with Keccak-256 together with a one-byte bump seed, and the first
//! byte of that hash is set to zero, which leaves a 248-bit number. The
//! commitment is the Poseidon hash of that one element. The reduction is part
//! of the commitment: whoever proves a statement about a stored digest has to
//! rebuild the same preimage.
//!
//! Both hashes are computed by the `light-utils` and `light-hasher` crates.
//! This module gives their results names and proves how [`CompressedMemo::hash`]
//! combines them; what the two hashes compute is taken on trust.
use crate::error::ExtendedSPLMemoError;
use light_hasher::Hasher;
use vstd::prelude::*;
use vstd::utf8::*;

verus! {

/// Width of a commitment in bytes.
pub const DIGEST_LEN: usize = 32;

/// The error of the `light-hasher` crate. The processor reports every such
/// error as `HashingError` and reads nothing from it.
#[verifier::external_type_specification]
#[verifier::external_body]
pub struct ExHasherError(light_hasher::errors::HasherError);

/// What `light_utils::hash_to_bn254_field_size_be` returns for `bytes`: the
/// field element that the bytes are reduced to and the bump seed that it was
/// found with, or `None` where the search for one gives up.
pub uninterp spec fn bn254_truncation(bytes: Seq<u8>) -> Option<(Seq<u8>, u8)>;

/// What `light_hasher::Poseidon::hashv` returns for the one input `input`: the
/// hash, or `None` where Poseidon refuses the input.
pub uninterp spec fn poseidon(input: Seq<u8>) -> Option<Seq<u8>>;

/// The commitment of a memo, where it has one: Poseidon of the reduction of
/// the memo's bytes.
pub open spec fn memo_digest(memo: Seq<char>) -> Option<Seq<u8>> {
    match bn254_truncation(encode_utf8(memo)) {
        Some((element, _)) => poseidon(element),
        None => None,
    }
}

/// Whether `r` is what hashing the memo gives: its digest, or `HashingError`
/// where it has none.
pub open spec fn is_digest_of(memo: Seq<char>, r: Result<[u8; 32], ExtendedSPLMemoError>) -> bool {
    match r {
        Ok(digest) => memo_digest(memo) == Some(digest@),
        Err(e) => e == ExtendedSPLMemoError::HashingError && memo_digest(memo) is None,
    }
}

/// Calls `light_utils::hash_to_bn254_field_size_be`. Trusted: the answer
/// depends on `bytes` alone, and is what [`bn254_truncation`] names.
#[verifier::external_body]
fn truncate_to_field(bytes: &[u8]) -> (r: Option<([u8; 32], u8)>)
    ensures
        bn254_truncation(bytes@) == match r {
            Some((element, bump)) => Some((element@, bump)),
            None => None,
        },
{
    light_utils::hash_to_bn254_field_size_be(bytes)
}

/// Calls `light_hasher::Poseidon::hashv` on the single input `input`. Trusted:
/// the answer depends on `input` alone, and is what [`poseidon`] names, an
/// error standing for `None`.
#[verifier::external_body]
fn poseidon_hash(input: &[u8; 32]) -> (r: Result<[u8; 32], light_hasher::errors::HasherError>)
    ensures
        poseidon(input@) == match r {
            Ok(hash) => Some(hash@),
            Err(_) => None,
        },
{
    light_hasher::Poseidon::hashv(&[input.as_slice()])
}

/// The record that is committed to: the memo, hashed after reduction to the
/// field.
pub struct CompressedMemo {
    pub memo: String,
}

impl View for CompressedMemo {
    type V = Seq<char>;

    open spec fn view(&self) -> Seq<char> {
        self.memo@
    }
}

impl CompressedMemo {
    /// Computes the commitment of the record. The result is a function of the
    /// memo's characters alone. It fails with `HashingError` exactly where one
    /// of the two hashes refuses its input. The processor's size limit plays
    /// no part here: a memo of any length is handed to the hashes.
    pub fn hash(&self) -> (r: Result<[u8; 32], ExtendedSPLMemoError>)
        ensures
            is_digest_of(self@, r),
    {
        let element = match truncate_to_field(self.memo.as_str().as_bytes()) {
            Some((element, _)) => element,
            None => {
                return Err(ExtendedSPLMemoError::HashingError);
            },
        };
        match poseidon_hash(&element) {
            Ok(digest) => Ok(digest),
            Err(_) => Err(ExtendedSPLMemoError::HashingError),
        }
    }
}

/// Hashing has no hidden state: whatever two calls on records with the same
/// memo return, they return the same, be it a digest or the failure.
pub proof fn lemma_digest_is_a_function(
    a: CompressedMemo,
    b: CompressedMemo,
    first: Result<[u8; 32], ExtendedSPLMemoError>,
    second: Result<[u8; 32], ExtendedSPLMemoError>,
)
    requires
        a@ == b@,
        is_digest_of(a@, first),
        is_digest_of(b@, second),
    ensures
        first == second,
{
    if let (Ok(x), Ok(y)) = (first, second) {
        assert(x@ == y@);
        assert(x =~= y);
    }
}

} // verus!
