//! Keccak-256, as computed by the two outside crates this library uses.
//!
//! Neither hash function is restated here: each result is named by an
//! uninterpreted spec function of the input bytes, and the wrappers below
//! tie every call to that name.

use vstd::prelude::*;

verus! {

/// The Keccak-256 digest that `alloy_primitives::keccak256` returns for `data`.
pub uninterp spec fn alloy_keccak256(data: Seq<u8>) -> Seq<u8>;

/// The Keccak-256 digest that `sha3::Keccak256` returns for `data`.
pub uninterp spec fn sha3_keccak256(data: Seq<u8>) -> Seq<u8>;

/// Calls `alloy_primitives::keccak256` on `data` and returns the 32 bytes of
/// the resulting `B256`. The contract claims only that the output is the
/// named digest of the input bytes: a deterministic function of `data`.
#[verifier::external_body]
fn alloy_digest(data: &[u8]) -> (out: [u8; 32])
    ensures
        out@ == alloy_keccak256(data@),
{
    alloy_primitives::keccak256(data).0
}

/// Calls `<sha3::Keccak256 as sha3::Digest>::digest` on `data` and converts
/// the 32-byte `GenericArray` into an array. The contract claims only that
/// the output is the named digest of the input bytes.
#[verifier::external_body]
fn sha3_digest(data: &[u8]) -> (out: [u8; 32])
    ensures
        out@ == sha3_keccak256(data@),
{
    <sha3::Keccak256 as sha3::Digest>::digest(data).into()
}

/// Which of the two Keccak-256 implementations a computation goes through.
#[derive(Clone, Copy, Debug, PartialEq, Eq)]
pub enum KeccakImpl {
    /// `alloy_primitives::keccak256`.
    Alloy,
    /// `sha3::Keccak256`.
    Sha3,
}

/// The digest that implementation `imp` gives for `data`.
pub open spec fn keccak_by(imp: KeccakImpl, data: Seq<u8>) -> Seq<u8> {
    match imp {
        KeccakImpl::Alloy => alloy_keccak256(data),
        KeccakImpl::Sha3 => sha3_keccak256(data),
    }
}

/// Hashes `data` with the chosen implementation.
pub fn keccak256(data: &[u8], imp: KeccakImpl) -> (out: [u8; 32])
    ensures
        out@ == keccak_by(imp, data@),
{
    match imp {
        KeccakImpl::Alloy => alloy_digest(data),
        KeccakImpl::Sha3 => sha3_digest(data),
    }
}

} // verus!
