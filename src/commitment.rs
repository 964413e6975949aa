//! The commitment that binds a hidden code: a Poseidon sponge over BN254's
//! scalar field absorbs the nonce and the pegs, and the first eight squeezed
//! bytes, read little-endian, form the public value.
use ark_bn254::Fr;
use ark_crypto_primitives::sponge::poseidon::{
    find_poseidon_ark_and_mds, PoseidonConfig, PoseidonSponge,
};
use ark_crypto_primitives::sponge::CryptographicSponge;
use ark_ff::fields::PrimeField;
use vstd::prelude::*;

verus! {

/// Number of full rounds of the permutation.
pub const FULL_ROUNDS: usize = 8;

/// Number of partial rounds of the permutation.
pub const PARTIAL_ROUNDS: usize = 31;

/// Exponent of the S-box.
pub const ALPHA: u64 = 17;

/// Field elements absorbed per permutation.
pub const RATE: usize = 2;

/// Field elements of the sponge's state that are never absorbed into.
pub const CAPACITY: usize = 1;

/// Matrices skipped by the round-constant generator.
pub const SKIP_MATRICES: u64 = 0;

/// Whether the arguments are the sponge parameters this library uses.
pub open spec fn standard_params(
    full_rounds: usize,
    partial_rounds: usize,
    alpha: u64,
    rate: usize,
    capacity: usize,
    skip_matrices: u64,
) -> bool {
    full_rounds == FULL_ROUNDS && partial_rounds == PARTIAL_ROUNDS && alpha == ALPHA && rate
        == RATE && capacity == CAPACITY && skip_matrices == SKIP_MATRICES
}

/// The first `num_bytes` bytes squeezed from a Poseidon sponge with this
/// library's parameters after it absorbed each of `inputs` as one field element.
pub uninterp spec fn poseidon_squeeze(inputs: Seq<u64>, num_bytes: nat) -> Seq<u8>;

/// Relies on ark-crypto-primitives' Poseidon sponge over BN254's scalar field:
/// `find_poseidon_ark_and_mds` derives the round constants and MDS matrix from
/// the parameters, deterministically; `PoseidonSponge::new` starts from a zero
/// state; `absorb` takes each `u64` as one field element; `squeeze_bytes`
/// returns exactly `num_bytes` bytes, which depend on nothing but the
/// parameters and what was absorbed.
#[verifier::external_body]
fn poseidon_squeeze_bytes(
    full_rounds: usize,
    partial_rounds: usize,
    alpha: u64,
    rate: usize,
    capacity: usize,
    skip_matrices: u64,
    inputs: &[u64],
    num_bytes: usize,
) -> (r: Vec<u8>)
    requires
        standard_params(full_rounds, partial_rounds, alpha, rate, capacity, skip_matrices),
    ensures
        r@ == poseidon_squeeze(inputs@, num_bytes as nat),
        r@.len() == num_bytes,
{
    let bits = Fr::MODULUS_BIT_SIZE as u64;
    let (ark, mds) = find_poseidon_ark_and_mds::<Fr>(bits, rate, full_rounds as u64, partial_rounds as u64, skip_matrices);
    let config = PoseidonConfig::<Fr> { full_rounds, partial_rounds, alpha, ark, mds, rate, capacity };
    let mut sponge = PoseidonSponge::<Fr>::new(&config);
    for i in inputs {
        sponge.absorb(i);
    }
    sponge.squeeze_bytes(num_bytes)
}

/// The unsigned integer whose little-endian bytes are `b[0..8]`.
pub open spec fn u64_from_le(b: Seq<u8>) -> int {
    b[0] + b[1] * 0x100 + b[2] * 0x1_0000 + b[3] * 0x100_0000 + b[4] * 0x1_0000_0000 + b[5]
        * 0x100_0000_0000 + b[6] * 0x1_0000_0000_0000 + b[7] * 0x100_0000_0000_0000
}

/// The Poseidon digest of `inputs`, cut to its low 64 bits.
pub open spec fn poseidon_hash(inputs: Seq<u64>) -> int {
    u64_from_le(poseidon_squeeze(inputs, 8))
}

/// Hashes `inputs` with the library's Poseidon sponge and keeps the low 64 bits.
pub fn compute_poseidon_hash(inputs: &[u64]) -> (r: u64)
    ensures
        r == poseidon_hash(inputs@),
{
    let b = poseidon_squeeze_bytes(
        FULL_ROUNDS,
        PARTIAL_ROUNDS,
        ALPHA,
        RATE,
        CAPACITY,
        SKIP_MATRICES,
        inputs,
        8,
    );
    (b[0] as u64) + (b[1] as u64) * 0x100 + (b[2] as u64) * 0x1_0000 + (b[3] as u64) * 0x100_0000
        + (b[4] as u64) * 0x1_0000_0000 + (b[5] as u64) * 0x100_0000_0000 + (b[6] as u64)
        * 0x1_0000_0000_0000 + (b[7] as u64) * 0x100_0000_0000_0000
}

} // verus!
