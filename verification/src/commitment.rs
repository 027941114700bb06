//! Commitments to a hidden amount.

use soroban_sdk::{Bytes, Env};
use vstd::prelude::*;

verus! {

/// The host environment in which the contract runs.
#[verifier::external_type_specification]
#[verifier::external_body]
pub struct ExEnv(Env);

/// The SHA-256 digest of `data`.
pub uninterp spec fn sha256(data: Seq<u8>) -> Seq<u8>;

/// Calls `soroban_sdk::crypto::Crypto::sha256` on the given bytes. Claims that the
/// result is the SHA-256 digest of those bytes, whatever the environment; what
/// the digest of given bytes is, it leaves unsaid. On the network the work counts
/// against the budget of the running invocation, which ends as a whole, without
/// effect, where the budget runs out.
#[verifier::external_body]
pub(crate) fn sha256_digest(env: &Env, data: &[u8; 48]) -> (digest: [u8; 32])
    ensures
        digest@ == sha256(data@),
{
    env.crypto().sha256(&Bytes::from_array(env, data)).to_array()
}

/// A 128-bit integer in two's complement, as a number from 0 to 2^128 - 1.
pub open spec fn unsigned(amount: int) -> int {
    if amount >= 0 {
        amount
    } else {
        amount + 0x1_0000_0000_0000_0000_0000_0000_0000_0000
    }
}

/// The last `len` base-256 digits of `value`, most significant first.
pub open spec fn big_endian(value: int, len: nat) -> Seq<u8>
    decreases len,
{
    if len == 0 {
        Seq::empty()
    } else {
        big_endian(value / 256, (len - 1) as nat).push((value % 256) as u8)
    }
}

/// What is hashed to commit to an amount: the amount in two's complement, as 16
/// bytes, most significant first, followed by the blinding factor.
pub open spec fn preimage_of(amount: int, blinding_factor: Seq<u8>) -> Seq<u8> {
    big_endian(unsigned(amount), 16) + blinding_factor
}

/// The commitment to an amount under a blinding factor.
pub open spec fn commitment_to(amount: int, blinding_factor: Seq<u8>) -> Seq<u8> {
    sha256(preimage_of(amount, blinding_factor))
}

/// What is hashed to commit to an amount.
pub(crate) fn preimage(amount: i128, blinding_factor: &[u8; 32]) -> (bytes: [u8; 48])
    ensures
        bytes@ == preimage_of(amount as int, blinding_factor@),
{
    let mut value: u128 = if amount >= 0 {
        amount as u128
    } else {
        (amount + i128::MAX + 1) as u128 + 0x8000_0000_0000_0000_0000_0000_0000_0000
    };
    let mut bytes: [u8; 48] = [0u8; 48];
    let mut i: usize = 16;
    while i > 0
        invariant
            i <= 16,
            big_endian(unsigned(amount as int), 16) == big_endian(value as int, i as nat)
                + bytes@.subrange(i as int, 16),
        decreases i,
    {
        let ghost before = bytes@;
        let ghost rest = big_endian(value as int / 256, (i - 1) as nat);
        i -= 1;
        bytes[i] = (value % 256) as u8;
        assert(rest.push((value as int % 256) as u8) + before.subrange(i + 1, 16) =~= rest
            + bytes@.subrange(i as int, 16));
        value = value / 256;
    }
    let ghost amount_bytes = bytes@.subrange(0, 16);
    assert(amount_bytes =~= big_endian(unsigned(amount as int), 16));
    let mut j: usize = 0;
    while j < 32
        invariant
            j <= 32,
            bytes@.subrange(0, 16) == amount_bytes,
            bytes@.subrange(16, 16 + j) == blinding_factor@.take(j as int),
        decreases 32 - j,
    {
        let ghost before = bytes@;
        bytes[16 + j] = blinding_factor[j];
        assert(bytes@.subrange(0, 16) =~= before.subrange(0, 16));
        assert(bytes@.subrange(16, 16 + j + 1) =~= before.subrange(16, 16 + j).push(
            blinding_factor@[j as int],
        ));
        assert(blinding_factor@.take(j + 1) =~= blinding_factor@.take(j as int).push(
            blinding_factor@[j as int],
        ));
        j += 1;
    }
    assert(blinding_factor@.take(32) =~= blinding_factor@);
    assert(bytes@ =~= bytes@.subrange(0, 16) + bytes@.subrange(16, 48));
    bytes
}

/// Whether two digests are equal.
pub(crate) fn same_bytes(a: &[u8; 32], b: &[u8; 32]) -> (same: bool)
    ensures
        same == (a@ == b@),
{
    let mut i: usize = 0;
    while i < 32
        invariant
            i <= 32,
            forall|j: int| 0 <= j < i ==> a@[j] == b@[j],
        decreases 32 - i,
    {
        if a[i] != b[i] {
            return false;
        }
        i += 1;
    }
    assert(a@ =~= b@);
    true
}

} // verus!
