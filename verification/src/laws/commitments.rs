//! What a commitment binds the depositor to.

use vstd::arithmetic::div_mod::lemma_div_denominator;
use vstd::arithmetic::power::{lemma_pow0, lemma_pow_positive, pow};
use vstd::prelude::*;

use crate::commitment::{big_endian, commitment_to, preimage_of, sha256, unsigned};
use crate::invocation::{Action, EscrowError, Event, Halt, Holder, InvocationView};
use crate::types::{Address, CommitmentEscrow, CommitmentEscrowStatus, DataKey};

verus! {

/// 256 to the power of `len`.
spec fn power_of_256(len: nat) -> int
    decreases len,
{
    if len == 0 {
        1
    } else {
        256 * power_of_256((len - 1) as nat)
    }
}

/// Numbers that fit into `len` bytes have different bytes if they differ.
proof fn lemma_bytes_determine_the_number(a: int, b: int, len: nat)
    requires
        0 <= a < power_of_256(len),
        0 <= b < power_of_256(len),
        big_endian(a, len) == big_endian(b, len),
    ensures
        a == b,
    decreases len,
{
    if len > 0 {
        let fewer = (len - 1) as nat;
        let rest_a = big_endian(a / 256, fewer);
        let rest_b = big_endian(b / 256, fewer);
        assert(big_endian(a, len).drop_last() =~= rest_a);
        assert(big_endian(b, len).drop_last() =~= rest_b);
        assert(big_endian(a, len).last() == (a % 256) as u8);
        assert(big_endian(b, len).last() == (b % 256) as u8);
        lemma_bytes_determine_the_number(a / 256, b / 256, fewer);
    }
}

/// As many bytes as were asked for.
proof fn lemma_byte_count(value: int, len: nat)
    ensures
        big_endian(value, len).len() == len,
    decreases len,
{
    if len > 0 {
        lemma_byte_count(value / 256, (len - 1) as nat);
    }
}

/// Each byte of a number is one digit of it to base 256, the first the most
/// significant.
proof fn lemma_bytes_are_digits(value: int, len: nat, i: int)
    requires
        value >= 0,
        0 <= i < len,
    ensures
        big_endian(value, len).len() == len,
        big_endian(value, len)[i] == (value / pow(256, (len - 1 - i) as nat)) % 256,
    decreases len,
{
    let fewer = (len - 1) as nat;
    lemma_byte_count(value / 256, fewer);
    lemma_pow0(256);
    if i < fewer {
        let e = (len - 2 - i) as nat;
        lemma_bytes_are_digits(value / 256, fewer, i);
        lemma_pow_positive(256, e);
        lemma_div_denominator(value, 256, pow(256, e));
        assert(pow(256, (len - 1 - i) as nat) == 256 * pow(256, e)) by {
            reveal(pow);
        }
    }
}

/// `bytes` is how an amount and a blinding factor are written down to be hashed:
/// 16 bytes with the digits to base 256 of the amount modulo 2^128, the most
/// significant first, and then the blinding factor.
pub open spec fn is_encoding(bytes: Seq<u8>, amount: i128, blinding_factor: Seq<u8>) -> bool {
    &&& bytes.len() == 16 + blinding_factor.len()
    &&& forall|i: int|
        0 <= i < 16 ==> #[trigger] bytes[i] == ((amount as int
            % 0x1_0000_0000_0000_0000_0000_0000_0000_0000int) / pow(256, (15 - i) as nat)) % 256
    &&& forall|i: int|
        0 <= i < blinding_factor.len() ==> bytes[16 + i] == #[trigger] blinding_factor[i]
}

/// What is hashed is the encoding of the amount and the blinding factor, and a
/// commitment is the SHA-256 digest of that encoding.
pub proof fn law_a_commitment_is_the_digest_of_the_encoding(
    amount: i128,
    blinding_factor: Seq<u8>,
    bytes: Seq<u8>,
)
    ensures
        is_encoding(preimage_of(amount as int, blinding_factor), amount, blinding_factor),
        is_encoding(bytes, amount, blinding_factor) ==> bytes == preimage_of(
            amount as int,
            blinding_factor,
        ) && commitment_to(amount as int, blinding_factor) == sha256(bytes),
{
    let value = amount as int % 0x1_0000_0000_0000_0000_0000_0000_0000_0000int;
    let written = preimage_of(amount as int, blinding_factor);
    assert(unsigned(amount as int) == value);
    lemma_byte_count(value, 16);
    assert forall|i: int| 0 <= i < 16 implies #[trigger] written[i] == (value / pow(
        256,
        (15 - i) as nat,
    )) % 256 by {
        lemma_bytes_are_digits(value, 16, i);
        assert(written[i] == big_endian(value, 16)[i]);
    }
    if is_encoding(bytes, amount, blinding_factor) {
        assert forall|i: int| 0 <= i < bytes.len() implies bytes[i] == written[i] by {
            if i >= 16 {
                assert(bytes[16 + (i - 16)] == blinding_factor[i - 16]);
            }
        }
        assert(bytes =~= written);
    }
}

/// What is hashed determines the amount and the blinding factor: no two openings
/// have the same preimage.
pub proof fn law_preimage_determines_the_opening(
    amount: i128,
    blinding_factor: Seq<u8>,
    other_amount: i128,
    other_blinding_factor: Seq<u8>,
)
    requires
        preimage_of(amount as int, blinding_factor) == preimage_of(
            other_amount as int,
            other_blinding_factor,
        ),
    ensures
        amount == other_amount,
        blinding_factor == other_blinding_factor,
{
    let a = unsigned(amount as int);
    let b = unsigned(other_amount as int);
    let p = preimage_of(amount as int, blinding_factor);
    let q = preimage_of(other_amount as int, other_blinding_factor);
    lemma_byte_count(a, 16);
    lemma_byte_count(b, 16);
    assert(big_endian(a, 16) =~= p.take(16));
    assert(big_endian(b, 16) =~= q.take(16));
    assert(blinding_factor =~= p.skip(16));
    assert(other_blinding_factor =~= q.skip(16));
    reveal_with_fuel(power_of_256, 17);
    lemma_bytes_determine_the_number(a, b, 16);
}

/// Opening a commitment succeeds exactly if the caller has authorized it, the
/// escrow is Active, the amount is positive, the release time has been reached,
/// the digest is the commitment, and the contract is known to hold the amount.
/// Then the escrow is Revealed.
pub proof fn law_opening_succeeds_exactly_when_due(
    v: InvocationView,
    depositor: Address,
    id: u64,
    amount: i128,
    digest: Seq<u8>,
)
    ensures
        v.open_commitment(depositor, id, amount, digest) is Ok <==> {
            &&& v.authorized.contains(depositor)
            &&& v.stored_commitment(id) matches Some(escrow)
            &&& amount > 0
            &&& escrow.status == CommitmentEscrowStatus::Active
            &&& escrow.release_time <= v.now
            &&& digest == escrow.commitment@
            &&& v.balance_of(escrow.token) matches Some(balance)
            &&& balance >= amount
        },
        v.open_commitment(depositor, id, amount, digest) matches Ok(w) ==> w.stored_commitment(id)
            == Some(
            CommitmentEscrow {
                status: CommitmentEscrowStatus::Revealed,
                ..v.stored_commitment(id)->Some_0
            },
        ),
{
}

/// The opening that a commitment was made from fits it: it is never refused as
/// not matching.
pub proof fn law_the_right_opening_matches(
    v: InvocationView,
    depositor: Address,
    id: u64,
    amount: i128,
    blinding_factor: Seq<u8>,
)
    requires
        v.stored_commitment(id) matches Some(escrow) && escrow.commitment@ == commitment_to(
            amount as int,
            blinding_factor,
        ),
    ensures
        v.open_commitment(depositor, id, amount, commitment_to(amount as int, blinding_factor))
            != Err::<InvocationView, Halt>(Halt::Reject(EscrowError::CommitmentMismatch)),
{
}

/// A commitment escrow can be opened with what its commitment was made from, at
/// any later time at which it is still as it was created: once the release time
/// has been reached and the contract holds the amount, the beneficiary is paid
/// exactly that amount.
pub proof fn law_a_commitment_can_be_opened(
    v: InvocationView,
    depositor: Address,
    beneficiary: Address,
    token: Address,
    commitment: [u8; 32],
    release_time: u64,
    later: InvocationView,
    amount: i128,
    blinding_factor: Seq<u8>,
)
    requires
        v.create_commitment_escrow(depositor, beneficiary, token, commitment, release_time)
            matches Ok((w, id)) && later.stored_commitment(id) == w.stored_commitment(id),
        commitment@ == commitment_to(amount as int, blinding_factor),
        amount > 0,
        later.authorized.contains(depositor),
        release_time <= later.now,
        later.balance_of(token) matches Some(balance) && balance >= amount,
    ensures
        v.create_commitment_escrow(depositor, beneficiary, token, commitment, release_time)
            matches Ok((_, id)) && later.open_commitment(
            depositor,
            id,
            amount,
            commitment_to(amount as int, blinding_factor),
        ) matches Ok(opened) && opened.actions == later.actions.push(
            Action::Transfer {
                token,
                from: Holder::Contract,
                to: Holder::Other(beneficiary),
                amount,
            },
        ).push(Action::Store(DataKey::CommitmentEscrow(id))).push(
            Action::Publish(Event::CommitmentEscrowRevealed(id)),
        ),
{
}

/// An opening whose digest is not the commitment is refused, and where nothing
/// else is wrong, for that reason.
pub proof fn law_a_wrong_opening_is_refused(
    v: InvocationView,
    depositor: Address,
    id: u64,
    amount: i128,
    digest: Seq<u8>,
)
    requires
        v.stored_commitment(id) matches Some(escrow) && digest != escrow.commitment@,
    ensures
        v.open_commitment(depositor, id, amount, digest) is Err,
        v.authorized.contains(depositor) && amount > 0 && v.stored_commitment(id)->Some_0.status
            == CommitmentEscrowStatus::Active && v.stored_commitment(id)->Some_0.release_time
            <= v.now ==> v.open_commitment(depositor, id, amount, digest) == Err::<
            InvocationView,
            Halt,
        >(Halt::Reject(EscrowError::CommitmentMismatch)),
{
}

/// A commitment binds: whoever opens one with another amount or another blinding
/// factor than it was made from has found two inputs with the same SHA-256
/// digest.
pub proof fn law_commitments_bind(
    v: InvocationView,
    depositor: Address,
    id: u64,
    amount: i128,
    blinding_factor: Seq<u8>,
    other_amount: i128,
    other_blinding_factor: Seq<u8>,
)
    requires
        v.stored_commitment(id) matches Some(escrow) && escrow.commitment@ == commitment_to(
            amount as int,
            blinding_factor,
        ),
        amount != other_amount || blinding_factor != other_blinding_factor,
        v.open_commitment(
            depositor,
            id,
            other_amount,
            commitment_to(other_amount as int, other_blinding_factor),
        ) is Ok,
    ensures
        preimage_of(amount as int, blinding_factor) != preimage_of(
            other_amount as int,
            other_blinding_factor,
        ),
        sha256(preimage_of(amount as int, blinding_factor)) == sha256(
            preimage_of(other_amount as int, other_blinding_factor),
        ),
{
    if preimage_of(amount as int, blinding_factor) == preimage_of(
        other_amount as int,
        other_blinding_factor,
    ) {
        law_preimage_determines_the_opening(
            amount,
            blinding_factor,
            other_amount,
            other_blinding_factor,
        );
    }
}

/// A commitment escrow that has been opened or refunded pays nothing more: it can
/// be neither opened nor refunded again.
pub proof fn law_no_second_opening(
    v: InvocationView,
    depositor: Address,
    id: u64,
    amount: i128,
    digest: Seq<u8>,
)
    requires
        v.stored_commitment(id) matches Some(escrow) && escrow.status
            != CommitmentEscrowStatus::Active,
    ensures
        v.open_commitment(depositor, id, amount, digest) is Err,
        v.authorized.contains(depositor) && amount > 0 ==> v.open_commitment(
            depositor,
            id,
            amount,
            digest,
        ) == Err::<InvocationView, Halt>(Halt::Reject(EscrowError::CommitmentEscrowNotActive)),
        v.refund_commitment_escrow(id) is Err,
        v.admin matches Some(admin) ==> v.authorized.contains(admin) ==> v.refund_commitment_escrow(
            id,
        ) == Err::<InvocationView, Halt>(Halt::Reject(EscrowError::CommitmentEscrowNotActive)),
{
}

/// Refunding a commitment escrow succeeds exactly if the escrow is Active, the
/// administrator has authorized it and the contract's balance is known. Then the
/// escrow is Refunded.
pub proof fn law_commitment_refund_succeeds_exactly_when_due(v: InvocationView, id: u64)
    ensures
        v.refund_commitment_escrow(id) is Ok <==> {
            &&& v.stored_commitment(id) matches Some(escrow)
            &&& escrow.status == CommitmentEscrowStatus::Active
            &&& v.admin matches Some(admin)
            &&& v.authorized.contains(admin)
            &&& v.balance_of(escrow.token) is Some
        },
        v.refund_commitment_escrow(id) matches Ok(w) ==> w.stored_commitment(id) == Some(
            CommitmentEscrow {
                status: CommitmentEscrowStatus::Refunded,
                ..v.stored_commitment(id)->Some_0
            },
        ),
{
}

} // verus!
