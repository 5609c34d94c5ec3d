//! What holds of the hash functions and of the backends for every input,
//! stated over the functions' own specifications.

use crate::field::{field_mul, field_pow5, lemma_pow5_by_squaring, pow5_by_squaring, Fr};
use crate::packing::pack_bytes;
use crate::params::ParamsView;
use crate::sponge::{capacity, final_block, hash_of_code, hash_of_msg, hash_pair};
use vstd::prelude::*;

verus! {

/// Backends agree on multiplication: whatever two of them leave in the
/// destination for the same operands is the same element.
pub proof fn lemma_mul_add_agrees(first: Fr, second: Fr, a: nat, b: nat)
    requires
        first@ == field_mul(a, b),
        second@ == field_mul(a, b),
    ensures
        first == second,
{
    Fr::lemma_view_injective(first, second);
}

/// Backends agree on the S-box, and with the reference that squares twice and
/// multiplies by the base: whatever two of them leave for the same input is
/// the same element, and its representative is the reference's.
pub proof fn lemma_sbox_agrees(first: Fr, second: Fr, x: nat)
    requires
        first@ == field_pow5(x),
        second@ == field_pow5(x),
    ensures
        first == second,
        first@ == pow5_by_squaring(x),
{
    Fr::lemma_view_injective(first, second);
    lemma_pow5_by_squaring(x);
}

/// The pair hash is a function of its inputs: two results for the same table,
/// pair and domain are the same element.
pub proof fn lemma_hash_with_domain_deterministic(
    first: Fr,
    second: Fr,
    p: ParamsView,
    a: nat,
    b: nat,
    domain: nat,
)
    requires
        first@ == hash_pair(p, a, b, domain),
        second@ == hash_pair(p, a, b, domain),
    ensures
        first == second,
{
    Fr::lemma_view_injective(first, second);
}

/// The message hash is a function of its inputs: two results for the same
/// table, message and capacity are the same element.
pub proof fn lemma_hash_msg_deterministic(
    first: Fr,
    second: Fr,
    p: ParamsView,
    msg: Seq<nat>,
    cap: Option<u128>,
)
    requires
        first@ == hash_of_msg(p, msg, cap),
        second@ == hash_of_msg(p, msg, cap),
    ensures
        first == second,
{
    Fr::lemma_view_injective(first, second);
}

/// The byte hash is a function of its inputs: two results for the same table
/// and bytes are the same element.
pub proof fn lemma_hash_code_deterministic(first: Fr, second: Fr, p: ParamsView, code: Seq<u8>)
    requires
        first@ == hash_of_code(p, code),
        second@ == hash_of_code(p, code),
    ensures
        first == second,
{
    Fr::lemma_view_injective(first, second);
}

/// No bytes hash to zero, whatever the table.
pub proof fn lemma_hash_code_empty(p: ParamsView)
    ensures
        hash_of_code(p, Seq::<u8>::empty()) == 0,
{
}

/// Blocks are not chained: a message of three elements hashes to the pair
/// hash of its last element and zero, under the given capacity, or under its
/// length where none is given. The first two elements do not enter.
pub proof fn lemma_hash_msg_not_chained(p: ParamsView, m0: nat, m1: nat, m2: nat, cap: u128)
    ensures
        hash_of_msg(p, seq![m0, m1, m2], Some(cap)) == hash_pair(p, m2, 0, cap as nat),
        hash_of_msg(p, seq![m0, m1, m2], None) == hash_pair(p, m2, 0, 3),
{
}

/// A message that fits one block hashes to the pair hash of that block,
/// padded with zero: the message hash reduces to the pair hash.
pub proof fn lemma_hash_msg_single_block(p: ParamsView, msg: Seq<nat>, cap: Option<u128>)
    requires
        msg.len() <= 2,
    ensures
        hash_of_msg(p, msg, cap) == hash_pair(
            p,
            if msg.len() > 0 {
                msg[0]
            } else {
                0
            },
            if msg.len() > 1 {
                msg[1]
            } else {
                0
            },
            capacity(msg.len(), cap),
        ),
{
}

/// The byte hash of at least one byte is the message hash of the packed bytes
/// under the number of chunks.
pub proof fn lemma_hash_code_reduces(p: ParamsView, code: Seq<u8>)
    requires
        code.len() > 0,
    ensures
        hash_of_code(p, code) == hash_pair(
            p,
            final_block(pack_bytes(code)).0,
            final_block(pack_bytes(code)).1,
            pack_bytes(code).len(),
        ),
{
}

} // verus!
