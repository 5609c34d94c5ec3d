//! The hash functions: a domain-separated hash of a pair, a hash of a message
//! of field elements, and a hash of raw bytes.

use crate::backend::{FieldOps, State, UninitState, RATE};
use crate::field::{values, Fr};
use crate::packing::{bytes_to_fr, pack_bytes};
use crate::params::{ParamsView, PoseidonParams};
use crate::permutation::{permutation, permute};
use vstd::prelude::*;

verus! {

/// The hash of the pair `(a, b)` under `domain`: slot 0 of the permuted state
/// that starts with `domain` in the capacity slot and the pair in the rate
/// slots.
pub open spec fn hash_pair(p: ParamsView, a: nat, b: nat, domain: nat) -> nat {
    permutation(p, seq![domain, a, b])[0]
}

/// The block that starts at `start`, padded with zero.
pub open spec fn block_at(msg: Seq<nat>, start: int) -> (nat, nat) {
    (
        msg[start],
        if start + 1 < msg.len() {
            msg[start + 1]
        } else {
            0
        },
    )
}

/// The last block of a message in strides of `RATE`; the zero block for the
/// empty message.
pub open spec fn final_block(msg: Seq<nat>) -> (nat, nat) {
    if msg.len() == 0 {
        (0, 0)
    } else if msg.len() % 2 == 1 {
        block_at(msg, msg.len() - 1)
    } else {
        block_at(msg, msg.len() - 2)
    }
}

/// The capacity a message is hashed under: the one given, else its length.
pub open spec fn capacity(len: nat, cap: Option<u128>) -> nat {
    match cap {
        Some(c) => c as nat,
        None => len,
    }
}

/// The hash of a message: the hash of its last block alone, under the
/// capacity fixed at the start. Earlier blocks do not enter the result.
pub open spec fn hash_of_msg(p: ParamsView, msg: Seq<nat>, cap: Option<u128>) -> nat {
    hash_pair(p, final_block(msg).0, final_block(msg).1, capacity(msg.len(), cap))
}

/// The hash of raw bytes: zero for no bytes, else the hash of the packed
/// message under its length.
pub open spec fn hash_of_code(p: ParamsView, code: Seq<u8>) -> nat {
    if code.len() == 0 {
        0
    } else {
        hash_of_msg(p, pack_bytes(code), None)
    }
}

/// Hashes a pair of field elements under a domain.
pub fn hash_with_domain<B: FieldOps>(params: &PoseidonParams, inp: &[Fr; 2], domain: Fr) -> (r: Fr)
    ensures
        r@ == hash_pair(params@, inp[0]@, inp[1]@, domain@),
{
    let msg: &[Fr] = inp.as_slice();
    let mut state: State = B::init_state_with_cap_and_msg(UninitState::new(), &domain, msg);
    permute::<B>(&mut state, params);
    proof {
        state.lemma_len();
    }
    state.slot(0)
}

/// Hashes a message of field elements. The capacity is `cap`, or the length
/// of the message where none is given. Every block is hashed under that
/// capacity and replaces the result of the one before; the empty message is
/// hashed as one block of zeros.
pub fn hash_msg<B: FieldOps>(params: &PoseidonParams, msg: &[Fr], cap: Option<u128>) -> (r: Fr)
    ensures
        r@ == hash_of_msg(params@, values(msg@), cap),
{
    let len: usize = msg.len();
    let init_cap: Fr = Fr::from_u128(
        match cap {
            Some(c) => c,
            None => len as u128,
        },
    );
    let zero: Fr = Fr::zero();
    if len == 0 {
        return hash_with_domain::<B>(params, &[zero, zero], init_cap);
    }
    let mut output: Fr = zero;
    let mut msg_idx: usize = 0;
    while msg_idx < len
        invariant
            len == msg@.len(),
            len > 0,
            zero@ == 0,
            init_cap@ == capacity(len as nat, cap),
            msg_idx <= len,
            msg_idx < len ==> msg_idx % 2 == 0,
            msg_idx == len ==> output@ == hash_of_msg(params@, values(msg@), cap),
        decreases len - msg_idx,
    {
        let remain: usize = len - msg_idx;
        let next_inp: [Fr; 2] = if remain == 1 {
            [msg[msg_idx], zero]
        } else {
            [msg[msg_idx], msg[msg_idx + 1]]
        };
        output = hash_with_domain::<B>(params, &next_inp, init_cap);
        msg_idx = if remain > RATE {
            msg_idx + RATE
        } else {
            len
        };
    }
    output
}

/// Hashes raw bytes: zero for no bytes, else the hash of the packed bytes as
/// a message under its own length.
pub fn hash_code<B: FieldOps>(params: &PoseidonParams, code: &[u8]) -> (r: Fr)
    ensures
        r@ == hash_of_code(params@, code@),
{
    if code.len() == 0 {
        return Fr::zero();
    }
    let msg: Vec<Fr> = bytes_to_fr(code);
    hash_msg::<B>(params, msg.as_slice(), None)
}

} // verus!
