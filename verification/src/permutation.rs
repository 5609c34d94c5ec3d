//! The fixed-width permutation: in every round the round constants are added,
//! the S-box is applied, and the state is multiplied by the MDS matrix.

use crate::backend::{FieldOps, State, UninitState, T};
use crate::field::{field_add, field_pow5, modulus, Fr};
use crate::params::{ParamsView, PoseidonParams};
use vstd::arithmetic::div_mod::lemma_add_mod_noop;
use vstd::prelude::*;

verus! {

/// The state with the constants `c` added slot by slot.
pub open spec fn add_constants(s: Seq<nat>, c: Seq<nat>) -> Seq<nat> {
    Seq::new(T as nat, |i: int| field_add(s[i], c[i]))
}

/// The state with the first `n` slots raised to the fifth power.
pub open spec fn sbox_first(s: Seq<nat>, n: nat) -> Seq<nat> {
    Seq::new(
        T as nat,
        |i: int|
            if i < n {
                field_pow5(s[i])
            } else {
                s[i]
            },
    )
}

/// The nonlinear layer: every slot in a full round, slot 0 in a partial one.
pub open spec fn sbox_layer(s: Seq<nat>, full: bool) -> Seq<nat> {
    sbox_first(
        s,
        if full {
            T as nat
        } else {
            1
        },
    )
}

/// The sum of the first `n` products of `a` and `b`, as an integer.
pub open spec fn dot(a: Seq<nat>, b: Seq<nat>, n: nat) -> nat
    decreases n,
{
    if n == 0 {
        0
    } else {
        dot(a, b, (n - 1) as nat) + a[n - 1] * b[n - 1]
    }
}

/// The linear layer: the matrix `m` times the state, in the field.
pub open spec fn mix(s: Seq<nat>, m: Seq<Seq<nat>>) -> Seq<nat> {
    Seq::new(T as nat, |i: int| dot(m[i], s, T as nat) % modulus())
}

/// One round, number `r`, on the state `s`.
pub open spec fn round(p: ParamsView, s: Seq<nat>, r: int) -> Seq<nat> {
    mix(sbox_layer(add_constants(s, p.round_constants[r]), p.is_full_round(r)), p.mds)
}

/// The state after the first `n` rounds.
pub open spec fn rounds(p: ParamsView, s: Seq<nat>, n: nat) -> Seq<nat>
    decreases n,
{
    if n == 0 {
        s
    } else {
        round(p, rounds(p, s, (n - 1) as nat), n - 1)
    }
}

/// The permutation: all rounds of the table, in order.
pub open spec fn permutation(p: ParamsView, s: Seq<nat>) -> Seq<nat> {
    rounds(p, s, p.rounds())
}

/// Adds the constants of round `r` to the state.
pub fn add_round_constants(state: &mut State, params: &PoseidonParams, r: usize)
    requires
        r < params@.rounds(),
    ensures
        final(state)@ == add_constants(old(state)@, params@.round_constants[r as int]),
{
    proof {
        state.lemma_len();
    }
    let mut i: usize = 0;
    while i < T
        invariant
            i <= T,
            r < params@.rounds(),
            state@.len() == T,
            old(state)@.len() == T,
            forall|j: int|
                0 <= j < i ==> state@[j] == field_add(
                    old(state)@[j],
                    params@.round_constants[r as int][j],
                ),
            forall|j: int| i <= j < T ==> state@[j] == old(state)@[j],
        decreases T - i,
    {
        let s: Fr = state.slot(i);
        let c: Fr = params.round_constant(r, i);
        state.set_slot(i, s.add(&c));
        i += 1;
    }
}

/// Applies the S-box to every slot in a full round, to slot 0 otherwise.
pub fn apply_sbox<B: FieldOps>(state: &mut State, full: bool)
    ensures
        final(state)@ == sbox_layer(old(state)@, full),
{
    proof {
        state.lemma_len();
    }
    let n: usize = if full {
        T
    } else {
        1
    };
    let mut i: usize = 0;
    while i < n
        invariant
            i <= n <= T,
            state@.len() == T,
            old(state)@.len() == T,
            forall|j: int| 0 <= j < i ==> state@[j] == field_pow5(old(state)@[j]),
            forall|j: int| i <= j < T ==> state@[j] == old(state)@[j],
        decreases n - i,
    {
        let mut v: Fr = state.slot(i);
        B::sbox_inplace(&mut v);
        state.set_slot(i, v);
        i += 1;
    }
}

/// Multiplies the state by the MDS matrix.
pub fn apply_mds<B: FieldOps>(state: &mut State, params: &PoseidonParams)
    ensures
        final(state)@ == mix(old(state)@, params@.mds),
{
    proof {
        state.lemma_len();
    }
    let zero: Fr = Fr::zero();
    let mut next: State = B::fill_state(UninitState::new(), &zero);
    let mut i: usize = 0;
    while i < T
        invariant
            i <= T,
            state@.len() == T,
            state@ == old(state)@,
            next@.len() == T,
            forall|k: int|
                0 <= k < i ==> next@[k] == dot(params@.mds[k], state@, T as nat) % modulus(),
        decreases T - i,
    {
        let mut acc: Fr = Fr::zero();
        let mut j: usize = 0;
        while j < T
            invariant
                i < T,
                j <= T,
                state@.len() == T,
                acc@ == dot(params@.mds[i as int], state@, j as nat) % modulus(),
            decreases T - j,
        {
            let m: Fr = params.mds_entry(i, j);
            let s: Fr = state.slot(j);
            let mut prod: Fr = Fr::zero();
            B::mul_add(&mut prod, &m, &s);
            let sum: Fr = acc.add(&prod);
            proof {
                let d = dot(params@.mds[i as int], state@, j as nat) as int;
                lemma_add_mod_noop(d, (m@ * s@) as int, modulus() as int);
            }
            B::set_fr(&mut acc, &sum);
            j += 1;
        }
        next.set_slot(i, acc);
        i += 1;
    }
    B::set_state(state, &next);
}

/// Runs the permutation on `state` in place.
pub fn permute<B: FieldOps>(state: &mut State, params: &PoseidonParams)
    ensures
        final(state)@ == permutation(params@, old(state)@),
{
    let total: usize = params.rounds();
    let half: usize = params.full_rounds() / 2;
    let partial: usize = params.partial_rounds();
    let mut r: usize = 0;
    while r < total
        invariant
            r <= total,
            total == params@.rounds(),
            half == params@.full_rounds / 2,
            partial == params@.partial_rounds,
            state@ == rounds(params@, old(state)@, r as nat),
        decreases total - r,
    {
        let full: bool = r < half || r - half >= partial;
        add_round_constants(state, params, r);
        apply_sbox::<B>(state, full);
        apply_mds::<B>(state, params);
        r += 1;
    }
}

} // verus!
