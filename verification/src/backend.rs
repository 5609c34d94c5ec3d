//! The primitive field operations that the permutation is built from, as a
//! capability set that a deployment can swap, and the portable implementation.

use crate::field::{field_mul, field_pow5, lemma_pow5_by_squaring, values, Fr};
use vstd::prelude::*;

verus! {

/// Width of the permutation: one capacity slot and `RATE` rate slots.
pub const T: usize = 3;

/// Number of field elements absorbed per permutation.
pub const RATE: usize = 2;

/// A state buffer that nothing has been written to yet. The only way to a
/// [`State`] is to hand one of these to [`UninitState::init`].
pub struct UninitState {}

/// A fully initialized permutation state: slot 0 is the capacity slot, the
/// others are the rate slots.
#[derive(Clone, Copy, Debug)]
pub struct State {
    slots: [Fr; T],
}

impl View for State {
    type V = Seq<nat>;

    closed spec fn view(&self) -> Seq<nat> {
        Seq::new(T as nat, |i: int| self.slots[i]@)
    }
}

impl UninitState {
    /// Reserves a state buffer.
    pub fn new() -> (r: UninitState) {
        UninitState {}
    }

    /// Writes every slot at once, which makes the buffer a state.
    pub fn init(self, slots: [Fr; T]) -> (r: State)
        ensures
            r@ == seq![slots[0]@, slots[1]@, slots[2]@],
    {
        let r = State { slots };
        r
    }
}

impl State {
    /// The element in slot `i`.
    pub fn slot(&self, i: usize) -> (r: Fr)
        requires
            i < T,
        ensures
            r@ == self@[i as int],
    {
        self.slots[i]
    }

    /// Overwrites slot `i` and leaves the others as they are.
    pub fn set_slot(&mut self, i: usize, val: Fr)
        requires
            i < T,
        ensures
            final(self)@ == old(self)@.update(i as int, val@),
    {
        self.slots[i] = val;
    }

    /// A state has `T` slots.
    pub proof fn lemma_len(self)
        ensures
            self@.len() == T,
    {
    }
}

/// The operations a backend offers. A backend supplies the two primitives,
/// [`FieldOps::mul_add`] and [`FieldOps::set_fr`]; the other operations are
/// built from them here, once for all backends. Every backend computes the
/// same values: what each operation leaves behind is fixed by its contract.
pub trait FieldOps {
    /// Overwrites `dst` with the product of `a` and `b`; what `dst` held is
    /// discarded.
    fn mul_add(dst: &mut Fr, a: &Fr, b: &Fr)
        ensures
            final(dst)@ == field_mul(a@, b@),
    ;

    /// Overwrites the single element `dst` with `val`.
    fn set_fr(dst: &mut Fr, val: &Fr)
        ensures
            *final(dst) == *val,
    ;

    /// Replaces `val` with its fifth power: its square, the square of that,
    /// and the product with `val`, each by `mul_add`.
    fn sbox_inplace(val: &mut Fr)
        ensures
            final(val)@ == field_pow5(old(val)@),
    {
        let mut x: Fr = Fr::zero();
        Self::set_fr(&mut x, val);
        let mut x2: Fr = Fr::zero();
        Self::mul_add(&mut x2, &x, &x);
        let mut x4: Fr = Fr::zero();
        Self::mul_add(&mut x4, &x2, &x2);
        Self::mul_add(val, &x4, &x);
        proof {
            lemma_pow5_by_squaring(x@);
        }
    }

    /// Makes a state of a fresh buffer by writing `val` to every slot.
    fn fill_state(state: UninitState, val: &Fr) -> (r: State)
        ensures
            r@ == seq![val@, val@, val@],
    {
        let mut slots: [Fr; T] = [Fr::zero(), Fr::zero(), Fr::zero()];
        let mut i: usize = 0;
        while i < T
            invariant
                i <= T,
                forall|j: int| 0 <= j < i ==> slots[j] == *val,
            decreases T - i,
        {
            let mut v: Fr = Fr::zero();
            Self::set_fr(&mut v, val);
            slots[i] = v;
            i += 1;
        }
        state.init(slots)
    }

    /// Overwrites every slot of `state` with the same slot of `new_state`.
    fn set_state(state: &mut State, new_state: &State)
        ensures
            final(state)@ == new_state@,
    {
        proof {
            state.lemma_len();
            new_state.lemma_len();
        }
        let mut i: usize = 0;
        while i < T
            invariant
                i <= T,
                state@.len() == T,
                new_state@.len() == T,
                forall|j: int| 0 <= j < i ==> state@[j] == new_state@[j],
            decreases T - i,
        {
            let src: Fr = new_state.slot(i);
            let mut v: Fr = Fr::zero();
            Self::set_fr(&mut v, &src);
            state.set_slot(i, v);
            i += 1;
        }
    }

    /// Makes a state of a fresh buffer: `cap` in the capacity slot, then the
    /// elements of `msg`, then zeros.
    fn init_state_with_cap_and_msg(state: UninitState, cap: &Fr, msg: &[Fr]) -> (r: State)
        requires
            msg@.len() <= RATE,
        ensures
            r@ == initial_state(cap@, values(msg@)),
    {
        let zero: Fr = Fr::zero();
        let mut slots: [Fr; T] = [zero, zero, zero];
        let mut c: Fr = Fr::zero();
        Self::set_fr(&mut c, cap);
        slots[0] = c;
        let mut i: usize = 0;
        while i < msg.len()
            invariant
                i <= msg@.len() <= RATE,
                slots[0] == *cap,
                forall|j: int| 0 <= j < i ==> slots[j + 1] == msg@[j],
                forall|j: int| i < j < T ==> slots[j]@ == 0,
            decreases msg@.len() - i,
        {
            let mut v: Fr = Fr::zero();
            Self::set_fr(&mut v, &msg[i]);
            slots[i + 1] = v;
            i += 1;
        }
        let r = state.init(slots);
        r
    }
}

/// The state that absorbing `msg`, of at most `RATE` elements, starts from.
pub open spec fn initial_state(cap: nat, msg: Seq<nat>) -> Seq<nat> {
    seq![
        cap,
        if msg.len() > 0 {
            msg[0]
        } else {
            0
        },
        if msg.len() > 1 {
            msg[1]
        } else {
            0
        },
    ]
}

/// The backend that runs everywhere: ordinary field arithmetic and plain
/// copies.
pub struct Portable {}

impl FieldOps for Portable {
    fn mul_add(dst: &mut Fr, a: &Fr, b: &Fr) {
        *dst = a.mul(b);
    }

    fn set_fr(dst: &mut Fr, val: &Fr) {
        *dst = *val;
    }
}

} // verus!
