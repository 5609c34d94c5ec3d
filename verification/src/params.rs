//! The parameter table of a permutation instance: round counts, one vector of
//! round constants per round, and the MDS matrix.

use crate::backend::T;
use crate::field::Fr;
use vstd::prelude::*;

verus! {

/// What a parameter table says, as numbers.
pub struct ParamsView {
    /// Number of rounds in which the S-box is applied to every slot.
    pub full_rounds: nat,
    /// Number of rounds in which the S-box is applied to slot 0 only.
    pub partial_rounds: nat,
    /// One vector of `T` constants for each round, in round order.
    pub round_constants: Seq<Seq<nat>>,
    /// The MDS matrix, row by row.
    pub mds: Seq<Seq<nat>>,
}

impl ParamsView {
    /// Total number of rounds.
    pub open spec fn rounds(self) -> nat {
        self.full_rounds + self.partial_rounds
    }

    /// The table is consistent: the full rounds split evenly around the
    /// partial ones, and there is a vector of `T` constants for every round
    /// and a `T` by `T` matrix.
    pub open spec fn wf(self) -> bool {
        &&& self.full_rounds % 2 == 0
        &&& self.round_constants.len() == self.rounds()
        &&& forall|r: int| 0 <= r < self.rounds() ==> (#[trigger] self.round_constants[r]).len() == T
        &&& self.mds.len() == T
        &&& forall|i: int| 0 <= i < T ==> (#[trigger] self.mds[i]).len() == T
    }

    /// Whether round `r` applies the S-box to every slot: the first half of
    /// the full rounds comes before the partial rounds, the second half after.
    pub open spec fn is_full_round(self, r: int) -> bool {
        r < self.full_rounds / 2 || r >= self.full_rounds / 2 + self.partial_rounds
    }
}

/// The representatives of a row of `T` elements.
pub open spec fn row_view(row: [Fr; T]) -> Seq<nat> {
    Seq::new(T as nat, |i: int| row[i]@)
}

/// The representatives of a table of rows.
pub open spec fn rows_view(rows: Seq<[Fr; T]>) -> Seq<Seq<nat>> {
    Seq::new(rows.len(), |r: int| row_view(rows[r]))
}

/// Why a parameter table was turned down.
#[derive(Clone, Copy, Debug, PartialEq, Eq, Structural)]
pub enum ParamsError {
    /// The number of full rounds is odd, so they cannot be split evenly
    /// before and after the partial rounds.
    OddFullRounds,
    /// The number of constant vectors is not the number of rounds.
    RoundCountMismatch,
}

/// A parameter table that has been checked against the round counts.
#[derive(Debug)]
pub struct PoseidonParams {
    full_rounds: usize,
    partial_rounds: usize,
    round_constants: Vec<[Fr; T]>,
    mds: [[Fr; T]; T],
}

impl View for PoseidonParams {
    type V = ParamsView;

    closed spec fn view(&self) -> ParamsView {
        ParamsView {
            full_rounds: self.full_rounds as nat,
            partial_rounds: self.partial_rounds as nat,
            round_constants: rows_view(self.round_constants@),
            mds: rows_view(self.mds@),
        }
    }
}

impl PoseidonParams {
    /// Every table that executable code holds is consistent.
    #[verifier::type_invariant]
    pub closed spec fn is_consistent(self) -> bool {
        &&& self.full_rounds % 2 == 0
        &&& self.round_constants@.len() == self.full_rounds + self.partial_rounds
    }

    /// A consistent table has a well-formed view whose round count fits in
    /// `usize`.
    pub proof fn lemma_consistent(self)
        requires
            self.is_consistent(),
        ensures
            self@.wf(),
            self@.rounds() <= usize::MAX,
    {
        assert(self.round_constants.len() == self.round_constants@.len());
    }

    /// Checks a table against its round counts and takes it over. The width
    /// of the constant vectors and of the matrix is fixed by their types.
    pub fn new(
        full_rounds: usize,
        partial_rounds: usize,
        round_constants: Vec<[Fr; T]>,
        mds: [[Fr; T]; T],
    ) -> (r: Result<PoseidonParams, ParamsError>)
        ensures
            r is Ok <==> full_rounds % 2 == 0 && round_constants@.len() == full_rounds
                + partial_rounds,
            r matches Ok(p) ==> p@ == (ParamsView {
                full_rounds: full_rounds as nat,
                partial_rounds: partial_rounds as nat,
                round_constants: rows_view(round_constants@),
                mds: rows_view(mds@),
            }) && p@.wf(),
            r matches Err(e) ==> (e == ParamsError::OddFullRounds <==> full_rounds % 2 != 0),
    {
        if full_rounds % 2 != 0 {
            return Err(ParamsError::OddFullRounds);
        }
        let len: usize = round_constants.len();
        if len < full_rounds || len - full_rounds != partial_rounds {
            return Err(ParamsError::RoundCountMismatch);
        }
        Ok(PoseidonParams { full_rounds, partial_rounds, round_constants, mds })
    }

    /// Number of full rounds.
    pub fn full_rounds(&self) -> (r: usize)
        ensures
            r == self@.full_rounds,
    {
        self.full_rounds
    }

    /// Number of partial rounds.
    pub fn partial_rounds(&self) -> (r: usize)
        ensures
            r == self@.partial_rounds,
    {
        self.partial_rounds
    }

    /// Total number of rounds.
    pub fn rounds(&self) -> (r: usize)
        ensures
            r == self@.rounds(),
            self@.wf(),
    {
        proof {
            use_type_invariant(self);
        }
        self.round_constants.len()
    }

    /// The constant that round `round` adds to slot `i`.
    pub fn round_constant(&self, round: usize, i: usize) -> (r: Fr)
        requires
            round < self@.rounds(),
            i < T,
        ensures
            r@ == self@.round_constants[round as int][i as int],
    {
        proof {
            use_type_invariant(self);
        }
        self.round_constants[round][i]
    }

    /// The entry of the MDS matrix in row `i` and column `j`.
    pub fn mds_entry(&self, i: usize, j: usize) -> (r: Fr)
        requires
            i < T,
            j < T,
        ensures
            r@ == self@.mds[i as int][j as int],
    {
        self.mds[i][j]
    }
}

} // verus!
