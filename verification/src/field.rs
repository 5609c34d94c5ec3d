//! Elements of the BN254 scalar field and the arithmetic the permutation needs.

use vstd::arithmetic::div_mod::lemma_mul_mod_noop_general;
use vstd::arithmetic::power::pow;
use vstd::prelude::*;
use vstd::std_specs::convert::FromSpecImpl;

verus! {

/// The order of the BN254 scalar field.
pub open spec fn modulus() -> nat {
    0x30644e72e131a029b85045b68181585d2833e84879b9709143e1f593f0000001nat
}

/// Sum of two field elements.
pub open spec fn field_add(a: nat, b: nat) -> nat {
    (a + b) % modulus()
}

/// Product of two field elements.
pub open spec fn field_mul(a: nat, b: nat) -> nat {
    (a * b) % modulus()
}

/// Fifth power of a field element.
pub open spec fn field_pow5(a: nat) -> nat {
    (pow(a as int, 5) % (modulus() as int)) as nat
}

/// The fifth power as three multiplications: square, square again, multiply
/// by the base.
pub open spec fn pow5_by_squaring(a: nat) -> nat {
    let a2 = field_mul(a, a);
    let a4 = field_mul(a2, a2);
    field_mul(a4, a)
}

/// The integer that four 64-bit limbs spell, least significant limb first.
pub open spec fn limbs_value(l0: u64, l1: u64, l2: u64, l3: u64) -> nat {
    (l0 as nat) + (l1 as nat) * 0x1_0000_0000_0000_0000nat + (l2 as nat)
        * 0x1_0000_0000_0000_0000_0000_0000_0000_0000nat + (l3 as nat)
        * 0x1_0000_0000_0000_0000_0000_0000_0000_0000_0000_0000_0000_0000nat
}

/// An element of the BN254 scalar field, held as the four limbs of its
/// canonical representative in `[0, modulus())`.
#[derive(Clone, Copy, Debug, PartialEq, Eq, Structural)]
pub struct Fr {
    l0: u64,
    l1: u64,
    l2: u64,
    l3: u64,
}

impl View for Fr {
    type V = nat;

    closed spec fn view(&self) -> nat {
        limbs_value(self.l0, self.l1, self.l2, self.l3)
    }
}

impl Fr {
    /// Every element that executable code holds is reduced.
    #[verifier::type_invariant]
    pub closed spec fn is_canonical(self) -> bool {
        self@ < modulus()
    }

    /// The additive identity.
    pub fn zero() -> (r: Fr)
        ensures
            r@ == 0,
    {
        Fr { l0: 0, l1: 0, l2: 0, l3: 0 }
    }

    /// The multiplicative identity.
    pub fn one() -> (r: Fr)
        ensures
            r@ == 1,
    {
        Fr { l0: 1, l1: 0, l2: 0, l3: 0 }
    }

    /// The element whose representative is `n`.
    pub fn from_u128(n: u128) -> (r: Fr)
        ensures
            r@ == n,
    {
        let lo: u64 = (n & 0xffff_ffff_ffff_ffff) as u64;
        let hi: u64 = (n >> 64) as u64;
        assert(lo as u128 + (hi as u128) * 0x1_0000_0000_0000_0000u128 == n) by (bit_vector)
            requires
                lo == (n & 0xffff_ffff_ffff_ffff) as u64,
                hi == (n >> 64) as u64,
        ;
        Fr { l0: lo, l1: hi, l2: 0, l3: 0 }
    }

    /// The element with the given limbs, least significant first, or `None`
    /// where they spell an integer that is not below the modulus.
    pub fn from_limbs(limbs: [u64; 4]) -> (r: Option<Fr>)
        ensures
            r is Some <==> limbs_value(limbs[0], limbs[1], limbs[2], limbs[3]) < modulus(),
            r matches Some(x) ==> x@ == limbs_value(limbs[0], limbs[1], limbs[2], limbs[3]),
    {
        let l0: u64 = limbs[0];
        let l1: u64 = limbs[1];
        let l2: u64 = limbs[2];
        let l3: u64 = limbs[3];
        let below: bool = l3 < 0x30644e72e131a029 || (l3 == 0x30644e72e131a029 && (l2
            < 0xb85045b68181585d || (l2 == 0xb85045b68181585d && (l1 < 0x2833e84879b97091 || (l1
            == 0x2833e84879b97091 && l0 < 0x43e1f593f0000001)))));
        if below {
            Some(Fr { l0, l1, l2, l3 })
        } else {
            None
        }
    }

    /// The limbs of the representative, least significant first.
    pub fn to_limbs(&self) -> (r: [u64; 4])
        ensures
            limbs_value(r[0], r[1], r[2], r[3]) == self@,
            self@ < modulus(),
    {
        proof {
            use_type_invariant(self);
        }
        [self.l0, self.l1, self.l2, self.l3]
    }

    /// The representative of a canonical element is below the modulus.
    pub proof fn lemma_canonical(self)
        requires
            self.is_canonical(),
        ensures
            self@ < modulus(),
    {
    }

    /// Two elements with the same representative are the same element, limb
    /// for limb.
    pub proof fn lemma_view_injective(a: Fr, b: Fr)
        ensures
            a@ == b@ <==> a == b,
    {
        if a@ == b@ {
            lemma_limbs_value_injective(a.l0, a.l1, a.l2, a.l3, b.l0, b.l1, b.l2, b.l3);
        }
    }

    /// Product in the field, computed by `halo2curves::bn256::Fr`.
    ///
    /// Trusted: `from_raw` gives the element congruent to the integer that the
    /// limbs spell, `mul` multiplies in the field, and `to_bytes` writes the
    /// canonical representative of the product in little-endian order.
    #[verifier::external_body]
    pub(crate) fn mul(&self, rhs: &Fr) -> (r: Fr)
        ensures
            r@ == field_mul(self@, rhs@),
    {
        let x = halo2curves::bn256::Fr::from_raw([self.l0, self.l1, self.l2, self.l3]);
        let y = halo2curves::bn256::Fr::from_raw([rhs.l0, rhs.l1, rhs.l2, rhs.l3]);
        let z = x.mul(&y).to_bytes();
        Fr {
            l0: u64::from_le_bytes(z[0..8].try_into().unwrap()),
            l1: u64::from_le_bytes(z[8..16].try_into().unwrap()),
            l2: u64::from_le_bytes(z[16..24].try_into().unwrap()),
            l3: u64::from_le_bytes(z[24..32].try_into().unwrap()),
        }
    }

    /// Sum in the field, computed by `halo2curves::bn256::Fr`.
    ///
    /// Trusted: `from_raw` gives the element congruent to the integer that the
    /// limbs spell, `add` adds in the field, and `to_bytes` writes the
    /// canonical representative of the sum in little-endian order.
    #[verifier::external_body]
    pub(crate) fn add(&self, rhs: &Fr) -> (r: Fr)
        ensures
            r@ == field_add(self@, rhs@),
    {
        let x = halo2curves::bn256::Fr::from_raw([self.l0, self.l1, self.l2, self.l3]);
        let y = halo2curves::bn256::Fr::from_raw([rhs.l0, rhs.l1, rhs.l2, rhs.l3]);
        let z = x.add(&y).to_bytes();
        Fr {
            l0: u64::from_le_bytes(z[0..8].try_into().unwrap()),
            l1: u64::from_le_bytes(z[8..16].try_into().unwrap()),
            l2: u64::from_le_bytes(z[16..24].try_into().unwrap()),
            l3: u64::from_le_bytes(z[24..32].try_into().unwrap()),
        }
    }
}

impl From<u64> for Fr {
    /// The element whose representative is `n`.
    fn from(n: u64) -> (r: Fr)
        ensures
            r@ == n,
    {
        Fr { l0: n, l1: 0, l2: 0, l3: 0 }
    }
}

impl FromSpecImpl<u64> for Fr {
    open spec fn obeys_from_spec() -> bool {
        true
    }

    closed spec fn from_spec(n: u64) -> Fr {
        Fr { l0: n, l1: 0, l2: 0, l3: 0 }
    }
}

/// Different limbs spell different integers.
pub proof fn lemma_limbs_value_injective(
    a0: u64,
    a1: u64,
    a2: u64,
    a3: u64,
    b0: u64,
    b1: u64,
    b2: u64,
    b3: u64,
)
    requires
        limbs_value(a0, a1, a2, a3) == limbs_value(b0, b1, b2, b3),
    ensures
        a0 == b0,
        a1 == b1,
        a2 == b2,
        a3 == b3,
{
}

/// The representatives of a sequence of elements.
pub open spec fn values(s: Seq<Fr>) -> Seq<nat> {
    s.map_values(|x: Fr| x@)
}

/// Squaring twice and multiplying by the base gives the fifth power.
pub proof fn lemma_pow5_by_squaring(a: nat)
    ensures
        pow5_by_squaring(a) == field_pow5(a),
{
    let p = modulus() as int;
    let x = a as int;
    let x2 = x * x;
    let x4 = x2 * x2;
    assert(pow(x, 5) == x4 * x) by {
        reveal_with_fuel(pow, 6);
        assert(x * (x * (x * (x * (x * 1)))) == ((x * x) * (x * x)) * x) by (nonlinear_arith);
    }
    lemma_mul_mod_noop_general(x2, x2, p);
    lemma_mul_mod_noop_general(x4, x, p);
}

} // verus!
