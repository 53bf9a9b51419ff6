//! The quartic binomial extension of the base field, `F[x] / (x^4 - 11)`.
//!
//! Extension elements carry the random challenges and the permutation-argument
//! arithmetic of the logup engine, which needs inversion. Inversion raises to
//! the power `q - 2` (with `q` the extension-field order) and then checks the
//! product against one, so its contract never relies on unproved field theory.

use vstd::prelude::*;

use crate::field::fadd;
use crate::field::fneg;
use crate::field::fsub;
use crate::field::Felt;
use crate::field::FIELD_PRIME;

verus! {

/// The binomial constant: `x^4 = EXT_W` in the extension field.
pub const EXT_W: u64 = 11;

/// The exponent `q - 2` for the order `q` of the quartic extension field:
/// raising a unit to it yields its multiplicative inverse.
pub const EXT_INVERSE_EXP: u128 = 16428751811598850197311699254593454079;

/// An element of the quartic extension field, as coefficients of
/// `c0 + c1 x + c2 x^2 + c3 x^3`.
#[derive(Clone, Copy, Debug, PartialEq, Eq, Structural)]
pub struct ExtFelt {
    pub c0: Felt,
    pub c1: Felt,
    pub c2: Felt,
    pub c3: Felt,
}

/// Componentwise modular sum.
pub open spec fn ext_add_spec(a: ExtFelt, b: ExtFelt) -> ExtFelt {
    ExtFelt {
        c0: Felt { value: fadd(a.c0.value as int, b.c0.value as int) as u64 },
        c1: Felt { value: fadd(a.c1.value as int, b.c1.value as int) as u64 },
        c2: Felt { value: fadd(a.c2.value as int, b.c2.value as int) as u64 },
        c3: Felt { value: fadd(a.c3.value as int, b.c3.value as int) as u64 },
    }
}

/// Componentwise modular difference.
pub open spec fn ext_sub_spec(a: ExtFelt, b: ExtFelt) -> ExtFelt {
    ExtFelt {
        c0: Felt { value: fsub(a.c0.value as int, b.c0.value as int) as u64 },
        c1: Felt { value: fsub(a.c1.value as int, b.c1.value as int) as u64 },
        c2: Felt { value: fsub(a.c2.value as int, b.c2.value as int) as u64 },
        c3: Felt { value: fsub(a.c3.value as int, b.c3.value as int) as u64 },
    }
}

/// Componentwise modular negation.
pub open spec fn ext_neg_spec(a: ExtFelt) -> ExtFelt {
    ExtFelt {
        c0: Felt { value: fneg(a.c0.value as int) as u64 },
        c1: Felt { value: fneg(a.c1.value as int) as u64 },
        c2: Felt { value: fneg(a.c2.value as int) as u64 },
        c3: Felt { value: fneg(a.c3.value as int) as u64 },
    }
}

/// Polynomial product reduced by `x^4 = EXT_W`, coefficient by coefficient.
pub open spec fn ext_mul_spec(a: ExtFelt, b: ExtFelt) -> ExtFelt {
    ExtFelt {
        c0: Felt {
            value: ((a.c0.value * b.c0.value + EXT_W * (a.c1.value * b.c3.value
                + a.c2.value * b.c2.value + a.c3.value * b.c1.value))
                % (FIELD_PRIME as int)) as u64,
        },
        c1: Felt {
            value: ((a.c0.value * b.c1.value + a.c1.value * b.c0.value
                + EXT_W * (a.c2.value * b.c3.value + a.c3.value * b.c2.value))
                % (FIELD_PRIME as int)) as u64,
        },
        c2: Felt {
            value: ((a.c0.value * b.c2.value + a.c1.value * b.c1.value
                + a.c2.value * b.c0.value + EXT_W * (a.c3.value * b.c3.value))
                % (FIELD_PRIME as int)) as u64,
        },
        c3: Felt {
            value: ((a.c0.value * b.c3.value + a.c1.value * b.c2.value
                + a.c2.value * b.c1.value + a.c3.value * b.c0.value)
                % (FIELD_PRIME as int)) as u64,
        },
    }
}

/// Iterative square-and-multiply exponentiation, the model of `ExtFelt::pow`.
pub open spec fn ext_pow_iter(acc: ExtFelt, base: ExtFelt, exp: nat) -> ExtFelt
    decreases exp,
{
    if exp == 0 {
        acc
    } else if exp % 2 == 1 {
        ext_pow_iter(ext_mul_spec(acc, base), ext_mul_spec(base, base), exp / 2)
    } else {
        ext_pow_iter(acc, ext_mul_spec(base, base), exp / 2)
    }
}


/// What division computes: the product with the checked inverse candidate, or
/// zero where the candidate fails the product check.
pub open spec fn ext_div_spec(a: ExtFelt, b: ExtFelt) -> ExtFelt {
    let cand = ext_pow_iter(ExtFelt::spec_one(), b, EXT_INVERSE_EXP as nat);
    if ext_mul_spec(cand, b) == ExtFelt::spec_one() {
        ext_mul_spec(a, cand)
    } else {
        ExtFelt::spec_zero()
    }
}

/// Widening product of two canonical residues, bounded below `2^62`.
fn mul_wide(a: u64, b: u64) -> (r: u128)
    requires
        a < FIELD_PRIME,
        b < FIELD_PRIME,
    ensures
        r == (a as int) * (b as int),
        r < 0x4000000000000000,
{
    proof {
        assert((a as int) * (b as int) < 0x4000000000000000) by (nonlinear_arith)
            requires
                a < FIELD_PRIME,
                b < FIELD_PRIME,
        ;
    }
    (a as u128) * (b as u128)
}

impl ExtFelt {
    /// An extension element is well formed when every coefficient is canonical.
    pub open spec fn wf(self) -> bool {
        self.c0.wf() && self.c1.wf() && self.c2.wf() && self.c3.wf()
    }

    pub open spec fn spec_zero() -> ExtFelt {
        ExtFelt {
            c0: Felt::spec_zero(),
            c1: Felt::spec_zero(),
            c2: Felt::spec_zero(),
            c3: Felt::spec_zero(),
        }
    }

    pub open spec fn spec_one() -> ExtFelt {
        ExtFelt {
            c0: Felt::spec_one(),
            c1: Felt::spec_zero(),
            c2: Felt::spec_zero(),
            c3: Felt::spec_zero(),
        }
    }

    /// Embedding of a base-field element as a constant polynomial.
    pub open spec fn spec_from_base(a: Felt) -> ExtFelt {
        ExtFelt {
            c0: a,
            c1: Felt::spec_zero(),
            c2: Felt::spec_zero(),
            c3: Felt::spec_zero(),
        }
    }

    /// The additive identity.
    pub fn zero() -> (r: ExtFelt)
        ensures
            r == ExtFelt::spec_zero(),
            r.wf(),
    {
        ExtFelt { c0: Felt::zero(), c1: Felt::zero(), c2: Felt::zero(), c3: Felt::zero() }
    }

    /// The multiplicative identity.
    pub fn one() -> (r: ExtFelt)
        ensures
            r == ExtFelt::spec_one(),
            r.wf(),
    {
        ExtFelt { c0: Felt::one(), c1: Felt::zero(), c2: Felt::zero(), c3: Felt::zero() }
    }

    /// Canonical embedding of the base field.
    pub fn from_base(a: Felt) -> (r: ExtFelt)
        requires
            a.wf(),
        ensures
            r == ExtFelt::spec_from_base(a),
            r.wf(),
    {
        ExtFelt { c0: a, c1: Felt::zero(), c2: Felt::zero(), c3: Felt::zero() }
    }

    /// Extension-field addition.
    pub fn add(self, rhs: ExtFelt) -> (r: ExtFelt)
        requires
            self.wf(),
            rhs.wf(),
        ensures
            r == ext_add_spec(self, rhs),
            r.wf(),
    {
        ExtFelt {
            c0: self.c0.add(rhs.c0),
            c1: self.c1.add(rhs.c1),
            c2: self.c2.add(rhs.c2),
            c3: self.c3.add(rhs.c3),
        }
    }

    /// Extension-field subtraction.
    pub fn sub(self, rhs: ExtFelt) -> (r: ExtFelt)
        requires
            self.wf(),
            rhs.wf(),
        ensures
            r == ext_sub_spec(self, rhs),
            r.wf(),
    {
        ExtFelt {
            c0: self.c0.sub(rhs.c0),
            c1: self.c1.sub(rhs.c1),
            c2: self.c2.sub(rhs.c2),
            c3: self.c3.sub(rhs.c3),
        }
    }

    /// Extension-field negation.
    pub fn neg(self) -> (r: ExtFelt)
        requires
            self.wf(),
        ensures
            r == ext_neg_spec(self),
            r.wf(),
    {
        ExtFelt { c0: self.c0.neg(), c1: self.c1.neg(), c2: self.c2.neg(), c3: self.c3.neg() }
    }

    /// Extension-field multiplication.
    pub fn mul(self, rhs: ExtFelt) -> (r: ExtFelt)
        requires
            self.wf(),
            rhs.wf(),
        ensures
            r == ext_mul_spec(self, rhs),
            r.wf(),
    {
        let a0 = self.c0.value;
        let a1 = self.c1.value;
        let a2 = self.c2.value;
        let a3 = self.c3.value;
        let b0 = rhs.c0.value;
        let b1 = rhs.c1.value;
        let b2 = rhs.c2.value;
        let b3 = rhs.c3.value;
        let w = EXT_W as u128;
        let wide0: u128 = mul_wide(a0, b0)
            + w * (mul_wide(a1, b3) + mul_wide(a2, b2) + mul_wide(a3, b1));
        let wide1: u128 = mul_wide(a0, b1) + mul_wide(a1, b0)
            + w * (mul_wide(a2, b3) + mul_wide(a3, b2));
        let wide2: u128 = mul_wide(a0, b2) + mul_wide(a1, b1) + mul_wide(a2, b0)
            + w * mul_wide(a3, b3);
        let wide3: u128 = mul_wide(a0, b3) + mul_wide(a1, b2) + mul_wide(a2, b1)
            + mul_wide(a3, b0);
        let p = FIELD_PRIME as u128;
        ExtFelt {
            c0: Felt { value: (wide0 % p) as u64 },
            c1: Felt { value: (wide1 % p) as u64 },
            c2: Felt { value: (wide2 % p) as u64 },
            c3: Felt { value: (wide3 % p) as u64 },
        }
    }

    /// Whether this element is the additive identity.
    pub fn is_zero(self) -> (r: bool)
        ensures
            r == (self == ExtFelt::spec_zero()),
    {
        self.c0.value == 0 && self.c1.value == 0 && self.c2.value == 0 && self.c3.value == 0
    }

    /// Square-and-multiply exponentiation.
    pub fn pow(self, exp: u128) -> (r: ExtFelt)
        requires
            self.wf(),
        ensures
            r == ext_pow_iter(ExtFelt::spec_one(), self, exp as nat),
            r.wf(),
    {
        let mut acc = ExtFelt::one();
        let mut base = self;
        let mut e: u128 = exp;
        while e > 0
            invariant
                acc.wf(),
                base.wf(),
                ext_pow_iter(acc, base, e as nat)
                    == ext_pow_iter(ExtFelt::spec_one(), self, exp as nat),
            decreases e,
        {
            if e % 2 == 1 {
                acc = acc.mul(base);
            }
            base = base.mul(base);
            e = e / 2;
        }
        acc
    }


    /// Extension-field division: multiply by the checked inverse, or produce
    /// zero where the divisor has none. A zero result for a malformed divisor
    /// yields an invalid trace that downstream constraint checking rejects.
    pub fn div(self, rhs: ExtFelt) -> (r: ExtFelt)
        requires
            self.wf(),
            rhs.wf(),
        ensures
            r == ext_div_spec(self, rhs),
            r.wf(),
    {
        match rhs.inverse() {
            Some(inv) => self.mul(inv),
            None => ExtFelt::zero(),
        }
    }

    /// Multiplicative inverse, or `None` when the candidate fails the product
    /// check (in particular for zero). A returned inverse is always exact.
    pub fn inverse(self) -> (r: Option<ExtFelt>)
        requires
            self.wf(),
        ensures
            match r {
                Some(inv) => {
                    &&& inv == ext_pow_iter(ExtFelt::spec_one(), self, EXT_INVERSE_EXP as nat)
                    &&& ext_mul_spec(inv, self) == ExtFelt::spec_one()
                    &&& inv.wf()
                },
                None => ext_mul_spec(
                    ext_pow_iter(ExtFelt::spec_one(), self, EXT_INVERSE_EXP as nat),
                    self,
                ) != ExtFelt::spec_one(),
            },
    {
        let cand = self.pow(EXT_INVERSE_EXP);
        if cand.mul(self) == ExtFelt::one() {
            Some(cand)
        } else {
            None
        }
    }
}

} // verus!
