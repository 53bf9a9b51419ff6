//! The base prime field: integers modulo the BabyBear prime `2^31 - 2^27 + 1`.
//!
//! Field elements are carried as canonical `u64` residues; every operation is
//! proved equal to the corresponding modular-arithmetic spec function.

use vstd::prelude::*;

verus! {

/// The BabyBear prime, `2^31 - 2^27 + 1`.
pub const FIELD_PRIME: u64 = 2013265921;

/// A base-field element, held as a canonical residue below `FIELD_PRIME`.
#[derive(Clone, Copy, Debug, PartialEq, Eq, Structural)]
pub struct Felt {
    pub value: u64,
}

/// Modular sum of two residues.
pub open spec fn fadd(a: int, b: int) -> int {
    (a + b) % (FIELD_PRIME as int)
}

/// Modular difference of two residues.
pub open spec fn fsub(a: int, b: int) -> int {
    (a - b + FIELD_PRIME as int) % (FIELD_PRIME as int)
}

/// Modular product of two residues.
pub open spec fn fmul(a: int, b: int) -> int {
    (a * b) % (FIELD_PRIME as int)
}

/// Modular negation of a residue.
pub open spec fn fneg(a: int) -> int {
    (FIELD_PRIME as int - a) % (FIELD_PRIME as int)
}

/// The canonical field element a machine word embeds to.
pub open spec fn felt_of(x: u32) -> Felt {
    Felt { value: (x as int % (FIELD_PRIME as int)) as u64 }
}

impl Felt {
    /// A residue is well formed when it is canonical.
    pub open spec fn wf(self) -> bool {
        self.value < FIELD_PRIME
    }

    pub open spec fn spec_zero() -> Felt {
        Felt { value: 0 }
    }

    pub open spec fn spec_one() -> Felt {
        Felt { value: 1 }
    }

    /// The additive identity.
    pub fn zero() -> (r: Felt)
        ensures
            r == Felt::spec_zero(),
            r.wf(),
    {
        Felt { value: 0 }
    }

    /// The multiplicative identity.
    pub fn one() -> (r: Felt)
        ensures
            r == Felt::spec_one(),
            r.wf(),
    {
        Felt { value: 1 }
    }

    /// Canonical embedding of a machine word, reduced modulo the prime.
    pub fn from_u32(x: u32) -> (r: Felt)
        ensures
            r == felt_of(x),
            r.wf(),
    {
        Felt { value: (x as u64) % FIELD_PRIME }
    }

    /// Field addition.
    pub fn add(self, rhs: Felt) -> (r: Felt)
        requires
            self.wf(),
            rhs.wf(),
        ensures
            r.value == fadd(self.value as int, rhs.value as int),
            r.wf(),
    {
        Felt { value: (self.value + rhs.value) % FIELD_PRIME }
    }

    /// Field subtraction.
    pub fn sub(self, rhs: Felt) -> (r: Felt)
        requires
            self.wf(),
            rhs.wf(),
        ensures
            r.value == fsub(self.value as int, rhs.value as int),
            r.wf(),
    {
        Felt { value: (self.value + FIELD_PRIME - rhs.value) % FIELD_PRIME }
    }

    /// Field negation.
    pub fn neg(self) -> (r: Felt)
        requires
            self.wf(),
        ensures
            r.value == fneg(self.value as int),
            r.wf(),
    {
        Felt { value: (FIELD_PRIME - self.value) % FIELD_PRIME }
    }

    /// Field multiplication.
    pub fn mul(self, rhs: Felt) -> (r: Felt)
        requires
            self.wf(),
            rhs.wf(),
        ensures
            r.value == fmul(self.value as int, rhs.value as int),
            r.wf(),
    {
        proof {
            assert((self.value as int) * (rhs.value as int) < (FIELD_PRIME as int) * (FIELD_PRIME as int))
                by (nonlinear_arith)
                requires
                    self.value < FIELD_PRIME,
                    rhs.value < FIELD_PRIME,
            ;
        }
        let wide: u128 = (self.value as u128) * (rhs.value as u128);
        let reduced: u128 = wide % (FIELD_PRIME as u128);
        Felt { value: reduced as u64 }
    }

    /// Whether this element is the additive identity.
    pub fn is_zero(self) -> (r: bool)
        ensures
            r == (self.value == 0),
    {
        self.value == 0
    }
}

} // verus!
