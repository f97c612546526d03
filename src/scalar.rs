//! The arithmetic that the solver is written against, and an exact field
//! that implements it.
use vstd::prelude::*;

verus! {

/// The four operations that elimination and back substitution perform.
///
/// Each operation is pinned to a spec function, so that a contract over the
/// solver can say exactly which operations, on which operands and in which
/// order, produced every entry of its result.
pub trait Scalar: Sized {
    /// The value of `a - b`.
    spec fn diff(a: Self, b: Self) -> Self;

    /// The value of `a * b`.
    spec fn prod(a: Self, b: Self) -> Self;

    /// The value of `a / b`.
    spec fn quot(a: Self, b: Self) -> Self;

    /// A copy of the value.
    fn copied(&self) -> (r: Self)
        ensures
            r == *self,
    ;

    fn minus(&self, o: &Self) -> (r: Self)
        ensures
            r == Self::diff(*self, *o),
    ;

    fn times(&self, o: &Self) -> (r: Self)
        ensures
            r == Self::prod(*self, *o),
    ;

    fn over(&self, o: &Self) -> (r: Self)
        ensures
            r == Self::quot(*self, *o),
    ;
}

/// The prime modulus of [`Residue`]: `2^31 - 1`.
pub const MODULUS: u64 = 2147483647;

/// The residue of `v` modulo [`MODULUS`].
pub open spec fn reduce(v: int) -> int {
    v % (MODULUS as int)
}

/// `b` raised to the power `e` modulo [`MODULUS`], by repeated squaring.
pub open spec fn pow_mod(b: int, e: nat) -> int
    decreases e,
{
    if e == 0 {
        1
    } else {
        let h = pow_mod(b, e / 2);
        let h2 = reduce(h * h);
        if e % 2 == 1 {
            reduce(h2 * reduce(b))
        } else {
            h2
        }
    }
}

/// The multiplicative inverse of `b` modulo the prime [`MODULUS`], by
/// Fermat's little theorem (`b^(p-2)`); zero has none and maps to zero.
pub open spec fn inverse(b: int) -> int {
    pow_mod(b, (MODULUS - 2) as nat)
}

/// An element of the prime field of integers modulo [`MODULUS`].
///
/// Arithmetic in it is exact, so a system solved over it satisfies its
/// equations exactly whenever no pivot is zero.
#[derive(Clone, Copy, Debug, PartialEq, Eq, Structural)]
pub struct Residue {
    v: u64,
}

impl Residue {
    /// The residue of the value, a number below [`MODULUS`].
    pub closed spec fn val(self) -> int {
        reduce(self.v as int)
    }

    /// The residue class of `v`.
    pub fn new(v: u64) -> (r: Residue)
        ensures
            r.val() == reduce(v as int),
    {
        Residue { v: v % MODULUS }
    }

    /// The representative of the class below [`MODULUS`].
    pub fn value(&self) -> (r: u64)
        ensures
            r as int == self.val(),
            r < MODULUS,
    {
        self.v % MODULUS
    }
}

fn pow_exec(b: u64, e: u64) -> (r: u64)
    requires
        b < MODULUS,
    ensures
        r as int == pow_mod(b as int, e as nat),
        r < MODULUS,
    decreases e,
{
    if e == 0 {
        1
    } else {
        let h = pow_exec(b, e / 2);
        assert(h * h < 0x4000_0000_0000_0000) by (nonlinear_arith)
            requires
                h < MODULUS,
        ;
        let h2 = (h * h) % MODULUS;
        if e % 2 == 1 {
            assert(h2 * b < 0x4000_0000_0000_0000) by (nonlinear_arith)
                requires
                    h2 < MODULUS,
                    b < MODULUS,
            ;
            assert(reduce(b as int) == b as int);
            (h2 * b) % MODULUS
        } else {
            h2
        }
    }
}

impl Scalar for Residue {
    closed spec fn diff(a: Self, b: Self) -> Self {
        Residue { v: reduce(a.val() + MODULUS - b.val()) as u64 }
    }

    closed spec fn prod(a: Self, b: Self) -> Self {
        Residue { v: reduce(a.val() * b.val()) as u64 }
    }

    closed spec fn quot(a: Self, b: Self) -> Self {
        Residue { v: reduce(a.val() * inverse(b.val())) as u64 }
    }

    fn copied(&self) -> (r: Self) {
        *self
    }

    fn minus(&self, o: &Self) -> (r: Self) {
        let x = self.v % MODULUS;
        let y = o.v % MODULUS;
        Residue { v: (x + MODULUS - y) % MODULUS }
    }

    fn times(&self, o: &Self) -> (r: Self) {
        let x = self.v % MODULUS;
        let y = o.v % MODULUS;
        assert(x * y < 0x4000_0000_0000_0000) by (nonlinear_arith)
            requires
                x < MODULUS,
                y < MODULUS,
        ;
        Residue { v: (x * y) % MODULUS }
    }

    fn over(&self, o: &Self) -> (r: Self) {
        let x = self.v % MODULUS;
        let y = o.v % MODULUS;
        let inv = pow_exec(y, MODULUS - 2);
        assert(x * inv < 0x4000_0000_0000_0000) by (nonlinear_arith)
            requires
                x < MODULUS,
                inv < MODULUS,
        ;
        Residue { v: (x * inv) % MODULUS }
    }
}

} // verus!
