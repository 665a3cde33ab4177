use vstd::prelude::*;

verus! {

/// The abstract scalar consumed by the expression graph.
///
/// Every arithmetic operation is paired with an uninterpreted specification
/// function, so that contracts over expressions can be stated for any
/// backend.  The proof obligations at the bottom ask an implementation to
/// behave as a commutative ring: the gradient traversal reorders sums of
/// path contributions, and the laws about seeds rely on associativity and
/// distributivity.  An inexact backend (such as a machine float, which obeys
/// these laws only approximately) can still implement the executable
/// methods; its use then carries the usual rounding caveat.
pub trait Scalar: Sized + Copy {
    /// The additive identity, as this backend represents it.
    spec fn zero_spec() -> Self;

    /// The multiplicative identity, as this backend represents it.
    spec fn one_spec() -> Self;

    /// What `add` returns.
    spec fn add_spec(a: Self, b: Self) -> Self;

    /// What `sub` returns.
    spec fn sub_spec(a: Self, b: Self) -> Self;

    /// What `mul` returns.
    spec fn mul_spec(a: Self, b: Self) -> Self;

    /// What `div` returns.  Division by the backend's zero is whatever the
    /// backend makes of it; the graph never checks for it.
    spec fn div_spec(a: Self, b: Self) -> Self;

    /// What `neg` returns.
    spec fn neg_spec(a: Self) -> Self;

    /// What `eq_val` returns: the backend's own notion of value equality.
    spec fn eq_spec(a: Self, b: Self) -> bool;

    /// What `le_val` returns: the backend's own notion of order.
    spec fn le_spec(a: Self, b: Self) -> bool;

    fn zero() -> (r: Self)
        ensures
            r == Self::zero_spec(),
    ;

    fn one() -> (r: Self)
        ensures
            r == Self::one_spec(),
    ;

    fn add(self, rhs: &Self) -> (r: Self)
        ensures
            r == Self::add_spec(self, *rhs),
    ;

    fn sub(self, rhs: &Self) -> (r: Self)
        ensures
            r == Self::sub_spec(self, *rhs),
    ;

    fn mul(self, rhs: &Self) -> (r: Self)
        ensures
            r == Self::mul_spec(self, *rhs),
    ;

    fn div(self, rhs: &Self) -> (r: Self)
        ensures
            r == Self::div_spec(self, *rhs),
    ;

    fn neg(self) -> (r: Self)
        ensures
            r == Self::neg_spec(self),
    ;

    fn eq_val(&self, rhs: &Self) -> (r: bool)
        ensures
            r == Self::eq_spec(*self, *rhs),
    ;

    fn le_val(&self, rhs: &Self) -> (r: bool)
        ensures
            r == Self::le_spec(*self, *rhs),
    ;

    /// Addition commutes.
    proof fn add_comm(a: Self, b: Self)
        ensures
            Self::add_spec(a, b) == Self::add_spec(b, a),
    ;

    /// Addition associates.
    proof fn add_assoc(a: Self, b: Self, c: Self)
        ensures
            Self::add_spec(Self::add_spec(a, b), c) == Self::add_spec(a, Self::add_spec(b, c)),
    ;

    /// Multiplication commutes.
    proof fn mul_comm(a: Self, b: Self)
        ensures
            Self::mul_spec(a, b) == Self::mul_spec(b, a),
    ;

    /// Multiplication associates.
    proof fn mul_assoc(a: Self, b: Self, c: Self)
        ensures
            Self::mul_spec(Self::mul_spec(a, b), c) == Self::mul_spec(a, Self::mul_spec(b, c)),
    ;

    /// One is a left identity of multiplication.
    proof fn mul_one(a: Self)
        ensures
            Self::mul_spec(Self::one_spec(), a) == a,
    ;

    /// Multiplication distributes over addition.
    proof fn mul_dist(a: Self, b: Self, c: Self)
        ensures
            Self::mul_spec(a, Self::add_spec(b, c)) == Self::add_spec(
                Self::mul_spec(a, b),
                Self::mul_spec(a, c),
            ),
    ;

    /// Negation commutes with multiplication.
    proof fn mul_neg(a: Self, b: Self)
        ensures
            Self::mul_spec(a, Self::neg_spec(b)) == Self::neg_spec(Self::mul_spec(a, b)),
    ;
}

/// The size of the ring [`Mod64`] lives in.
pub open spec fn ring_width() -> int {
    0x1_0000_0000_0000_0000
}

/// The integers modulo 2^64: an exact commutative ring, with wrapping
/// machine arithmetic underneath.  The ring laws of [`Scalar`] are proved
/// for it, so everything the library states over those laws holds of
/// expression graphs built on this backend without any rounding caveat.
/// Division is the integer quotient, with the quotient by zero defined as
/// zero; no law speaks of division.
#[derive(Clone, Copy, PartialEq, Eq, Structural, Debug)]
pub struct Mod64 {
    pub v: u64,
}

impl Scalar for Mod64 {
    open spec fn zero_spec() -> Self {
        Mod64 { v: 0 }
    }

    open spec fn one_spec() -> Self {
        Mod64 { v: 1 }
    }

    open spec fn add_spec(a: Self, b: Self) -> Self {
        Mod64 { v: (((a.v + b.v) as int % ring_width()) as u64) }
    }

    open spec fn sub_spec(a: Self, b: Self) -> Self {
        Mod64 { v: (((a.v - b.v) as int % ring_width()) as u64) }
    }

    open spec fn mul_spec(a: Self, b: Self) -> Self {
        Mod64 { v: (((a.v * b.v) as int % ring_width()) as u64) }
    }

    open spec fn div_spec(a: Self, b: Self) -> Self {
        Mod64 { v: (if b.v == 0 { 0 } else { (a.v as int / b.v as int) as u64 }) }
    }

    open spec fn neg_spec(a: Self) -> Self {
        Mod64 { v: (((0 - a.v) as int % ring_width()) as u64) }
    }

    open spec fn eq_spec(a: Self, b: Self) -> bool {
        a == b
    }

    open spec fn le_spec(a: Self, b: Self) -> bool {
        a.v <= b.v
    }

    fn zero() -> (r: Self) {
        Mod64 { v: 0 }
    }

    fn one() -> (r: Self) {
        Mod64 { v: 1 }
    }

    fn add(self, rhs: &Self) -> (r: Self) {
        proof {
            lemma_wrap_mod(self.v + rhs.v);
        }
        Mod64 { v: self.v.wrapping_add(rhs.v) }
    }

    fn sub(self, rhs: &Self) -> (r: Self) {
        proof {
            lemma_wrap_mod(self.v - rhs.v);
        }
        Mod64 { v: self.v.wrapping_sub(rhs.v) }
    }

    fn mul(self, rhs: &Self) -> (r: Self) {
        Mod64 { v: self.v.wrapping_mul(rhs.v) }
    }

    fn div(self, rhs: &Self) -> (r: Self) {
        if rhs.v == 0 {
            Mod64 { v: 0 }
        } else {
            Mod64 { v: self.v / rhs.v }
        }
    }

    fn neg(self) -> (r: Self) {
        proof {
            lemma_wrap_mod(0 - self.v);
        }
        Mod64 { v: 0u64.wrapping_sub(self.v) }
    }

    fn eq_val(&self, rhs: &Self) -> (r: bool) {
        self.v == rhs.v
    }

    fn le_val(&self, rhs: &Self) -> (r: bool) {
        self.v <= rhs.v
    }

    proof fn add_comm(a: Self, b: Self) {
    }

    proof fn add_assoc(a: Self, b: Self, c: Self) {
        vstd::arithmetic::div_mod::lemma_add_mod_noop(a.v + b.v, c.v as int, ring_width());
        vstd::arithmetic::div_mod::lemma_add_mod_noop_right(
            a.v as int,
            b.v + c.v,
            ring_width(),
        );
        vstd::arithmetic::div_mod::lemma_small_mod(c.v as nat, ring_width() as nat);
    }

    proof fn mul_comm(a: Self, b: Self) {
        vstd::arithmetic::mul::lemma_mul_is_commutative(a.v as int, b.v as int);
    }

    proof fn mul_assoc(a: Self, b: Self, c: Self) {
        vstd::arithmetic::div_mod::lemma_mul_mod_noop_general(
            a.v * b.v,
            c.v as int,
            ring_width(),
        );
        vstd::arithmetic::div_mod::lemma_mul_mod_noop_general(
            a.v as int,
            b.v * c.v,
            ring_width(),
        );
        vstd::arithmetic::mul::lemma_mul_is_associative(a.v as int, b.v as int, c.v as int);
    }

    proof fn mul_one(a: Self) {
        vstd::arithmetic::div_mod::lemma_small_mod(a.v as nat, ring_width() as nat);
    }

    proof fn mul_dist(a: Self, b: Self, c: Self) {
        vstd::arithmetic::div_mod::lemma_mul_mod_noop_general(
            a.v as int,
            b.v + c.v,
            ring_width(),
        );
        vstd::arithmetic::mul::lemma_mul_is_distributive_add(a.v as int, b.v as int, c.v as int);
        vstd::arithmetic::div_mod::lemma_add_mod_noop(a.v * b.v, a.v * c.v, ring_width());
    }

    proof fn mul_neg(a: Self, b: Self) {
        vstd::arithmetic::div_mod::lemma_mul_mod_noop_general(
            a.v as int,
            0 - b.v,
            ring_width(),
        );
        assert(a.v * (0 - b.v) == 0 - (a.v * b.v)) by (nonlinear_arith);
        vstd::arithmetic::div_mod::lemma_sub_mod_noop_right(0, a.v * b.v, ring_width());
    }
}

/// For any sum or difference of two 64-bit values, the wrapped result of
/// machine arithmetic is the remainder modulo 2^64.
proof fn lemma_wrap_mod(t: int)
    requires
        -ring_width() < t < 2 * ring_width(),
    ensures
        0 <= t < ring_width() ==> t % ring_width() == t,
        t >= ring_width() ==> t % ring_width() == t - ring_width(),
        t < 0 ==> t % ring_width() == t + ring_width(),
{
    if 0 <= t < ring_width() {
        vstd::arithmetic::div_mod::lemma_small_mod(t as nat, ring_width() as nat);
    } else if t >= ring_width() {
        vstd::arithmetic::div_mod::lemma_mod_sub_multiples_vanish(t, ring_width());
        vstd::arithmetic::div_mod::lemma_small_mod((t - ring_width()) as nat, ring_width() as nat);
    } else {
        vstd::arithmetic::div_mod::lemma_mod_add_multiples_vanish(t, ring_width());
        vstd::arithmetic::div_mod::lemma_small_mod((t + ring_width()) as nat, ring_width() as nat);
    }
}

/// The integer square root: the greatest `r` with `r * r <= n`.
pub open spec fn isqrt(n: nat) -> nat
    decreases n,
{
    if n == 0 {
        0
    } else {
        let r = isqrt((n - 1) as nat);
        if (r + 1) * (r + 1) <= n {
            r + 1
        } else {
            r
        }
    }
}

/// What makes the integer square root the one it is: its square is at most
/// `n`, and the next square is already beyond `n`.
pub proof fn lemma_isqrt_bounds(n: nat)
    ensures
        isqrt(n) * isqrt(n) <= n,
        n < (isqrt(n) + 1) * (isqrt(n) + 1),
    decreases n,
{
    if n > 0 {
        lemma_isqrt_bounds((n - 1) as nat);
        let r = isqrt((n - 1) as nat);
        assert(r * r <= n - 1);
        assert(n - 1 < (r + 1) * (r + 1));
        if (r + 1) * (r + 1) <= n {
            assert(isqrt(n) == r + 1);
            assert(n < (r + 2) * (r + 2)) by (nonlinear_arith)
                requires
                    n <= (r + 1) * (r + 1),
                    r >= 0,
            ;
            assert(isqrt(n) * isqrt(n) <= n);
            assert(isqrt(n) + 1 == r + 2);
            assert((isqrt(n) + 1) * (isqrt(n) + 1) == (r + 2) * (r + 2));
            assert(n < (isqrt(n) + 1) * (isqrt(n) + 1));
        } else {
            assert(isqrt(n) == r);
            assert(isqrt(n) * isqrt(n) <= n);
            assert(n < (isqrt(n) + 1) * (isqrt(n) + 1));
        }
    } else {
        assert(isqrt(n) == 0);
        assert(isqrt(n) * isqrt(n) <= n);
        assert((isqrt(n) + 1) * (isqrt(n) + 1) == 1) by (nonlinear_arith)
            requires
                isqrt(n) == 0,
        ;
        assert(n < (isqrt(n) + 1) * (isqrt(n) + 1));
    }
}

/// Only one number has the square-root bounds, so any search that reaches
/// them has found the integer square root.
pub proof fn lemma_isqrt_unique(n: nat, r: nat)
    requires
        r * r <= n,
        n < (r + 1) * (r + 1),
    ensures
        r == isqrt(n),
{
    lemma_isqrt_bounds(n);
    let s = isqrt(n);
    if r < s {
        assert((r + 1) * (r + 1) <= s * s) by (nonlinear_arith)
            requires
                r + 1 <= s,
        ;
    }
    if s < r {
        assert((s + 1) * (s + 1) <= r * r) by (nonlinear_arith)
            requires
                s + 1 <= r,
        ;
    }
}

/// A scalar with a square root.
pub trait Sqrt: Sized {
    /// What `sqrt` returns.
    spec fn sqrt_spec(a: Self) -> Self;

    fn sqrt(self) -> (r: Self)
        ensures
            r == Self::sqrt_spec(self),
    ;
}

/// A scalar with a natural exponential.
pub trait Exp: Sized {
    /// What `exp` returns.
    spec fn exp_spec(a: Self) -> Self;

    fn exp(self) -> (r: Self)
        ensures
            r == Self::exp_spec(self),
    ;
}

/// A scalar with a natural logarithm.
pub trait Log: Sized {
    /// What `log` returns.
    spec fn log_spec(a: Self) -> Self;

    fn log(self) -> (r: Self)
        ensures
            r == Self::log_spec(self),
    ;
}


impl Sqrt for Mod64 {
    open spec fn sqrt_spec(a: Self) -> Self {
        Mod64 { v: isqrt(a.v as nat) as u64 }
    }

    /// The integer square root, by binary search over the half-width range
    /// that can hold it.
    fn sqrt(self) -> (r: Self) {
        let n = self.v;
        let mut lo: u64 = 0;
        let mut hi: u64 = 0x1_0000_0000;
        proof {
            assert((n as int) < (hi as int) * (hi as int)) by (nonlinear_arith)
                requires
                    n <= 0xFFFF_FFFF_FFFF_FFFFu64,
                    hi == 0x1_0000_0000u64,
            ;
        }
        while lo + 1 < hi
            invariant
                lo < hi <= 0x1_0000_0000,
                (lo as int) * (lo as int) <= n as int,
                (n as int) < (hi as int) * (hi as int),
            decreases hi - lo,
        {
            let mid = lo + (hi - lo) / 2;
            proof {
                assert((mid as int) * (mid as int) < 0x1_0000_0000_0000_0000) by (nonlinear_arith)
                    requires
                        mid < 0x1_0000_0000u64,
                ;
            }
            let sq = (mid as u128) * (mid as u128);
            if sq <= (n as u128) {
                lo = mid;
            } else {
                hi = mid;
            }
        }
        proof {
            lemma_isqrt_unique(n as nat, lo as nat);
        }
        Mod64 { v: lo }
    }
}

} // verus!
