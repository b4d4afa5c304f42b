use vstd::prelude::*;
use vstd::arithmetic::div_mod::{
    lemma_fundamental_div_mod, lemma_mod_bound, lemma_mod_multiples_basic,
    lemma_mod_multiples_vanish, lemma_mod_self_0,
};
use vstd::arithmetic::power::lemma_pow0;
use vstd::arithmetic::power2::{lemma_pow2, lemma_pow2_unfold, pow2};
use vstd::layout::signed_int_min_max_values;
use vstd::arithmetic::mul::lemma_mul_equality_converse;

verus! {

/// `k` divides `a`.
pub open spec fn divides(k: int, a: int) -> bool {
    a % k == 0
}

/// No integer greater than one divides both `a` and `b`.
pub open spec fn coprime(a: int, b: int) -> bool {
    forall|k: int| k > 1 ==> !(#[trigger] divides(k, a) && divides(k, b))
}

/// Whether reducing `numer / denom` to lowest terms with a positive
/// denominator stays inside `isize`: the denominator is non-zero, and a
/// negative denominator does not force negating `isize::MIN`.
pub open spec fn reducible(numer: int, denom: int) -> bool {
    &&& denom != 0
    &&& !(denom < 0 && (numer == isize::MIN || denom == isize::MIN) && coprime(numer, denom))
}

/// Reduces `numer / denom` with `num::rational::Ratio::new` and hands back
/// the numerator and denominator of the result. Claimed of the outside code:
/// the result has a positive denominator, has the same value as the input,
/// and is in lowest terms (`Ratio::new` puts its value "into lowest terms,
/// with denom > 0"). It panics on a zero denominator, and overflows where the
/// sign of `isize::MIN` would have to flip: `requires` leaves both out.
#[verifier::external_body]
fn ratio_new_parts(numer: isize, denom: isize) -> (r: (isize, isize))
    requires
        reducible(numer as int, denom as int),
    ensures
        r.1 > 0,
        r.0 * denom == numer * r.1,
        coprime(r.0 as int, r.1 as int),
{
    let q = num::rational::Ratio::new(numer, denom);
    (*q.numer(), *q.denom())
}

/// A number that is coprime to `d` and whose product with `m` is a multiple
/// of `d` leaves `m` itself a multiple of `d`.
proof fn lemma_coprime_factor(a: int, d: int, m: int)
    requires
        d > 0,
        coprime(a, d),
        divides(d, a * m),
    ensures
        divides(d, m),
    decreases d,
{
    let q = a / d;
    let r = a % d;
    lemma_fundamental_div_mod(a, d);
    lemma_mod_bound(a, d);
    if r == 0 {
        lemma_mod_self_0(d);
        if d > 1 {
            assert(divides(d, a) && divides(d, d));
        }
        assert(d == 1);
        lemma_mod_multiples_basic(m, 1);
        assert(m * 1 == m);
    } else {
        assert(a * m == d * (q * m) + r * m) by (nonlinear_arith)
            requires
                a == d * q + r,
        ;
        lemma_mod_multiples_vanish(q * m, r * m, d);
        let t = (r * m) / d;
        lemma_fundamental_div_mod(r * m, d);
        assert(r * m == d * t);
        assert forall|k: int| k > 1 implies !(#[trigger] divides(k, d) && divides(k, r)) by {
            if divides(k, d) && divides(k, r) {
                lemma_fundamental_div_mod(d, k);
                let e = d / k;
                assert(d * q + r == k * (e * q) + r) by (nonlinear_arith)
                    requires
                        d == k * e,
                ;
                lemma_mod_multiples_vanish(e * q, r, k);
                assert(divides(k, a) && divides(k, d));
            }
        }
        lemma_mod_multiples_basic(m, r);
        assert(m * r == d * t) by (nonlinear_arith)
            requires
                r * m == d * t,
        ;
        lemma_coprime_factor(d, r, t);
        let s = t / r;
        lemma_fundamental_div_mod(t, r);
        assert(t == r * s);
        assert(m == d * s) by (nonlinear_arith)
            requires
                r * m == d * t,
                t == r * s,
                r > 0,
        ;
        lemma_mod_multiples_basic(s, d);
        assert(s * d == d * s) by (nonlinear_arith);
    }
}

/// A positive multiple of `k > 0` is at least `k`.
proof fn lemma_divisor_le(k: int, m: int)
    requires
        k > 0,
        m > 0,
        divides(k, m),
    ensures
        k <= m,
{
    lemma_fundamental_div_mod(m, k);
    let c = m / k;
    assert(m == k * c);
    if c <= 0 {
        assert(k * c <= 0) by (nonlinear_arith)
            requires
                k > 0,
                c <= 0,
        ;
    }
    assert(k <= k * c) by (nonlinear_arith)
        requires
            k > 0,
            c >= 1,
    ;
}

/// A divisor of `x` also divides `-x`.
proof fn lemma_divides_neg(k: int, x: int)
    requires
        k > 0,
        divides(k, x),
    ensures
        divides(k, -x),
{
    lemma_fundamental_div_mod(x, k);
    let c = x / k;
    assert(-x == (-c) * k) by (nonlinear_arith)
        requires
            x == k * c + 0,
    ;
    lemma_mod_multiples_basic(-c, k);
}

/// Divisibility is transitive.
proof fn lemma_divides_trans(a: int, b: int, c: int)
    requires
        a > 0,
        b > 0,
        divides(a, b),
        divides(b, c),
    ensures
        divides(a, c),
{
    lemma_fundamental_div_mod(b, a);
    lemma_fundamental_div_mod(c, b);
    let x = b / a;
    let y = c / b;
    assert(c == (x * y) * a) by (nonlinear_arith)
        requires
            b == a * x + 0,
            c == b * y + 0,
    ;
    lemma_mod_multiples_basic(x * y, a);
}

/// An odd number that divides a power of two is one.
proof fn lemma_odd_divisor_of_pow2(k: int, e: nat)
    requires
        k > 0,
        !divides(2, k),
        divides(k, pow2(e) as int),
    ensures
        k == 1,
    decreases e,
{
    lemma_pow2(e);
    if e == 0 {
        lemma_pow0(2);
        lemma_divisor_le(k, 1);
    } else {
        lemma_pow2_unfold(e);
        let half = pow2((e - 1) as nat) as int;
        assert forall|j: int| j > 1 implies !(#[trigger] divides(j, 2) && divides(j, k)) by {
            if divides(j, 2) && divides(j, k) {
                lemma_divisor_le(j, 2);
                assert(j == 2);
            }
        }
        assert(2 * half == pow2(e));
        lemma_coprime_factor(2, k, half);
        lemma_odd_divisor_of_pow2(k, (e - 1) as nat);
    }
}

/// `isize::MIN` is coprime to exactly the odd numbers.
proof fn lemma_coprime_min(x: int)
    requires
        x != 0,
    ensures
        coprime(isize::MIN as int, x) <==> !divides(2, x),
        coprime(x, isize::MIN as int) <==> !divides(2, x),
{
    let m = isize::MIN as int;
    assert(divides(2, m));
    if !divides(2, x) {
        signed_int_min_max_values();
        let e = (isize::BITS - 1) as nat;
        assert forall|k: int| k > 1 implies !(#[trigger] divides(k, m) && divides(k, x)) by {
            if divides(k, m) && divides(k, x) {
                if divides(2, k) {
                    lemma_divides_trans(2, k, x);
                }
                lemma_divides_neg(k, m);
                assert(-m == pow2(e));
                lemma_odd_divisor_of_pow2(k, e);
            }
        }
        assert forall|k: int| k > 1 implies !(#[trigger] divides(k, x) && divides(k, m)) by {
            assert(!(divides(k, m) && divides(k, x)));
        }
    } else {
        assert(divides(2, m) && divides(2, x));
        assert(divides(2, x) && divides(2, m));
    }
}

/// A number has one representation in lowest terms with a positive
/// denominator: two such fractions of equal value are the same fraction.
pub proof fn lemma_lowest_terms_unique(a: int, d: int, b: int, e: int)
    requires
        d > 0,
        e > 0,
        coprime(a, d),
        coprime(b, e),
        a * e == b * d,
    ensures
        a == b,
        d == e,
{
    lemma_mod_multiples_basic(b, d);
    lemma_coprime_factor(a, d, e);
    lemma_mod_multiples_basic(a, e);
    assert(b * d == a * e);
    lemma_coprime_factor(b, e, d);
    lemma_divisor_le(d, e);
    lemma_divisor_le(e, d);
    assert(d == e);
    assert(d * a == d * b) by (nonlinear_arith)
        requires
            a * e == b * d,
            d == e,
    ;
    lemma_mul_equality_converse(d, a, b);
}

/// An exact rational number `numer / denom`, always in lowest terms with a
/// positive denominator, so that two values are equal exactly when their
/// fields are.
#[derive(Clone, Copy, Debug, PartialEq, Eq, Hash, Structural)]
pub struct Rational {
    numer: isize,
    denom: isize,
}

impl Rational {
    /// Lowest terms with a positive denominator.
    #[verifier::type_invariant]
    pub closed spec fn is_reduced(self) -> bool {
        self.denom > 0 && coprime(self.numer as int, self.denom as int)
    }

    /// The numerator.
    pub closed spec fn num(self) -> int {
        self.numer as int
    }

    /// The denominator.
    pub closed spec fn den(self) -> int {
        self.denom as int
    }

    /// `self` denotes the same number as `numer / denom`.
    pub open spec fn equals_fraction(self, numer: int, denom: int) -> bool {
        self.num() * denom == numer * self.den()
    }

    /// The number `numer / denom`, reduced to lowest terms.
    pub fn new(numer: isize, denom: isize) -> (r: Rational)
        requires
            reducible(numer as int, denom as int),
        ensures
            r.is_reduced(),
            r.den() > 0,
            coprime(r.num(), r.den()),
            r.equals_fraction(numer as int, denom as int),
    {
        let (n, d) = ratio_new_parts(numer, denom);
        Rational { numer: n, denom: d }
    }

    /// The number `numer / denom` where reducing it stays inside `isize`,
    /// and `None` otherwise.
    pub fn try_new(numer: isize, denom: isize) -> (r: Option<Rational>)
        ensures
            r is Some <==> reducible(numer as int, denom as int),
            r matches Some(q) ==> q.is_reduced() && q.den() > 0 && coprime(q.num(), q.den())
                && q.equals_fraction(numer as int, denom as int),
    {
        if denom == 0 {
            return None;
        }
        if denom < 0 && numer != denom && numer != 0 && (numer == isize::MIN || denom
            == isize::MIN) {
            let other = if numer == isize::MIN {
                denom
            } else {
                numer
            };
            let magnitude = if other < 0 {
                -other
            } else {
                other
            };
            proof {
                lemma_coprime_min(other as int);
                lemma_mod_bound(magnitude as int, 2);
                if divides(2, other as int) {
                    lemma_divides_neg(2, other as int);
                } else if divides(2, magnitude as int) {
                    lemma_divides_neg(2, magnitude as int);
                }
            }
            if magnitude % 2 == 1 {
                return None;
            }
        } else {
            proof {
                if denom < 0 && (numer == isize::MIN || denom == isize::MIN) {
                    assert(divides(2, numer as int) && divides(2, denom as int));
                }
            }
        }
        Some(Rational::new(numer, denom))
    }

    /// The integer `t`, as `t / 1`.
    pub fn from_integer(t: isize) -> (r: Rational)
        ensures
            r.is_reduced(),
            r.num() == t,
            r.den() == 1,
    {
        proof {
            assert forall|k: int| k > 1 implies !(#[trigger] divides(k, t as int) && divides(
                k,
                1,
            )) by {
                vstd::arithmetic::div_mod::lemma_small_mod(1, k as nat);
            }
        }
        Rational { numer: t, denom: 1 }
    }

    /// The numerator.
    pub fn numer(&self) -> (n: isize)
        ensures
            n == self.num(),
    {
        self.numer
    }

    /// The denominator, which is positive.
    pub fn denom(&self) -> (d: isize)
        ensures
            d == self.den(),
            d > 0,
    {
        proof {
            use_type_invariant(self);
        }
        self.denom
    }

    /// The numerator and denominator as the 64-bit pair that exact
    /// solver calls take.
    pub fn fraction(&self) -> (f: (i64, i64))
        ensures
            f.0 == self.num(),
            f.1 == self.den(),
            f.1 > 0,
    {
        proof {
            use_type_invariant(self);
        }
        (self.numer as i64, self.denom as i64)
    }
}

/// A rational's numerator and denominator fit in `isize`, and a reduced
/// rational has a positive denominator.
pub proof fn lemma_rational_parts(r: Rational)
    ensures
        isize::MIN <= r.num() <= isize::MAX,
        isize::MIN <= r.den() <= isize::MAX,
        r.is_reduced() ==> r.den() > 0,
{
}

/// Two rationals are equal exactly when they denote the same number.
pub proof fn lemma_rational_eq_iff_same_value(x: Rational, y: Rational)
    requires
        x.is_reduced(),
        y.is_reduced(),
    ensures
        x == y <==> x.num() * y.den() == y.num() * x.den(),
{
    if x.num() * y.den() == y.num() * x.den() {
        lemma_lowest_terms_unique(x.num(), x.den(), y.num(), y.den());
    }
}

} // verus!
