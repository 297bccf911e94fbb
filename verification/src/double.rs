//! Doubles: their bits, and what is worked out with them.
//!
//! A double is held as its 64 bits, so that nothing of it is lost. What an operation gives
//! is said of whole numbers, and worked out on them.

use crate::ratio::{
    fraction_digits, fraction_text, half_even, lemma_half_even_scaled, lemma_has_all_digits,
    lemma_nearest_grows, lemma_nearest_zero, lemma_no_more_digits, lemma_order, lemma_sharpened,
    lemma_two_to_adds, lemma_two_to_grows, lemma_two_to_known, lemma_two_to_positive, lemma_widened,
    nearest, nearest_double, nearest_whole, power_of_two, round_half_even, round_half_up, sharpened,
    two_to, whole_double, whole_part_of, widened, Binary, Bits, TWO_120, TWO_52, TWO_53, TWO_73,
};
use crate::text::concat2;
use vstd::prelude::*;

verus! {

/// The bit of the sign.
pub const SIGN: u64 = 0x8000_0000_0000_0000;

/// The bits of infinity. Above them is what is no number.
pub const INFINITY: u64 = 0x7ff0_0000_0000_0000;

/// A double, by its bits: the sign, eleven bits of exponent, 52 bits of fraction.
#[derive(Debug, Clone, Copy, PartialEq, Eq, Structural)]
pub struct Double {
    pub bits: u64,
}

/// The double nearest to `num / den` over two to the power of `s`. Where that needs more
/// than 1074 binary places, it is the nearest number with so many.
pub open spec fn settled(num: nat, den: nat, s: int) -> Binary {
    let f = nearest(num, den);
    if num > 0 && f.s + s > 1074 {
        Binary { m: half_even(num * two_to((1074 - s) as nat), den), s: 1074 }
    } else {
        Binary { m: f.m, s: f.s + s }
    }
}

/// The bits of a size, without the sign: infinity where it is too large.
pub open spec fn size_bits(f: Binary) -> int {
    let u = if f.m == 0 {
        0
    } else {
        (1074 - f.s) * TWO_52 + f.m
    };
    if u < INFINITY {
        u
    } else {
        INFINITY as int
    }
}

impl Double {
    pub open spec fn is_negative(self) -> bool {
        self.bits >= SIGN
    }

    /// The bits without the sign.
    pub open spec fn unsigned(self) -> int {
        if self.is_negative() {
            self.bits - SIGN
        } else {
            self.bits as int
        }
    }

    pub open spec fn is_nan(self) -> bool {
        self.unsigned() > INFINITY
    }

    pub open spec fn is_infinite(self) -> bool {
        self.unsigned() == INFINITY
    }

    pub open spec fn is_finite(self) -> bool {
        self.unsigned() < INFINITY
    }

    /// The size of a finite number, without the sign.
    pub open spec fn size(self) -> Binary {
        let exponent = self.unsigned() / TWO_52 as int;
        let fraction = (self.unsigned() % TWO_52 as int) as nat;
        if exponent == 0 {
            Binary { m: fraction, s: 1074 }
        } else {
            Binary { m: fraction + TWO_52 as nat, s: 1075 - exponent }
        }
    }

    pub open spec fn signed(negative: bool, unsigned: int) -> Double {
        Double {
            bits: (if negative {
                unsigned + SIGN
            } else {
                unsigned
            }) as u64,
        }
    }

    /// The double of a sign and a size.
    pub open spec fn packed(negative: bool, f: Binary) -> Double {
        Double::signed(negative, size_bits(f))
    }

    pub open spec fn zero() -> Double {
        Double { bits: 0 }
    }

    /// What stands for no number.
    pub open spec fn nan() -> Double {
        Double { bits: 0x7ff8_0000_0000_0000 }
    }

    /// Where the number stands in the order of numbers.
    pub open spec fn rank(self) -> int {
        if self.is_negative() {
            -self.unsigned()
        } else {
            self.unsigned()
        }
    }

    pub open spec fn at_most(self, other: Double) -> bool {
        !self.is_nan() && !other.is_nan() && self.rank() <= other.rank()
    }

    pub open spec fn below(self, other: Double) -> bool {
        !self.is_nan() && !other.is_nan() && self.rank() < other.rank()
    }

    pub open spec fn is_positive(self) -> bool {
        Double::zero().below(self)
    }

    /// Whether adding what is not below zero can only make the number larger: it is one, and
    /// not infinitely far below zero.
    pub open spec fn can_grow(self) -> bool {
        !self.is_nan() && !(self.is_infinite() && self.is_negative())
    }

    pub open spec fn negated(self) -> Double {
        Double::signed(!self.is_negative(), self.unsigned())
    }

    /// The double nearest to a whole number.
    pub open spec fn whole(n: nat) -> Double {
        Double::packed(false, settled(n, 1, 0))
    }

    /// The quotient of two whole numbers, each taken as a double.
    pub open spec fn ratio(a: nat, b: nat) -> Double {
        Double::packed(false, settled(nearest_whole(a), nearest_whole(b), 0))
    }

    /// The number times a whole one, which is taken as a double.
    pub open spec fn times(self, k: nat) -> Double {
        if self.is_nan() || (self.is_infinite() && k == 0) {
            Double::nan()
        } else if self.is_infinite() {
            self
        } else {
            Double::packed(
                self.is_negative(),
                settled(self.size().m * nearest_whole(k), 1, self.size().s),
            )
        }
    }

    /// The number divided by a whole one above zero, which is taken as a double.
    pub open spec fn over(self, k: nat) -> Double {
        if self.is_nan() {
            Double::nan()
        } else if self.is_infinite() {
            self
        } else {
            Double::packed(
                self.is_negative(),
                settled(self.size().m, nearest_whole(k), self.size().s),
            )
        }
    }

    /// A finite number in units of two to the power of `-s`.
    pub open spec fn units(self, s: int) -> int {
        let n = self.size().m * two_to((s - self.size().s) as nat);
        if self.is_negative() {
            -n
        } else {
            n as int
        }
    }

    /// The double nearest to `x` units of two to the power of `-s`.
    pub open spec fn of_units(x: int, s: int, negative_zero: bool) -> Double {
        if x == 0 {
            Double::signed(negative_zero, 0)
        } else {
            Double::packed(x < 0, settled(if x < 0 {
                (-x) as nat
            } else {
                x as nat
            }, 1, s))
        }
    }

    /// The sum of two numbers.
    pub open spec fn plus(self, other: Double) -> Double {
        if self.is_nan() || other.is_nan() {
            Double::nan()
        } else if self.is_infinite() {
            if other.is_infinite() && self.is_negative() != other.is_negative() {
                Double::nan()
            } else {
                self
            }
        } else if other.is_infinite() {
            other
        } else {
            let s = if self.size().s >= other.size().s {
                self.size().s
            } else {
                other.size().s
            };
            Double::of_units(
                self.units(s) + other.units(s),
                s,
                self.is_negative() && other.is_negative(),
            )
        }
    }

    /// The difference of two numbers.
    pub open spec fn minus(self, other: Double) -> Double {
        self.plus(other.negated())
    }

    /// What the number reads with a fixed number of decimals.
    pub open spec fn digits(self, places: nat) -> Seq<char> {
        if self.is_nan() {
            "NaN"@
        } else {
            let t = if self.is_infinite() {
                "inf"@
            } else {
                fraction_digits(self.size(), places)
            };
            if self.is_negative() {
                "-"@ + t
            } else {
                t
            }
        }
    }

    /// The whole number that is nearest to a size, the larger of two that are equally near;
    /// no more than `most`.
    pub open spec fn rounded_size(self, most: nat) -> nat {
        if self.is_infinite() || self.size().rounded() > most {
            most
        } else {
            self.size().rounded()
        }
    }

    /// The nearest whole number, away from zero where two are equally near, as far as 64
    /// bits reach; zero for what is no number.
    pub open spec fn rounded(self) -> int {
        if self.is_nan() {
            0
        } else if self.is_negative() {
            -self.rounded_size(0x8000_0000_0000_0000)
        } else {
            self.rounded_size(0x7fff_ffff_ffff_ffff) as int
        }
    }

    /// The nearest whole number, as far as 32 bits without a sign reach.
    pub open spec fn rounded_count(self) -> nat {
        if self.is_nan() || self.is_negative() {
            0
        } else {
            self.rounded_size(0xffff_ffff)
        }
    }

    /// The whole part, from zero to `most`.
    pub open spec fn whole_part(self, most: nat) -> nat {
        if self.is_nan() || self.is_negative() {
            0
        } else if self.is_infinite() || self.size().floor() > most {
            most
        } else {
            self.size().floor()
        }
    }
}

// ---------------------------------------------------------------------------
// Reading and writing the bits
// ---------------------------------------------------------------------------

/// A size as doubles have them.
pub(crate) open spec fn is_shaped(f: Binary) -> bool {
    &&& f.m <= TWO_53
    &&& f.s <= 1074
    &&& f.s < 1074 && f.m > 0 ==> f.m >= TWO_52
}

pub(crate) proof fn lemma_size(d: Double)
    requires
        d.is_finite(),
    ensures
        is_shaped(d.size()),
        d.size().m < TWO_53,
        -971 <= d.size().s <= 1074,
        d.size().s < 1074 ==> d.size().m >= TWO_52,
        size_bits(d.size()) == d.unsigned(),
        d == Double::packed(d.is_negative(), d.size()),
        d.size().m == 0 <==> d.unsigned() == 0,
{
    let u = d.unsigned();
    let e = u / TWO_52 as int;
    let f = u % TWO_52 as int;
    assert(u == e * TWO_52 + f);
    if e == 0 {
        assert(size_bits(d.size()) == u);
    } else {
        assert(1074 - d.size().s == e - 1);
        assert((e - 1) * TWO_52 + (f + TWO_52) == u);
    }
}

/// What bits a size has once it is a double's.
pub(crate) proof fn lemma_unpacked(negative: bool, f: Binary)
    requires
        is_shaped(f),
    ensures
        0 <= size_bits(f) <= INFINITY,
        Double::packed(negative, f).is_negative() == negative,
        Double::packed(negative, f).unsigned() == size_bits(f),
        !Double::packed(negative, f).is_nan(),
{
    assert((1074 - f.s) * TWO_52 >= 0);
}

impl Double {
    pub fn negative(&self) -> (r: bool)
        ensures
            r == self.is_negative(),
    {
        self.bits >= SIGN
    }

    fn unsigned_bits(&self) -> (r: u64)
        ensures
            r == self.unsigned(),
            r < SIGN,
    {
        if self.bits >= SIGN {
            self.bits - SIGN
        } else {
            self.bits
        }
    }

    fn with_sign(negative: bool, unsigned: u64) -> (r: Double)
        requires
            unsigned < SIGN,
        ensures
            r == Double::signed(negative, unsigned as int),
    {
        Double {
            bits: if negative {
                unsigned + SIGN
            } else {
                unsigned
            },
        }
    }

    pub fn no_number(&self) -> (r: bool)
        ensures
            r == self.is_nan(),
    {
        self.unsigned_bits() > INFINITY
    }

    pub fn infinite(&self) -> (r: bool)
        ensures
            r == self.is_infinite(),
    {
        self.unsigned_bits() == INFINITY
    }

    /// The size of a finite number.
    pub(crate) fn unpack(&self) -> (r: Bits)
        requires
            self.is_finite(),
        ensures
            r@ == self.size(),
            r.m < TWO_53,
            -971 <= r.s <= 1074,
            r.s < 1074 ==> r.m >= TWO_52,
    {
        proof {
            lemma_size(*self);
        }
        let u: u64 = self.unsigned_bits();
        let e: u64 = u / 0x10_0000_0000_0000;
        let f: u64 = u % 0x10_0000_0000_0000;
        if e == 0 {
            Bits { m: f, s: 1074 }
        } else {
            Bits { m: f + 0x10_0000_0000_0000, s: 1075 - e as i32 }
        }
    }

    /// The double of a sign and a size.
    pub(crate) fn pack(negative: bool, f: Bits) -> (r: Double)
        requires
            f.m <= TWO_53,
            -10_000 <= f.s <= 1074,
        ensures
            r == Double::packed(negative, f@),
    {
        if f.m == 0 {
            return Double::with_sign(negative, 0);
        }
        let n: u64 = (1074 - f.s) as u64;
        let u: u128 = n as u128 * 0x10_0000_0000_0000 + f.m as u128;
        if u < INFINITY as u128 {
            Double::with_sign(negative, u as u64)
        } else {
            Double::with_sign(negative, INFINITY)
        }
    }
}

// ---------------------------------------------------------------------------
// Rounding
// ---------------------------------------------------------------------------

pub(crate) proof fn lemma_settled(num: nat, den: nat, s: int)
    requires
        den > 0,
        s <= 1074,
    ensures
        is_shaped(settled(num, den, s)),
{
    let f = nearest(num, den);
    if num == 0 {
        lemma_nearest_zero(den);
    } else if num >= den * TWO_53 {
        lemma_widened(num, den, 0);
        let d = widened(num, den, 0).0;
        lemma_has_all_digits(num, d);
        lemma_no_more_digits(num, d);
    } else {
        lemma_sharpened(num, den, 0);
        let n = sharpened(num, den, 0).0;
        lemma_has_all_digits(n, den);
        lemma_no_more_digits(n, den);
        if f.s + s > 1074 {
            let a = two_to((1074 - s) as nat);
            let b = two_to(f.s as nat);
            lemma_two_to_grows((1074 - s) as nat, f.s as nat);
            assert(num * a <= num * b) by (nonlinear_arith)
                requires
                    0 <= a <= b,
            ;
            lemma_no_more_digits(num * a, den);
        }
    }
}

fn settle(num: u128, den: u128, s: i32) -> (r: Bits)
    requires
        0 < den < TWO_73,
        num < TWO_120,
        -1000 <= s <= 1074,
    ensures
        r@ == settled(num as nat, den as nat, s as int),
        is_shaped(r@),
        -1067 <= r.s,
{
    proof {
        lemma_settled(num as nat, den as nat, s as int);
    }
    let f = nearest_double(num, den);
    if num > 0 && f.s + s > 1074 {
        let p: u128 = power_of_two((1074 - s) as u32);
        proof {
            lemma_two_to_grows((1074 - s) as nat, f.s as nat);
            let b = two_to(f.s as nat);
            assert(num * p <= num * b) by (nonlinear_arith)
                requires
                    0 <= p <= b,
            ;
            assert(num * p >= 0) by (nonlinear_arith);
        }
        let m: u128 = round_half_even(num * p, den);
        Bits { m: m as u64, s: 1074 }
    } else {
        Bits { m: f.m, s: f.s + s }
    }
}

/// A double that is written with more binary places than it needs settles to itself.
pub(crate) proof fn lemma_settled_exact(m: nat, d: nat, s: int)
    requires
        TWO_52 <= m < TWO_53,
        s - d <= 1074,
        s <= 1074,
    ensures
        settled(m * two_to(d), 1, s) == (Binary { m, s: s - d }),
{
    let p = two_to(d);
    let num = m * p;
    lemma_two_to_positive(d);
    if d == 0 {
        assert(m * 1 == m);
        assert(sharpened(m, 1, 0) == (m, 0int));
        assert(half_even(m, 1) == m);
    } else {
        reveal_with_fuel(two_to, 2);
        lemma_two_to_grows(1, d);
        assert(num >= TWO_53) by (nonlinear_arith)
            requires
                num == m * p,
                m >= TWO_52,
                p >= 2,
                TWO_53 == 2 * TWO_52,
        ;
        lemma_widened(num, 1, 0);
        let (w, t) = widened(num, 1, 0);
        let k = (-t) as nat;
        assert(1 * two_to(k) == two_to(k));
        lemma_power_between(m, d, num, k);
        lemma_half_even_scaled(m, 1, p);
        assert(1 * p == p);
        assert(half_even(m, 1) == m);
    }
}

/// Two powers of two that bring a number to the same range are the same.
proof fn lemma_power_between(m: nat, d: nat, num: nat, k: nat)
    requires
        TWO_52 <= m < TWO_53,
        m * two_to(d) == num,
        two_to(k) * TWO_52 <= num < two_to(k) * TWO_53,
    ensures
        k == d,
{
    let p = two_to(d);
    let w = two_to(k);
    lemma_two_to_positive(d);
    if k < d {
        lemma_two_to_grows(k, d);
        assert(false) by (nonlinear_arith)
            requires
                2 * w <= p,
                m * p < w * TWO_53,
                m >= TWO_52,
                TWO_53 == 2 * TWO_52,
                w >= 0,
                TWO_52 > 0,
        ;
    }
    if k > d {
        lemma_two_to_grows(d, k);
        assert(false) by (nonlinear_arith)
            requires
                2 * p <= w,
                w * TWO_52 <= m * p,
                m < TWO_53,
                TWO_53 == 2 * TWO_52,
                p > 0,
                TWO_52 > 0,
        ;
    }
}

/// A number that is far smaller than a double does not change it.
proof fn lemma_far(m: nat, d: nat, small: int, s: int)
    requires
        TWO_52 <= m < TWO_53,
        d > 66,
        -TWO_53 < small < TWO_53,
        s <= 1074,
        s - d >= -971,
    ensures
        m * two_to(d) + small > 0,
        size_bits(settled((m * two_to(d) + small) as nat, 1, s)) == size_bits(
            Binary { m, s: s - d },
        ),
{
    let p = two_to(d);
    let h = two_to((d - 1) as nat);
    assert(p == 2 * h);
    lemma_two_to_known();
    lemma_two_to_grows(64, (d - 1) as nat);
    let num = m * p + small;
    assert(m * p >= TWO_52 * p && m * p + p <= TWO_53 * p) by (nonlinear_arith)
        requires
            TWO_52 <= m,
            m + 1 <= TWO_53,
            p >= 0,
    ;
    assert(num >= TWO_53) by (nonlinear_arith)
        requires
            num >= TWO_52 * p - TWO_53,
            p >= 0x1_0000_0000_0000_0000,
            TWO_52 == 4_503_599_627_370_496,
            TWO_53 == 9_007_199_254_740_992,
    ;
    let n = num as nat;
    lemma_widened(n, 1, 0);
    let (w, t) = widened(n, 1, 0);
    let k = (-t) as nat;
    assert(1 * two_to(k) == two_to(k));
    if m == TWO_52 && small < 0 {
        // One binary place more: the number is just below a power of two.
        let q = (TWO_53 - 1) as nat;
        assert(q * h <= n && n == q * h + (h + small)) by (nonlinear_arith)
            requires
                n == TWO_52 * (2 * h) + small,
                q == TWO_53 - 1,
                TWO_53 == 2 * TWO_52,
                h + small >= 0,
        ;
        lemma_scale(n, k, (d - 1) as nat, q, (h + small) as nat);
        vstd::arithmetic::div_mod::lemma_fundamental_div_mod_converse(
            n as int,
            h as int,
            q as int,
            h + small,
        );
        assert(half_even(n, h) == TWO_53);
    } else if small < 0 {
        let q = (m - 1) as nat;
        assert(n == q * p + (p + small)) by (nonlinear_arith)
            requires
                n == m * p + small,
                q == m - 1,
        ;
        lemma_scale(n, k, d, q, (p + small) as nat);
        vstd::arithmetic::div_mod::lemma_fundamental_div_mod_converse(
            n as int,
            p as int,
            q as int,
            p + small,
        );
        assert(half_even(n, p) == m);
    } else {
        lemma_scale(n, k, d, m, small as nat);
        vstd::arithmetic::div_mod::lemma_fundamental_div_mod_converse(
            n as int,
            p as int,
            m as int,
            small,
        );
        assert(half_even(n, p) == m);
    }
}

/// The power of two that brings a number to the range of a double's digits.
proof fn lemma_scale(n: nat, k: nat, d: nat, q: nat, r: nat)
    requires
        n == q * two_to(d) + r,
        r < two_to(d),
        TWO_52 <= q < TWO_53,
        two_to(k) * TWO_52 <= n < two_to(k) * TWO_53,
    ensures
        k == d,
{
    let p = two_to(d);
    let w = two_to(k);
    lemma_two_to_positive(d);
    if k < d {
        lemma_two_to_grows(k, d);
        assert(false) by (nonlinear_arith)
            requires
                2 * w <= p,
                n < w * TWO_53,
                n >= q * p,
                q >= TWO_52,
                TWO_53 == 2 * TWO_52,
                w >= 0,
                TWO_52 > 0,
        ;
    }
    if k > d {
        lemma_two_to_grows(d, k);
        assert(false) by (nonlinear_arith)
            requires
                2 * p <= w,
                w * TWO_52 <= n,
                n < q * p + p,
                q + 1 <= TWO_53,
                TWO_53 == 2 * TWO_52,
                p > 0,
                TWO_52 > 0,
        ;
    }
}

// ---------------------------------------------------------------------------
// Working with doubles
// ---------------------------------------------------------------------------

/// The sum of two finite numbers of which the first has no fewer binary places.
fn finite_sum(f: &Double, c: &Double) -> (r: Double)
    requires
        f.is_finite(),
        c.is_finite(),
        f.size().s >= c.size().s,
    ensures
        r == Double::of_units(
            f.units(f.size().s) + c.units(f.size().s),
            f.size().s,
            f.is_negative() && c.is_negative(),
        ),
{
    let a = f.unpack();
    let b = c.unpack();
    let ghost s = a.s as int;
    let ghost d = (a.s - b.s) as nat;
    proof {
        lemma_size(*f);
        lemma_size(*c);
        assert(two_to(0) == 1);
        assert(f.size().m * 1 == f.size().m);
        assert(f.units(s) == (if f.is_negative() {
            -(a.m as int)
        } else {
            a.m as int
        }));
    }
    if a.s - b.s > 66 {
        proof {
            let small = if f.is_negative() == c.is_negative() {
                a.m as int
            } else {
                -(a.m as int)
            };
            lemma_far(b.m as nat, d, small, s);
            assert(size_bits(Binary { m: b.m as nat, s: s - d }) == size_bits(c.size()));
        }
        *c
    } else {
        let p: u128 = power_of_two((a.s - b.s) as u32);
        proof {
            lemma_two_to_known();
            lemma_two_to_grows(d, 66);
            lemma_two_to_adds(64, 2);
            reveal_with_fuel(two_to, 3);
            assert(b.m * p <= TWO_53 * (4 * 0x1_0000_0000_0000_0000)) by (nonlinear_arith)
                requires
                    0 <= b.m <= TWO_53,
                    0 <= p <= 4 * 0x1_0000_0000_0000_0000,
            ;
            assert(b.m * p >= 0) by (nonlinear_arith)
                requires
                    b.m >= 0,
                    p >= 0,
            ;
        }
        let n: i128 = (b.m as u128 * p) as i128;
        let y: i128 = if c.negative() {
            -n
        } else {
            n
        };
        let x: i128 = if f.negative() {
            y - a.m as i128
        } else {
            y + a.m as i128
        };
        if x == 0 {
            Double::with_sign(f.negative() && c.negative(), 0)
        } else if x < 0 {
            Double::pack(true, settle((-x) as u128, 1, a.s))
        } else {
            Double::pack(false, settle(x as u128, 1, a.s))
        }
    }
}

impl Double {
    /// The sum of two numbers.
    pub fn sum(&self, other: &Double) -> (r: Double)
        ensures
            r == self.plus(*other),
    {
        if self.no_number() || other.no_number() {
            return Double { bits: 0x7ff8_0000_0000_0000 };
        }
        if self.infinite() {
            if other.infinite() && self.negative() != other.negative() {
                return Double { bits: 0x7ff8_0000_0000_0000 };
            }
            return *self;
        }
        if other.infinite() {
            return *other;
        }
        let a = self.unpack();
        let b = other.unpack();
        if a.s >= b.s {
            finite_sum(self, other)
        } else {
            finite_sum(other, self)
        }
    }

    /// The difference of two numbers.
    pub fn difference(&self, other: &Double) -> (r: Double)
        ensures
            r == self.minus(*other),
    {
        let negated = Double::with_sign(!other.negative(), other.unsigned_bits());
        self.sum(&negated)
    }

    /// The number times a whole one.
    pub fn product(&self, k: u64) -> (r: Double)
        ensures
            r == self.times(k as nat),
    {
        if self.no_number() || (self.infinite() && k == 0) {
            return Double { bits: 0x7ff8_0000_0000_0000 };
        }
        if self.infinite() {
            return *self;
        }
        let f = self.unpack();
        let w: u128 = whole_double(k as u128);
        proof {
            assert(f.m * w <= TWO_53 * 0x2_0000_0000_0000_0000) by (nonlinear_arith)
                requires
                    0 <= f.m <= TWO_53,
                    0 <= w <= 0x2_0000_0000_0000_0000,
            ;
            assert(f.m * w >= 0) by (nonlinear_arith)
                requires
                    0 <= f.m,
                    0 <= w,
            ;
        }
        Double::pack(self.negative(), settle(f.m as u128 * w, 1, f.s))
    }

    /// The number divided by a whole one.
    pub fn quotient(&self, k: u64) -> (r: Double)
        requires
            k > 0,
        ensures
            r == self.over(k as nat),
    {
        if self.no_number() {
            return Double { bits: 0x7ff8_0000_0000_0000 };
        }
        if self.infinite() {
            return *self;
        }
        let f = self.unpack();
        Double::pack(self.negative(), settle(f.m as u128, whole_double(k as u128), f.s))
    }

    /// The double nearest to a whole number.
    pub fn of_whole(n: u64) -> (r: Double)
        ensures
            r == Double::whole(n as nat),
    {
        Double::pack(false, settle(n as u128, 1, 0))
    }

    /// The quotient of two whole numbers, each taken as a double.
    pub fn of_ratio(a: u64, b: u64) -> (r: Double)
        requires
            b > 0,
        ensures
            r == Double::ratio(a as nat, b as nat),
    {
        Double::pack(false, settle(whole_double(a as u128), whole_double(b as u128), 0))
    }

    fn place(&self) -> (r: i64)
        ensures
            r == self.rank(),
    {
        let u: i64 = self.unsigned_bits() as i64;
        if self.negative() {
            -u
        } else {
            u
        }
    }

    /// Whether the number is at most another.
    pub fn not_above(&self, other: &Double) -> (r: bool)
        ensures
            r == self.at_most(*other),
    {
        !self.no_number() && !other.no_number() && self.place() <= other.place()
    }

    /// Whether the number is less than another.
    pub fn less_than(&self, other: &Double) -> (r: bool)
        ensures
            r == self.below(*other),
    {
        !self.no_number() && !other.no_number() && self.place() < other.place()
    }

    pub fn positive(&self) -> (r: bool)
        ensures
            r == self.is_positive(),
    {
        !self.no_number() && self.place() > 0
    }

    /// The number with a fixed number of decimals.
    pub fn text(&self, places: u32) -> (r: String)
        requires
            places <= 2,
        ensures
            r@ == self.digits(places as nat),
    {
        if self.no_number() {
            return "NaN".to_owned();
        }
        let t = if self.infinite() {
            "inf".to_owned()
        } else {
            fraction_text(self.unpack(), places)
        };
        if self.negative() {
            concat2("-", t.as_str())
        } else {
            t
        }
    }

    fn round_size(&self, most: u64) -> (r: u64)
        requires
            !self.is_nan(),
            most <= SIGN,
        ensures
            r == self.rounded_size(most as nat),
    {
        if self.infinite() {
            return most;
        }
        let f = self.unpack();
        if f.s < -10 {
            proof {
                lemma_large(self.size());
            }
            return most;
        }
        let n: u128 = round_half_up(f);
        if n > most as u128 {
            most
        } else {
            n as u64
        }
    }

    /// The nearest whole number, away from zero where two are equally near, as far as 64
    /// bits reach; zero for what is no number.
    pub fn round(&self) -> (r: i64)
        ensures
            r == self.rounded(),
    {
        if self.no_number() {
            0
        } else if self.negative() {
            let n: u64 = self.round_size(SIGN);
            (-(n as i128)) as i64
        } else {
            self.round_size(0x7fff_ffff_ffff_ffff) as i64
        }
    }

    /// The nearest whole number, as far as 32 bits without a sign reach.
    pub fn round_count(&self) -> (r: u32)
        ensures
            r == self.rounded_count(),
    {
        if self.no_number() || self.negative() {
            0
        } else {
            self.round_size(0xffff_ffff) as u32
        }
    }

    /// The whole part, from zero to `most`.
    pub fn truncate(&self, most: u32) -> (r: u32)
        ensures
            r == self.whole_part(most as nat),
    {
        if self.no_number() || self.negative() {
            return 0;
        }
        if self.infinite() {
            return most;
        }
        let f = self.unpack();
        if f.s < -10 {
            proof {
                lemma_large(self.size());
            }
            return most;
        }
        let n: u128 = whole_part_of(f);
        if n > most as u128 {
            most
        } else {
            n as u32
        }
    }
}

proof fn lemma_large(f: Binary)
    requires
        f.s < -10,
        f.m >= TWO_52,
    ensures
        f.rounded() >= SIGN,
        f.floor() >= SIGN,
{
    let p = two_to((-f.s) as nat);
    lemma_two_to_grows(11, (-f.s) as nat);
    reveal_with_fuel(two_to, 12);
    assert(f.m * p >= TWO_52 * 2048) by (nonlinear_arith)
        requires
            f.m >= TWO_52,
            p >= 2048,
    ;
    let t = f.top();
    assert((2 * t + 1) / 2 == t);
}

// ---------------------------------------------------------------------------
// Laws
// ---------------------------------------------------------------------------

proof fn lemma_size_bits_grow(f: Binary, g: Binary)
    requires
        is_shaped(f),
        is_shaped(g),
        f.at_most(g),
    ensures
        size_bits(f) <= size_bits(g),
{
    if f.m > 0 {
        if f.s > g.s {
            let p = two_to((f.s - g.s) as nat);
            assert(g.m > 0) by {
                if g.m == 0 {
                    assert(0 * p == 0);
                }
            }
            assert((f.s - g.s) * TWO_52 >= TWO_52);
            assert((1074 - g.s) * TWO_52 == (1074 - f.s) * TWO_52 + (f.s - g.s) * TWO_52)
                by (nonlinear_arith);
        } else if f.s < g.s {
            let d = (g.s - f.s) as nat;
            let p = two_to(d);
            reveal_with_fuel(two_to, 3);
            lemma_two_to_grows(1, d);
            if d >= 2 {
                lemma_two_to_grows(2, d);
                assert(f.m * p >= TWO_52 * 4) by (nonlinear_arith)
                    requires
                        f.m >= TWO_52,
                        p >= 4,
                ;
            }
            assert(d == 1 && p == 2);
            assert(f.m * p == 2 * f.m) by (nonlinear_arith)
                requires
                    p == 2,
            ;
        } else {
            assert(two_to(0) == 1);
            assert(g.m * 1 == g.m);
        }
    } else {
        assert((1074 - g.s) * TWO_52 >= 0);
    }
}

/// A number is at most another exactly where its value is: the order of the bits is the
/// order of the sizes.
pub proof fn bits_are_in_the_order_of_sizes(a: Double, b: Double)
    requires
        a.is_finite(),
        b.is_finite(),
    ensures
        a.unsigned() <= b.unsigned() <==> a.size().at_most(b.size()),
{
    lemma_size(a);
    lemma_size(b);
    let f = a.size();
    let g = b.size();
    if f.at_most(g) {
        lemma_size_bits_grow(f, g);
    }
    if a.unsigned() <= b.unsigned() {
        if f.s > g.s {
            let p = two_to((f.s - g.s) as nat);
            reveal_with_fuel(two_to, 2);
            lemma_two_to_grows(1, (f.s - g.s) as nat);
            assert(g.m * p >= TWO_53) by (nonlinear_arith)
                requires
                    g.m >= TWO_52,
                    p >= 2,
                    TWO_53 == 2 * TWO_52,
            ;
        } else if f.s < g.s {
            assert(a.unsigned() / TWO_52 as int > b.unsigned() / TWO_52 as int);
        } else {
            assert(two_to(0) == 1);
            assert(g.m * 1 == g.m);
        }
    }
}

proof fn lemma_settled_grows(a: nat, b: nat, s: int)
    requires
        0 < a <= b,
        s <= 1074,
    ensures
        size_bits(settled(a, 1, s)) <= size_bits(settled(b, 1, s)),
{
    let f = settled(a, 1, s);
    let g = settled(b, 1, s);
    let x = nearest(a, 1);
    let y = nearest(b, 1);
    lemma_settled(a, 1, s);
    lemma_settled(b, 1, s);
    let p = two_to((1074 - s) as nat);
    if x.s + s > 1074 {
        let m = a * p;
        assert(half_even(m, 1) == m);
        if y.s + s > 1074 {
            assert(half_even(b * p, 1) == b * p);
            assert(a * p <= b * p) by (nonlinear_arith)
                requires
                    a <= b,
                    p >= 0,
            ;
            lemma_two_to_positive((1074 - s) as nat);
            assert(b * p > 0 && a * p > 0) by (nonlinear_arith)
                requires
                    b > 0,
                    a > 0,
                    p > 0,
            ;
        } else if g.s < 1074 {
            lemma_nearest_digits(b);
            assert((1074 - g.s) * TWO_52 >= TWO_52);
            lemma_small_settled(a, s);
        } else {
            lemma_nearest_digits(a);
            lemma_nearest_digits(b);
            assert(y.s == 1074 - s);
            lemma_nearest_exact(b);
            assert(a * p <= b * p) by (nonlinear_arith)
                requires
                    a <= b,
                    p >= 0,
            ;
        }
    } else if y.s + s > 1074 {
        lemma_nearest_falls(a, b);
    } else {
        let e = 1074 + (if x.s >= 0 {
            x.s
        } else {
            0
        }) + (if y.s >= 0 {
            y.s
        } else {
            0
        }) + (if s >= 0 {
            s
        } else {
            -s
        });
        let q = two_to((e - s) as nat);
        assert(a * q <= b * q) by (nonlinear_arith)
            requires
                a <= b,
                q >= 0,
        ;
        lemma_nearest_grows(a, s, b, s, 1, e);
        lemma_order(f, g, e);
        lemma_size_bits_grow(f, g);
    }
}

/// The digits of a nearest double: all of them are used.
proof fn lemma_nearest_digits(n: nat)
    requires
        n > 0,
    ensures
        TWO_52 <= nearest(n, 1).m <= TWO_53,
        nearest(n, 1).s >= 0 <==> n < TWO_53,
        nearest(n, 1).s >= 0 ==> TWO_52 <= n * two_to(nearest(n, 1).s as nat) < TWO_53,
{
    if n >= TWO_53 {
        lemma_widened(n, 1, 0);
        let d = widened(n, 1, 0).0;
        lemma_has_all_digits(n, d);
        lemma_no_more_digits(n, d);
    } else {
        lemma_sharpened(n, 1, 0);
        let k = sharpened(n, 1, 0).0;
        lemma_has_all_digits(k, 1);
        lemma_no_more_digits(k, 1);
    }
}

/// A whole number that a double holds is the nearest double.
proof fn lemma_nearest_exact(n: nat)
    requires
        0 < n < TWO_53,
    ensures
        nearest(n, 1).s >= 0,
        nearest(n, 1).m == n * two_to(nearest(n, 1).s as nat),
{
    lemma_sharpened(n, 1, 0);
    let k = sharpened(n, 1, 0).0;
    assert(half_even(k, 1) == k);
}

proof fn lemma_small_settled(a: nat, s: int)
    requires
        a > 0,
        s <= 1074,
        nearest(a, 1).s + s > 1074,
    ensures
        a * two_to((1074 - s) as nat) < TWO_52,
{
    lemma_nearest_digits(a);
    let x = nearest(a, 1).s as nat;
    let p = two_to((1074 - s) as nat);
    let q = two_to(x);
    lemma_two_to_grows((1074 - s) as nat, x);
    assert(2 * (a * p) <= a * q) by (nonlinear_arith)
        requires
            2 * p <= q,
            a >= 0,
    ;
}

/// A larger whole number has no more binary places.
proof fn lemma_nearest_falls(a: nat, b: nat)
    requires
        0 < a <= b,
    ensures
        nearest(b, 1).s <= nearest(a, 1).s,
{
    let x = nearest(a, 1).s;
    let y = nearest(b, 1).s;
    lemma_nearest_digits(a);
    lemma_nearest_digits(b);
    if y > x {
        if x >= 0 {
            let p = two_to(x as nat);
            let q = two_to(y as nat);
            lemma_two_to_grows(x as nat, y as nat);
            assert(false) by (nonlinear_arith)
                requires
                    TWO_52 <= a * p,
                    b * q < TWO_53,
                    2 * p <= q,
                    a <= b,
                    a > 0,
                    p >= 0,
                    TWO_53 == 2 * TWO_52,
            ;
        } else if y < 0 {
            lemma_widened(a, 1, 0);
            lemma_widened(b, 1, 0);
            let p = two_to((-x) as nat);
            let q = two_to((-y) as nat);
            assert(1 * p == p && 1 * q == q);
            lemma_two_to_grows((-y) as nat, (-x) as nat);
            assert(false) by (nonlinear_arith)
                requires
                    p * TWO_52 <= a,
                    b < q * TWO_53,
                    2 * q <= p,
                    a <= b,
                    TWO_53 == 2 * TWO_52,
            ;
        }
    }
}

proof fn lemma_units_grow(x: int, y: int, s: int, zx: bool, zy: bool)
    requires
        x <= y,
        s <= 1074,
    ensures
        Double::of_units(x, s, zx).rank() <= Double::of_units(y, s, zy).rank(),
        !Double::of_units(x, s, zx).is_nan(),
        !Double::of_units(y, s, zy).is_nan(),
{
    lemma_units_sign(x, s, zx);
    lemma_units_sign(y, s, zy);
    if x > 0 {
        lemma_settled_grows(x as nat, y as nat, s);
        lemma_settled(x as nat, 1, s);
        lemma_settled(y as nat, 1, s);
        lemma_unpacked(false, settled(x as nat, 1, s));
        lemma_unpacked(false, settled(y as nat, 1, s));
    } else if y < 0 {
        lemma_settled_grows((-y) as nat, (-x) as nat, s);
        lemma_settled((-x) as nat, 1, s);
        lemma_settled((-y) as nat, 1, s);
        lemma_unpacked(true, settled((-x) as nat, 1, s));
        lemma_unpacked(true, settled((-y) as nat, 1, s));
    }
}

proof fn lemma_units_sign(x: int, s: int, z: bool)
    requires
        s <= 1074,
    ensures
        !Double::of_units(x, s, z).is_nan(),
        x >= 0 ==> Double::of_units(x, s, z).rank() >= 0,
        x <= 0 ==> Double::of_units(x, s, z).rank() <= 0,
{
    if x > 0 {
        lemma_settled(x as nat, 1, s);
        lemma_unpacked(false, settled(x as nat, 1, s));
    } else if x < 0 {
        lemma_settled((-x) as nat, 1, s);
        lemma_unpacked(true, settled((-x) as nat, 1, s));
    }
}

proof fn lemma_units_back(d: Double, s: int)
    requires
        d.is_finite(),
        d.size().s <= s <= 1074,
    ensures
        d.units(s) != 0 ==> Double::of_units(d.units(s), s, false) == d,
        d.units(s) == 0 <==> d.unsigned() == 0,
{
    lemma_size(d);
    let m = d.size().m;
    let e = (s - d.size().s) as nat;
    lemma_two_to_positive(e);
    let p = two_to(e);
    if m == 0 {
        assert(0 * p == 0);
    } else {
        assert(m * p > 0) by (nonlinear_arith)
            requires
                m > 0,
                p > 0,
        ;
        if m >= TWO_52 {
            lemma_settled_exact(m, e, s);
        } else {
            assert(e == 0 && p == 1);
            assert(m * 1 == m);
            lemma_nearest_digits(m);
            assert(nearest(m, 1).s > 0) by {
                if nearest(m, 1).s == 0 {
                    assert(two_to(0) == 1);
                }
            }
            assert(half_even(m, 1) == m);
        }
    }
}

/// Adding what is not below zero does not make a number smaller.
pub proof fn adding_never_lowers(t: Double, d: Double)
    requires
        t.can_grow(),
        Double::zero().at_most(d),
    ensures
        t.at_most(t.plus(d)),
{
    if t.is_finite() && d.is_finite() {
        lemma_size(t);
        lemma_size(d);
        let s = if t.size().s >= d.size().s {
            t.size().s
        } else {
            d.size().s
        };
        lemma_units_back(t, s);
        lemma_two_to_positive((s - d.size().s) as nat);
        assert(d.size().m * two_to((s - d.size().s) as nat) >= 0) by (nonlinear_arith);
        if d.is_negative() {
            assert(d.unsigned() == 0);
            lemma_units_back(d, s);
        }
        assert(d.units(s) >= 0);
        let z = t.is_negative() && d.is_negative();
        lemma_units_grow(t.units(s), t.units(s) + d.units(s), s, z, z);
    }
}

/// Adding nothing changes nothing.
pub proof fn adding_nothing(t: Double)
    requires
        !t.is_nan(),
        t.unsigned() == 0 ==> !t.is_negative(),
    ensures
        t.plus(Double::zero()) == t,
{
    if t.is_finite() {
        let zero = Double::zero();
        lemma_size(t);
        lemma_size(zero);
        lemma_units_back(t, 1074);
        lemma_units_back(zero, 1074);
    }
}

/// A number less itself is nothing.
pub proof fn nothing_is_left(t: Double)
    requires
        t.is_finite(),
    ensures
        t.minus(t) == Double::zero(),
{
    lemma_size(t);
    assert(t.negated().size() == t.size());
}

/// A number less one that is not above it is not below zero.
pub proof fn differences_of_growing_numbers(new: Double, old: Double)
    requires
        old.at_most(new),
        new.is_finite(),
        old.is_finite(),
    ensures
        Double::zero().at_most(new.minus(old)),
{
    lemma_size(new);
    lemma_size(old);
    let other = old.negated();
    assert(other.size() == old.size());
    let s = if new.size().s >= old.size().s {
        new.size().s
    } else {
        old.size().s
    };
    lemma_order(new.size(), old.size(), s);
    lemma_order(old.size(), new.size(), s);
    bits_are_in_the_order_of_sizes(old, new);
    bits_are_in_the_order_of_sizes(new, old);
    let a = new.size().m * two_to((s - new.size().s) as nat);
    let b = old.size().m * two_to((s - old.size().s) as nat);
    assert(a >= 0 && b >= 0) by (nonlinear_arith)
        requires
            a == new.size().m * two_to((s - new.size().s) as nat),
            b == old.size().m * two_to((s - old.size().s) as nat),
    ;
    lemma_units_back(new, s);
    lemma_units_back(old, s);
    let z = new.is_negative() && other.is_negative();
    lemma_units_sign(new.units(s) + other.units(s), s, z);
}

} // verus!
