//! Quotients of whole numbers, as double-precision arithmetic gives and prints them.
//!
//! A figure such as `1.2M` is a quotient rounded twice: once to the nearest double,
//! once to the decimals shown. Both roundings are done here on whole numbers, so the
//! digits are the ones that a `f64` would print.

use crate::digits::power_text;
use crate::text::{concat2, concat3, dec, two_digit_text, two_digits, u128_text};
use vstd::arithmetic::div_mod::{lemma_fundamental_div_mod, lemma_fundamental_div_mod_converse};
use vstd::prelude::*;

verus! {

/// Two to the power of 53: a double holds every whole number below it.
pub const TWO_53: u128 = 9_007_199_254_740_992;

/// Half of that.
pub const TWO_52: u128 = 4_503_599_627_370_496;

/// Two to the power of 73.
pub const TWO_73: u128 = 9_444_732_965_739_290_427_392;

/// Two to the power of 80.
pub const TWO_80: u128 = 1_208_925_819_614_629_174_706_176;

/// Two to the power of 120.
pub const TWO_120: u128 = 1_329_227_995_784_915_872_903_807_060_280_344_576;

/// Two to the power of 126.
pub const TWO_126: u128 = 85_070_591_730_234_615_865_843_651_857_942_052_864;

// ---------------------------------------------------------------------------
// Powers of two
// ---------------------------------------------------------------------------

pub open spec fn two_to(n: nat) -> nat
    decreases n,
{
    if n == 0 {
        1
    } else {
        2 * two_to((n - 1) as nat)
    }
}

pub(crate) proof fn lemma_two_to_positive(n: nat)
    ensures
        two_to(n) > 0,
    decreases n,
{
    if n > 0 {
        lemma_two_to_positive((n - 1) as nat);
    }
}

pub(crate) proof fn lemma_two_to_adds(a: nat, b: nat)
    ensures
        two_to(a + b) == two_to(a) * two_to(b),
    decreases a,
{
    if a > 0 {
        lemma_two_to_adds((a - 1) as nat, b);
        let h = two_to((a - 1) as nat);
        let t = two_to(b);
        assert(two_to(a) == 2 * h);
        assert(two_to(a + b) == 2 * (h * t));
        assert((2 * h) * t == 2 * (h * t)) by (nonlinear_arith);
    } else {
        let t = two_to(b);
        assert(1 * t == t);
    }
}

pub(crate) proof fn lemma_two_to_grows(a: nat, b: nat)
    requires
        a <= b,
    ensures
        two_to(a) <= two_to(b),
        a < b ==> 2 * two_to(a) <= two_to(b),
    decreases b - a,
{
    if a < b {
        lemma_two_to_grows(a, (b - 1) as nat);
    }
}

pub(crate) proof fn lemma_two_to_known()
    ensures
        two_to(53) == TWO_53,
        two_to(64) == 0x1_0000_0000_0000_0000,
        two_to(73) == TWO_73,
        two_to(80) == TWO_80,
        two_to(120) == TWO_120,
        two_to(126) == TWO_126,
{
    reveal_with_fuel(two_to, 54);
    lemma_two_to_adds(53, 11);
    lemma_two_to_adds(53, 20);
    lemma_two_to_adds(53, 27);
    lemma_two_to_adds(53, 53);
    lemma_two_to_adds(106, 14);
    lemma_two_to_adds(106, 20);
}

pub(crate) fn power_of_two(n: u32) -> (r: u128)
    requires
        n <= 126,
    ensures
        r == two_to(n as nat),
        0 < r <= TWO_126,
{
    let mut p: u128 = 1;
    let mut i: u32 = 0;
    proof {
        lemma_two_to_known();
        lemma_two_to_grows(n as nat, 126);
    }
    while i < n
        invariant
            i <= n <= 126,
            p == two_to(i as nat),
            0 < p,
            two_to(n as nat) <= TWO_126,
        decreases n - i,
    {
        proof {
            lemma_two_to_grows(i as nat, n as nat);
        }
        p = p * 2;
        i += 1;
    }
    p
}

// ---------------------------------------------------------------------------
// Rounding to a double
// ---------------------------------------------------------------------------

/// The whole number nearest to `num / den`, the even one of two that are equally near.
pub open spec fn half_even(num: nat, den: nat) -> nat
    recommends
        den > 0,
{
    let q = num / den;
    let r = num % den;
    if 2 * r > den || (2 * r == den && q % 2 == 1) {
        q + 1
    } else {
        q
    }
}

/// A double without its sign: `m` over two to the power of `s`.
pub struct Binary {
    pub m: nat,
    pub s: int,
}

impl Binary {
    /// The numerator of the value.
    pub open spec fn top(self) -> nat {
        if self.s < 0 {
            self.m * two_to((-self.s) as nat)
        } else {
            self.m
        }
    }

    /// The denominator of the value.
    pub open spec fn bottom(self) -> nat {
        if self.s < 0 {
            1
        } else {
            two_to(self.s as nat)
        }
    }

    /// Whether the value is at most another.
    pub open spec fn at_most(self, other: Binary) -> bool {
        if self.s >= other.s {
            self.m <= other.m * two_to((self.s - other.s) as nat)
        } else {
            self.m * two_to((other.s - self.s) as nat) <= other.m
        }
    }

    /// The nearest whole number, the larger of two that are equally near.
    pub open spec fn rounded(self) -> nat {
        (2 * self.top() + self.bottom()) / (2 * self.bottom())
    }

    /// The whole part.
    pub open spec fn floor(self) -> nat {
        self.top() / self.bottom()
    }
}

/// Numerator and binary places once the quotient has all the digits of a double.
pub open spec fn sharpened(num: nat, den: nat, s: int) -> (nat, int)
    decreases den * TWO_53 - num,
{
    if 0 < num && 2 * num < den * TWO_53 {
        sharpened(2 * num, den, s + 1)
    } else {
        (num, s)
    }
}

/// Denominator and binary places once the quotient has no more digits than a double.
pub open spec fn widened(num: nat, den: nat, s: int) -> (nat, int)
    decreases num - den,
{
    if 0 < den && num >= den * TWO_53 {
        widened(num, 2 * den, s - 1)
    } else {
        (den, s)
    }
}

/// The double nearest to `num / den`.
pub open spec fn nearest(num: nat, den: nat) -> Binary {
    if num >= den * TWO_53 {
        let (d, s) = widened(num, den, 0);
        Binary { m: half_even(num, d), s }
    } else {
        let (n, s) = sharpened(num, den, 0);
        Binary { m: half_even(n, den), s }
    }
}

/// A double times a whole number that is one, rounded to a double.
pub open spec fn times(f: Binary, k: nat) -> Binary {
    let g = nearest(f.m * k, 1);
    Binary { m: g.m, s: g.s + f.s }
}

/// A double divided by a whole number that is one, rounded to a double.
pub open spec fn over(f: Binary, k: nat) -> Binary {
    let g = nearest(f.m, k);
    Binary { m: g.m, s: g.s + f.s }
}

/// The double nearest to a whole number.
pub open spec fn nearest_whole(n: nat) -> nat {
    if n < TWO_53 {
        n
    } else {
        nearest(n, 1).top()
    }
}

pub open spec fn ten_to(places: nat) -> nat {
    if places == 0 {
        1
    } else if places == 1 {
        10
    } else {
        100
    }
}

/// `n` units of the last of `places` decimals.
pub open spec fn with_point(n: nat, places: nat) -> Seq<char> {
    if places == 0 {
        dec(n)
    } else if places == 1 {
        dec(n / 10) + "."@ + dec(n % 10)
    } else {
        dec(n / 100) + "."@ + two_digits(n % 100)
    }
}

/// A double with a fixed number of decimals.
pub open spec fn fraction_digits(f: Binary, places: nat) -> Seq<char> {
    with_point(half_even(f.top() * ten_to(places), f.bottom()), places)
}

/// What the double nearest to `num / den` reads with a fixed number of decimals.
pub open spec fn quotient_digits(num: nat, den: nat, places: nat) -> Seq<char> {
    fraction_digits(nearest(num, den), places)
}

pub fn round_half_even(num: u128, den: u128) -> (r: u128)
    requires
        0 < den < u128::MAX / 4,
        num < u128::MAX,
    ensures
        r == half_even(num as nat, den as nat),
        r * den <= num + den,
{
    let q: u128 = num / den;
    let r: u128 = num % den;
    proof {
        assert(num == q * den + r) by (nonlinear_arith)
            requires
                q == num / den,
                r == num % den,
                den > 0,
        ;
        assert((q + 1) * den == q * den + den) by (nonlinear_arith);
        assert(q <= num) by (nonlinear_arith)
            requires
                num == q * den + r,
                den >= 1,
                r >= 0,
                q >= 0,
        ;
    }
    if 2 * r > den || (2 * r == den && q % 2 == 1) {
        q + 1
    } else {
        q
    }
}

/// A double without its sign: `m` over two to the power of `s`.
#[derive(Debug, Clone, Copy, PartialEq, Eq, Structural)]
pub struct Bits {
    pub m: u64,
    pub s: i32,
}

impl View for Bits {
    type V = Binary;

    open spec fn view(&self) -> Binary {
        Binary { m: self.m as nat, s: self.s as int }
    }
}

/// The double nearest to `num / den`.
pub fn nearest_double(num: u128, den: u128) -> (r: Bits)
    requires
        0 < den < TWO_73,
        num < TWO_120,
    ensures
        r@ == nearest(num as nat, den as nat),
        r.m <= TWO_53,
        -67 <= r.s <= 126,
        num < TWO_80 ==> -27 <= r.s,
        num < 0x1_0000_0000_0000_0000 && den >= 100 ==> -5 <= r.s,
        r.s > 0 ==> two_to(r.s as nat) < den * TWO_53,
        num > 0 && r.s >= 0 ==> num * two_to(r.s as nat) >= den * TWO_52,
        r.s >= 0 ==> num * two_to(r.s as nat) < den * TWO_53,
        r.s < 0 ==> num >= den * two_to((-r.s) as nat) * TWO_52,
        num < den * TWO_53 ==> 0 <= r.s,
        num == 0 ==> r.m == 0 && r.s == 0,
        num > 0 ==> r.m >= TWO_52,
        den == 1 && r.s < 0 ==> r.m * two_to((-r.s) as nat) <= 2 * num,
{
    proof {
        lemma_two_to_known();
    }
    if num >= den * TWO_53 {
        let mut d: u128 = den;
        let mut s: i32 = 0;
        proof {
            assert(two_to(0) == 1);
            assert(den * 1 == den);
        }
        while num >= d * TWO_53
            invariant
                0 < d < TWO_73,
                num < TWO_120,
                -67 <= s <= 0,
                d == den * two_to((-s) as nat),
                0 < den,
                s == 0 || d * TWO_52 <= num,
                s == 0 ==> num >= d * TWO_53,
                widened(num as nat, den as nat, 0) == widened(num as nat, d as nat, s as int),
            decreases num - d,
        {
            proof {
                lemma_two_to_known();
                assert(den * (2 * two_to((-s) as nat)) == 2 * (den * two_to((-s) as nat)))
                    by (nonlinear_arith);
                if s == -67 {
                    assert(two_to(67) == 0x8_0000_0000_0000_0000) by {
                        lemma_two_to_adds(64, 3);
                        reveal_with_fuel(two_to, 4);
                    }
                    assert(den * two_to(67) >= two_to(67)) by (nonlinear_arith)
                        requires
                            den >= 1,
                    ;
                }
            }
            d = d * 2;
            s = s - 1;
        }
        let m: u128 = round_half_even(num, d);
        proof {
            assert(m <= TWO_53) by (nonlinear_arith)
                requires
                    m * d <= num + d,
                    num < d * TWO_53,
                    d > 0,
            ;
            lemma_has_all_digits(num as nat, d as nat);
            let p = two_to((-s) as nat);
            if den == 1 {
                assert(1 * p == p);
                assert(d == p);
                assert(m * p <= 2 * num) by (nonlinear_arith)
                    requires
                        m * d <= num + d,
                        d == p,
                        d <= num,
                ;
            }
            if num < 0x1_0000_0000_0000_0000 && den >= 100 && s < -5 {
                lemma_two_to_grows(6, (-s) as nat);
                assert(two_to(6) == 64) by {
                    reveal_with_fuel(two_to, 7);
                }
                assert(den * p >= 6400) by (nonlinear_arith)
                    requires
                        den >= 100,
                        p >= 64,
                ;
            }
            if num < TWO_80 && s < -27 {
                lemma_two_to_grows(28, (-s) as nat);
                assert(two_to(28) == 0x1000_0000) by {
                    reveal_with_fuel(two_to, 29);
                }
                assert(den * p >= p) by (nonlinear_arith)
                    requires
                        den >= 1,
                        p >= 0,
                ;
            }
        }
        Bits { m: m as u64, s }
    } else {
        let mut n: u128 = num;
        let mut s: i32 = 0;
        proof {
            assert(two_to(0) == 1);
            assert(num * 1 == num);
        }
        while n > 0 && 2 * n < den * TWO_53
            invariant
                0 < den < TWO_73,
                n < den * TWO_53,
                n == num * two_to(s as nat),
                0 <= s <= 126,
                num == 0 ==> s == 0,
                s > 0 ==> 2 * n >= 2,
                sharpened(num as nat, den as nat, 0) == sharpened(n as nat, den as nat, s as int),
            decreases den * TWO_53 - n,
        {
            proof {
                lemma_two_to_known();
                assert(num * (2 * two_to(s as nat)) == 2 * (num * two_to(s as nat)))
                    by (nonlinear_arith);
                if s == 126 {
                    assert(num * two_to(126) >= two_to(126)) by (nonlinear_arith)
                        requires
                            num >= 1,
                    ;
                }
            }
            n = n * 2;
            s = s + 1;
        }
        let m: u128 = round_half_even(n, den);
        proof {
            assert(m <= TWO_53) by (nonlinear_arith)
                requires
                    m * den <= n + den,
                    n < den * TWO_53,
                    den > 0,
            ;
            if num > 0 {
                assert(two_to(s as nat) <= n) by (nonlinear_arith)
                    requires
                        n == num * two_to(s as nat),
                        num >= 1,
                        two_to(s as nat) >= 0,
                ;
                lemma_two_to_positive(s as nat);
                assert(n > 0) by (nonlinear_arith)
                    requires
                        n == num * two_to(s as nat),
                        num > 0,
                        two_to(s as nat) > 0,
                ;
                lemma_has_all_digits(n as nat, den as nat);
            } else {
                assert(n == 0) by (nonlinear_arith)
                    requires
                        n == num * two_to(s as nat),
                        num == 0,
                ;
                assert(0nat / (den as nat) == 0) by (nonlinear_arith)
                    requires
                        den > 0,
                ;
                assert(0nat % (den as nat) == 0) by (nonlinear_arith)
                    requires
                        den > 0,
                ;
            }
        }
        Bits { m: m as u64, s }
    }
}

pub(crate) proof fn lemma_has_all_digits(num: nat, den: nat)
    requires
        0 < den,
        den * TWO_52 <= num,
    ensures
        half_even(num, den) >= TWO_52,
{
    assert(num / den >= TWO_52) by (nonlinear_arith)
        requires
            0 < den,
            den * TWO_52 <= num,
    ;
}

/// A double times a whole number that is one, rounded to a double.
pub fn times_whole(f: Bits, k: u128) -> (r: Bits)
    requires
        f.m <= TWO_53,
        k <= 0x2_0000_0000_0000_0000,
        -2000 <= f.s <= 2000,
    ensures
        r@ == times(f@, k as nat),
        r.m <= TWO_53,
        f.s - 67 <= r.s <= f.s + 53,
        k <= 3600 ==> f.s - 13 <= r.s,
        f.m > 0 && k > 0 ==> r.m >= TWO_52,
        f.m == 0 || k == 0 ==> r.m == 0 && r.s == f.s,
{
    proof {
        assert(f.m * k <= TWO_53 * 0x2_0000_0000_0000_0000) by (nonlinear_arith)
            requires
                0 <= f.m <= TWO_53,
                0 <= k <= 0x2_0000_0000_0000_0000,
        ;
        if k <= 3600 {
            assert(f.m * k <= TWO_53 * 3600) by (nonlinear_arith)
                requires
                    0 <= f.m <= TWO_53,
                    0 <= k <= 3600,
            ;
        }
        if f.m == 0 || k == 0 {
            assert(f.m * k == 0) by (nonlinear_arith)
                requires
                    f.m == 0 || k == 0,
            ;
        }
        if f.m > 0 && k > 0 {
            assert(f.m * k > 0) by (nonlinear_arith)
                requires
                    f.m > 0,
                    k > 0,
            ;
        }
    }
    let g = nearest_double(f.m as u128 * k, 1);
    proof {
        lemma_two_to_known();
        if g.s > 53 {
            lemma_two_to_grows(53, g.s as nat);
        }
        if k <= 3600 && g.s < -13 {
            lemma_two_to_grows(13, (-g.s) as nat);
            reveal_with_fuel(two_to, 14);
            assert(1 * two_to((-g.s) as nat) == two_to((-g.s) as nat));
        }
    }
    Bits { m: g.m, s: g.s + f.s }
}

/// A double divided by a whole number that is one, rounded to a double.
pub fn over_whole(f: Bits, k: u128) -> (r: Bits)
    requires
        0 < k <= 0x2_0000_0000_0000_0000,
        -2000 <= f.s <= 2000,
    ensures
        r@ == over(f@, k as nat),
        r.m <= TWO_53,
        f.s - 27 <= r.s <= f.s + 118,
        k >= 100 ==> f.s - 5 <= r.s,
        f.m <= TWO_53 ==> f.s - 1 <= r.s,
        f.m > 0 ==> r.m >= TWO_52,
        f.m == 0 ==> r.m == 0 && r.s == f.s,
{
    let g = nearest_double(f.m as u128, k);
    proof {
        lemma_two_to_known();
        lemma_two_to_adds(64, 54);
        lemma_two_to_adds(53, 1);
        if g.s > 118 {
            lemma_two_to_grows(118, g.s as nat);
        }
        if f.m <= TWO_53 && g.s < -1 {
            let p = two_to((-g.s) as nat);
            lemma_two_to_grows(2, (-g.s) as nat);
            reveal_with_fuel(two_to, 3);
            assert(k * p * TWO_52 >= 4 * TWO_52) by (nonlinear_arith)
                requires
                    k >= 1,
                    p >= 4,
            ;
        }
        assert(two_to(118) == 0x1_0000_0000_0000_0000 * (TWO_53 * 2));
    }
    Bits { m: g.m, s: g.s + f.s }
}

/// The value of a double that is a whole number.
fn whole_top(f: Bits) -> (r: u128)
    requires
        -73 <= f.s < 0,
        f.m <= TWO_53,
    ensures
        r == f@.top(),
        r <= TWO_126,
{
    let p: u128 = power_of_two((-f.s) as u32);
    proof {
        lemma_two_to_known();
        lemma_two_to_grows((-f.s) as nat, 73);
        assert(f.m * p <= TWO_53 * TWO_73) by (nonlinear_arith)
            requires
                0 <= f.m <= TWO_53,
                0 <= p <= TWO_73,
        ;
    }
    f.m as u128 * p
}

/// The nearest whole number, the larger of two that are equally near.
pub fn round_half_up(f: Bits) -> (r: u128)
    requires
        -73 <= f.s <= 10_000,
        f.s < 0 ==> f.m <= TWO_53,
    ensures
        r == f@.rounded(),
{
    if f.s < 0 {
        let t: u128 = whole_top(f);
        proof {
            assert((2 * t + 1) / 2 == t);
        }
        t
    } else if f.s >= 80 {
        proof {
            lemma_two_to_known();
            lemma_two_to_grows(80, f.s as nat);
            let b = two_to(f.s as nat);
            assert((2 * f.m as nat + b) / (2 * b) == 0) by (nonlinear_arith)
                requires
                    2 * f.m < b,
                    f.m >= 0,
            ;
        }
        0
    } else {
        let p: u128 = power_of_two(f.s as u32);
        proof {
            lemma_two_to_known();
            lemma_two_to_grows(f.s as nat, 80);
        }
        (2 * f.m as u128 + p) / (2 * p)
    }
}

/// The whole part of a double.
pub fn whole_part_of(f: Bits) -> (r: u128)
    requires
        -73 <= f.s <= 10_000,
        f.s < 0 ==> f.m <= TWO_53,
    ensures
        r == f@.floor(),
{
    if f.s < 0 {
        whole_top(f)
    } else if f.s >= 80 {
        proof {
            lemma_two_to_known();
            lemma_two_to_grows(80, f.s as nat);
            let b = two_to(f.s as nat);
            assert(f.m as nat / b == 0) by (nonlinear_arith)
                requires
                    f.m < b,
                    f.m >= 0,
            ;
        }
        0
    } else {
        let p: u128 = power_of_two(f.s as u32);
        f.m as u128 / p
    }
}

/// The double nearest to a whole number.
pub fn whole_double(n: u128) -> (r: u128)
    requires
        n < TWO_80,
    ensures
        r == nearest_whole(n as nat),
        r <= 2 * n,
        n > 0 ==> r > 0,
{
    if n < TWO_53 {
        n
    } else {
        let f = nearest_double(n, 1);
        if f.s < 0 {
            let r: u128 = whole_top(f);
            proof {
                lemma_two_to_positive((-f.s) as nat);
                assert(f.m * two_to((-f.s) as nat) > 0) by (nonlinear_arith)
                    requires
                        f.m > 0,
                        two_to((-f.s) as nat) > 0,
                ;
            }
            r
        } else {
            proof {
                lemma_widened_moves(n as nat, 1, 0);
            }
            f.m as u128
        }
    }
}

proof fn lemma_widened_moves(num: nat, den: nat, s: int)
    requires
        0 < den,
    ensures
        widened(num, den, s).1 <= s,
        num >= den * TWO_53 ==> widened(num, den, s).1 < s,
    decreases num - den,
{
    if num >= den * TWO_53 {
        lemma_widened_moves(num, 2 * den, s - 1);
    }
}

// ---------------------------------------------------------------------------
// Rounding keeps the order
// ---------------------------------------------------------------------------

pub(crate) proof fn lemma_half_even_scaled(a: nat, b: nat, c: nat)
    requires
        b > 0,
        c > 0,
    ensures
        half_even(a * c, b * c) == half_even(a, b),
{
    let q = a / b;
    let r = a % b;
    lemma_fundamental_div_mod(a as int, b as int);
    assert(a * c == q * (b * c) + r * c && 0 <= r * c < b * c) by (nonlinear_arith)
        requires
            a == b * q + r,
            0 <= r < b,
            c > 0,
    ;
    lemma_fundamental_div_mod_converse((a * c) as int, (b * c) as int, q as int, (r * c) as int);
    assert((2 * (r * c) > b * c) == (2 * r > b) && (2 * (r * c) == b * c) == (2 * r == b)) by (
        nonlinear_arith)
        requires
            c > 0,
    ;
}

proof fn lemma_half_even_grows(a: nat, b: nat, den: nat)
    requires
        den > 0,
        a <= b,
    ensures
        half_even(a, den) <= half_even(b, den),
{
    let qa = a / den;
    let ra = a % den;
    let qb = b / den;
    let rb = b % den;
    lemma_fundamental_div_mod(a as int, den as int);
    lemma_fundamental_div_mod(b as int, den as int);
    assert(qa <= qb && (qa == qb ==> ra <= rb)) by (nonlinear_arith)
        requires
            a == den * qa + ra,
            b == den * qb + rb,
            0 <= ra < den,
            0 <= rb < den,
            a <= b,
    ;
}

pub(crate) proof fn lemma_sharpened(num: nat, den: nat, s: int)
    requires
        0 < num < den * TWO_53,
    ensures
        ({
            let (n, t) = sharpened(num, den, s);
            &&& t >= s
            &&& n == num * two_to((t - s) as nat)
            &&& den * TWO_52 <= n < den * TWO_53
        }),
    decreases den * TWO_53 - num,
{
    if 2 * num < den * TWO_53 {
        lemma_sharpened(2 * num, den, s + 1);
        let t = sharpened(num, den, s).1;
        let h = two_to((t - s - 1) as nat);
        assert(2 * num * h == num * (2 * h)) by (nonlinear_arith);
    } else {
        assert(num * 1 == num);
    }
}

pub(crate) proof fn lemma_widened(num: nat, den: nat, s: int)
    requires
        0 < den,
        num >= den * TWO_53,
    ensures
        ({
            let (d, t) = widened(num, den, s);
            &&& t < s
            &&& d == den * two_to((s - t) as nat)
            &&& d * TWO_52 <= num < d * TWO_53
        }),
    decreases num - den,
{
    let (d, t) = widened(num, den, s);
    if num >= 2 * den * TWO_53 {
        lemma_widened(num, 2 * den, s - 1);
        let h = two_to((s - 1 - t) as nat);
        assert(2 * den * h == den * (2 * h)) by (nonlinear_arith);
    } else {
        assert(widened(num, 2 * den, s - 1) == (2 * den, s - 1));
        reveal_with_fuel(two_to, 2);
        assert(two_to((s - t) as nat) == 2);
        assert(den * 2 == 2 * den);
    }
}

/// What rounding to a double does, on the scale of two to the power of `e`.
proof fn lemma_nearest(num: nat, den: nat, s: int, e: int)
    requires
        0 < num,
        0 < den,
        e >= s,
        e >= s + nearest(num, den).s,
    ensures
        ({
            let r = nearest(num, den);
            let a = num * two_to((e - s) as nat);
            let u = den * two_to((e - s - r.s) as nat);
            &&& u > 0
            &&& r.m == half_even(a, u)
            &&& u * TWO_52 <= a < u * TWO_53
            &&& TWO_52 <= r.m <= TWO_53
        }),
{
    let r = nearest(num, den);
    let k = two_to((e - s) as nat);
    lemma_two_to_positive((e - s) as nat);
    lemma_two_to_positive((e - s - r.s) as nat);
    if num >= den * TWO_53 {
        lemma_widened(num, den, 0);
        let d = widened(num, den, 0).0;
        lemma_two_to_adds((e - s) as nat, (-r.s) as nat);
        let w = two_to((-r.s) as nat);
        assert(den * (k * w) == (den * w) * k) by (nonlinear_arith);
        assert(d * k > 0 && (d * k) * TWO_52 <= num * k && num * k < (d * k) * TWO_53) by (
            nonlinear_arith)
            requires
                d * TWO_52 <= num < d * TWO_53,
                k > 0,
                d > 0,
        ;
        lemma_half_even_scaled(num, d, k);
        lemma_has_all_digits(num, d);
        lemma_no_more_digits(num, d);
    } else {
        lemma_sharpened(num, den, 0);
        let n = sharpened(num, den, 0).0;
        let u = two_to((e - s - r.s) as nat);
        let w = two_to(r.s as nat);
        lemma_two_to_adds(r.s as nat, (e - s - r.s) as nat);
        assert(num * (w * u) == (num * w) * u) by (nonlinear_arith);
        assert(den * u > 0 && (den * u) * TWO_52 <= n * u && n * u < (den * u) * TWO_53) by (
            nonlinear_arith)
            requires
                den * TWO_52 <= n < den * TWO_53,
                u > 0,
                den > 0,
        ;
        lemma_half_even_scaled(n, den, u);
        lemma_has_all_digits(n, den);
        lemma_no_more_digits(n, den);
    }
}

pub(crate) proof fn lemma_no_more_digits(num: nat, den: nat)
    requires
        0 < den,
        num < den * TWO_53,
    ensures
        half_even(num, den) <= TWO_53,
{
    assert(num / den < TWO_53) by (nonlinear_arith)
        requires
            0 < den,
            num < den * TWO_53,
    ;
}

pub(crate) proof fn lemma_nearest_zero(den: nat)
    requires
        den > 0,
    ensures
        nearest(0, den) == (Binary { m: 0, s: 0 }),
{
    assert(0nat / den == 0 && 0nat % den == 0) by (nonlinear_arith)
        requires
            den > 0,
    ;
}

/// Rounding keeps the order, on the scale of two to the power of `e`.
pub(crate) proof fn lemma_nearest_grows(n1: nat, s1: int, n2: nat, s2: int, den: nat, e: int)
    requires
        den > 0,
        e >= s1,
        e >= s2,
        e >= s1 + nearest(n1, den).s,
        e >= s2 + nearest(n2, den).s,
        n1 * two_to((e - s1) as nat) <= n2 * two_to((e - s2) as nat),
    ensures
        nearest(n1, den).m * two_to((e - s1 - nearest(n1, den).s) as nat) <= nearest(n2, den).m
            * two_to((e - s2 - nearest(n2, den).s) as nat),
{
    let r1 = nearest(n1, den);
    let r2 = nearest(n2, den);
    let x1 = (e - s1 - r1.s) as nat;
    let x2 = (e - s2 - r2.s) as nat;
    if n1 == 0 {
        lemma_nearest_zero(den);
        assert(0 * two_to(x1) == 0);
        assert(r2.m * two_to(x2) >= 0) by (nonlinear_arith);
    } else {
        lemma_two_to_positive((e - s1) as nat);
        assert(n2 > 0) by (nonlinear_arith)
            requires
                n1 > 0,
                two_to((e - s1) as nat) > 0,
                n1 * two_to((e - s1) as nat) <= n2 * two_to((e - s2) as nat),
                n2 >= 0,
        ;
        lemma_nearest(n1, den, s1, e);
        lemma_nearest(n2, den, s2, e);
        let a1 = n1 * two_to((e - s1) as nat);
        let a2 = n2 * two_to((e - s2) as nat);
        let u1 = two_to(x1);
        let u2 = two_to(x2);
        if x1 == x2 {
            lemma_half_even_grows(a1, a2, den * u1);
            assert(r1.m * u1 <= r2.m * u2) by (nonlinear_arith)
                requires
                    r1.m <= r2.m,
                    u1 == u2,
                    u1 >= 0,
            ;
        } else if x1 > x2 {
            lemma_two_to_grows(x2, x1);
            assert(false) by (nonlinear_arith)
                requires
                    (den * u1) * TWO_52 <= a1,
                    a1 <= a2,
                    a2 < (den * u2) * TWO_53,
                    2 * u2 <= u1,
                    den > 0,
                    TWO_53 == 2 * TWO_52,
                    TWO_52 > 0,
            ;
        } else {
            lemma_two_to_grows(x1, x2);
            assert(r1.m * u1 <= r2.m * u2) by (nonlinear_arith)
                requires
                    r1.m <= TWO_53,
                    TWO_52 <= r2.m,
                    2 * u1 <= u2,
                    u1 >= 0,
                    TWO_53 == 2 * TWO_52,
                    TWO_52 > 0,
            ;
        }
    }
}

spec fn at_least_zero(n: int) -> int {
    if n < 0 {
        0
    } else {
        n
    }
}

/// The order, on the scale of two to the power of `e`.
pub(crate) proof fn lemma_order(a: Binary, b: Binary, e: int)
    requires
        e >= a.s,
        e >= b.s,
    ensures
        a.at_most(b) == (a.m * two_to((e - a.s) as nat) <= b.m * two_to((e - b.s) as nat)),
{
    let ea = two_to((e - a.s) as nat);
    let eb = two_to((e - b.s) as nat);
    if a.s >= b.s {
        let d = two_to((a.s - b.s) as nat);
        lemma_two_to_adds((a.s - b.s) as nat, (e - a.s) as nat);
        lemma_two_to_positive((e - a.s) as nat);
        assert((a.m <= b.m * d) == (a.m * ea <= b.m * (d * ea))) by (nonlinear_arith)
            requires
                ea > 0,
        ;
    } else {
        let d = two_to((b.s - a.s) as nat);
        lemma_two_to_adds((b.s - a.s) as nat, (e - b.s) as nat);
        lemma_two_to_positive((e - b.s) as nat);
        assert((a.m * d <= b.m) == (a.m * (d * eb) <= b.m * eb)) by (nonlinear_arith)
            requires
                eb > 0,
        ;
    }
}

/// A larger number divided by a whole number does not give a smaller one.
pub proof fn dividing_keeps_the_order(a: Binary, b: Binary, k: nat)
    requires
        a.at_most(b),
        k > 0,
    ensures
        over(a, k).at_most(over(b, k)),
{
    let x = over(a, k);
    let y = over(b, k);
    let e = at_least_zero(a.s) + at_least_zero(b.s) + at_least_zero(x.s) + at_least_zero(y.s);
    lemma_order(a, b, e);
    lemma_nearest_grows(a.m, a.s, b.m, b.s, k, e);
    lemma_order(x, y, e);
}

/// A larger number times a whole number does not give a smaller one.
pub proof fn multiplying_keeps_the_order(a: Binary, b: Binary, k: nat)
    requires
        a.at_most(b),
    ensures
        times(a, k).at_most(times(b, k)),
{
    let x = times(a, k);
    let y = times(b, k);
    let e = at_least_zero(a.s) + at_least_zero(b.s) + at_least_zero(x.s) + at_least_zero(y.s);
    lemma_order(a, b, e);
    let ea = two_to((e - a.s) as nat);
    let eb = two_to((e - b.s) as nat);
    assert((a.m * k) * ea <= (b.m * k) * eb) by (nonlinear_arith)
        requires
            a.m * ea <= b.m * eb,
            k >= 0,
    ;
    lemma_nearest_grows(a.m * k, a.s, b.m * k, b.s, 1, e);
    lemma_order(x, y, e);
}

proof fn lemma_quotient_scaled(a: nat, b: nat, c: nat)
    requires
        b > 0,
        c > 0,
    ensures
        (a * c) / (b * c) == a / b,
{
    let q = a / b;
    let r = a % b;
    lemma_fundamental_div_mod(a as int, b as int);
    assert(a * c == q * (b * c) + r * c && 0 <= r * c < b * c) by (nonlinear_arith)
        requires
            a == b * q + r,
            0 <= r < b,
            c > 0,
    ;
    lemma_fundamental_div_mod_converse((a * c) as int, (b * c) as int, q as int, (r * c) as int);
}

proof fn lemma_rounded(x: Binary, e: int)
    requires
        e >= 0,
        e >= x.s,
    ensures
        x.rounded() == (2 * (x.m * two_to((e - x.s) as nat)) + two_to(e as nat)) / (2 * two_to(
            e as nat,
        )),
{
    let c = if x.s < 0 {
        two_to(e as nat)
    } else {
        two_to((e - x.s) as nat)
    };
    let t = x.top();
    let b = x.bottom();
    lemma_two_to_positive(e as nat);
    lemma_two_to_positive((e - x.s) as nat);
    if x.s < 0 {
        lemma_two_to_adds((-x.s) as nat, e as nat);
        let w = two_to((-x.s) as nat);
        assert(x.m * (w * c) == (x.m * w) * c) by (nonlinear_arith);
        assert(1 * c == c);
    } else {
        lemma_two_to_positive(x.s as nat);
        lemma_two_to_adds(x.s as nat, (e - x.s) as nat);
    }
    assert((2 * t + b) * c == 2 * (t * c) + b * c && (2 * b) * c == 2 * (b * c)) by (
        nonlinear_arith);
    lemma_quotient_scaled(2 * t + b, 2 * b, c);
}

/// A larger number does not round to a smaller one.
pub proof fn rounding_keeps_the_order(a: Binary, b: Binary)
    requires
        a.at_most(b),
    ensures
        a.rounded() <= b.rounded(),
{
    let e = at_least_zero(a.s) + at_least_zero(b.s);
    lemma_order(a, b, e);
    lemma_rounded(a, e);
    lemma_rounded(b, e);
    let x = 2 * (a.m * two_to((e - a.s) as nat)) + two_to(e as nat);
    let y = 2 * (b.m * two_to((e - b.s) as nat)) + two_to(e as nat);
    let d = 2 * two_to(e as nat);
    lemma_two_to_positive(e as nat);
    assert(x / d <= y / d) by (nonlinear_arith)
        requires
            x <= y,
            d > 0,
    ;
}

/// One times a whole number that a double holds is that number.
pub proof fn one_times_a_number_is_the_number(n: nat)
    requires
        n < TWO_53,
    ensures
        times(Binary { m: TWO_52 as nat, s: 52 }, n).rounded() == n,
{
    let one = Binary { m: TWO_52 as nat, s: 52 };
    let x = times(one, n);
    lemma_two_to_known();
    assert(two_to(52) == TWO_52) by {
        reveal_with_fuel(two_to, 2);
    }
    let num = one.m * n;
    assert(num == TWO_52 * n);
    if n == 0 {
        lemma_nearest_zero(1);
        assert(num == 0);
        assert(x == (Binary { m: 0, s: 52 }));
        assert(x.top() == 0 && x.bottom() == TWO_52);
        assert((2 * 0 + TWO_52) / (2 * TWO_52) == 0);
    } else if n == 1 {
        assert(num == TWO_52);
        assert(sharpened(TWO_52 as nat, 1, 0) == (TWO_52 as nat, 0int));
        assert(x == one);
        assert(x.top() == TWO_52 && x.bottom() == TWO_52);
        assert((2 * TWO_52 + TWO_52) / (2 * TWO_52) == 1);
    } else {
        lemma_widened(num, 1, 0);
        let (p, t) = widened(num, 1, 0);
        assert(1 * two_to((-t) as nat) == two_to((-t) as nat));
        if -t > 52 {
            lemma_two_to_grows(53, (-t) as nat);
        }
        let q = two_to((52 + t) as nat);
        lemma_two_to_adds((-t) as nat, (52 + t) as nat);
        lemma_two_to_positive((-t) as nat);
        lemma_two_to_positive((52 + t) as nat);
        assert(num == (q * n) * p) by (nonlinear_arith)
            requires
                num == TWO_52 * n,
                TWO_52 == p * q,
        ;
        lemma_half_even_scaled(q * n, 1, p);
        assert(1 * p == p);
        assert(half_even(q * n, 1) == q * n);
        assert(x == (Binary { m: q * n, s: 52 + t }));
        assert(x.top() == q * n && x.bottom() == q);
        assert((2 * (q * n) + q) / (2 * q) == n) by (nonlinear_arith)
            requires
                q > 0,
                n >= 0,
        ;
    }
}

fn point_text(n: u128, places: u32) -> (r: String)
    requires
        places <= 2,
    ensures
        r@ == with_point(n as nat, places as nat),
{
    if places == 0 {
        u128_text(n)
    } else if places == 1 {
        concat3(u128_text(n / 10).as_str(), ".", u128_text(n % 10).as_str())
    } else {
        concat3(u128_text(n / 100).as_str(), ".", two_digit_text((n % 100) as u64).as_str())
    }
}

/// A double that is a whole number, with a fixed number of decimals.
fn whole_text(f: Bits, places: u32) -> (r: String)
    requires
        -10_000 <= f.s < 0,
        places <= 2,
    ensures
        r@ == fraction_digits(f@, places as nat),
{
    let ghost t = f@.top();
    let whole = if f.m == 0 {
        proof {
            assert(0nat * two_to((-f.s) as nat) == 0);
        }
        u128_text(0)
    } else {
        power_text(f.m, (-f.s) as u32)
    };
    proof {
        let n = t * ten_to(places as nat);
        assert(n / 1 == n && n % 1 == 0);
        assert(half_even(n, f@.bottom()) == n);
        assert((t * 10) / 10 == t && (t * 10) % 10 == 0);
        assert((t * 100) / 100 == t && (t * 100) % 100 == 0);
        assert(t * 1 == t);
    }
    if places == 0 {
        whole
    } else if places == 1 {
        concat3(whole.as_str(), ".", u128_text(0).as_str())
    } else {
        concat3(whole.as_str(), ".", two_digit_text(0).as_str())
    }
}

/// A double with a fixed number of decimals.
pub fn fraction_text(f: Bits, places: u32) -> (r: String)
    requires
        -10_000 <= f.s <= 10_000,
        f.s < 0 ==> f.m <= TWO_53,
        places <= 2,
    ensures
        r@ == fraction_digits(f@, places as nat),
{
    if f.s < -50 {
        return whole_text(f, places);
    }
    let scale: u128 = if places == 0 {
        1
    } else if places == 1 {
        10
    } else {
        100
    };
    proof {
        assert(scale == ten_to(places as nat));
        lemma_two_to_known();
    }
    if f.s < 0 {
        let t: u128 = whole_top(f);
        proof {
            lemma_two_to_grows((-f.s) as nat, 53);
            assert(f.m * two_to((-f.s) as nat) <= TWO_53 * TWO_53) by (nonlinear_arith)
                requires
                    0 <= f.m <= TWO_53,
                    0 <= two_to((-f.s) as nat) <= TWO_53,
            ;
            assert(t * scale <= TWO_53 * TWO_53 * 100) by (nonlinear_arith)
                requires
                    0 <= t <= TWO_53 * TWO_53,
                    0 <= scale <= 100,
            ;
        }
        let n: u128 = round_half_even(t * scale, 1);
        point_text(n, places)
    } else if f.s >= 80 {
        proof {
            lemma_two_to_grows(80, f.s as nat);
            let b = two_to(f.s as nat);
            let a = f.m as nat * ten_to(places as nat);
            assert(a <= 0x1_0000_0000_0000_0000 * 100) by (nonlinear_arith)
                requires
                    a == f.m as nat * ten_to(places as nat),
                    0 <= f.m < 0x1_0000_0000_0000_0000,
                    0 <= ten_to(places as nat) <= 100,
            ;
            assert(a / b == 0) by (nonlinear_arith)
                requires
                    0 <= a < b,
            ;
            assert(a % b == a) by (nonlinear_arith)
                requires
                    0 <= a < b,
            ;
        }
        point_text(0, places)
    } else {
        let p: u128 = power_of_two(f.s as u32);
        proof {
            lemma_two_to_grows(f.s as nat, 80);
            assert(f.m * scale <= 0x1_0000_0000_0000_0000 * 100) by (nonlinear_arith)
                requires
                    0 <= f.m < 0x1_0000_0000_0000_0000,
                    0 <= scale <= 100,
            ;
        }
        let n: u128 = round_half_even(f.m as u128 * scale, p);
        point_text(n, places)
    }
}

/// The double nearest to `num / den` with a fixed number of decimals.
pub fn quotient_text(num: u128, den: u128, places: u32) -> (r: String)
    requires
        0 < den < TWO_73,
        num < TWO_80,
        places <= 2,
    ensures
        r@ == quotient_digits(num as nat, den as nat, places as nat),
{
    fraction_text(nearest_double(num, den), places)
}

pub open spec fn absolute(n: int) -> nat {
    if n < 0 {
        (-n) as nat
    } else {
        n as nat
    }
}

fn absolute_of(n: i128) -> (r: u128)
    requires
        n > i128::MIN,
    ensures
        r == absolute(n as int),
{
    if n < 0 {
        (-n) as u128
    } else {
        n as u128
    }
}

/// The quotient of two whole numbers, each taken as a double, as a double; zero over
/// nothing.
pub open spec fn per(a: int, b: int) -> Binary {
    if b == 0 {
        Binary { m: 0, s: 0 }
    } else {
        nearest(nearest_whole(absolute(a)), nearest_whole(absolute(b)))
    }
}

/// The sign that a quotient is written with.
pub open spec fn sign(a: int, b: int) -> Seq<char> {
    if b != 0 && (a < 0) != (b < 0) {
        "-"@
    } else {
        Seq::empty()
    }
}

/// A quotient with a fixed number of decimals.
pub open spec fn per_digits(a: int, b: int, places: nat) -> Seq<char> {
    sign(a, b) + fraction_digits(per(a, b), places)
}

/// A thousandth of a quotient, with one decimal.
pub open spec fn per_thousand_digits(a: int, b: int) -> Seq<char> {
    sign(a, b) + fraction_digits(over(per(a, b), 1000), 1)
}

fn sign_text(a: i128, b: i128) -> (r: String)
    ensures
        r@ == sign(a as int, b as int),
{
    if b != 0 && (a < 0) != (b < 0) {
        "-".to_owned()
    } else {
        let r = String::new();
        proof {
            assert(r@ =~= Seq::<char>::empty());
        }
        r
    }
}

fn per_double(a: i128, b: i128) -> (r: Bits)
    requires
        -0x100_0000_0000_0000_0000 < a < 0x100_0000_0000_0000_0000,
        -0x2_0000_0000_0000_0000 <= b <= 0x2_0000_0000_0000_0000,
    ensures
        r@ == per(a as int, b as int),
        r.m <= TWO_53,
        -27 <= r.s <= 126,
{
    if b == 0 {
        Bits { m: 0, s: 0 }
    } else {
        let x: u128 = whole_double(absolute_of(a));
        let y: u128 = whole_double(absolute_of(b));
        nearest_double(x, y)
    }
}

/// `a / b` with a fixed number of decimals, zero over nothing.
pub fn per_text(a: i128, b: i128, places: u32) -> (r: String)
    requires
        -0x100_0000_0000_0000_0000 < a < 0x100_0000_0000_0000_0000,
        -0x2_0000_0000_0000_0000 <= b <= 0x2_0000_0000_0000_0000,
        places <= 2,
    ensures
        r@ == per_digits(a as int, b as int, places as nat),
{
    let f = per_double(a, b);
    concat2(sign_text(a, b).as_str(), fraction_text(f, places).as_str())
}

/// A thousandth of `a / b`, with one decimal.
pub fn per_thousand_text(a: i128, b: i128) -> (r: String)
    requires
        -0x100_0000_0000_0000_0000 < a < 0x100_0000_0000_0000_0000,
        -0x2_0000_0000_0000_0000 <= b <= 0x2_0000_0000_0000_0000,
    ensures
        r@ == per_thousand_digits(a as int, b as int),
{
    let f = per_double(a, b);
    let g = over_whole(f, 1000);
    concat2(sign_text(a, b).as_str(), fraction_text(g, 1).as_str())
}

} // verus!
