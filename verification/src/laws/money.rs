//! Amounts that are whole numbers: they are added, multiplied, divided and written exactly.

use crate::agents::{share_fraction, AgentsSummary};
use crate::commands::sessions::share_digits;
use crate::display::context::{payload_percentage, ContextWindow};
use crate::display::line::burn_rate;
use crate::display::pieces::agents_piece;
use crate::double::{bits_are_in_the_order_of_sizes, lemma_unpacked, settled, size_bits, Double};
use crate::layout::format::{rate_digits, rate_in_unit};
use crate::ratio::{
    fraction_digits, half_even, lemma_half_even_scaled, lemma_nearest_zero, lemma_sharpened,
    lemma_two_to_adds, lemma_two_to_grows, lemma_two_to_positive, lemma_widened, nearest, sharpened,
    ten_to, two_to, widened, with_point, Binary, TWO_52, TWO_53,
};
use crate::text::{dec, two_digits};
use vstd::prelude::*;

verus! {

/// The number of binary places with which a whole number fills a double.
spec fn places(n: nat) -> nat {
    nearest(n, 1).s as nat
}

proof fn lemma_places(n: nat)
    requires
        0 < n < TWO_53,
    ensures
        nearest(n, 1) == (Binary { m: n * two_to(places(n)), s: places(n) as int }),
        TWO_52 <= n * two_to(places(n)) < TWO_53,
        places(n) <= 52,
{
    lemma_sharpened(n, 1, 0);
    let (k, t) = sharpened(n, 1, 0);
    assert(half_even(k, 1) == k);
    assert(nearest(n, 1) == (Binary { m: k, s: t }));
    if t > 52 {
        lemma_two_to_grows(53, t as nat);
        crate::ratio::lemma_two_to_known();
        let p = two_to(t as nat);
        assert(n * p >= TWO_53) by (nonlinear_arith)
            requires
                n >= 1,
                p >= TWO_53,
        ;
    }
}

proof fn lemma_same_places(n: nat, a: nat, b: nat)
    requires
        n > 0,
        TWO_52 <= n * two_to(a) < TWO_53,
        TWO_52 <= n * two_to(b) < TWO_53,
    ensures
        a == b,
{
    let p = two_to(a);
    let q = two_to(b);
    if a < b {
        lemma_two_to_grows(a, b);
        assert(2 * (n * p) <= n * q) by (nonlinear_arith)
            requires
                2 * p <= q,
                n > 0,
        ;
    } else if b < a {
        lemma_two_to_grows(b, a);
        assert(2 * (n * q) <= n * p) by (nonlinear_arith)
            requires
                2 * q <= p,
                n > 0,
        ;
    }
}

/// A quotient that is a whole number is the nearest double, on any scale.
proof fn lemma_exact(n: nat, d: nat, k: nat)
    requires
        0 < n < TWO_53,
        d > 0,
    ensures
        nearest(n * d * two_to(k), d) == (Binary {
            m: n * two_to(places(n)),
            s: places(n) - k,
        }),
{
    let p = two_to(k);
    let num = n * d * p;
    lemma_places(n);
    lemma_two_to_positive(k);
    assert(num == (n * p) * d) by (nonlinear_arith)
        requires
            num == n * d * p,
    ;
    assert(num > 0) by (nonlinear_arith)
        requires
            num == (n * p) * d,
            n > 0,
            p > 0,
            d > 0,
    ;
    if num >= d * TWO_53 {
        lemma_widened(num, d, 0);
        let (e, s) = widened(num, d, 0);
        let w = (-s) as nat;
        let q = two_to(w);
        lemma_two_to_positive(w);
        assert(q * TWO_52 <= n * p && n * p < q * TWO_53) by (nonlinear_arith)
            requires
                e == d * q,
                e * TWO_52 <= num < e * TWO_53,
                num == (n * p) * d,
                d > 0,
        ;
        if w > k {
            lemma_two_to_grows(k, w);
            assert(false) by (nonlinear_arith)
                requires
                    2 * p <= q,
                    q * TWO_52 <= n * p,
                    n < TWO_53,
                    TWO_53 == 2 * TWO_52,
                    p > 0,
            ;
        }
        let r = two_to((k - w) as nat);
        lemma_two_to_adds((k - w) as nat, w);
        assert(p == r * q);
        assert(TWO_52 <= n * r && n * r < TWO_53) by (nonlinear_arith)
            requires
                p == r * q,
                q * TWO_52 <= n * p,
                n * p < q * TWO_53,
                q > 0,
        ;
        lemma_same_places(n, (k - w) as nat, places(n));
        assert(num == (n * r) * e) by (nonlinear_arith)
            requires
                num == (n * p) * d,
                p == r * q,
                e == d * q,
        ;
        assert(e > 0) by (nonlinear_arith)
            requires
                e == d * q,
                d > 0,
                q > 0,
        ;
        lemma_half_even_scaled(n * r, 1, e);
        assert(1 * e == e);
        assert(half_even(n * r, 1) == n * r);
    } else {
        lemma_sharpened(num, d, 0);
        let (e, s) = sharpened(num, d, 0);
        let q = two_to(s as nat);
        lemma_two_to_positive(s as nat);
        lemma_two_to_adds(k, s as nat);
        let r = two_to(k + s as nat);
        assert(e == (n * r) * d) by (nonlinear_arith)
            requires
                e == num * q,
                num == (n * p) * d,
                r == p * q,
        ;
        assert(TWO_52 <= n * r && n * r < TWO_53) by (nonlinear_arith)
            requires
                e == (n * r) * d,
                d * TWO_52 <= e < d * TWO_53,
                d > 0,
        ;
        lemma_same_places(n, k + s as nat, places(n));
        lemma_half_even_scaled(n * r, 1, d);
        assert(1 * d == d);
        assert(half_even(n * r, 1) == n * r);
    }
}

proof fn lemma_exact_settled(n: nat, d: nat, k: nat)
    requires
        0 < n < TWO_53,
        d > 0,
    ensures
        settled(n * d * two_to(k), d, k as int) == (Binary {
            m: n * two_to(places(n)),
            s: places(n) as int,
        }),
{
    lemma_exact(n, d, k);
    lemma_places(n);
}

proof fn lemma_whole(n: nat)
    requires
        0 < n < TWO_53,
    ensures
        Double::whole(n).size() == (Binary { m: n * two_to(places(n)), s: places(n) as int }),
        Double::whole(n) == Double::packed(
            false,
            Binary { m: n * two_to(places(n)), s: places(n) as int },
        ),
        !Double::whole(n).is_negative(),
        Double::whole(n).is_finite(),
        Double::whole(n).unsigned() > 0,
{
    lemma_exact_settled(n, 1, 0);
    lemma_places(n);
    assert(two_to(0) == 1);
    assert(n * 1 * 1 == n);
    let f = Binary { m: n * two_to(places(n)), s: places(n) as int };
    lemma_unpacked(false, f);
    let u = size_bits(f);
    assert(u == (1074 - f.s) * TWO_52 + f.m);
    assert(u / TWO_52 as int == 1075 - f.s && u % TWO_52 as int == f.m - TWO_52) by {
        vstd::arithmetic::div_mod::lemma_fundamental_div_mod_converse(
            u,
            TWO_52 as int,
            1075 - f.s,
            f.m - TWO_52,
        );
    }
}

/// Nothing is zero, and whole numbers are in the order of their amounts.
pub proof fn whole_numbers_are_in_order(a: nat, b: nat)
    requires
        a < TWO_53,
        b < TWO_53,
    ensures
        Double::whole(0) == Double::zero(),
        Double::whole(a).at_most(Double::whole(b)) <==> a <= b,
        Double::whole(a).below(Double::whole(b)) <==> a < b,
        Double::whole(a).is_positive() <==> a > 0,
        Double::whole(a) == Double::whole(b) <==> a == b,
{
    lemma_nearest_zero(1);
    assert(Double::whole(0) == Double::zero());
    if a > 0 {
        lemma_whole(a);
    }
    if b > 0 {
        lemma_whole(b);
    }
    if a > 0 && b > 0 {
        lemma_order_of_wholes(a, b);
        lemma_order_of_wholes(b, a);
    }
}

proof fn lemma_order_of_wholes(a: nat, b: nat)
    requires
        0 < a < TWO_53,
        0 < b < TWO_53,
    ensures
        Double::whole(a).unsigned() <= Double::whole(b).unsigned() <==> a <= b,
{
    lemma_whole(a);
    lemma_whole(b);
    let x = Double::whole(a);
    let y = Double::whole(b);
    bits_are_in_the_order_of_sizes(x, y);
    let p = two_to(places(a));
    let q = two_to(places(b));
    lemma_two_to_positive(places(a));
    lemma_two_to_positive(places(b));
    if places(a) >= places(b) {
        let r = two_to((places(a) - places(b)) as nat);
        lemma_two_to_adds(places(b), (places(a) - places(b)) as nat);
        assert((a * p <= (b * q) * r) == (a <= b)) by (nonlinear_arith)
            requires
                p == q * r,
                p > 0,
        ;
    } else {
        let r = two_to((places(b) - places(a)) as nat);
        lemma_two_to_adds(places(a), (places(b) - places(a)) as nat);
        assert(((a * p) * r <= b * q) == (a <= b)) by (nonlinear_arith)
            requires
                q == p * r,
                q > 0,
        ;
    }
}

/// Whole numbers are multiplied and divided exactly: a product divided by one factor is the
/// other.
pub proof fn products_and_quotients_are_exact(a: nat, b: nat)
    requires
        0 < a,
        0 < b,
        a * b < TWO_53,
    ensures
        Double::whole(a).times(b) == Double::whole(a * b),
        Double::whole(a * b).over(b) == Double::whole(a),
        Double::ratio(a * b, b) == Double::whole(a),
{
    assert(a <= a * b && b <= a * b && a * b > 0) by (nonlinear_arith)
        requires
            a > 0,
            b > 0,
    ;
    lemma_whole(a);
    lemma_whole(a * b);
    let p = two_to(places(a));
    lemma_exact_settled(a * b, 1, places(a));
    assert((a * p) * b == (a * b) * 1 * p) by (nonlinear_arith);
    lemma_exact_settled(a, b, places(a * b));
    lemma_exact_settled(a, b, 0);
    assert(two_to(0) == 1);
    assert(a * b * 1 == a * b);
}

/// Whole numbers are added and subtracted exactly.
pub proof fn sums_and_differences_are_exact(a: nat, b: nat)
    requires
        a + b < TWO_53,
    ensures
        Double::whole(a).plus(Double::whole(b)) == Double::whole(a + b),
        Double::whole(a + b).minus(Double::whole(b)) == Double::whole(a),
{
    lemma_nearest_zero(1);
    assert(Double::whole(0) == Double::zero());
    if a > 0 {
        lemma_whole(a);
    }
    if b > 0 {
        lemma_whole(b);
    }
    if a + b > 0 {
        lemma_whole(a + b);
    }
    if a > 0 && b > 0 {
        lemma_sum(a, b);
        lemma_difference(a, b);
    } else if a == 0 && b > 0 {
        crate::double::adding_nothing(Double::whole(b));
        lemma_sum_commutes(Double::whole(b), Double::zero());
        crate::double::nothing_is_left(Double::whole(b));
    } else if a > 0 {
        crate::double::adding_nothing(Double::whole(a));
        lemma_less_nothing(a);
    } else {
        crate::double::adding_nothing(Double::zero());
        crate::double::nothing_is_left(Double::zero());
    }
}

/// The order in which two numbers are added does not matter.
pub proof fn sums_do_not_depend_on_their_order(x: Double, y: Double)
    ensures
        x.is_finite() && y.is_finite() ==> x.plus(y) == y.plus(x),
{
    if x.is_finite() && y.is_finite() {
        lemma_sum_commutes(x, y);
    }
}

proof fn lemma_sum_commutes(x: Double, y: Double)
    requires
        x.is_finite(),
        y.is_finite(),
    ensures
        x.plus(y) == y.plus(x),
{
}

proof fn lemma_less_nothing(a: nat)
    requires
        0 < a < TWO_53,
    ensures
        Double::whole(a).minus(Double::zero()) == Double::whole(a),
{
    lemma_whole(a);
    lemma_places(a);
    let x = Double::whole(a);
    let z = Double::zero().negated();
    assert(z.size() == Double::zero().size());
    assert(z.size() == (Binary { m: 0, s: 1074 }));
    let t = places(a);
    let p = two_to(t);
    let r = two_to((1074 - t) as nat);
    let u = two_to(1074);
    lemma_two_to_adds(t, (1074 - t) as nat);
    lemma_two_to_positive(1074);
    assert(x.units(1074) == (a * p) * r);
    assert((a * p) * r == a * 1 * u) by (nonlinear_arith)
        requires
            u == p * r,
    ;
    assert(0 * two_to(0) == 0);
    assert(z.units(1074) == 0);
    lemma_exact_settled(a, 1, 1074);
    assert(a * 1 * u > 0) by (nonlinear_arith)
        requires
            a > 0,
            u > 0,
    ;
}

proof fn lemma_units(a: nat, s: nat)
    requires
        0 < a < TWO_53,
        places(a) <= s,
    ensures
        Double::whole(a).units(s as int) == a * two_to(s),
        a * two_to(s) > 0,
{
    lemma_whole(a);
    let t = places(a);
    let p = two_to(t);
    let r = two_to((s - t) as nat);
    let u = two_to(s);
    lemma_two_to_adds(t, (s - t) as nat);
    lemma_two_to_positive(s);
    assert((a * p) * r == a * u && a * u > 0) by (nonlinear_arith)
        requires
            u == p * r,
            a > 0,
            u > 0,
    ;
}

proof fn lemma_sum(a: nat, b: nat)
    requires
        0 < a,
        0 < b,
        a + b < TWO_53,
    ensures
        Double::whole(a).plus(Double::whole(b)) == Double::whole(a + b),
{
    lemma_whole(a);
    lemma_whole(b);
    lemma_whole(a + b);
    let s = if places(a) >= places(b) {
        places(a)
    } else {
        places(b)
    };
    lemma_units(a, s);
    lemma_units(b, s);
    let u = two_to(s);
    assert(a * u + b * u == (a + b) * 1 * u) by (nonlinear_arith);
    lemma_exact_settled(a + b, 1, s);
}

proof fn lemma_difference(a: nat, b: nat)
    requires
        0 < a,
        0 < b,
        a + b < TWO_53,
    ensures
        Double::whole(a + b).minus(Double::whole(b)) == Double::whole(a),
{
    let c = a + b;
    lemma_whole(a);
    lemma_whole(b);
    lemma_whole(c);
    let y = Double::whole(b);
    let z = y.negated();
    assert(z.is_negative() && z.unsigned() == y.unsigned());
    assert(z.size() == y.size());
    let s = if places(c) >= places(b) {
        places(c)
    } else {
        places(b)
    };
    lemma_units(c, s);
    lemma_units(b, s);
    assert(z.units(s as int) == -y.units(s as int));
    let u = two_to(s);
    lemma_two_to_positive(s);
    assert(c * u - b * u == a * 1 * u && a * 1 * u > 0) by (nonlinear_arith)
        requires
            c == a + b,
            a > 0,
            u > 0,
    ;
    lemma_exact_settled(a, 1, s);
}

/// A whole amount is written as it is, with noughts behind the point.
pub proof fn whole_amounts_are_written_exactly(n: nat)
    requires
        n < TWO_53,
    ensures
        Double::whole(n).digits(0) == dec(n),
        Double::whole(n).digits(1) == dec(n) + ".0"@,
        Double::whole(n).digits(2) == dec(n) + ".00"@,
{
    reveal_strlit(".");
    reveal_strlit(".0");
    reveal_strlit(".00");
    lemma_written(n, 0);
    lemma_written(n, 1);
    lemma_written(n, 2);
    assert(dec(0) == seq!['0']);
    assert(n * 1 == n);
    assert(n * 10 / 10 == n && (n * 10) % 10 == 0);
    assert(n * 100 / 100 == n && (n * 100) % 100 == 0);
    assert(dec(n) + "."@ + dec(0) =~= dec(n) + ".0"@);
    assert(dec(n) + "."@ + two_digits(0) =~= dec(n) + ".00"@);
}

proof fn lemma_written(n: nat, k: nat)
    requires
        n < TWO_53,
    ensures
        Double::whole(n).digits(k) == with_point(n * ten_to(k), k),
{
    if n == 0 {
        lemma_nearest_zero(1);
        assert(Double::whole(0) == Double::zero());
        let b = Double::zero().size();
        assert(b == (Binary { m: 0, s: 1074 }));
        lemma_two_to_positive(1074);
        let d = two_to(1074);
        assert(0 * ten_to(k) == 0);
        assert(0nat / d == 0 && 0nat % d == 0) by (nonlinear_arith)
            requires
                d > 0,
        ;
        assert(half_even(0, d) == 0);
    } else {
        lemma_whole(n);
        lemma_written_size(n, k);
    }
}

proof fn lemma_written_size(n: nat, k: nat)
    requires
        0 < n < TWO_53,
    ensures
        fraction_digits(
            Binary { m: n * two_to(places(n)), s: places(n) as int },
            k,
        ) == with_point(n * ten_to(k), k),
{
    let p = two_to(places(n));
    let t = ten_to(k);
    lemma_two_to_positive(places(n));
    assert((n * p) * t == (n * t) * p) by (nonlinear_arith);
    lemma_half_even_scaled(n * t, 1, p);
    assert(1 * p == p);
    assert(half_even(n * t, 1) == n * t);
}

/// A whole number of dollars that divides evenly by the time is exactly that many dollars
/// an hour.
pub proof fn rates_are_by_the_hour(dollars: nat, seconds: u64, least: u64, rate: nat)
    requires
        seconds > least,
        dollars > 0,
        rate > 0,
        dollars * 3600 == rate * seconds,
        dollars * 3600 < TWO_53,
        seconds < TWO_53,
    ensures
        burn_rate(Double::whole(dollars), Some(seconds), least) == Some(Double::whole(rate)),
{
    products_and_quotients_are_exact(dollars, 3600);
    products_and_quotients_are_exact(rate, seconds as nat);
}

/// A context with as much in it as it holds is full.
pub proof fn a_full_context_is_at_a_hundred(cw: ContextWindow, n: u64)
    requires
        cw.used_percentage is None,
        cw.total_input_tokens == Some(n),
        cw.context_window_size == Some(n),
        0 < n < TWO_53,
    ensures
        payload_percentage(cw) == Some(Double::whole(100)),
{
    assert(1 * n as nat == n);
    products_and_quotients_are_exact(1, n as nat);
    products_and_quotients_are_exact(1, 100);
}

/// A rate is counted up to its unit: by the minute it is sixty times as large, by the hour
/// three thousand six hundred times; from a thousand on it is written in thousands.
pub proof fn rates_are_counted_up_to_their_unit(n: nat, k: nat)
    requires
        0 < n,
        n * 3600 < TWO_53,
        0 < k < 1000,
    ensures
        rate_in_unit(Double::whole(n), "second"@) == rate_digits(Double::whole(n)),
        rate_in_unit(Double::whole(n), "minute"@) == rate_digits(Double::whole(n * 60)),
        rate_in_unit(Double::whole(n), "hour"@) == rate_digits(Double::whole(n * 3600)),
        rate_digits(Double::whole(k)) == dec(k) + ".0"@,
        rate_digits(Double::whole(k * 1000)) == dec(k) + ".0"@ + "K"@,
{
    reveal_strlit("second");
    reveal_strlit("minute");
    reveal_strlit("hour");
    assert("second"@.len() == 6 && "minute"@.len() == 6 && "hour"@.len() == 4);
    assert("second"@[0] == 's' && "minute"@[0] == 'm');
    assert(n * 1 == n);
    products_and_quotients_are_exact(n, 1);
    products_and_quotients_are_exact(n, 60);
    products_and_quotients_are_exact(n, 3600);
    products_and_quotients_are_exact(k, 1000);
    whole_numbers_are_in_order(1000, k);
    whole_numbers_are_in_order(1000, k * 1000);
    whole_amounts_are_written_exactly(k);
}

/// Where all that was taken in was the agents', their share is a hundred percent, and where
/// none of it was, nothing.
pub proof fn shares_are_the_agents(s: AgentsSummary, t: nat)
    requires
        s.agent_files > 0,
        t > 0,
        t * 100 < TWO_53,
    ensures
        s.agents.traffic() == t && s.main.traffic() == 0 ==> agents_piece(s) == Some(
            "🤖"@ + dec(s.agent_files as nat) + (" "@ + dec(100) + "%"@),
        ),
        s.agents.traffic() == 0 && s.main.traffic() == t ==> agents_piece(s) == Some(
            "🤖"@ + dec(s.agent_files as nat) + (" "@ + dec(0) + "%"@),
        ),
{
    lemma_exact(100, t, 0);
    assert(two_to(0) == 1);
    assert(100 * t * 1 == t * 100);
    assert(share_fraction(t, t) == nearest(100 * t * 1, t));
    lemma_places(100);
    lemma_written_size(100, 0);
    assert(100 * 1 == 100nat);
    lemma_nearest_zero(t);
    assert(share_fraction(0, t) == nearest(0, t));
    assert(fraction_digits(Binary { m: 0, s: 0 }, 0) == dec(0)) by {
        assert(0 * 1 == 0);
        assert(half_even(0, 1) == 0);
    }
}

/// The share of agents in what was taken in is a hundred percent where it was all theirs,
/// and nothing where none was, with one place.
pub proof fn shares_in_the_list_are_the_agents(n: int)
    requires
        0 < n,
        n * 100 < TWO_53,
    ensures
        share_digits(n, 0) == dec(100) + ".0"@,
        share_digits(0, n) == dec(0) + ".0"@,
{
    reveal_strlit(".");
    reveal_strlit(".0");
    let t = n as nat;
    lemma_exact(100, t, 0);
    assert(two_to(0) == 1);
    assert(100 * t * 1 == n * 100);
    lemma_places(100);
    lemma_written_size(100, 1);
    assert(100nat * 10 == 1000);
    assert(dec(0) == seq!['0']);
    assert(with_point(1000, 1) =~= dec(100) + ".0"@);
    lemma_nearest_zero(t);
    assert(0 * 100 == 0);
    assert(fraction_digits(Binary { m: 0, s: 0 }, 1) =~= dec(0) + ".0"@) by {
        assert(0 * 10 == 0nat);
        assert(half_even(0, 1) == 0);
    }
}

} // verus!
