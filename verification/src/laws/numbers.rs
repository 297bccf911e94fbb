//! How numbers are written and rounded.

use crate::double::Double;
use crate::laws::words::is_free_of;
use crate::ratio::{
    fraction_digits, half_even, lemma_two_to_positive, ten_to, two_to, with_point, Binary,
};
use crate::text::{
    all_digits, dec, dec_int, digits_value, is_digit, parsed_digits, parsed_unsigned, two_digits,
};
use vstd::prelude::*;

verus! {

/// The number that decimal digits stand for.
pub open spec fn decimal_value(s: Seq<char>) -> int
    decreases s.len(),
{
    if s.len() == 0 {
        0
    } else {
        10 * decimal_value(s.drop_last()) + (s.last() as int - '0' as int)
    }
}

/// Whether a text is made of decimal digits, at least one.
pub open spec fn is_decimal(s: Seq<char>) -> bool {
    s.len() > 0 && forall|i: int| 0 <= i < s.len() ==> '0' <= #[trigger] s[i] <= '9'
}

/// A number is written with decimal digits that stand for it, without zeros in front.
pub proof fn numbers_are_written_in_decimal(n: nat)
    ensures
        is_decimal(dec(n)),
        decimal_value(dec(n)) == n,
        n > 0 ==> dec(n)[0] != '0',
        n == 0 ==> dec(n) == seq!['0'],
    decreases n,
{
    if n >= 10 {
        numbers_are_written_in_decimal(n / 10);
        assert(dec(n).drop_last() =~= dec(n / 10));
    } else {
        assert(dec(n).drop_last() =~= Seq::empty());
        assert(decimal_value(Seq::empty()) == 0);
    }
}

/// A number below zero is written with a minus and what it is without; no other has one.
pub proof fn only_numbers_below_zero_have_a_minus(n: int)
    ensures
        n >= 0 ==> is_decimal(dec_int(n)) && decimal_value(dec_int(n)) == n,
        n < 0 ==> dec_int(n)[0] == '-' && is_decimal(dec_int(n).skip(1)) && decimal_value(
            dec_int(n).skip(1),
        ) == -n,
{
    if n >= 0 {
        numbers_are_written_in_decimal(n as nat);
    } else {
        numbers_are_written_in_decimal((-n) as nat);
        assert(dec_int(n).skip(1) =~= dec((-n) as nat));
    }
}

/// A number below a hundred is written with two digits.
pub proof fn two_digits_are_two(n: nat)
    requires
        n < 100,
    ensures
        two_digits(n).len() == 2,
        is_decimal(two_digits(n)),
        decimal_value(two_digits(n)) == n,
{
    numbers_are_written_in_decimal(n);
    reveal_with_fuel(dec, 3);
    reveal_with_fuel(decimal_value, 4);
    if n < 10 {
        assert(two_digits(n) =~= seq!['0', crate::text::digit_char(n)]);
        assert(two_digits(n).drop_last() =~= seq!['0']);
        assert(seq!['0'].drop_last() =~= Seq::empty());
    } else {
        assert(dec(n / 10) =~= seq![crate::text::digit_char(n / 10)]);
    }
}

/// A number of tenths is written with its last digit behind a point, one of hundredths with
/// its last two, and a whole one without a point.
pub proof fn points_stand_before_the_last_digits(n: nat)
    ensures
        is_decimal(with_point(n, 0)) && decimal_value(with_point(n, 0)) == n,
        ({
            let s = with_point(n, 1);
            let k = s.len() - 2;
            &&& k > 0
            &&& s[k] == '.'
            &&& is_decimal(s.take(k)) && is_decimal(s.skip(k + 1))
            &&& 10 * decimal_value(s.take(k)) + decimal_value(s.skip(k + 1)) == n
        }),
        ({
            let s = with_point(n, 2);
            let k = s.len() - 3;
            &&& k > 0
            &&& s[k] == '.'
            &&& is_decimal(s.take(k)) && is_decimal(s.skip(k + 1))
            &&& 100 * decimal_value(s.take(k)) + decimal_value(s.skip(k + 1)) == n
        }),
{
    reveal_strlit(".");
    numbers_are_written_in_decimal(n);
    numbers_are_written_in_decimal(n / 10);
    numbers_are_written_in_decimal(n % 10);
    numbers_are_written_in_decimal(n / 100);
    two_digits_are_two(n % 100);
    let one = with_point(n, 1);
    assert(dec(n % 10).len() == 1);
    assert(one.take(one.len() - 2) =~= dec(n / 10));
    assert(one.skip(one.len() - 1) =~= dec(n % 10));
    let two = with_point(n, 2);
    assert(two.take(two.len() - 3) =~= dec(n / 100));
    assert(two.skip(two.len() - 2) =~= two_digits(n % 100));
}

/// Amounts are written without a dollar sign of their own.
pub proof fn amounts_hold_no_dollar(a: Double, places: nat)
    ensures
        is_free_of(a.digits(places), '$'),
{
    reveal_strlit("NaN");
    reveal_strlit("inf");
    reveal_strlit("-");
    reveal_strlit(".");
    let n = half_even(a.size().top() * ten_to(places), a.size().bottom());
    numbers_are_written_in_decimal(n);
    numbers_are_written_in_decimal(n / 10);
    numbers_are_written_in_decimal(n % 10);
    numbers_are_written_in_decimal(n / 100);
    two_digits_are_two(n % 100);
}

/// A quotient is rounded to the nearest whole number: it is off by no more than a half,
/// and where two are as near, to the even one.
pub proof fn quotients_are_rounded_to_the_nearest(num: nat, den: nat)
    requires
        den > 0,
    ensures
        ({
            let q = half_even(num, den);
            &&& 2 * num <= (2 * q + 1) * den
            &&& (2 * q - 1) * den <= 2 * num
            &&& 2 * num == (2 * q + 1) * den || 2 * num == (2 * q - 1) * den ==> q % 2 == 0
        }),
{
    let q0 = num / den;
    let r = num % den;
    assert(num == q0 * den + r && r < den) by (nonlinear_arith)
        requires
            den > 0,
            q0 == num / den,
            r == num % den,
    ;
    let q = half_even(num, den);
    assert((2 * q0 + 1) * den == 2 * (q0 * den) + den) by (nonlinear_arith);
    assert((2 * q0 - 1) * den == 2 * (q0 * den) - den) by (nonlinear_arith);
    assert((2 * (q0 + 1) + 1) * den == 2 * (q0 * den) + 3 * den) by (nonlinear_arith);
    assert((2 * (q0 + 1) - 1) * den == 2 * (q0 * den) + den) by (nonlinear_arith);
}

/// A size is the number that it stands for, so many binary places behind the point; it is
/// rounded to the nearest whole number, upwards from the middle, and its whole part is what
/// stands before the point.
pub proof fn sizes_are_rounded_to_the_nearest(f: Binary)
    ensures
        f.s >= 0 ==> f.top() == f.m && f.bottom() == two_to(f.s as nat),
        f.s < 0 ==> f.top() == f.m * two_to((-f.s) as nat) && f.bottom() == 1,
        2 * (f.rounded() * f.bottom()) <= 2 * f.top() + f.bottom(),
        2 * f.top() < 2 * (f.rounded() * f.bottom()) + f.bottom(),
        f.floor() * f.bottom() <= f.top(),
        f.top() < f.floor() * f.bottom() + f.bottom(),
{
    lemma_two_to_positive(if f.s >= 0 {
        f.s as nat
    } else {
        0
    });
    let b = f.bottom();
    let t = f.top();
    let r = f.rounded();
    let w = f.floor();
    assert(b > 0);
    assert(2 * (r * b) <= 2 * t + b && 2 * t < 2 * (r * b) + b) by (nonlinear_arith)
        requires
            b > 0,
            r == (2 * t + b) / (2 * b),
    ;
    assert(w * b <= t && t < w * b + b) by (nonlinear_arith)
        requires
            b > 0,
            w == t / b,
    ;
}

/// An amount is written with as many places as are asked for, rounded to the nearest.
pub proof fn amounts_are_rounded_to_their_places(f: Binary)
    ensures
        fraction_digits(f, 0) == with_point(half_even(f.top(), f.bottom()), 0),
        fraction_digits(f, 1) == with_point(half_even(f.top() * 10, f.bottom()), 1),
        fraction_digits(f, 2) == with_point(half_even(f.top() * 100, f.bottom()), 2),
{
    assert(f.top() * 1 == f.top());
}

/// What is no number, or below zero, counts for nothing; what is too large counts as much as
/// there is room for.
pub proof fn what_counts(x: Double, most: nat)
    ensures
        x.is_nan() ==> x.rounded() == 0 && x.rounded_count() == 0 && x.whole_part(most) == 0,
        x.is_negative() ==> x.rounded_count() == 0 && x.whole_part(most) == 0,
        x.whole_part(most) <= most,
        x.rounded_count() <= u32::MAX,
        i64::MIN <= x.rounded() <= i64::MAX,
        x.is_finite() && !x.is_negative() && x.size().floor() <= most ==> x.whole_part(most)
            == x.size().floor(),
        x.is_finite() && !x.is_negative() && x.size().rounded() <= u32::MAX ==> x.rounded_count()
            == x.size().rounded(),
        x.is_finite() && !x.is_negative() && x.size().rounded() <= i64::MAX ==> x.rounded()
            == x.size().rounded(),
        x.is_finite() && x.is_negative() && x.size().rounded() <= i64::MAX ==> x.rounded()
            == -x.size().rounded(),
        x.is_infinite() && !x.is_negative() ==> x.whole_part(most) == most && x.rounded_count()
            == u32::MAX && x.rounded() == i64::MAX,
{
}

/// A number below zero is written with a minus in front of what it is without.
pub proof fn amounts_below_zero_have_a_minus(x: Double, places: nat)
    requires
        x.is_finite(),
        !x.is_negative(),
    ensures
        x.negated().digits(places) == "-"@ + x.digits(places),
        x.negated().negated() == x,
{
    assert(x.negated().is_negative() && x.negated().unsigned() == x.unsigned());
    assert(x.negated().size() == x.size());
}

/// A number that is written is read again, with a plus in front of it or without.
pub proof fn what_is_written_is_read(n: u64)
    ensures
        parsed_digits(dec(n as nat)) == Some(n),
        parsed_unsigned(dec(n as nat)) == Some(n),
        parsed_unsigned(seq!['+'] + dec(n as nat)) == Some(n),
{
    let s = dec(n as nat);
    numbers_are_written_in_decimal(n as nat);
    lemma_value_of_digits(s);
    assert((seq!['+'] + s).skip(1) =~= s);
    assert(s[0] != '+');
}

/// What is read is the number that the digits stand for; nothing, and what holds anything
/// but digits, is no number.
pub proof fn only_digits_are_read(s: Seq<char>, i: int)
    ensures
        parsed_digits(s) matches Some(n) ==> is_decimal(s) && decimal_value(s) == n,
        is_decimal(s) && decimal_value(s) <= u64::MAX ==> parsed_digits(s) is Some,
        is_decimal(s) && decimal_value(s) > u64::MAX ==> parsed_digits(s) is None,
        s.len() == 0 ==> parsed_digits(s) is None && parsed_unsigned(s) is None,
        0 <= i < s.len() && !('0' <= s[i] <= '9') ==> parsed_digits(s) is None,
        s.len() > 1 && s[0] == '+' && s[1] == '+' ==> parsed_unsigned(s) is None,
{
    if s.len() > 0 && all_digits(s) {
        assert(is_decimal(s)) by {
            assert forall|k: int| 0 <= k < s.len() implies '0' <= #[trigger] s[k] <= '9' by {
                assert(is_digit(s[k]));
            }
        }
        lemma_value_of_digits(s);
    }
    if is_decimal(s) {
        lemma_value_of_digits(s);
    }
    if 0 <= i < s.len() && !('0' <= s[i] <= '9') {
        assert(!is_digit(s[i]));
    }
    if s.len() > 1 && s[0] == '+' && s[1] == '+' {
        assert(!is_digit(s.skip(1)[0]));
    }
}

proof fn lemma_value_of_digits(s: Seq<char>)
    requires
        forall|k: int| 0 <= k < s.len() ==> '0' <= #[trigger] s[k] <= '9',
    ensures
        all_digits(s),
        digits_value(s) == decimal_value(s),
    decreases s.len(),
{
    if s.len() > 0 {
        assert forall|k: int| 0 <= k < s.drop_last().len() implies '0' <= #[trigger]
            s.drop_last()[k] <= '9' by {
            assert(s.drop_last()[k] == s[k]);
        }
        lemma_value_of_digits(s.drop_last());
    }
}

} // verus!
