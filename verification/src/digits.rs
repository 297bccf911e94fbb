//! Decimal digits of numbers that no machine integer holds.

use crate::ratio::two_to;
use crate::text::{dec, digit_char};
use vstd::prelude::*;

verus! {

/// What digits say after `n`, the first digit first.
pub open spec fn read_on(n: nat, s: Seq<u8>) -> nat
    decreases s.len(),
{
    if s.len() == 0 {
        n
    } else {
        read_on(10 * n + s[0] as nat, s.skip(1))
    }
}

/// What digits say.
pub open spec fn number(s: Seq<u8>) -> nat {
    read_on(0, s)
}

/// Digits as a number is written: each below ten, and no zero in front of others.
pub open spec fn is_written(s: Seq<u8>) -> bool {
    &&& s.len() > 0
    &&& s.len() > 1 ==> s[0] > 0
    &&& forall|i: int| 0 <= i < s.len() ==> #[trigger] s[i] < 10
}

proof fn lemma_one_more(n: nat, s: Seq<u8>, d: u8)
    ensures
        read_on(n, s.push(d)) == 10 * read_on(n, s) + d,
    decreases s.len(),
{
    if s.len() == 0 {
        assert(s.push(d).skip(1) =~= Seq::<u8>::empty());
        assert(read_on(10 * n + d as nat, Seq::<u8>::empty()) == 10 * n + d);
    } else {
        assert(s.push(d).skip(1) =~= s.skip(1).push(d));
        lemma_one_more(10 * n + s[0] as nat, s.skip(1), d);
    }
}

proof fn lemma_one_before(n: nat, d: u8, s: Seq<u8>)
    ensures
        read_on(n, seq![d] + s) == read_on(10 * n + d as nat, s),
{
    assert((seq![d] + s).skip(1) =~= s);
}

proof fn lemma_not_zero(s: Seq<u8>)
    requires
        s.len() > 0,
        s[0] > 0,
    ensures
        number(s) > 0,
    decreases s.len(),
{
    if s.len() == 1 {
        assert(s.skip(1) =~= Seq::<u8>::empty());
        assert(read_on(s[0] as nat, Seq::<u8>::empty()) == s[0]);
    } else {
        assert(s =~= s.drop_last().push(s.last()));
        lemma_one_more(0, s.drop_last(), s.last());
        lemma_not_zero(s.drop_last());
    }
}

fn digits_of(n: u64) -> (r: Vec<u8>)
    ensures
        number(r@) == n,
        is_written(r@),
        n > 0 ==> r@[0] > 0,
    decreases n,
{
    if n < 10 {
        let mut v: Vec<u8> = Vec::new();
        v.push(n as u8);
        proof {
            assert(v@.skip(1) =~= Seq::<u8>::empty());
            assert(read_on(n as nat, Seq::<u8>::empty()) == n);
        }
        v
    } else {
        let mut v = digits_of(n / 10);
        proof {
            lemma_one_more(0, v@, (n % 10) as u8);
        }
        v.push((n % 10) as u8);
        v
    }
}

/// Twice the number.
fn doubled(v: &Vec<u8>) -> (r: Vec<u8>)
    requires
        is_written(v@),
        v@[0] > 0,
    ensures
        number(r@) == 2 * number(v@),
        is_written(r@),
        r@[0] > 0,
{
    let n: usize = v.len();
    let mut out: Vec<u8> = Vec::new();
    let mut i: usize = 0;
    while i < n
        invariant
            n == v@.len(),
            i <= n,
            out@.len() == i,
            forall|j: int| 0 <= j < i ==> out@[j] == 0,
        decreases n - i,
    {
        out.push(0);
        i += 1;
    }
    let mut carry: u8 = 0;
    proof {
        assert(v@.take(n as int) =~= v@);
        assert(out@.skip(n as int) =~= Seq::<u8>::empty());
        assert(read_on(2 * number(v@), Seq::<u8>::empty()) == 2 * number(v@));
    }
    while i > 0
        invariant
            n == v@.len(),
            i <= n,
            n > 0,
            out@.len() == n,
            carry <= 1,
            is_written(v@),
            v@[0] > 0,
            forall|j: int| i <= j < n ==> #[trigger] out@[j] < 10,
            i == 0 ==> out@[0] > 0 || carry > 0,
            read_on(2 * number(v@.take(i as int)) + carry as nat, out@.skip(i as int)) == 2
                * number(v@),
        decreases i,
    {
        let ghost before = out@;
        let ghost taken = carry;
        i -= 1;
        let d: u8 = v[i];
        let t: u8 = 2 * d + carry;
        out.set(i, t % 10);
        carry = t / 10;
        proof {
            let x = v@.take(i as int);
            assert(v@.take(i as int + 1) =~= x.push(d));
            lemma_one_more(0, x, d);
            assert(out@.skip(i as int) =~= seq![(t % 10) as u8] + before.skip(i as int + 1));
            lemma_one_before(
                2 * number(x) + carry as nat,
                (t % 10) as u8,
                before.skip(i as int + 1),
            );
            assert(10 * (2 * number(x) + carry as nat) + (t % 10) as nat == 2 * (10 * number(x) + d)
                + taken);
        }
    }
    proof {
        assert(v@.take(0) =~= Seq::<u8>::empty());
        assert(number(Seq::<u8>::empty()) == 0);
        assert(out@.skip(0) =~= out@);
    }
    if carry > 0 {
        let mut r: Vec<u8> = Vec::new();
        r.push(carry);
        let mut j: usize = 0;
        while j < n
            invariant
                n == out@.len(),
                j <= n,
                carry <= 1,
                0 < carry,
                r@ =~= seq![carry] + out@.take(j as int),
            decreases n - j,
        {
            r.push(out[j]);
            j += 1;
        }
        proof {
            assert(out@.take(n as int) =~= out@);
            lemma_one_before(0, carry, out@);
        }
        r
    } else {
        out
    }
}

fn written(v: &Vec<u8>) -> (r: String)
    requires
        is_written(v@),
    ensures
        r@ == dec(number(v@)),
{
    let n: usize = v.len();
    let mut out = String::new();
    let mut i: usize = 0;
    while i < n
        invariant
            n == v@.len(),
            i <= n,
            is_written(v@),
            i == 0 ==> out@.len() == 0,
            i > 0 ==> out@ == dec(number(v@.take(i as int))),
        decreases n - i,
    {
        let d: u8 = v[i];
        out.push((48u8 + d) as char);
        proof {
            let x = v@.take(i as int);
            assert(v@.take(i as int + 1) =~= x.push(d));
            lemma_one_more(0, x, d);
            if i == 0 {
                assert(x =~= Seq::<u8>::empty());
                assert(number(x) == 0);
                assert(out@ =~= seq![digit_char(d as nat)]);
            } else {
                lemma_not_zero(x);
                assert((10 * number(x) + d) / 10 == number(x));
                assert((10 * number(x) + d) % 10 == d);
            }
        }
        i += 1;
    }
    proof {
        assert(v@.take(n as int) =~= v@);
    }
    out
}

/// `m` times two to the power of `k`, in decimal.
pub fn power_text(m: u64, k: u32) -> (r: String)
    requires
        m > 0,
    ensures
        r@ == dec(m as nat * two_to(k as nat)),
{
    let mut v = digits_of(m);
    let mut i: u32 = 0;
    proof {
        assert(m as nat * 1 == m);
    }
    while i < k
        invariant
            i <= k,
            is_written(v@),
            v@[0] > 0,
            number(v@) == m as nat * two_to(i as nat),
        decreases k - i,
    {
        v = doubled(&v);
        i += 1;
        proof {
            let h = two_to((i - 1) as nat);
            assert(m as nat * (2 * h) == 2 * (m as nat * h)) by (nonlinear_arith);
        }
    }
    written(&v)
}

} // verus!
