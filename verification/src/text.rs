//! Text as sequences of characters.
//!
//! The rest of the library states what it produces over `Seq<char>`; this module
//! holds the operations on strings that those statements are made of.

use vstd::prelude::*;
use vstd::string::*;

verus! {

/// Claims of `String::push` that it appends the one character.
pub assume_specification[ String::push ](s: &mut String, c: char)
    ensures
        final(s)@ == old(s)@.push(c),
;

/// The characters of each string of a list.
pub open spec fn views(v: Seq<String>) -> Seq<Seq<char>> {
    Seq::new(v.len(), |i: int| v[i]@)
}

/// The characters of an optional string.
pub open spec fn opt_view(v: Option<String>) -> Option<Seq<char>> {
    match v {
        Some(s) => Some(s@),
        None => None,
    }
}

/// The characters of an optional string slice.
pub open spec fn opt_str(v: Option<&str>) -> Option<Seq<char>> {
    match v {
        Some(s) => Some(s@),
        None => None,
    }
}

pub fn chars_of(s: &str) -> (r: Vec<char>)
    ensures
        r@ == s@,
{
    let mut out: Vec<char> = Vec::new();
    for c in it: s.chars()
        invariant
            it.seq() == s@,
            out@ == s@.take(it.index() as int),
    {
        proof {
            assert(s@.take(it.index() as int).push(c) =~= s@.take(it.index() + 1));
        }
        out.push(c);
    }
    proof {
        assert(s@.take(s@.len() as int) =~= s@);
    }
    out
}

pub fn text_of(chars: &Vec<char>, from: usize, to: usize) -> (r: String)
    requires
        from <= to <= chars@.len(),
    ensures
        r@ == chars@.subrange(from as int, to as int),
{
    let mut out = String::new();
    let mut i: usize = from;
    while i < to
        invariant
            from <= i <= to <= chars@.len(),
            out@ == chars@.subrange(from as int, i as int),
        decreases to - i,
    {
        proof {
            assert(chars@.subrange(from as int, i as int).push(chars@[i as int])
                =~= chars@.subrange(from as int, i + 1));
        }
        out.push(chars[i]);
        i += 1;
    }
    out
}

/// Whether two strings hold the same characters.
pub fn same(a: &str, b: &str) -> (r: bool)
    ensures
        r == (a@ == b@),
{
    let x = chars_of(a);
    let y = chars_of(b);
    if x.len() != y.len() {
        return false;
    }
    let mut i: usize = 0;
    while i < x.len()
        invariant
            i <= x@.len(),
            x@.len() == y@.len(),
            x@ == a@,
            y@ == b@,
            forall|j: int| 0 <= j < i ==> x@[j] == y@[j],
        decreases x@.len() - i,
    {
        if x[i] != y[i] {
            return false;
        }
        i += 1;
    }
    proof {
        assert(x@ =~= y@);
    }
    true
}

pub fn concat2(a: &str, b: &str) -> (r: String)
    ensures
        r@ == a@ + b@,
{
    let mut out = a.to_owned();
    out.append(b);
    out
}

pub fn concat3(a: &str, b: &str, c: &str) -> (r: String)
    ensures
        r@ == a@ + b@ + c@,
{
    let mut out = a.to_owned();
    out.append(b);
    out.append(c);
    out
}

pub fn concat4(a: &str, b: &str, c: &str, d: &str) -> (r: String)
    ensures
        r@ == a@ + b@ + c@ + d@,
{
    let mut out = a.to_owned();
    out.append(b);
    out.append(c);
    out.append(d);
    out
}

pub fn concat5(a: &str, b: &str, c: &str, d: &str, e: &str) -> (r: String)
    ensures
        r@ == a@ + b@ + c@ + d@ + e@,
{
    let mut out = a.to_owned();
    out.append(b);
    out.append(c);
    out.append(d);
    out.append(e);
    out
}

// ---------------------------------------------------------------------------
// Decimal numbers
// ---------------------------------------------------------------------------

/// The character of a decimal digit.
pub open spec fn digit_char(d: nat) -> char {
    (48 + d) as char
}

/// A natural number in decimal, without leading zeros.
pub open spec fn dec(n: nat) -> Seq<char>
    decreases n,
{
    if n < 10 {
        seq![digit_char(n)]
    } else {
        dec(n / 10).push(digit_char(n % 10))
    }
}

/// An integer in decimal, with a minus sign where it is negative.
pub open spec fn dec_int(n: int) -> Seq<char> {
    if n < 0 {
        seq!['-'] + dec((-n) as nat)
    } else {
        dec(n as nat)
    }
}

fn push_dec(out: &mut String, n: u128)
    ensures
        final(out)@ == old(out)@ + dec(n as nat),
    decreases n,
{
    if n >= 10 {
        push_dec(out, n / 10);
    }
    let d: u8 = (n % 10) as u8;
    let c: char = (48u8 + d) as char;
    out.push(c);
    proof {
        if n >= 10 {
            assert(old(out)@ + dec((n / 10) as nat).push(c) =~= (old(out)@ + dec((n / 10) as nat)).push(c));
        } else {
            assert(old(out)@ + seq![c] =~= old(out)@.push(c));
        }
    }
}

pub fn u128_text(n: u128) -> (r: String)
    ensures
        r@ == dec(n as nat),
{
    let mut out = String::new();
    push_dec(&mut out, n);
    proof {
        assert(Seq::<char>::empty() + dec(n as nat) =~= dec(n as nat));
    }
    out
}

pub fn u64_text(n: u64) -> (r: String)
    ensures
        r@ == dec(n as nat),
{
    u128_text(n as u128)
}

pub fn usize_text(n: usize) -> (r: String)
    ensures
        r@ == dec(n as nat),
{
    u128_text(n as u128)
}

pub fn i64_text(n: i64) -> (r: String)
    ensures
        r@ == dec_int(n as int),
{
    if n < 0 {
        let mut out = String::new();
        out.push('-');
        let m: u128 = (-(n as i128)) as u128;
        push_dec(&mut out, m);
        proof {
            assert(Seq::<char>::empty().push('-') =~= seq!['-']);
        }
        out
    } else {
        u128_text(n as u128)
    }
}

/// A whole number in decimal.
pub fn int_text(n: i128) -> (r: String)
    requires
        n > i128::MIN,
    ensures
        r@ == dec_int(n as int),
{
    if n < 0 {
        let mut out = String::new();
        out.push('-');
        proof {
            assert(out@ =~= seq!['-']);
        }
        concat2(out.as_str(), u128_text((-n) as u128).as_str())
    } else {
        u128_text(n as u128)
    }
}

/// A number below one hundred in two decimal digits.
pub open spec fn two_digits(n: nat) -> Seq<char> {
    if n < 10 {
        seq!['0'] + dec(n)
    } else {
        dec(n)
    }
}

pub fn two_digit_text(n: u64) -> (r: String)
    ensures
        r@ == two_digits(n as nat),
{
    if n < 10 {
        let mut out = String::new();
        out.push('0');
        push_dec(&mut out, n as u128);
        proof {
            assert(Seq::<char>::empty().push('0') =~= seq!['0']);
        }
        out
    } else {
        u64_text(n)
    }
}

pub open spec fn is_digit(c: char) -> bool {
    '0' <= c <= '9'
}

pub open spec fn all_digits(s: Seq<char>) -> bool {
    forall|i: int| 0 <= i < s.len() ==> is_digit(#[trigger] s[i])
}

/// The number that a sequence of digits stands for.
pub open spec fn digits_value(s: Seq<char>) -> nat
    decreases s.len(),
{
    if s.len() == 0 {
        0
    } else {
        digits_value(s.drop_last()) * 10 + (s.last() as nat - 48) as nat
    }
}

/// The value of a non-empty run of digits that fits in `u64`.
pub open spec fn parsed_digits(s: Seq<char>) -> Option<u64> {
    if s.len() > 0 && all_digits(s) && digits_value(s) <= u64::MAX {
        Some(digits_value(s) as u64)
    } else {
        None
    }
}

pub fn parse_digits(s: &str) -> (r: Option<u64>)
    ensures
        r == parsed_digits(s@),
{
    let c = chars_of(s);
    if c.len() == 0 {
        return None;
    }
    let mut v: u64 = 0;
    let mut i: usize = 0;
    let mut small = true;
    while i < c.len()
        invariant
            i <= c@.len(),
            all_digits(c@.take(i as int)),
            small ==> v == digits_value(c@.take(i as int)),
            !small ==> digits_value(c@.take(i as int)) > u64::MAX,
            c@ == s@,
        decreases c@.len() - i,
    {
        let d = c[i];
        proof {
            assert(c@.take(i + 1).drop_last() =~= c@.take(i as int));
        }
        if !(d >= '0' && d <= '9') {
            proof {
                assert(!is_digit(s@[i as int]));
            }
            return None;
        }
        proof {
            assert(all_digits(c@.take(i + 1))) by {
                assert forall|j: int| 0 <= j < i + 1 implies is_digit(#[trigger] c@.take(i + 1)[j]) by {
                    if j < i {
                        assert(c@.take(i + 1)[j] == c@.take(i as int)[j]);
                    }
                }
            }
        }
        let k: u64 = (d as u32 as u64) - 48;
        if small {
            match v.checked_mul(10) {
                Some(t) => match t.checked_add(k) {
                    Some(w) => {
                        v = w;
                    },
                    None => {
                        small = false;
                    },
                },
                None => {
                    small = false;
                },
            }
        }
        i += 1;
    }
    proof {
        assert(c@.take(c@.len() as int) =~= c@);
    }
    if small {
        Some(v)
    } else {
        None
    }
}

/// What reading a string as an unsigned number gives: an optional plus sign, then
/// digits.
pub open spec fn parsed_unsigned(s: Seq<char>) -> Option<u64> {
    if s.len() > 0 && s[0] == '+' {
        parsed_digits(s.skip(1))
    } else {
        parsed_digits(s)
    }
}

pub fn parse_unsigned(s: &str) -> (r: Option<u64>)
    ensures
        r == parsed_unsigned(s@),
{
    let c = chars_of(s);
    if c.len() > 0 && c[0] == '+' {
        let rest = text_of(&c, 1, c.len());
        proof {
            assert(s@.subrange(1, s@.len() as int) =~= s@.skip(1));
        }
        parse_digits(rest.as_str())
    } else {
        parse_digits(s)
    }
}

/// Reading back a number that was written in decimal gives the number.
pub proof fn decimal_reads_back(n: u64)
    ensures
        parsed_digits(dec(n as nat)) == Some(n),
{
    lemma_dec_digits(n as nat);
}

proof fn lemma_dec_digits(n: nat)
    ensures
        dec(n).len() > 0,
        all_digits(dec(n)),
        digits_value(dec(n)) == n,
    decreases n,
{
    if n >= 10 {
        lemma_dec_digits(n / 10);
        assert(dec(n).drop_last() =~= dec(n / 10));
        assert forall|i: int| 0 <= i < dec(n).len() implies is_digit(#[trigger] dec(n)[i]) by {
            if i < dec(n / 10).len() {
                assert(dec(n)[i] == dec(n / 10)[i]);
            }
        }
    } else {
        assert(dec(n).drop_last() =~= Seq::<char>::empty());
        assert(digits_value(dec(n).drop_last()) == 0);
    }
}

// ---------------------------------------------------------------------------
// Searching, trimming, folding case
// ---------------------------------------------------------------------------

/// Whether `p` stands in `s` at position `i`.
pub open spec fn stands_at(s: Seq<char>, p: Seq<char>, i: int) -> bool {
    0 <= i && i + p.len() <= s.len() && s.subrange(i, i + p.len()) == p
}

/// Whether `p` stands somewhere in `s`.
pub open spec fn has_part(s: Seq<char>, p: Seq<char>) -> bool {
    exists|i: int| stands_at(s, p, i)
}

/// Whether `s` begins with `p`.
pub open spec fn has_prefix(s: Seq<char>, p: Seq<char>) -> bool {
    p.len() <= s.len() && s.take(p.len() as int) == p
}

fn chars_stand_at(s: &Vec<char>, p: &Vec<char>, i: usize) -> (r: bool)
    ensures
        r == stands_at(s@, p@, i as int),
{
    if p.len() > s.len() || i > s.len() - p.len() {
        return false;
    }
    let n: usize = s.len();
    let mut j: usize = 0;
    while j < p.len()
        invariant
            j <= p@.len(),
            n == s@.len(),
            i + p@.len() <= n,
            forall|k: int| 0 <= k < j ==> s@[i + k] == p@[k],
        decreases p@.len() - j,
    {
        if s[i + j] != p[j] {
            proof {
                assert(s@.subrange(i as int, i + p@.len())[j as int] != p@[j as int]);
            }
            return false;
        }
        j += 1;
    }
    proof {
        assert(s@.subrange(i as int, i + p@.len()) =~= p@);
    }
    true
}

pub fn contains(s: &str, p: &str) -> (r: bool)
    ensures
        r == has_part(s@, p@),
{
    let c = chars_of(s);
    let q = chars_of(p);
    let mut i: usize = 0;
    while i < c.len()
        invariant
            i <= c@.len(),
            c@ == s@,
            q@ == p@,
            forall|k: int| 0 <= k < i ==> !stands_at(s@, p@, k),
        decreases c@.len() - i,
    {
        if chars_stand_at(&c, &q, i) {
            return true;
        }
        i += 1;
    }
    chars_stand_at(&c, &q, i)
}

pub fn starts_with(s: &str, p: &str) -> (r: bool)
    ensures
        r == has_prefix(s@, p@),
{
    let c = chars_of(s);
    let q = chars_of(p);
    proof {
        assert(p@.len() <= s@.len() ==> s@.take(p@.len() as int) =~= s@.subrange(0, p@.len() as int));
    }
    chars_stand_at(&c, &q, 0)
}

/// The characters that Unicode counts as white space.
pub open spec fn is_space(c: char) -> bool {
    let n = c as u32;
    ||| 9 <= n <= 13
    ||| n == 32
    ||| n == 0x85
    ||| n == 0xa0
    ||| n == 0x1680
    ||| 0x2000 <= n <= 0x200a
    ||| n == 0x2028
    ||| n == 0x2029
    ||| n == 0x202f
    ||| n == 0x205f
    ||| n == 0x3000
}

fn space_char(c: char) -> (r: bool)
    ensures
        r == is_space(c),
{
    let n: u32 = c as u32;
    (n >= 9 && n <= 13) || n == 32 || n == 0x85 || n == 0xa0 || n == 0x1680 || (n >= 0x2000 && n
        <= 0x200a) || n == 0x2028 || n == 0x2029 || n == 0x202f || n == 0x205f || n == 0x3000
}

pub open spec fn trimmed_start(s: Seq<char>) -> Seq<char>
    decreases s.len(),
{
    if s.len() > 0 && is_space(s[0]) {
        trimmed_start(s.skip(1))
    } else {
        s
    }
}

pub open spec fn trimmed_end(s: Seq<char>) -> Seq<char>
    decreases s.len(),
{
    if s.len() > 0 && is_space(s.last()) {
        trimmed_end(s.drop_last())
    } else {
        s
    }
}

/// `s` without the white space at its two ends.
pub open spec fn trimmed(s: Seq<char>) -> Seq<char> {
    trimmed_end(trimmed_start(s))
}

pub fn trim_start(s: &str) -> (r: String)
    ensures
        r@ == trimmed_start(s@),
{
    let c = chars_of(s);
    let mut i: usize = 0;
    proof {
        assert(s@.skip(0) =~= s@);
    }
    while i < c.len() && space_char(c[i])
        invariant
            i <= c@.len(),
            c@ == s@,
            trimmed_start(s@) == trimmed_start(s@.skip(i as int)),
        decreases c@.len() - i,
    {
        proof {
            assert(s@.skip(i as int).skip(1) =~= s@.skip(i + 1));
            assert(s@.skip(i as int)[0] == s@[i as int]);
        }
        i += 1;
    }
    proof {
        if i < s@.len() {
            assert(s@.skip(i as int)[0] == s@[i as int]);
        }
        assert(s@.subrange(i as int, s@.len() as int) =~= s@.skip(i as int));
    }
    text_of(&c, i, c.len())
}

pub fn trim(s: &str) -> (r: String)
    ensures
        r@ == trimmed(s@),
{
    let front = trim_start(s);
    let c = chars_of(front.as_str());
    let ghost t = front@;
    let mut n: usize = c.len();
    proof {
        assert(t.take(t.len() as int) =~= t);
    }
    while n > 0 && space_char(c[n - 1])
        invariant
            n <= c@.len(),
            c@ == t,
            trimmed_end(t) == trimmed_end(t.take(n as int)),
        decreases n,
    {
        proof {
            assert(t.take(n as int).last() == t[n - 1]);
            assert(t.take(n as int).drop_last() =~= t.take(n - 1));
        }
        n -= 1;
    }
    proof {
        if n > 0 {
            assert(t.take(n as int).last() == t[n - 1]);
        }
        assert(t.subrange(0, n as int) =~= t.take(n as int));
    }
    text_of(&c, 0, n)
}

/// An ASCII letter in lower case; any other character as it is.
pub open spec fn lower_char(c: char) -> char {
    if 'A' <= c <= 'Z' {
        (c as u32 + 32) as char
    } else {
        c
    }
}

/// `s` with its ASCII letters in lower case.
pub open spec fn lowered(s: Seq<char>) -> Seq<char> {
    s.map_values(|c: char| lower_char(c))
}

pub fn to_lower(s: &str) -> (r: String)
    ensures
        r@ == lowered(s@),
{
    let c = chars_of(s);
    let mut out = String::new();
    let mut i: usize = 0;
    while i < c.len()
        invariant
            i <= c@.len(),
            c@ == s@,
            out@.len() == i,
            forall|k: int| 0 <= k < i ==> out@[k] == lower_char(s@[k]),
        decreases c@.len() - i,
    {
        let x = c[i];
        if x >= 'A' && x <= 'Z' {
            let b: u8 = x as u8;
            out.push((b + 32) as char);
        } else {
            out.push(x);
        }
        i += 1;
    }
    proof {
        assert(out@ =~= lowered(s@));
    }
    out
}

/// A text in lower case, as `str::to_lowercase` has it.
pub uninterp spec fn unicode_lower(s: Seq<char>) -> Seq<char>;

/// Calls `str::to_lowercase`. Claims that the outcome depends on the text alone, and that
/// in a text of ASCII characters only the letters from `A` to `Z` change, to their
/// counterparts; which other characters have a lower case is left to that function.
#[verifier::external_body]
pub(crate) fn to_lowercase(s: &str) -> (r: String)
    ensures
        r@ == unicode_lower(s@),
        (forall|i: int| 0 <= i < s@.len() ==> (#[trigger] s@[i] as u32) < 128) ==> r@ == lowered(s@),
{
    s.to_lowercase()
}

/// Bytes that a character takes in UTF-8.
pub open spec fn utf8_len(c: char) -> nat {
    let n = c as u32;
    if n < 0x80 {
        1
    } else if n < 0x800 {
        2
    } else if n < 0x10000 {
        3
    } else {
        4
    }
}

/// Bytes that a text takes in UTF-8.
pub open spec fn byte_count(s: Seq<char>) -> nat
    decreases s.len(),
{
    if s.len() == 0 {
        0
    } else {
        byte_count(s.drop_last()) + utf8_len(s.last())
    }
}

pub fn char_bytes(c: char) -> (r: u64)
    ensures
        r == utf8_len(c),
        r <= 4,
{
    let n: u32 = c as u32;
    if n < 0x80 {
        1
    } else if n < 0x800 {
        2
    } else if n < 0x10000 {
        3
    } else {
        4
    }
}

pub fn count_bytes(s: &str) -> (r: u128)
    ensures
        r == byte_count(s@),
{
    let c = chars_of(s);
    let mut n: u128 = 0;
    let mut i: usize = 0;
    while i < c.len()
        invariant
            i <= c@.len(),
            c@ == s@,
            n == byte_count(s@.take(i as int)),
            n <= 4 * i,
        decreases c@.len() - i,
    {
        proof {
            assert(s@.take(i + 1).drop_last() =~= s@.take(i as int));
        }
        n = n + char_bytes(c[i]) as u128;
        i += 1;
    }
    proof {
        assert(s@.take(s@.len() as int) =~= s@);
    }
    n
}

/// The longest prefix of `s` that takes at most `n` bytes.
pub open spec fn byte_head(s: Seq<char>, n: nat) -> Seq<char>
    decreases s.len(),
{
    if byte_count(s) <= n || s.len() == 0 {
        s
    } else {
        byte_head(s.drop_last(), n)
    }
}

proof fn lemma_byte_head_step(s: Seq<char>, n: nat, k: int)
    requires
        0 <= k < s.len(),
        byte_count(s.take(k)) <= n,
        byte_count(s.take(k + 1)) > n,
    ensures
        byte_head(s, n) == s.take(k),
    decreases s.len(),
{
    lemma_byte_count_grows(s, k + 1);
    if s.len() == k + 1 {
        assert(s.drop_last() =~= s.take(k));
        assert(s.take(k + 1) =~= s);
        assert(byte_head(s.take(k), n) == s.take(k));
    } else {
        assert(s.drop_last().take(k) =~= s.take(k));
        assert(s.drop_last().take(k + 1) =~= s.take(k + 1));
        lemma_byte_head_step(s.drop_last(), n, k);
    }
}

proof fn lemma_byte_count_grows(s: Seq<char>, k: int)
    requires
        0 <= k <= s.len(),
    ensures
        byte_count(s.take(k)) <= byte_count(s),
    decreases s.len(),
{
    if k < s.len() {
        assert(s.drop_last().take(k) =~= s.take(k));
        lemma_byte_count_grows(s.drop_last(), k);
    } else {
        assert(s.take(k) =~= s);
    }
}

/// The longest prefix of `s` that takes at most `n` bytes.
pub fn take_bytes(s: &str, n: u64) -> (r: String)
    requires
        n < 1_000_000,
    ensures
        r@ == byte_head(s@, n as nat),
{
    let c = chars_of(s);
    let mut used: u64 = 0;
    let mut i: usize = 0;
    while i < c.len()
        invariant
            i <= c@.len(),
            c@ == s@,
            n < 1_000_000,
            used == byte_count(s@.take(i as int)),
            used <= n,
        decreases c@.len() - i,
    {
        let b: u64 = char_bytes(c[i]);
        proof {
            assert(s@.take(i + 1).drop_last() =~= s@.take(i as int));
        }
        if used + b > n {
            proof {
                lemma_byte_head_step(s@, n as nat, i as int);
                assert(s@.subrange(0, i as int) =~= s@.take(i as int));
            }
            return text_of(&c, 0, i);
        }
        used = used + b;
        i += 1;
    }
    proof {
        assert(s@.take(s@.len() as int) =~= s@);
    }
    s.to_owned()
}

// ---------------------------------------------------------------------------
// Lines and lists
// ---------------------------------------------------------------------------

/// `parts` in order, with `sep` between neighbours.
pub open spec fn joined(parts: Seq<Seq<char>>, sep: Seq<char>) -> Seq<char>
    decreases parts.len(),
{
    if parts.len() == 0 {
        Seq::empty()
    } else if parts.len() == 1 {
        parts[0]
    } else {
        joined(parts.drop_last(), sep) + sep + parts.last()
    }
}

pub fn join(parts: &Vec<String>, sep: &str) -> (r: String)
    ensures
        r@ == joined(views(parts@), sep@),
{
    let mut out = String::new();
    let mut i: usize = 0;
    while i < parts.len()
        invariant
            i <= parts@.len(),
            out@ == joined(views(parts@).take(i as int), sep@),
        decreases parts@.len() - i,
    {
        proof {
            let v = views(parts@);
            assert(v.take(i + 1).drop_last() =~= v.take(i as int));
            assert(v.take(i + 1).last() == parts@[i as int]@);
            if i == 0 {
                assert(v.take(0) =~= Seq::<Seq<char>>::empty());
                assert(Seq::<char>::empty() + parts@[0]@ =~= parts@[0]@);
            }
        }
        if i > 0 {
            out.append(sep);
        }
        out.append(parts[i].as_str());
        i += 1;
    }
    proof {
        assert(views(parts@).take(parts@.len() as int) =~= views(parts@));
    }
    out
}

/// Two optional texts with `sep` between them where both are there.
pub open spec fn joined_opt(a: Option<Seq<char>>, sep: Seq<char>, b: Option<Seq<char>>) -> Option<
    Seq<char>,
> {
    match (a, b) {
        (Some(x), Some(y)) => Some(x + sep + y),
        (Some(x), None) => Some(x),
        (None, y) => y,
    }
}

pub fn join_opt(a: Option<String>, sep: &str, b: Option<String>) -> (r: Option<String>)
    ensures
        opt_view(r) == joined_opt(opt_view(a), sep@, opt_view(b)),
{
    match a {
        Some(x) => match b {
            Some(y) => Some(concat3(x.as_str(), sep, y.as_str())),
            None => Some(x),
        },
        None => b,
    }
}

/// A text, unless it is empty.
pub open spec fn non_empty(s: Seq<char>) -> Option<Seq<char>> {
    if s.len() > 0 {
        Some(s)
    } else {
        None
    }
}

pub fn if_not_empty(s: &str) -> (r: Option<String>)
    ensures
        opt_view(r) == non_empty(s@),
{
    if s.is_empty() {
        None
    } else {
        Some(s.to_owned())
    }
}

/// A line without a carriage return at its end.
pub open spec fn without_cr(s: Seq<char>) -> Seq<char> {
    if s.len() > 0 && s.last() == '\r' {
        s.drop_last()
    } else {
        s
    }
}

/// The position of the first line feed at or after `i`, or the length of `s`.
pub open spec fn next_newline(s: Seq<char>, i: int) -> int
    decreases s.len() - i,
{
    if i >= s.len() || i < 0 {
        s.len() as int
    } else if s[i] == '\n' {
        i
    } else {
        next_newline(s, i + 1)
    }
}

/// The lines of `s` from position `i` on. A line ends at a line feed, which may
/// follow a carriage return; the last line needs no ending.
pub open spec fn lines_from(s: Seq<char>, i: int) -> Seq<Seq<char>>
    decreases s.len() - i,
    via lines_from_decreases
{
    if i >= s.len() || i < 0 {
        Seq::empty()
    } else {
        let e = next_newline(s, i);
        if e >= s.len() {
            seq![s.subrange(i, s.len() as int)]
        } else {
            seq![without_cr(s.subrange(i, e))] + lines_from(s, e + 1)
        }
    }
}

#[via_fn]
proof fn lines_from_decreases(s: Seq<char>, i: int) {
    lemma_next_newline(s, i);
}

proof fn lemma_next_newline(s: Seq<char>, i: int)
    ensures
        0 <= i <= s.len() ==> i <= next_newline(s, i) <= s.len(),
        0 <= i && next_newline(s, i) < s.len() ==> s[next_newline(s, i)] == '\n',
        forall|k: int| 0 <= i <= k < next_newline(s, i) && k < s.len() ==> s[k] != '\n',
    decreases s.len() - i,
{
    if 0 <= i < s.len() && s[i] != '\n' {
        lemma_next_newline(s, i + 1);
    }
}

/// The lines of `s`.
pub open spec fn lines_of(s: Seq<char>) -> Seq<Seq<char>> {
    lines_from(s, 0)
}

pub fn lines(s: &str) -> (r: Vec<String>)
    ensures
        views(r@) == lines_of(s@),
{
    let c = chars_of(s);
    let mut out: Vec<String> = Vec::new();
    let mut i: usize = 0;
    proof {
        assert(views(out@) + lines_from(s@, 0) =~= lines_of(s@));
    }
    while i < c.len()
        invariant
            i <= c@.len(),
            c@ == s@,
            views(out@) + lines_from(s@, i as int) == lines_of(s@),
        decreases c@.len() - i,
    {
        let mut e: usize = i;
        while e < c.len() && c[e] != '\n'
            invariant
                i <= e <= c@.len(),
                c@ == s@,
                next_newline(s@, i as int) == next_newline(s@, e as int),
            decreases c@.len() - e,
        {
            e += 1;
        }
        let ghost before = out@;
        if e == c.len() {
            let line = text_of(&c, i, e);
            proof {
                assert(lines_from(s@, i as int) =~= seq![line@]);
                assert(views(before.push(line)) =~= views(before) + seq![line@]);
                assert(lines_from(s@, e as int) =~= Seq::<Seq<char>>::empty());
                assert(views(before.push(line)) + Seq::<Seq<char>>::empty() =~= views(before.push(line)));
            }
            out.push(line);
            i = e;
        } else {
            let n: usize = if e > i && c[e - 1] == '\r' {
                e - 1
            } else {
                e
            };
            let line = text_of(&c, i, n);
            proof {
                let whole = s@.subrange(i as int, e as int);
                if e > i {
                    assert(whole.last() == s@[e - 1]);
                }
                if n < e {
                    assert(whole.drop_last() =~= s@.subrange(i as int, n as int));
                }
                assert(without_cr(whole) == line@);
                assert(lines_from(s@, i as int) == seq![line@] + lines_from(s@, e + 1));
                assert(views(before.push(line)) + lines_from(s@, e + 1) =~= views(before) + (seq![line@]
                    + lines_from(s@, e + 1)));
            }
            out.push(line);
            i = e + 1;
        }
    }
    proof {
        assert(lines_from(s@, i as int) =~= Seq::<Seq<char>>::empty());
        assert(views(out@) + Seq::<Seq<char>>::empty() =~= views(out@));
    }
    out
}

// ---------------------------------------------------------------------------
// Columns
// ---------------------------------------------------------------------------

/// `n` copies of one character.
pub open spec fn run(c: char, n: nat) -> Seq<char> {
    Seq::new(n, |i: int| c)
}

pub fn repeat(c: char, n: usize) -> (r: String)
    ensures
        r@ == run(c, n as nat),
{
    let mut out = String::new();
    let mut i: usize = 0;
    while i < n
        invariant
            i <= n,
            out@ == run(c, i as nat),
        decreases n - i,
    {
        proof {
            assert(run(c, i as nat).push(c) =~= run(c, (i + 1) as nat));
        }
        out.push(c);
        i += 1;
    }
    out
}

pub open spec fn gap(s: Seq<char>, width: nat) -> Seq<char> {
    if s.len() < width {
        run(' ', (width - s.len()) as nat)
    } else {
        Seq::empty()
    }
}

/// `s` at the left of a column of the given width.
pub open spec fn left(s: Seq<char>, width: nat) -> Seq<char> {
    s + gap(s, width)
}

/// `s` at the right of a column of the given width.
pub open spec fn right(s: Seq<char>, width: nat) -> Seq<char> {
    gap(s, width) + s
}

fn gap_text(s: &str, width: usize) -> (r: String)
    ensures
        r@ == gap(s@, width as nat),
{
    let n: usize = s.unicode_len();
    if n < width {
        repeat(' ', width - n)
    } else {
        String::new()
    }
}

pub fn pad_left(s: &str, width: usize) -> (r: String)
    ensures
        r@ == left(s@, width as nat),
{
    concat2(s, gap_text(s, width).as_str())
}

pub fn pad_right(s: &str, width: usize) -> (r: String)
    ensures
        r@ == right(s@, width as nat),
{
    concat2(gap_text(s, width).as_str(), s)
}

/// The first `n` characters of `s`, or all of it.
pub open spec fn head(s: Seq<char>, n: nat) -> Seq<char> {
    if s.len() <= n {
        s
    } else {
        s.take(n as int)
    }
}

pub fn take(s: &str, n: usize) -> (r: String)
    ensures
        r@ == head(s@, n as nat),
{
    let c = chars_of(s);
    let m: usize = if c.len() <= n {
        c.len()
    } else {
        n
    };
    proof {
        assert(s@.subrange(0, m as int) =~= head(s@, n as nat));
    }
    text_of(&c, 0, m)
}

/// Whether one text comes before another, character by character.
pub open spec fn comes_before(a: Seq<char>, b: Seq<char>) -> bool
    decreases a.len(),
{
    if b.len() == 0 {
        false
    } else if a.len() == 0 {
        true
    } else if a[0] != b[0] {
        a[0] < b[0]
    } else {
        comes_before(a.skip(1), b.skip(1))
    }
}

/// Whether one text comes before another, character by character.
pub fn is_before(a: &str, b: &str) -> (r: bool)
    ensures
        r == comes_before(a@, b@),
{
    let x = chars_of(a);
    let y = chars_of(b);
    let n: usize = x.len();
    let m: usize = y.len();
    let mut i: usize = 0;
    proof {
        assert(x@.skip(0) =~= x@);
        assert(y@.skip(0) =~= y@);
    }
    while i < n && i < m && x[i] == y[i]
        invariant
            n == x@.len(),
            m == y@.len(),
            i <= n,
            i <= m,
            comes_before(x@, y@) == comes_before(x@.skip(i as int), y@.skip(i as int)),
        decreases n - i,
    {
        proof {
            assert(x@.skip(i as int).skip(1) =~= x@.skip(i + 1));
            assert(y@.skip(i as int).skip(1) =~= y@.skip(i + 1));
        }
        i += 1;
    }
    if i >= m {
        false
    } else if i >= n {
        true
    } else {
        x[i] < y[i]
    }
}

/// The order of texts is total: of two different texts one comes before the other, never
/// both.
pub proof fn one_comes_first(a: Seq<char>, b: Seq<char>)
    ensures
        comes_before(a, b) ==> !comes_before(b, a),
        !comes_before(a, b) && !comes_before(b, a) ==> a == b,
    decreases a.len(),
{
    if a.len() > 0 && b.len() > 0 && a[0] == b[0] {
        one_comes_first(a.skip(1), b.skip(1));
        if a.skip(1) == b.skip(1) {
            assert(a =~= seq![a[0]] + a.skip(1));
            assert(b =~= seq![b[0]] + b.skip(1));
        }
    } else if a.len() == 0 && b.len() == 0 {
        assert(a =~= b);
    }
}

/// What comes before a text comes before all that comes after it.
pub proof fn order_carries_over(a: Seq<char>, b: Seq<char>, c: Seq<char>)
    requires
        comes_before(a, b),
        comes_before(b, c),
    ensures
        comes_before(a, c),
    decreases a.len(),
{
    if a.len() > 0 && a[0] == b[0] && b[0] == c[0] {
        order_carries_over(a.skip(1), b.skip(1), c.skip(1));
    }
}

/// A text put into its place in an ordered list, behind those that it does not come before.
pub open spec fn put_in_order(list: Seq<Seq<char>>, s: Seq<char>) -> Seq<Seq<char>>
    decreases list.len(),
{
    if list.len() > 0 && comes_before(s, list.last()) {
        put_in_order(list.drop_last(), s).push(list.last())
    } else {
        list.push(s)
    }
}

/// Texts in order.
pub open spec fn in_order(list: Seq<Seq<char>>) -> Seq<Seq<char>>
    decreases list.len(),
{
    if list.len() == 0 {
        Seq::empty()
    } else {
        put_in_order(in_order(list.drop_last()), list.last())
    }
}

proof fn lemma_put_in_order_at(list: Seq<Seq<char>>, s: Seq<char>, k: int)
    requires
        0 <= k <= list.len(),
        forall|i: int| k <= i < list.len() ==> comes_before(s, #[trigger] list[i]),
        k == 0 || !comes_before(s, list[k - 1]),
    ensures
        put_in_order(list, s) == list.take(k) + seq![s] + list.skip(k),
    decreases list.len(),
{
    if list.len() == k {
        assert(list.take(k) =~= list);
        assert(list.push(s) =~= list.take(k) + seq![s] + list.skip(k));
    } else {
        let rest = list.drop_last();
        assert(comes_before(s, list[list.len() - 1]));
        lemma_put_in_order_at(rest, s, k);
        assert(rest.take(k) =~= list.take(k));
        assert(put_in_order(list, s) =~= list.take(k) + seq![s] + list.skip(k));
    }
}

/// Copies of texts, in order.
pub fn ordered(list: &Vec<String>) -> (r: Vec<String>)
    ensures
        views(r@) == in_order(views(list@)),
{
    let n: usize = list.len();
    let mut out: Vec<String> = Vec::new();
    let mut i: usize = 0;
    let ghost all = views(list@);
    proof {
        assert(all.take(0) =~= Seq::<Seq<char>>::empty());
        assert(views(out@) =~= Seq::<Seq<char>>::empty());
    }
    while i < n
        invariant
            n == list@.len(),
            all == views(list@),
            i <= n,
            out@.len() == i,
            views(out@) == in_order(all.take(i as int)),
        decreases n - i,
    {
        let s = list[i].clone();
        let mut k: usize = i;
        while k > 0 && is_before(s.as_str(), out[k - 1].as_str())
            invariant
                k <= i,
                i == out@.len(),
                forall|j: int| k <= j < i ==> comes_before(s@, #[trigger] views(out@)[j]),
            decreases k,
        {
            proof {
                assert(views(out@)[k - 1] == out@[k - 1]@);
            }
            k -= 1;
        }
        let ghost before = views(out@);
        let ghost out0 = out@;
        proof {
            if k > 0 {
                assert(views(out@)[k - 1] == out@[k - 1]@);
            }
            lemma_put_in_order_at(before, s@, k as int);
        }
        out.insert(k, s);
        proof {
            assert(views(out@) =~= before.take(k as int) + seq![s@] + before.skip(k as int));
            assert(all.take(i + 1).drop_last() =~= all.take(i as int));
        }
        i += 1;
    }
    proof {
        assert(all.take(n as int) =~= all);
    }
    out
}

proof fn lemma_put_in_order(list: Seq<Seq<char>>, s: Seq<char>)
    requires
        forall|i: int, j: int|
            0 <= i < j < list.len() ==> !comes_before(#[trigger] list[j], #[trigger] list[i]),
    ensures
        ({
            let r = put_in_order(list, s);
            &&& r.len() == list.len() + 1
            &&& r.to_multiset() == list.to_multiset().insert(s)
            &&& forall|i: int, j: int|
                0 <= i < j < r.len() ==> !comes_before(#[trigger] r[j], #[trigger] r[i])
            &&& r.last() == s || (list.len() > 0 && r.last() == list.last())
        }),
    decreases list.len(),
{
    broadcast use vstd::seq_lib::group_to_multiset_ensures;

    let r = put_in_order(list, s);
    if list.len() > 0 && comes_before(s, list.last()) {
        let rest = list.drop_last();
        lemma_put_in_order(rest, s);
        let q = put_in_order(rest, s);
        assert(list =~= rest.push(list.last()));
        assert(r.to_multiset() =~= list.to_multiset().insert(s));
        assert forall|i: int, j: int| 0 <= i < j < r.len() implies !comes_before(
            #[trigger] r[j],
            #[trigger] r[i],
        ) by {
            if j < q.len() {
                assert(q[j] == r[j] && q[i] == r[i]);
            } else {
                // The last text comes behind `s` and behind all of the others.
                assert(q.to_multiset().contains(q[i])) by {
                    assert(q.contains(q[i]));
                }
                if q[i] == s {
                    one_comes_first(s, list.last());
                } else {
                    assert(rest.to_multiset().contains(q[i]));
                    assert(rest.contains(q[i]));
                    let k = choose|k: int| 0 <= k < rest.len() && rest[k] == q[i];
                    assert(list[k] == q[i]);
                    assert(!comes_before(list[list.len() - 1], list[k]));
                }
            }
        }
    } else {
        assert forall|i: int, j: int| 0 <= i < j < r.len() implies !comes_before(
            #[trigger] r[j],
            #[trigger] r[i],
        ) by {
            if j == list.len() {
                let last = list.len() - 1;
                assert(!comes_before(s, list[last]));
                if comes_before(s, list[i]) && i < last {
                    one_comes_first(s, list[last]);
                    assert(!comes_before(list[last], list[i]));
                    if s != list[last] {
                        order_carries_over(list[last], s, list[i]);
                    }
                }
            }
        }
    }
}

/// Putting texts in order keeps them all, each as often as it was there, and none comes
/// before one that stands ahead of it.
pub proof fn order_keeps_all(list: Seq<Seq<char>>)
    ensures
        in_order(list).len() == list.len(),
        in_order(list).to_multiset() == list.to_multiset(),
        forall|i: int, j: int|
            0 <= i < j < list.len() ==> !comes_before(
                #[trigger] in_order(list)[j],
                #[trigger] in_order(list)[i],
            ),
    decreases list.len(),
{
    broadcast use vstd::seq_lib::group_to_multiset_ensures;

    if list.len() > 0 {
        order_keeps_all(list.drop_last());
        lemma_put_in_order(in_order(list.drop_last()), list.last());
        assert(list =~= list.drop_last().push(list.last()));
        assert(in_order(list).to_multiset() =~= list.to_multiset());
    } else {
        assert(in_order(list) =~= list);
    }
}

} // verus!
