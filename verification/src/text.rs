//! Small text utilities: decimal digit formatting and parsing, and a few
//! string helpers shared by the conversion pipeline.

use vstd::prelude::*;

verus! {

/// Relies on `String::push`: appends exactly one character to the string.
#[verifier::external_body]
pub fn push_char(s: &mut String, c: char)
    ensures
        final(s)@ == old(s)@.push(c),
{
    s.push(c);
}

/// String-view equality of two string slices.
pub fn str_eq(a: &str, b: &str) -> (r: bool)
    ensures
        r == (a@ == b@),
{
    let sa = a.to_owned();
    let sb = b.to_owned();
    sa == sb
}

/// Is `c` a decimal digit?
pub open spec fn is_digit(c: char) -> bool {
    '0' <= c && c <= '9'
}

/// The numeric value of a digit character.
pub open spec fn digit_val(c: char) -> int {
    c as int - '0' as int
}

/// Are all characters of `s` decimal digits?
pub open spec fn all_digits(s: Seq<char>) -> bool {
    forall|i: int| 0 <= i < s.len() ==> is_digit(#[trigger] s[i])
}

/// The value of a sequence of digit characters, read in base 10.
pub open spec fn digits_val(s: Seq<char>) -> int
    decreases s.len(),
{
    if s.len() == 0 {
        0
    } else {
        digits_val(s.drop_last()) * 10 + digit_val(s.last())
    }
}

/// The digit character for a value below ten.
pub open spec fn spec_digit_char(d: int) -> char {
    if d == 0 { '0' }
    else if d == 1 { '1' }
    else if d == 2 { '2' }
    else if d == 3 { '3' }
    else if d == 4 { '4' }
    else if d == 5 { '5' }
    else if d == 6 { '6' }
    else if d == 7 { '7' }
    else if d == 8 { '8' }
    else { '9' }
}

/// The digits of `n` in base 10, most significant first; empty for zero.
pub open spec fn spec_digits(n: nat) -> Seq<char>
    decreases n,
{
    if n == 0 {
        Seq::empty()
    } else {
        spec_digits(n / 10).push(spec_digit_char((n % 10) as int))
    }
}

/// The usual decimal rendering of `n`, with "0" for zero.
pub open spec fn spec_dec(n: nat) -> Seq<char> {
    if n == 0 {
        seq!['0']
    } else {
        spec_digits(n)
    }
}

/// Three-digit, zero padded decimal rendering of `n` (for `n < 1000`).
pub open spec fn spec_pad3(n: nat) -> Seq<char> {
    seq![
        spec_digit_char((n / 100 % 10) as int),
        spec_digit_char((n / 10 % 10) as int),
        spec_digit_char((n % 10) as int),
    ]
}

fn digit_char(d: u64) -> (c: char)
    requires
        d < 10,
    ensures
        c == spec_digit_char(d as int),
{
    match d {
        0 => '0',
        1 => '1',
        2 => '2',
        3 => '3',
        4 => '4',
        5 => '5',
        6 => '6',
        7 => '7',
        8 => '8',
        _ => '9',
    }
}

pub proof fn lemma_digits_val_nonneg(s: Seq<char>)
    requires
        all_digits(s),
    ensures
        digits_val(s) >= 0,
    decreases s.len(),
{
    if s.len() > 0 {
        assert(is_digit(s[s.len() - 1]));
        lemma_digits_val_nonneg(s.drop_last());
    }
}

/// A digit prefix never has a larger value than the whole digit string.
pub proof fn lemma_digits_val_take(s: Seq<char>, i: int)
    requires
        all_digits(s),
        0 <= i <= s.len(),
    ensures
        digits_val(s.take(i)) <= digits_val(s),
    decreases s.len(),
{
    if i == s.len() {
        assert(s.take(i) =~= s);
    } else {
        assert(all_digits(s.drop_last()));
        assert(s.drop_last().take(i) =~= s.take(i));
        lemma_digits_val_take(s.drop_last(), i);
        lemma_digits_val_nonneg(s.drop_last());
        assert(is_digit(s.last()));
        assert(digits_val(s) >= digits_val(s.drop_last()));
    }
}

/// Appending one digit multiplies the value by ten and adds the digit.
pub proof fn lemma_digits_val_step(s: Seq<char>, i: int)
    requires
        0 <= i < s.len(),
    ensures
        digits_val(s.take(i + 1)) == digits_val(s.take(i)) * 10 + digit_val(s[i]),
{
    assert(s.take(i + 1).drop_last() =~= s.take(i));
    assert(s.take(i + 1).last() == s[i]);
}

/// Ten to the power `k`.
pub open spec fn pow10(k: nat) -> int
    decreases k,
{
    if k == 0 {
        1
    } else {
        10 * pow10((k - 1) as nat)
    }
}

pub proof fn lemma_pow10_pos(k: nat)
    ensures
        pow10(k) >= 1,
    decreases k,
{
    if k > 0 {
        lemma_pow10_pos((k - 1) as nat);
    }
}

pub proof fn lemma_pow10_le(a: nat, b: nat)
    requires
        a <= b,
    ensures
        pow10(a) <= pow10(b),
    decreases b,
{
    if a < b {
        lemma_pow10_le(a, (b - 1) as nat);
        lemma_pow10_pos((b - 1) as nat);
    }
}

pub proof fn lemma_pow10_mul(a: nat, b: nat)
    ensures
        pow10(a) * pow10(b) == pow10(a + b),
    decreases b,
{
    if b == 0 {
        assert(pow10(a) * 1 == pow10(a));
    } else {
        lemma_pow10_mul(a, (b - 1) as nat);
        assert(pow10(a) * pow10(b) == pow10(a) * (10 * pow10((b - 1) as nat)));
        assert(pow10(a) * (10 * pow10((b - 1) as nat)) == 10 * (pow10(a) * pow10(
            (b - 1) as nat,
        ))) by (nonlinear_arith);
    }
}

/// A digit string of length `n` denotes a value below ten to the `n`.
pub proof fn lemma_digits_val_bound(s: Seq<char>)
    requires
        all_digits(s),
    ensures
        0 <= digits_val(s) < pow10(s.len()),
    decreases s.len(),
{
    if s.len() > 0 {
        assert(all_digits(s.drop_last()));
        lemma_digits_val_bound(s.drop_last());
        assert(is_digit(s.last()));
        let v = digits_val(s.drop_last());
        let p = pow10(s.drop_last().len());
        assert(v <= p - 1);
        assert(v * 10 <= (p - 1) * 10) by (nonlinear_arith)
            requires
                v <= p - 1,
        ;
        assert(digits_val(s) <= (p - 1) * 10 + 9);
    }
}

/// Concatenating digit strings scales the first value by the length of the
/// second.
pub proof fn lemma_digits_val_concat(x: Seq<char>, y: Seq<char>)
    ensures
        digits_val(x + y) == digits_val(x) * pow10(y.len()) + digits_val(y),
    decreases y.len(),
{
    if y.len() == 0 {
        assert(x + y =~= x);
        assert(digits_val(x) * 1 == digits_val(x));
    } else {
        let y0 = y.drop_last();
        assert((x + y).drop_last() =~= x + y0);
        lemma_digits_val_concat(x, y0);
        assert((x + y).last() == y.last());
        let a = digits_val(x);
        let p = pow10(y0.len());
        assert(digits_val(x + y) == (a * p + digits_val(y0)) * 10 + digit_val(y.last()));
        assert((a * p + digits_val(y0)) * 10 == a * (10 * p) + digits_val(y0) * 10)
            by (nonlinear_arith);
        assert(digits_val(y) == digits_val(y0) * 10 + digit_val(y.last()));
        assert(pow10(y.len()) == 10 * p);
    }
}

fn is_digit_char(c: char) -> (r: bool)
    ensures
        r == is_digit(c),
{
    '0' <= c && c <= '9'
}

/// Reads the base-10 value of a digit substring.
pub fn parse_digits_range(s: &str, from: usize, to: usize) -> (r: u16)
    requires
        from <= to && to <= s@.len(),
        all_digits(s@.subrange(from as int, to as int)),
        digits_val(s@.subrange(from as int, to as int)) <= u16::MAX,
    ensures
        r == digits_val(s@.subrange(from as int, to as int)),
{
    let ghost digs = s@.subrange(from as int, to as int);
    proof {
        lemma_digits_val_nonneg(digs);
    }
    let mut acc: u32 = 0;
    let mut i: usize = from;
    while i < to
        invariant
            from <= i <= to && to <= s@.len(),
            all_digits(digs),
            digits_val(digs) <= u16::MAX,
            digs == s@.subrange(from as int, to as int),
            acc == digits_val(digs.take(i - from)),
            acc <= u16::MAX,
        decreases to - i,
    {
        let c = s.get_char(i);
        proof {
            assert(digs[i - from] == s@[i as int]);
            assert(is_digit(digs[i - from]));
            lemma_digits_val_step(digs, i - from);
            lemma_digits_val_take(digs, i - from + 1);
            lemma_digits_val_nonneg(digs.take(i - from));
        }
        acc = acc * 10 + (c as u32 - 48);
        i = i + 1;
    }
    proof {
        assert(digs.take(to - from) =~= digs);
    }
    acc as u16
}

/// Reads the base-10 value of a digit substring of up to ten digits.
pub fn parse_digits_u64(s: &str, from: usize, to: usize) -> (r: u64)
    requires
        from <= to && to <= s@.len(),
        to - from <= 10,
        all_digits(s@.subrange(from as int, to as int)),
    ensures
        r == digits_val(s@.subrange(from as int, to as int)),
        r < pow10((to - from) as nat),
{
    let ghost digs = s@.subrange(from as int, to as int);
    let mut acc: u64 = 0;
    let mut i: usize = from;
    while i < to
        invariant
            from <= i <= to && to <= s@.len(),
            to - from <= 10,
            all_digits(digs),
            digs == s@.subrange(from as int, to as int),
            acc == digits_val(digs.take(i - from)),
            acc < pow10((i - from) as nat),
        decreases to - i,
    {
        let c = s.get_char(i);
        proof {
            assert(digs[i - from] == s@[i as int]);
            assert(is_digit(digs[i - from]));
            lemma_digits_val_step(digs, i - from);
            assert(all_digits(digs.take(i - from + 1)));
            lemma_digits_val_bound(digs.take(i - from + 1));
            lemma_pow10_le((i - from + 1) as nat, 10);
            assert(pow10(10) == 10000000000) by {
                assert(pow10(0) == 1);
                assert(pow10(1) == 10);
                assert(pow10(2) == 100);
                assert(pow10(3) == 1000);
                assert(pow10(4) == 10000);
                assert(pow10(5) == 100000);
                assert(pow10(6) == 1000000);
                assert(pow10(7) == 10000000);
                assert(pow10(8) == 100000000);
                assert(pow10(9) == 1000000000);
            }
        }
        acc = acc * 10 + (c as u32 - 48) as u64;
        i = i + 1;
    }
    proof {
        assert(digs.take(to - from) =~= digs);
    }
    acc
}

/// Ten to the power `k`, executably, for small `k`.
pub fn pow10_u64(k: u32) -> (r: u64)
    requires
        k <= 9,
    ensures
        r == pow10(k as nat),
{
    let mut r: u64 = 1;
    let mut j: u32 = 0;
    while j < k
        invariant
            j <= k <= 9,
            r == pow10(j as nat),
            r <= 1000000000,
        decreases k - j,
    {
        proof {
            lemma_pow10_le((j + 1) as nat, 9);
            assert(pow10(9) == 1000000000) by {
                assert(pow10(0) == 1);
                assert(pow10(1) == 10);
                assert(pow10(2) == 100);
                assert(pow10(3) == 1000);
                assert(pow10(4) == 10000);
                assert(pow10(5) == 100000);
                assert(pow10(6) == 1000000);
                assert(pow10(7) == 10000000);
                assert(pow10(8) == 100000000);
            }
        }
        r = r * 10;
        j = j + 1;
    }
    r
}

/// Tests whether a substring consists of digits only.
pub fn digits_range_check(s: &str, from: usize, to: usize) -> (b: bool)
    requires
        from <= to && to <= s@.len(),
    ensures
        b == all_digits(s@.subrange(from as int, to as int)),
{
    let ghost digs = s@.subrange(from as int, to as int);
    let mut i: usize = from;
    while i < to
        invariant
            from <= i <= to && to <= s@.len(),
            digs == s@.subrange(from as int, to as int),
            forall|j: int| 0 <= j < i - from ==> is_digit(#[trigger] digs[j]),
        decreases to - i,
    {
        let c = s.get_char(i);
        proof {
            assert(digs[i - from] == s@[i as int]);
        }
        if !is_digit_char(c) {
            proof {
                assert(!is_digit(digs[i - from]));
            }
            return false;
        }
        i = i + 1;
    }
    true
}

/// The value a digit-only string denotes, if it is one and fits in `u16`.
pub open spec fn spec_parse_u16(s: Seq<char>) -> Option<u16> {
    if s.len() > 0 && all_digits(s) && digits_val(s) <= u16::MAX {
        Some(digits_val(s) as u16)
    } else {
        None
    }
}

/// Reads a whole string as a base-10 `u16`, rejecting anything else.
pub fn parse_u16(s: &str) -> (r: Option<u16>)
    ensures
        r == spec_parse_u16(s@),
{
    let len = s.unicode_len();
    if len == 0 {
        return None;
    }
    let mut acc: u32 = 0;
    let mut i: usize = 0;
    while i < len
        invariant
            0 <= i <= len,
            len == s@.len(),
            all_digits(s@.take(i as int)),
            acc == digits_val(s@.take(i as int)),
            acc <= u16::MAX,
        decreases len - i,
    {
        let c = s.get_char(i);
        if !is_digit_char(c) {
            return None;
        }
        proof {
            lemma_digits_val_step(s@, i as int);
            assert(all_digits(s@.take(i + 1)));
        }
        let next: u64 = (acc as u64) * 10 + ((c as u32 - 48) as u64);
        if next > u16::MAX as u64 {
            proof {
                assert(digits_val(s@.take(i + 1)) > u16::MAX);
                if all_digits(s@) {
                    lemma_digits_val_take(s@, i + 1);
                }
            }
            return None;
        }
        acc = next as u32;
        i = i + 1;
    }
    proof {
        assert(s@.take(len as int) =~= s@);
    }
    Some(acc as u16)
}

/// Renders `n` in decimal.
pub fn u64_to_string(n: u64) -> (r: String)
    ensures
        r@ == spec_dec(n as nat),
{
    let mut m: u64 = n;
    let mut chars: Vec<char> = Vec::new();
    while m >= 10
        invariant
            spec_digits(n as nat) =~= spec_digits(m as nat) + chars@,
            n > 0 ==> m > 0,
        decreases m,
    {
        let d = digit_char(m % 10);
        let ghost prev = chars@;
        chars.insert(0, d);
        proof {
            assert(chars@ =~= seq![d] + prev);
            assert(spec_digits(m as nat) =~= spec_digits((m / 10) as nat) + seq![d]);
        }
        m = m / 10;
    }
    let d = digit_char(m);
    let ghost prev = chars@;
    chars.insert(0, d);
    proof {
        assert(chars@ =~= seq![d] + prev);
        if n == 0 {
            assert(m == 0);
            assert(prev =~= Seq::<char>::empty());
            assert(chars@ =~= seq!['0']);
        } else {
            assert(m > 0);
            assert(spec_digits(0) =~= Seq::<char>::empty());
            assert(spec_digits(m as nat) =~= seq![d]);
            assert(chars@ =~= spec_digits(n as nat));
        }
    }
    let mut r = String::new();
    let mut i: usize = 0;
    while i < chars.len()
        invariant
            i <= chars@.len(),
            r@ =~= chars@.subrange(0, i as int),
        decreases chars@.len() - i,
    {
        push_char(&mut r, chars[i]);
        i = i + 1;
        proof {
            assert(r@ =~= chars@.subrange(0, i as int));
        }
    }
    proof {
        assert(r@ =~= chars@);
    }
    r
}

/// Renders `n` as exactly three zero-padded decimal digits.
pub fn pad3_to_string(n: u64) -> (r: String)
    requires
        n < 1000,
    ensures
        r@ == spec_pad3(n as nat),
{
    let mut r = String::new();
    push_char(&mut r, digit_char(n / 100 % 10));
    push_char(&mut r, digit_char(n / 10 % 10));
    push_char(&mut r, digit_char(n % 10));
    proof {
        assert(r@ =~= spec_pad3(n as nat));
    }
    r
}

} // verus!
