//! Decimal integer parsing and printing.
//!
//! `parse_i64` follows the grammar of Rust's `i64::from_str`: an optional
//! leading `+` or `-`, then one or more ASCII digits, and the value must fit
//! in an `i64`.  `i64_to_string` renders a value the way `i64`'s `Display`
//! does.  Both are proved against the spec functions below, and
//! `lemma_parse_dec_str` shows that printing then parsing gives the value
//! back.

use vstd::prelude::*;

verus! {

/// An ASCII decimal digit.
pub open spec fn is_digit(c: char) -> bool {
    48 <= c as int && c as int <= 57
}

/// The numeric value of an ASCII digit.
pub open spec fn digit_val(c: char) -> int {
    c as int - 48
}

/// The ASCII digit with value `d` (meaningful for `0 <= d <= 9`).
pub open spec fn digit_char(d: int) -> char {
    if d == 0 {
        '0'
    } else if d == 1 {
        '1'
    } else if d == 2 {
        '2'
    } else if d == 3 {
        '3'
    } else if d == 4 {
        '4'
    } else if d == 5 {
        '5'
    } else if d == 6 {
        '6'
    } else if d == 7 {
        '7'
    } else if d == 8 {
        '8'
    } else {
        '9'
    }
}

pub open spec fn all_digits(s: Seq<char>) -> bool {
    forall|i: int| 0 <= i < s.len() ==> is_digit(#[trigger] s[i])
}

/// The value of a digit string, read most significant digit first.
pub open spec fn digits_val(s: Seq<char>) -> int
    decreases s.len(),
{
    if s.len() == 0 {
        0
    } else {
        digits_val(s.drop_last()) * 10 + digit_val(s.last())
    }
}

/// The digit part of an integer literal: everything after a leading sign.
pub open spec fn int_body(s: Seq<char>) -> Seq<char> {
    if s.len() > 0 && (s[0] == '+' || s[0] == '-') {
        s.skip(1)
    } else {
        s
    }
}

/// Whether `s` is an optionally signed, non-empty run of ASCII digits.
pub open spec fn int_grammar_ok(s: Seq<char>) -> bool {
    int_body(s).len() > 0 && all_digits(int_body(s))
}

/// The mathematical value of a well-formed integer literal.
pub open spec fn int_value(s: Seq<char>) -> int {
    if s.len() > 0 && s[0] == '-' {
        -digits_val(int_body(s))
    } else {
        digits_val(int_body(s))
    }
}

/// What `s.parse::<i64>()` returns: the value when the grammar holds and the
/// value is representable, nothing otherwise.
pub open spec fn parse_i64_spec(s: Seq<char>) -> Option<int> {
    if int_grammar_ok(s) && -0x8000_0000_0000_0000 <= int_value(s) <= 0x7fff_ffff_ffff_ffff {
        Some(int_value(s))
    } else {
        None
    }
}

/// The decimal digits of a non-negative integer.
pub open spec fn dec_digits(n: nat) -> Seq<char>
    decreases n,
{
    if n < 10 {
        seq![digit_char(n as int)]
    } else {
        dec_digits(n / 10).push(digit_char((n % 10) as int))
    }
}

/// The decimal rendering of an integer, with a leading `-` when negative.
pub open spec fn dec_str(v: int) -> Seq<char> {
    if v < 0 {
        seq!['-'] + dec_digits((-v) as nat)
    } else {
        dec_digits(v as nat)
    }
}

pub open spec fn pow10(k: nat) -> int
    decreases k,
{
    if k == 0 {
        1
    } else {
        10 * pow10((k - 1) as nat)
    }
}

pub proof fn lemma_digits_val_nonneg(s: Seq<char>)
    requires
        all_digits(s),
    ensures
        digits_val(s) >= 0,
    decreases s.len(),
{
    if s.len() > 0 {
        assert(all_digits(s.drop_last()));
        lemma_digits_val_nonneg(s.drop_last());
    }
}

pub proof fn lemma_digits_val_bound(s: Seq<char>)
    requires
        all_digits(s),
    ensures
        0 <= digits_val(s) < pow10(s.len()),
    decreases s.len(),
{
    if s.len() == 0 {
    } else {
        assert(all_digits(s.drop_last()));
        lemma_digits_val_bound(s.drop_last());
        assert(digits_val(s) == digits_val(s.drop_last()) * 10 + digit_val(s.last()));
        assert(digits_val(s.drop_last()) * 10 <= (pow10(s.drop_last().len()) - 1) * 10);
    }
}

pub proof fn lemma_pow10_pos(k: nat)
    ensures
        pow10(k) >= 1,
    decreases k,
{
    if k > 0 {
        lemma_pow10_pos((k - 1) as nat);
    }
}

pub proof fn lemma_pow10_le(a: nat, b: nat)
    requires
        a <= b,
    ensures
        pow10(a) <= pow10(b),
    decreases b,
{
    if a < b {
        lemma_pow10_le(a, (b - 1) as nat);
        lemma_pow10_pos((b - 1) as nat);
    }
}

/// Appending further digits can only grow a non-negative digit value.
pub proof fn lemma_digits_val_prefix(s: Seq<char>, k: int)
    requires
        0 <= k <= s.len(),
        all_digits(s.take(k)),
        forall|i: int| k <= i < s.len() ==> is_digit(#[trigger] s[i]),
    ensures
        digits_val(s) >= digits_val(s.take(k)),
    decreases s.len() - k,
{
    if k == s.len() {
        assert(s.take(k) =~= s);
    } else {
        let t = s.drop_last();
        assert(forall|i: int| k <= i < t.len() ==> is_digit(#[trigger] t[i]));
        assert(t.take(k) =~= s.take(k));
        lemma_digits_val_prefix(t, k);
        lemma_digits_val_nonneg(s.take(k));
        assert(digits_val(s) == digits_val(t) * 10 + digit_val(s.last()));
    }
}

proof fn lemma_take_step(s: Seq<char>, i: int)
    requires
        0 <= i < s.len(),
    ensures
        digits_val(s.take(i + 1)) == digits_val(s.take(i)) * 10 + digit_val(s[i]),
{
    assert(s.take(i + 1).drop_last() =~= s.take(i));
    assert(s.take(i + 1).last() == s[i]);
}

/// Parses `s` exactly as `i64::from_str` does.
pub fn parse_i64(s: &str) -> (r: Option<i64>)
    ensures
        match r {
            Some(v) => parse_i64_spec(s@) == Some(v as int),
            None => parse_i64_spec(s@) is None,
        },
{
    let len = s.unicode_len();
    if len == 0 {
        return None;
    }
    let first = s.get_char(0);
    let negative = first == '-';
    let signed = negative || first == '+';
    let start: usize = if signed {
        1
    } else {
        0
    };
    if start == len {
        // A bare sign has an empty digit part.
        return None;
    }
    assert(int_body(s@) =~= s@.skip(start as int));
    let limit: u64 = if negative {
        9_223_372_036_854_775_808
    } else {
        9_223_372_036_854_775_807
    };
    let mut acc: u64 = 0;
    let mut i = start;
    while i < len
        invariant
            start <= i <= len,
            len == s@.len(),
            start == 1 ==> (s@[0] == '+' || s@[0] == '-'),
            start == 0 ==> !(s@[0] == '+' || s@[0] == '-'),
            negative <==> (s@[0] == '-'),
            limit == if negative { 9_223_372_036_854_775_808u64 } else {
                9_223_372_036_854_775_807u64
            },
            int_body(s@) == s@.skip(start as int),
            all_digits(s@.subrange(start as int, i as int)),
            acc as int == digits_val(s@.subrange(start as int, i as int)),
            acc <= limit,
        decreases len - i,
    {
        let c = s.get_char(i);
        let code = c as u32;
        if code < 48 || code > 57 {
            // `s` has a non-digit after the sign, so the grammar fails.
            assert(!is_digit(s@[i as int]));
            assert(!all_digits(int_body(s@))) by {
                assert(int_body(s@)[i - start as int] == s@[i as int]);
            }
            return None;
        }
        let d: u64 = (code - 48) as u64;
        assert(is_digit(s@[i as int]) && d as int == digit_val(s@[i as int]));
        if acc > (limit - d) / 10 {
            // The digits seen so far already exceed the representable range,
            // and further digits cannot shrink the value.
            proof {
                vstd::arithmetic::div_mod::lemma_fundamental_div_mod((limit - d) as int, 10);
                assert(acc as int * 10 + d as int > limit as int);
                let p = s@.subrange(start as int, (i + 1) as int);
                lemma_take_step(s@.skip(start as int), i - start as int);
                assert(s@.skip(start as int).take(i - start as int) =~= s@.subrange(
                    start as int,
                    i as int,
                ));
                assert(s@.skip(start as int).take(i + 1 - start as int) =~= p);
                assert(digits_val(p) == acc as int * 10 + d as int);
                if int_grammar_ok(s@) {
                    let body = s@.skip(start as int);
                    assert(all_digits(p)) by {
                        assert(forall|j: int|
                            0 <= j < p.len() ==> p[j] == #[trigger] s@[start as int + j]);
                    }
                    lemma_digits_val_prefix(body, i + 1 - start as int);
                    assert(digits_val(body) > limit as int);
                    if negative {
                        assert(int_value(s@) < -0x8000_0000_0000_0000);
                    } else {
                        assert(int_value(s@) > 0x7fff_ffff_ffff_ffff);
                    }
                }
            }
            return None;
        }
        proof {
            vstd::arithmetic::div_mod::lemma_fundamental_div_mod((limit - d) as int, 10);
            assert(acc as int * 10 + d as int <= limit as int);
            lemma_take_step(s@.skip(start as int), i - start as int);
            assert(s@.skip(start as int).take(i - start as int) =~= s@.subrange(
                start as int,
                i as int,
            ));
            assert(s@.skip(start as int).take(i + 1 - start as int) =~= s@.subrange(
                start as int,
                (i + 1) as int,
            ));
        }
        acc = acc * 10 + d;
        i = i + 1;
    }
    proof {
        assert(s@.subrange(start as int, len as int) =~= s@.skip(start as int));
        assert(int_grammar_ok(s@));
    }
    if negative {
        if acc == 9_223_372_036_854_775_808 {
            Some(i64::MIN)
        } else {
            Some(-(acc as i64))
        }
    } else {
        Some(acc as i64)
    }
}

/// Appends the single ASCII digit with value `d`.
fn push_digit(s: &mut String, d: u64)
    requires
        d < 10,
    ensures
        final(s)@ == old(s)@ + seq![digit_char(d as int)],
{
    proof {
        reveal_strlit("0");
        reveal_strlit("1");
        reveal_strlit("2");
        reveal_strlit("3");
        reveal_strlit("4");
        reveal_strlit("5");
        reveal_strlit("6");
        reveal_strlit("7");
        reveal_strlit("8");
        reveal_strlit("9");
    }
    if d == 0 {
        s.append("0");
    } else if d == 1 {
        s.append("1");
    } else if d == 2 {
        s.append("2");
    } else if d == 3 {
        s.append("3");
    } else if d == 4 {
        s.append("4");
    } else if d == 5 {
        s.append("5");
    } else if d == 6 {
        s.append("6");
    } else if d == 7 {
        s.append("7");
    } else if d == 8 {
        s.append("8");
    } else {
        s.append("9");
    }
    assert(final(s)@ =~= old(s)@ + seq![digit_char(d as int)]);
}

/// Appends the decimal digits of `n`, most significant first.
fn push_dec_digits(s: &mut String, n: u64)
    ensures
        final(s)@ == old(s)@ + dec_digits(n as nat),
    decreases n,
{
    if n < 10 {
        push_digit(s, n);
    } else {
        push_dec_digits(s, n / 10);
        push_digit(s, n % 10);
        assert(final(s)@ =~= old(s)@ + dec_digits(n as nat));
    }
}

/// Renders `v` the way `u64`'s `Display` does.
pub fn u64_to_string(v: u64) -> (r: String)
    ensures
        r@ == dec_digits(v as nat),
{
    let mut s = String::new();
    push_dec_digits(&mut s, v);
    assert(s@ =~= dec_digits(v as nat));
    s
}

/// Renders `v` the way `i64`'s `Display` does.
pub fn i64_to_string(v: i64) -> (r: String)
    ensures
        r@ == dec_str(v as int),
{
    let mut s = String::new();
    if v < 0 {
        proof {
            reveal_strlit("-");
        }
        s.append("-");
        let m: u64 = if v == i64::MIN {
            9_223_372_036_854_775_808
        } else {
            (-v) as u64
        };
        push_dec_digits(&mut s, m);
        assert(s@ =~= dec_str(v as int));
    } else {
        push_dec_digits(&mut s, v as u64);
    }
    s
}

proof fn lemma_dec_digits_are_digits(n: nat)
    ensures
        all_digits(dec_digits(n)),
        dec_digits(n).len() >= 1,
    decreases n,
{
    if n < 10 {
        assert(is_digit(digit_char(n as int)));
        assert(dec_digits(n)[0] == digit_char(n as int));
    } else {
        lemma_dec_digits_are_digits(n / 10);
        assert(is_digit(digit_char((n % 10) as int)));
        assert(forall|i: int|
            0 <= i < dec_digits(n).len() ==> is_digit(#[trigger] dec_digits(n)[i]));
    }
}

proof fn lemma_digits_val_dec_digits(n: nat)
    ensures
        digits_val(dec_digits(n)) == n,
    decreases n,
{
    if n < 10 {
        assert(dec_digits(n) == seq![digit_char(n as int)]);
        assert(dec_digits(n).drop_last() =~= Seq::<char>::empty());
        assert(dec_digits(n).last() == digit_char(n as int));
        assert(digit_val(digit_char(n as int)) == n);
        assert(digits_val(dec_digits(n)) == digits_val(Seq::<char>::empty()) * 10 + digit_val(
            digit_char(n as int),
        ));
    } else {
        lemma_digits_val_dec_digits(n / 10);
        assert(dec_digits(n).drop_last() =~= dec_digits(n / 10));
        assert(dec_digits(n).last() == digit_char((n % 10) as int));
        assert(digit_val(digit_char((n % 10) as int)) == n % 10);
        vstd::arithmetic::div_mod::lemma_fundamental_div_mod(n as int, 10);
        assert(digits_val(dec_digits(n)) == (n / 10) as int * 10 + (n % 10) as int);
        assert((n / 10) as int * 10 + (n % 10) as int == n as int);
    }
}

/// Printing an `i64` and parsing the result gives the value back.
pub proof fn lemma_parse_dec_str(v: int)
    requires
        -0x8000_0000_0000_0000 <= v <= 0x7fff_ffff_ffff_ffff,
    ensures
        parse_i64_spec(dec_str(v)) == Some(v),
{
    if v >= 0 {
        let s = dec_str(v);
        lemma_dec_digits_are_digits(v as nat);
        assert(is_digit(s[0]));
        assert(s[0] != '+' && s[0] != '-');
        assert(int_body(s) == s);
        lemma_digits_val_dec_digits(v as nat);
    } else {
        let s = dec_str(v);
        let m = (-v) as nat;
        lemma_dec_digits_are_digits(m);
        assert(s[0] == '-');
        assert(int_body(s) =~= dec_digits(m));
        lemma_digits_val_dec_digits(m);
        assert(int_value(s) == v);
    }
}

/// Concrete powers of ten up to the width of an `i64`.
pub proof fn lemma_pow10_i64()
    ensures
        pow10(10) == 10_000_000_000,
        pow10(13) == 10_000_000_000_000,
        pow10(16) == 10_000_000_000_000_000,
        pow10(19) == 10_000_000_000_000_000_000,
{
    assert(pow10(0) == 1);
    assert(pow10(1) == 10);
    assert(pow10(2) == 100);
    assert(pow10(3) == 1000);
    assert(pow10(4) == 10_000);
    assert(pow10(5) == 100_000);
    assert(pow10(6) == 1_000_000);
    assert(pow10(7) == 10_000_000);
    assert(pow10(8) == 100_000_000);
    assert(pow10(9) == 1_000_000_000);
    assert(pow10(10) == 10_000_000_000);
    assert(pow10(11) == 100_000_000_000);
    assert(pow10(12) == 1_000_000_000_000);
    assert(pow10(13) == 10_000_000_000_000);
    assert(pow10(14) == 100_000_000_000_000);
    assert(pow10(15) == 1_000_000_000_000_000);
    assert(pow10(16) == 10_000_000_000_000_000);
    assert(pow10(17) == 100_000_000_000_000_000);
    assert(pow10(18) == 1_000_000_000_000_000_000);
    assert(pow10(19) == 10_000_000_000_000_000_000);
}

/// A well-formed integer literal of `k` characters denotes a value strictly
/// between `-pow10(k)` and `pow10(k)`.
pub proof fn lemma_int_value_bound(s: Seq<char>)
    requires
        int_grammar_ok(s),
    ensures
        -pow10(s.len()) < int_value(s) < pow10(s.len()),
{
    lemma_digits_val_bound(int_body(s));
    lemma_pow10_le(int_body(s).len(), s.len());
}

} // verus!
