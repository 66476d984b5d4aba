//! Decimal text for unsigned and signed integers, as `str::parse` and
//! `to_string` read and write it.
use vstd::prelude::*;

use crate::text::push_char;

verus! {

/// An ASCII digit `0`..=`9`.
pub open spec fn is_ascii_digit(c: char) -> bool {
    48 <= (c as u32) && (c as u32) <= 57
}

/// The value of an ASCII digit.
pub open spec fn digit_value(c: char) -> int {
    (c as u32) - 48
}

/// The ASCII digit of a value below ten.
pub open spec fn digit_char(d: nat) -> char {
    (d + 48) as char
}

/// Every character is an ASCII digit.
pub open spec fn all_ascii_digits(s: Seq<char>) -> bool {
    forall|i: int| 0 <= i < s.len() ==> is_ascii_digit(#[trigger] s[i])
}

/// The number that a string of digits writes, most significant digit first.
pub open spec fn digits_value(s: Seq<char>) -> int
    decreases s.len(),
{
    if s.len() == 0 {
        0
    } else {
        digits_value(s.drop_last()) * 10 + digit_value(s.last())
    }
}

/// What follows one leading `+`, if there is one.
pub open spec fn without_plus(s: Seq<char>) -> Seq<char> {
    if s.len() > 0 && s[0] == '+' {
        s.drop_first()
    } else {
        s
    }
}

/// How `str::parse::<u64>` reads a string: an optional `+`, then one or more
/// ASCII digits whose value fits in a `u64`.
pub open spec fn parse_u64_spec(s: Seq<char>) -> Option<u64> {
    let d = without_plus(s);
    if d.len() > 0 && all_ascii_digits(d) && digits_value(d) <= u64::MAX {
        Some(digits_value(d) as u64)
    } else {
        None
    }
}

/// How `str::parse::<i64>` reads a string: an optional `+` or `-`, then one or
/// more ASCII digits, the signed value fitting in an `i64`.
pub open spec fn parse_i64_spec(s: Seq<char>) -> Option<i64> {
    if s.len() > 0 && s[0] == '-' {
        let d = s.drop_first();
        if d.len() > 0 && all_ascii_digits(d) && digits_value(d) <= 0x8000_0000_0000_0000 {
            Some((0 - digits_value(d)) as i64)
        } else {
            None
        }
    } else {
        let d = without_plus(s);
        if d.len() > 0 && all_ascii_digits(d) && digits_value(d) <= i64::MAX {
            Some(digits_value(d) as i64)
        } else {
            None
        }
    }
}

/// The decimal text of a number, without leading zeros (`"0"` for zero).
pub open spec fn decimal_text(n: nat) -> Seq<char>
    decreases n,
{
    if n < 10 {
        seq![digit_char(n)]
    } else {
        decimal_text(n / 10).push(digit_char(n % 10))
    }
}

/// A digit string's value lies between zero and the value of any string it
/// is a prefix of.
pub proof fn lemma_digits_prefix(s: Seq<char>, k: int)
    requires
        all_ascii_digits(s),
        0 <= k <= s.len(),
    ensures
        0 <= digits_value(s.take(k)) <= digits_value(s),
    decreases s.len(),
{
    if k == s.len() {
        assert(s.take(k) =~= s);
        if s.len() > 0 {
            lemma_digits_prefix(s.drop_last(), k - 1);
            assert(s.drop_last().take(k - 1) =~= s.drop_last());
        }
    } else {
        lemma_digits_prefix(s.drop_last(), k);
        assert(s.drop_last().take(k) =~= s.take(k));
        lemma_digits_prefix(s.drop_last(), s.len() - 1);
        assert(s.drop_last().take(s.len() - 1) =~= s.drop_last());
    }
}

/// The digit of a value below ten is an ASCII digit of that value.
pub proof fn lemma_digit_char(d: nat)
    requires
        d < 10,
    ensures
        is_ascii_digit(digit_char(d)),
        digit_value(digit_char(d)) == d,
{
    assert(((d + 48) as char) as u32 == d + 48);
}

/// Decimal text is a non-empty string of digits whose value is the number.
pub proof fn lemma_decimal_text(n: nat)
    ensures
        decimal_text(n).len() > 0,
        all_ascii_digits(decimal_text(n)),
        digits_value(decimal_text(n)) == n,
    decreases n,
{
    lemma_digit_char(n % 10);
    if n < 10 {
        let s = decimal_text(n);
        assert(s.drop_last() =~= Seq::<char>::empty());
        assert(s.last() == digit_char(n));
        assert(digits_value(Seq::<char>::empty()) == 0);
    } else {
        lemma_decimal_text(n / 10);
        let s = decimal_text(n);
        assert(s.drop_last() =~= decimal_text(n / 10));
        assert(s.last() == digit_char(n % 10));
        assert(n == (n / 10) * 10 + n % 10);
        assert(digits_value(s) == digits_value(decimal_text(n / 10)) * 10 + digit_value(s.last()));
    }
}

/// An ASCII digit is the digit of its value, and only `0` has the value zero.
proof fn lemma_digit_of_char(c: char)
    requires
        is_ascii_digit(c),
    ensures
        0 <= digit_value(c) < 10,
        digit_char(digit_value(c) as nat) == c,
        c != '0' ==> digit_value(c) >= 1,
{
    let d = digit_value(c);
    assert(((d + 48) as char) == c);
}

/// A canonical decimal numeral: `0`, or one or more ASCII digits of which the
/// first is not `0`.
pub open spec fn is_canonical_numeral(s: Seq<char>) -> bool {
    &&& s.len() > 0
    &&& all_ascii_digits(s)
    &&& (s.len() == 1 || s[0] != '0')
}

/// Writing the value of a canonical numeral gives the numeral back.
pub proof fn lemma_canonical_numeral(s: Seq<char>)
    requires
        is_canonical_numeral(s),
    ensures
        digits_value(s) >= 0,
        decimal_text(digits_value(s) as nat) == s,
    decreases s.len(),
{
    let c = s.last();
    assert(is_ascii_digit(c));
    let d = digit_value(c);
    lemma_digit_of_char(c);
    if s.len() == 1 {
        assert(s.drop_last() =~= Seq::<char>::empty());
        assert(digits_value(Seq::<char>::empty()) == 0);
        assert(digits_value(s) == d);
        assert(decimal_text(d as nat) =~= s);
    } else {
        let t = s.drop_last();
        assert(t[0] == s[0]);
        assert forall|i: int| 0 <= i < t.len() implies is_ascii_digit(#[trigger] t[i]) by {
            assert(t[i] == s[i]);
        }
        lemma_canonical_numeral(t);
        lemma_digits_prefix(t, 1);
        assert(t.take(1).drop_last() =~= Seq::<char>::empty());
        assert(digits_value(Seq::<char>::empty()) == 0);
        assert(t.take(1).last() == s[0]);
        assert(digits_value(t.take(1)) == digit_value(s[0]));
        lemma_digit_of_char(s[0]);
        let v = digits_value(s);
        assert(v == digits_value(t) * 10 + d);
        assert(v >= 10);
        assert(v / 10 == digits_value(t));
        assert(v % 10 == d);
        assert(decimal_text(v as nat) == decimal_text((v / 10) as nat).push(digit_char((v % 10) as nat)));
        assert(decimal_text(v as nat) =~= t.push(c));
        assert(t.push(c) =~= s);
    }
}

/// Reading back the decimal text of a `u64` gives the number.
pub proof fn lemma_parse_decimal_text(n: u64)
    ensures
        parse_u64_spec(decimal_text(n as nat)) == Some(n),
{
    lemma_decimal_text(n as nat);
    let s = decimal_text(n as nat);
    assert(is_ascii_digit(s[0]));
    assert(without_plus(s) == s);
}

/// Reads an unsigned number as `str::parse::<u64>` does.
pub fn parse_u64(s: &str) -> (res: Option<u64>)
    ensures
        res == parse_u64_spec(s@),
{
    let n = s.unicode_len();
    let mut start: usize = 0;
    if n > 0 && s.get_char(0) == '+' {
        start = 1;
    }
    let ghost d = without_plus(s@);
    assert(d =~= s@.subrange(start as int, n as int));
    if start >= n {
        return None;
    }
    let mut acc: u64 = 0;
    let mut i: usize = start;
    while i < n
        invariant
            n == s@.len(),
            start < n,
            start <= i <= n,
            d =~= s@.subrange(start as int, n as int),
            d == without_plus(s@),
            all_ascii_digits(s@.subrange(start as int, i as int)),
            acc == digits_value(s@.subrange(start as int, i as int)),
        decreases n - i,
    {
        let c = s.get_char(i);
        let ghost done = s@.subrange(start as int, i as int);
        let ghost next = s@.subrange(start as int, i + 1);
        assert(next.drop_last() =~= done);
        assert(next.last() == c);
        let cu = c as u32;
        if !(48 <= cu && cu <= 57) {
            assert(!is_ascii_digit(d[i - start]));
            return None;
        }
        let v: u64 = ((c as u32) - 48) as u64;
        assert(digits_value(next) == acc * 10 + v);
        let m = acc.checked_mul(10);
        match m {
            None => {
                proof {
                    if all_ascii_digits(d) {
                        lemma_digits_prefix(d, i + 1 - start);
                        assert(d.take(i + 1 - start) =~= next);
                    }
                }
                return None;
            },
            Some(m) => {
                let a = m.checked_add(v);
                match a {
                    None => {
                        proof {
                            if all_ascii_digits(d) {
                                lemma_digits_prefix(d, i + 1 - start);
                                assert(d.take(i + 1 - start) =~= next);
                            }
                        }
                        return None;
                    },
                    Some(a) => {
                        acc = a;
                    },
                }
            },
        }
        i = i + 1;
    }
    Some(acc)
}

/// Writes the decimal text of a number, as `u64::to_string` does.
pub fn format_u64(n: u64) -> (res: String)
    ensures
        res@ == decimal_text(n as nat),
    decreases n,
{
    if n < 10 {
        let mut s = String::new();
        let c = ((n as u8) + 48u8) as char;
        push_char(&mut s, c);
        s
    } else {
        let mut s = format_u64(n / 10);
        let c = (((n % 10) as u8) + 48u8) as char;
        push_char(&mut s, c);
        s
    }
}

} // verus!
