//! Decimal numbers: writing them, and reading them with an upper bound.

use vstd::prelude::*;

use crate::text::to_chars;

verus! {

/// The scalar of one decimal digit.
pub open spec fn digit_char(d: nat) -> char {
    (48 + d) as u32 as char
}

/// `n` in decimal, without leading zeros.
pub open spec fn decimal(n: nat) -> Seq<char>
    decreases n,
{
    if n < 10 {
        seq![digit_char(n)]
    } else {
        decimal(n / 10).push(digit_char(n % 10))
    }
}

/// `n` in decimal, with a minus sign where it is negative.
pub open spec fn signed_decimal(n: int) -> Seq<char> {
    if n < 0 {
        seq!['-'] + decimal((-n) as nat)
    } else {
        decimal(n as nat)
    }
}

/// `n` in decimal, without leading zeros.
pub fn write_decimal(n: u64) -> (r: String)
    ensures
        r@ == decimal(n as nat),
    decreases n,
{
    if n < 10 {
        let mut s: String = String::new();
        s.push((48u8 + n as u8) as char);
        assert(s@ =~= decimal(n as nat));
        s
    } else {
        let mut s: String = write_decimal(n / 10);
        let d: u64 = n % 10;
        s.push((48u8 + d as u8) as char);
        s
    }
}

/// `n` in decimal, with a minus sign where it is negative.
pub fn write_signed(n: i64) -> (r: String)
    requires
        n > i64::MIN,
    ensures
        r@ == signed_decimal(n as int),
{
    if n < 0 {
        let mut s: String = String::new();
        s.push('-');
        let digits: String = write_decimal((-n) as u64);
        s.append(digits.as_str());
        assert(s@ =~= signed_decimal(n as int));
        s
    } else {
        write_decimal(n as u64)
    }
}

/// `c` is a decimal digit.
pub open spec fn is_digit(c: char) -> bool {
    '0' <= c && c <= '9'
}

/// The number that a sequence of decimal digits writes.
pub open spec fn decimal_value(s: Seq<char>) -> nat
    decreases s.len(),
{
    if s.len() == 0 {
        0
    } else {
        decimal_value(s.drop_last()) * 10 + (s.last() as u32 - 48) as nat
    }
}

/// `s` is not empty and holds decimal digits alone.
pub open spec fn all_digits(s: Seq<char>) -> bool {
    s.len() > 0 && forall|i: int| 0 <= i < s.len() ==> is_digit(#[trigger] s[i])
}

/// `s` without one leading plus sign that something follows.
pub open spec fn without_plus(s: Seq<char>) -> Seq<char> {
    if s.len() > 1 && s[0] == '+' {
        s.skip(1)
    } else {
        s
    }
}

/// The unsigned number that `s` writes in decimal, where it is at most `max`.
pub open spec fn parsed_decimal(s: Seq<char>, max: nat) -> Option<nat> {
    let digits: Seq<char> = without_plus(s);
    if all_digits(digits) && decimal_value(digits) <= max {
        Some(decimal_value(digits))
    } else {
        None
    }
}

proof fn decimal_value_grows(s: Seq<char>, i: int)
    requires
        0 <= i <= s.len(),
    ensures
        decimal_value(s.take(i)) <= decimal_value(s),
    decreases s.len() - i,
{
    if i == s.len() {
        assert(s.take(i) =~= s);
    } else {
        decimal_value_grows(s, i + 1);
        assert(s.take(i + 1).drop_last() =~= s.take(i));
    }
}

/// The unsigned number that `s` writes in decimal, where it is at most `max`.
pub fn parse_decimal(s: &str, max: u64) -> (r: Option<u64>)
    ensures
        match r {
            Some(v) => parsed_decimal(s@, max as nat) == Some(v as nat),
            None => parsed_decimal(s@, max as nat) is None,
        },
{
    let sc: Vec<char> = to_chars(s);
    let start: usize = if sc.len() > 1 && sc[0] == '+' {
        1
    } else {
        0
    };
    let ghost digits: Seq<char> = without_plus(s@);
    assert(digits =~= s@.skip(start as int));
    if start >= sc.len() {
        return None;
    }
    let mut v: u64 = 0;
    let mut i: usize = start;
    while i < sc.len()
        invariant
            sc@ == s@,
            start <= i <= sc@.len(),
            start < sc@.len(),
            digits == s@.skip(start as int),
            digits == without_plus(s@),
            v <= max,
            v == decimal_value(digits.take(i - start)),
            forall|j: int| 0 <= j < i - start ==> is_digit(#[trigger] digits[j]),
        decreases sc@.len() - i,
    {
        let c: char = sc[i];
        let ghost k: int = i - start;
        assert(digits[k] == c);
        if c < '0' || c > '9' {
            return None;
        }
        let d: u64 = (c as u32 - 48) as u64;
        proof {
            assert(digits.take(k + 1).drop_last() =~= digits.take(k));
            assert(digits.take(k + 1).last() == c);
            decimal_value_grows(digits, k + 1);
        }
        match v.checked_mul(10) {
            None => {
                return None;
            },
            Some(t) => {
                match t.checked_add(d) {
                    None => {
                        return None;
                    },
                    Some(u) => {
                        if u > max {
                            return None;
                        }
                        v = u;
                    },
                }
            },
        }
        i = i + 1;
    }
    assert(digits.take(i - start) =~= digits);
    Some(v)
}

proof fn decimal_reads_back(n: nat)
    ensures
        all_digits(decimal(n)),
        decimal_value(decimal(n)) == n,
    decreases n,
{
    if n < 10 {
        assert(decimal(n).drop_last() =~= Seq::<char>::empty());
        assert(decimal_value(decimal(n).drop_last()) == 0);
    } else {
        decimal_reads_back(n / 10);
        assert(decimal(n).drop_last() =~= decimal(n / 10));
        assert(n == (n / 10) * 10 + n % 10);
    }
}

/// A number written in decimal reads back as itself, whatever upper bound
/// admits it.
pub proof fn decimal_round_trip(n: nat, max: nat)
    requires
        n <= max,
    ensures
        parsed_decimal(decimal(n), max) == Some(n),
{
    decimal_reads_back(n);
    let s: Seq<char> = decimal(n);
    assert(is_digit(s[0]));
    assert(without_plus(s) == s);
}

/// Numbers are written in tens, the digits being the ten scalars from `0` on:
/// one more digit multiplies by ten and adds its own value.
pub proof fn numbers_are_written_in_tens(n: nat, d: nat)
    requires
        d < 10,
    ensures
        decimal(d).len() == 1,
        decimal(d)[0] as u32 == 48 + d,
        n > 0 ==> decimal(n * 10 + d) == decimal(n) + decimal(d),
        signed_decimal(n as int) == decimal(n),
        n > 0 ==> signed_decimal(-(n as int)) == seq!['-'] + decimal(n),
{
    if n > 0 {
        assert((n * 10 + d) / 10 == n);
        assert((n * 10 + d) % 10 == d);
        assert(decimal(n).push(digit_char(d)) =~= decimal(n) + decimal(d));
    }
}

/// What is read as a number is all digits, but for one plus sign in front, and
/// is at most the bound. The empty text is none.
pub proof fn only_digits_are_read(s: Seq<char>, max: nat)
    ensures
        match parsed_decimal(s, max) {
            Some(v) => {
                &&& v <= max
                &&& s.len() > 0
                &&& forall|i: int|
                    0 <= i < s.len() ==> ('0' <= #[trigger] s[i] && s[i] <= '9') || (i == 0 && s[i]
                        == '+')
                &&& s[0] == '+' ==> s.len() > 1 && parsed_decimal(s.skip(1), max) == Some(v)
            },
            None => true,
        },
{
    if parsed_decimal(s, max) is Some {
        let digits: Seq<char> = without_plus(s);
        assert forall|i: int| 0 <= i < s.len() implies ('0' <= #[trigger] s[i] && s[i] <= '9') || (i
            == 0 && s[i] == '+') by {
            if s[0] == '+' && s.len() > 1 {
                if i > 0 {
                    assert(is_digit(digits[i - 1]));
                }
            } else {
                assert(is_digit(digits[i]));
            }
        }
        if s[0] == '+' {
            if s.len() == 1 {
                assert(is_digit(digits[0]));
            }
            assert(is_digit(digits[0]));
            assert(without_plus(s.skip(1)) =~= s.skip(1));
        }
    }
}

} // verus!
