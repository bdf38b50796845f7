//! Numbers as text: how integers are written in decimal and hexadecimal, and
//! how they are read back.

use vstd::prelude::*;

use crate::text::chars_of;

verus! {

/// The character of a digit in base sixteen or below.
pub open spec fn digit(d: nat) -> char {
    if d < 10 {
        (48 + d) as char
    } else {
        (87 + d) as char
    }
}

/// The digits of `n` in `base`, the most significant one first.
pub open spec fn digits(n: nat, base: nat) -> Seq<char>
    decreases n,
{
    if base < 2 || n < base {
        seq![digit(n)]
    } else {
        proof {
            assert(n / base < n) by (nonlinear_arith)
                requires
                    n >= base >= 2,
            ;
        }
        digits(n / base, base).push(digit(n % base))
    }
}

/// `n` in decimal.
pub open spec fn decimal(n: nat) -> Seq<char> {
    digits(n, 10)
}

/// A signed number in decimal, with `-` in front where it is negative.
pub open spec fn decimal_int(n: int) -> Seq<char> {
    if n < 0 {
        seq!['-'] + decimal((-n) as nat)
    } else {
        decimal(n as nat)
    }
}

/// `n` in hexadecimal, in lower case.
pub open spec fn hexadecimal(n: nat) -> Seq<char> {
    digits(n, 16)
}

fn digit_char(d: u128) -> (c: char)
    requires
        d < 16,
    ensures
        c == digit(d as nat),
{
    match d {
        0 => '0',
        1 => '1',
        2 => '2',
        3 => '3',
        4 => '4',
        5 => '5',
        6 => '6',
        7 => '7',
        8 => '8',
        9 => '9',
        10 => 'a',
        11 => 'b',
        12 => 'c',
        13 => 'd',
        14 => 'e',
        _ => 'f',
    }
}

fn write_digits(n: u128, base: u128) -> (r: String)
    requires
        base == 10 || base == 16,
    ensures
        r@ == digits(n as nat, base as nat),
    decreases n,
{
    if n < base {
        let mut s = String::new();
        s.push(digit_char(n));
        assert(s@ =~= seq![digit(n as nat)]);
        s
    } else {
        let mut s = write_digits(n / base, base);
        s.push(digit_char(n % base));
        s
    }
}

/// Writes `n` in decimal.
pub fn u64_to_string(n: u64) -> (r: String)
    ensures
        r@ == decimal(n as nat),
{
    write_digits(n as u128, 10)
}

/// Writes `n` in decimal.
pub fn usize_to_string(n: usize) -> (r: String)
    ensures
        r@ == decimal(n as nat),
{
    write_digits(n as u128, 10)
}

/// Writes `n` in decimal.
pub fn i64_to_string(n: i64) -> (r: String)
    ensures
        r@ == decimal_int(n as int),
{
    if n < 0 {
        let m: i128 = -(n as i128);
        let mut s = String::new();
        s.push('-');
        s.append(write_digits(m as u128, 10).as_str());
        assert(s@ =~= seq!['-'] + decimal((-n) as nat));
        s
    } else {
        write_digits(n as u128, 10)
    }
}

/// Writes `n` in lower-case hexadecimal.
pub fn u128_to_hex(n: u128) -> (r: String)
    ensures
        r@ == hexadecimal(n as nat),
{
    write_digits(n, 16)
}

/// Whether `c` is an ASCII digit.
pub open spec fn ascii_digit(c: char) -> bool {
    '0' <= c <= '9'
}

/// Whether every character of `s` is an ASCII digit.
pub open spec fn all_digits(s: Seq<char>) -> bool {
    forall|i: int| 0 <= i < s.len() ==> ascii_digit(#[trigger] s[i])
}

/// The number that a sequence of decimal digits writes.
pub open spec fn value_of(s: Seq<char>) -> nat
    decreases s.len(),
{
    if s.len() == 0 {
        0
    } else {
        (value_of(s.drop_last()) * 10 + (s.last() as int - 48)) as nat
    }
}

/// The number that `s` writes, within `max`: digits, with an optional `+` in front.
pub open spec fn parsed(s: Seq<char>, max: nat) -> Option<nat> {
    let d = if s.len() > 0 && s[0] == '+' {
        s.drop_first()
    } else {
        s
    };
    if d.len() > 0 && all_digits(d) && value_of(d) <= max {
        Some(value_of(d))
    } else {
        None
    }
}

proof fn lemma_value_monotone(s: Seq<char>, n: int)
    requires
        all_digits(s),
        0 <= n <= s.len(),
    ensures
        value_of(s.take(n)) <= value_of(s),
    decreases s.len(),
{
    if n == s.len() {
        assert(s.take(n) =~= s);
    } else {
        assert(s.drop_last().take(n) =~= s.take(n));
        assert(ascii_digit(s.last()));
        lemma_value_monotone(s.drop_last(), n);
    }
}

fn digit_value(c: char) -> (r: Option<u64>)
    ensures
        ascii_digit(c) ==> r == Some((c as int - 48) as u64),
        !ascii_digit(c) ==> r is None,
{
    if '0' <= c && c <= '9' {
        Some((c as u64) - 48)
    } else {
        None
    }
}

/// Reads a number no greater than `max`, as `u64::from_str` does for `u64::MAX`.
fn parse_up_to(s: &str, max: u64) -> (r: Option<u64>)
    ensures
        match r {
            Some(n) => parsed(s@, max as nat) == Some(n as nat),
            None => parsed(s@, max as nat) is None,
        },
{
    let v = chars_of(s);
    let mut i: usize = 0;
    if v.len() > 0 && v[0] == '+' {
        i = 1;
    }
    let ghost start = i as int;
    let ghost d = v@.skip(start);
    assert(d =~= if s@.len() > 0 && s@[0] == '+' {
        s@.drop_first()
    } else {
        s@
    });
    if i == v.len() {
        return None;
    }
    let mut n: u64 = 0;
    assert(d.take(0) =~= Seq::<char>::empty());
    while i < v.len()
        invariant
            start <= i <= v@.len(),
            0 <= start,
            d == v@.skip(start),
            all_digits(d.take(i - start)),
            n == value_of(d.take(i - start)),
            n <= max,
            d == (if s@.len() > 0 && s@[0] == '+' {
                s@.drop_first()
            } else {
                s@
            }),
        decreases v@.len() - i,
    {
        let ghost k = i - start;
        assert(d[k] == v@[i as int]);
        assert(d.take(k + 1).drop_last() =~= d.take(k));
        match digit_value(v[i]) {
            None => {
                assert(!ascii_digit(d[k]));
                return None;
            },
            Some(x) => {
                let next: u128 = (n as u128) * 10 + x as u128;
                assert(next == value_of(d.take(k + 1)));
                assert forall|j: int| 0 <= j < k + 1 implies ascii_digit(
                    #[trigger] d.take(k + 1)[j],
                ) by {
                    if j < k {
                        assert(d.take(k)[j] == d.take(k + 1)[j]);
                    }
                }
                if next > max as u128 {
                    proof {
                        if all_digits(d) {
                            lemma_value_monotone(d, k + 1);
                        }
                    }
                    return None;
                }
                n = next as u64;
            },
        }
        i = i + 1;
    }
    assert(d.take(d.len() as int) =~= d);
    Some(n)
}

/// Reads a `u64`: digits, with an optional `+` in front, and nothing else.
pub fn parse_u64(s: &str) -> (r: Option<u64>)
    ensures
        match r {
            Some(n) => parsed(s@, u64::MAX as nat) == Some(n as nat),
            None => parsed(s@, u64::MAX as nat) is None,
        },
{
    parse_up_to(s, u64::MAX)
}

/// Reads a `usize`: digits, with an optional `+` in front, and nothing else.
pub fn parse_usize(s: &str) -> (r: Option<usize>)
    ensures
        match r {
            Some(n) => parsed(s@, usize::MAX as nat) == Some(n as nat),
            None => parsed(s@, usize::MAX as nat) is None,
        },
{
    match parse_up_to(s, usize::MAX as u64) {
        Some(n) => Some(n as usize),
        None => None,
    }
}

proof fn lemma_decimal_digits(n: nat)
    ensures
        decimal(n).len() > 0,
        all_digits(decimal(n)),
        value_of(decimal(n)) == n,
    decreases n,
{
    reveal_with_fuel(value_of, 2);
    if n >= 10 {
        lemma_decimal_digits(n / 10);
        let p = decimal(n / 10);
        let s = decimal(n);
        assert(s.drop_last() =~= p);
        assert forall|i: int| 0 <= i < s.len() implies ascii_digit(#[trigger] s[i]) by {
            if i < p.len() {
                assert(s[i] == p[i]);
            }
        }
    } else {
        assert(decimal(n).drop_last() =~= Seq::<char>::empty());
    }
}

/// Reading back a number that was written in decimal gives that number.
pub proof fn decimal_reads_back(n: nat, max: nat)
    requires
        n <= max,
    ensures
        parsed(decimal(n), max) == Some(n),
{
    lemma_decimal_digits(n);
    assert(ascii_digit(decimal(n)[0]));
}

/// A number in hexadecimal is made of digits, and of small letters up to `f`.
pub proof fn lemma_hexadecimal_chars(n: nat)
    ensures
        hexadecimal(n).len() > 0,
        forall|i: int|
            0 <= i < hexadecimal(n).len() ==> ('0' <= #[trigger] hexadecimal(n)[i] <= '9' || 'a'
                <= hexadecimal(n)[i] <= 'f'),
    decreases n,
{
    if n >= 16 {
        lemma_hexadecimal_chars(n / 16);
        let p = hexadecimal(n / 16);
        let s = hexadecimal(n);
        assert forall|i: int| 0 <= i < s.len() implies ('0' <= #[trigger] s[i] <= '9' || 'a' <= s[i]
            <= 'f') by {
            if i < p.len() {
                assert(s[i] == p[i]);
            }
        }
    }
}

/// Different numbers are written differently in hexadecimal.
pub proof fn hexadecimal_is_unique(a: nat, b: nat)
    requires
        hexadecimal(a) == hexadecimal(b),
    ensures
        a == b,
    decreases a,
{
    lemma_hexadecimal_chars(a / 16);
    lemma_hexadecimal_chars(b / 16);
    let s = hexadecimal(a);
    let t = hexadecimal(b);
    assert(s.last() == digit(a % 16));
    assert(t.last() == digit(b % 16));
    if a >= 16 {
        assert(s.len() == hexadecimal(a / 16).len() + 1);
    }
    if b >= 16 {
        assert(t.len() == hexadecimal(b / 16).len() + 1);
    }
    assert(a >= 16 <==> b >= 16);
    if a >= 16 {
        assert(s.drop_last() =~= hexadecimal(a / 16));
        assert(t.drop_last() =~= hexadecimal(b / 16));
        hexadecimal_is_unique(a / 16, b / 16);
    }
}

/// The digits up to nine follow `0`, and those above follow `a`.
pub proof fn digits_follow_one_another(d: nat)
    ensures
        d < 10 ==> digit(d) as int == '0' as int + d,
        10 <= d < 16 ==> digit(d) as int == 'a' as int + d - 10,
{
}

/// A further digit at the end makes the number ten times as large, in decimal, or sixteen
/// times, in hexadecimal, and adds the digit; a number of one digit is that digit.
pub proof fn numbers_are_written_digit_by_digit(n: nat, d: nat)
    ensures
        d < 10 ==> decimal(d) == seq![digit(d)],
        n > 0 && d < 10 ==> decimal(10 * n + d) == decimal(n).push(digit(d)),
        d < 16 ==> hexadecimal(d) == seq![digit(d)],
        n > 0 && d < 16 ==> hexadecimal(16 * n + d) == hexadecimal(n).push(digit(d)),
{
}

/// A negative number has a minus in front of its digits.
pub proof fn negative_numbers_have_a_minus(n: nat)
    ensures
        decimal_int(n as int) == decimal(n),
        n > 0 ==> decimal_int(-(n as int)) == seq!['-'] + decimal(n),
{
}

/// Digits that are read make ten times the number of those before and the last one; what
/// is not made of digits alone, is empty or is too large is no number.
pub proof fn numbers_are_read_digit_by_digit(s: Seq<char>, c: char, max: nat)
    ensures
        '0' <= c <= '9' ==> value_of(s.push(c)) == 10 * value_of(s) + (c as int - '0' as int),
        value_of(Seq::empty()) == 0,
        s.len() > 0 && all_digits(s) && value_of(s) <= max ==> parsed(s, max) == Some(value_of(s)),
        s.len() > 0 && all_digits(s) && value_of(s) <= max ==> parsed(seq!['+'] + s, max) == Some(
            value_of(s),
        ),
        s.len() == 0 ==> parsed(s, max) is None,
        s.len() > 0 && s[0] != '+' && !all_digits(s) ==> parsed(s, max) is None,
        s.len() > 0 && s[0] != '+' && value_of(s) > max ==> parsed(s, max) is None,
{
    assert(s.push(c).drop_last() =~= s);
    assert((seq!['+'] + s).drop_first() =~= s);
    if s.len() > 0 && all_digits(s) {
        assert(ascii_digit(s[0]));
    }
}

} // verus!
