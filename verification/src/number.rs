//! Integers in decimal notation.

use vstd::prelude::*;
use crate::text::characters;

verus! {

/// Whether `c` is one of `0` to `9`.
pub open spec fn is_digit(c: char) -> bool {
    '0' <= c <= '9'
}

/// The value of a row of digits.
pub open spec fn digits_value(s: Seq<char>) -> int
    decreases s.len(),
{
    if s.len() == 0 {
        0
    } else {
        digits_value(s.drop_last()) * 10 + (s.last() as int - '0' as int)
    }
}

/// The number that a non-empty row of digits stands for.
pub open spec fn digits_number(s: Seq<char>) -> Option<int> {
    if s.len() > 0 && (forall|i: int| 0 <= i < s.len() ==> is_digit(#[trigger] s[i])) {
        Some(digits_value(s))
    } else {
        None
    }
}

/// The number that `s` stands for: digits, after a `+` or nothing.
pub open spec fn unsigned_number(s: Seq<char>) -> Option<int> {
    if s.len() > 0 && s[0] == '+' {
        digits_number(s.skip(1))
    } else {
        digits_number(s)
    }
}

/// The number that `s` stands for: digits, after a `+`, a `-` or nothing.
pub open spec fn signed_number(s: Seq<char>) -> Option<int> {
    if s.len() > 0 && s[0] == '-' {
        match digits_number(s.skip(1)) {
            Some(n) => Some(-n),
            None => None,
        }
    } else {
        unsigned_number(s)
    }
}

/// The number in `n`, where it lies between `low` and `high`.
pub open spec fn within(n: Option<int>, low: int, high: int) -> Option<int> {
    match n {
        Some(v) => if low <= v <= high {
            Some(v)
        } else {
            None
        },
        None => None,
    }
}

/// The `i64` that `s` stands for.
pub open spec fn i64_number(s: Seq<char>) -> Option<int> {
    within(signed_number(s), i64::MIN as int, i64::MAX as int)
}

/// The `u64` that `s` stands for.
pub open spec fn u64_number(s: Seq<char>) -> Option<int> {
    within(unsigned_number(s), 0, u64::MAX as int)
}

/// The `usize` that `s` stands for.
pub open spec fn usize_number(s: Seq<char>) -> Option<int> {
    within(unsigned_number(s), 0, usize::MAX as int)
}

/// The `u16` that `s` stands for.
pub open spec fn u16_number(s: Seq<char>) -> Option<int> {
    within(unsigned_number(s), 0, u16::MAX as int)
}

/// The digit that stands for `d`.
pub open spec fn digit_char(d: int) -> char {
    ('0' as int + d) as char
}

/// The digits of `n`, without a leading zero.
pub open spec fn nat_text(n: nat) -> Seq<char>
    decreases n,
{
    if n < 10 {
        seq![digit_char(n as int)]
    } else {
        nat_text(n / 10).push(digit_char((n % 10) as int))
    }
}

/// `n` in decimal notation.
pub open spec fn decimal(n: int) -> Seq<char> {
    if n < 0 {
        seq!['-'] + nat_text((-n) as nat)
    } else {
        nat_text(n as nat)
    }
}

/// Above this a row of digits is too large for every integer type in use.
const LARGE: u128 = 1_000_000_000_000_000_000_000_000_000_000;

/// What the digits of `chars` from `from` on stand for, cut off at `LARGE`.
fn read_digits(chars: &Vec<char>, from: usize) -> (r: Option<u128>)
    requires
        from <= chars@.len(),
    ensures
        match digits_number(chars@.skip(from as int)) {
            Some(n) => r is Some && 0 <= n && r->0 == (if n < LARGE {
                n
            } else {
                LARGE as int
            }),
            None => r is None,
        },
{
    let ghost s = chars@.skip(from as int);
    if from == chars.len() {
        return None;
    }
    let mut total: u128 = 0;
    let mut i: usize = from;
    while i < chars.len()
        invariant
            from <= i <= chars@.len(),
            s == chars@.skip(from as int),
            forall|j: int| 0 <= j < i - from ==> is_digit(#[trigger] s[j]),
            0 <= digits_value(s.take(i - from)),
            total == (if digits_value(s.take(i - from)) < LARGE {
                digits_value(s.take(i - from))
            } else {
                LARGE as int
            }),
        decreases chars@.len() - i,
    {
        let c = chars[i];
        proof {
            assert(s[i - from] == c);
            assert(s.take(i - from + 1).drop_last() =~= s.take(i - from));
            assert(s.take(i - from + 1).last() == c);
        }
        if c < '0' || c > '9' {
            return None;
        }
        let digit: u128 = c as u128 - '0' as u128;
        let next: u128 = total * 10 + digit;
        total = if next < LARGE {
            next
        } else {
            LARGE
        };
        i = i + 1;
    }
    proof {
        assert(s.take(s.len() as int) =~= s);
    }
    Some(total)
}

/// The `i64` that `s` stands for.
pub fn parse_i64(s: &str) -> (r: Option<i64>)
    ensures
        match r {
            Some(n) => i64_number(s@) == Some(n as int),
            None => i64_number(s@) is None,
        },
{
    let chars = characters(s);
    proof {
        assert(chars@.skip(0) =~= chars@);
    }
    if chars.len() > 0 && chars[0] == '-' {
        match read_digits(&chars, 1) {
            Some(n) => if n <= 9223372036854775807 {
                Some(-(n as i64))
            } else if n == 9223372036854775808 {
                Some(i64::MIN)
            } else {
                None
            },
            None => None,
        }
    } else {
        let from: usize = if chars.len() > 0 && chars[0] == '+' {
            1
        } else {
            0
        };
        match read_digits(&chars, from) {
            Some(n) => if n <= 9223372036854775807 {
                Some(n as i64)
            } else {
                None
            },
            None => None,
        }
    }
}

/// The `u64` that `s` stands for.
pub fn parse_u64(s: &str) -> (r: Option<u64>)
    ensures
        match r {
            Some(n) => u64_number(s@) == Some(n as int),
            None => u64_number(s@) is None,
        },
{
    let chars = characters(s);
    proof {
        assert(chars@.skip(0) =~= chars@);
    }
    let from: usize = if chars.len() > 0 && chars[0] == '+' {
        1
    } else {
        0
    };
    match read_digits(&chars, from) {
        Some(n) => if n <= 18446744073709551615 {
            Some(n as u64)
        } else {
            None
        },
        None => None,
    }
}

/// The `usize` that `s` stands for.
pub fn parse_usize(s: &str) -> (r: Option<usize>)
    ensures
        match r {
            Some(n) => usize_number(s@) == Some(n as int),
            None => usize_number(s@) is None,
        },
{
    match parse_u64(s) {
        Some(n) => if n <= usize::MAX as u64 {
            Some(n as usize)
        } else {
            None
        },
        None => None,
    }
}

/// The `u16` that `s` stands for.
pub fn parse_u16(s: &str) -> (r: Option<u16>)
    ensures
        match r {
            Some(n) => u16_number(s@) == Some(n as int),
            None => u16_number(s@) is None,
        },
{
    match parse_u64(s) {
        Some(n) => if n <= 65535 {
            Some(n as u16)
        } else {
            None
        },
        None => None,
    }
}

/// The characters of the digits `0` to `9`.
fn digit_of(d: u64) -> (c: char)
    requires
        d < 10,
    ensures
        c == digit_char(d as int),
{
    match d {
        0 => '0',
        1 => '1',
        2 => '2',
        3 => '3',
        4 => '4',
        5 => '5',
        6 => '6',
        7 => '7',
        8 => '8',
        _ => '9',
    }
}

/// `n` in decimal notation.
pub fn u64_text(n: u64) -> (r: String)
    ensures
        r@ == decimal(n as int),
    decreases n,
{
    let mut r = if n < 10 {
        String::new()
    } else {
        u64_text(n / 10)
    };
    r.push(digit_of(n % 10));
    proof {
        assert(r@ =~= nat_text(n as nat));
    }
    r
}

/// `n` in decimal notation.
pub fn i64_text(n: i64) -> (r: String)
    ensures
        r@ == decimal(n as int),
{
    if n >= 0 {
        u64_text(n as u64)
    } else {
        let size: u64 = if n == i64::MIN {
            9223372036854775808
        } else {
            (-n) as u64
        };
        let digits = u64_text(size);
        let mut r = String::new();
        r.push('-');
        r.append(digits.as_str());
        proof {
            assert(r@ =~= decimal(n as int));
        }
        r
    }
}

// ---------------------------------------------------------------------------
// Reading back what was written
// ---------------------------------------------------------------------------

/// Every character of a written natural number is a digit, and the digits have its value.
pub proof fn lemma_nat_text(n: nat)
    ensures
        nat_text(n).len() > 0,
        forall|i: int| 0 <= i < nat_text(n).len() ==> is_digit(#[trigger] nat_text(n)[i]),
        digits_value(nat_text(n)) == n,
    decreases n,
{
    let s = nat_text(n);
    if n < 10 {
        assert(s.drop_last() =~= Seq::<char>::empty());
        assert(digits_value(s.drop_last()) == 0);
    } else {
        lemma_nat_text(n / 10);
        assert(s.drop_last() =~= nat_text(n / 10));
    }
}

/// Reading the decimal notation of an integer gives that integer.
pub proof fn lemma_decimal_reads_back(n: int)
    ensures
        signed_number(decimal(n)) == Some(n),
{
    if n < 0 {
        lemma_nat_text((-n) as nat);
        assert(decimal(n).skip(1) =~= nat_text((-n) as nat));
    } else {
        lemma_nat_text(n as nat);
        assert(is_digit(decimal(n)[0]));
    }
}

/// Decimal notation consists of digits and, for a negative number, a leading `-`.
pub proof fn lemma_decimal_chars(n: int, i: int)
    requires
        0 <= i < decimal(n).len(),
    ensures
        is_digit(decimal(n)[i]) || decimal(n)[i] == '-',
{
    if n < 0 {
        lemma_nat_text((-n) as nat);
        if i > 0 {
            assert(decimal(n)[i] == nat_text((-n) as nat)[i - 1]);
        }
    } else {
        lemma_nat_text(n as nat);
    }
}

} // verus!
