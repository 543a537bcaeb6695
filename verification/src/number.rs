use vstd::prelude::*;
use vstd::string::StrSliceExecFns;

verus! {

/// Whether `c` is a decimal digit.
pub open spec fn is_digit(c: char) -> bool {
    '0' <= c && c <= '9'
}

/// The value of a decimal digit.
pub open spec fn digit_value(c: char) -> int {
    (c as u32) - ('0' as u32)
}

/// Whether every character of `s` is a decimal digit.
pub open spec fn all_digits(s: Seq<char>) -> bool {
    forall|i: int| 0 <= i < s.len() ==> is_digit(#[trigger] s[i])
}

/// The number that a string of decimal digits writes; 0 for the empty string.
pub open spec fn digits_value(s: Seq<char>) -> int
    decreases s.len(),
{
    if s.len() == 0 {
        0
    } else {
        digits_value(s.drop_last()) * 10 + digit_value(s.last())
    }
}

/// Whether `s` begins with a sign that is read: a plus, or a minus where
/// negative numbers are allowed.
pub open spec fn has_sign(s: Seq<char>, signed: bool) -> bool {
    s.len() > 0 && (s[0] == '+' || (signed && s[0] == '-'))
}

/// The digits of a number: what follows the sign.
pub open spec fn digits_of(s: Seq<char>, signed: bool) -> Seq<char> {
    if has_sign(s, signed) {
        s.drop_first()
    } else {
        s
    }
}

/// The number that `s` writes in decimal: an optional sign and at least one
/// digit, nothing else. A minus is read only where `signed` is set.
pub open spec fn decimal(s: Seq<char>, signed: bool) -> Option<int> {
    let digits = digits_of(s, signed);
    if digits.len() == 0 || !all_digits(digits) {
        None
    } else if signed && s[0] == '-' {
        Some(-digits_value(digits))
    } else {
        Some(digits_value(digits))
    }
}

/// The number that `s` writes, where it lies between `low` and `high`.
pub open spec fn decimal_within(s: Seq<char>, signed: bool, low: int, high: int) -> Option<int> {
    match decimal(s, signed) {
        Some(v) => if low <= v <= high {
            Some(v)
        } else {
            None
        },
        None => None,
    }
}

/// More digits do not make a number smaller.
pub proof fn lemma_digits_grow(s: Seq<char>, k: int)
    requires
        all_digits(s),
        0 <= k <= s.len(),
    ensures
        0 <= digits_value(s.take(k)) <= digits_value(s),
    decreases s.len(),
{
    if s.len() == 0 {
        assert(s.take(k) =~= s);
    } else if k == s.len() {
        assert(s.take(k) =~= s);
        lemma_digits_grow(s.drop_last(), k - 1);
        assert(s.drop_last().take(k - 1) =~= s.drop_last());
        assert(is_digit(s.last()));
    } else {
        lemma_digits_grow(s.drop_last(), k);
        assert(s.drop_last().take(k) =~= s.take(k));
        assert(is_digit(s.last()));
    }
}

/// The magnitude that the digits of `s` from position `start` on write, where
/// they are digits and the magnitude is at most `limit`.
fn parse_digits(s: &str, start: usize, limit: u64) -> (r: Option<u64>)
    requires
        start <= s@.len(),
        limit <= 0xffff_ffff,
    ensures
        ({
            let digits = s@.subrange(start as int, s@.len() as int);
            match r {
                Some(v) => digits.len() > 0 && all_digits(digits) && v == digits_value(digits) && v
                    <= limit,
                None => digits.len() == 0 || !all_digits(digits) || digits_value(digits) > limit,
            }
        }),
{
    let n = s.unicode_len();
    let ghost digits = s@.subrange(start as int, n as int);
    if start == n {
        return None;
    }
    let mut value: u64 = 0;
    let mut i: usize = start;
    while i < n
        invariant
            n == s@.len(),
            start <= i <= n,
            digits == s@.subrange(start as int, n as int),
            all_digits(digits.take(i - start)),
            value == digits_value(digits.take(i - start)),
            value <= limit,
            limit <= 0xffff_ffff,
        decreases n - i,
    {
        let c = s.get_char(i);
        let ghost more = digits.take(i - start + 1);
        proof {
            assert(more.drop_last() =~= digits.take(i - start));
            assert(more.last() == c);
        }
        if c < '0' || c > '9' {
            assert(!is_digit(digits[i - start]));
            return None;
        }
        let d: u64 = (c as u32 - '0' as u32) as u64;
        value = value * 10 + d;
        proof {
            assert forall|k: int| 0 <= k < more.len() implies is_digit(#[trigger] more[k]) by {
                if k < more.len() - 1 {
                    assert(more[k] == digits.take(i - start)[k]);
                }
            }
        }
        if value > limit {
            proof {
                if all_digits(digits) {
                    lemma_digits_grow(digits, i - start + 1);
                }
            }
            return None;
        }
        i = i + 1;
    }
    assert(digits.take(n - start) =~= digits);
    Some(value)
}

/// Reads an unsigned decimal number that is at most `limit`.
pub fn parse_unsigned(s: &str, limit: u32) -> (r: Option<u32>)
    ensures
        match r {
            Some(v) => decimal_within(s@, false, 0, limit as int) == Some(v as int),
            None => decimal_within(s@, false, 0, limit as int) is None,
        },
{
    let n = s.unicode_len();
    let start: usize = if n > 0 && s.get_char(0) == '+' {
        1
    } else {
        0
    };
    proof {
        assert(s@.subrange(start as int, n as int) =~= digits_of(s@, false));
        if all_digits(digits_of(s@, false)) {
            lemma_digits_grow(digits_of(s@, false), 0);
        }
    }
    match parse_digits(s, start, limit as u64) {
        Some(v) => Some(v as u32),
        None => None,
    }
}

/// Reads a number of eight bits without sign.
pub fn parse_u8(s: &str) -> (r: Option<u8>)
    ensures
        match r {
            Some(v) => decimal_within(s@, false, 0, 255) == Some(v as int),
            None => decimal_within(s@, false, 0, 255) is None,
        },
{
    match parse_unsigned(s, 255) {
        Some(v) => Some(v as u8),
        None => None,
    }
}

/// Reads a number of thirty-two bits without sign.
pub fn parse_u32(s: &str) -> (r: Option<u32>)
    ensures
        match r {
            Some(v) => decimal_within(s@, false, 0, 0xffff_ffff) == Some(v as int),
            None => decimal_within(s@, false, 0, 0xffff_ffff) is None,
        },
{
    parse_unsigned(s, 0xffff_ffff)
}

/// Reads a number of thirty-two bits with sign.
pub fn parse_i32(s: &str) -> (r: Option<i32>)
    ensures
        match r {
            Some(v) => decimal_within(s@, true, -0x8000_0000, 0x7fff_ffff) == Some(v as int),
            None => decimal_within(s@, true, -0x8000_0000, 0x7fff_ffff) is None,
        },
{
    let n = s.unicode_len();
    let negative = n > 0 && s.get_char(0) == '-';
    let start: usize = if n > 0 && (s.get_char(0) == '+' || negative) {
        1
    } else {
        0
    };
    proof {
        assert(s@.subrange(start as int, n as int) =~= digits_of(s@, true));
        if all_digits(digits_of(s@, true)) {
            lemma_digits_grow(digits_of(s@, true), 0);
        }
    }
    let limit: u64 = if negative {
        0x8000_0000
    } else {
        0x7fff_ffff
    };
    match parse_digits(s, start, limit) {
        Some(v) => {
            if negative {
                Some((0 - (v as i64)) as i32)
            } else {
                Some(v as i32)
            }
        },
        None => None,
    }
}

} // verus!
