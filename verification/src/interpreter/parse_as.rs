use vstd::prelude::*;
use crate::{
    interpreter::error::{InterpreterError, InterpreterResult},
    text::chars_of,
};

verus! {

pub open spec fn is_digit(c: char) -> bool {
    '0' <= c && c <= '9'
}

/// The value of a sequence of decimal digits.
pub open spec fn digits_value(s: Seq<char>) -> nat
    decreases s.len(),
{
    if s.len() == 0 {
        0
    } else {
        digits_value(s.drop_last()) * 10 + (s.last() as nat - '0' as nat) as nat
    }
}

/// Whether every character is a decimal digit.
pub open spec fn all_digits(s: Seq<char>) -> bool {
    forall|i: int| 0 <= i < s.len() ==> #[trigger] is_digit(s[i])
}

/// The text after an optional leading sign.
pub open spec fn digits_part(s: Seq<char>) -> Seq<char> {
    if s.len() > 0 && (s[0] == '-' || s[0] == '+') {
        s.skip(1)
    } else {
        s
    }
}

/// The decimal text of a 64-bit signed integer: an optional `+` or `-`, then
/// one or more digits, with a value in range.
pub open spec fn spec_parse_i64(s: Seq<char>) -> Option<i64> {
    let negative = s.len() > 0 && s[0] == '-';
    let digits = digits_part(s);
    if digits.len() == 0 || !all_digits(digits) {
        None
    } else {
        let v: int = if negative {
            -(digits_value(digits) as int)
        } else {
            digits_value(digits) as int
        };
        if i64::MIN <= v && v <= i64::MAX {
            Some(v as i64)
        } else {
            None
        }
    }
}

/// The magnitude of the least `i64`, the largest magnitude one can have.
pub open spec fn magnitude_limit() -> nat {
    9223372036854775808
}

/// Where reading digits from the left first goes wrong: `Some(true)` at a
/// character that is not a digit, `Some(false)` once the value read so far
/// exceeds [`magnitude_limit`].
pub open spec fn scan_failure(digits: Seq<char>) -> Option<bool>
    decreases digits.len(),
{
    if digits.len() == 0 {
        None
    } else {
        match scan_failure(digits.drop_last()) {
            Some(f) => Some(f),
            None => if !is_digit(digits.last()) {
                Some(true)
            } else if digits_value(digits) > magnitude_limit() {
                Some(false)
            } else {
                None
            },
        }
    }
}

/// The message text that [`parse_i64`] rejects text with: the integer
/// parser's error for the first problem found reading from the left.
pub open spec fn parse_error_message(s: Seq<char>) -> Seq<char> {
    let digits = digits_part(s);
    if s.len() == 0 {
        "ParseIntError { kind: Empty }"@
    } else if digits.len() == 0 {
        "ParseIntError { kind: InvalidDigit }"@
    } else {
        match scan_failure(digits) {
            Some(true) => "ParseIntError { kind: InvalidDigit }"@,
            Some(false) => if s[0] == '-' {
                "ParseIntError { kind: NegOverflow }"@
            } else {
                "ParseIntError { kind: PosOverflow }"@
            },
            None => "ParseIntError { kind: PosOverflow }"@,
        }
    }
}

/// A problem found in a prefix of the digits is the first problem of all of
/// them.
proof fn lemma_scan_prefix(digits: Seq<char>, k: int)
    requires
        0 <= k <= digits.len(),
        scan_failure(digits.subrange(0, k)) is Some,
    ensures
        scan_failure(digits) == scan_failure(digits.subrange(0, k)),
    decreases digits.len(),
{
    if k == digits.len() {
        assert(digits.subrange(0, k) =~= digits);
    } else {
        assert(digits.drop_last().subrange(0, k) =~= digits.subrange(0, k));
        lemma_scan_prefix(digits.drop_last(), k);
    }
}

/// Parses text as a value of some type.
pub trait ParseAs<T> {
    fn parse_as(self) -> InterpreterResult<T>;
}

impl<'a> ParseAs<i64> for &'a str {
    /// Parses decimal text as an `i64`; fails with a value error otherwise.
    fn parse_as(self) -> (r: InterpreterResult<i64>)
        ensures
            match spec_parse_i64(self@) {
                Some(v) => r == Ok::<i64, InterpreterError>(v),
                None => r is Err && r->Err_0 is Value && r->Err_0->Value_0@ == parse_error_message(self@),
            },
    {
        parse_i64(self)
    }
}

proof fn lemma_digits_value_push(s: Seq<char>, c: char)
    ensures
        digits_value(s.push(c)) == digits_value(s) * 10 + (c as nat - '0' as nat) as nat,
{
    assert(s.push(c).drop_last() =~= s);
}

/// Parses decimal text as an `i64`.
pub fn parse_i64(s: &str) -> (r: InterpreterResult<i64>)
    ensures
        match spec_parse_i64(s@) {
            Some(v) => r == Ok::<i64, InterpreterError>(v),
            None => r is Err && r->Err_0 is Value && r->Err_0->Value_0@ == parse_error_message(s@),
        },
{
    let chars = chars_of(s);
    let n = chars.len();
    if n == 0 {
        return Err(InterpreterError::value_err("ParseIntError { kind: Empty }"));
    }
    let mut start: usize = 0;
    let mut negative = false;
    let c = chars[0];
    if c == '-' {
        negative = true;
        start = 1;
    } else if c == '+' {
        start = 1;
    }
    let ghost digits = s@.skip(start as int);
    assert(negative == (s@.len() > 0 && s@[0] == '-'));
    assert(digits == digits_part(s@));
    if start >= n {
        assert(digits.len() == 0);
        return Err(InterpreterError::value_err("ParseIntError { kind: InvalidDigit }"));
    }
    // The magnitude may reach 2^63 for the most negative value.
    let limit: u64 = 9223372036854775808;
    let mut acc: u64 = 0;
    let mut i: usize = start;
    proof {
        assert(s@.subrange(start as int, start as int) =~= Seq::<char>::empty());
    }
    while i < n
        invariant
            start <= i <= n,
            n == s@.len(),
            chars@ == s@,
            start <= 1,
            limit == 9223372036854775808u64,
            digits == s@.skip(start as int),
            negative == (s@.len() > 0 && s@[0] == '-'),
            digits == digits_part(s@),
            acc <= limit,
            forall|j: int| start <= j < i ==> #[trigger] is_digit(s@[j]),
            acc == digits_value(s@.subrange(start as int, i as int)),
            scan_failure(s@.subrange(start as int, i as int)) is None,
        decreases n - i,
    {
        let c = chars[i];
        if !('0' <= c && c <= '9') {
            proof {
                assert(digits[i - start] == s@[i as int]);
                assert(!is_digit(digits[i - start]));
                assert(!all_digits(digits));
                let prefix = digits.subrange(0, i + 1 - start);
                assert(prefix.drop_last() =~= s@.subrange(start as int, i as int));
                assert(scan_failure(prefix) == Some(true));
                lemma_scan_prefix(digits, i + 1 - start);
            }
            return Err(InterpreterError::value_err("ParseIntError { kind: InvalidDigit }"));
        }
        let d = (c as u32 - '0' as u32) as u64;
        proof {
            lemma_digits_value_push(s@.subrange(start as int, i as int), c);
            assert(s@.subrange(start as int, i as int).push(c) =~= s@.subrange(start as int, i + 1));
        }
        if acc > (limit - d) / 10 {
            proof {
                assert(acc * 10 + d > limit) by (nonlinear_arith)
                    requires
                        acc > (limit - d) / 10,
                        d <= 9,
                        limit == 9223372036854775808u64,
                ;
                if all_digits(digits) {
                    lemma_digits_prefix_bound(digits, (i + 1 - start) as nat);
                    assert(digits.subrange(0, (i + 1 - start) as int) =~= s@.subrange(start as int, i + 1));
                }
                let prefix = digits.subrange(0, i + 1 - start);
                assert(prefix =~= s@.subrange(start as int, i + 1));
                assert(prefix.drop_last() =~= s@.subrange(start as int, i as int));
                assert(scan_failure(prefix) == Some(false));
                lemma_scan_prefix(digits, i + 1 - start);
            }
            if negative {
                return Err(InterpreterError::value_err("ParseIntError { kind: NegOverflow }"));
            }
            return Err(InterpreterError::value_err("ParseIntError { kind: PosOverflow }"));
        }
        proof {
            assert(acc * 10 + d <= limit) by (nonlinear_arith)
                requires
                    acc <= (limit - d) / 10,
                    d <= 9,
                    limit == 9223372036854775808u64,
            ;
        }
        proof {
            let next = s@.subrange(start as int, i + 1);
            assert(next.drop_last() =~= s@.subrange(start as int, i as int));
        }
        acc = acc * 10 + d;
        i = i + 1;
    }
    proof {
        assert(s@.subrange(start as int, n as int) =~= digits);
        assert forall|j: int| 0 <= j < digits.len() implies #[trigger] is_digit(digits[j]) by {
            assert(digits[j] == s@[j + start]);
        }
        assert(all_digits(digits));
    }
    if negative {
        if acc == limit {
            Ok(-9223372036854775807i64 - 1)
        } else {
            Ok(-(acc as i64))
        }
    } else {
        if acc == limit {
            Err(InterpreterError::value_err("ParseIntError { kind: PosOverflow }"))
        } else {
            Ok(acc as i64)
        }
    }
}

/// A longer digit sequence has at least the value of its prefix.
proof fn lemma_digits_prefix_bound(s: Seq<char>, k: nat)
    requires
        k <= s.len(),
        all_digits(s),
    ensures
        digits_value(s) >= digits_value(s.subrange(0, k as int)),
    decreases s.len(),
{
    if k < s.len() {
        assert(s.drop_last().subrange(0, k as int) =~= s.subrange(0, k as int));
        lemma_digits_prefix_bound(s.drop_last(), k);
    } else {
        assert(s.subrange(0, k as int) =~= s);
    }
}

} // verus!
