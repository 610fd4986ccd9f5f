//! Reading timestamps back from text: the `[H]H:MM:SS[,mmm|.mmm]` clock
//! grammar, the bare signed-integer grammar, and the parsers for both.

use vstd::prelude::*;
use vstd::string::StrSliceExecFns;

use crate::digits::{
    all_digits, digit_val, digits_val, is_digit, char_digit, lemma_digits_val_extend,
    lemma_digits_val_nonneg,
};
use crate::units::{Timestamp, TimestampError};

verus! {

/// The largest hour count whose milliseconds still fit in an `i64`:
/// `i64::MAX / 3_600_000`.
pub(crate) const HOUR_CAP: u64 = 2562047788015;

/// Whether `s` is `[H]H:MM:SS`: one or more hour digits, a colon, two minute
/// digits, a colon, two second digits, with minutes and seconds below 60.
pub open spec fn plain_clock_valid(s: Seq<char>) -> bool {
    &&& s.len() >= 7
    &&& all_digits(s.subrange(0, s.len() - 6))
    &&& s[s.len() - 6] == ':'
    &&& is_digit(s[s.len() - 5])
    &&& is_digit(s[s.len() - 4])
    &&& s[s.len() - 3] == ':'
    &&& is_digit(s[s.len() - 2])
    &&& is_digit(s[s.len() - 1])
    &&& plain_minutes(s) < 60
    &&& plain_seconds(s) < 60
}

/// The hour field of an `[H]H:MM:SS` string, read as a numeral.
pub open spec fn plain_hours(s: Seq<char>) -> int {
    digits_val(s.subrange(0, s.len() - 6))
}

/// The minute field of an `[H]H:MM:SS` string.
pub open spec fn plain_minutes(s: Seq<char>) -> int {
    10 * digit_val(s[s.len() - 5]) + digit_val(s[s.len() - 4])
}

/// The second field of an `[H]H:MM:SS` string.
pub open spec fn plain_seconds(s: Seq<char>) -> int {
    10 * digit_val(s[s.len() - 2]) + digit_val(s[s.len() - 1])
}

/// The millisecond count named by an `[H]H:MM:SS` string.
pub open spec fn plain_clock_ms(s: Seq<char>) -> int {
    plain_hours(s) * 3600000 + plain_minutes(s) * 60000 + plain_seconds(s) * 1000
}

/// Whether `s` is `[H]H:MM:SS` followed by a comma or period and exactly
/// three fraction digits.
pub open spec fn frac_clock_valid(s: Seq<char>) -> bool {
    &&& s.len() >= 11
    &&& (s[s.len() - 4] == ',' || s[s.len() - 4] == '.')
    &&& is_digit(s[s.len() - 3])
    &&& is_digit(s[s.len() - 2])
    &&& is_digit(s[s.len() - 1])
    &&& plain_clock_valid(s.subrange(0, s.len() - 4))
}

/// The three fraction digits of an `[H]H:MM:SS,mmm` string, as milliseconds.
pub open spec fn frac_ms(s: Seq<char>) -> int {
    100 * digit_val(s[s.len() - 3]) + 10 * digit_val(s[s.len() - 2]) + digit_val(s[s.len() - 1])
}

/// Whether `s` matches the clock grammar `[H]H:MM:SS[,mmm|.mmm]`. The two
/// shapes never overlap: in the plain shape the fourth-last character is a
/// minute digit, in the fractional shape a comma or period.
pub open spec fn hhmmss_valid(s: Seq<char>) -> bool {
    plain_clock_valid(s) || frac_clock_valid(s)
}

/// The millisecond count named by a clock-grammar string.
pub open spec fn hhmmss_ms(s: Seq<char>) -> int {
    if frac_clock_valid(s) {
        plain_clock_ms(s.subrange(0, s.len() - 4)) + frac_ms(s)
    } else {
        plain_clock_ms(s)
    }
}

/// Whether `s` is a base-10 integer literal: an optional `+` or `-` sign
/// followed by one or more digits.
pub open spec fn int_literal_valid(s: Seq<char>) -> bool {
    if s.len() == 0 {
        false
    } else if s[0] == '+' || s[0] == '-' {
        s.len() >= 2 && all_digits(s.subrange(1, s.len() as int))
    } else {
        all_digits(s)
    }
}

/// The value of a base-10 integer literal.
pub open spec fn int_literal_val(s: Seq<char>) -> int {
    if s.len() > 0 && s[0] == '-' {
        -digits_val(s.subrange(1, s.len() as int))
    } else if s.len() > 0 && s[0] == '+' {
        digits_val(s.subrange(1, s.len() as int))
    } else {
        digits_val(s)
    }
}

/// Reads the characters `s[0 .. e]` as an `[H]H:MM:SS` clock. Returns the
/// millisecond count when they match the shape and the count fits in an
/// `i64`, a range error when they match but the count does not fit, and a
/// parse error when they do not match.
#[verifier::loop_isolation(false)]
fn parse_clock_body(s: &str, e: usize) -> (r: Result<u64, TimestampError>)
    requires
        7 <= e <= s@.len(),
    ensures
        plain_clock_valid(s@.subrange(0, e as int)) && plain_clock_ms(s@.subrange(0, e as int))
            <= i64::MAX ==> (r matches Ok(v) && v == plain_clock_ms(s@.subrange(0, e as int))),
        plain_clock_valid(s@.subrange(0, e as int)) && plain_clock_ms(s@.subrange(0, e as int))
            > i64::MAX ==> r == Err::<u64, TimestampError>(TimestampError::OutOfRange),
        !plain_clock_valid(s@.subrange(0, e as int)) ==> r == Err::<u64, TimestampError>(
            TimestampError::Parse,
        ),
{
    let ghost body = s@.subrange(0, e as int);
    assert(body.len() == e);
    if s.get_char(e - 6) != ':' {
        assert(body[e - 6] == s@[e - 6]);
        return Err(TimestampError::Parse);
    }
    if s.get_char(e - 3) != ':' {
        assert(body[e - 3] == s@[e - 3]);
        return Err(TimestampError::Parse);
    }
    let m1 = match char_digit(s.get_char(e - 5)) {
        Some(d) => d,
        None => {
            assert(body[e - 5] == s@[e - 5]);
            return Err(TimestampError::Parse);
        },
    };
    let m2 = match char_digit(s.get_char(e - 4)) {
        Some(d) => d,
        None => {
            assert(body[e - 4] == s@[e - 4]);
            return Err(TimestampError::Parse);
        },
    };
    let s1 = match char_digit(s.get_char(e - 2)) {
        Some(d) => d,
        None => {
            assert(body[e - 2] == s@[e - 2]);
            return Err(TimestampError::Parse);
        },
    };
    let s2 = match char_digit(s.get_char(e - 1)) {
        Some(d) => d,
        None => {
            assert(body[e - 1] == s@[e - 1]);
            return Err(TimestampError::Parse);
        },
    };
    let mm = 10 * m1 + m2;
    let ss = 10 * s1 + s2;
    assert(mm == plain_minutes(body) && ss == plain_seconds(body));
    if mm >= 60 {
        return Err(TimestampError::Parse);
    }
    if ss >= 60 {
        return Err(TimestampError::Parse);
    }
    let hlen = e - 6;
    let mut h: u64 = 0;
    let mut big = false;
    let mut i: usize = 0;
    while i < hlen
        invariant
            0 <= i <= hlen,
            all_digits(s@.subrange(0, i as int)),
            !big ==> h == digits_val(s@.subrange(0, i as int)) && h <= HOUR_CAP,
            big ==> digits_val(s@.subrange(0, i as int)) > HOUR_CAP,
        decreases hlen - i,
    {
        let d = match char_digit(s.get_char(i)) {
            Some(d) => d,
            None => {
                assert(body.subrange(0, hlen as int)[i as int] == s@[i as int]);
                assert(!all_digits(body.subrange(0, body.len() - 6)));
                return Err(TimestampError::Parse);
            },
        };
        proof {
            lemma_digits_val_extend(s@, 0, i as int);
            assert(s@.subrange(0, i as int).len() == i);
            lemma_digits_val_nonneg(s@.subrange(0, i as int));
        }
        if big {
            assert(digits_val(s@.subrange(0, i + 1)) > HOUR_CAP);
        } else {
            let h2 = h * 10 + d;
            if h2 > HOUR_CAP {
                big = true;
            } else {
                h = h2;
            }
        }
        assert(all_digits(s@.subrange(0, i + 1))) by {
            assert(forall|j: int|
                0 <= j < i + 1 ==> s@.subrange(0, i + 1)[j] == #[trigger] s@.subrange(
                    0,
                    i as int,
                )[j] || j == i);
        }
        i += 1;
    }
    assert(body.subrange(0, body.len() - 6) =~= s@.subrange(0, hlen as int));
    assert(plain_clock_valid(body));
    proof {
        lemma_digits_val_nonneg(s@.subrange(0, hlen as int));
    }
    if big {
        assert(plain_hours(body) >= HOUR_CAP + 1);
        assert(plain_clock_ms(body) >= (HOUR_CAP + 1) * 3600000 > i64::MAX);
        return Err(TimestampError::OutOfRange);
    }
    let total = h * 3600000 + mm * 60000 + ss * 1000;
    assert(total == plain_clock_ms(body));
    if total > 9223372036854775807u64 {
        return Err(TimestampError::OutOfRange);
    }
    Ok(total)
}

impl Timestamp {
    /// Parses `[H]H:MM:SS[,mmm|.mmm]` text into an instant: flexible hour
    /// width, two-digit minutes and seconds each below 60, and an optional
    /// three-digit fraction after a comma or period. Text of any other shape
    /// is a parse error; text of this shape whose millisecond count does not
    /// fit the millisecond width is a range error.
    pub fn parse_optional_hhmmss_from_str(s: &str) -> (r: Result<Timestamp, TimestampError>)
        ensures
            hhmmss_valid(s@) && hhmmss_ms(s@) <= i64::MAX ==> (r matches Ok(t) && t@ == hhmmss_ms(
                s@,
            )),
            hhmmss_valid(s@) && hhmmss_ms(s@) > i64::MAX ==> r == Err::<Timestamp, TimestampError>(
                TimestampError::OutOfRange,
            ),
            !hhmmss_valid(s@) ==> r == Err::<Timestamp, TimestampError>(TimestampError::Parse),
    {
        let n = s.unicode_len();
        if n < 7 {
            return Err(TimestampError::Parse);
        }
        let has_sep = if n >= 11 {
            let c = s.get_char(n - 4);
            c == ',' || c == '.'
        } else {
            false
        };
        if has_sep {
            assert(!plain_clock_valid(s@));
            let f1 = match char_digit(s.get_char(n - 3)) {
                Some(d) => d,
                None => {
                    return Err(TimestampError::Parse);
                },
            };
            let f2 = match char_digit(s.get_char(n - 2)) {
                Some(d) => d,
                None => {
                    return Err(TimestampError::Parse);
                },
            };
            let f3 = match char_digit(s.get_char(n - 1)) {
                Some(d) => d,
                None => {
                    return Err(TimestampError::Parse);
                },
            };
            let frac = 100 * f1 + 10 * f2 + f3;
            assert(frac == frac_ms(s@));
            match parse_clock_body(s, n - 4) {
                Ok(v) => {
                    proof {
                        lemma_digits_val_nonneg(s@.subrange(0, n - 4).subrange(
                            0,
                            s@.subrange(0, n - 4).len() - 6,
                        ));
                    }
                    let total = v + frac;
                    if total > 9223372036854775807u64 {
                        return Err(TimestampError::OutOfRange);
                    }
                    Ok(Timestamp::from_millis(total as i64))
                },
                Err(e) => Err(e),
            }
        } else {
            assert(!frac_clock_valid(s@));
            assert(s@.subrange(0, n as int) =~= s@);
            match parse_clock_body(s, n) {
                Ok(v) => Ok(Timestamp::from_millis(v as i64)),
                Err(e) => Err(e),
            }
        }
    }
}

/// Parses a bare base-10 signed-integer literal whose value is a
/// non-negative `i64`; anything else — other text, a negative value, a
/// magnitude beyond `i64` — yields nothing.
#[verifier::loop_isolation(false)]
pub(crate) fn parse_millis_literal(s: &str) -> (r: Option<i64>)
    ensures
        int_literal_valid(s@) && 0 <= int_literal_val(s@) <= i64::MAX ==> (r matches Some(v) && (v
            as int) == int_literal_val(s@)),
        !(int_literal_valid(s@) && 0 <= int_literal_val(s@) <= i64::MAX) ==> r is None,
{
    let n = s.unicode_len();
    if n == 0 {
        return None;
    }
    let first = s.get_char(0);
    let neg = first == '-';
    let signed = neg || first == '+';
    let start: usize = if signed {
        1
    } else {
        0
    };
    if start >= n {
        return None;
    }
    let mut v: u64 = 0;
    let mut big = false;
    let mut i: usize = start;
    while i < n
        invariant
            start <= i <= n,
            all_digits(s@.subrange(start as int, i as int)),
            !big ==> v == digits_val(s@.subrange(start as int, i as int)) && v
                <= 9223372036854775807u64,
            big ==> digits_val(s@.subrange(start as int, i as int)) > i64::MAX,
        decreases n - i,
    {
        let d = match char_digit(s.get_char(i)) {
            Some(d) => d,
            None => {
                assert(s@.subrange(start as int, n as int)[i - start] == s@[i as int]);
                return None;
            },
        };
        proof {
            lemma_digits_val_extend(s@, start as int, i as int);
            assert(s@.subrange(start as int, i as int).len() == i - start);
            lemma_digits_val_nonneg(s@.subrange(start as int, i as int));
        }
        if big {
            assert(digits_val(s@.subrange(start as int, i + 1)) > i64::MAX);
        } else {
            if v > (9223372036854775807u64 - d) / 10 {
                big = true;
                assert(v * 10 + d > i64::MAX) by {
                    assert(v >= (9223372036854775807u64 - d) / 10 + 1);
                    assert(10 * ((9223372036854775807u64 - d) / 10) + 10 > 9223372036854775807u64
                        - d);
                };
            } else {
                assert(v * 10 + d <= i64::MAX) by {
                    assert(10 * v <= 10 * ((9223372036854775807u64 - d) / 10));
                    assert(10 * ((9223372036854775807u64 - d) / 10) <= 9223372036854775807u64 - d);
                };
                v = v * 10 + d;
            }
        }
        assert(all_digits(s@.subrange(start as int, i + 1))) by {
            assert(forall|j: int|
                0 <= j < i + 1 - start ==> s@.subrange(start as int, i + 1)[j] == #[trigger] s@
                    .subrange(start as int, i as int)[j] || j == i - start);
        }
        i += 1;
    }
    assert(s@.subrange(start as int, n as int) =~= s@.subrange(start as int, i as int));
    proof {
        if !signed {
            assert(s@.subrange(0, n as int) =~= s@);
        }
        lemma_digits_val_nonneg(s@.subrange(start as int, i as int));
    }
    if big {
        return None;
    }
    if neg && v > 0 {
        return None;
    }
    Some(v as i64)
}

} // verus!
