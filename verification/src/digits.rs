//! Decimal digits: spec-level views of digit characters and digit strings,
//! executable routines that append zero-padded decimal numerals to a `String`,
//! and the lemmas that connect the two.

use vstd::prelude::*;
use vstd::string::StringExecFns;

verus! {

/// The digit character for a value in [0, 9].
pub open spec fn digit_char(d: nat) -> char {
    if d == 0 {
        '0'
    } else if d == 1 {
        '1'
    } else if d == 2 {
        '2'
    } else if d == 3 {
        '3'
    } else if d == 4 {
        '4'
    } else if d == 5 {
        '5'
    } else if d == 6 {
        '6'
    } else if d == 7 {
        '7'
    } else if d == 8 {
        '8'
    } else {
        '9'
    }
}

/// Whether `c` is a decimal digit character.
pub open spec fn is_digit(c: char) -> bool {
    c == '0' || c == '1' || c == '2' || c == '3' || c == '4' || c == '5' || c == '6' || c == '7'
        || c == '8' || c == '9'
}

/// The numeric value of a digit character (9 for anything that is no digit).
pub open spec fn digit_val(c: char) -> int {
    if c == '0' {
        0
    } else if c == '1' {
        1
    } else if c == '2' {
        2
    } else if c == '3' {
        3
    } else if c == '4' {
        4
    } else if c == '5' {
        5
    } else if c == '6' {
        6
    } else if c == '7' {
        7
    } else if c == '8' {
        8
    } else {
        9
    }
}

/// Whether every character of `s` is a decimal digit.
pub open spec fn all_digits(s: Seq<char>) -> bool {
    forall|i: int| 0 <= i < s.len() ==> is_digit(#[trigger] s[i])
}

/// The decimal numeral for `n`, most significant digit first, without leading
/// zeros.
pub open spec fn dec_rep(n: nat) -> Seq<char>
    decreases n,
{
    if n < 10 {
        seq![digit_char(n)]
    } else {
        dec_rep(n / 10).push(digit_char(n % 10))
    }
}

/// The value of a digit string read as a base-10 numeral (0 for the empty
/// string).
pub open spec fn digits_val(s: Seq<char>) -> int
    decreases s.len(),
{
    if s.len() == 0 {
        0
    } else {
        digits_val(s.drop_last()) * 10 + digit_val(s.last())
    }
}

/// `n` as a decimal numeral of at least two digits.
pub open spec fn pad2_rep(n: nat) -> Seq<char> {
    if n < 10 {
        seq!['0'] + dec_rep(n)
    } else {
        dec_rep(n)
    }
}

/// `n` as a decimal numeral of at least three digits.
pub open spec fn pad3_rep(n: nat) -> Seq<char> {
    if n < 10 {
        seq!['0', '0'] + dec_rep(n)
    } else if n < 100 {
        seq!['0'] + dec_rep(n)
    } else {
        dec_rep(n)
    }
}

/// The numeral for `n` consists of digits alone, and has one digit for
/// `n < 10`, two for `n < 100`, three for `n < 1000`.
pub proof fn lemma_dec_rep_shape(n: nat)
    ensures
        all_digits(dec_rep(n)),
        dec_rep(n).len() >= 1,
        n < 10 ==> dec_rep(n).len() == 1,
        10 <= n < 100 ==> dec_rep(n).len() == 2,
        100 <= n < 1000 ==> dec_rep(n).len() == 3,
        n >= 10 ==> dec_rep(n).len() >= 2,
    decreases n,
{
    if n < 10 {
        assert(is_digit(digit_char(n)));
    } else {
        lemma_dec_rep_shape(n / 10);
        assert(is_digit(digit_char(n % 10)));
    }
}

/// Reading the numeral for `n` back as a numeral yields `n`.
pub proof fn lemma_dec_rep_val(n: nat)
    ensures
        digits_val(dec_rep(n)) == n,
    decreases n,
{
    if n < 10 {
        let s = seq![digit_char(n)];
        assert(dec_rep(n) == s);
        assert(s.drop_last() =~= Seq::<char>::empty());
        assert(digits_val(Seq::<char>::empty()) == 0);
        assert(s.last() == digit_char(n));
        assert(digit_val(digit_char(n)) == n);
        assert(digits_val(s) == digits_val(s.drop_last()) * 10 + digit_val(s.last()));
    } else {
        lemma_dec_rep_val(n / 10);
        let s = dec_rep(n / 10).push(digit_char(n % 10));
        assert(dec_rep(n) == s);
        assert(s.drop_last() =~= dec_rep(n / 10));
        assert(s.last() == digit_char(n % 10));
        assert(digit_val(digit_char(n % 10)) == n % 10);
        assert(digits_val(s) == digits_val(s.drop_last()) * 10 + digit_val(s.last()));
        assert(n == (n / 10) * 10 + n % 10);
    }
}

/// A digit string has a non-negative value.
pub proof fn lemma_digits_val_nonneg(s: Seq<char>)
    requires
        all_digits(s),
    ensures
        digits_val(s) >= 0,
    decreases s.len(),
{
    if s.len() > 0 {
        lemma_digits_val_nonneg(s.drop_last());
    }
}

/// A leading zero does not change the value of a digit string.
pub proof fn lemma_leading_zero(s: Seq<char>)
    ensures
        digits_val(seq!['0'] + s) == digits_val(s),
    decreases s.len(),
{
    let z = seq!['0'] + s;
    if s.len() == 0 {
        assert(z =~= seq!['0']);
        assert(z.drop_last() =~= Seq::<char>::empty());
        assert(digits_val(Seq::<char>::empty()) == 0);
        assert(z.last() == '0');
        assert(digits_val(z) == digits_val(z.drop_last()) * 10 + digit_val(z.last()));
    } else {
        lemma_leading_zero(s.drop_last());
        assert(z.drop_last() =~= seq!['0'] + s.drop_last());
        assert(z.last() == s.last());
        assert(digits_val(z) == digits_val(z.drop_last()) * 10 + digit_val(z.last()));
        assert(digits_val(s) == digits_val(s.drop_last()) * 10 + digit_val(s.last()));
    }
}

/// A padded numeral is still all digits and still reads back as `n`.
pub proof fn lemma_pad_rep_val(n: nat)
    ensures
        all_digits(pad2_rep(n)),
        all_digits(pad3_rep(n)),
        digits_val(pad2_rep(n)) == n,
        digits_val(pad3_rep(n)) == n,
        pad2_rep(n).len() >= 2,
        n < 100 ==> pad2_rep(n).len() == 2,
        n < 1000 ==> pad3_rep(n).len() == 3,
{
    lemma_dec_rep_shape(n);
    lemma_dec_rep_val(n);
    lemma_leading_zero(dec_rep(n));
    lemma_leading_zero(seq!['0'] + dec_rep(n));
    assert(seq!['0', '0'] + dec_rep(n) =~= seq!['0'] + (seq!['0'] + dec_rep(n)));
    assert forall|i: int| 0 <= i < pad2_rep(n).len() implies is_digit(#[trigger] pad2_rep(n)[i]) by {
        assert(is_digit('0'));
    }
    assert forall|i: int| 0 <= i < pad3_rep(n).len() implies is_digit(#[trigger] pad3_rep(n)[i]) by {
        assert(is_digit('0'));
    }
}

/// Extending a digit string by one character multiplies its value by ten and
/// adds the new digit.
pub proof fn lemma_digits_val_extend(s: Seq<char>, a: int, k: int)
    requires
        0 <= a <= k < s.len(),
    ensures
        digits_val(s.subrange(a, k + 1)) == digits_val(s.subrange(a, k)) * 10 + digit_val(s[k]),
{
    let t = s.subrange(a, k + 1);
    assert(t.drop_last() =~= s.subrange(a, k));
    assert(t.last() == s[k]);
    assert(digits_val(t) == digits_val(t.drop_last()) * 10 + digit_val(t.last()));
}

/// The value of a two-character digit string, spelled out.
pub proof fn lemma_digits_val_pair(s: Seq<char>)
    requires
        s.len() == 2,
    ensures
        digits_val(s) == 10 * digit_val(s[0]) + digit_val(s[1]),
{
    assert(s.drop_last() =~= seq![s[0]]);
    assert(seq![s[0]].drop_last() =~= Seq::<char>::empty());
    assert(digits_val(Seq::<char>::empty()) == 0);
    assert(digits_val(seq![s[0]]) == digit_val(s[0]));
    assert(s.last() == s[1]);
    assert(digits_val(s) == digits_val(s.drop_last()) * 10 + digit_val(s.last()));
}

/// The value of a three-character digit string, spelled out.
pub proof fn lemma_digits_val_triple(s: Seq<char>)
    requires
        s.len() == 3,
    ensures
        digits_val(s) == 100 * digit_val(s[0]) + 10 * digit_val(s[1]) + digit_val(s[2]),
{
    assert(s.drop_last() =~= seq![s[0], s[1]]);
    lemma_digits_val_pair(seq![s[0], s[1]]);
}

/// The numeric value of a digit character, or nothing for any other
/// character.
pub(crate) fn char_digit(c: char) -> (r: Option<u64>)
    ensures
        r is Some <==> is_digit(c),
        r matches Some(d) ==> d == digit_val(c) && d < 10,
{
    if c == '0' {
        Some(0)
    } else if c == '1' {
        Some(1)
    } else if c == '2' {
        Some(2)
    } else if c == '3' {
        Some(3)
    } else if c == '4' {
        Some(4)
    } else if c == '5' {
        Some(5)
    } else if c == '6' {
        Some(6)
    } else if c == '7' {
        Some(7)
    } else if c == '8' {
        Some(8)
    } else if c == '9' {
        Some(9)
    } else {
        None
    }
}

/// Appends the single digit `d` to `buf`.
pub(crate) fn append_digit(buf: &mut String, d: u64)
    requires
        d < 10,
    ensures
        final(buf)@ == old(buf)@ + seq![digit_char(d as nat)],
{
    if d == 0 {
        buf.append("0");
        proof {
            reveal_strlit("0");
            assert(final(buf)@ =~= old(buf)@ + seq![digit_char(d as nat)]);
        }
    } else if d == 1 {
        buf.append("1");
        proof {
            reveal_strlit("1");
            assert(final(buf)@ =~= old(buf)@ + seq![digit_char(d as nat)]);
        }
    } else if d == 2 {
        buf.append("2");
        proof {
            reveal_strlit("2");
            assert(final(buf)@ =~= old(buf)@ + seq![digit_char(d as nat)]);
        }
    } else if d == 3 {
        buf.append("3");
        proof {
            reveal_strlit("3");
            assert(final(buf)@ =~= old(buf)@ + seq![digit_char(d as nat)]);
        }
    } else if d == 4 {
        buf.append("4");
        proof {
            reveal_strlit("4");
            assert(final(buf)@ =~= old(buf)@ + seq![digit_char(d as nat)]);
        }
    } else if d == 5 {
        buf.append("5");
        proof {
            reveal_strlit("5");
            assert(final(buf)@ =~= old(buf)@ + seq![digit_char(d as nat)]);
        }
    } else if d == 6 {
        buf.append("6");
        proof {
            reveal_strlit("6");
            assert(final(buf)@ =~= old(buf)@ + seq![digit_char(d as nat)]);
        }
    } else if d == 7 {
        buf.append("7");
        proof {
            reveal_strlit("7");
            assert(final(buf)@ =~= old(buf)@ + seq![digit_char(d as nat)]);
        }
    } else if d == 8 {
        buf.append("8");
        proof {
            reveal_strlit("8");
            assert(final(buf)@ =~= old(buf)@ + seq![digit_char(d as nat)]);
        }
    } else {
        buf.append("9");
        proof {
            reveal_strlit("9");
            assert(final(buf)@ =~= old(buf)@ + seq![digit_char(d as nat)]);
        }
    }
}

/// Appends the decimal numeral for `n` to `buf`, without padding.
pub(crate) fn append_dec(buf: &mut String, n: u64)
    ensures
        final(buf)@ == old(buf)@ + dec_rep(n as nat),
    decreases n,
{
    if n < 10 {
        append_digit(buf, n);
    } else {
        append_dec(buf, n / 10);
        append_digit(buf, n % 10);
        proof {
            assert(final(buf)@ =~= old(buf)@ + dec_rep(n as nat));
        }
    }
}

/// Appends the decimal numeral for `n`, zero-padded to at least two digits.
pub(crate) fn append_pad2(buf: &mut String, n: u64)
    ensures
        final(buf)@ == old(buf)@ + pad2_rep(n as nat),
{
    if n < 10 {
        append_digit(buf, 0);
        append_digit(buf, n);
        proof {
            assert(final(buf)@ =~= old(buf)@ + pad2_rep(n as nat));
        }
    } else {
        append_dec(buf, n);
    }
}

/// Appends the decimal numeral for `n`, zero-padded to at least three digits.
pub(crate) fn append_pad3(buf: &mut String, n: u64)
    ensures
        final(buf)@ == old(buf)@ + pad3_rep(n as nat),
{
    if n < 10 {
        append_digit(buf, 0);
        append_digit(buf, 0);
        append_digit(buf, n);
        proof {
            assert(final(buf)@ =~= old(buf)@ + pad3_rep(n as nat));
        }
    } else if n < 100 {
        append_digit(buf, 0);
        append_dec(buf, n);
        proof {
            assert(final(buf)@ =~= old(buf)@ + pad3_rep(n as nat));
        }
    } else {
        append_dec(buf, n);
    }
}

} // verus!
