//! Laws relating the writers and the parser: a written clock time parses
//! back to the instant it was written from, and a sub-second instant writes
//! as an all-zero clock with its three-digit millisecond remainder.

use vstd::prelude::*;
use vstd::arithmetic::div_mod::{lemma_div_denominator, lemma_fundamental_div_mod};

use crate::digits::{
    all_digits, dec_rep, digits_val, is_digit, pad2_rep, pad3_rep, lemma_digits_val_pair,
    lemma_digits_val_triple, lemma_pad_rep_val,
};
use crate::parse::{
    frac_clock_valid, frac_ms, hhmmss_ms, hhmmss_valid, plain_clock_ms, plain_clock_valid,
    plain_hours, plain_minutes, plain_seconds,
};
use crate::units::{
    clock_rep, hms_rep, hours_of, millis_of, minutes_of, seconds_of, srt_rep, vtt_rep,
};

verus! {

/// A non-negative millisecond count is the weighted sum of the clock fields
/// it decomposes into.
proof fn lemma_clock_decomposition(m: int)
    requires
        0 <= m,
    ensures
        m == hours_of(m) * 3600000 + minutes_of(m) * 60000 + seconds_of(m) * 1000 + millis_of(m),
{
    lemma_fundamental_div_mod(m, 1000);
    lemma_fundamental_div_mod(m / 1000, 60);
    lemma_div_denominator(m, 1000, 60);
    lemma_fundamental_div_mod(m / 60000, 60);
    lemma_div_denominator(m, 60000, 60);
    assert(m == 1000 * (m / 1000) + m % 1000);
    assert(m / 1000 == 60 * (m / 60000) + (m / 1000) % 60);
    assert(m / 60000 == 60 * (m / 3600000) + (m / 60000) % 60);
}

/// Law: the clock text written for a non-negative instant matches the clock
/// grammar in its fractional shape, and parses back to that same instant —
/// the hour field is unbounded on both sides, so no instant is lost.
pub proof fn lemma_clock_round_trip(m: int, sep: char)
    requires
        0 <= m,
        sep == ',' || sep == '.',
    ensures
        frac_clock_valid(clock_rep(m, sep)),
        hhmmss_valid(clock_rep(m, sep)),
        hhmmss_ms(clock_rep(m, sep)) == m,
{
    let h = hours_of(m);
    let mn = minutes_of(m);
    let sc = seconds_of(m);
    let ms = millis_of(m);
    assert(0 <= h && 0 <= mn < 60 && 0 <= sc < 60 && 0 <= ms < 1000);
    let hp = pad2_rep(h as nat);
    let mp = pad2_rep(mn as nat);
    let sp = pad2_rep(sc as nat);
    let fp = pad3_rep(ms as nat);
    lemma_pad_rep_val(h as nat);
    lemma_pad_rep_val(mn as nat);
    lemma_pad_rep_val(sc as nat);
    lemma_pad_rep_val(ms as nat);
    let body = hms_rep(m);
    let s = clock_rep(m, sep);
    let bl = body.len() as int;
    assert(bl == hp.len() + 6);
    assert(s.len() == bl + 4);

    // the written text, position by position
    assert(s.subrange(0, s.len() - 4) =~= body);
    assert(s[s.len() - 4] == sep);
    assert(s[s.len() - 3] == fp[0] && s[s.len() - 2] == fp[1] && s[s.len() - 1] == fp[2]);
    assert(is_digit(fp[0]) && is_digit(fp[1]) && is_digit(fp[2]));

    // the body matches the plain clock shape
    assert(body.subrange(0, bl - 6) =~= hp);
    assert(body[bl - 6] == ':' && body[bl - 3] == ':');
    assert(body[bl - 5] == mp[0] && body[bl - 4] == mp[1]);
    assert(body[bl - 2] == sp[0] && body[bl - 1] == sp[1]);
    assert(is_digit(mp[0]) && is_digit(mp[1]) && is_digit(sp[0]) && is_digit(sp[1]));
    lemma_digits_val_pair(mp);
    lemma_digits_val_pair(sp);
    assert(plain_minutes(body) == digits_val(mp) == mn);
    assert(plain_seconds(body) == digits_val(sp) == sc);
    assert(plain_clock_valid(body));
    assert(plain_hours(body) == digits_val(hp) == h);

    // the fraction digits carry the millisecond remainder
    lemma_digits_val_triple(fp);
    assert(frac_ms(s) == digits_val(fp) == ms);
    assert(frac_clock_valid(s));

    // and the fields sum back to the instant
    lemma_clock_decomposition(m);
    assert(hhmmss_ms(s) == plain_clock_ms(body) + frac_ms(s));
    assert(hhmmss_ms(s) == m);
}

/// Law: SRT text written for a non-negative instant parses back to it.
pub proof fn lemma_srt_round_trip(m: int)
    requires
        0 <= m,
    ensures
        hhmmss_valid(srt_rep(m)),
        hhmmss_ms(srt_rep(m)) == m,
{
    lemma_clock_round_trip(m, ',');
}

/// Law: WebVTT text written for a non-negative instant parses back to it.
pub proof fn lemma_vtt_round_trip(m: int)
    requires
        0 <= m,
    ensures
        hhmmss_valid(vtt_rep(m)),
        hhmmss_ms(vtt_rep(m)) == m,
{
    lemma_clock_round_trip(m, '.');
}

/// Law: an instant below one second writes as an all-zero clock followed by
/// its millisecond count zero-padded to exactly three digits.
pub proof fn lemma_sub_second_rep(m: int)
    requires
        0 <= m < 1000,
    ensures
        srt_rep(m) == seq!['0', '0', ':', '0', '0', ':', '0', '0', ','] + pad3_rep(m as nat),
        vtt_rep(m) == seq!['0', '0', ':', '0', '0', ':', '0', '0', '.'] + pad3_rep(m as nat),
        pad3_rep(m as nat).len() == 3,
        all_digits(pad3_rep(m as nat)),
        digits_val(pad3_rep(m as nat)) == m,
{
    assert(hours_of(m) == 0 && minutes_of(m) == 0 && seconds_of(m) == 0 && millis_of(m) == m);
    assert(dec_rep(0) =~= seq!['0']);
    assert(pad2_rep(0) =~= seq!['0', '0']);
    lemma_pad_rep_val(m as nat);
    assert(srt_rep(m) =~= seq!['0', '0', ':', '0', '0', ':', '0', '0', ','] + pad3_rep(m as nat));
    assert(vtt_rep(m) =~= seq!['0', '0', ':', '0', '0', ':', '0', '0', '.'] + pad3_rep(m as nat));
}

} // verus!
