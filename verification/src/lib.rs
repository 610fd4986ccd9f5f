//! Millisecond instants and their textual timestamp forms.
//!
//! A [`Timestamp`] is a signed count of milliseconds. It can be written as an
//! SRT subtitle time (`HH:MM:SS,mmm`), a WebVTT time (`HH:MM:SS.mmm`), or one
//! of a closed set of generic clock layouts, and it can be read back from
//! `[H]H:MM:SS[,mmm|.mmm]` text or from a bare millisecond count.

pub mod digits;
pub mod laws;
pub mod parse;
pub mod units;

pub use units::{Timestamp, TimestampError, TimestampFormat};

use vstd::prelude::*;

verus! {

use crate::parse::{hhmmss_valid, hhmmss_ms, int_literal_valid, int_literal_val, parse_millis_literal};
use crate::units::{clock_rep, hms_rep, seconds_rep, srt_rep, vtt_rep};

/// Appends the SRT time form `HH:MM:SS,mmm` of `timestamp` to `buffer`; a
/// negative instant is a range error and leaves `buffer` as it was.
pub fn timestamp_to_srttime(timestamp: Timestamp, buffer: &mut String) -> (r: Result<
    (),
    TimestampError,
>)
    ensures
        timestamp@ >= 0 ==> r is Ok && final(buffer)@ == old(buffer)@ + srt_rep(timestamp@),
        timestamp@ < 0 ==> r == Err::<(), TimestampError>(TimestampError::OutOfRange)
            && final(buffer)@ == old(buffer)@,
{
    timestamp.write_srt_time(buffer)
}

/// Appends the WebVTT time form `HH:MM:SS.mmm` of `timestamp` to `buffer`; a
/// negative instant is a range error and leaves `buffer` as it was.
pub fn timestamp_to_vtttime(timestamp: Timestamp, buffer: &mut String) -> (r: Result<
    (),
    TimestampError,
>)
    ensures
        timestamp@ >= 0 ==> r is Ok && final(buffer)@ == old(buffer)@ + vtt_rep(timestamp@),
        timestamp@ < 0 ==> r == Err::<(), TimestampError>(TimestampError::OutOfRange)
            && final(buffer)@ == old(buffer)@,
{
    timestamp.write_vtt_time(buffer)
}

/// Appends the clock layout selected by `date_format` to `buffer`; the empty
/// layout always succeeds and writes nothing, every other layout is a range
/// error on a negative instant and leaves `buffer` as it was.
pub fn millis_to_date(
    timestamp: Timestamp,
    buffer: &mut String,
    date_format: TimestampFormat,
) -> (r: Result<(), TimestampError>)
    ensures
        date_format == TimestampFormat::Empty ==> r is Ok && final(buffer)@ == old(buffer)@,
        date_format != TimestampFormat::Empty && timestamp@ < 0 ==> r == Err::<(), TimestampError>(
            TimestampError::OutOfRange,
        ) && final(buffer)@ == old(buffer)@,
        date_format == TimestampFormat::HHMMSS && timestamp@ >= 0 ==> r is Ok
            && final(buffer)@ == old(buffer)@ + hms_rep(timestamp@),
        date_format == TimestampFormat::Seconds && timestamp@ >= 0 ==> r is Ok
            && final(buffer)@ == old(buffer)@ + seconds_rep(timestamp@, ','),
        date_format == TimestampFormat::HHMMSSFFF && timestamp@ >= 0 ==> r is Ok
            && final(buffer)@ == old(buffer)@ + clock_rep(timestamp@, ','),
{
    timestamp.write_formatted_time(buffer, date_format)
}

/// Best-effort parse of `s` as a timestamp: first against the clock grammar
/// `[H]H:MM:SS[,mmm|.mmm]`, then as a bare non-negative base-10 millisecond
/// count; in that order, so that colon text is never read as a bare count.
/// Text that fits neither grammar, a negative count, and a count beyond the
/// millisecond width all yield nothing.
pub fn stringztoms(s: &str) -> (r: Option<Timestamp>)
    ensures
        hhmmss_valid(s@) && hhmmss_ms(s@) <= i64::MAX ==> (r matches Some(t) && t@ == hhmmss_ms(
            s@,
        )),
        !(hhmmss_valid(s@) && hhmmss_ms(s@) <= i64::MAX) && int_literal_valid(s@) && 0
            <= int_literal_val(s@) <= i64::MAX ==> (r matches Some(t) && t@ == int_literal_val(
            s@,
        )),
        !(hhmmss_valid(s@) && hhmmss_ms(s@) <= i64::MAX) && !(int_literal_valid(s@) && 0
            <= int_literal_val(s@) <= i64::MAX) ==> r is None,
{
    match Timestamp::parse_optional_hhmmss_from_str(s) {
        Ok(t) => Some(t),
        Err(_) => match parse_millis_literal(s) {
            Some(v) => Some(Timestamp::from_millis(v)),
            None => None,
        },
    }
}

} // verus!
