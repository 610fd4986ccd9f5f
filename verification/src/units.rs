//! The `Timestamp` value type, its failure and layout enumerations, and the
//! writers that append a timestamp's textual forms to a caller-supplied
//! `String`.

use vstd::prelude::*;
use vstd::string::StringExecFns;

use crate::digits::{dec_rep, pad2_rep, pad3_rep, append_dec, append_pad2, append_pad3};

verus! {

/// Why a conversion failed.
#[derive(Clone, Copy, Debug, PartialEq, Eq, Structural)]
pub enum TimestampError {
    /// The input text matches no recognized timestamp layout, or a field of
    /// it is outside its allowed range.
    Parse,
    /// The instant is outside the range the requested form can express: a
    /// negative instant handed to a writer defined for non-negative ones, or
    /// a parsed magnitude that does not fit the millisecond width.
    OutOfRange,
    /// The output sink rejected the append. The `String`-backed writers of
    /// this crate never produce it; it closes the set of failure reasons for
    /// sinks that can refuse text.
    WriteFailed,
}

/// Which clock layout `Timestamp::write_formatted_time` produces.
#[derive(Clone, Copy, Debug, PartialEq, Eq, Structural)]
pub enum TimestampFormat {
    /// Write nothing.
    Empty,
    /// `HH:MM:SS`, each field two digits at least.
    HHMMSS,
    /// Total seconds, a comma, then the millisecond remainder as three
    /// digits.
    Seconds,
    /// `HH:MM:SS,mmm`: the `HHMMSS` layout followed by a comma and the
    /// millisecond remainder as three digits.
    HHMMSSFFF,
}

/// An instant or duration as a signed count of milliseconds.
#[derive(Clone, Copy, Debug, PartialEq, Eq, Structural)]
pub struct Timestamp {
    millis: i64,
}

impl View for Timestamp {
    type V = int;

    closed spec fn view(&self) -> int {
        self.millis as int
    }
}

/// The hour count of a non-negative millisecond count.
pub open spec fn hours_of(m: int) -> int {
    m / 3600000
}

/// The minute-of-hour of a non-negative millisecond count.
pub open spec fn minutes_of(m: int) -> int {
    (m / 60000) % 60
}

/// The second-of-minute of a non-negative millisecond count.
pub open spec fn seconds_of(m: int) -> int {
    (m / 1000) % 60
}

/// The millisecond remainder of a non-negative millisecond count.
pub open spec fn millis_of(m: int) -> int {
    m % 1000
}

/// `HH:MM:SS` for the non-negative millisecond count `m`: hours, minute of
/// hour and second of minute, each zero-padded to two digits at least.
pub open spec fn hms_rep(m: int) -> Seq<char> {
    pad2_rep(hours_of(m) as nat) + seq![':'] + pad2_rep(minutes_of(m) as nat) + seq![':']
        + pad2_rep(seconds_of(m) as nat)
}

/// `HH:MM:SS` followed by `sep` and the three-digit millisecond remainder.
pub open spec fn clock_rep(m: int, sep: char) -> Seq<char> {
    hms_rep(m) + seq![sep] + pad3_rep(millis_of(m) as nat)
}

/// The SRT time form `HH:MM:SS,mmm` of a non-negative millisecond count.
pub open spec fn srt_rep(m: int) -> Seq<char> {
    clock_rep(m, ',')
}

/// The WebVTT time form `HH:MM:SS.mmm` of a non-negative millisecond count.
pub open spec fn vtt_rep(m: int) -> Seq<char> {
    clock_rep(m, '.')
}

/// Total seconds, `sep`, then the three-digit millisecond remainder.
pub open spec fn seconds_rep(m: int, sep: char) -> Seq<char> {
    dec_rep((m / 1000) as nat) + seq![sep] + pad3_rep(millis_of(m) as nat)
}

/// Appends `:` to `buf`.
fn append_colon(buf: &mut String)
    ensures
        final(buf)@ == old(buf)@ + seq![':'],
{
    buf.append(":");
    proof {
        reveal_strlit(":");
        assert(final(buf)@ =~= old(buf)@ + seq![':']);
    }
}

/// Appends `HH:MM:SS` for the millisecond count `m`.
fn append_hms(buf: &mut String, m: u64)
    ensures
        final(buf)@ == old(buf)@ + hms_rep(m as int),
{
    append_pad2(buf, m / 3600000);
    append_colon(buf);
    append_pad2(buf, (m / 60000) % 60);
    append_colon(buf);
    append_pad2(buf, (m / 1000) % 60);
    proof {
        assert(final(buf)@ =~= old(buf)@ + hms_rep(m as int));
    }
}

/// Appends `HH:MM:SS`, the separator, and the three-digit milliseconds.
fn append_clock(buf: &mut String, m: u64, comma: bool)
    ensures
        final(buf)@ == old(buf)@ + clock_rep(m as int, if comma { ',' } else { '.' }),
{
    append_hms(buf, m);
    if comma {
        buf.append(",");
        proof {
            reveal_strlit(",");
        }
    } else {
        buf.append(".");
        proof {
            reveal_strlit(".");
        }
    }
    append_pad3(buf, m % 1000);
    proof {
        let sep: char = if comma { ',' } else { '.' };
        assert(final(buf)@ =~= old(buf)@ + clock_rep(m as int, sep));
    }
}

impl Timestamp {
    /// Builds the instant for a raw millisecond count; every `i64` count is
    /// accepted as it stands.
    pub fn from_millis(millis: i64) -> (t: Timestamp)
        ensures
            t@ == millis as int,
    {
        Timestamp { millis }
    }

    /// The raw millisecond count of the instant.
    pub fn millis(&self) -> (m: i64)
        ensures
            m as int == self@,
    {
        self.millis
    }

    /// Appends the SRT time form `HH:MM:SS,mmm` of the instant to `buffer`.
    /// A negative instant has no SRT form: the call fails with a range error
    /// and leaves `buffer` as it was.
    pub fn write_srt_time(&self, buffer: &mut String) -> (r: Result<(), TimestampError>)
        ensures
            self@ >= 0 ==> r is Ok && final(buffer)@ == old(buffer)@ + srt_rep(self@),
            self@ < 0 ==> r == Err::<(), TimestampError>(TimestampError::OutOfRange)
                && final(buffer)@ == old(buffer)@,
    {
        if self.millis < 0 {
            return Err(TimestampError::OutOfRange);
        }
        append_clock(buffer, self.millis as u64, true);
        Ok(())
    }

    /// Appends the WebVTT time form `HH:MM:SS.mmm` of the instant to
    /// `buffer`. A negative instant has no WebVTT form: the call fails with a
    /// range error and leaves `buffer` as it was.
    pub fn write_vtt_time(&self, buffer: &mut String) -> (r: Result<(), TimestampError>)
        ensures
            self@ >= 0 ==> r is Ok && final(buffer)@ == old(buffer)@ + vtt_rep(self@),
            self@ < 0 ==> r == Err::<(), TimestampError>(TimestampError::OutOfRange)
                && final(buffer)@ == old(buffer)@,
    {
        if self.millis < 0 {
            return Err(TimestampError::OutOfRange);
        }
        append_clock(buffer, self.millis as u64, false);
        Ok(())
    }

    /// Appends the clock layout selected by `format` to `buffer`. The empty
    /// layout writes nothing, whatever the instant; every other layout is
    /// defined for non-negative instants alone and fails with a range error,
    /// leaving `buffer` as it was, on a negative one.
    pub fn write_formatted_time(&self, buffer: &mut String, format: TimestampFormat) -> (r: Result<
        (),
        TimestampError,
    >)
        ensures
            format == TimestampFormat::Empty ==> r is Ok && final(buffer)@ == old(buffer)@,
            format != TimestampFormat::Empty && self@ < 0 ==> r == Err::<(), TimestampError>(
                TimestampError::OutOfRange,
            ) && final(buffer)@ == old(buffer)@,
            format == TimestampFormat::HHMMSS && self@ >= 0 ==> r is Ok
                && final(buffer)@ == old(buffer)@ + hms_rep(self@),
            format == TimestampFormat::Seconds && self@ >= 0 ==> r is Ok
                && final(buffer)@ == old(buffer)@ + seconds_rep(self@, ','),
            format == TimestampFormat::HHMMSSFFF && self@ >= 0 ==> r is Ok && final(buffer)@
                == old(buffer)@ + clock_rep(self@, ','),
    {
        match format {
            TimestampFormat::Empty => Ok(()),
            TimestampFormat::HHMMSS => {
                if self.millis < 0 {
                    return Err(TimestampError::OutOfRange);
                }
                append_hms(buffer, self.millis as u64);
                Ok(())
            },
            TimestampFormat::Seconds => {
                if self.millis < 0 {
                    return Err(TimestampError::OutOfRange);
                }
                let m = self.millis as u64;
                append_dec(buffer, m / 1000);
                buffer.append(",");
                proof {
                    reveal_strlit(",");
                }
                append_pad3(buffer, m % 1000);
                proof {
                    assert(final(buffer)@ =~= old(buffer)@ + seconds_rep(self@, ','));
                }
                Ok(())
            },
            TimestampFormat::HHMMSSFFF => {
                if self.millis < 0 {
                    return Err(TimestampError::OutOfRange);
                }
                append_clock(buffer, self.millis as u64, true);
                Ok(())
            },
        }
    }
}

} // verus!
