use ccxr_time::{millis_to_date, stringztoms, timestamp_to_srttime, timestamp_to_vtttime};
use ccxr_time::{Timestamp, TimestampError, TimestampFormat};

fn srt_string(millis: i64) -> Result<String, TimestampError> {
    let mut buf = String::new();
    timestamp_to_srttime(Timestamp::from_millis(millis), &mut buf)?;
    Ok(buf)
}

fn vtt_string(millis: i64) -> Result<String, TimestampError> {
    let mut buf = String::new();
    timestamp_to_vtttime(Timestamp::from_millis(millis), &mut buf)?;
    Ok(buf)
}

#[test]
fn sub_second_instants_write_as_zero_clock() {
    for m in 0..1000i64 {
        assert_eq!(srt_string(m).unwrap(), format!("00:00:00,{:03}", m));
        assert_eq!(vtt_string(m).unwrap(), format!("00:00:00.{:03}", m));
    }
}

#[test]
fn example_instant_srt_and_vtt() {
    assert_eq!(srt_string(3723005).unwrap(), "01:02:03,005");
    assert_eq!(vtt_string(3723005).unwrap(), "01:02:03.005");
}

#[test]
fn hours_exceed_two_digits_without_truncation() {
    assert_eq!(srt_string(100 * 3600000).unwrap(), "100:00:00,000");
    assert_eq!(srt_string(i64::MAX).unwrap(), "2562047788015:12:55,807");
}

#[test]
fn writers_append_after_prior_content() {
    let mut buf = String::from("cue --> ");
    timestamp_to_vtttime(Timestamp::from_millis(1500), &mut buf).unwrap();
    assert_eq!(buf, "cue --> 00:00:01.500");
}

#[test]
fn negative_instant_is_a_range_error_and_writes_nothing() {
    let mut buf = String::from("kept");
    let r = timestamp_to_srttime(Timestamp::from_millis(-1), &mut buf);
    assert_eq!(r, Err(TimestampError::OutOfRange));
    assert_eq!(buf, "kept");
    let r = timestamp_to_vtttime(Timestamp::from_millis(-5000), &mut buf);
    assert_eq!(r, Err(TimestampError::OutOfRange));
    assert_eq!(buf, "kept");
}

#[test]
fn stringztoms_reads_clock_text() {
    assert_eq!(stringztoms("01:02:03,005"), Some(Timestamp::from_millis(3723005)));
    assert_eq!(stringztoms("01:02:03.005"), Some(Timestamp::from_millis(3723005)));
    assert_eq!(stringztoms("01:02:03"), Some(Timestamp::from_millis(3723000)));
}

#[test]
fn stringztoms_reads_bare_millisecond_counts() {
    assert_eq!(stringztoms("5000"), Some(Timestamp::from_millis(5000)));
    assert_eq!(stringztoms("0"), Some(Timestamp::from_millis(0)));
    assert_eq!(stringztoms("+5000"), Some(Timestamp::from_millis(5000)));
    assert_eq!(stringztoms("-0"), Some(Timestamp::from_millis(0)));
}

#[test]
fn stringztoms_rejects_negative_counts() {
    assert_eq!(stringztoms("-5000"), None);
    assert_eq!(stringztoms("-1"), None);
}

#[test]
fn stringztoms_rejects_unrecognized_text() {
    assert_eq!(stringztoms("not-a-time"), None);
    assert_eq!(stringztoms(""), None);
    assert_eq!(stringztoms("+"), None);
    assert_eq!(stringztoms("12:34"), None);
    assert_eq!(stringztoms("01-02-03"), None);
    assert_eq!(stringztoms("5000 "), None);
}

#[test]
fn stringztoms_rejects_counts_beyond_the_millisecond_width() {
    assert_eq!(
        stringztoms("9223372036854775807"),
        Some(Timestamp::from_millis(i64::MAX))
    );
    assert_eq!(stringztoms("9223372036854775808"), None);
    assert_eq!(stringztoms("99999999999999999999999"), None);
}

#[test]
fn parse_accepts_flexible_hour_widths() {
    let parse = Timestamp::parse_optional_hhmmss_from_str;
    assert_eq!(parse("0:00:00"), Ok(Timestamp::from_millis(0)));
    assert_eq!(parse("9:59:59"), Ok(Timestamp::from_millis(35999000)));
    assert_eq!(parse("100:00:00,000"), Ok(Timestamp::from_millis(360000000)));
}

#[test]
fn parse_rejects_minute_and_second_fields_of_sixty() {
    let parse = Timestamp::parse_optional_hhmmss_from_str;
    assert_eq!(parse("00:60:00"), Err(TimestampError::Parse));
    assert_eq!(parse("00:00:60"), Err(TimestampError::Parse));
    assert_eq!(parse("00:59:59"), Ok(Timestamp::from_millis(3599000)));
}

#[test]
fn parse_rejects_malformed_shapes() {
    let parse = Timestamp::parse_optional_hhmmss_from_str;
    assert_eq!(parse(":00:00"), Err(TimestampError::Parse));
    assert_eq!(parse("1:2:03"), Err(TimestampError::Parse));
    assert_eq!(parse("01:02:03,05"), Err(TimestampError::Parse));
    assert_eq!(parse("01:02:03,0055"), Err(TimestampError::Parse));
    assert_eq!(parse("01:02:03;005"), Err(TimestampError::Parse));
    assert_eq!(parse("01:02:0x"), Err(TimestampError::Parse));
}

#[test]
fn parse_rejects_hour_magnitudes_beyond_the_millisecond_width() {
    let parse = Timestamp::parse_optional_hhmmss_from_str;
    assert_eq!(parse("2562047788015:12:55,807"), Ok(Timestamp::from_millis(i64::MAX)));
    assert_eq!(parse("2562047788015:12:55,808"), Err(TimestampError::OutOfRange));
    assert_eq!(parse("2562047788016:00:00"), Err(TimestampError::OutOfRange));
    assert_eq!(
        parse("99999999999999999999:00:00"),
        Err(TimestampError::OutOfRange)
    );
    assert_eq!(stringztoms("2562047788016:00:00"), None);
}

#[test]
fn written_clock_text_parses_back() {
    let samples: [i64; 10] = [
        0,
        1,
        999,
        1000,
        59999,
        3599999,
        3600000,
        86400000,
        123456789012,
        i64::MAX,
    ];
    for &m in samples.iter() {
        let srt = srt_string(m).unwrap();
        assert_eq!(
            Timestamp::parse_optional_hhmmss_from_str(&srt),
            Ok(Timestamp::from_millis(m))
        );
        let vtt = vtt_string(m).unwrap();
        assert_eq!(stringztoms(&vtt), Some(Timestamp::from_millis(m)));
    }
}

#[test]
fn millis_to_date_layouts() {
    let t = Timestamp::from_millis(3723005);
    let mut buf = String::new();
    millis_to_date(t, &mut buf, TimestampFormat::Empty).unwrap();
    assert_eq!(buf, "");
    millis_to_date(t, &mut buf, TimestampFormat::HHMMSS).unwrap();
    assert_eq!(buf, "01:02:03");
    buf.clear();
    millis_to_date(t, &mut buf, TimestampFormat::Seconds).unwrap();
    assert_eq!(buf, "3723,005");
    buf.clear();
    millis_to_date(t, &mut buf, TimestampFormat::HHMMSSFFF).unwrap();
    assert_eq!(buf, "01:02:03,005");
}

#[test]
fn millis_to_date_on_negative_instants() {
    let t = Timestamp::from_millis(-1);
    let mut buf = String::from("kept");
    assert_eq!(millis_to_date(t, &mut buf, TimestampFormat::Empty), Ok(()));
    assert_eq!(
        millis_to_date(t, &mut buf, TimestampFormat::HHMMSS),
        Err(TimestampError::OutOfRange)
    );
    assert_eq!(
        millis_to_date(t, &mut buf, TimestampFormat::Seconds),
        Err(TimestampError::OutOfRange)
    );
    assert_eq!(
        millis_to_date(t, &mut buf, TimestampFormat::HHMMSSFFF),
        Err(TimestampError::OutOfRange)
    );
    assert_eq!(buf, "kept");
}

#[test]
fn from_millis_keeps_the_raw_count() {
    assert_eq!(Timestamp::from_millis(-42).millis(), -42);
    assert_eq!(Timestamp::from_millis(0).millis(), 0);
    assert_eq!(Timestamp::from_millis(i64::MAX).millis(), i64::MAX);
    assert_eq!(Timestamp::from_millis(i64::MIN).millis(), i64::MIN);
}
