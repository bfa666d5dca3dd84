use livesplit_core::formatter::{Accuracy, SegmentTime};
use livesplit_core::timespan::TimeSpan;
use livesplit_core::timestamp::TimeStamp;

#[test]
fn test() {
    let time = "4:20.69".parse::<TimeSpan>().unwrap();
    let formatted = SegmentTime::new().format(time).to_string();
    assert!(
        // Modern processors
        formatted == "4:20.69" ||
        // Old x86 processors are apparently less precise
        formatted == "4:20.68"
    );
}

#[test]
fn empty_time_is_a_dash() {
    assert_eq!(SegmentTime::new().format_option(None).to_string(), "\u{2014}");
}

#[test]
fn negative_times_carry_a_minus_sign() {
    let time = TimeSpan::from_nanoseconds(-23_120_000_000);
    assert_eq!(SegmentTime::new().format(time).to_string(), "\u{2212}23.12");
}

#[test]
fn hours_and_padding() {
    // 12:34:56.12
    let secs: i64 = (12 * 60 + 34) * 60 + 56;
    let time = TimeSpan::from_nanoseconds(secs * 1_000_000_000 + 120_000_000);
    assert_eq!(SegmentTime::new().format(time).to_string(), "12:34:56.12");
    // 1:02:03.00 pads minutes and seconds to two digits.
    let secs: i64 = 3600 + 2 * 60 + 3;
    let time = TimeSpan::from_nanoseconds(secs * 1_000_000_000);
    assert_eq!(SegmentTime::new().format(time).to_string(), "1:02:03.00");
}

#[test]
fn accuracies() {
    let time = TimeSpan::from_nanoseconds(23_456_000_000);
    assert_eq!(
        SegmentTime::with_accuracy(Accuracy::Seconds).format(time).to_string(),
        "23"
    );
    assert_eq!(
        SegmentTime::with_accuracy(Accuracy::Tenths).format(time).to_string(),
        "23.4"
    );
    assert_eq!(
        SegmentTime::with_accuracy(Accuracy::Hundredths).format(time).to_string(),
        "23.45"
    );
    assert_eq!(
        SegmentTime::with_accuracy(Accuracy::Milliseconds).format(time).to_string(),
        "23.456"
    );
}

#[test]
fn default_formatter_uses_hundredths() {
    let time = TimeSpan::from_nanoseconds(1_500_000_000);
    assert_eq!(SegmentTime::default().format(time).to_string(), "1.50");
}

#[test]
fn parse_accepts_the_span_grammar() {
    assert_eq!(
        "0.5".parse::<TimeSpan>().unwrap().total_nanoseconds(),
        500_000_000
    );
    assert_eq!("42".parse::<TimeSpan>().unwrap().total_nanoseconds(), 42_000_000_000);
    assert_eq!(
        "1:02:03".parse::<TimeSpan>().unwrap().total_nanoseconds(),
        3_723_000_000_000
    );
    assert_eq!(
        "-4:20.69".parse::<TimeSpan>().unwrap().total_nanoseconds(),
        -260_690_000_000
    );
}

#[test]
fn parse_rejects_malformed_spans() {
    assert!("".parse::<TimeSpan>().is_err());
    assert!("-".parse::<TimeSpan>().is_err());
    assert!("abc".parse::<TimeSpan>().is_err());
    assert!("1::2".parse::<TimeSpan>().is_err());
    assert!("1:2:".parse::<TimeSpan>().is_err());
    assert!("1.2.3".parse::<TimeSpan>().is_err());
    // Out of range: far more seconds than the representation holds.
    assert!("99999999999999999999".parse::<TimeSpan>().is_err());
}

#[test]
fn timespan_construction() {
    assert_eq!(TimeSpan::zero().total_nanoseconds(), 0);
    assert_eq!(
        TimeSpan::from_seconds(2).unwrap().total_nanoseconds(),
        2_000_000_000
    );
    assert!(TimeSpan::from_seconds(i64::MAX).is_none());
}

#[test]
fn timestamp_subtraction() {
    let a = TimeStamp::from_nanoseconds(100);
    let b = TimeStamp::from_nanoseconds(40);
    assert_eq!(a.sub(b).total_nanoseconds(), 60);
    assert_eq!(b.sub(a).total_nanoseconds(), -60);
    let later = TimeStamp::now();
    let earlier = TimeStamp::from_nanoseconds(0);
    // Nothing is promised of the clock; the difference merely has to exist.
    let _ = later.sub(earlier).total_nanoseconds();
    assert_eq!(later.as_nanoseconds(), later.as_nanoseconds());
}
