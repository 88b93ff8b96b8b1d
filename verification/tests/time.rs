use mailbox::span::is_overlong;
use mailbox::Time;

const SECOND: u128 = 1_000_000_000;

#[test]
fn reads_a_timestamp() {
    assert_eq!(Time::parse_at("2018-02-16T00:31:37Z", Time(0)), Ok(Time(1_518_741_097 * SECOND)));
    assert_eq!(Time::parse_at("1970-01-01T00:00:00Z", Time(5)), Ok(Time(0)));
}

#[test]
fn reads_a_timestamp_whatever_the_time_is() {
    assert_eq!(
        Time::parse_at("2018-02-16 00:31:37", Time(0)),
        Time::parse_at("2018-02-16 00:31:37", Time(u128::MAX))
    );
    assert_eq!(Time::parse("2018-02-16 00:31:37"), Ok(Time(1_518_741_097 * SECOND)));
    assert_eq!("2018-02-16T00:31:37Z".parse::<Time>(), Ok(Time(1_518_741_097 * SECOND)));
}

#[test]
fn reads_the_fraction_of_a_timestamp() {
    assert_eq!(
        Time::parse_at("1970-01-01T00:00:01.000123Z", Time(0)),
        Ok(Time(SECOND + 123_000))
    );
}

#[test]
fn reads_a_span_from_the_time_given() {
    assert_eq!(Time::parse_at("5s", Time(1000)), Ok(Time(1000 + 5 * SECOND)));
    assert_eq!(Time::parse_at("2h 37min", Time(0)), Ok(Time(9420 * SECOND)));
    assert_eq!(Time::parse_at("32ms", Time(7)), Ok(Time(32_000_007)));
}

#[test]
fn reads_a_span_from_the_current_time() {
    let before = Time::now();
    let deadline = Time::parse("1h").unwrap();
    let after = Time::now();
    assert!(before.0 + 3600 * SECOND <= deadline.0);
    assert!(deadline.0 <= after.0 + 3600 * SECOND);
}

#[test]
fn says_why_a_text_is_no_span() {
    assert_eq!(Time::parse_at("soon", Time(0)), Err("expected number at 0".to_string()));
    assert_eq!(Time::parse_at("5 parsecs", Time(0)), Err("unknown unit at 2-9".to_string()));
    assert!(Time::parse_at("", Time(0)).is_err());
    assert_eq!(Time::parse_at("5s!", Time(0)), Err("invalid character at 2".to_string()));
    assert_eq!(
        Time::parse_at("2018-02-16T00:31", Time(0)),
        Err("invalid character at 4".to_string())
    );
    assert_eq!(Time::parse("soon"), Err("expected number at 0".to_string()));
}

#[test]
fn reads_a_span_of_many_terms() {
    assert_eq!(
        Time::parse_at("1w 1d 12h 30m 45s 500ms 250us 125ns", Time(0)),
        Ok(Time(736_245 * SECOND + 500_250_125))
    );
    assert_eq!(
        Time::parse_at("1year 2months 15days 12h 30m 45s 500ms 250us 125ns", Time(7)),
        Ok(Time(38_158_677 * SECOND + 500_250_125 + 7))
    );
    assert_eq!(
        Time::parse_at("86400000000000ns 500000us", Time(0)),
        Ok(Time(86_400 * SECOND + 500_000_000))
    );
    assert_eq!(
        Time::parse_at("250000000000s 250000000000s 0000000001ns", Time(0)),
        Ok(Time(500_000_000_000 * SECOND + 1))
    );
    assert_eq!(Time::parse_at("000000000000000000000005s", Time(0)), Ok(Time(5 * SECOND)));
}

#[test]
fn reads_a_span_of_large_numbers() {
    assert_eq!(
        Time::parse_at("12345678901234567s", Time(0)),
        Ok(Time(12345678901234567 * SECOND))
    );
    assert_eq!(
        Time::parse_at("18446744073709551615s", Time(1)),
        Ok(Time(18446744073709551615 * SECOND + 1))
    );
    assert_eq!(
        Time::parse_at("1 2 3 4 5 6 7 8 9 0 1 2 3 4 5 6 7 ns", Time(0)),
        Ok(Time(12345678901234567))
    );
    assert_eq!(
        Time::parse_at("18446744073709551615s 999999999ns", Time(0)),
        Ok(Time(18446744073709551615 * SECOND + 999_999_999))
    );
    assert_eq!(
        Time::parse_at("18446744073709551614s 1000000000ns", Time(0)),
        Ok(Time(18446744073709551615 * SECOND))
    );
    assert_eq!(
        Time::parse_at("18446744073709551614s 1s 1000ms", Time(0)),
        Time::parse_at("18446744073709551615s 1000000us", Time(0))
    );
    assert_eq!(
        Time::parse_at("584542046090y 19767615s", Time(0)),
        Ok(Time(18446744073709551615 * SECOND))
    );
}

#[test]
fn says_why_a_text_of_large_numbers_is_no_span() {
    assert_eq!(
        Time::parse_at("12345678901234567 parsecs", Time(0)),
        Err("unknown unit at 18-25".to_string())
    );
    assert_eq!(
        Time::parse_at("12345678901234567 parsecs 1s", Time(0)),
        Err("unknown unit at 18-25".to_string())
    );
    assert_eq!(
        Time::parse_at("18446744073709551615s 1000000000ns x", Time(0)),
        Err("expected number at 35".to_string())
    );
    assert_eq!(
        Time::parse_at("18446744073709551615s 1000000000ns!", Time(0)),
        Err("invalid character at 34".to_string())
    );
    assert_eq!(
        Time::parse_at("18446744073709551615s 1000000000", Time(0)),
        Err("unknown unit at 32-32".to_string())
    );
    assert_eq!(
        Time::parse_at("18446744073709551615s 1000000000nS", Time(0)),
        Err("unknown unit at 32-34".to_string())
    );
}

#[test]
fn leaves_a_span_beyond_the_longest_to_the_parser() {
    let beyond = [
        "18446744073709551616s",
        "18446744073709551615s 1s",
        "18446744073709551615s 1000000001ns",
        "18446744073709551615s 2000000000ns",
        "18446744073709551614s 2000000000ns",
        "18446744073709551614s 1000000000ns 1000000000ns",
        "1000000000ns 18446744073709551615s 1ns",
        "584542046091y",
        "18446744073709551615ms 18446744073709551615ms",
    ];
    for text in beyond {
        assert!(!is_overlong(text));
        let said = Time::parse_at(text, Time(0)).unwrap_err();
        assert_eq!(Time::parse_at(text, Time(5)), Err(said.clone()));
        assert_ne!(said, "number is too large");
    }
}

#[test]
fn refuses_the_span_a_second_longer_than_the_longest() {
    let overlong = [
        "18446744073709551615s 1000000000ns",
        "18446744073709551615s1000000000ns",
        "  18446744073709551615 s\u{a0}1 000 000 us\u{2003}",
        "1000000000ns 18446744073709551615s",
        "18446744073709551615seconds 1000millis",
        "18446744073709551614s 1000000000ns 1s",
        "999999999nanos 18446744073709551615secs 1nsec",
        "307445734561825860m 15s 500ms 500000usec",
        "584542046090years 19767615sec 1000msec",
        "30500568904943w 7h 15s 1000000000ns",
        "7013928460400M 2185215s 1000ms",
    ];
    for text in overlong {
        assert!(is_overlong(text));
        assert_eq!(Time::parse_at(text, Time(0)), Err("number is too large".to_string()));
    }
}

#[test]
fn tells_the_overlong_span_from_every_other_text() {
    let others = [
        "",
        "   ",
        "soon",
        "5",
        "5s",
        "2h 37min",
        "18446744073709551615s",
        "18446744073709551615s 1000000000",
        "18446744073709551615s 1000000000 n s",
        "18446744073709551615s 1000000000ns 0",
        "18446744073709551615s 1000000000ns x",
        "18446744073709551615s-1000000000ns",
        "18446744073709551615s 1000000000n\u{a0}s",
        "18446744073709551615S 1000000000ns",
        "18446744073709551615s 1000000000NS",
        "18446744073709551615s 999999999ns",
        "18446744073709551614s 1000000000ns",
        "\u{661}8446744073709551615s 1000000000ns",
    ];
    for text in others {
        assert!(!is_overlong(text));
    }
}

#[test]
fn rejects_a_span_that_leads_past_the_last_time() {
    assert_eq!(
        Time::parse_at("1s", Time(u128::MAX)),
        Err("overflow when adding duration to instant".to_string())
    );
    assert_eq!(Time::parse_at("1ns", Time(u128::MAX - 1)), Ok(Time(u128::MAX)));
}

#[test]
fn orders_points_in_time() {
    assert!(Time(1).before(&Time(2)));
    assert!(!Time(2).before(&Time(2)));
    assert!(!Time(3).before(&Time(2)));
}

#[test]
fn adds_a_span_to_a_point_in_time() {
    assert_eq!(Time(10).after(5), Some(Time(15)));
    assert_eq!(Time(u128::MAX).after(0), Some(Time(u128::MAX)));
    assert_eq!(Time(u128::MAX).after(1), None);
}

#[test]
fn measures_the_time_until_a_later_point() {
    assert_eq!(Time(10).until(&Time(25)), 15);
    assert_eq!(Time(10).until(&Time(10)), 0);
    assert_eq!(Time(25).until(&Time(10)), 0);
}

#[test]
fn takes_a_reading_before_the_epoch_for_the_epoch() {
    assert_eq!(Time::read(Some(1_518_741_097 * SECOND)), Time(1_518_741_097 * SECOND));
    assert_eq!(Time::read(Some(0)), Time(0));
    assert_eq!(Time::read(Some(u128::MAX)), Time(u128::MAX));
    assert_eq!(Time::read(None), Time(0));
}

#[test]
fn reads_a_clock_that_runs_after_the_epoch() {
    let first = Time::now();
    let second = Time::now();
    assert!(first.0 > 1_500_000_000 * SECOND);
    assert!(!second.before(&first));
}
