use spond_accept::text::{chars_of, decimal_string, str_contains};
use spond_accept::time::{
    accurate_sleep_step, current_instant, parse_event_time, sleep_step, span_of, SleepStep, Span,
    Timestamp,
};

#[test]
fn contains_finds_inner_and_edge_runs() {
    assert!(str_contains("Fotballkurs for barn", "kurs"));
    assert!(str_contains("kurs", "kurs"));
    assert!(str_contains("abc", ""));
    assert!(str_contains("", ""));
    assert!(!str_contains("", "a"));
    assert!(!str_contains("Kurs", "kurs"));
    assert!(!str_contains("kur", "kurs"));
    assert!(str_contains("ææøkursø", "kursø"));
}

#[test]
fn chars_of_keeps_every_character() {
    assert_eq!(chars_of("aæ1"), vec!['a', 'æ', '1']);
    assert_eq!(chars_of(""), Vec::<char>::new());
}

#[test]
fn decimal_matches_to_string() {
    for n in [0u64, 7, 10, 99, 100, 1500, 1234567890, u64::MAX] {
        assert_eq!(decimal_string(n), n.to_string());
    }
}

#[test]
fn parse_event_time_reads_rfc3339() {
    let t = parse_event_time("2024-05-01T12:00:00Z").unwrap();
    assert_eq!(t, Timestamp { secs: 1714564800, nanos: 0 });
    let leap = parse_event_time("2016-12-31T23:59:60Z").unwrap();
    assert_eq!(leap, Timestamp { secs: 1483228799, nanos: 1_000_000_000 });
    let t = parse_event_time("2024-05-01T14:00:00.250+02:00").unwrap();
    assert_eq!(t, Timestamp { secs: 1714564800, nanos: 250_000_000 });
    assert!(parse_event_time("not a time").is_err());
    assert!(parse_event_time("").is_err());
}

#[test]
fn span_of_measures_signed_difference() {
    let a = Timestamp { secs: 1_700_000_010, nanos: 500_000_000 };
    let b = Timestamp { secs: 1_700_000_000, nanos: 0 };
    assert_eq!(span_of(a, b), Some(Span { secs: 10, subsec_nanos: 500_000_000 }));
    assert_eq!(span_of(b, a), Some(Span { secs: -10, subsec_nanos: -500_000_000 }));
    assert_eq!(span_of(a, a), Some(Span { secs: 0, subsec_nanos: 0 }));
    assert_eq!(span_of(Timestamp { secs: i64::MAX, nanos: 0 }, b), None);
    // chrono's range of seconds, and leap seconds only at the end of a minute
    assert!(span_of(Timestamp { secs: -8_334_601_228_800, nanos: 0 }, b).is_some());
    assert_eq!(span_of(Timestamp { secs: -8_334_601_228_801, nanos: 0 }, b), None);
    assert!(span_of(Timestamp { secs: 8_210_266_876_799, nanos: 999_999_999 }, b).is_some());
    assert_eq!(span_of(Timestamp { secs: 8_210_266_876_800, nanos: 0 }, b), None);
    assert!(span_of(Timestamp { secs: 1_700_000_039, nanos: 1_500_000_000 }, b).is_some());
    assert_eq!(span_of(Timestamp { secs: 1_700_000_040, nanos: 1_500_000_000 }, b), None);
    assert_eq!(span_of(Timestamp { secs: 1_700_000_039, nanos: 2_000_000_000 }, b), None);
}

#[test]
fn sleep_step_follows_the_thresholds() {
    assert_eq!(sleep_step(Span { secs: 300, subsec_nanos: 0 }), SleepStep::WaitLong(300));
    assert_eq!(sleep_step(Span { secs: 210, subsec_nanos: 0 }), SleepStep::WaitLong(210));
    assert_eq!(sleep_step(Span { secs: 209, subsec_nanos: 999_999_999 }), SleepStep::WaitShort(209));
    assert_eq!(sleep_step(Span { secs: 3, subsec_nanos: 0 }), SleepStep::WaitShort(3));
    assert_eq!(sleep_step(Span { secs: 2, subsec_nanos: 999_999_999 }), SleepStep::WaitMillis(2999));
    assert_eq!(sleep_step(Span { secs: 0, subsec_nanos: 2_000_000 }), SleepStep::WaitMillis(2));
    assert_eq!(sleep_step(Span { secs: 0, subsec_nanos: 1_999_999 }), SleepStep::BusyWait);
    assert_eq!(sleep_step(Span { secs: 0, subsec_nanos: 1 }), SleepStep::BusyWait);
    assert_eq!(sleep_step(Span { secs: 0, subsec_nanos: 0 }), SleepStep::Arrived(0));
    assert_eq!(sleep_step(Span { secs: -1, subsec_nanos: -500 }), SleepStep::Arrived(-1_000_000_500));
}

#[test]
fn sleep_step_overflow_edges() {
    assert_eq!(sleep_step(Span { secs: i64::MAX, subsec_nanos: 0 }), SleepStep::Overflow);
    assert_eq!(
        sleep_step(Span { secs: -9_223_372_036, subsec_nanos: -854_775_808 }),
        SleepStep::Arrived(i64::MIN)
    );
    assert_eq!(sleep_step(Span { secs: -9_223_372_036, subsec_nanos: -854_775_809 }), SleepStep::Overflow);
    assert_eq!(sleep_step(Span { secs: 9_223_372_036, subsec_nanos: 854_775_807 }), SleepStep::WaitLong(9_223_372_036));
    assert_eq!(sleep_step(Span { secs: 9_223_372_036, subsec_nanos: 854_775_808 }), SleepStep::Overflow);
}

#[test]
fn law_wait_never_overshoots_on_samples() {
    // every sleep is shorter than what remains, and the wait ends at or after the opening
    let samples = [(210i64, 0i32, 10_000_000_000i128), (3, 0, 1_000_000_000), (0, 2_000_000, 1_000_000)];
    for (secs, sub, sleep) in samples {
        let total = secs as i128 * 1_000_000_000 + sub as i128;
        let step = sleep_step(Span { secs, subsec_nanos: sub });
        assert!(!matches!(step, SleepStep::Arrived(_) | SleepStep::BusyWait));
        assert!(total - sleep > 0);
    }
    match sleep_step(Span { secs: 0, subsec_nanos: -1 }) {
        SleepStep::Arrived(n) => assert_eq!(n, -1),
        other => panic!("unexpected {:?}", other),
    }
}

#[test]
fn accurate_sleep_step_reads_the_clock() {
    let past = parse_event_time("2000-01-01T00:00:00Z").unwrap();
    match accurate_sleep_step(past) {
        SleepStep::Arrived(n) => assert!(n < 0),
        other => panic!("unexpected {:?}", other),
    }
    let far = parse_event_time("2200-01-01T00:00:00Z").unwrap();
    assert!(matches!(accurate_sleep_step(far), SleepStep::WaitLong(s) if s > 0));
    let too_far = parse_event_time("2500-01-01T00:00:00Z").unwrap();
    assert_eq!(accurate_sleep_step(too_far), SleepStep::Overflow);
}

#[test]
fn current_instant_is_after_2020() {
    let now = current_instant();
    assert!(now.nanos < 1_000_000_000);
    assert!(now.secs > 1_577_836_800);
}
