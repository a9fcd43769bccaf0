use hayabusa_report::timeline::{SecondsPrecision, Timeline, Timestamp};

fn at(secs: i64) -> Timestamp {
    Timestamp { secs, nanos: 0 }
}

#[test]
fn new_timeline_is_empty() {
    let timeline = Timeline::new();
    assert_eq!(timeline.len(), 0);
}

#[test]
fn insert_adds_one_row() {
    let mut timeline = Timeline::new();
    timeline.insert(at(10), "a".to_string());
    assert_eq!(timeline.len(), 1);
    timeline.insert(at(10), "a".to_string());
    assert_eq!(timeline.len(), 2);
    timeline.insert(at(-3), "b".to_string());
    assert_eq!(timeline.len(), 3);
}

#[test]
fn rows_stand_in_time_order() {
    let mut timeline = Timeline::new();
    timeline.insert(at(30), "c".to_string());
    timeline.insert(at(10), "a".to_string());
    timeline.insert(at(20), "b".to_string());
    timeline.insert(at(10), "a2".to_string());
    timeline.insert(at(40), "d".to_string());
    let rows: Vec<(i64, String)> = (0..timeline.len())
        .map(|i| {
            let row = timeline.row(i).unwrap();
            (row.time.secs, row.message.to_string())
        })
        .collect();
    assert_eq!(
        rows,
        vec![
            (10, "a".to_string()),
            (10, "a2".to_string()),
            (20, "b".to_string()),
            (30, "c".to_string()),
            (40, "d".to_string()),
        ]
    );
}

#[test]
fn insert_at_the_ends_of_the_range() {
    let mut timeline = Timeline::new();
    timeline.insert(at(i64::MAX), "last".to_string());
    timeline.insert(at(i64::MIN), "first".to_string());
    timeline.insert(at(0), "middle".to_string());
    assert_eq!(timeline.row(0).unwrap().time, at(i64::MIN));
    assert_eq!(timeline.row(0).unwrap().message, "first");
    assert_eq!(timeline.row(1).unwrap().time, at(0));
    assert_eq!(timeline.row(1).unwrap().message, "middle");
    assert_eq!(timeline.row(2).unwrap().time, at(i64::MAX));
    assert_eq!(timeline.row(2).unwrap().message, "last");
}

#[test]
fn row_beyond_the_end_is_none() {
    let mut timeline = Timeline::new();
    assert!(timeline.row(0).is_none());
    timeline.insert(at(1), "a".to_string());
    assert!(timeline.row(0).is_some());
    assert!(timeline.row(1).is_none());
    assert!(timeline.row(usize::MAX).is_none());
}

#[test]
fn nanoseconds_decide_within_a_second() {
    let mut timeline = Timeline::new();
    timeline.insert(Timestamp { secs: 7, nanos: 2 }, "c".to_string());
    timeline.insert(Timestamp { secs: 7, nanos: 0 }, "a".to_string());
    timeline.insert(Timestamp { secs: 6, nanos: 999_999_999 }, "z".to_string());
    timeline.insert(Timestamp { secs: 7, nanos: 1 }, "b".to_string());
    timeline.insert(Timestamp { secs: 7, nanos: 1 }, "b2".to_string());
    timeline.insert(Timestamp { secs: -7, nanos: 5 }, "y".to_string());
    let messages: Vec<String> = (0..timeline.len())
        .map(|i| timeline.row(i).unwrap().message.to_string())
        .collect();
    assert_eq!(messages, vec!["y", "z", "a", "b", "b2", "c"]);
}

#[test]
fn timestamps_compare_by_seconds_then_nanoseconds() {
    let early = Timestamp { secs: 1, nanos: 999_999_999 };
    let late = Timestamp { secs: 2, nanos: 0 };
    assert!(early.is_not_later_than(&late));
    assert!(!late.is_not_later_than(&early));
    assert!(early.is_not_later_than(&early));
    assert!(Timestamp { secs: 2, nanos: 0 }.is_not_later_than(&Timestamp { secs: 2, nanos: 1 }));
    assert!(!Timestamp { secs: 2, nanos: 1 }.is_not_later_than(&Timestamp { secs: 2, nanos: 0 }));
    assert!(Timestamp { secs: -3, nanos: 9 }.is_not_later_than(&Timestamp { secs: -2, nanos: 0 }));
    assert!(Timestamp { secs: i64::MIN, nanos: u32::MAX }
        .is_not_later_than(&Timestamp { secs: i64::MAX, nanos: 0 }));
}

#[test]
fn to_rfc3339_writes_as_much_of_the_second_as_asked() {
    let time = Timestamp { secs: 825383101, nanos: 250_000_000 };
    let written = |precision, use_z| time.to_rfc3339(precision, use_z).unwrap();
    assert_eq!(written(SecondsPrecision::Whole, true), "1996-02-27T01:05:01Z");
    assert_eq!(written(SecondsPrecision::Millis, true), "1996-02-27T01:05:01.250Z");
    assert_eq!(written(SecondsPrecision::Micros, true), "1996-02-27T01:05:01.250000Z");
    assert_eq!(written(SecondsPrecision::Nanos, true), "1996-02-27T01:05:01.250000000Z");
    assert_eq!(written(SecondsPrecision::Shortest, true), "1996-02-27T01:05:01.250Z");
    assert_eq!(written(SecondsPrecision::Whole, false), "1996-02-27T01:05:01+00:00");
    assert_eq!(written(SecondsPrecision::Millis, false), "1996-02-27T01:05:01.250+00:00");
}

#[test]
fn to_rfc3339_shortest_shows_the_whole_fraction() {
    let written = |nanos| {
        Timestamp { secs: 0, nanos }
            .to_rfc3339(SecondsPrecision::Shortest, true)
            .unwrap()
    };
    assert_eq!(written(0), "1970-01-01T00:00:00Z");
    assert_eq!(written(1_000_000), "1970-01-01T00:00:00.001Z");
    assert_eq!(written(1_000), "1970-01-01T00:00:00.000001Z");
    assert_eq!(written(1), "1970-01-01T00:00:00.000000001Z");
}

#[test]
fn to_rfc3339_agrees_with_chrono() {
    let formats = [
        (SecondsPrecision::Whole, chrono::SecondsFormat::Secs),
        (SecondsPrecision::Millis, chrono::SecondsFormat::Millis),
        (SecondsPrecision::Micros, chrono::SecondsFormat::Micros),
        (SecondsPrecision::Nanos, chrono::SecondsFormat::Nanos),
        (SecondsPrecision::Shortest, chrono::SecondsFormat::AutoSi),
    ];
    for secs in [-62167219200i64, -1, 0, 951782400, 253402300799] {
        for nanos in [0u32, 7, 120_000, 999_999_999] {
            for (precision, format) in formats {
                for use_z in [true, false] {
                    let expect = chrono::DateTime::from_timestamp(secs, nanos)
                        .unwrap()
                        .to_rfc3339_opts(format, use_z);
                    let time = Timestamp { secs, nanos };
                    assert_eq!(time.to_rfc3339(precision, use_z), Some(expect));
                }
            }
        }
    }
}

#[test]
fn to_rfc3339_has_no_text_for_a_time_without_a_date() {
    for precision in [SecondsPrecision::Whole, SecondsPrecision::Nanos] {
        assert_eq!(at(i64::MAX).to_rfc3339(precision, true), None);
        assert_eq!(at(i64::MIN).to_rfc3339(precision, false), None);
        let time = Timestamp { secs: 0, nanos: 2_000_000_000 };
        assert_eq!(time.to_rfc3339(precision, true), None);
    }
}
