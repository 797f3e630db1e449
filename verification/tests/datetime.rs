use rhorizons::datetime::{parse_calendar, parse_date_time, DateTime};

#[test]
fn test_parsing_date_time() {
    let lines: [&str; 4] = [
        "2459750.250000000 = A.D. 2022-Jun-19 18:00:00.0000 TDB ", // orbital elements output
        "2459750.375000000 = A.D. 2022-Jun-19 21:00:00.0000 TDB ",
        "2459805.372175926 = A.D. 2022-Aug-13 20:55:56.0000 TDB ", // vector output
        "2459805.455509259 = A.D. 2022-Aug-13 22:55:56.0000 TDB ",
    ];

    let expected: [DateTime; 4] = [
        DateTime {
            year: 2022,
            month: 6,
            day: 19,
            hour: 18,
            minute: 0,
            second: 0,
        },
        DateTime {
            year: 2022,
            month: 6,
            day: 19,
            hour: 21,
            minute: 0,
            second: 0,
        },
        DateTime {
            year: 2022,
            month: 8,
            day: 13,
            hour: 20,
            minute: 55,
            second: 56,
        },
        DateTime {
            year: 2022,
            month: 8,
            day: 13,
            hour: 22,
            minute: 55,
            second: 56,
        },
    ];

    for (i, line) in lines.into_iter().enumerate() {
        let time = parse_date_time(line);

        assert_eq!(time, Some(expected[i]));
    }
}

#[test]
fn date_time_rejects_what_is_no_timestamp() {
    // no equals sign at all
    assert_eq!(None, parse_date_time("GEOPHYSICAL PROPERTIES"));
    // no A.D. prefix after the equals sign
    assert_eq!(None, parse_date_time("2459750.25 = 2022-Jun-19 18:00:00.0000"));
    // month name that names no month
    assert_eq!(
        None,
        parse_date_time("2459750.25 = A.D. 2022-Xyz-19 18:00:00.0000 TDB ")
    );
    // a window cut short by the end of the line
    assert_eq!(None, parse_date_time("2459750.25 = A.D. 2022-Jun-19 18:00"));
}

#[test]
fn calendar_window_validates_real_dates() {
    assert_eq!(
        Some(DateTime {
            year: 2016,
            month: 10,
            day: 15,
            hour: 12,
            minute: 0,
            second: 0,
        }),
        parse_calendar("2016-Oct-15 12:00:00")
    );
    // month abbreviations match regardless of case, as chrono-style
    // format parsing accepts them
    assert_eq!(
        Some(DateTime {
            year: 2016,
            month: 10,
            day: 15,
            hour: 12,
            minute: 0,
            second: 0,
        }),
        parse_calendar("2016-OCT-15 12:00:00")
    );
    // February 29 exists only in leap years
    assert!(parse_calendar("2024-Feb-29 00:00:00").is_some());
    assert_eq!(None, parse_calendar("2023-Feb-29 00:00:00"));
    assert_eq!(None, parse_calendar("1900-Feb-29 00:00:00"));
    assert!(parse_calendar("2000-Feb-29 00:00:00").is_some());
    // out-of-range fields
    assert_eq!(None, parse_calendar("2016-Oct-32 12:00:00"));
    assert_eq!(None, parse_calendar("2016-Oct-00 12:00:00"));
    assert_eq!(None, parse_calendar("2016-Oct-15 24:00:00"));
    assert_eq!(None, parse_calendar("2016-Oct-15 12:60:00"));
    assert_eq!(None, parse_calendar("2016-Oct-15 12:00:60"));
}
