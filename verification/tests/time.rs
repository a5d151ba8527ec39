use vs_queue::calendar::{Date, MAX_DAY, MIN_DAY, TimeOfDay, date_of_day, day_number};
use vs_queue::timestamp::{Timestamp, format_axis_time, format_duration, format_timestamp};

fn at(year: i32, month: u32, day: u32, hour: u32, minute: u32, second: u32) -> Timestamp {
    Timestamp::at(Date { year, month, day }, TimeOfDay { hour, minute, second })
        .expect("the time exists")
}

#[test]
fn days_are_counted_from_year_one() {
    assert_eq!(day_number(Date { year: 1, month: 1, day: 1 }), Some(1));
    assert_eq!(day_number(Date { year: 0, month: 12, day: 31 }), Some(0));
    assert_eq!(day_number(Date { year: 1970, month: 1, day: 1 }), Some(719_163));
    assert_eq!(day_number(Date { year: -262143, month: 1, day: 1 }), Some(MIN_DAY));
    assert_eq!(day_number(Date { year: 262142, month: 12, day: 31 }), Some(MAX_DAY));
    assert_eq!(day_number(Date { year: 262143, month: 1, day: 1 }), None);
    assert_eq!(day_number(Date { year: -262144, month: 12, day: 31 }), None);
    assert_eq!(day_number(Date { year: 2023, month: 2, day: 29 }), None);
    assert_eq!(day_number(Date { year: 2023, month: 0, day: 1 }), None);
}

#[test]
fn days_are_found_by_their_numbers() {
    for number in [MIN_DAY, -366, -365, 0, 1, 59, 60, 719_163, 739_000, MAX_DAY] {
        assert_eq!(day_number(date_of_day(number)), Some(number));
    }
    assert_eq!(date_of_day(719_163), Date { year: 1970, month: 1, day: 1 });
    assert_eq!(date_of_day(MIN_DAY), Date { year: -262143, month: 1, day: 1 });
}

#[test]
fn every_day_of_four_centuries_has_a_number_of_its_own() {
    let mut expected = 730_120;
    for year in 2000..2400 {
        let leap = year % 4 == 0 && (year % 100 != 0 || year % 400 == 0);
        let lengths = [31, if leap { 29 } else { 28 }, 31, 30, 31, 30, 31, 31, 30, 31, 30, 31];
        for month in 1..=12 {
            for day in 1..=31 {
                let number = day_number(Date { year, month, day });
                if day <= lengths[month as usize - 1] {
                    assert_eq!(number, Some(expected));
                    assert_eq!(date_of_day(expected), Date { year, month, day });
                    expected += 1;
                } else {
                    assert_eq!(number, None);
                }
            }
        }
    }
}

#[test]
fn times_of_day_are_told() {
    let time = at(2026, 4, 6, 17, 7, 3).time();
    assert_eq!(time, TimeOfDay { hour: 17, minute: 7, second: 3 });
    assert!(
        Timestamp::at(
            Date { year: 2026, month: 4, day: 6 },
            TimeOfDay { hour: 24, minute: 0, second: 0 }
        )
        .is_none()
    );
}

#[test]
fn timestamps_are_written_without_leading_zeros_in_the_date() {
    assert_eq!(format_timestamp(&at(2026, 4, 6, 7, 7, 3)), "6.4.2026 07:07:03");
    assert_eq!(format_timestamp(&at(2026, 12, 31, 23, 59, 59)), "31.12.2026 23:59:59");
    assert_eq!(format_timestamp(&at(-5, 1, 2, 0, 0, 0)), "2.1.-5 00:00:00");
    assert_eq!(format_axis_time(&at(2026, 4, 6, 7, 5, 59)), "07:05");
}

#[test]
fn durations_leave_out_leading_units_of_zero() {
    assert_eq!(format_duration(-5), "0s");
    assert_eq!(format_duration(999), "0s");
    assert_eq!(format_duration(59_999), "59s");
    assert_eq!(format_duration(60_000), "1m 0s");
    assert_eq!(format_duration(480_000), "8m 0s");
    assert_eq!(format_duration(3_600_000), "1h 0m 0s");
    assert_eq!(format_duration(3_723_500), "1h 2m 3s");
    assert_eq!(format_duration(i64::MAX), "2562047788015h 12m 55s");
}

#[test]
fn spans_are_rounded_toward_zero() {
    let start = at(2026, 4, 6, 17, 0, 0);
    let nanos = start.nanos();
    let later = Timestamp::from_nanos(nanos + 1_999_999).expect("in range");
    let earlier = Timestamp::from_nanos(nanos - 1_999_999).expect("in range");
    assert_eq!(later.millis_since(&start), 1);
    assert_eq!(earlier.millis_since(&start), -1);
    assert_eq!(start.millis_since(&start), 0);
    let far = Timestamp::from_nanos(nanos + 2_999_999_999).expect("in range");
    assert_eq!(far.seconds_apart(&start), 2);
    assert_eq!(start.seconds_apart(&far), 2);
}

#[test]
fn milliseconds_are_added_within_the_range() {
    let start = at(2026, 12, 31, 23, 59, 59);
    let next = start.plus_millis(1_000).expect("in range");
    assert_eq!(next, at(2027, 1, 1, 0, 0, 0));
    assert_eq!(next.plus_millis(-1_000), Some(start));
    assert!(next.is_after(&start));
    assert!(!start.is_after(&start));
    assert_eq!(start.latest(&next), next);
    assert_eq!(at(262142, 12, 31, 23, 59, 59).plus_millis(1_000), None);
    assert_eq!(at(-262143, 1, 1, 0, 0, 0).plus_millis(-1), None);
    assert_eq!(start.plus_millis(i64::MAX), None);
}

#[test]
fn now_lies_in_this_age() {
    let now = Timestamp::now();
    assert!(now.is_after(&at(2020, 1, 1, 0, 0, 0)));
    assert!(!now.is_after(&at(3000, 1, 1, 0, 0, 0)));
}
