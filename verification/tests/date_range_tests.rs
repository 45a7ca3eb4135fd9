use task_reporter::date_range::DateRange;
use task_reporter::errors::DateRangeError;
use task_reporter::jst::{day_number_x, Jst};

#[test]
fn create_with_some_start_date() {
    let dt = DateRange::new(Some("2012/12/31"), None).unwrap();
    assert_eq!(dt.start().date, Jst::ymd(2012, 12, 31));
}

#[test]
fn create_with_no_start_date() {
    let dt = DateRange::new(None, None).unwrap();

    // The target date shifts with the time of day; that rule has its own
    // test, so this one only ties the two entry points together.
    assert_eq!(dt.start().date, DateRange::default_target_date());
}

#[test]
fn compare_target_date_time() {
    let past_dt = DateRange::new(Some("2012/12/31"), None).unwrap();
    let current_dt = DateRange::new(None, None).unwrap();
    let future_dt = DateRange::new(Some("2222/02/22"), None).unwrap();

    assert!(past_dt == past_dt);
    assert!(current_dt == current_dt);
    assert!(future_dt == future_dt);

    assert!(past_dt < current_dt);
    assert!(past_dt < future_dt);
    assert!(current_dt < future_dt);
}

#[test]
fn start_less_than_end() {
    let dt = DateRange::new(None, None).unwrap();
    assert!(dt.start() < dt.end());
}

#[test]
fn date_range_end_less_than_start() {
    let r = DateRange::new(Some("2010/12/31"), Some("2010/12/30"));
    match r {
        Err(DateRangeError::Range(e)) => {
            assert!(e.message().starts_with("Start date must be before end date."));
            assert_eq!(e.start, "2010/12/31");
            assert_eq!(e.end, "2010/12/30");
        },
        _ => panic!("a reversed range must be refused"),
    }
}

#[test]
fn create_with_some_dates() {
    let dt = DateRange::new(Some("2010/12/31"), Some("2022/07/13")).unwrap();

    let s = dt.start();
    assert_eq!(s.date, Jst::ymd(2010, 12, 31));
    assert_eq!((s.hour, s.minute, s.second), (5, 0, 0));
    let e = dt.end();
    assert_eq!(e.date, Jst::ymd(2022, 7, 14));
    assert_eq!((e.hour, e.minute, e.second), (4, 59, 59));
}

#[test]
fn date_str_has_slash() {
    let dt = Jst::date_from_str("2021/01/01").unwrap();
    assert_eq!(dt, Jst::ymd(2021, 1, 1));
}

#[test]
fn date_str_has_hyphen() {
    let dt = Jst::date_from_str("2021-01-01").unwrap();
    assert_eq!(dt, Jst::ymd(2021, 1, 1));
}

#[test]
fn date_str_has_one_charactor_date() {
    let dt = Jst::date_from_str("2021/01/1").unwrap();
    assert_eq!(dt, Jst::ymd(2021, 1, 1));
}

#[test]
fn date_str_has_one_charactor_month() {
    let dt = Jst::date_from_str("2021/1/01").unwrap();
    assert_eq!(dt, Jst::ymd(2021, 1, 1));
}

#[test]
fn date_str_is_incorrect_format() {
    let r = Jst::date_from_str("12/10/2021");
    let e = r.unwrap_err();
    assert_eq!(e.input, "12/10/2021");
    assert_eq!(
        e.message(),
        "Invalid format. It must be 'YYYY/MM/DD'. Input is '12/10/2021'"
    );
}

#[test]
fn date_str_has_incorrect_numbers() {
    assert!(Jst::date_from_str("2022/13/32").is_err());
    assert!(Jst::date_from_str("2021/02/30").is_err());
    assert!(Jst::date_from_str("2021/00/10").is_err());
    assert!(Jst::date_from_str("").is_err());
    assert!(Jst::date_from_str("2021 01 01").is_err());
    assert!(Jst::date_from_str("2021/011/1").is_err());
}

#[test]
fn leap_days_follow_the_gregorian_rule() {
    assert_eq!(Jst::date_from_str("2020/02/29").unwrap(), Jst::ymd(2020, 2, 29));
    assert_eq!(Jst::date_from_str("2000/02/29").unwrap(), Jst::ymd(2000, 2, 29));
    assert!(Jst::date_from_str("2019/02/29").is_err());
    assert!(Jst::date_from_str("1900/02/29").is_err());
}

#[test]
fn normalization_refuses_malformed_strings() {
    match DateRange::new(Some("12/10/2021"), None) {
        Err(DateRangeError::Format(f)) => assert_eq!(f.input, "12/10/2021"),
        _ => panic!("a malformed start date must be refused"),
    }
    match DateRange::new(Some("2021/01/01"), Some("2022/13/32")) {
        Err(DateRangeError::Format(f)) => assert_eq!(f.input, "2022/13/32"),
        _ => panic!("a malformed end date must be refused"),
    }
}

#[test]
fn check_date() {
    let target_date = DateRange::default_target_date();
    let now = Jst::now();
    if now.hour >= 5 {
        assert_eq!(target_date, now.date);
    } else {
        assert_eq!(
            day_number_x(&target_date) + 1,
            day_number_x(&now.date)
        );
    }
}

#[test]
fn check_start_date() {
    let dr = DateRange::new(None, None).unwrap();
    let start = dr.start();
    assert_eq!(start.date, dr.start_date);
}

#[test]
fn check_start_hhmiss() {
    let start = DateRange::new(None, None).unwrap().start();
    assert_eq!((start.hour, start.minute, start.second), (5, 0, 0));
}

#[test]
fn check_end_date() {
    let dr = DateRange::new(None, None).unwrap();
    let end = dr.end();
    assert_eq!(day_number_x(&end.date), day_number_x(&dr.end_date) + 1);
}

#[test]
fn check_end_hhmiss() {
    let end = DateRange::new(None, None).unwrap().end();
    assert_eq!((end.hour, end.minute, end.second), (4, 59, 59));
}

#[test]
fn check_vec_days_by_single_date() {
    let date_range = DateRange::new(Some("2012/12/31"), None).unwrap();
    let days = date_range.vec_dates_str();
    assert_eq!(days, vec![Jst::ymd(2012, 12, 31)]);
}

#[test]
fn check_vec_days_by_period() {
    let date_range = DateRange::new(Some("2012/12/31"), Some("2013/01/02")).unwrap();
    let days = date_range.vec_dates_str();
    assert_eq!(
        days,
        vec![Jst::ymd(2012, 12, 31), Jst::ymd(2013, 1, 1), Jst::ymd(2013, 1, 2)]
    );
}

#[test]
fn interval_spans_whole_logical_days() {
    let single = DateRange::new(Some("2012/07/31"), None).unwrap();
    assert_eq!(
        single.end_unixtime_sec() + 1 - single.start_unixtime_sec(),
        86400
    );
    let period = DateRange::new(Some("2012/12/31"), Some("2013/01/02")).unwrap();
    assert_eq!(
        period.end_unixtime_sec() + 1 - period.start_unixtime_sec(),
        3 * 86400
    );
}

#[test]
fn unixtime_accessors_match_known_instants() {
    // 2012-07-31 05:00:00 +09:00 is 1343678400 in epoch seconds
    let dr = DateRange::new(Some("2012/07/31"), None).unwrap();
    assert_eq!(dr.start_unixtime_sec(), 1_343_678_400);
    assert_eq!(dr.start_unixtime_millis(), 1_343_678_400_000);
    // the boundary instant is the next day at 04:59:59
    assert_eq!(dr.end_unixtime_sec(), 1_343_678_400 + 86400 - 1);
    assert_eq!(dr.start_date_str(), "2012/07/31");
    assert_eq!(dr.end_date_str(), "2012/08/01");
    assert_eq!(dr.end_target_date_str(), "2012/07/31");
    assert_eq!(dr.start_datetime_str(), "2012/07/31T05:00:00");
    assert_eq!(dr.end_datetime_str(), "2012/08/01T04:59:59");
    assert!(dr.is_same_date());
}
