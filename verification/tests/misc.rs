use task_reporter::date_range::DateRange;
use task_reporter::dto::{ByTaskAndTotalDto, ByTaskAndTotalDtos};
use task_reporter::jst::Jst;
use task_reporter::log_level::{level, LogLevel};
use task_reporter::options::{AggregateCondition, Opts};
use task_reporter::params::{clickup_date_start_milles, ApiParams, ClickupParamsBuilder};
use task_reporter::request::RequestDto;

fn opts(by_charge: bool, by_daily: bool) -> Opts {
    Opts {
        start_date: Some("2012/07/31".to_string()),
        end_date: None,
        by_charge,
        by_daily,
        all: true,
        set_clipboard: false,
    }
}

#[test]
fn aggregate_condition_follows_the_two_flags() {
    assert_eq!(
        AggregateCondition::from(opts(false, false)),
        AggregateCondition::TaskAndTotalPeriod
    );
    assert_eq!(
        AggregateCondition::from(opts(true, false)),
        AggregateCondition::ChargeAndTotalPeriod
    );
    assert_eq!(
        AggregateCondition::from(opts(false, true)),
        AggregateCondition::TaskAndDaily
    );
    assert_eq!(
        AggregateCondition::from(opts(true, true)),
        AggregateCondition::ChargeAndDaily
    );
}

#[test]
fn request_dto_carries_the_options() {
    let o = opts(false, false);
    let dto = RequestDto::from(o.clone());
    assert_eq!(dto.start_date(), o.start_date());
    assert_eq!(dto.end_date(), o.end_date());
    assert_eq!(dto.all(), o.all());
    assert!(!o.set_clipboard());
    assert!(!o.by_charge());
    assert!(!o.by_daily());
}

#[test]
fn params_of_filtered_team_tasks() {
    let b = ClickupParamsBuilder;
    assert_eq!(b.convert_bool_to_lower_string(true), "true");
    assert_eq!(b.convert_bool_to_lower_string(false), "false");
    let params = b.filterd_team_tasks(3, true, false, 1343678399999, 1343764799000);
    match params {
        ApiParams::QueryString(q) => {
            assert_eq!(q.len(), 5);
            assert_eq!(q[0], ("page".to_string(), Some("3".to_string())));
            assert_eq!(q[1], ("subtasks".to_string(), Some("true".to_string())));
            assert_eq!(q[2], ("include_closed".to_string(), Some("false".to_string())));
            assert_eq!(
                q[3],
                ("date_updated_gt".to_string(), Some("1343678399999".to_string()))
            );
            assert_eq!(
                q[4],
                ("date_updated_lt".to_string(), Some("1343764799000".to_string()))
            );
        },
        ApiParams::RequestBody(_) => panic!("the parameters must be a query string"),
    }
}

#[test]
fn params_of_time_entries_within_a_date_range() {
    let b = ClickupParamsBuilder;
    let params = b.time_entries_within_a_date_range(true, -1, 1343764799000);
    match params {
        ApiParams::QueryString(q) => {
            assert_eq!(q.len(), 3);
            assert_eq!(
                q[0],
                ("include_location_names".to_string(), Some("true".to_string()))
            );
            assert_eq!(q[1], ("start_date".to_string(), Some("-1".to_string())));
            assert_eq!(q[2], ("end_date".to_string(), Some("1343764799000".to_string())));
        },
        ApiParams::RequestBody(_) => panic!("the parameters must be a query string"),
    }
}

#[test]
fn date_start_millis_steps_one_back() {
    let dr = DateRange::new(Some("2012/07/31"), None).unwrap();
    assert_eq!(clickup_date_start_milles(&dr), 1_343_678_399_999);
    assert_eq!(clickup_date_start_milles(&dr), dr.start_unixtime_millis() - 1);
}

#[test]
fn level_follows_the_environment() {
    assert_eq!(level(false, None), LogLevel::Trace);
    assert_eq!(level(true, Some("error")), LogLevel::Error);
    assert_eq!(level(true, Some("ERROR")), LogLevel::Error);
    assert_eq!(level(true, Some("Warn")), LogLevel::Warn);
    assert_eq!(level(true, Some("info")), LogLevel::Info);
    assert_eq!(level(true, Some("debug")), LogLevel::Debug);
    assert_eq!(level(true, Some("trace")), LogLevel::Trace);
    assert_eq!(level(true, Some("verbose")), LogLevel::Trace);
}

#[test]
fn now_lies_in_the_supported_calendar() {
    let now = Jst::now();
    assert!(now.millis >= 0);
    assert!(now.date.year >= 1970);
    assert!(now.hour < 24 && now.minute < 60 && now.second < 60);
    let today = Jst::today();
    assert_eq!(today, now.date);
    // a date built by fields equals itself parsed back
    let d = Jst::ymd(2022, 12, 4);
    assert_eq!(d.format_iso(), "2022-12-04");
    assert_eq!(d.format_slash(), "2022/12/04");
}

#[test]
fn timestamp_millis_resolves_wall_clock_fields() {
    // 1343696400000 is 2012-07-31 10:00:00 +09:00
    let t = Jst::timestamp_millis(1_343_696_400_000);
    assert_eq!(t.date, Jst::ymd(2012, 7, 31));
    assert_eq!((t.hour, t.minute, t.second), (10, 0, 0));
    assert_eq!(t.to_string(), "2012-07-31 10:00:00 +09:00");
    assert_eq!(t.format_slash_space(), "2012/07/31 10:00:00");
    assert_eq!(t.format_slash_t(), "2012/07/31T10:00:00");
    // the Unix epoch reads as 09:00 under +09:00
    let epoch = Jst::timestamp_millis(0);
    assert_eq!(epoch.to_string(), "1970-01-01 09:00:00 +09:00");
    // a leap day
    let leap = Jst::timestamp_millis(951_753_600_000);
    assert_eq!(leap.to_string(), "2000-02-29 01:00:00 +09:00");
}

#[test]
fn rendered_dto_shape_carries_plain_text() {
    let dtos = ByTaskAndTotalDtos {
        start_date: "2012/07/31".to_string(),
        end_date: None,
        dtos: vec![ByTaskAndTotalDto {
            updated_at: "2012/07/31 15:00:21".to_string(),
            charge_name: "list_name".to_string(),
            task_status: "Running".to_string(),
            task_name: "task_A".to_string(),
            duration: "01:00:21".to_string(),
        }],
    };
    assert_eq!(dtos.dtos.len(), 1);
    assert_eq!(dtos.dtos[0].duration, "01:00:21");
    assert!(dtos.end_date.is_none());
}
