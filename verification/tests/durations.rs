use task_reporter::clickup_task::ClickupTask;
use task_reporter::clickup_time_entry::ClickupTimeEntry;
use task_reporter::task_duration::TaskDuration;
use task_reporter::values::ClickupDuration;

fn gen_clickup_duration(hour: i32, minute: i32, sec: i32) -> ClickupDuration {
    let millisec = ((hour * 60 * 60) + (minute * 60) + sec) * 1000;
    ClickupDuration::new(Some(millisec.to_string().as_str())).unwrap()
}

fn gen_task_duration(hour: i32, minute: i32, sec: i32) -> TaskDuration {
    let millisec = ((hour * 60 * 60) + (minute * 60) + sec) * 1000;
    TaskDuration::from_millis_str(Some(millisec.to_string().as_str())).unwrap()
}

#[test]
fn values_to_string_renders_hhmiss() {
    let d = gen_clickup_duration(2, 30, 45);
    println!("{}", d.to_string());
    assert_eq!(d.to_string(), "02:30:45".to_string());
}

#[test]
fn values_seconds_carry_into_minutes() {
    let d = gen_clickup_duration(2, 30, 75);
    println!("{}", d.to_string());
    assert_eq!(d.to_string(), "02:31:15".to_string());
}

#[test]
fn values_minutes_carry_into_hours() {
    let d = gen_clickup_duration(2, 75, 45);
    println!("{}", d.to_string());
    assert_eq!(d.to_string(), "03:15:45".to_string());
}

#[test]
fn values_hours_do_not_carry_into_days() {
    let d = gen_clickup_duration(99, 30, 45);
    println!("{}", d.to_string());
    assert_eq!(d.to_string(), "99:30:45".to_string());
}

#[test]
fn task_duration_to_string_renders_hhmiss() {
    let d = gen_task_duration(2, 30, 45);
    assert_eq!(d.to_string(), "02:30:45".to_string());
}

#[test]
fn task_duration_seconds_carry_into_minutes() {
    let d = gen_task_duration(2, 30, 75);
    assert_eq!(d.to_string(), "02:31:15".to_string());
}

#[test]
fn task_duration_minutes_carry_into_hours() {
    let d = gen_task_duration(2, 75, 45);
    assert_eq!(d.to_string(), "03:15:45".to_string());
}

#[test]
fn task_duration_hours_do_not_carry_into_days() {
    let d = gen_task_duration(99, 30, 45);
    assert_eq!(d.to_string(), "99:30:45".to_string());
}

#[test]
fn hundred_hours_is_refused() {
    // 100:30:45 lies beyond the hundred-hour guard
    let millisec = ((100 * 60 * 60) + (30 * 60) + 45) * 1000;
    assert!(ClickupDuration::new(Some(millisec.to_string().as_str())).is_err());
    // exactly the bound is refused as well
    assert!(ClickupDuration::new(Some("360000000")).is_err());
    assert!(TaskDuration::from_millis_str(Some("360000000")).is_err());
    assert!(TaskDuration::from_millis_str(Some("359999999")).is_ok());
}

#[test]
fn just_under_hundred_hours_succeeds() {
    // 99:59:59
    let millisec: i64 = ((99 * 3600) + (59 * 60) + 59) * 1000;
    let d = ClickupDuration::new(Some(millisec.to_string().as_str())).unwrap();
    assert_eq!(d.to_string(), "99:59:59");
    assert_eq!(d.as_duration(), 359_999_000);
}

#[test]
fn absent_duration_is_zero() {
    let d = ClickupDuration::new(None).unwrap();
    assert_eq!(d.as_duration(), 0);
    assert_eq!(d.to_string(), "00:00:00");
    let t = TaskDuration::from_millis_str(None).unwrap();
    assert_eq!(t.as_duration(), 0);
    assert_eq!(t.to_string(), "00:00:00");
}

#[test]
fn addition_is_commutative_and_associative() {
    let a = TaskDuration::new(1_000);
    let b = TaskDuration::new(2_500);
    let c = TaskDuration::new(4_000);
    assert_eq!(a.add(b), b.add(a));
    assert_eq!(a.add(b).add(c), a.add(b.add(c)));
    assert_eq!(a.add(b).as_duration(), 3_500);
    // the zero duration is the identity
    assert_eq!(a.add(TaskDuration::zero()), a);
    assert_eq!(TaskDuration::zero().add(a), a);
}

#[test]
fn record_constructors_refuse_overlong_durations() {
    assert!(ClickupTask::new(
        "A",
        "task_A",
        "task_url_A",
        "Running",
        "list_name",
        Some("360000000"),
        "1343692800000",
    )
    .is_err());
    assert!(ClickupTimeEntry::new(
        "A-A",
        "360000000",
        "1343696400000",
        "1343700000000",
        "A",
        "task_A",
        "task_url_A",
        "Running",
        "list_name",
    )
    .is_err());
}

#[test]
fn validation_error_message_text() {
    let e = ClickupDuration::new(Some("360000000")).unwrap_err();
    assert_eq!(
        e.message(),
        "Too many milliseconds. Please specify less than 100 hours."
    );
}
