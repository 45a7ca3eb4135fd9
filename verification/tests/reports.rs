use task_reporter::aggregated_by::charge_and_daily::ChargeAndDailyRecords;
use task_reporter::aggregated_by::charge_and_total_period::ChargeAndTotalPeriodRecords;
use task_reporter::aggregated_by::task_and_daily::TaskAndDailyRecords;
use task_reporter::aggregated_by::task_and_total_period::TaskAndTotalPeriodRecords;
use task_reporter::as_vec::AsVec;
use task_reporter::clickup_task::ClickupTask;
use task_reporter::clickup_tasks::ClickupTasks;
use task_reporter::clickup_time_entries::ClickupTimeEntries;
use task_reporter::clickup_time_entry::ClickupTimeEntry;
use task_reporter::date_range::DateRange;
use task_reporter::task_records::TaskRecords;
use task_reporter::usecase::reconcile_task_records;

/// The reference fixture: two task snapshots and six time-entry fragments
/// around the single logical day 2012/07/31.
fn fixture() -> (ClickupTasks, ClickupTimeEntries) {
    let tasks = ClickupTasks::new(vec![
        ClickupTask::new(
            "A",
            "task_A",
            "task_url_A",
            "Running",
            "list_name",
            None,
            "1343692800000", // 2012-07-31 09:00:00
        )
        .unwrap(),
        ClickupTask::new(
            "B",
            "task_B",
            "task_url_B",
            "Running",
            "list_name",
            None,
            "1343692800000", // 2012-07-31 09:00:00
        )
        .unwrap(),
    ]);
    let entries = ClickupTimeEntries::new(vec![
        ClickupTimeEntry::new(
            "A-A",
            "3600000",       // 3600s
            "1343696400000", // 2012-07-31 10:00:00
            "1343700000000", // 2012-07-31 11:00:00
            "A",
            "task_A",
            "task_url_A",
            "Running",
            "list_name",
        )
        .unwrap(),
        ClickupTimeEntry::new(
            "A-B",
            "21000",         // 21s
            "1343714400000", // 2012-07-31 15:00:00
            "1343714421000", // 2012-07-31 15:00:21
            "A",
            "task_A",
            "task_url_A",
            "Running",
            "list_name",
        )
        .unwrap(),
        ClickupTimeEntry::new(
            "B-C",
            "180000",        // 180s
            "1343718000000", // 2012-07-31 16:00:00
            "1343718180000", // 2012-07-31 16:03:00
            "B",
            "task_B",
            "task_url_B",
            "Running",
            "list_name",
        )
        .unwrap(),
        ClickupTimeEntry::new(
            "B-D",
            "1800000",       // 1800s
            "1343764200000", // 2012-08-01 04:50:00, still logical 07-31
            "1343766000000", // 2012-08-01 05:20:00
            "B",
            "task_B",
            "task_url_B",
            "Running",
            "list_name",
        )
        .unwrap(),
        ClickupTimeEntry::new(
            "B-E",
            "2400000",       // 2400s, outside the day filter
            "1343808000000", // 2012-08-01 17:00:00
            "1343810400000", // 2012-08-01 17:40:00
            "B",
            "task_B",
            "task_url_B",
            "Running",
            "list_name",
        )
        .unwrap(),
        ClickupTimeEntry::new(
            "C-F",
            "3600000",       // 3600s
            "1343725200000", // 2012-07-31 18:00:00
            "1343728800000", // 2012-07-31 19:00:00
            "C",
            "task_C",
            "task_url_C",
            "Running",
            "list_name",
        )
        .unwrap(),
    ]);
    (tasks, entries)
}

fn fixture_records(dr: &DateRange) -> TaskRecords {
    let (tasks, entries) = fixture();
    let filtered = entries.filter_entries_by_start_with_date_range(dr);
    reconcile_task_records(tasks, filtered)
}

#[test]
fn end_to_end_task_and_total_period() {
    let dr = DateRange::new(Some("2012/07/31"), None).unwrap();
    let records = fixture_records(&dr);
    let report = TaskAndTotalPeriodRecords::new(dr, records);

    // Three rows, tasks A, B and C, ordered by duration within the shared
    // charge and status: B 1980s, C 3600s, A 3621s, and the grand total.
    assert_eq!(report.records.len(), 3);
    assert_eq!(report.records[0].task_id.as_str(), "B");
    assert_eq!(report.records[0].total_duration.as_duration() / 1000, 1980);
    assert_eq!(report.records[1].task_id.as_str(), "C");
    assert_eq!(report.records[1].total_duration.as_duration() / 1000, 3600);
    assert_eq!(report.records[2].task_id.as_str(), "A");
    assert_eq!(report.records[2].total_duration.as_duration() / 1000, 3621);

    let expected = "target date: 2012/07/31\n\n\
[\n\
updated_at\ttotal_duration\tcharge_name\ttask_status\ttask_name\n\
2012/08/01 05:20:00\t00:33:00\tlist_name\tRunning\ttask_B\n\
2012/07/31 19:00:00\t01:00:00\tlist_name\tRunning\ttask_C\n\
2012/07/31 15:00:21\t01:00:21\tlist_name\tRunning\ttask_A\n\
grand total\t02:33:21\n\
]";
    assert_eq!(report.to_string(), expected);
}

#[test]
fn aggregation_is_idempotent() {
    let dr = DateRange::new(Some("2012/07/31"), None).unwrap();
    let first = TaskAndTotalPeriodRecords::new(dr, fixture_records(&dr));
    let second = TaskAndTotalPeriodRecords::new(dr, fixture_records(&dr));
    assert_eq!(first.records, second.records);
    assert_eq!(first.to_string(), second.to_string());

    let daily_first = ChargeAndDailyRecords::new(dr, fixture_records(&dr));
    let daily_second = ChargeAndDailyRecords::new(dr, fixture_records(&dr));
    assert_eq!(daily_first.records, daily_second.records);
}

#[test]
fn title_renders_date_or_period() {
    let dr_single = DateRange::new(Some("2012/07/31"), None).unwrap();
    let single = TaskAndTotalPeriodRecords::new(dr_single, TaskRecords::new(vec![]));
    assert!(single.to_string().starts_with("target date: 2012/07/31\n"));

    let dr_period = DateRange::new(Some("2010/12/31"), Some("2022/07/13")).unwrap();
    let period = TaskAndTotalPeriodRecords::new(dr_period, TaskRecords::new(vec![]));
    assert!(period
        .to_string()
        .starts_with("target period: 2010/12/31 \u{2013} 2022/07/13\n"));
}

#[test]
fn empty_input_renders_an_empty_report() {
    let dr = DateRange::new(Some("2012/07/31"), None).unwrap();
    let report = TaskAndTotalPeriodRecords::new(dr, TaskRecords::new(vec![]));
    assert_eq!(report.records.len(), 0);
    let expected = "target date: 2012/07/31\n\n\
[\n\
updated_at\ttotal_duration\tcharge_name\ttask_status\ttask_name\n\
grand total\t00:00:00\n\
]";
    assert_eq!(report.to_string(), expected);
}

#[test]
fn charge_and_total_period_report() {
    let dr = DateRange::new(Some("2012/07/31"), None).unwrap();
    let report = ChargeAndTotalPeriodRecords::new(dr, fixture_records(&dr));

    // One charge collects every record: 1980 + 3600 + 3621 = 9201 seconds.
    assert_eq!(report.records.len(), 1);
    assert_eq!(report.records[0].charge_name.as_str(), "list_name");
    assert_eq!(report.records[0].total_duration.as_duration() / 1000, 9201);

    let expected = "target date: 2012/07/31\n\n\
[\n\
updated_at\ttotal_duration\tcharge_name\n\
2012/08/01 05:20:00\t02:33:21\tlist_name\n\
grand total\t02:33:21\n\
]";
    assert_eq!(report.to_string(), expected);
}

#[test]
fn task_and_daily_report() {
    let dr = DateRange::new(Some("2012/07/31"), None).unwrap();
    let report = TaskAndDailyRecords::new(dr, fixture_records(&dr));

    // Every record is attributed to the one logical day, B-D included.
    assert_eq!(report.records.len(), 3);
    let expected = "target date: 2012/07/31\n\n\
[\n\
target_date\tupdated_at\ttotal_duration\tcharge_name\ttask_status\ttask_name\n\
2012-07-31\t2012/08/01T05:20:00\t00:33:00\tlist_name\tRunning\ttask_B\n\
2012-07-31\t2012/07/31T19:00:00\t01:00:00\tlist_name\tRunning\ttask_C\n\
2012-07-31\t2012/07/31T15:00:21\t01:00:21\tlist_name\tRunning\ttask_A\n\
]";
    assert_eq!(report.to_string(), expected);
}

#[test]
fn charge_and_daily_report() {
    let dr = DateRange::new(Some("2012/07/31"), None).unwrap();
    let report = ChargeAndDailyRecords::new(dr, fixture_records(&dr));

    assert_eq!(report.records.len(), 1);
    let expected = "target date: 2012/07/31\n\n\
[\n\
target_date\tupdated_at\ttotal_duration\tcharge_name\n\
2012-07-31\t2012/08/01T05:20:00\t02:33:21\tlist_name\n\
]";
    assert_eq!(report.to_string(), expected);
}

#[test]
fn reconciliation_unions_without_deduplication() {
    let dr = DateRange::new(Some("2012/07/31"), None).unwrap();
    let records = fixture_records(&dr);
    // two snapshots and five in-range fragments, none merged
    assert_eq!(records.as_vec().len(), 7);
    // snapshots first, fragments after, in source order
    assert_eq!(records.as_vec()[0].task_id.as_str(), "A");
    assert_eq!(records.as_vec()[1].task_id.as_str(), "B");
    assert_eq!(records.as_vec()[2].task_id.as_str(), "A");
}
