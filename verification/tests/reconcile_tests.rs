use task_reporter::as_vec::AsVec;
use task_reporter::clickup_time_entries::ClickupTimeEntries;
use task_reporter::clickup_time_entry::ClickupTimeEntry;
use task_reporter::date_range::DateRange;

fn gen_time_entries() -> ClickupTimeEntries {
    let tes = vec![
        ClickupTimeEntry::new(
            "A-A",
            "1000",          // 1s
            "1343696400000", // 2012-07-31 10:00:00
            "1343696401000", // 2012-07-31 10:00:01
            "A",
            "task_A",
            "task_url_A",
            "Running",
            "list_name",
        )
        .unwrap(),
        ClickupTimeEntry::new(
            "A-B",
            "20000",         // 20s
            "1343714400000", // 2012-07-31 15:00:00
            "1343714420000", // 2012-07-31 15:00:20
            "A",
            "task_A",
            "task_url_A",
            "Running",
            "list_name",
        )
        .unwrap(),
        ClickupTimeEntry::new(
            "B-C",
            "180000",        // 180s = 3min
            "1343718000000", // 2012-07-31 16:00:00
            "1343718180000", // 2012-07-31 16:03:00
            "B",
            "task_B",
            "task_url_B",
            "Running",
            "list_name",
        )
        .unwrap(),
        ClickupTimeEntry::new(
            "B-D",
            "1800000",       // 1800s = 30min
            "1343764200000", // 2012-08-01 04:50:00
            "1343766000000", // 2012-08-01 05:20:00
            "B",
            "task_B",
            "task_url_B",
            "Running",
            "list_name",
        )
        .unwrap(),
        ClickupTimeEntry::new(
            "B-E",
            "2400000",       // 2400s = 40min
            "1343808000000", // 2012-08-01 17:00:00
            "1343810400000", // 2012-08-01 17:40:00
            "B",
            "task_B",
            "task_url_B",
            "Running",
            "list_name",
        )
        .unwrap(),
        ClickupTimeEntry::new(
            "C-F",
            "3600000",       // 3600s = 60min
            "1343725200000", // 2012-07-31 18:00:00
            "1343728800000", // 2012-07-31 19:00:00
            "C",
            "task_C",
            "task_url_C",
            "Running",
            "list_name",
        )
        .unwrap(),
    ];
    ClickupTimeEntries::new(tes)
}

#[test]
fn check_filter_entries_by_start_with_date_range() {
    let tes = gen_time_entries();
    let dr = DateRange::new(Some("2012/07/31"), None).unwrap();
    let filterd_tes = tes.filter_entries_by_start_with_date_range(&dr);

    // The filter keeps input order, which here is already ordered by entry
    // identifier. The B-D pattern (counted as 2012/07/31) stays in and the
    // B-E pattern (counted as 2012/08/01) is dropped.
    let start_a_a = "2012-07-31 10:00:00 +09:00";
    let end_a_a = "2012-07-31 10:00:01 +09:00";
    assert_eq!(filterd_tes.as_vec().get(0).unwrap().id.as_str(), "A-A");
    assert_eq!(
        filterd_tes.as_vec().get(0).unwrap().start.to_string(),
        start_a_a
    );
    assert_eq!(filterd_tes.as_vec().get(0).unwrap().end.to_string(), end_a_a);

    let start_a_b = "2012-07-31 15:00:00 +09:00";
    let end_a_b = "2012-07-31 15:00:20 +09:00";
    assert_eq!(filterd_tes.as_vec().get(1).unwrap().id.as_str(), "A-B");
    assert_eq!(
        filterd_tes.as_vec().get(1).unwrap().start.to_string(),
        start_a_b
    );
    assert_eq!(filterd_tes.as_vec().get(1).unwrap().end.to_string(), end_a_b);

    let start_b_c = "2012-07-31 16:00:00 +09:00";
    let end_b_c = "2012-07-31 16:03:00 +09:00";
    assert_eq!(filterd_tes.as_vec().get(2).unwrap().id.as_str(), "B-C");
    assert_eq!(
        filterd_tes.as_vec().get(2).unwrap().start.to_string(),
        start_b_c
    );
    assert_eq!(filterd_tes.as_vec().get(2).unwrap().end.to_string(), end_b_c);

    let start_b_d = "2012-08-01 04:50:00 +09:00";
    let end_b_d = "2012-08-01 05:20:00 +09:00";
    assert_eq!(filterd_tes.as_vec().get(3).unwrap().id.as_str(), "B-D");
    assert_eq!(
        filterd_tes.as_vec().get(3).unwrap().start.to_string(),
        start_b_d
    );
    assert_eq!(filterd_tes.as_vec().get(3).unwrap().end.to_string(), end_b_d);

    let start_c_f = "2012-07-31 18:00:00 +09:00";
    let end_c_f = "2012-07-31 19:00:00 +09:00";
    assert_eq!(filterd_tes.as_vec().get(4).unwrap().id.as_str(), "C-F");
    assert_eq!(
        filterd_tes.as_vec().get(4).unwrap().start.to_string(),
        start_c_f
    );
    assert_eq!(filterd_tes.as_vec().get(4).unwrap().end.to_string(), end_c_f);

    assert!(filterd_tes.as_vec().get(5).is_none());
}

#[test]
fn check_aggregate_by_task_id() {
    let tes = gen_time_entries();
    let mut tasks = tes.to_tasks();

    // Fix the order; no task identifier appears twice, each task's recency
    // is the greatest end timestamp, and each duration is the group's sum.
    tasks.as_mut_vec().sort_by_key(|t| t.updated_at);

    let updated_at_a = "2012-07-31 15:00:20 +09:00";
    assert_eq!(tasks.as_vec()[0].task_id.as_str(), "A");
    assert_eq!(tasks.as_vec()[0].updated_at.to_string(), updated_at_a);
    assert_eq!(tasks.as_vec()[0].duration.as_duration() / 1000, 21);

    let updated_at_c = "2012-07-31 19:00:00 +09:00";
    assert_eq!(tasks.as_vec()[1].task_id.as_str(), "C");
    assert_eq!(tasks.as_vec()[1].updated_at.to_string(), updated_at_c);
    assert_eq!(tasks.as_vec()[1].duration.as_duration() / 1000, 3600);

    let updated_at_b = "2012-08-01 17:40:00 +09:00";
    assert_eq!(tasks.as_vec()[2].task_id.as_str(), "B");
    assert_eq!(tasks.as_vec()[2].updated_at.to_string(), updated_at_b);
    assert_eq!(tasks.as_vec()[2].duration.as_duration() / 1000, 4380);

    assert!(tasks.as_vec().get(3).is_none());
}

#[test]
fn merge_by_task_identifier_takes_latest_metadata_and_summed_duration() {
    // Two fragments of task "A" totaling 3621 seconds at different
    // timestamps: the merged record sums them and carries the metadata of
    // the fragment ending later.
    let tes = ClickupTimeEntries::new(vec![
        ClickupTimeEntry::new(
            "A-1",
            "3600000",
            "1343696400000", // 2012-07-31 10:00:00
            "1343700000000", // 2012-07-31 11:00:00
            "A",
            "task_A_old_name",
            "task_url_A",
            "Open",
            "list_name",
        )
        .unwrap(),
        ClickupTimeEntry::new(
            "A-2",
            "21000",
            "1343714400000", // 2012-07-31 15:00:00
            "1343714421000", // 2012-07-31 15:00:21
            "A",
            "task_A_new_name",
            "task_url_A",
            "Closed",
            "list_name",
        )
        .unwrap(),
    ]);
    let tasks = tes.to_tasks();
    assert_eq!(tasks.as_vec().len(), 1);
    let merged = &tasks.as_vec()[0];
    assert_eq!(merged.task_id.as_str(), "A");
    assert_eq!(merged.duration.as_duration() / 1000, 3621);
    assert_eq!(merged.task_name.as_str(), "task_A_new_name");
    assert_eq!(merged.task_status.as_str(), "Closed");
    assert_eq!(merged.updated_at.to_string(), "2012-07-31 15:00:21 +09:00");
}

#[test]
fn exclude_drops_every_matching_entry() {
    let tes = gen_time_entries();
    let mut entries = ClickupTimeEntries::new(tes.as_vec().clone());
    assert!(!entries.is_empty());
    // Entries compare by task identifier, so excluding one fragment of task
    // "B" removes all three.
    let sample = entries.as_vec()[2].clone();
    entries.exclude(&sample);
    assert_eq!(entries.as_vec().len(), 3);
    assert!(entries.as_vec().iter().all(|te| te.task_id != "B"));
}
