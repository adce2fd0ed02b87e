use riffle::config::{Config, StorageEnv};
use riffle::consumer::{
    add_counts, build_sink_config, capture_baseline_version, count_action_rows, first_open,
    inspect_version, process_work, statistics_document, show_pending, show_polling, show_sink, show_sinking,
    show_tracking, unit_work, update_consumer_state, update_consumer_state_at, CommitError,
    ConsumerAction, ConsumerLoop, ConsumerPhase, ConsumerProgress, FirstOpen, PollPlan, PollStep, SetupError, Thresholds, UnitWork,
    VersionInfo, WorkUnit,
};
use riffle::sink::SinkError;
use riffle::state::{
    fmt_ckpt, ConsumerState, DiskCheckpoint, RollingAverage, SinkState, TunableConfig,
};

fn thresholds(chunk: u64, merge: u64, split: u64) -> Thresholds {
    Thresholds::new(&TunableConfig::new(chunk, merge, split))
}

fn fresh(version: i64) -> DiskCheckpoint {
    DiskCheckpoint { last_full_version: version, partial_file_offset: 0, rows_committed: 0 }
}

fn infos(list: &[(i64, u64)]) -> Vec<VersionInfo> {
    list.iter().map(|p| VersionInfo { version: p.0, rows: p.1 }).collect()
}

fn drain(mut plan: PollPlan) -> Vec<WorkUnit> {
    let mut out = vec![];
    while let Some(u) = plan.next_unit() {
        out.push(u);
    }
    out
}

fn chunks(units: &[WorkUnit]) -> Vec<(i64, u64, u64, u64)> {
    units
        .iter()
        .map(|u| match u {
            WorkUnit::Chunk { version, index, count, rows } => (*version, *index, *count, *rows),
            WorkUnit::Group { .. } => panic!("no chunk"),
        })
        .collect()
}

#[test]
fn zero_thresholds_count_as_one() {
    let th = thresholds(0, 0, 0);
    assert_eq!(th, Thresholds { split: 1, merge: 1, chunk: 1 });
}

#[test]
fn large_commit_is_split_into_chunks() {
    let units = drain(PollPlan::new(infos(&[(7, 120_001)]), thresholds(50_000, 30_000, 100_000), &fresh(6)));
    assert_eq!(
        chunks(&units),
        vec![(7, 0, 3, 40_000), (7, 1, 3, 40_000), (7, 2, 3, 40_001)]
    );
}

#[test]
fn split_commit_has_at_least_two_chunks() {
    let units = drain(PollPlan::new(infos(&[(1, 101)]), thresholds(1_000, 10, 100), &fresh(0)));
    assert_eq!(chunks(&units), vec![(1, 0, 2, 50), (1, 1, 2, 51)]);
}

#[test]
fn last_chunk_takes_the_rest() {
    let units = drain(PollPlan::new(infos(&[(1, 5)]), thresholds(2, 1, 1), &fresh(0)));
    assert_eq!(chunks(&units), vec![(1, 0, 3, 1), (1, 1, 3, 1), (1, 2, 3, 3)]);
}

#[test]
fn small_commits_are_merged_up_to_the_threshold() {
    let p = infos(&[(1, 10), (2, 10), (3, 10), (4, 25), (5, 101), (6, 1)]);
    let units = drain(PollPlan::new(p, thresholds(50, 30, 100), &fresh(0)));
    assert_eq!(units.len(), 6);
    assert!(matches!(&units[0], WorkUnit::Group { versions, rows } if versions == &vec![1, 2, 3] && *rows == 30));
    assert!(matches!(&units[1], WorkUnit::Group { versions, rows } if versions == &vec![4] && *rows == 25));
    assert_eq!(chunks(&units[2..5]), vec![(5, 0, 3, 33), (5, 1, 3, 33), (5, 2, 3, 35)]);
    assert!(matches!(&units[5], WorkUnit::Group { versions, .. } if versions == &vec![6]));
}

#[test]
fn at_most_ten_commits_are_merged() {
    let p: Vec<VersionInfo> = (0..12).map(|v| VersionInfo { version: v, rows: 0 }).collect();
    let units = drain(PollPlan::new(p, thresholds(50, 30, 100), &fresh(-1)));
    assert_eq!(units.len(), 2);
    assert_eq!(units[0].range(), "v0-v9 (10 versions)");
    assert_eq!(units[1].range(), "v10-v11 (2 versions)");
}

#[test]
fn a_single_commit_may_exceed_the_merge_threshold() {
    let units = drain(PollPlan::new(infos(&[(3, 80)]), thresholds(50, 30, 100), &fresh(2)));
    assert!(matches!(&units[0], WorkUnit::Group { versions, rows } if versions == &vec![3] && *rows == 80));
    assert_eq!(units[0].mode(), "single");
    assert_eq!(units[0].range(), "v3");
}

#[test]
fn no_commits_no_units() {
    assert!(drain(PollPlan::new(vec![], thresholds(1, 1, 1), &fresh(0))).is_empty());
}

/// Stops after any number of units, starts again from the checkpoint, and has the rest before it.
#[test]
fn resumes_exactly_where_it_stopped() {
    let p = infos(&[(3, 10), (4, 10), (5, 260), (6, 1), (7, 150)]);
    let th = thresholds(50, 30, 100);
    let all = drain(PollPlan::new(p.clone(), th, &fresh(2)));
    let shown: Vec<String> = all.iter().map(|u| format!("{:?}", u)).collect();
    let total: u64 = p.iter().map(|i| i.rows).sum();
    for k in 0..=all.len() {
        let mut progress = ConsumerProgress::new(None, 2);
        for u in &all[..k] {
            assert!(progress.can_record(u));
            progress.record(u, 1);
        }
        let ckpt = progress.checkpoint;
        let left: Vec<VersionInfo> =
            p.iter().copied().filter(|i| i.version > ckpt.last_full_version).collect();
        let rest = drain(PollPlan::new(left, th, &ckpt));
        let rest_shown: Vec<String> = rest.iter().map(|u| format!("{:?}", u)).collect();
        assert_eq!(rest_shown, shown[k..].to_vec());
        let more: u64 = rest.iter().map(|u| u.rows()).sum();
        assert_eq!(ckpt.rows_committed + more, total);
    }
}

#[test]
fn partial_offset_of_another_version_is_ignored() {
    let th = thresholds(50, 30, 100);
    let ckpt = DiskCheckpoint { last_full_version: 1, partial_file_offset: 2, rows_committed: 9 };
    let units = drain(PollPlan::new(infos(&[(3, 150)]), th, &ckpt));
    assert_eq!(chunks(&units)[0].1, 0);
    let units = drain(PollPlan::new(infos(&[(2, 150)]), th, &ckpt));
    assert_eq!(chunks(&units), vec![(2, 2, 3, 50)]);
    let far = DiskCheckpoint { last_full_version: 1, partial_file_offset: 3, rows_committed: 9 };
    let units = drain(PollPlan::new(infos(&[(2, 150)]), th, &far));
    assert_eq!(units.len(), 3);
}

#[test]
fn progress_moves_the_checkpoint_and_counts() {
    let mut p = ConsumerProgress::new(None, 4);
    assert_eq!(p.poll(4), PollStep::Idle);
    assert_eq!(p.poll(6), PollStep::Inspect { first: 5, last: 6 });
    let chunk = WorkUnit::Chunk { version: 5, index: 0, count: 2, rows: 70 };
    let u = p.record(&chunk, 10);
    assert_eq!(u.mode, "split");
    assert_eq!(u.range, "v5[chunk 1/2]");
    assert_eq!((u.version, u.new_rows, u.versions_processed, u.chunks_processed), (5, 70, 0, 1));
    assert_eq!(fmt_ckpt(&p.checkpoint), "v4+chunk1");
    let u = p.record(&WorkUnit::Chunk { version: 5, index: 1, count: 2, rows: 71 }, 20);
    assert_eq!((u.versions_processed, u.chunks_processed, u.total_rows), (1, 2, 141));
    assert_eq!(u.avg_latency_ms, 15);
    assert_eq!(fmt_ckpt(&p.checkpoint), "v5:complete");
    let u = p.record(&WorkUnit::Group { versions: vec![6, 7], rows: 9 }, 30);
    assert_eq!(u.mode, "merged");
    assert_eq!(u.range, "v6-v7 (2 versions)");
    assert_eq!((u.version, u.versions_processed, u.total_rows), (7, 3, 150));
    p.finish_poll(8);
    assert_eq!(p.last_version, 8);
    assert_eq!(p.checkpoint.last_full_version, 7);
}

#[test]
fn saved_checkpoint_is_gone_on_from() {
    let saved = DiskCheckpoint { last_full_version: 9, partial_file_offset: 1, rows_committed: 5 };
    let p = ConsumerProgress::new(Some(saved), 3);
    assert_eq!(p.checkpoint, saved);
    assert_eq!(p.last_version, 9);
}

#[test]
fn counters_that_are_full_are_noticed() {
    let mut p = ConsumerProgress::new(None, 0);
    p.checkpoint.rows_committed = u64::MAX;
    assert!(!p.can_record(&WorkUnit::Group { versions: vec![1], rows: 1 }));
    assert!(p.can_record(&WorkUnit::Group { versions: vec![1], rows: 0 }));
    assert!(!p.can_record(&WorkUnit::Group { versions: vec![], rows: 0 }));
}

#[test]
fn rolling_average_looks_back_on_a_hundred() {
    let mut r = RollingAverage::new();
    assert_eq!(r.record(1000), 1000);
    for _ in 0..99 {
        r.record(0);
    }
    assert_eq!(r.values.len(), 100);
    assert_eq!(r.record(0), 0);
    assert_eq!(r.values.len(), 100);
}

#[test]
fn split_version_is_sunk_with_its_first_chunk() {
    let first = WorkUnit::Chunk { version: 3, index: 0, count: 2, rows: 5_000 };
    let second = WorkUnit::Chunk { version: 3, index: 1, count: 2, rows: 5_000 };
    let group = WorkUnit::Group { versions: vec![4, 5], rows: 10 };
    assert_eq!(unit_work(&first, true), UnitWork::Sink { versions: vec![3] });
    assert_eq!(unit_work(&second, true), UnitWork::Nothing);
    assert_eq!(unit_work(&group, true), UnitWork::Sink { versions: vec![4, 5] });
    assert_eq!(unit_work(&first, false), UnitWork::Wait { millis: 5 });
}

#[test]
fn downstream_work_is_imitated_within_bounds() {
    assert_eq!(process_work(0), 1);
    assert_eq!(process_work(2_999), 2);
    assert_eq!(process_work(9_000_000), 5_000);
}

#[test]
fn consumer_shows_units() {
    let mut s = ConsumerState::default();
    let mut p = ConsumerProgress::new(None, 0);
    for v in 1..=60 {
        let u = p.record(&WorkUnit::Group { versions: vec![v], rows: 2 }, 7);
        update_consumer_state_at(&mut s, &u, format!("t{}", v));
    }
    assert_eq!(s.events.len(), 50);
    assert_eq!(s.events[0].timestamp, "t11");
    assert_eq!(s.events[49].range, "v60");
    assert_eq!(s.status, "Processing");
    assert_eq!(s.total_rows_consumed, 120);
    assert_eq!(s.checkpoint, "v60:complete");
    let u = p.record(&WorkUnit::Group { versions: vec![61], rows: 2 }, 7);
    update_consumer_state(&mut s, &u);
    let t = s.events[49].timestamp.clone();
    assert_eq!(t.len(), 8);
    assert_eq!(&t[2..3], ":");
    assert_eq!(&t[5..6], ":");
    assert!(t.chars().filter(|c| c.is_ascii_digit()).count() == 6);
}

#[test]
fn consumer_statuses() {
    let mut s = ConsumerState::default();
    show_tracking(&mut s, &ConsumerProgress::new(None, 4));
    assert_eq!((s.status.as_str(), s.last_version_seen), ("Tracking", 4));
    assert_eq!(s.checkpoint, "v4:complete");
    show_pending(&mut s, 3);
    assert_eq!(s.pending_versions, 3);
    show_polling(&mut s);
    assert_eq!((s.status.as_str(), s.pending_versions), ("Polling...", 0));
}

#[test]
fn waits_for_a_table_that_may_appear() {
    let e = |m: &str| Some(m.to_string());
    assert_eq!(first_open(&None, true), FirstOpen::Track { save_checkpoint: true });
    assert_eq!(first_open(&None, false), FirstOpen::Track { save_checkpoint: false });
    assert_eq!(first_open(&e("Not a Delta table: x"), true), FirstOpen::Retry { seconds: 2 });
    assert_eq!(first_open(&e("object not found"), true), FirstOpen::Retry { seconds: 2 });
    assert_eq!(first_open(&e("permission denied"), true), FirstOpen::Fail);
}

#[test]
fn baseline_of_a_missing_table() {
    assert_eq!(capture_baseline_version(None), -1);
    assert_eq!(capture_baseline_version(Some(None)), -1);
    assert_eq!(capture_baseline_version(Some(Some(12))), 12);
}

#[test]
fn rows_of_a_commit_are_counted() {
    let content = "{\"commitInfo\":{}}\n  {\"add\":{\"path\":\"a\",\"stats\":\"{\\\"numRecords\\\":7}\"}}  \n\nnot json\n{\"add\":{\"stats\":{\"numRecords\":5}}}\n{\"add\":{\"path\":\"b\"}}\n{\"add\":{\"stats\":\"{\\\"numRecords\\\":-1}\"}}\n{\"remove\":{\"stats\":\"{\\\"numRecords\\\":9}\"}}\r\n";
    let r = inspect_version(4, &content.as_bytes().to_vec());
    assert_eq!(r, Ok(VersionInfo { version: 4, rows: 12 }));
    assert_eq!(inspect_version(4, &vec![]), Ok(VersionInfo { version: 4, rows: 0 }));
    assert_eq!(inspect_version(4, &vec![0xff, 0xfe]), Err(CommitError::NotUtf8));
    let max = format!("{{\"add\":{{\"stats\":{{\"numRecords\":{}}}}}}}\n", u64::MAX);
    let twice = format!("{}{}", max, max);
    assert_eq!(inspect_version(4, &twice.into_bytes()), Err(CommitError::TooManyRows));
    assert_eq!(
        inspect_version(1, &max.into_bytes()),
        Ok(VersionInfo { version: 1, rows: u64::MAX })
    );
}

#[test]
fn action_that_counts_nothing() {
    assert_eq!(count_action_rows("{\"add\":{\"stats\":\"{}\"}}"), None);
    assert_eq!(count_action_rows("{\"add\":{\"stats\":{\"numRecords\":\"7\"}}}"), None);
    assert_eq!(count_action_rows("{\"add\":{\"stats\":{\"numRecords\":7}}}"), Some(7));
    assert_eq!(count_action_rows("[1]"), None);
    assert_eq!(add_counts(&vec![Some(1), None, Some(2)]), Some(3));
    assert_eq!(add_counts(&vec![Some(u64::MAX), Some(1)]), None);
}

fn config(mode: &str, keys: &str, auth: &str) -> Config {
    Config {
        table_uri: "./source".to_string(),
        bind_addr: String::new(),
        producer_enabled: false,
        consumer_enabled: true,
        batch_min_rows: 1,
        batch_max_rows: 2,
        write_interval_secs: 1,
        poll_interval_secs: 1,
        checkpoint_file: String::new(),
        chunk_target_rows: 1,
        merge_threshold_rows: 1,
        split_threshold_rows: 1,
        azure_auth: auth.to_string(),
        sink_enabled: true,
        target_table_uri: "abfss://c@acct.x/t".to_string(),
        sink_mode: mode.to_string(),
        merge_keys: keys.to_string(),
        merge_update_columns: String::new(),
        merge_update_predicate: None,
        merge_delete_predicate: Some("d".to_string()),
        merge_insert_predicate: None,
    }
}

fn env() -> StorageEnv {
    StorageEnv {
        storage_account: None,
        storage_account_key: None,
        storage_key: None,
        tenant_id: false,
        client_id: false,
        client_secret: false,
        identity_endpoint: false,
        msi_endpoint: false,
        s3_allow_unsafe_rename: false,
    }
}

#[test]
fn sink_of_a_consumer() {
    let sc = build_sink_config(&config("merge", "event_id", "cli"), &env()).unwrap();
    assert_eq!(sc.source_uri, "./source");
    assert_eq!(sc.target_uri, "abfss://c@acct.x/t");
    assert_eq!(sc.read_concurrency, 8);
    assert_eq!(sc.mode.name(), "merge");
    assert!(sc.source_storage_options.is_empty());
    assert_eq!(sc.target_storage_options.len(), 2);
    let e = build_sink_config(&config("merge", " , ", "cli"), &env()).unwrap_err();
    assert_eq!(e, SetupError::Mode(SinkError::MergeKeysRequired));
    let e = build_sink_config(&config("append", "", "key"), &env()).unwrap_err();
    assert!(matches!(e, SetupError::Storage(_)));
}

#[test]
fn sink_of_a_consumer_is_shown() {
    let mut s = SinkState::default();
    let cfg = config("append", "", "cli");
    let sc = build_sink_config(&cfg, &env()).ok();
    show_sink(&mut s, &cfg, &sc);
    assert!(s.enabled);
    assert_eq!((s.mode.as_str(), s.target_backend.as_str(), s.status.as_str()), ("append", "Azure", "Idle"));
    show_sinking(&mut s, 3);
    assert_eq!(s.status, "Sinking 3 version(s)...");
}

#[test]
fn statistics_are_a_string_or_a_document() {
    let stats = "\"x\"".to_string();
    assert_eq!(statistics_document(stats.clone(), Some("x".to_string())), "x");
    assert_eq!(statistics_document(stats.clone(), None), stats);
}

#[test]
fn consumer_waits_for_its_table_and_polls() {
    let mut c = ConsumerLoop::new(None, -1, false, 3);
    assert_eq!(c.next(), ConsumerAction::OpenTable);
    assert!(!c.opened_first(&Some("table not found".to_string())));
    assert_eq!(c.next(), ConsumerAction::Sleep { seconds: 2 });
    c.slept();
    assert!(c.opened_first(&None));
    assert_eq!(c.next(), ConsumerAction::Sleep { seconds: 3 });
    c.slept();
    assert_eq!(c.next(), ConsumerAction::OpenTable);
    c.opened(None);
    assert_eq!(c.position().phase, ConsumerPhase::PollWait);
    c.slept();
    c.opened(Some(-1));
    assert_eq!(c.position().phase, ConsumerPhase::PollWait);
    let mut c = ConsumerLoop::new(Some(fresh(4)), -1, false, 3);
    assert!(!c.opened_first(&Some("denied".to_string())));
    assert_eq!(c.next(), ConsumerAction::Fail);
}

#[test]
fn consumer_works_off_a_poll() {
    let mut c = ConsumerLoop::new(None, 1, true, 3);
    c.opened_first(&None);
    c.slept();
    c.opened(Some(5));
    let rows = [Some(10), None, Some(150), Some(7)];
    for (i, r) in rows.iter().enumerate() {
        assert_eq!(c.next(), ConsumerAction::InspectCommit { version: 2 + i as i64 });
        c.inspected(*r);
    }
    assert_eq!(c.next(), ConsumerAction::ReadTunables);
    c.planned(&TunableConfig::new(100, 30, 100));
    let mut done = vec![];
    while let ConsumerAction::Work(work) = c.next() {
        assert!(c.can_finish_unit());
        let u = c.worked(4);
        done.push((u.range.clone(), work));
    }
    assert_eq!(
        done,
        vec![
            ("v2".to_string(), UnitWork::Sink { versions: vec![2] }),
            ("v4[chunk 1/2]".to_string(), UnitWork::Sink { versions: vec![4] }),
            ("v4[chunk 2/2]".to_string(), UnitWork::Nothing),
            ("v5".to_string(), UnitWork::Sink { versions: vec![5] }),
        ]
    );
    assert_eq!(c.position().phase, ConsumerPhase::PollWait);
    assert_eq!(c.position().progress.last_version, 5);
    assert_eq!(c.position().progress.checkpoint.rows_committed, 167);
    c.slept();
    c.opened(Some(6));
    c.inspected(None);
    c.planned(&TunableConfig::new(100, 30, 100));
    assert_eq!((c.position().phase, c.position().progress.last_version), (ConsumerPhase::PollWait, 6));
    assert!(!c.can_finish_unit());
}

#[test]
fn consumer_resumes_in_the_middle_of_a_version() {
    let ckpt = DiskCheckpoint { last_full_version: 3, partial_file_offset: 1, rows_committed: 75 };
    let mut c = ConsumerLoop::new(Some(ckpt), -1, false, 3);
    assert!(!c.opened_first(&None));
    c.slept();
    c.opened(Some(4));
    assert_eq!(c.next(), ConsumerAction::InspectCommit { version: 4 });
    c.inspected(Some(150));
    c.planned(&TunableConfig::new(100, 30, 100));
    assert_eq!(c.worked(1).range, "v4[chunk 2/2]");
    assert_eq!(fmt_ckpt(&c.position().progress.checkpoint), "v4:complete");
    assert_eq!(c.position().progress.checkpoint.rows_committed, 150);
}

#[test]
fn every_unit_moves_the_checkpoint_forward() {
    let p = infos(&[(3, 10), (4, 10), (5, 260), (8, 1), (9, 150), (10, 0)]);
    let units = drain(PollPlan::new(p, thresholds(50, 30, 100), &fresh(2)));
    let mut progress = ConsumerProgress::new(None, 2);
    let mut last = (2i64, 0u64);
    for u in &units {
        progress.record(u, 0);
        let c = progress.checkpoint;
        let now = (c.last_full_version, c.partial_file_offset);
        assert!(last < now);
        last = now;
    }
    assert_eq!(last, (10, 0));
}
