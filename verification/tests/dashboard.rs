use riffle::log_layer::{on_event, LogLevel, MessageVisitor};
use riffle::maintenance::{optimize_result, plan_optimize, retention_seconds, vacuum_result};
use riffle::state::{fmt_ckpt, DiskCheckpoint, LogBuffer, TunableConfig};
use riffle::tables_inspect::{
    estimate_rows, inspect_result, preview_filter, preview_sql, recent_commits, show_time,
    ColumnInfo, HistoryEntry, PreviewBuilder,
};
use riffle::web::{
    answer_failed_inspection, answer_start, answer_stop, check_query, default_auth, update_config,
    CommandOutcome, ConfigUpdate, InspectQuery, LogTail,
};

#[test]
fn tunables_are_kept_within_limits() {
    let mut c = TunableConfig::new(50_000, 30_000, 200_000);
    let none = ConfigUpdate {
        chunk_target_rows: None,
        merge_threshold_rows: None,
        split_threshold_rows: None,
    };
    let s = update_config(&mut c, &none);
    assert_eq!((s.chunk_target_rows, s.merge_threshold_rows, s.split_threshold_rows), (50_000, 30_000, 200_000));
    let s = update_config(
        &mut c,
        &ConfigUpdate {
            chunk_target_rows: Some(20_000),
            merge_threshold_rows: Some(1),
            split_threshold_rows: Some(u64::MAX),
        },
    );
    assert_eq!((s.chunk_target_rows, s.merge_threshold_rows, s.split_threshold_rows), (20_000, 1_000, 10_000_000));
    assert_eq!(c.snapshot(), s);
}

#[test]
fn answers_to_commands() {
    assert_eq!(answer_start(CommandOutcome::Done), Ok(()));
    let e = answer_start(CommandOutcome::NotEnabled("sink".to_string())).unwrap_err();
    assert_eq!((e.status, e.text.as_str()), (503, "sink controller not enabled"));
    let e = answer_start(CommandOutcome::SendFailed("x".to_string())).unwrap_err();
    assert_eq!((e.status, e.text.as_str()), (500, "send failed: x"));
    let e = answer_start(CommandOutcome::ReceiveFailed("y".to_string())).unwrap_err();
    assert_eq!((e.status, e.text.as_str()), (500, "recv failed: y"));
    let e = answer_start(CommandOutcome::Refused("busy".to_string())).unwrap_err();
    assert_eq!((e.status, e.text.as_str()), (409, "busy"));
    let e = answer_stop(CommandOutcome::Refused("idle".to_string())).unwrap_err();
    assert_eq!((e.status, e.text.as_str()), (400, "idle"));
    assert_eq!(answer_stop(CommandOutcome::Done), Ok(()));
}

#[test]
fn queries_name_a_table() {
    let q = InspectQuery { uri: String::new(), azure_auth: default_auth() };
    let e = check_query(&q).unwrap_err();
    assert_eq!((e.status, e.text.as_str()), (400, "uri is required"));
    let q = InspectQuery { uri: "./t".to_string(), azure_auth: default_auth() };
    assert_eq!(check_query(&q), Ok(()));
    assert_eq!(q.azure_auth, "auto");
    let e = answer_failed_inspection("no table".to_string());
    assert_eq!((e.status, e.text.as_str()), (400, "no table"));
}

#[test]
fn checkpoints_as_text() {
    let mut c = DiskCheckpoint::default();
    assert_eq!(fmt_ckpt(&c), "v0:complete");
    c.last_full_version = -1;
    c.partial_file_offset = 12;
    assert_eq!(fmt_ckpt(&c), "v-1+chunk12");
    c.last_full_version = i64::MIN;
    c.partial_file_offset = 0;
    assert_eq!(fmt_ckpt(&c), "v-9223372036854775808:complete");
}

fn filled(capacity: usize, n: usize) -> LogBuffer {
    let mut b = LogBuffer::new(capacity);
    for i in 0..n {
        b.push_at("ts".to_string(), "INFO", "riffle", format!("m{}", i + 1));
    }
    b
}

#[test]
fn log_keeps_the_newest_lines() {
    let b = filled(3, 5);
    let seqs: Vec<u64> = b.snapshot().iter().map(|l| l.seq).collect();
    assert_eq!(seqs, vec![3, 4, 5]);
    assert_eq!(b.snapshot()[2].message, "m5");
    assert_eq!(b.since(4).len(), 1);
    assert_eq!(b.since(0).len(), 3);
    assert_eq!(b.since(5).len(), 0);
    assert_eq!(filled(1, 4).snapshot()[0].message, "m4");
    let b = filled(0, 4);
    assert_eq!((b.snapshot().len(), b.since(0).len(), b.newest()), (0, 0, 4));
}

#[test]
fn log_lines_bear_the_time() {
    let mut b = LogBuffer::new(2);
    assert!(b.can_push());
    b.push("WARN", "t", "m".to_string());
    let line = b.snapshot()[0].clone();
    assert_eq!((line.level.as_str(), line.target.as_str(), line.message.as_str()), ("WARN", "t", "m"));
    assert_eq!(line.ts.len(), 12);
    assert_eq!(&line.ts[8..9], ".");
}

#[test]
fn log_is_followed_without_gaps() {
    let mut b = filled(10, 2);
    let (mut tail, first) = LogTail::start(&b);
    assert_eq!(first.len(), 2);
    assert!(tail.next_lines(&b).is_empty());
    for i in 0..3 {
        b.push_at("ts".to_string(), "INFO", "x", format!("n{}", i));
    }
    let seqs: Vec<u64> = tail.next_lines(&b).iter().map(|l| l.seq).collect();
    assert_eq!(seqs, vec![3, 4, 5]);
    assert_eq!(tail.last_seq, 5);
    let (tail, first) = LogTail::start(&LogBuffer::new(4));
    assert_eq!((tail.last_seq, first.len()), (0, 0));
}

#[test]
fn events_are_mirrored_by_level() {
    let mut b = LogBuffer::new(4);
    let mut v = MessageVisitor::new();
    v.record("message", "hello");
    v.record("rows", "7");
    assert_eq!(v.out, "hello rows=7");
    assert!(on_event(&mut b, LogLevel::Info, "riffle", v));
    let mut v = MessageVisitor::new();
    v.record("rows", "7");
    v.record("message", "hello");
    assert_eq!(v.out, "rows=7hello");
    assert!(!on_event(&mut b, LogLevel::Debug, "riffle", v));
    assert!(!on_event(&mut b, LogLevel::Error, "riffle", MessageVisitor::new()));
    assert_eq!(b.snapshot().len(), 1);
    assert_eq!(b.snapshot()[0].level, "INFO");
    assert_eq!(b.snapshot()[0].ts.len(), 12);
    assert_eq!(LogLevel::Trace.name(), "TRACE");
}

#[test]
fn rows_are_estimated_from_files() {
    assert_eq!(estimate_rows(&vec![Some(3), None, Some(-5), Some(4)]), Some(7));
    assert_eq!(estimate_rows(&vec![Some(i64::MAX), Some(i64::MAX), Some(i64::MAX)]), None);
}

fn entry(timestamp: Option<i64>, operation: Option<&str>) -> HistoryEntry {
    HistoryEntry { timestamp, operation: operation.map(|s| s.to_string()) }
}

#[test]
fn recent_commits_are_numbered_backwards() {
    let mut history = vec![
        entry(Some(1_700_000_000_123), Some("MERGE")),
        entry(Some(i64::MAX), None),
        entry(None, Some("WRITE")),
    ];
    let r = recent_commits(8, &history);
    assert_eq!((r[0].version, r[0].timestamp.as_str(), r[0].operation.as_str()), (8, "2023-11-14 22:13:20 UTC", "MERGE"));
    assert_eq!((r[1].version, r[1].timestamp.as_str(), r[1].operation.as_str()), (7, "9223372036854775807", ""));
    assert_eq!((r[2].version, r[2].timestamp.as_str()), (6, ""));
    for _ in 0..20 {
        history.push(entry(None, None));
    }
    assert_eq!(recent_commits(8, &history).len(), 10);
    assert_eq!(show_time(-5, None), "-5");
    assert_eq!(show_time(-5, Some("t".to_string())), "t");
}

#[test]
fn inspected_table() {
    let schema = vec![ColumnInfo {
        name: "id".to_string(),
        data_type: "long".to_string(),
        nullable: false,
    }];
    let r = inspect_result("gs://b/t", Some(4), 2, 9, schema, vec![], &vec![entry(None, None)]);
    assert_eq!((r.backend.as_str(), r.version, r.num_files, r.estimated_rows), ("Gcs", 4, 2, 9));
    assert_eq!((r.commits.len(), r.schema.len(), r.uri.as_str()), (1, 1, "gs://b/t"));
}

#[test]
fn preview_conditions() {
    let f = |s: &str| preview_filter(Some(s));
    assert_eq!(preview_filter(None), None);
    assert_eq!(f("  "), None);
    assert_eq!(f("where"), None);
    assert_eq!(f(" a = 1 "), Some("a = 1".to_string()));
    assert_eq!(f("WHERE  a = 1 "), Some("a = 1".to_string()));
    assert_eq!(f("wHeRe a"), Some("a".to_string()));
    assert_eq!(f("ab"), Some("ab".to_string()));
    assert_eq!(f("wherever = 1"), Some("wherever = 1".to_string()));
    assert_eq!(f("WHERE wherever = 1"), Some("wherever = 1".to_string()));
    assert_eq!(f("where_1 = 1"), Some("where_1 = 1".to_string()));
    assert_eq!(f("where2 > 0"), Some("where2 > 0".to_string()));
    assert_eq!(f("whereä = 1"), Some("whereä = 1".to_string()));
    assert_eq!(f("where(a = 1)"), Some("(a = 1)".to_string()));
    assert_eq!(f("where\u{a0}a"), Some("a".to_string()));
    assert_eq!(f("where\ta"), Some("a".to_string()));
    assert_eq!(f("äöüäö"), Some("äöüäö".to_string()));
    assert_eq!(preview_sql("a = 1", 20), "SELECT * FROM t WHERE a = 1 LIMIT 20");
}

fn cells(n: usize) -> Vec<Vec<String>> {
    (0..n).map(|i| vec![format!("r{}", i)]).collect()
}

#[test]
fn previews_stop_at_the_limit() {
    let mut p = PreviewBuilder::new(3);
    assert_eq!(p.rows_wanted(2), 2);
    assert!(p.add_batch(vec!["c".to_string()], cells(2)));
    assert_eq!(p.rows_wanted(5), 1);
    assert!(!p.add_batch(vec!["other".to_string()], cells(5)));
    let r = p.finish();
    assert_eq!(r.columns, vec!["c".to_string()]);
    assert_eq!((r.returned, r.limit, r.truncated), (3, 3, true));
    assert_eq!(r.rows[2], vec!["r0".to_string()]);
    let mut p = PreviewBuilder::new(0);
    assert!(!p.add_batch(vec!["c".to_string()], cells(2)));
    let r = p.finish();
    assert_eq!((r.columns.len(), r.returned, r.truncated), (1, 0, true));
    let r = PreviewBuilder::new(5).finish();
    assert!(!r.truncated);
}

#[test]
fn optimisations() {
    let cols = vec!["a".to_string()];
    let p = plan_optimize(&cols, Some(0), Some(0));
    assert_eq!((p.target_size, p.max_concurrent_tasks, p.is_compaction()), (None, None, false));
    let p = plan_optimize(&vec![], Some(5), Some(6));
    assert_eq!((p.target_size, p.max_concurrent_tasks, p.is_compaction()), (Some(5), Some(6), true));
    let r = optimize_result("u", cols, Some(7), Some(1), Some(2), 3, 4, 5, 6);
    assert_eq!((r.mode.as_str(), r.starting_version, r.new_version), ("zorder", 1, 2));
    assert_eq!((r.num_files_added, r.num_files_removed, r.partitions_optimized, r.duration_ms), (3, 4, 5, 6));
    let r = optimize_result("u", vec![], None, None, None, 0, 0, 0, 0);
    assert_eq!((r.mode.as_str(), r.starting_version), ("compact", -1));
}

#[test]
fn vacuums() {
    assert_eq!(retention_seconds(168), 604_800);
    assert_eq!(retention_seconds(u64::MAX), i64::MAX / 1000);
    let paths: Vec<String> = (0..120).map(|i| format!("f{}", i)).collect();
    let r = vacuum_result("u", true, 168, Some(1), Some(1), &paths, 9);
    assert_eq!((r.num_files_deleted, r.sample_deleted_paths.len()), (120, 100));
    assert_eq!(r.sample_deleted_paths[99], "f99");
    let r = vacuum_result("u", false, 0, None, Some(2), &vec!["x".to_string()], 9);
    assert_eq!((r.sample_deleted_paths.len(), r.starting_version, r.new_version), (1, -1, 2));
}
