use riffle::cli_create::{
    build_wide_schema, check_request, find_column, generate_wide_batch, generate_wide_batch_at,
    show_cancelled, show_commit, show_committed, show_done, show_optimized, show_optimizing,
    show_writing, CreateError, CreateJob, CreateStep, CreateTableArgs, WideColumn,
};
use riffle::cli_enable_cdf::{check_enabled, enabled_result, report, EnableCdfArgs, EnableCdfResult};
use riffle::producer::{
    next_batch_rows, update_producer_state, update_producer_state_at, ProducerProgress, WriteMode,
};
use riffle::random::{fresh_rng, rng_at};
use riffle::sample_data::{
    build_schema, generate_batch, generate_batch_at, reuse_ids, reuse_recent_ids, ColumnType,
};
use riffle::state::{CreateTableLaunchConfig, CreateTableState, ProducerState};

fn request(rows: usize, commits: usize, columns: usize, zorder: &str) -> CreateTableLaunchConfig {
    CreateTableLaunchConfig {
        uri: "./t".to_string(),
        rows,
        commits,
        columns,
        zorder_by: zorder.to_string(),
        overwrite: true,
        azure_auth: "auto".to_string(),
    }
}

fn commit_sizes(rows: usize, commits: usize) -> Vec<usize> {
    let mut job = CreateJob::new(request(rows, commits, 2, "")).unwrap();
    let mut sizes = vec![];
    while let Ok(CreateStep::Commit { index, rows, .. }) = job.next(false) {
        assert_eq!(index, sizes.len());
        sizes.push(rows);
        let written = job.committed();
        assert_eq!(written as usize, sizes.iter().sum::<usize>());
    }
    assert_eq!(job.next(false), Ok(CreateStep::Finished));
    sizes
}

#[test]
fn rows_are_spread_over_the_commits() {
    assert_eq!(commit_sizes(10, 1), vec![10]);
    assert_eq!(commit_sizes(10, 3), vec![4, 4, 2]);
    assert_eq!(commit_sizes(9, 3), vec![3, 3, 3]);
    assert_eq!(commit_sizes(5, 4), vec![2, 1, 1, 1]);
    assert_eq!(commit_sizes(2, 4), vec![1, 1, 0, 0]);
    assert_eq!(commit_sizes(200_000, 7).iter().sum::<usize>(), 200_000);
}

#[test]
fn requests_that_make_no_sense() {
    let e = check_request(&request(1, 0, 2, "")).unwrap_err();
    assert_eq!((&e, e.message().as_str()), (&CreateError::NoCommits, "commits must be >= 1"));
    let e = check_request(&request(0, 1, 2, "")).unwrap_err();
    assert_eq!((&e, e.message().as_str()), (&CreateError::NoRows, "rows must be >= 1"));
    let e = check_request(&request(1, 1, 1, "")).unwrap_err();
    assert_eq!((&e, e.message().as_str()), (&CreateError::TooFewColumns, "columns must be >= 2"));
    assert!(CreateJob::new(request(1, 1, 1, "")).is_err());
}

#[test]
fn columns_of_a_wide_table() {
    let s = build_wide_schema(8);
    let names: Vec<&str> = s.iter().map(|f| f.name.as_str()).collect();
    assert_eq!(
        names,
        vec!["event_id", "event_timestamp", "str_00", "int64_01", "dbl_02", "bool_03", "int32_04", "str_05"]
    );
    assert_eq!(s[1].column_type, ColumnType::TimestampMicros);
    assert_eq!(s[4].column_type, ColumnType::Float64);
    assert!(find_column(&s, "dbl_02"));
    assert!(!find_column(&s, "dbl_07"));
    let wide = build_wide_schema(130);
    assert_eq!(wide[102].name, "str_100");
    let mut all: Vec<String> = wide.iter().map(|f| f.name.clone()).collect();
    all.sort();
    all.dedup();
    assert_eq!(all.len(), 130);
}

#[test]
fn job_writes_then_optimises() {
    let mut job = CreateJob::new(request(3, 2, 4, "event_timestamp")).unwrap();
    assert_eq!(job.columns().len(), 4);
    assert_eq!(
        job.next(false),
        Ok(CreateStep::Commit { index: 0, rows: 2, mode: WriteMode::Overwrite })
    );
    assert_eq!(job.next(true), Ok(CreateStep::Cancelled));
    job.committed();
    assert_eq!(
        job.next(false),
        Ok(CreateStep::Commit { index: 1, rows: 1, mode: WriteMode::Append })
    );
    assert_eq!(job.committed(), 3);
    assert_eq!(job.next(true), Ok(CreateStep::Optimize { column: "event_timestamp".to_string() }));
    job.optimize_done();
    assert_eq!(job.next(false), Ok(CreateStep::Finished));
    let mut job = CreateJob::new(request(1, 1, 2, "nope")).unwrap();
    job.committed();
    let e = job.next(false).unwrap_err();
    assert_eq!(e.message(), "zorder_by column 'nope' not found in schema");
}

#[test]
fn job_of_the_create_command() {
    let args = CreateTableArgs {
        uri: "./t".to_string(),
        rows: 3,
        commits: 2,
        columns: 4,
        zorder_by: String::new(),
        overwrite: true,
        azure_auth: "auto".to_string(),
    };
    assert_eq!(args.launch(), request(3, 2, 4, ""));
}

#[test]
fn create_statuses() {
    let mut s = CreateTableState::default();
    s.last_error = "old".to_string();
    show_writing(&mut s, &request(3, 2, 4, "x"));
    assert_eq!((s.status.as_str(), s.last_error.as_str(), s.total_rows), ("Writing 2 commit(s)...", "", 3));
    show_commit(&mut s, 0, 2, 17);
    assert_eq!(s.status, "Writing commit 1/2 (17 rows)...");
    show_committed(&mut s, 0, 17, 5);
    assert_eq!((s.commits_done, s.rows_written, s.last_commit_ms), (1, 17, 5));
    show_optimizing(&mut s, "c");
    assert_eq!((s.status.as_str(), s.optimize_status.as_str()), ("OPTIMIZE ZORDER BY (c)...", "running"));
    show_optimized(&mut s, 9, 1, 2);
    assert_eq!(s.optimize_status, "done in 9ms (files_added=1, files_removed=2)");
    show_done(&mut s, 34, 12);
    assert_eq!((s.status.as_str(), s.running), ("Done — 34 rows in 12ms", false));
    show_cancelled(&mut s);
    assert_eq!(s.status, "Cancelled");
}

fn hex(s: &str) -> bool {
    s.chars().all(|c| c.is_ascii_digit() || ('a'..='f').contains(&c))
}

#[test]
fn wide_rows() {
    let mut rng = fresh_rng();
    let now = 1_700_000_000_000_000i64;
    let cols = generate_wide_batch_at(7, 40, now, &mut rng);
    assert_eq!(cols.len(), 7);
    match &cols[0] {
        WideColumn::Text(v) => {
            assert_eq!(v.len(), 40);
            assert!(v.iter().all(|s| s.len() == 36 && &s[14..15] == "4" && hex(&s.replace('-', ""))));
            assert_ne!(v[0], v[1]);
        }
        _ => panic!("ids"),
    }
    match &cols[1] {
        WideColumn::Micros(v) => assert!(v.iter().all(|t| {
            *t <= now && *t > now - 2_592_000_000_000 && (now - *t) % 1_000_000 == 0
        })),
        _ => panic!("times"),
    }
    match &cols[2] {
        WideColumn::Text(v) => assert!(v.iter().all(|s| s.len() == 32 && hex(s))),
        _ => panic!("text"),
    }
    assert!(matches!(&cols[3], WideColumn::Int64(v) if v.len() == 40));
    assert!(matches!(&cols[4], WideColumn::Float64 { rows } if *rows == 40));
    assert!(matches!(&cols[5], WideColumn::Boolean(v) if v.len() == 40));
    assert!(matches!(&cols[6], WideColumn::Int32(v) if v.len() == 40));
    assert_eq!(generate_wide_batch(2, 3, &mut rng).len(), 2);
}

#[test]
fn demo_rows() {
    let schema = build_schema();
    assert_eq!(schema.len(), 12);
    assert_eq!(schema[6].column_type, ColumnType::Decimal { precision: 18, scale: 4 });
    let mut rng = fresh_rng();
    let now = 1_700_000_000_000_000i64;
    let b = generate_batch_at(400, 9, now, &mut rng);
    assert_eq!(b.event_ids.len(), 400);
    assert!(b.account_ids.iter().all(|a| a.len() == 13 && a.starts_with("acct-")));
    assert!(b.timestamps.iter().all(|t| *t <= now && *t > now - 3_600_000_000));
    assert!(b.amounts.iter().all(|a| (1000..50_000_000).contains(a)));
    assert!(b.currencies.iter().all(|c| ["USD", "EUR", "GBP", "JPY", "CAD"].contains(c)));
    assert!(b.statuses.iter().all(|c| ["active", "completed", "pending", "processing"].contains(c)));
    assert!(b.eligible.iter().any(|e| *e) && b.eligible.iter().any(|e| !*e));
    assert_eq!(b.batch_ids, vec![9; 400]);
    let b = generate_batch(2, 1, &mut rng);
    assert!(b.timestamps.iter().all(|t| *t > 1_600_000_000_000_000));
}

#[test]
fn producer_counts_and_shows() {
    let mut p = ProducerProgress::new();
    assert_eq!(p.write_mode(), WriteMode::Overwrite);
    assert!(p.can_record(10));
    let u = p.record(10, 0, 4);
    assert_eq!(p.write_mode(), WriteMode::Append);
    let mut s = ProducerState::default();
    update_producer_state_at(&mut s, &u, "t".to_string());
    assert_eq!((s.batches_written, s.total_rows_written, s.avg_write_duration_ms), (1, 10, 4));
    let u = p.record(5, 1, 9);
    assert_eq!((u.batch, u.total_rows, u.avg_duration_ms), (1, 15, 6));
    update_producer_state(&mut s, &u);
    assert_eq!((s.events.len(), s.events[1].batch_id, s.events[1].rows), (2, 1, 5));
    assert_eq!(s.events[1].timestamp.len(), 8);
    let mut rng = fresh_rng();
    for _ in 0..50 {
        let n = next_batch_rows(&mut rng, 3, 5);
        assert!((3..=5).contains(&n));
    }
}

#[test]
fn the_millisecond_is_the_seed() {
    let sizes = |now_micros: i64| {
        let mut rng = rng_at(now_micros);
        (0..20).map(|_| next_batch_rows(&mut rng, 1, 1_000_000)).collect::<Vec<usize>>()
    };
    let first = sizes(1_700_000_000_000_000);
    assert_eq!(first, sizes(1_700_000_000_000_000));
    assert_eq!(first, sizes(1_700_000_000_000_999));
    assert_ne!(first, sizes(1_700_000_000_001_000));
    let mut seeded: rand::rngs::StdRng = rand::SeedableRng::seed_from_u64(1_700_000_000_000);
    assert_eq!(first[0], next_batch_rows(&mut seeded, 1, 1_000_000));
    assert!(first.iter().any(|n| *n != 1 && *n != 1_000_000));
    assert_eq!(rng_at(0), rng_at(999));
    assert_ne!(rng_at(0), rng_at(1000));
}

#[test]
fn enabling_a_change_feed_is_reported() {
    let args = EnableCdfArgs { uri: "./t".to_string(), azure_auth: "auto".to_string() };
    assert_eq!(args.uri, "./t");
    let res = EnableCdfResult { already_enabled: true, starting_version: 3, new_version: 3 };
    assert_eq!(
        report(&res, 5),
        vec!["delta.enableChangeDataFeed is already true on this table (v3). No commit written.".to_string()]
    );
    assert_eq!(check_enabled(Some(3), true), Some(res));
    assert_eq!(check_enabled(Some(3), false), None);
    let res = EnableCdfResult { already_enabled: false, starting_version: 3, new_version: 4 };
    assert_eq!(enabled_result(Some(3), Some(4)), res);
    assert_eq!(
        report(&res, 5),
        vec![
            "Enabled delta.enableChangeDataFeed=true (v3 -> v4, 5ms).".to_string(),
            "NOTE: CDF replay is only available for commits AT OR AFTER v4; older commits are not replayable as a change feed.".to_string(),
        ]
    );
}

#[test]
fn recent_ids_are_used_again() {
    let mut rng = fresh_rng();
    let recent = vec!["a".to_string(), "b".to_string()];
    let mut b = generate_batch(20, 1, &mut rng);
    let before = b.event_ids.clone();
    reuse_recent_ids(&mut b, &recent, 0, 5, &mut rng);
    assert_eq!(b.event_ids, before);
    reuse_recent_ids(&mut b, &vec![], 5, 5, &mut rng);
    assert_eq!(b.event_ids, before);
    reuse_recent_ids(&mut b, &recent, 5, 5, &mut rng);
    assert!(b.event_ids.iter().all(|id| recent.contains(id)));
    assert_eq!(b.account_ids.len(), 20);
    let mut b = generate_batch(3, 1, &mut rng);
    let before = b.event_ids.clone();
    reuse_ids(&mut b, &recent, &vec![Some(1), None, Some(0)]);
    assert_eq!(b.event_ids, vec!["b".to_string(), before[1].clone(), "a".to_string()]);
    let mut b = generate_batch(400, 1, &mut rng);
    reuse_recent_ids(&mut b, &recent, 1, 2, &mut rng);
    assert!(b.event_ids.iter().any(|id| recent.contains(id)));
    assert!(b.event_ids.iter().any(|id| !recent.contains(id)));
}
