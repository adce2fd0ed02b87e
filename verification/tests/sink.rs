use riffle::sink::{
    apply_range, can_update_sink_state, check_cdf_read, columns_to_add, dedup_sql, drop_cdf_cols,
    gate_predicate, is_cdf_metadata_col, join_predicate, keep_data_columns, keep_target_columns,
    live_rows_sql, merged_outcome, parse_mode, plan_apply, plan_merge, read_concurrency, source_column,
    total_rows, transform_query, update_sink_state, update_sink_state_at, written_outcome, Column,
    MergeClause, MergeSpec, SinkError, SinkMode, SinkOutcome, TransformLib, PREIMAGE_FILTER_SQL,
};
use riffle::producer::WriteMode;
use riffle::state::SinkState;

fn strings(v: &[&str]) -> Vec<String> {
    v.iter().map(|s| s.to_string()).collect()
}

fn some(s: &str) -> Option<String> {
    Some(s.to_string())
}

fn spec(keys: &[&str]) -> MergeSpec {
    MergeSpec {
        keys: strings(keys),
        update_columns: vec![],
        when_matched_update_predicate: None,
        when_matched_delete_predicate: None,
        when_not_matched_insert_predicate: None,
        dedupe_order_by: None,
        transform_sql: None,
        transform_rust: None,
    }
}

fn parse(mode: &str, keys: &str) -> Result<SinkMode, SinkError> {
    parse_mode(mode, keys, "", None, None, None, None, None, None)
}

#[test]
fn mode_names() {
    assert_eq!(parse("Append", "").unwrap().name(), "append");
    assert_eq!(parse("OVERWRITE", "").unwrap().name(), "overwrite");
    assert_eq!(parse("merge", "id").unwrap().name(), "merge");
}

#[test]
fn merge_needs_keys() {
    let e = parse("merge", " ,, ").unwrap_err();
    assert_eq!(e.message(), "--sink-mode merge requires --merge-keys");
}

#[test]
fn unknown_mode() {
    let e = parse("UPSERT", "").unwrap_err();
    assert_eq!(e, SinkError::UnknownMode { mode: "upsert".to_string() });
    assert_eq!(e.message(), "Unknown --sink-mode 'upsert'. Use append | overwrite | merge.");
}

#[test]
fn merge_parameters_are_cleaned() {
    let m = parse_mode(
        "merge",
        " id , Region,",
        "a,, b ",
        some("u"),
        some("d"),
        some("i"),
        some(""),
        some("  "),
        Some(TransformLib { path: "lib.so".to_string() }),
    );
    match m {
        Ok(SinkMode::Merge(s)) => {
            assert_eq!(s.keys, strings(&["id", "Region"]));
            assert_eq!(s.update_columns, strings(&["a", "b"]));
            assert_eq!(s.when_matched_update_predicate, some("u"));
            assert_eq!(s.when_matched_delete_predicate, some("d"));
            assert_eq!(s.when_not_matched_insert_predicate, some("i"));
            assert_eq!(s.dedupe_order_by, None);
            assert_eq!(s.transform_sql, None);
            assert!(s.transform_rust.is_some());
        }
        _ => panic!("not a merge"),
    }
}

#[test]
fn transforms_exclude_each_other() {
    let e = parse_mode(
        "merge",
        "id",
        "",
        None,
        None,
        None,
        some("ts"),
        some("SELECT 1"),
        Some(TransformLib { path: "lib.so".to_string() }),
    )
    .unwrap_err();
    assert_eq!(e, SinkError::TransformsExclusive);
    assert_eq!(
        e.message(),
        "--merge-transform-sql and --merge-transform-rust-file are mutually exclusive"
    );
}

#[test]
fn metadata_columns() {
    assert!(is_cdf_metadata_col("_change_type"));
    assert!(is_cdf_metadata_col("_commit_version"));
    assert!(is_cdf_metadata_col("_commit_timestamp"));
    assert!(!is_cdf_metadata_col("_Change_type"));
    assert_eq!(
        keep_data_columns(&strings(&["id", "_change_type", "x", "_commit_version"])),
        strings(&["id", "x"])
    );
}

#[test]
fn reading_a_change_feed() {
    assert_eq!(check_cdf_read(true, 3, 3), Ok(()));
    let e = check_cdf_read(true, 4, 3).unwrap_err();
    assert_eq!(e.message(), "read_cdf_rows: end_version v3 < start_version v4");
    let e = check_cdf_read(false, 4, 3).unwrap_err();
    assert_eq!(e, SinkError::ChangeFeedDisabled);
    assert!(e.message().starts_with("source table does not have delta.enableChangeDataFeed=true. Riffle reads"));
    assert!(e.message().ends_with("FUTURE commits — existing versions will not be replayable as a change feed."));
    assert_eq!(
        PREIMAGE_FILTER_SQL,
        "SELECT * FROM __cdf_raw WHERE \"_change_type\" IS NULL OR \"_change_type\" <> 'update_preimage'"
    );
    assert_eq!(apply_range(&vec![]), None);
    assert_eq!(apply_range(&vec![4, 5, 6]), Some((4, 6)));
    assert_eq!(plan_apply(&vec![], false), Ok(None));
    assert_eq!(plan_apply(&vec![1], false), Err(SinkError::ChangeFeedDisabled));
    assert_eq!(plan_apply(&vec![4, 5], true), Ok(Some((4, 5))));
    assert!(plan_apply(&vec![5, 4], true).is_err());
    assert_eq!(read_concurrency(0), 8);
    assert_eq!(read_concurrency(3), 3);
    assert_eq!(total_rows(&vec![1, 2, 3]), Some(6));
    assert_eq!(total_rows(&vec![u64::MAX, 1]), None);
}

#[test]
fn statements_of_append_and_overwrite() {
    let cdf = strings(&["id", "x", "_change_type", "_commit_version"]);
    let plain = strings(&["id", "x"]);
    assert_eq!(
        live_rows_sql(&cdf),
        "SELECT * FROM __cdf WHERE \"_change_type\" IS NULL OR \"_change_type\" <> 'delete'"
    );
    assert_eq!(live_rows_sql(&plain), "SELECT * FROM __cdf");
    assert_eq!(drop_cdf_cols(&cdf), "SELECT \"id\", \"x\" FROM __riffle_cdf_strip");
    assert_eq!(drop_cdf_cols(&plain), "SELECT \"id\", \"x\" FROM __riffle_cdf_strip");
}

#[test]
fn one_source_row_per_key() {
    let cdf = strings(&["id", "x", "_commit_version"]);
    assert_eq!(
        dedup_sql(&spec(&["id", "x"]), &cdf),
        "SELECT \"id\", \"x\", \"_commit_version\" FROM (SELECT \"id\", \"x\", \"_commit_version\", ROW_NUMBER() OVER (PARTITION BY \"id\", \"x\" ORDER BY \"_commit_version\" DESC) AS __rn FROM __riffle_merge_src) WHERE __rn = 1"
    );
    let mut by = spec(&["id"]);
    by.dedupe_order_by = some("ts");
    assert_eq!(
        dedup_sql(&by, &strings(&["id"])),
        "SELECT \"id\" FROM (SELECT \"id\", ROW_NUMBER() OVER (PARTITION BY \"id\" ORDER BY \"ts\" DESC) AS __rn FROM __riffle_merge_src) WHERE __rn = 1"
    );
    assert_eq!(
        dedup_sql(&spec(&["id"]), &strings(&["id"])),
        "SELECT \"id\" FROM (SELECT \"id\", ROW_NUMBER() OVER (PARTITION BY \"id\") AS __rn FROM __riffle_merge_src) WHERE __rn = 1"
    );
}

#[test]
fn join_on_all_keys() {
    assert_eq!(
        join_predicate(&strings(&["BalanceId", "b"])),
        "target.\"BalanceId\" = source.\"BalanceId\" AND target.\"b\" = source.\"b\""
    );
    assert_eq!(source_column("a"), "source.\"a\"");
}

#[test]
fn merge_of_a_change_feed() {
    let mut s = spec(&["id"]);
    s.when_matched_delete_predicate = some("source.gone");
    s.when_matched_update_predicate = some("source.v > target.v");
    let cols = strings(&["id", "v", "_change_type", "_commit_version"]);
    let plan = plan_merge(&s, &cols).unwrap();
    let live = "source.\"_change_type\" IS NULL OR source.\"_change_type\" <> 'delete'";
    assert_eq!(
        plan.clauses,
        vec![
            MergeClause::Delete { predicate: "source.\"_change_type\" = 'delete'".to_string() },
            MergeClause::Delete { predicate: "source.gone".to_string() },
            MergeClause::Update {
                predicate: Some(format!("(source.v > target.v) AND ({})", live)),
                columns: strings(&["v"]),
            },
            MergeClause::Insert { predicate: Some(live.to_string()), columns: strings(&["id", "v"]) },
        ]
    );
    assert_eq!(plan.predicate, "target.\"id\" = source.\"id\"");
}

#[test]
fn merge_of_plain_rows_upserts() {
    let mut s = spec(&["id"]);
    s.update_columns = strings(&["w"]);
    s.when_not_matched_insert_predicate = some("p");
    let plan = plan_merge(&s, &strings(&["id", "v", "w"])).unwrap();
    assert_eq!(
        plan.clauses,
        vec![
            MergeClause::Update { predicate: None, columns: strings(&["w"]) },
            MergeClause::Insert { predicate: some("p"), columns: strings(&["id", "v", "w"]) },
        ]
    );
    assert_eq!(gate_predicate(&None, false), None);
}

#[test]
fn merge_updates_no_change_feed_column() {
    let mut s = spec(&["id"]);
    s.update_columns = strings(&["_commit_version", "v", "_change_type"]);
    let plan = plan_merge(&s, &strings(&["id", "v", "_change_type", "_commit_version"])).unwrap();
    assert!(plan.clauses.iter().any(|c| matches!(c, MergeClause::Update { columns, .. } if *columns == strings(&["v"]))));
    assert!(plan.clauses.iter().any(|c| matches!(c, MergeClause::Insert { columns, .. } if *columns == strings(&["id", "v"]))));
}

#[test]
fn an_overwrite_replaces_and_an_append_does_not() {
    assert_eq!(SinkMode::Append.write_mode(), Some(WriteMode::Append));
    assert_eq!(SinkMode::Overwrite.write_mode(), Some(WriteMode::Overwrite));
    assert_eq!(SinkMode::Merge(spec(&["id"])).write_mode(), None);
}

#[test]
fn merge_without_its_key_column() {
    assert_eq!(
        plan_merge(&spec(&[]), &strings(&["id"])).unwrap_err().message(),
        "merge mode requires at least one key column"
    );
    let e = plan_merge(&spec(&["id", "k", "m"]), &strings(&["id", "v", "_change_type"])).unwrap_err();
    assert_eq!(
        e.message(),
        "merge key 'k' missing from source after transform; columns: [id, v]"
    );
    assert!(plan_merge(&spec(&["_change_type"]), &strings(&["_change_type"])).is_err());
}

fn column(name: &str, nullable: bool, place: usize) -> Column {
    Column { name: name.to_string(), nullable, place }
}

#[test]
fn columns_of_the_target() {
    let cols = vec![column("id", false, 0), column("_change_type", true, 1), column("x", false, 2)];
    assert_eq!(keep_target_columns(&cols), vec![column("id", false, 0), column("x", false, 2)]);
    assert_eq!(columns_to_add(&cols, &strings(&["id"])), vec![column("x", true, 2)]);
    assert_eq!(columns_to_add(&cols, &strings(&["x", "id"])), vec![]);
}

#[test]
fn blank_transform_is_none() {
    let mut s = spec(&["id"]);
    assert_eq!(transform_query(&s), None);
    s.transform_sql = some(" \t");
    assert_eq!(transform_query(&s), None);
    s.transform_sql = some(" SELECT 1 ");
    assert_eq!(transform_query(&s), some(" SELECT 1 "));
}

#[test]
fn outcomes() {
    let w = written_outcome(5, 4, Some(7)).timed(12);
    assert_eq!(
        w,
        SinkOutcome { source_rows: 5, appended: 4, target_version: 7, duration_ms: 12, ..SinkOutcome::default() }
    );
    let m = merged_outcome(5, 1, 2, 3, None);
    assert_eq!((m.inserts, m.updates, m.deletes, m.target_version), (1, 2, 3, -1));
}

#[test]
fn sink_shows_outcomes() {
    let mut s = SinkState::default();
    for i in 0..51u64 {
        let o = merged_outcome(10, 1, 2, 3, Some(i)).timed(i);
        assert!(can_update_sink_state(&s, &o));
        update_sink_state_at(&mut s, &SinkMode::Append, &o, format!("t{}", i));
    }
    assert_eq!((s.batches_processed, s.total_inserts, s.total_updates, s.total_deletes), (51, 51, 102, 153));
    assert_eq!(s.events.len(), 50);
    assert_eq!(s.events[0].timestamp, "t1");
    assert_eq!(s.events[0].mode, "append");
    assert_eq!(s.avg_duration_ms, 25);
    assert_eq!((s.target_version, s.last_duration_ms, s.last_source_rows), (50, 50, 10));
    assert_eq!(s.status, "Idle");
    update_sink_state(&mut s, &SinkMode::Overwrite, &written_outcome(1, 1, None));
    assert_eq!(s.events[49].timestamp.len(), 8);
    s.total_inserts = u64::MAX;
    assert!(!can_update_sink_state(&s, &merged_outcome(0, 1, 0, 0, None)));
}
