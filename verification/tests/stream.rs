use riffle::cli_stream::{
    backends_to_register, begin_create, begin_stream, create_stopped, end_create, end_stream,
    finish_stream, show_caught_up, show_create_stopping, show_heartbeat, show_no_job,
    show_stopping, show_stream_started, show_streaming, stop_create, stop_stream, stream_stopped,
    version_range_label, ActiveJobGate, Checkpoint, Controller, JobFailure, StartError, StreamAction,
    StreamArgs, StreamLoop, StreamPhase, transform_to_compile,
};
use riffle::config::{Backend, ConfigError, StorageEnv};
use riffle::sink::{SinkError, SinkMode, TransformLib};
use riffle::state::{
    default_azure_auth, default_checkpoint, default_create_columns, default_create_commits,
    default_create_rows, default_max_versions, default_poll_interval, default_read_concurrency,
    default_zorder_by, CreateTableLaunchConfig, DashboardState, SinkLaunchConfig,
};

fn launch() -> SinkLaunchConfig {
    SinkLaunchConfig {
        source_uri: "./s".to_string(),
        target_uri: "s3://b/t".to_string(),
        sink_mode: "merge".to_string(),
        merge_keys: "id".to_string(),
        merge_update_columns: String::new(),
        merge_update_predicate: None,
        merge_delete_predicate: None,
        merge_insert_predicate: None,
        merge_dedupe_order_by: None,
        merge_transform_sql: None,
        merge_transform_rust: None,
        start_version: None,
        end_version: None,
        once: false,
        poll_interval_secs: default_poll_interval(),
        max_versions_per_batch: default_max_versions(),
        read_concurrency: default_read_concurrency(),
        azure_auth: default_azure_auth(),
        checkpoint_file: default_checkpoint(),
    }
}

fn env() -> StorageEnv {
    StorageEnv {
        storage_account: None,
        storage_account_key: None,
        storage_key: None,
        tenant_id: false,
        client_id: false,
        client_secret: false,
        identity_endpoint: false,
        msi_endpoint: false,
        s3_allow_unsafe_rename: false,
    }
}

#[test]
fn defaults_of_requests() {
    assert_eq!((default_poll_interval(), default_max_versions(), default_read_concurrency()), (5, 10, 8));
    assert_eq!(default_azure_auth(), "auto");
    assert_eq!(default_checkpoint(), "./riffle-stream-ckpt.json");
    assert_eq!((default_create_rows(), default_create_commits(), default_create_columns()), (200_000, 1, 30));
    assert_eq!(default_zorder_by(), "event_timestamp");
}

#[test]
fn stream_starts_behind_its_checkpoint() {
    let mut cfg = launch();
    assert_eq!(StreamLoop::new(&cfg, None).position().last_sunk, -1);
    let saved = Some(Checkpoint { last_sunk_version: 6 });
    assert_eq!(StreamLoop::new(&cfg, saved).position().last_sunk, 6);
    cfg.start_version = Some(3);
    assert_eq!(StreamLoop::new(&cfg, saved).position().last_sunk, 2);
    assert_eq!(Checkpoint::default().last_sunk_version, 0);
}

#[test]
fn stream_applies_all_versions_in_batches() {
    let mut s = StreamLoop::new(&launch(), None);
    assert_eq!(s.next(false), StreamAction::OpenSource);
    s.opened(24);
    let mut seen = vec![];
    while let StreamAction::Apply { first, last } = s.next(false) {
        seen.push((first, last));
        assert_eq!(s.applied(last), Checkpoint { last_sunk_version: last });
    }
    assert_eq!(seen, vec![(0, 9), (10, 19), (20, 24)]);
    assert_eq!(s.next(false), StreamAction::OpenSource);
    s.opened(24);
    for _ in 0..5 {
        assert_eq!(s.next(false), StreamAction::SleepSecond);
        s.slept();
    }
    assert_eq!(s.next(false), StreamAction::OpenSource);
    assert_eq!(s.next(true), StreamAction::Finish);
}

#[test]
fn stream_stops_at_the_end_version() {
    let mut cfg = launch();
    cfg.end_version = Some(4);
    let mut s = StreamLoop::new(&cfg, None);
    s.opened(100);
    assert_eq!(s.position().phase, StreamPhase::Apply { cap: 4 });
    assert_eq!(s.next(false), StreamAction::Apply { first: 0, last: 4 });
    cfg.end_version = Some(200);
    let mut s = StreamLoop::new(&cfg, None);
    s.opened(3);
    assert_eq!(s.position().phase, StreamPhase::Apply { cap: 3 });
}

#[test]
fn once_applies_one_batch() {
    let mut cfg = launch();
    cfg.once = true;
    let mut s = StreamLoop::new(&cfg, None);
    s.opened(24);
    assert_eq!(s.next(false), StreamAction::Apply { first: 0, last: 9 });
    s.applied(9);
    assert_eq!(s.next(false), StreamAction::Finish);
    let mut s = StreamLoop::new(&cfg, Some(Checkpoint { last_sunk_version: 24 }));
    s.opened(24);
    assert_eq!(s.next(false), StreamAction::Finish);
}

#[test]
fn batch_size_at_the_limits() {
    let mut cfg = launch();
    cfg.max_versions_per_batch = usize::MAX;
    let mut s = StreamLoop::new(&cfg, None);
    s.opened(i64::MAX);
    assert_eq!(s.next(false), StreamAction::Apply { first: 0, last: i64::MAX });
    cfg.max_versions_per_batch = 0;
    let mut s = StreamLoop::new(&cfg, None);
    s.opened(5);
    assert_eq!(s.next(false), StreamAction::Apply { first: 0, last: -1 });
}

#[test]
fn stream_statuses() {
    let mut d = DashboardState::default();
    show_no_job(&mut d);
    assert_eq!((d.app_mode.as_str(), d.sink.status.as_str()), ("stream-cli", "Idle (no job running)"));
    assert!(d.sink.enabled && !d.sink.running);
    let s = &mut d.sink;
    show_caught_up(s, 7);
    assert_eq!(s.status, "Idle (caught up at v7)");
    show_streaming(s, 1, 9);
    assert_eq!(s.status, "Streaming v1..=v9");
    show_heartbeat(s, &SinkMode::Append, 1, 9, 15, 3);
    assert_eq!(s.status, "append v1..=v9 in progress (15s, tick #3)");
    show_stopping(s);
    assert_eq!(s.status, "Stopping...");
    assert_eq!(version_range_label(-1, 0), "v-1..=v0");
}

#[test]
fn one_job_at_a_time() {
    let mut g = ActiveJobGate::new();
    assert_eq!(g.current(), None);
    assert_eq!(g.acquire("stream"), Ok(()));
    assert_eq!(
        g.acquire("stream"),
        Err("a stream job is already running; stop it first".to_string())
    );
    assert_eq!(
        g.acquire("create-table"),
        Err("another job (stream) is already running; stop it before starting create-table".to_string())
    );
    g.release("create-table");
    assert_eq!(g.current(), Some("stream"));
    g.release("stream");
    assert_eq!(g.acquire("create-table"), Ok(()));
}

#[test]
fn starting_a_stream() {
    let mut gate = ActiveJobGate::new();
    let mut registered = vec![];
    let cfg = launch();
    let p = begin_stream(&mut gate, false, &mut registered, &cfg, &env()).unwrap();
    assert_eq!((p.source_backend, p.target_backend), (Backend::LocalFs, Backend::S3));
    assert_eq!(p.to_register, vec![Backend::LocalFs, Backend::S3]);
    assert_eq!(registered, vec![Backend::LocalFs, Backend::S3]);
    assert_eq!(p.transform_source, None);
    assert_eq!(gate.current(), Some("stream"));
    let sc = finish_stream(&mut gate, p, &cfg, Ok(None)).unwrap();
    assert_eq!((sc.source_uri.as_str(), sc.target_uri.as_str()), ("./s", "s3://b/t"));
    assert_eq!(sc.read_concurrency, 8);
    assert_eq!(sc.mode.name(), "merge");
    let mut d = DashboardState::default();
    d.sink.last_error = "old".to_string();
    show_stream_started(&mut d, &cfg, &sc.mode);
    assert_eq!((d.table_uri.as_str(), d.backend.as_str()), ("./s", "LocalFs"));
    assert_eq!((d.sink.status.as_str(), d.sink.last_error.as_str()), ("Starting...", ""));
    assert_eq!(d.sink.launch_config, Some(cfg));
    assert!(d.sink.running);
    end_stream(&mut gate, &mut d.sink, &None);
    assert_eq!((d.sink.status.as_str(), gate.current()), ("Stopped", None));
}

#[test]
fn refused_starts_leave_the_gate_open() {
    let mut gate = ActiveJobGate::new();
    let mut reg = vec![];
    let e = begin_stream(&mut gate, true, &mut reg, &launch(), &env()).unwrap_err();
    assert_eq!(e.message(), "a sink job is already running; stop it first");
    let mut cfg = launch();
    cfg.target_uri = String::new();
    let e = begin_stream(&mut gate, false, &mut reg, &cfg, &env()).unwrap_err();
    assert_eq!(e.message(), "source_uri and target_uri are required");
    cfg = launch();
    cfg.source_uri = "az://c@a.b/p".to_string();
    cfg.azure_auth = "key".to_string();
    let e = begin_stream(&mut gate, false, &mut reg, &cfg, &env()).unwrap_err();
    assert_eq!(e, StartError::SourceStorage(ConfigError::KeyMissing));
    assert!(e.message().starts_with("source storage opts: azure_auth=key"));
    cfg.target_uri = "az://c@a.b/p".to_string();
    cfg.source_uri = "./s".to_string();
    let e = begin_stream(&mut gate, false, &mut reg, &cfg, &env()).unwrap_err();
    assert!(e.message().starts_with("target storage opts: "));
    assert_eq!(gate.current(), None);
    cfg = launch();
    cfg.merge_transform_rust = Some("body".to_string());
    let p = begin_stream(&mut gate, false, &mut reg, &cfg, &env()).unwrap();
    assert_eq!(p.transform_source, Some("body".to_string()));
    let e = finish_stream(&mut gate, p, &cfg, Err("E0308".to_string())).unwrap_err();
    assert_eq!(e.message(), "rust transform: E0308");
    assert_eq!(gate.current(), None);
    cfg.merge_keys = String::new();
    let p = begin_stream(&mut gate, false, &mut reg, &cfg, &env()).unwrap();
    let lib = TransformLib { path: "l".to_string() };
    let e = finish_stream(&mut gate, p, &cfg, Ok(Some(lib))).unwrap_err();
    assert_eq!(e, StartError::Mode(SinkError::MergeKeysRequired));
    assert_eq!(e.message(), "parse_mode: --sink-mode merge requires --merge-keys");
    assert_eq!(gate.current(), None);
    assert_eq!(gate.acquire("create-table"), Ok(()));
    let e = begin_stream(&mut gate, false, &mut reg, &launch(), &env()).unwrap_err();
    assert_eq!(
        e.message(),
        "another job (create-table) is already running; stop it before starting stream"
    );
}

#[test]
fn a_failed_start_can_be_followed() {
    let mut gate = ActiveJobGate::new();
    let mut d = DashboardState::default();
    let mut c = Controller::new();
    let mut bad = launch();
    bad.merge_keys = String::new();
    let e = c.start(&mut gate, false, &mut d, &bad, &env(), Ok(None)).unwrap_err();
    assert_eq!(e, StartError::Mode(SinkError::MergeKeysRequired));
    assert_eq!((gate.current(), d.sink.running, d.table_uri.as_str()), (None, false, ""));
    assert_eq!(c.registered, vec![Backend::LocalFs, Backend::S3]);
    let e = c.start(&mut gate, false, &mut d, &launch(), &env(), Err("E0308".to_string())).unwrap_err();
    assert_eq!(e, StartError::Transform("E0308".to_string()));
    let sc = c.start(&mut gate, false, &mut d, &launch(), &env(), Ok(None)).unwrap();
    assert_eq!((sc.target_uri.as_str(), sc.mode.name()), ("s3://b/t", "merge"));
    assert_eq!((gate.current(), d.sink.running, d.table_uri.as_str()), (Some("stream"), true, "./s"));
    assert_eq!(d.sink.target_backend, "S3");
    assert_eq!(c.registered, vec![Backend::LocalFs, Backend::S3]);
    let e = c.start(&mut gate, false, &mut d, &launch(), &env(), Ok(None)).unwrap_err();
    assert_eq!(e.message(), "a stream job is already running; stop it first");
    let e = c.start(&mut gate, true, &mut d, &launch(), &env(), Ok(None)).unwrap_err();
    assert_eq!(e, StartError::AlreadyRunning);
    let mut cfg = launch();
    assert_eq!(transform_to_compile(&cfg), None);
    cfg.merge_transform_rust = Some(" \n".to_string());
    assert_eq!(transform_to_compile(&cfg), None);
    cfg.merge_transform_rust = Some("body".to_string());
    assert_eq!(transform_to_compile(&cfg), Some("body".to_string()));
}

#[test]
fn handlers_are_not_registered_again() {
    assert_eq!(backends_to_register(&vec![], Backend::S3, Backend::S3), vec![Backend::S3]);
    assert_eq!(
        backends_to_register(&vec![Backend::S3], Backend::S3, Backend::Gcs),
        vec![Backend::Gcs]
    );
    assert_eq!(backends_to_register(&vec![Backend::Gcs], Backend::S3, Backend::Gcs), vec![Backend::S3]);
}

#[test]
fn failed_and_aborted_streams_open_the_gate() {
    let mut d = DashboardState::default();
    let mut gate = ActiveJobGate::new();
    gate.acquire("stream").unwrap();
    let f = JobFailure { summary: "boom".to_string(), details: "boom: cause".to_string() };
    end_stream(&mut gate, &mut d.sink, &Some(f));
    assert_eq!((d.sink.status.as_str(), d.sink.last_error.as_str()), ("Error: boom", "boom: cause"));
    assert_eq!(gate.acquire("stream"), Ok(()));
    stream_stopped(&mut gate, &mut d.sink, false);
    assert_eq!(gate.current(), Some("stream"));
    stream_stopped(&mut gate, &mut d.sink, true);
    assert_eq!((d.sink.status.as_str(), gate.current()), ("Stopped", None));
}

#[test]
fn stopping_needs_a_running_job() {
    assert_eq!(stop_stream(true), Ok(()));
    assert_eq!(stop_stream(false), Err("no sink job is currently running".to_string()));
    assert_eq!(stop_create(true), Ok(()));
    assert_eq!(stop_create(false), Err("no create-table job is currently running".to_string()));
}

fn create() -> CreateTableLaunchConfig {
    CreateTableLaunchConfig {
        uri: "./t".to_string(),
        rows: 10,
        commits: 3,
        columns: 4,
        zorder_by: String::new(),
        overwrite: false,
        azure_auth: "auto".to_string(),
    }
}

#[test]
fn creating_a_table_as_a_job() {
    let mut gate = ActiveJobGate::new();
    let mut d = DashboardState::default();
    d.create_table.rows_written = 99;
    assert_eq!(
        begin_create(&mut gate, true, &mut d, &create()),
        Err("a create-table job is already running".to_string())
    );
    let mut unnamed = create();
    unnamed.uri = String::new();
    assert_eq!(begin_create(&mut gate, false, &mut d, &unnamed), Err("uri is required".to_string()));
    assert_eq!(begin_create(&mut gate, false, &mut d, &create()), Ok(()));
    assert_eq!(d.active_job, Some("create-table".to_string()));
    let t = d.create_table.clone();
    assert_eq!((t.rows_written, t.total_rows, t.total_commits), (0, 10, 3));
    assert_eq!((t.status.as_str(), t.target_uri.as_str(), t.running), ("Starting...", "./t", true));
    assert!(begin_create(&mut gate, false, &mut d, &create()).is_err());
    show_create_stopping(&mut d.create_table);
    assert_eq!(d.create_table.status, "Stopping...");
    let f = JobFailure { summary: "no".to_string(), details: "no: x".to_string() };
    end_create(&mut gate, &mut d, &Some(f));
    assert_eq!((d.create_table.status.as_str(), d.create_table.last_error.as_str()), ("Error: no", "no: x"));
    assert_eq!((gate.current(), d.active_job.clone(), d.create_table.running), (None, None, false));
    begin_create(&mut gate, false, &mut d, &create()).unwrap();
    create_stopped(&mut gate, &mut d.create_table, true);
    assert_eq!((d.create_table.status.as_str(), gate.current()), ("Stopped", None));
    begin_create(&mut gate, false, &mut d, &create()).unwrap();
    end_create(&mut gate, &mut d, &None);
    assert_eq!(d.create_table.status, "Starting...");
}

#[test]
fn job_of_the_command_line() {
    let mut args = StreamArgs {
        source_uri: Some("./s".to_string()),
        target_uri: None,
        sink_mode: "merge".to_string(),
        merge_keys: "id".to_string(),
        merge_update_columns: String::new(),
        merge_update_predicate: None,
        merge_delete_predicate: None,
        merge_insert_predicate: None,
        merge_dedupe_order_by: None,
        merge_transform_sql: None,
        merge_transform_rust_file: None,
        start_version: None,
        end_version: None,
        once: false,
        poll_interval_secs: 5,
        checkpoint_file: "./riffle-stream-ckpt.json".to_string(),
        max_versions_per_batch: 10,
        read_concurrency: 8,
        azure_auth: "auto".to_string(),
        dashboard_bind: "127.0.0.1:3001".to_string(),
    };
    assert_eq!(args.launch(None), None);
    args.target_uri = Some("s3://b/t".to_string());
    assert_eq!(args.launch(None), Some(launch()));
    assert_eq!(
        args.launch(Some("x".to_string())).unwrap().merge_transform_rust,
        Some("x".to_string())
    );
}
