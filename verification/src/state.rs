//! Dashboard state, tunable thresholds, launch parameters and the rolling log buffer.

use std::collections::VecDeque;
use vstd::prelude::*;

use crate::clock;
use crate::text;

verus! {

// ---------------------------------------------------------------------------
// Bounded histories
// ---------------------------------------------------------------------------

/// The number of events that the dashboard keeps per component.
pub const MAX_EVENTS: usize = 50;

/// The number of measurements that a rolling average looks back on.
pub const AVERAGE_WINDOW: usize = 100;

/// `s` with `item` behind it, without the oldest member when that makes more than `cap`.
pub open spec fn pushed_within<T>(s: Seq<T>, item: T, cap: nat) -> Seq<T> {
    if s.len() + 1 > cap {
        s.push(item).drop_first()
    } else {
        s.push(item)
    }
}

/// A history that holds no more than `cap` members never does, and the newest is among them.
pub proof fn lemma_history_bounded<T>(s: Seq<T>, item: T, cap: nat)
    requires
        cap >= 1,
        s.len() <= cap,
    ensures
        pushed_within(s, item, cap).len() <= cap,
        pushed_within(s, item, cap).last() == item,
{
}

/// Appends `item` and drops the oldest member when there are then more than `cap`.
pub fn push_within<T>(v: &mut Vec<T>, item: T, cap: usize)
    ensures
        final(v)@ == pushed_within(old(v)@, item, cap as nat),
{
    v.push(item);
    if v.len() > cap {
        v.remove(0);
        assert(v@ =~= old(v)@.push(item).drop_first());
    }
}

/// The sum of `s`.
pub open spec fn total(s: Seq<u64>) -> nat
    decreases s.len(),
{
    if s.len() == 0 {
        0
    } else {
        total(s.drop_last()) + s.last() as nat
    }
}

/// The mean of `s`, rounded down; 0 where there is nothing to average.
pub open spec fn mean(s: Seq<u64>) -> nat {
    if s.len() == 0 {
        0
    } else {
        total(s) / s.len()
    }
}

/// The mean of `v`, rounded down; 0 where there is nothing to average.
pub fn mean_of(v: &Vec<u64>) -> (r: u64)
    ensures
        r == mean(v@),
{
    let n: usize = v.len();
    if n == 0 {
        return 0;
    }
    let mut sum: u128 = 0;
    for i in 0..n
        invariant
            n == v.len(),
            sum == total(v@.take(i as int)),
            sum <= i * 0xffff_ffff_ffff_ffff,
    {
        assert(v@.take(i + 1).drop_last() =~= v@.take(i as int));
        sum = sum + v[i] as u128;
    }
    assert(v@.take(n as int) =~= v@);
    assert(sum / (n as u128) <= 0xffff_ffff_ffff_ffff) by (nonlinear_arith)
        requires
            sum <= n * 0xffff_ffff_ffff_ffff,
            n > 0,
    ;
    (sum / (n as u128)) as u64
}

/// The most recent measurements of a duration, for a rolling average.
#[derive(Debug, Clone)]
pub struct RollingAverage {
    pub values: Vec<u64>,
}

impl RollingAverage {
    /// No measurement yet.
    pub fn new() -> (r: Self)
        ensures
            r.values@ == Seq::<u64>::empty(),
    {
        RollingAverage { values: Vec::new() }
    }

    /// Takes in a measurement and returns the mean of those still looked back on.
    pub fn record(&mut self, value: u64) -> (average: u64)
        ensures
            final(self).values@ == pushed_within(old(self).values@, value, AVERAGE_WINDOW as nat),
            average == mean(final(self).values@),
    {
        push_within(&mut self.values, value, AVERAGE_WINDOW);
        mean_of(&self.values)
    }
}

// ---------------------------------------------------------------------------
// Tunables
// ---------------------------------------------------------------------------

/// Tunable thresholds that the consumer reads on every poll. There is one of them, which those
/// who read and those who change it share, so it is not copied.
#[derive(Debug, PartialEq, Eq, Structural)]
pub struct TunableConfig {
    pub chunk_target_rows: u64,
    pub merge_threshold_rows: u64,
    pub split_threshold_rows: u64,
}

impl TunableConfig {
    /// The given thresholds.
    pub fn new(chunk_target: u64, merge_threshold: u64, split_threshold: u64) -> (r: Self)
        ensures
            r.chunk_target_rows == chunk_target,
            r.merge_threshold_rows == merge_threshold,
            r.split_threshold_rows == split_threshold,
    {
        TunableConfig {
            chunk_target_rows: chunk_target,
            merge_threshold_rows: merge_threshold,
            split_threshold_rows: split_threshold,
        }
    }

    /// The current thresholds, as the dashboard shows them.
    pub fn snapshot(&self) -> (r: ConfigSnapshot)
        ensures
            r.chunk_target_rows == self.chunk_target_rows,
            r.merge_threshold_rows == self.merge_threshold_rows,
            r.split_threshold_rows == self.split_threshold_rows,
    {
        ConfigSnapshot {
            chunk_target_rows: self.chunk_target_rows,
            merge_threshold_rows: self.merge_threshold_rows,
            split_threshold_rows: self.split_threshold_rows,
        }
    }
}

/// The thresholds as they are shown on the dashboard and answered to its requests.
#[derive(Debug, Clone, Copy, PartialEq, Eq, Structural)]
pub struct ConfigSnapshot {
    pub chunk_target_rows: u64,
    pub merge_threshold_rows: u64,
    pub split_threshold_rows: u64,
}

impl Default for ConfigSnapshot {
    fn default() -> (r: Self)
        ensures
            r.chunk_target_rows == 0,
            r.merge_threshold_rows == 0,
            r.split_threshold_rows == 0,
    {
        ConfigSnapshot { chunk_target_rows: 0, merge_threshold_rows: 0, split_threshold_rows: 0 }
    }
}

// ---------------------------------------------------------------------------
// Dashboard state
// ---------------------------------------------------------------------------

/// Everything that the dashboard shows.
#[derive(Debug, Clone)]
pub struct DashboardState {
    pub producer: ProducerState,
    pub consumer: ConsumerState,
    pub sink: SinkState,
    pub create_table: CreateTableState,
    pub config: ConfigSnapshot,
    pub table_uri: String,
    pub backend: String,
    /// "dashboard" (producer, consumer and optional sink) or "stream-cli" (sink only).
    pub app_mode: String,
    /// The job that is running now, if any: "stream", "create-table" or "demo".
    pub active_job: Option<String>,
}

impl DashboardState {
    /// Nothing has been shown yet: every number is 0, every text and list is empty.
    pub open spec fn blank(&self) -> bool {
        &&& self.producer.blank()
        &&& self.consumer.blank()
        &&& self.sink.blank()
        &&& self.create_table.blank()
        &&& self.config.chunk_target_rows == 0
        &&& self.config.merge_threshold_rows == 0
        &&& self.config.split_threshold_rows == 0
        &&& self.table_uri@ == Seq::<char>::empty()
        &&& self.backend@ == Seq::<char>::empty()
        &&& self.app_mode@ == Seq::<char>::empty()
        &&& self.active_job is None
    }
}

impl Default for DashboardState {
    fn default() -> (r: Self)
        ensures
            r.blank(),
    {
        DashboardState {
            producer: ProducerState::default(),
            consumer: ConsumerState::default(),
            sink: SinkState::default(),
            create_table: CreateTableState::default(),
            config: ConfigSnapshot::default(),
            table_uri: String::new(),
            backend: String::new(),
            app_mode: String::new(),
            active_job: None,
        }
    }
}

/// Progress of the demo producer.
#[derive(Debug, Clone)]
pub struct ProducerState {
    pub status: String,
    pub batches_written: u32,
    pub total_batches: u32,
    pub total_rows_written: u64,
    pub current_version: i64,
    pub last_write_duration_ms: u64,
    pub avg_write_duration_ms: u64,
    pub events: Vec<ProducerEvent>,
}

impl ProducerState {
    /// Nothing has been shown yet: every number is 0, every text and list is empty.
    pub open spec fn blank(&self) -> bool {
        &&& self.status@ == Seq::<char>::empty()
        &&& self.batches_written == 0
        &&& self.total_batches == 0
        &&& self.total_rows_written == 0
        &&& self.current_version == 0
        &&& self.last_write_duration_ms == 0
        &&& self.avg_write_duration_ms == 0
        &&& self.events@.len() == 0
    }
}

impl Default for ProducerState {
    fn default() -> (r: Self)
        ensures
            r.blank(),
    {
        ProducerState {
            status: String::new(),
            batches_written: 0,
            total_batches: 0,
            total_rows_written: 0,
            current_version: 0,
            last_write_duration_ms: 0,
            avg_write_duration_ms: 0,
            events: Vec::new(),
        }
    }
}

/// One write of the demo producer.
#[derive(Debug, Clone, PartialEq, Eq)]
pub struct ProducerEvent {
    pub timestamp: String,
    pub batch_id: u32,
    pub rows: u64,
    pub version: i64,
    pub duration_ms: u64,
}

/// Progress of the consumer.
#[derive(Debug, Clone)]
pub struct ConsumerState {
    pub status: String,
    pub mode: String,
    pub versions_processed: u64,
    pub chunks_processed: u64,
    pub total_rows_consumed: u64,
    pub last_version_seen: i64,
    pub pending_versions: u64,
    pub last_poll_duration_ms: u64,
    pub avg_latency_ms: u64,
    pub checkpoint: String,
    pub events: Vec<ConsumerEvent>,
}

impl ConsumerState {
    /// Nothing has been shown yet: every number is 0, every text and list is empty.
    pub open spec fn blank(&self) -> bool {
        &&& self.status@ == Seq::<char>::empty()
        &&& self.mode@ == Seq::<char>::empty()
        &&& self.versions_processed == 0
        &&& self.chunks_processed == 0
        &&& self.total_rows_consumed == 0
        &&& self.last_version_seen == 0
        &&& self.pending_versions == 0
        &&& self.last_poll_duration_ms == 0
        &&& self.avg_latency_ms == 0
        &&& self.checkpoint@ == Seq::<char>::empty()
        &&& self.events@.len() == 0
    }
}

impl Default for ConsumerState {
    fn default() -> (r: Self)
        ensures
            r.blank(),
    {
        ConsumerState {
            status: String::new(),
            mode: String::new(),
            versions_processed: 0,
            chunks_processed: 0,
            total_rows_consumed: 0,
            last_version_seen: 0,
            pending_versions: 0,
            last_poll_duration_ms: 0,
            avg_latency_ms: 0,
            checkpoint: String::new(),
            events: Vec::new(),
        }
    }
}

/// One unit of work of the consumer.
#[derive(Debug, Clone, PartialEq, Eq)]
pub struct ConsumerEvent {
    pub timestamp: String,
    pub mode: String,
    pub range: String,
    pub version: i64,
    pub new_rows: u64,
    pub latency_ms: u64,
}

/// Progress of the sink.
#[derive(Debug, Clone)]
pub struct SinkState {
    pub enabled: bool,
    pub mode: String,
    pub target_uri: String,
    pub target_backend: String,
    pub status: String,
    pub target_version: i64,
    pub batches_processed: u64,
    pub total_inserts: u64,
    pub total_updates: u64,
    pub total_deletes: u64,
    pub total_appended: u64,
    pub last_duration_ms: u64,
    pub avg_duration_ms: u64,
    pub last_source_rows: u64,
    pub events: Vec<SinkEvent>,
    /// Whether a sink job is running.
    pub running: bool,
    /// The last error message; cleared when a new job starts.
    pub last_error: String,
    /// The parameters of the last job, to fill in the form again.
    pub launch_config: Option<SinkLaunchConfig>,
}

impl SinkState {
    /// Nothing has been shown yet: every number is 0, every text and list is empty.
    pub open spec fn blank(&self) -> bool {
        &&& !self.enabled
        &&& self.mode@ == Seq::<char>::empty()
        &&& self.target_uri@ == Seq::<char>::empty()
        &&& self.target_backend@ == Seq::<char>::empty()
        &&& self.status@ == Seq::<char>::empty()
        &&& self.target_version == 0
        &&& self.batches_processed == 0
        &&& self.total_inserts == 0
        &&& self.total_updates == 0
        &&& self.total_deletes == 0
        &&& self.total_appended == 0
        &&& self.last_duration_ms == 0
        &&& self.avg_duration_ms == 0
        &&& self.last_source_rows == 0
        &&& self.events@.len() == 0
        &&& !self.running
        &&& self.last_error@ == Seq::<char>::empty()
        &&& self.launch_config is None
    }
}

impl Default for SinkState {
    fn default() -> (r: Self)
        ensures
            r.blank(),
    {
        SinkState {
            enabled: false,
            mode: String::new(),
            target_uri: String::new(),
            target_backend: String::new(),
            status: String::new(),
            target_version: 0,
            batches_processed: 0,
            total_inserts: 0,
            total_updates: 0,
            total_deletes: 0,
            total_appended: 0,
            last_duration_ms: 0,
            avg_duration_ms: 0,
            last_source_rows: 0,
            events: Vec::new(),
            running: false,
            last_error: String::new(),
            launch_config: None,
        }
    }
}

/// One application of a batch of source versions to the target.
#[derive(Debug, Clone, PartialEq, Eq)]
pub struct SinkEvent {
    pub timestamp: String,
    pub mode: String,
    pub source_rows: u64,
    pub inserts: u64,
    pub updates: u64,
    pub deletes: u64,
    pub appended: u64,
    pub target_version: i64,
    pub duration_ms: u64,
}

/// Parameters of a sink job, as the command line or the dashboard form gives them.
#[derive(Debug, PartialEq, Eq)]
pub struct SinkLaunchConfig {
    pub source_uri: String,
    pub target_uri: String,
    pub sink_mode: String,
    pub merge_keys: String,
    pub merge_update_columns: String,
    pub merge_update_predicate: Option<String>,
    pub merge_delete_predicate: Option<String>,
    pub merge_insert_predicate: Option<String>,
    pub merge_dedupe_order_by: Option<String>,
    pub merge_transform_sql: Option<String>,
    /// Rust source of a transform, compiled when the job starts. Excludes
    /// `merge_transform_sql`.
    pub merge_transform_rust: Option<String>,
    pub start_version: Option<i64>,
    pub end_version: Option<i64>,
    pub once: bool,
    pub poll_interval_secs: u64,
    pub max_versions_per_batch: usize,
    pub read_concurrency: usize,
    pub azure_auth: String,
    pub checkpoint_file: String,
}

impl Clone for SinkLaunchConfig {
    fn clone(&self) -> (r: Self)
        ensures
            r == *self,
    {
        SinkLaunchConfig {
            source_uri: self.source_uri.clone(),
            target_uri: self.target_uri.clone(),
            sink_mode: self.sink_mode.clone(),
            merge_keys: self.merge_keys.clone(),
            merge_update_columns: self.merge_update_columns.clone(),
            merge_update_predicate: text::copy_option(&self.merge_update_predicate),
            merge_delete_predicate: text::copy_option(&self.merge_delete_predicate),
            merge_insert_predicate: text::copy_option(&self.merge_insert_predicate),
            merge_dedupe_order_by: text::copy_option(&self.merge_dedupe_order_by),
            merge_transform_sql: text::copy_option(&self.merge_transform_sql),
            merge_transform_rust: text::copy_option(&self.merge_transform_rust),
            start_version: self.start_version,
            end_version: self.end_version,
            once: self.once,
            poll_interval_secs: self.poll_interval_secs,
            max_versions_per_batch: self.max_versions_per_batch,
            read_concurrency: self.read_concurrency,
            azure_auth: self.azure_auth.clone(),
            checkpoint_file: self.checkpoint_file.clone(),
        }
    }
}

/// Seconds between two polls where a request names none.
pub fn default_poll_interval() -> (r: u64)
    ensures
        r == 5,
{
    5
}

/// Source versions per sink call where a request names no number.
pub fn default_max_versions() -> (r: usize)
    ensures
        r == 10,
{
    10
}

/// Source files read in parallel where a request names no number.
pub fn default_read_concurrency() -> (r: usize)
    ensures
        r == 8,
{
    8
}

/// The Azure authentication method where a request names none.
pub fn default_azure_auth() -> (r: String)
    ensures
        r@ == "auto"@,
{
    "auto".to_string()
}

/// The checkpoint file where a request names none.
pub fn default_checkpoint() -> (r: String)
    ensures
        r@ == "./riffle-stream-ckpt.json"@,
{
    "./riffle-stream-ckpt.json".to_string()
}

/// Durable progress of the consumer.
///
/// Versions up to `last_full_version` are complete; of the version behind it the first
/// `partial_file_offset` chunks are.
#[derive(Debug, Clone, Copy, PartialEq, Eq, Structural)]
pub struct DiskCheckpoint {
    pub last_full_version: i64,
    pub partial_file_offset: u64,
    pub rows_committed: u64,
}

impl Default for DiskCheckpoint {
    fn default() -> (r: Self)
        ensures
            r.last_full_version == 0,
            r.partial_file_offset == 0,
            r.rows_committed == 0,
    {
        DiskCheckpoint { last_full_version: 0, partial_file_offset: 0, rows_committed: 0 }
    }
}

/// How the dashboard shows a checkpoint.
pub open spec fn checkpoint_text(c: DiskCheckpoint) -> Seq<char> {
    if c.partial_file_offset == 0 {
        "v"@ + text::decimal_int(c.last_full_version as int) + ":complete"@
    } else {
        "v"@ + text::decimal_int(c.last_full_version as int) + "+chunk"@ + text::decimal(
            c.partial_file_offset as nat,
        )
    }
}

/// How the dashboard shows a checkpoint.
pub fn fmt_ckpt(c: &DiskCheckpoint) -> (r: String)
    ensures
        r@ == checkpoint_text(*c),
{
    let mut r = "v".to_string();
    text::push_i64(&mut r, c.last_full_version);
    if c.partial_file_offset == 0 {
        r.append(":complete");
    } else {
        r.append("+chunk");
        text::push_u64(&mut r, c.partial_file_offset);
    }
    r
}

/// Progress of a create-table job.
#[derive(Debug, Clone)]
pub struct CreateTableState {
    pub running: bool,
    pub status: String,
    pub last_error: String,
    pub target_uri: String,
    pub commits_done: usize,
    pub total_commits: usize,
    pub rows_written: u64,
    pub total_rows: u64,
    pub last_commit_ms: u64,
    pub optimize_status: String,
    pub launch_config: Option<CreateTableLaunchConfig>,
}

impl CreateTableState {
    /// Nothing has been shown yet: every number is 0, every text and list is empty.
    pub open spec fn blank(&self) -> bool {
        &&& !self.running
        &&& self.status@ == Seq::<char>::empty()
        &&& self.last_error@ == Seq::<char>::empty()
        &&& self.target_uri@ == Seq::<char>::empty()
        &&& self.commits_done == 0
        &&& self.total_commits == 0
        &&& self.rows_written == 0
        &&& self.total_rows == 0
        &&& self.last_commit_ms == 0
        &&& self.optimize_status@ == Seq::<char>::empty()
        &&& self.launch_config is None
    }
}

impl Default for CreateTableState {
    fn default() -> (r: Self)
        ensures
            r.blank(),
    {
        CreateTableState {
            running: false,
            status: String::new(),
            last_error: String::new(),
            target_uri: String::new(),
            commits_done: 0,
            total_commits: 0,
            rows_written: 0,
            total_rows: 0,
            last_commit_ms: 0,
            optimize_status: String::new(),
            launch_config: None,
        }
    }
}

/// Parameters of a create-table job.
#[derive(Debug, PartialEq, Eq)]
pub struct CreateTableLaunchConfig {
    pub uri: String,
    pub rows: usize,
    pub commits: usize,
    pub columns: usize,
    pub zorder_by: String,
    pub overwrite: bool,
    pub azure_auth: String,
}

impl Clone for CreateTableLaunchConfig {
    fn clone(&self) -> (r: Self)
        ensures
            r == *self,
    {
        CreateTableLaunchConfig {
            uri: self.uri.clone(),
            rows: self.rows,
            commits: self.commits,
            columns: self.columns,
            zorder_by: self.zorder_by.clone(),
            overwrite: self.overwrite,
            azure_auth: self.azure_auth.clone(),
        }
    }
}

/// Rows of a new table where a request names no number.
pub fn default_create_rows() -> (r: usize)
    ensures
        r == 200_000,
{
    200_000
}

/// Commits of a new table where a request names no number.
pub fn default_create_commits() -> (r: usize)
    ensures
        r == 1,
{
    1
}

/// Columns of a new table where a request names no number.
pub fn default_create_columns() -> (r: usize)
    ensures
        r == 30,
{
    30
}

/// The column that a new table is ordered by where a request names none.
pub fn default_zorder_by() -> (r: String)
    ensures
        r@ == "event_timestamp"@,
{
    "event_timestamp".to_string()
}

// ---------------------------------------------------------------------------
// The rolling log
// ---------------------------------------------------------------------------

/// A line of the log.
#[derive(Debug, PartialEq, Eq)]
pub struct LogLine {
    pub seq: u64,
    pub ts: String,
    pub level: String,
    pub target: String,
    pub message: String,
}

impl Clone for LogLine {
    fn clone(&self) -> (r: Self)
        ensures
            r == *self,
    {
        LogLine {
            seq: self.seq,
            ts: self.ts.clone(),
            level: self.level.clone(),
            target: self.target.clone(),
            message: self.message.clone(),
        }
    }
}

/// The most recent log lines, numbered from 1 on: a ring of as many as it has room for.
#[derive(Debug)]
pub struct LogBuffer {
    lines: VecDeque<LogLine>,
    capacity: usize,
    seq: u64,
}

/// The lines of `lines` with a number above `seq`.
pub open spec fn lines_after(lines: Seq<LogLine>, seq: u64) -> Seq<LogLine> {
    lines.filter(|l: LogLine| l.seq > seq)
}

/// `lines` with `line` behind them, where a full buffer of `capacity` lines first drops its
/// oldest. One without room keeps none.
pub open spec fn logged(lines: Seq<LogLine>, line: LogLine, capacity: nat) -> Seq<LogLine> {
    if capacity == 0 {
        Seq::empty()
    } else if lines.len() == capacity {
        lines.drop_first().push(line)
    } else {
        lines.push(line)
    }
}

impl View for LogBuffer {
    type V = Seq<LogLine>;

    closed spec fn view(&self) -> Seq<LogLine> {
        self.lines@
    }
}

impl LogBuffer {
    /// The number of lines that the buffer keeps.
    pub closed spec fn limit(&self) -> nat {
        self.capacity as nat
    }

    /// The number of the last line.
    pub closed spec fn last_seq(&self) -> u64 {
        self.seq
    }

    /// The lines bear consecutive numbers up to the last one, and there are as many as were
    /// logged, but never more than the buffer keeps.
    pub open spec fn valid(&self) -> bool {
        &&& self@.len() == (if self.limit() < self.last_seq() {
            self.limit()
        } else {
            self.last_seq() as nat
        })
        &&& forall|i: int|
            0 <= i < self@.len() ==> (#[trigger] self@[i]).seq == self.last_seq() - self@.len() + 1
                + i
    }

    /// An empty buffer that keeps the last `capacity` lines.
    pub fn new(capacity: usize) -> (r: Self)
        ensures
            r.valid(),
            r@ == Seq::<LogLine>::empty(),
            r.limit() == capacity,
            r.last_seq() == 0,
    {
        LogBuffer { lines: VecDeque::new(), capacity, seq: 0 }
    }

    /// Appends a line that was logged at `ts`, with the next number.
    pub fn push_at(&mut self, ts: String, level: &str, target: &str, message: String)
        requires
            old(self).valid(),
            old(self).last_seq() < u64::MAX,
        ensures
            final(self).valid(),
            final(self).limit() == old(self).limit(),
            final(self).last_seq() == old(self).last_seq() + 1,
            exists|line: LogLine|
                {
                    &&& #[trigger] is_line(
                        line,
                        final(self).last_seq(),
                        ts,
                        level@,
                        target@,
                        message,
                    )
                    &&& final(self)@ == logged(old(self)@, line, old(self).limit())
                },
    {
        self.seq = self.seq + 1;
        let line = LogLine {
            seq: self.seq,
            ts,
            level: level.to_string(),
            target: target.to_string(),
            message,
        };
        assert(is_line(line, self.seq, ts, level@, target@, message));
        let ghost shown = line;
        if self.capacity > 0 {
            if self.lines.len() == self.capacity {
                let _ = self.lines.pop_front();
            }
            self.lines.push_back(line);
        }
        assert(self.lines@ =~= logged(old(self).lines@, shown, old(self).capacity as nat));
    }

    /// Appends a line that is logged now, with the next number.
    pub fn push(&mut self, level: &str, target: &str, message: String)
        requires
            old(self).valid(),
            old(self).last_seq() < u64::MAX,
        ensures
            final(self).valid(),
            final(self).limit() == old(self).limit(),
            final(self).last_seq() == old(self).last_seq() + 1,
            exists|line: LogLine|
                {
                    &&& #[trigger] is_line(
                        line,
                        final(self).last_seq(),
                        line.ts,
                        level@,
                        target@,
                        message,
                    )
                    &&& clock::time_of_day_millis(line.ts@)
                    &&& final(self)@ == logged(old(self)@, line, old(self).limit())
                },
    {
        let ts = clock::utc_clock();
        let ghost shown = ts;
        self.push_at(ts, level, target, message);
        proof {
            let line = choose|line: LogLine|
                {
                    &&& #[trigger] is_line(line, self.last_seq(), shown, level@, target@, message)
                    &&& self@ == logged(old(self)@, line, old(self).limit())
                };
            assert(is_line(line, self.last_seq(), line.ts, level@, target@, message));
        }
    }

    /// The number of the last line; 0 where none was logged.
    pub fn newest(&self) -> (r: u64)
        ensures
            r == self.last_seq(),
    {
        self.seq
    }

    /// Whether another line can be numbered.
    pub fn can_push(&self) -> (r: bool)
        ensures
            r == (self.last_seq() < u64::MAX),
    {
        self.seq < u64::MAX
    }

    /// The lines with a number above `since_seq`.
    pub fn since(&self, since_seq: u64) -> (r: Vec<LogLine>)
        ensures
            r@ == lines_after(self@, since_seq),
    {
        let n: usize = self.lines.len();
        let mut r: Vec<LogLine> = Vec::new();
        let ghost keep = |l: LogLine| l.seq > since_seq;
        reveal(Seq::filter);
        assert(r@ =~= self.lines@.take(0).filter(keep));
        for i in 0..n
            invariant
                n == self.lines.len(),
                keep == |l: LogLine| l.seq > since_seq,
                r@ == self.lines@.take(i as int).filter(keep),
        {
            reveal(Seq::filter);
            assert(self.lines@.take(i + 1).drop_last() =~= self.lines@.take(i as int));
            let line = &self.lines[i];
            if line.seq > since_seq {
                r.push(line.clone());
            }
        }
        assert(self.lines@.take(n as int) =~= self.lines@);
        r
    }

    /// All lines that are held.
    pub fn snapshot(&self) -> (r: Vec<LogLine>)
        ensures
            r@ == self@,
    {
        let n: usize = self.lines.len();
        let mut r: Vec<LogLine> = Vec::new();
        for i in 0..n
            invariant
                n == self.lines.len(),
                r@ == self.lines@.take(i as int),
        {
            r.push(self.lines[i].clone());
            assert(self.lines@.take(i + 1) =~= self.lines@.take(i as int).push(
                self.lines@[i as int],
            ));
        }
        assert(self.lines@.take(n as int) =~= self.lines@);
        r
    }
}

/// Whether `line` has the given content.
pub open spec fn is_line(
    line: LogLine,
    seq: u64,
    ts: String,
    level: Seq<char>,
    target: Seq<char>,
    message: String,
) -> bool {
    &&& line.seq == seq
    &&& line.ts == ts
    &&& line.level@ == level
    &&& line.target@ == target
    &&& line.message == message
}

/// The lines with a number above a given one are the newest ones: as many as were logged since
/// that number was given, or all that are still held.
pub proof fn lemma_log_tail(b: LogBuffer, seq: u64)
    requires
        b.valid(),
    ensures
        lines_after(b@, seq) == b@.skip(
            if seq >= b.last_seq() {
                b@.len() as int
            } else if b.last_seq() - seq >= b@.len() {
                0
            } else {
                b@.len() - (b.last_seq() - seq)
            },
        ),
{
    let k: int = if seq >= b.last_seq() {
        b@.len() as int
    } else if b.last_seq() - seq >= b@.len() {
        0
    } else {
        b@.len() - (b.last_seq() - seq)
    };
    lemma_lines_after_skip(b@, seq, k);
}

proof fn lemma_lines_after_skip(lines: Seq<LogLine>, seq: u64, k: int)
    requires
        0 <= k <= lines.len(),
        forall|i: int| 0 <= i < k ==> (#[trigger] lines[i]).seq <= seq,
        forall|i: int| k <= i < lines.len() ==> (#[trigger] lines[i]).seq > seq,
    ensures
        lines_after(lines, seq) == lines.skip(k),
    decreases lines.len(),
{
    reveal(Seq::filter);
    let keep = |l: LogLine| l.seq > seq;
    if lines.len() == 0 {
        assert(lines.filter(keep) =~= lines.skip(k));
    } else if k == lines.len() {
        assert(lines[lines.len() - 1].seq <= seq);
        lemma_lines_after_skip(lines.drop_last(), seq, k - 1);
        assert(lines.drop_last().skip(k - 1) =~= lines.skip(k));
    } else {
        assert(lines[lines.len() - 1].seq > seq);
        lemma_lines_after_skip(lines.drop_last(), seq, k);
        assert(lines.drop_last().skip(k).push(lines.last()) =~= lines.skip(k));
    }
}

// ---------------------------------------------------------------------------
// What histories and averages are for
// ---------------------------------------------------------------------------

/// A history keeps the newest members, in order: the one that is added last, before it those that
/// were there, and only the oldest goes, where there are too many.
pub proof fn lemma_history_keeps_the_newest<T>(s: Seq<T>, item: T, cap: nat, j: int)
    requires
        cap >= 1,
        s.len() <= cap,
    ensures
        pushed_within(s, item, cap).len() == (if s.len() < cap {
            s.len() + 1
        } else {
            cap
        }),
        pushed_within(s, item, cap).last() == item,
        1 <= j < pushed_within(s, item, cap).len() ==> pushed_within(s, item, cap)[pushed_within(
            s,
            item,
            cap,
        ).len() - 1 - j] == s[s.len() - j],
{
}

/// A sum is that of the parts, and of one number that number.
pub proof fn lemma_total_adds_up(a: Seq<u64>, b: Seq<u64>, n: u64)
    ensures
        total(a + b) == total(a) + total(b),
        total(seq![n]) == n,
        total(Seq::empty()) == 0,
    decreases b.len(),
{
    reveal_with_fuel(total, 2);
    if b.len() == 0 {
        assert(a + b =~= a);
    } else {
        lemma_total_adds_up(a, b.drop_last(), n);
        assert((a + b).drop_last() =~= a + b.drop_last());
        assert((a + b).last() == b.last());
    }
}

/// As many times the mean as there are numbers is no more than their sum, and with one more it
/// would be; of one number, and of equal ones, it is that number.
pub proof fn lemma_mean(s: Seq<u64>, n: u64)
    ensures
        s.len() > 0 ==> mean(s) * s.len() <= total(s) < (mean(s) + 1) * s.len(),
        s.len() == 0 ==> mean(s) == 0,
        mean(seq![n]) == n,
{
    lemma_total_adds_up(s, s, n);
    if s.len() > 0 {
        let t = total(s) as int;
        let k = s.len() as int;
        vstd::arithmetic::div_mod::lemma_fundamental_div_mod(t, k);
        vstd::arithmetic::div_mod::lemma_mod_bound(t, k);
        assert((t / k) * k == k * (t / k)) by (nonlinear_arith);
        assert((t / k + 1) * k == k * (t / k) + k) by (nonlinear_arith);
    }
}

/// A checkpoint is shown with its version first and then with whether the next one is complete or
/// how many chunks of it are done.
pub proof fn lemma_checkpoint_shown(c: DiskCheckpoint)
    ensures
        ({
            let first = "v"@ + text::decimal_int(c.last_full_version as int);
            &&& checkpoint_text(c).take(first.len() as int) == first
            &&& checkpoint_text(c).skip(first.len() as int) == (if c.partial_file_offset == 0 {
                ":complete"@
            } else {
                "+chunk"@ + text::decimal(c.partial_file_offset as nat)
            })
        }),
{
    let first = "v"@ + text::decimal_int(c.last_full_version as int);
    let second = if c.partial_file_offset == 0 {
        ":complete"@
    } else {
        "+chunk"@ + text::decimal(c.partial_file_offset as nat)
    };
    assert(checkpoint_text(c) =~= first + second);
    assert(checkpoint_text(c).take(first.len() as int) =~= first);
    assert(checkpoint_text(c).skip(first.len() as int) =~= second);
}

/// A line that is logged is the newest that is held, with those before it in order; no more are
/// held than there is room for, and none is dropped while there is room.
pub proof fn lemma_logged(lines: Seq<LogLine>, line: LogLine, capacity: nat, j: int)
    requires
        lines.len() <= capacity,
    ensures
        capacity == 0 ==> logged(lines, line, capacity).len() == 0,
        capacity > 0 ==> logged(lines, line, capacity).last() == line,
        capacity > 0 ==> logged(lines, line, capacity).len() == (if lines.len() < capacity {
            lines.len() + 1
        } else {
            capacity
        }),
        capacity > 0 && 1 <= j < logged(lines, line, capacity).len() ==> logged(
            lines,
            line,
            capacity,
        )[logged(lines, line, capacity).len() - 1 - j] == lines[lines.len() - j],
{
}

/// The lines behind a number are those with a greater one, all of them and in order.
pub proof fn lemma_lines_after(a: Seq<LogLine>, b: Seq<LogLine>, seq: u64, line: LogLine)
    ensures
        lines_after(a + b, seq) == lines_after(a, seq) + lines_after(b, seq),
        lines_after(seq![line], seq) == (if line.seq > seq {
            seq![line]
        } else {
            Seq::empty()
        }),
{
    let keep = |l: LogLine| l.seq > seq;
    Seq::filter_distributes_over_add(a, b, keep);
    reveal(Seq::filter);
    assert(seq![line].drop_last() =~= Seq::<LogLine>::empty());
    assert(Seq::<LogLine>::empty().filter(keep) =~= Seq::<LogLine>::empty());
    assert(Seq::<LogLine>::empty().push(line) =~= seq![line]);
}

/// A line of the log has the number, the time, the level, the target and the text that it was
/// logged with.
pub proof fn lemma_line(
    line: LogLine,
    seq: u64,
    ts: String,
    level: Seq<char>,
    target: Seq<char>,
    message: String,
)
    requires
        is_line(line, seq, ts, level, target, message),
    ensures
        line.seq == seq && line.ts == ts && line.level@ == level && line.target@ == target
            && line.message == message,
{
}

/// An average looks back on the last hundred measurements: each new one counts, and the oldest goes
/// only where there are a hundred.
pub proof fn lemma_average_window(values: Seq<u64>, value: u64)
    requires
        values.len() <= 100,
    ensures
        values.len() < 100 ==> pushed_within(values, value, AVERAGE_WINDOW as nat) == values.push(
            value,
        ),
        values.len() == 100 ==> pushed_within(values, value, AVERAGE_WINDOW as nat)
            == values.drop_first().push(value),
{
    let kept = pushed_within(values, value, AVERAGE_WINDOW as nat);
    if values.len() < 100 {
        assert(kept =~= values.push(value));
    } else {
        assert(kept =~= values.drop_first().push(value));
    }
}

} // verus!
