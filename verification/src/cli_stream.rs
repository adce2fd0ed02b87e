//! Streaming from table to table, started from the command line or from the dashboard.
//!
//! A stream opens its source, applies the new versions to the target in batches, waits, and
//! looks again, until it is cancelled or, where one batch is asked for, until that is done.
//! Only one job runs at a time; when it has ended, the next can be started.

use vstd::prelude::*;

use crate::config;
use crate::config::{Backend, ConfigError, StorageEnv};
use crate::sink;
use crate::sink::{SinkConfig, SinkError, SinkMode, TransformLib};
use crate::state::{
    CreateTableLaunchConfig, CreateTableState, DashboardState, SinkLaunchConfig, SinkState,
};
use crate::text;

verus! {

// ---------------------------------------------------------------------------
// Batches of versions
// ---------------------------------------------------------------------------

/// The last version of the batch that begins behind `last`, where `cap` is the last version to
/// apply and a batch holds at most `max` versions.
pub open spec fn batch_end(last: int, cap: int, max: int) -> int {
    if last + max <= cap {
        last + max
    } else {
        cap
    }
}

/// The batches, each as its first and last version, in which the versions behind `last` up to
/// `cap` are applied.
pub open spec fn batches(last: int, cap: int, max: int) -> Seq<(int, int)>
    decreases cap - last,
{
    if last >= cap || max < 1 {
        Seq::empty()
    } else {
        seq![(last + 1, batch_end(last, cap, max))] + batches(
            batch_end(last, cap, max),
            cap,
            max,
        )
    }
}

/// The versions `first..=last`.
pub open spec fn version_range(first: int, last: int) -> Seq<int> {
    Seq::new(
        (if last < first {
            0
        } else {
            last - first + 1
        }) as nat,
        |i: int| first + i,
    )
}

/// The versions of the batches, in the order in which they are applied.
pub open spec fn batch_versions(bs: Seq<(int, int)>) -> Seq<int>
    decreases bs.len(),
{
    if bs.len() == 0 {
        Seq::empty()
    } else {
        version_range(bs[0].0, bs[0].1) + batch_versions(bs.drop_first())
    }
}

/// The batches hold every version behind `last` up to `cap`, each once and in order.
pub proof fn lemma_batches_cover(last: int, cap: int, max: int)
    requires
        max >= 1,
    ensures
        batch_versions(batches(last, cap, max)) == version_range(last + 1, cap),
    decreases cap - last,
{
    if last < cap {
        let end = batch_end(last, cap, max);
        lemma_batches_cover(end, cap, max);
        let bs = batches(last, cap, max);
        assert(bs.drop_first() =~= batches(end, cap, max));
        assert(version_range(last + 1, end) + version_range(end + 1, cap) =~= version_range(
            last + 1,
            cap,
        ));
    } else {
        assert(version_range(last + 1, cap) =~= Seq::<int>::empty());
    }
}

/// No batch is empty or holds more than `max` versions.
pub proof fn lemma_batch_sizes(last: int, cap: int, max: int, k: int)
    requires
        0 <= k < batches(last, cap, max).len(),
    ensures
        1 <= batches(last, cap, max)[k].1 - batches(last, cap, max)[k].0 + 1 <= max,
    decreases k,
{
    if k > 0 {
        let end = batch_end(last, cap, max);
        lemma_batch_sizes(end, cap, max, k - 1);
        assert(batches(last, cap, max)[k] == batches(end, cap, max)[k - 1]);
    }
}

/// A stream that stops after any number of batches and starts again behind the last version
/// that it applied has exactly the remaining batches before it.
pub proof fn lemma_stream_resumes(last: int, cap: int, max: int, k: int)
    requires
        0 < k <= batches(last, cap, max).len(),
    ensures
        batches(batches(last, cap, max)[k - 1].1, cap, max) == batches(last, cap, max).skip(k),
    decreases k,
{
    let bs = batches(last, cap, max);
    let end = batch_end(last, cap, max);
    assert(bs.skip(1) =~= batches(end, cap, max));
    if k > 1 {
        lemma_stream_resumes(end, cap, max, k - 1);
        assert(bs.skip(k) =~= batches(end, cap, max).skip(k - 1));
        assert(bs[k - 1] == batches(end, cap, max)[k - 2]);
    }
}

// ---------------------------------------------------------------------------
// The stream as a state machine
// ---------------------------------------------------------------------------

/// Durable progress of a stream.
#[derive(Debug, Clone, Copy, PartialEq, Eq, Structural)]
pub struct Checkpoint {
    pub last_sunk_version: i64,
}

impl Default for Checkpoint {
    fn default() -> (r: Self)
        ensures
            r.last_sunk_version == 0,
    {
        Checkpoint { last_sunk_version: 0 }
    }
}

/// Where a stream stands between two actions.
#[derive(Debug, Clone, Copy, PartialEq, Eq, Structural)]
pub enum StreamPhase {
    /// The source is to be opened.
    Look,
    /// There was nothing new: so many seconds are left until the next look.
    Wait { seconds: u64 },
    /// Versions up to `cap` are to be applied.
    Apply { cap: i64 },
    /// Nothing is left to do.
    Done,
}

/// What a stream does next.
#[derive(Debug, Clone, Copy, PartialEq, Eq, Structural)]
pub enum StreamAction {
    /// Open the source and tell its version.
    OpenSource,
    /// Sleep for a second.
    SleepSecond,
    /// Apply the versions `first..=last`; there are none where `last < first`.
    Apply { first: i64, last: i64 },
    /// End the job.
    Finish,
}

/// Where a running stream stands.
#[derive(Debug, Clone, Copy, PartialEq, Eq, Structural)]
pub struct StreamPosition {
    /// The last version that has been applied.
    pub last_sunk: i64,
    pub phase: StreamPhase,
    /// The last version that is to be applied at all, if there is such a bound.
    pub end_version: Option<i64>,
    /// Whether to stop after one batch.
    pub once: bool,
    pub poll_interval_secs: u64,
    pub max_versions_per_batch: usize,
}

/// The last version to apply from a source at version `current`.
pub open spec fn apply_cap(end_version: Option<i64>, current: i64) -> i64 {
    match end_version {
        Some(end) => if end < current {
            end
        } else {
            current
        },
        None => current,
    }
}

/// The version that a stream starts behind: the one before the requested start or, where no
/// start is requested, the one in the saved checkpoint, if any.
pub open spec fn start_behind(start_version: Option<i64>, saved: Option<Checkpoint>) -> int {
    match start_version {
        Some(v) => v - 1,
        None => match saved {
            Some(c) => c.last_sunk_version as int,
            None => -1,
        },
    }
}

impl StreamPosition {
    /// What a stream does next that is not cancelled.
    pub open spec fn next_action(&self) -> StreamAction {
        match self.phase {
            StreamPhase::Look => StreamAction::OpenSource,
            StreamPhase::Wait { seconds } => if seconds > 0 {
                StreamAction::SleepSecond
            } else {
                StreamAction::OpenSource
            },
            StreamPhase::Apply { cap } => if self.last_sunk < cap {
                StreamAction::Apply {
                    first: (self.last_sunk + 1) as i64,
                    last: batch_end(
                        self.last_sunk as int,
                        cap as int,
                        self.max_versions_per_batch as int,
                    ) as i64,
                }
            } else {
                StreamAction::OpenSource
            },
            StreamPhase::Done => StreamAction::Finish,
        }
    }

    /// What a stream does next, which ends where it is cancelled.
    pub open spec fn next_step(&self, cancelled: bool) -> StreamAction {
        if cancelled {
            StreamAction::Finish
        } else {
            self.next_action()
        }
    }

    /// The stream after its source was opened at version `current`: it applies what is new, and
    /// waits or ends where nothing is.
    pub open spec fn after_opened(self, current: i64) -> StreamPosition {
        let cap = apply_cap(self.end_version, current);
        StreamPosition {
            phase: if self.last_sunk < cap {
                StreamPhase::Apply { cap }
            } else if self.once {
                StreamPhase::Done
            } else {
                StreamPhase::Wait { seconds: self.poll_interval_secs }
            },
            ..self
        }
    }

    /// The stream after a second has passed.
    pub open spec fn after_second(self) -> StreamPosition {
        StreamPosition {
            phase: match self.phase {
                StreamPhase::Wait { seconds } if seconds > 0 => StreamPhase::Wait {
                    seconds: (seconds - 1) as u64,
                },
                phase => phase,
            },
            ..self
        }
    }

    /// The stream after the versions up to `last` have been applied: it ends where one batch was
    /// asked for.
    pub open spec fn after_applied(self, last: i64) -> StreamPosition {
        StreamPosition {
            last_sunk: last,
            phase: if self.once {
                StreamPhase::Done
            } else {
                self.phase
            },
            ..self
        }
    }
}

/// A running stream.
#[derive(Debug)]
pub struct StreamLoop {
    position: StreamPosition,
}

impl View for StreamLoop {
    type V = StreamPosition;

    closed spec fn view(&self) -> StreamPosition {
        self.position
    }
}

impl StreamLoop {
    /// A stream that has yet to look at its source. `saved` is the checkpoint of an earlier
    /// run, if there is one.
    pub fn new(launch: &SinkLaunchConfig, saved: Option<Checkpoint>) -> (r: Self)
        requires
            launch.start_version != Some(i64::MIN),
        ensures
            r@.last_sunk == start_behind(launch.start_version, saved),
            r@.phase == StreamPhase::Look,
            r@.end_version == launch.end_version,
            r@.once == launch.once,
            r@.poll_interval_secs == launch.poll_interval_secs,
            r@.max_versions_per_batch == launch.max_versions_per_batch,
    {
        let last_sunk: i64 = match launch.start_version {
            Some(v) => v - 1,
            None => match saved {
                Some(c) => c.last_sunk_version,
                None => -1,
            },
        };
        StreamLoop {
            position: StreamPosition {
                last_sunk,
                phase: StreamPhase::Look,
                end_version: launch.end_version,
                once: launch.once,
                poll_interval_secs: launch.poll_interval_secs,
                max_versions_per_batch: launch.max_versions_per_batch,
            },
        }
    }

    /// What to do next. A cancelled stream ends before it does anything more.
    pub fn next(&self, cancelled: bool) -> (r: StreamAction)
        ensures
            r == self@.next_step(cancelled),
    {
        if cancelled {
            return StreamAction::Finish;
        }
        match self.position.phase {
            StreamPhase::Look => StreamAction::OpenSource,
            StreamPhase::Wait { seconds } => if seconds > 0 {
                StreamAction::SleepSecond
            } else {
                StreamAction::OpenSource
            },
            StreamPhase::Apply { cap } => if self.position.last_sunk < cap {
                let max: i128 = self.position.max_versions_per_batch as i128;
                let end: i128 = self.position.last_sunk as i128 + max;
                let last: i64 = if end <= cap as i128 {
                    end as i64
                } else {
                    cap
                };
                StreamAction::Apply { first: self.position.last_sunk + 1, last }
            } else {
                StreamAction::OpenSource
            },
            StreamPhase::Done => StreamAction::Finish,
        }
    }

    /// Takes in that the source was opened at version `current`.
    pub fn opened(&mut self, current: i64)
        ensures
            final(self)@ == old(self)@.after_opened(current),
    {
        let cap: i64 = match self.position.end_version {
            Some(end) => if end < current {
                end
            } else {
                current
            },
            None => current,
        };
        self.position.phase =
        if self.position.last_sunk < cap {
            StreamPhase::Apply { cap }
        } else if self.position.once {
            StreamPhase::Done
        } else {
            StreamPhase::Wait { seconds: self.position.poll_interval_secs }
        };
    }

    /// Takes in that a second has passed.
    pub fn slept(&mut self)
        ensures
            final(self)@ == old(self)@.after_second(),
    {
        if let StreamPhase::Wait { seconds } = self.position.phase {
            if seconds > 0 {
                self.position.phase = StreamPhase::Wait { seconds: seconds - 1 };
            }
        }
    }

    /// Takes in that the versions up to `last` have been applied, and gives the checkpoint to
    /// be saved.
    pub fn applied(&mut self, last: i64) -> (r: Checkpoint)
        ensures
            final(self)@ == old(self)@.after_applied(last),
            r.last_sunk_version == last,
    {
        self.position.last_sunk = last;
        if self.position.once {
            self.position.phase = StreamPhase::Done;
        }
        Checkpoint { last_sunk_version: last }
    }

    /// Where the stream stands.
    pub fn position(&self) -> (r: StreamPosition)
        ensures
            r == self@,
    {
        self.position
    }
}

/// A stream that is about to apply versions applies the first of the batches that cover them,
/// and once it has, the others are left.
pub proof fn lemma_stream_applies_batches(s: StreamPosition, cap: i64)
    requires
        s.phase == (StreamPhase::Apply { cap }),
        s.max_versions_per_batch >= 1,
    ensures
        ({
            let max = s.max_versions_per_batch as int;
            let left = batches(s.last_sunk as int, cap as int, max);
            match s.next_action() {
                StreamAction::Apply { first, last } => {
                    &&& left.len() > 0
                    &&& left[0] == (first as int, last as int)
                    &&& first <= last <= cap
                    &&& batches(last as int, cap as int, max) == left.skip(1)
                },
                action => left.len() == 0 && action == StreamAction::OpenSource,
            }
        }),
{
    if s.last_sunk < cap {
        lemma_stream_resumes(s.last_sunk as int, cap as int, s.max_versions_per_batch as int, 1);
    }
}

/// A stream that is to apply one batch ends when it has, and also when there is nothing to
/// apply.
pub proof fn lemma_once_applies_one_batch(s: StreamPosition, current: i64, last: i64)
    requires
        s.once,
    ensures
        s.after_applied(last).next_action() == StreamAction::Finish,
        s.last_sunk >= apply_cap(s.end_version, current) ==> s.after_opened(current).next_action()
            == StreamAction::Finish,
{
}

/// A stream applies no version that the source does not have yet, none behind the requested end,
/// and none that it has applied before.
pub proof fn lemma_applies_only_what_is_due(s: StreamPosition, current: i64)
    requires
        s.max_versions_per_batch >= 1,
    ensures
        s.after_opened(current).next_action() matches StreamAction::Apply { first, last } ==> {
            &&& s.last_sunk < first <= last <= current
            &&& s.end_version matches Some(end) ==> last <= end
        },
{
}

/// A stream whose source has nothing new waits for the configured time and then looks again.
pub proof fn lemma_idle_stream_polls(s: StreamPosition, current: i64)
    requires
        !s.once,
        s.last_sunk >= apply_cap(s.end_version, current),
    ensures
        s.after_opened(current).phase == (StreamPhase::Wait { seconds: s.poll_interval_secs }),
        forall|seconds: u64|
            (#[trigger] StreamPosition { phase: StreamPhase::Wait { seconds }, ..s }.next_action())
                == (if seconds > 0 {
                StreamAction::SleepSecond
            } else {
                StreamAction::OpenSource
            }),
{
}

// ---------------------------------------------------------------------------
// What the dashboard shows of a stream
// ---------------------------------------------------------------------------

/// A range of versions.
pub open spec fn range_label(first: int, last: int) -> Seq<char> {
    "v"@ + text::decimal_int(first) + "..=v"@ + text::decimal_int(last)
}

/// A range of versions.
pub fn version_range_label(first: i64, last: i64) -> (r: String)
    ensures
        r@ == range_label(first as int, last as int),
{
    let mut r = "v".to_string();
    text::push_i64(&mut r, first);
    r.append("..=v");
    text::push_i64(&mut r, last);
    r
}

/// Shows that everything up to version `current` has been applied.
pub fn show_caught_up(s: &mut SinkState, current: i64)
    ensures
        final(s).status@ == "Idle (caught up at v"@ + text::decimal_int(current as int) + ")"@,
        *final(s) == (SinkState { status: final(s).status, ..*old(s) }),
{
    let mut status = "Idle (caught up at v".to_string();
    text::push_i64(&mut status, current);
    status.append(")");
    s.status = status;
}

/// Shows that the versions `first..=last` are being applied.
pub fn show_streaming(s: &mut SinkState, first: i64, last: i64)
    ensures
        final(s).status@ == "Streaming "@ + range_label(first as int, last as int),
        *final(s) == (SinkState { status: final(s).status, ..*old(s) }),
{
    let mut status = "Streaming ".to_string();
    status.append(version_range_label(first, last).as_str());
    s.status = status;
}

/// Shows that the versions `first..=last` are still being applied, after so many seconds.
pub fn show_heartbeat(
    s: &mut SinkState,
    mode: &SinkMode,
    first: i64,
    last: i64,
    seconds: u64,
    tick: u64,
)
    ensures
        final(s).status@ == mode.name_text() + " "@ + range_label(first as int, last as int)
            + " in progress ("@ + text::decimal(seconds as nat) + "s, tick #"@ + text::decimal(
            tick as nat,
        ) + ")"@,
        *final(s) == (SinkState { status: final(s).status, ..*old(s) }),
{
    let mut status = mode.name().to_string();
    status.append(" ");
    status.append(version_range_label(first, last).as_str());
    status.append(" in progress (");
    text::push_u64(&mut status, seconds);
    status.append("s, tick #");
    text::push_u64(&mut status, tick);
    status.append(")");
    s.status = status;
}

/// Shows the dashboard of a program that has no job yet.
pub fn show_no_job(s: &mut DashboardState)
    ensures
        final(s).app_mode@ == "stream-cli"@,
        final(s).sink.status@ == "Idle (no job running)"@,
        *final(s) == (DashboardState {
            app_mode: final(s).app_mode,
            sink: SinkState {
                enabled: true,
                status: final(s).sink.status,
                running: false,
                ..old(s).sink
            },
            ..*old(s)
        }),
{
    s.app_mode = "stream-cli".to_string();
    s.sink.enabled = true;
    s.sink.status = "Idle (no job running)".to_string();
    s.sink.running = false;
}

/// Why a job failed: a short message, and the same with its causes.
#[derive(Debug, Clone, PartialEq, Eq)]
pub struct JobFailure {
    pub summary: String,
    pub details: String,
}

/// Shows that a stream has been asked to stop.
pub fn show_stopping(s: &mut SinkState)
    ensures
        final(s).status@ == "Stopping..."@,
        *final(s) == (SinkState { status: final(s).status, ..*old(s) }),
{
    s.status = "Stopping...".to_string();
}

// ---------------------------------------------------------------------------
// One job at a time
// ---------------------------------------------------------------------------

/// The name of a stream job.
pub const STREAM_JOB: &'static str = "stream";

/// The name of a job that creates a table.
pub const CREATE_TABLE_JOB: &'static str = "create-table";

/// Which job is running now. There is one such slot, which all who start jobs share, so it is not
/// copied.
#[derive(Debug)]
pub struct ActiveJobGate {
    current: Option<&'static str>,
}

impl View for ActiveJobGate {
    type V = Option<Seq<char>>;

    closed spec fn view(&self) -> Option<Seq<char>> {
        match self.current {
            Some(kind) => Some(kind@),
            None => None,
        }
    }
}

/// Why job `kind` cannot start while job `running` is running.
pub open spec fn busy_text(running: Seq<char>, kind: Seq<char>) -> Seq<char> {
    if running == kind {
        "a "@ + running + " job is already running; stop it first"@
    } else {
        "another job ("@ + running + ") is already running; stop it before starting "@ + kind
    }
}

/// The job slot after job `kind` has asked to start.
pub open spec fn gate_acquired(gate: Option<Seq<char>>, kind: Seq<char>) -> Option<Seq<char>> {
    match gate {
        Some(running) => Some(running),
        None => Some(kind),
    }
}

/// The job slot after job `kind` has ended.
pub open spec fn gate_released(gate: Option<Seq<char>>, kind: Seq<char>) -> Option<Seq<char>> {
    if gate == Some(kind) {
        None
    } else {
        gate
    }
}

impl ActiveJobGate {
    /// No job is running.
    pub fn new() -> (r: Self)
        ensures
            r@ is None,
    {
        ActiveJobGate { current: None }
    }

    /// Lets job `kind` start where no job is running.
    pub fn acquire(&mut self, kind: &'static str) -> (r: Result<(), String>)
        ensures
            final(self)@ == gate_acquired(old(self)@, kind@),
            match old(self)@ {
                None => r is Ok,
                Some(running) => r matches Err(message) && message@ == busy_text(running, kind@),
            },
    {
        match self.current {
            None => {
                self.current = Some(kind);
                Ok(())
            },
            Some(running) => {
                let mut message = String::new();
                if text::same_text(running, kind) {
                    message.append("a ");
                    message.append(running);
                    message.append(" job is already running; stop it first");
                } else {
                    message.append("another job (");
                    message.append(running);
                    message.append(") is already running; stop it before starting ");
                    message.append(kind);
                }
                assert(message@ =~= busy_text(running@, kind@));
                Err(message)
            },
        }
    }

    /// Takes in that job `kind` has ended.
    pub fn release(&mut self, kind: &'static str)
        ensures
            final(self)@ == gate_released(old(self)@, kind@),
    {
        if let Some(running) = self.current {
            if text::same_text(running, kind) {
                self.current = None;
            }
        }
    }

    /// The job that is running.
    pub fn current(&self) -> (r: Option<&'static str>)
        ensures
            match r {
                Some(kind) => self@ == Some(kind@),
                None => self@ is None,
            },
    {
        self.current
    }
}

/// Jobs run one after the other: while one is running no other starts and none but itself can
/// end it, and once it has ended any other can start.
pub proof fn lemma_jobs_one_after_the_other(
    gate: Option<Seq<char>>,
    running: Seq<char>,
    other: Seq<char>,
)
    requires
        gate == Some(running),
    ensures
        gate_acquired(gate, other) == gate,
        other != running ==> gate_released(gate, other) == gate,
        gate_acquired(gate_released(gate, running), other) == Some(other),
{
}

// ---------------------------------------------------------------------------
// Starting and stopping a stream
// ---------------------------------------------------------------------------

/// The backends of a job, the source's first, that are not among those registered.
pub open spec fn newly_registered(registered: Seq<Backend>, source: Backend, target: Backend) -> Seq<
    Backend,
> {
    let first = if registered.contains(source) {
        Seq::empty()
    } else {
        seq![source]
    };
    if source != target && !registered.contains(target) {
        first.push(target)
    } else {
        first
    }
}

/// The backends of a job for which no handler has been registered yet.
pub fn backends_to_register(registered: &Vec<Backend>, source: Backend, target: Backend) -> (r: Vec<
    Backend,
>)
    ensures
        r@ == newly_registered(registered@, source, target),
{
    let mut r: Vec<Backend> = Vec::new();
    if !config::is_registered(registered, source) {
        r.push(source);
    }
    if source != target && !config::is_registered(registered, target) {
        r.push(target);
    }
    assert(r@ =~= newly_registered(registered@, source, target));
    r
}

/// What is known of a stream job before its transform has been compiled.
#[derive(Debug, Clone)]
pub struct PreparedStream {
    pub source_backend: Backend,
    pub target_backend: Backend,
    /// The backends for which a handler is to be registered.
    pub to_register: Vec<Backend>,
    pub source_storage_options: Vec<(String, String)>,
    pub target_storage_options: Vec<(String, String)>,
    /// The source of the transform that is to be compiled, if there is one.
    pub transform_source: Option<String>,
}

/// Why a stream job cannot start.
#[derive(Debug, Clone, PartialEq, Eq)]
pub enum StartError {
    /// A stream is running.
    AlreadyRunning,
    /// The source or the target is not named.
    UrisRequired,
    /// Another job is running; this is the message of the job slot.
    Busy(String),
    /// The source's storage cannot be accessed.
    SourceStorage(ConfigError),
    /// The target's storage cannot be accessed.
    TargetStorage(ConfigError),
    /// The transform does not compile; this is the compiler's message.
    Transform(String),
    /// The mode is not described properly.
    Mode(SinkError),
}

impl StartError {
    /// The message that the user is shown.
    pub open spec fn text(&self) -> Seq<char> {
        match self {
            StartError::AlreadyRunning => "a sink job is already running; stop it first"@,
            StartError::UrisRequired => "source_uri and target_uri are required"@,
            StartError::Busy(message) => message@,
            StartError::SourceStorage(e) => "source storage opts: "@ + e.text(),
            StartError::TargetStorage(e) => "target storage opts: "@ + e.text(),
            StartError::Transform(message) => "rust transform: "@ + message@,
            StartError::Mode(e) => "parse_mode: "@ + e.text(),
        }
    }

    /// The message that the user is shown.
    pub fn message(&self) -> (r: String)
        ensures
            r@ == self.text(),
    {
        match self {
            StartError::AlreadyRunning => "a sink job is already running; stop it first".to_string(),
            StartError::UrisRequired => "source_uri and target_uri are required".to_string(),
            StartError::Busy(message) => message.clone(),
            StartError::SourceStorage(e) => {
                let mut r = "source storage opts: ".to_string();
                r.append(e.message().as_str());
                r
            },
            StartError::TargetStorage(e) => {
                let mut r = "target storage opts: ".to_string();
                r.append(e.message().as_str());
                r
            },
            StartError::Transform(message) => {
                let mut r = "rust transform: ".to_string();
                r.append(message.as_str());
                r
            },
            StartError::Mode(e) => {
                let mut r = "parse_mode: ".to_string();
                r.append(e.message().as_str());
                r
            },
        }
    }
}

/// The storage options of the table at `uri`.
pub open spec fn options_of(uri: Seq<char>, azure_auth: Seq<char>, env: StorageEnv) -> Option<
    Seq<(Seq<char>, Seq<char>)>,
> {
    config::storage_options(
        uri,
        config::resolved_auth(config::normalised_auth(azure_auth), env),
        env,
    )
}

/// Whether `e` tells why the table at `uri` has no storage options.
pub open spec fn is_options_error(
    e: ConfigError,
    azure_auth: Seq<char>,
    env: StorageEnv,
) -> bool {
    config::is_auth_error(
        e,
        config::resolved_auth(config::normalised_auth(azure_auth), env),
    )
}

/// Whether a source and a target are named.
pub open spec fn has_uris(cfg: SinkLaunchConfig) -> bool {
    cfg.source_uri@.len() > 0 && cfg.target_uri@.len() > 0
}

/// The transform source that is given, where it is not blank.
pub open spec fn given_transform(cfg: SinkLaunchConfig) -> Option<String> {
    if sink::given_query(cfg.merge_transform_rust) {
        cfg.merge_transform_rust
    } else {
        None
    }
}

/// The transform source that is given, where it is not blank.
pub fn transform_to_compile(cfg: &SinkLaunchConfig) -> (r: Option<String>)
    ensures
        r == given_transform(*cfg),
{
    match &cfg.merge_transform_rust {
        Some(source) => if text::trim(source.as_str()).as_str().is_empty() {
            None
        } else {
            Some(source.clone())
        },
        None => None,
    }
}

/// Begins to start a stream: takes the job slot, finds the handlers to register and makes the
/// storage options. `running` tells whether a stream is running, `registered` which backends
/// have a handler. Where it fails, the job slot is as it was before.
pub fn begin_stream(
    gate: &mut ActiveJobGate,
    running: bool,
    registered: &mut Vec<Backend>,
    cfg: &SinkLaunchConfig,
    env: &StorageEnv,
) -> (r: Result<PreparedStream, StartError>)
    ensures
        ({
            let source = config::backend_of(cfg.source_uri@);
            let target = config::backend_of(cfg.target_uri@);
            let source_options = options_of(cfg.source_uri@, cfg.azure_auth@, *env);
            let target_options = options_of(cfg.target_uri@, cfg.azure_auth@, *env);
            let passes = !running && has_uris(*cfg) && old(gate)@ is None;
            &&& final(registered)@ == (if passes {
                old(registered)@ + newly_registered(old(registered)@, source, target)
            } else {
                old(registered)@
            })
            &&& match r {
                Ok(p) => {
                    &&& passes
                    &&& final(gate)@ == Some("stream"@)
                    &&& p.source_backend == source
                    &&& p.target_backend == target
                    &&& p.to_register@ == newly_registered(old(registered)@, source, target)
                    &&& source_options == Some(
                        config::option_views(p.source_storage_options@),
                    )
                    &&& target_options == Some(
                        config::option_views(p.target_storage_options@),
                    )
                    &&& p.transform_source == given_transform(*cfg)
                },
                Err(e) => final(gate)@ == old(gate)@ && match e {
                    StartError::AlreadyRunning => running,
                    StartError::UrisRequired => !running && !has_uris(*cfg),
                    StartError::Busy(message) => !running && has_uris(*cfg) && old(gate)@ is Some
                        && message@ == busy_text(old(gate)@->0, "stream"@),
                    StartError::SourceStorage(e) => passes && source_options is None
                        && is_options_error(e, cfg.azure_auth@, *env),
                    StartError::TargetStorage(e) => passes && source_options is Some
                        && target_options is None && is_options_error(e, cfg.azure_auth@, *env),
                    _ => false,
                },
            }
        }),
{
    if running {
        return Err(StartError::AlreadyRunning);
    }
    if cfg.source_uri.as_str().is_empty() || cfg.target_uri.as_str().is_empty() {
        return Err(StartError::UrisRequired);
    }
    if let Err(message) = gate.acquire(STREAM_JOB) {
        return Err(StartError::Busy(message));
    }
    let source_backend = Backend::detect(cfg.source_uri.as_str());
    let target_backend = Backend::detect(cfg.target_uri.as_str());
    let to_register = backends_to_register(registered, source_backend, target_backend);
    let n: usize = to_register.len();
    let ghost before = registered@;
    for i in 0..n
        invariant
            n == to_register.len(),
            registered@ == before + to_register@.take(i as int),
    {
        registered.push(to_register[i]);
        assert(to_register@.take(i + 1) =~= to_register@.take(i as int).push(
            to_register@[i as int],
        ));
        assert(registered@ =~= before + to_register@.take(i + 1));
    }
    assert(to_register@.take(n as int) =~= to_register@);
    let source_storage_options = match config::build_storage_options(
        cfg.source_uri.as_str(),
        cfg.azure_auth.as_str(),
        env,
    ) {
        Ok(options) => options,
        Err(e) => {
            gate.release(STREAM_JOB);
            return Err(StartError::SourceStorage(e));
        },
    };
    let target_storage_options = match config::build_storage_options(
        cfg.target_uri.as_str(),
        cfg.azure_auth.as_str(),
        env,
    ) {
        Ok(options) => options,
        Err(e) => {
            gate.release(STREAM_JOB);
            return Err(StartError::TargetStorage(e));
        },
    };
    let transform_source = transform_to_compile(cfg);
    Ok(
        PreparedStream {
            source_backend,
            target_backend,
            to_register,
            source_storage_options,
            target_storage_options,
            transform_source,
        },
    )
}

/// Whether `r` is the mode of the stream that `cfg` describes, with the given transform.
pub open spec fn launched_mode(
    cfg: SinkLaunchConfig,
    transform: Option<TransformLib>,
    r: Result<SinkMode, SinkError>,
) -> bool {
    sink::is_parsed_mode(
        cfg.sink_mode@,
        cfg.merge_keys@,
        cfg.merge_update_columns@,
        cfg.merge_update_predicate,
        cfg.merge_delete_predicate,
        cfg.merge_insert_predicate,
        cfg.merge_dedupe_order_by,
        cfg.merge_transform_sql,
        transform,
        r,
    )
}

/// Finishes the start of a stream, once its transform, if it has one, has been compiled or has
/// failed to. Where it fails, the job slot is free again.
pub fn finish_stream(
    gate: &mut ActiveJobGate,
    prepared: PreparedStream,
    cfg: &SinkLaunchConfig,
    transform: Result<Option<TransformLib>, String>,
) -> (r: Result<SinkConfig, StartError>)
    ensures
        match r {
            Ok(sc) => {
                &&& final(gate)@ == old(gate)@
                &&& transform matches Ok(lib)
                &&& launched_mode(*cfg, lib, Ok(sc.mode))
                &&& sc.source_uri == cfg.source_uri
                &&& sc.target_uri == cfg.target_uri
                &&& sc.source_storage_options == prepared.source_storage_options
                &&& sc.target_storage_options == prepared.target_storage_options
                &&& sc.read_concurrency == cfg.read_concurrency
            },
            Err(StartError::Transform(message)) => final(gate)@ == gate_released(
                old(gate)@,
                "stream"@,
            ) && transform == Err::<Option<TransformLib>, String>(message),
            Err(StartError::Mode(e)) => {
                &&& final(gate)@ == gate_released(old(gate)@, "stream"@)
                &&& transform matches Ok(lib)
                &&& launched_mode(*cfg, lib, Err(e))
            },
            Err(_) => false,
        },
{
    let lib = match transform {
        Ok(lib) => lib,
        Err(message) => {
            gate.release(STREAM_JOB);
            return Err(StartError::Transform(message));
        },
    };
    match sink::parse_mode(
        cfg.sink_mode.as_str(),
        cfg.merge_keys.as_str(),
        cfg.merge_update_columns.as_str(),
        text::copy_option(&cfg.merge_update_predicate),
        text::copy_option(&cfg.merge_delete_predicate),
        text::copy_option(&cfg.merge_insert_predicate),
        text::copy_option(&cfg.merge_dedupe_order_by),
        text::copy_option(&cfg.merge_transform_sql),
        lib,
    ) {
        Ok(mode) => Ok(
            SinkConfig {
                source_uri: cfg.source_uri.clone(),
                target_uri: cfg.target_uri.clone(),
                source_storage_options: prepared.source_storage_options,
                target_storage_options: prepared.target_storage_options,
                mode,
                read_concurrency: cfg.read_concurrency,
            },
        ),
        Err(e) => {
            gate.release(STREAM_JOB);
            Err(StartError::Mode(e))
        },
    }
}

/// Whether `new` shows what `old` does and that the stream of `cfg` has been started.
pub open spec fn shows_started(
    old: DashboardState,
    cfg: SinkLaunchConfig,
    mode: SinkMode,
    new: DashboardState,
) -> bool {
    &&& new.backend@ == config::backend_of(cfg.source_uri@).label_text()
    &&& new.sink.mode@ == mode.name_text()
    &&& new.sink.target_backend@ == config::backend_of(cfg.target_uri@).label_text()
    &&& new.sink.status@ == "Starting..."@
    &&& new.sink.last_error@ == Seq::<char>::empty()
    &&& new == (DashboardState {
        table_uri: cfg.source_uri,
        backend: new.backend,
        sink: SinkState {
            enabled: true,
            running: true,
            last_error: new.sink.last_error,
            mode: new.sink.mode,
            target_uri: cfg.target_uri,
            target_backend: new.sink.target_backend,
            status: new.sink.status,
            launch_config: Some(cfg),
            ..old.sink
        },
        ..old
    })
}

/// Shows that a stream has been started.
pub fn show_stream_started(
    s: &mut DashboardState,
    cfg: &SinkLaunchConfig,
    mode: &SinkMode,
)
    ensures
        shows_started(*old(s), *cfg, *mode, *final(s)),
{
    s.table_uri = cfg.source_uri.clone();
    s.backend = Backend::detect(cfg.source_uri.as_str()).label().to_string();
    s.sink.enabled = true;
    s.sink.running = true;
    s.sink.last_error = String::new();
    s.sink.mode = mode.name().to_string();
    s.sink.target_uri = cfg.target_uri.clone();
    s.sink.target_backend = Backend::detect(cfg.target_uri.as_str()).label().to_string();
    s.sink.status = "Starting...".to_string();
    s.sink.launch_config = Some(cfg.clone());
}

/// Whether `r` is what comes of starting the stream that `cfg` describes, where the job slot
/// holds `gate`, `running` tells whether a stream is running and `transform` what came of
/// compiling its transform.
pub open spec fn start_result(
    gate: Option<Seq<char>>,
    running: bool,
    cfg: SinkLaunchConfig,
    env: StorageEnv,
    transform: Result<Option<TransformLib>, String>,
    r: Result<SinkConfig, StartError>,
) -> bool {
    let source_options = options_of(cfg.source_uri@, cfg.azure_auth@, env);
    let target_options = options_of(cfg.target_uri@, cfg.azure_auth@, env);
    let passes = !running && has_uris(cfg) && gate is None;
    let prepared = passes && source_options is Some && target_options is Some;
    match r {
        Ok(sc) => {
            &&& prepared
            &&& transform matches Ok(lib)
            &&& launched_mode(cfg, lib, Ok(sc.mode))
            &&& sc.source_uri == cfg.source_uri
            &&& sc.target_uri == cfg.target_uri
            &&& source_options == Some(config::option_views(sc.source_storage_options@))
            &&& target_options == Some(config::option_views(sc.target_storage_options@))
            &&& sc.read_concurrency == cfg.read_concurrency
        },
        Err(StartError::AlreadyRunning) => running,
        Err(StartError::UrisRequired) => !running && !has_uris(cfg),
        Err(StartError::Busy(message)) => !running && has_uris(cfg) && gate is Some && message@
            == busy_text(gate->0, "stream"@),
        Err(StartError::SourceStorage(e)) => passes && source_options is None
            && is_options_error(e, cfg.azure_auth@, env),
        Err(StartError::TargetStorage(e)) => passes && source_options is Some && target_options
            is None && is_options_error(e, cfg.azure_auth@, env),
        Err(StartError::Transform(message)) => prepared && transform == Err::<
            Option<TransformLib>,
            String,
        >(message),
        Err(StartError::Mode(e)) => {
            &&& prepared
            &&& transform matches Ok(lib)
            &&& launched_mode(cfg, lib, Err(e))
        },
    }
}

/// The job slot after a stream was to be started: taken where it has started, and as it was
/// where it has not.
pub open spec fn gate_after_start(
    gate: Option<Seq<char>>,
    r: Result<SinkConfig, StartError>,
) -> Option<Seq<char>> {
    if r is Ok {
        Some("stream"@)
    } else {
        gate
    }
}

/// What is kept of the streams from one to the next.
#[derive(Debug)]
pub struct Controller {
    /// The backends that have a handler.
    pub registered: Vec<Backend>,
}

impl Controller {
    /// No stream has been started yet.
    pub fn new() -> (r: Self)
        ensures
            r.registered@ == Seq::<Backend>::empty(),
    {
        Controller { registered: Vec::new() }
    }

    /// Starts a stream, as far as that is a matter of the job slot, the configuration and the
    /// dashboard. `running` tells whether a stream is running, `transform` what came of compiling
    /// the transform, where there is one. The backends that are added to those registered get
    /// their handlers, also where the start fails behind that.
    pub fn start(
        &mut self,
        gate: &mut ActiveJobGate,
        running: bool,
        s: &mut DashboardState,
        cfg: &SinkLaunchConfig,
        env: &StorageEnv,
        transform: Result<Option<TransformLib>, String>,
    ) -> (r: Result<SinkConfig, StartError>)
        ensures
            start_result(old(gate)@, running, *cfg, *env, transform, r),
            final(gate)@ == gate_after_start(old(gate)@, r),
            final(self).registered@ == (if !running && has_uris(*cfg) && old(gate)@ is None {
                old(self).registered@ + newly_registered(
                    old(self).registered@,
                    config::backend_of(cfg.source_uri@),
                    config::backend_of(cfg.target_uri@),
                )
            } else {
                old(self).registered@
            }),
            match r {
                Ok(sc) => shows_started(*old(s), *cfg, sc.mode, *final(s)),
                Err(_) => *final(s) == *old(s),
            },
    {
        let prepared = match begin_stream(gate, running, &mut self.registered, cfg, env) {
            Ok(prepared) => prepared,
            Err(e) => {
                return Err(e);
            },
        };
        match finish_stream(gate, prepared, cfg, transform) {
            Ok(sc) => {
                show_stream_started(s, cfg, &sc.mode);
                Ok(sc)
            },
            Err(e) => Err(e),
        }
    }
}

/// A stream that could not be started does not stand in the way of the next: while no job is
/// running, the next start is not refused for one that runs, whatever came of the first.
pub proof fn lemma_failed_start_leaves_slot_free(
    first: SinkLaunchConfig,
    first_transform: Result<Option<TransformLib>, String>,
    first_error: StartError,
    next: SinkLaunchConfig,
    next_transform: Result<Option<TransformLib>, String>,
    env: StorageEnv,
    r: Result<SinkConfig, StartError>,
)
    requires
        start_result(None, false, first, env, first_transform, Err(first_error)),
        start_result(
            gate_after_start(None, Err(first_error)),
            false,
            next,
            env,
            next_transform,
            r,
        ),
    ensures
        gate_after_start(None, Err(first_error)) is None,
        r matches Err(e) ==> !(e is AlreadyRunning) && !(e is Busy),
        r is Ok ==> gate_after_start(None, r) == Some("stream"@),
{
}

/// Whether `new` is `old` after the stream has ended by itself, and why where it failed.
pub open spec fn shows_ended(old: SinkState, failure: Option<JobFailure>, new: SinkState) -> bool {
    match failure {
        Some(f) => new.status@ == "Error: "@ + f.summary@ && new == (SinkState {
            status: new.status,
            last_error: f.details,
            running: false,
            ..old
        }),
        None => new.status@ == "Stopped"@ && new == (SinkState {
            status: new.status,
            running: false,
            ..old
        }),
    }
}

/// An ended stream is shown as not running. The reason of a failure is shown with its details, and
/// all that was counted stays.
pub proof fn lemma_shows_ended(old: SinkState, failure: Option<JobFailure>, new: SinkState)
    requires
        shows_ended(old, failure, new),
    ensures
        !new.running,
        failure matches Some(f) ==> text::occurs_in(new.status@, f.summary@) && new.last_error
            == f.details,
        failure is None ==> new.status@ == "Stopped"@ && new.last_error == old.last_error,
        new.enabled == old.enabled && new.mode == old.mode && new.target_uri == old.target_uri,
        new.batches_processed == old.batches_processed && new.total_inserts == old.total_inserts,
        new.total_updates == old.total_updates && new.total_deletes == old.total_deletes,
        new.total_appended == old.total_appended && new.target_version == old.target_version,
        new.events == old.events && new.launch_config == old.launch_config,
{
    if let Some(f) = failure {
        let none = Seq::<char>::empty();
        text::lemma_occurs_within("Error: "@, f.summary@, none);
        assert("Error: "@ + f.summary@ + none =~= new.status@);
    }
}

/// Takes in that a stream has ended by itself, and why where it failed.
pub fn end_stream(gate: &mut ActiveJobGate, s: &mut SinkState, failure: &Option<JobFailure>)
    ensures
        final(gate)@ == gate_released(old(gate)@, "stream"@),
        !final(s).running,
        shows_ended(*old(s), *failure, *final(s)),
{
    match failure {
        Some(f) => {
            s.last_error = f.details.clone();
            let mut status = "Error: ".to_string();
            status.append(f.summary.as_str());
            s.status = status;
        },
        None => {
            s.status = "Stopped".to_string();
        },
    }
    s.running = false;
    gate.release(STREAM_JOB);
}

/// How long a job that is asked to stop may take to do so, in seconds, before it is aborted.
pub const STOP_TIMEOUT_SECS: u64 = 10;

/// Whether a stream can be stopped: only one that is running.
pub fn stop_stream(running: bool) -> (r: Result<(), String>)
    ensures
        r is Ok <==> running,
        r matches Err(message) ==> message@ == "no sink job is currently running"@,
{
    if running {
        Ok(())
    } else {
        Err("no sink job is currently running".to_string())
    }
}

/// Takes in that a stream has stopped after it was asked to. One that had to be aborted cannot
/// free the job slot itself.
pub fn stream_stopped(gate: &mut ActiveJobGate, s: &mut SinkState, aborted: bool)
    ensures
        final(gate)@ == (if aborted {
            gate_released(old(gate)@, "stream"@)
        } else {
            old(gate)@
        }),
        final(s).status@ == "Stopped"@,
        *final(s) == (SinkState { status: final(s).status, running: false, ..*old(s) }),
{
    s.status = "Stopped".to_string();
    s.running = false;
    if aborted {
        gate.release(STREAM_JOB);
    }
}

// ---------------------------------------------------------------------------
// Starting and stopping the creation of a table
// ---------------------------------------------------------------------------

/// Why the creation of a table cannot start, if it cannot. `running` tells whether one is
/// running.
pub open spec fn create_refusal(
    gate: Option<Seq<char>>,
    running: bool,
    cfg: CreateTableLaunchConfig,
) -> Option<Seq<char>> {
    if running {
        Some("a create-table job is already running"@)
    } else if cfg.uri@.len() == 0 {
        Some("uri is required"@)
    } else {
        match gate {
            Some(job) => Some(busy_text(job, "create-table"@)),
            None => None,
        }
    }
}

/// Begins the creation of a table: takes the job slot and clears what the dashboard shows of an
/// earlier one.
pub fn begin_create(
    gate: &mut ActiveJobGate,
    running: bool,
    s: &mut DashboardState,
    cfg: &CreateTableLaunchConfig,
) -> (r: Result<(), String>)
    ensures
        match create_refusal(old(gate)@, running, *cfg) {
            Some(why) => {
                &&& r matches Err(message)
                &&& message@ == why
                &&& final(gate)@ == old(gate)@
                &&& *final(s) == *old(s)
            },
            None => {
                let shown = final(s).create_table;
                &&& r is Ok
                &&& final(gate)@ == Some("create-table"@)
                &&& final(s).active_job matches Some(job)
                &&& job@ == "create-table"@
                &&& *final(s) == (DashboardState {
                    create_table: shown,
                    active_job: Some(job),
                    ..*old(s)
                })
                &&& shown.running
                &&& shown.target_uri == cfg.uri
                &&& shown.status@ == "Starting..."@
                &&& shown.total_commits == cfg.commits
                &&& shown.total_rows == cfg.rows
                &&& shown.launch_config == Some(*cfg)
                &&& shown.last_error@ == Seq::<char>::empty()
                &&& shown.optimize_status@ == Seq::<char>::empty()
                &&& shown.commits_done == 0 && shown.rows_written == 0 && shown.last_commit_ms == 0
            },
        },
{
    if running {
        return Err("a create-table job is already running".to_string());
    }
    if cfg.uri.as_str().is_empty() {
        return Err("uri is required".to_string());
    }
    if let Err(message) = gate.acquire(CREATE_TABLE_JOB) {
        return Err(message);
    }
    s.create_table = CreateTableState {
        running: true,
        status: "Starting...".to_string(),
        last_error: String::new(),
        target_uri: cfg.uri.clone(),
        commits_done: 0,
        total_commits: cfg.commits,
        rows_written: 0,
        total_rows: cfg.rows as u64,
        last_commit_ms: 0,
        optimize_status: String::new(),
        launch_config: Some(cfg.clone()),
    };
    s.active_job = Some(CREATE_TABLE_JOB.to_string());
    Ok(())
}

/// Whether `new` is `old` after the creation of a table has ended by itself, and why where it failed.
pub open spec fn shows_created(
    old: CreateTableState,
    failure: Option<JobFailure>,
    new: CreateTableState,
) -> bool {
    match failure {
        Some(f) => new.status@ == "Error: "@ + f.summary@ && new == (CreateTableState {
            status: new.status,
            last_error: f.details,
            running: false,
            ..old
        }),
        None => new == (CreateTableState { running: false, ..old }),
    }
}

/// An ended creation is shown as not running. The reason of a failure is shown with its details;
/// without one the status stays as the job left it. All that was counted stays.
pub proof fn lemma_shows_created(
    old: CreateTableState,
    failure: Option<JobFailure>,
    new: CreateTableState,
)
    requires
        shows_created(old, failure, new),
    ensures
        !new.running,
        failure matches Some(f) ==> text::occurs_in(new.status@, f.summary@) && new.last_error
            == f.details,
        failure is None ==> new.status == old.status && new.last_error == old.last_error,
        new.target_uri == old.target_uri && new.commits_done == old.commits_done,
        new.total_commits == old.total_commits && new.rows_written == old.rows_written,
        new.total_rows == old.total_rows && new.optimize_status == old.optimize_status,
        new.launch_config == old.launch_config,
{
    if let Some(f) = failure {
        let none = Seq::<char>::empty();
        text::lemma_occurs_within("Error: "@, f.summary@, none);
        assert("Error: "@ + f.summary@ + none =~= new.status@);
    }
}

/// Takes in that the creation of a table has ended by itself, and why where it failed.
pub fn end_create(gate: &mut ActiveJobGate, s: &mut DashboardState, failure: &Option<JobFailure>)
    ensures
        final(gate)@ == gate_released(old(gate)@, "create-table"@),
        *final(s) == (DashboardState {
            create_table: final(s).create_table,
            active_job: None,
            ..*old(s)
        }),
        shows_created(old(s).create_table, *failure, final(s).create_table),
{
    if let Some(f) = failure {
        s.create_table.last_error = f.details.clone();
        let mut status = "Error: ".to_string();
        status.append(f.summary.as_str());
        s.create_table.status = status;
    }
    s.create_table.running = false;
    s.active_job = None;
    gate.release(CREATE_TABLE_JOB);
}

/// Whether the creation of a table can be stopped: only one that is running.
pub fn stop_create(running: bool) -> (r: Result<(), String>)
    ensures
        r is Ok <==> running,
        r matches Err(message) ==> message@ == "no create-table job is currently running"@,
{
    if running {
        Ok(())
    } else {
        Err("no create-table job is currently running".to_string())
    }
}

/// Shows that the creation of a table has been asked to stop.
pub fn show_create_stopping(s: &mut CreateTableState)
    ensures
        final(s).status@ == "Stopping..."@,
        *final(s) == (CreateTableState { status: final(s).status, ..*old(s) }),
{
    s.status = "Stopping...".to_string();
}

/// Takes in that the creation of a table has stopped after it was asked to. One that had to be
/// aborted cannot free the job slot itself.
pub fn create_stopped(gate: &mut ActiveJobGate, s: &mut CreateTableState, aborted: bool)
    ensures
        final(gate)@ == (if aborted {
            gate_released(old(gate)@, "create-table"@)
        } else {
            old(gate)@
        }),
        final(s).status@ == "Stopped"@,
        *final(s) == (CreateTableState { status: final(s).status, running: false, ..*old(s) }),
{
    s.status = "Stopped".to_string();
    s.running = false;
    if aborted {
        gate.release(CREATE_TABLE_JOB);
    }
}

// ---------------------------------------------------------------------------
// The command line
// ---------------------------------------------------------------------------

/// The arguments of the command that streams.
#[derive(Debug, Clone)]
pub struct StreamArgs {
    /// The source table; where it is not given, a job is configured on the dashboard.
    pub source_uri: Option<String>,
    /// The target table; where it is not given, a job is configured on the dashboard.
    pub target_uri: Option<String>,
    pub sink_mode: String,
    pub merge_keys: String,
    pub merge_update_columns: String,
    pub merge_update_predicate: Option<String>,
    pub merge_delete_predicate: Option<String>,
    pub merge_insert_predicate: Option<String>,
    pub merge_dedupe_order_by: Option<String>,
    pub merge_transform_sql: Option<String>,
    /// A file with the body of a transform. Excludes `merge_transform_sql`.
    pub merge_transform_rust_file: Option<String>,
    pub start_version: Option<i64>,
    pub end_version: Option<i64>,
    /// Apply one batch and exit.
    pub once: bool,
    pub poll_interval_secs: u64,
    pub checkpoint_file: String,
    pub max_versions_per_batch: usize,
    pub read_concurrency: usize,
    pub azure_auth: String,
    pub dashboard_bind: String,
}

impl StreamArgs {
    /// The job that the arguments describe, which starts at once: one is described where both a
    /// source and a target are given. `transform_source` is the content of the transform file.
    pub fn launch(&self, transform_source: Option<String>) -> (r: Option<SinkLaunchConfig>)
        ensures
            r == (match (self.source_uri, self.target_uri) {
                (Some(source_uri), Some(target_uri)) => Some(
                    SinkLaunchConfig {
                        source_uri,
                        target_uri,
                        sink_mode: self.sink_mode,
                        merge_keys: self.merge_keys,
                        merge_update_columns: self.merge_update_columns,
                        merge_update_predicate: self.merge_update_predicate,
                        merge_delete_predicate: self.merge_delete_predicate,
                        merge_insert_predicate: self.merge_insert_predicate,
                        merge_dedupe_order_by: self.merge_dedupe_order_by,
                        merge_transform_sql: self.merge_transform_sql,
                        merge_transform_rust: transform_source,
                        start_version: self.start_version,
                        end_version: self.end_version,
                        once: self.once,
                        poll_interval_secs: self.poll_interval_secs,
                        max_versions_per_batch: self.max_versions_per_batch,
                        read_concurrency: self.read_concurrency,
                        azure_auth: self.azure_auth,
                        checkpoint_file: self.checkpoint_file,
                    },
                ),
                _ => None,
            }),
    {
        match (&self.source_uri, &self.target_uri) {
            (Some(source_uri), Some(target_uri)) => Some(
                SinkLaunchConfig {
                    source_uri: source_uri.clone(),
                    target_uri: target_uri.clone(),
                    sink_mode: self.sink_mode.clone(),
                    merge_keys: self.merge_keys.clone(),
                    merge_update_columns: self.merge_update_columns.clone(),
                    merge_update_predicate: text::copy_option(&self.merge_update_predicate),
                    merge_delete_predicate: text::copy_option(&self.merge_delete_predicate),
                    merge_insert_predicate: text::copy_option(&self.merge_insert_predicate),
                    merge_dedupe_order_by: text::copy_option(&self.merge_dedupe_order_by),
                    merge_transform_sql: text::copy_option(&self.merge_transform_sql),
                    merge_transform_rust: transform_source,
                    start_version: self.start_version,
                    end_version: self.end_version,
                    once: self.once,
                    poll_interval_secs: self.poll_interval_secs,
                    max_versions_per_batch: self.max_versions_per_batch,
                    read_concurrency: self.read_concurrency,
                    azure_auth: self.azure_auth.clone(),
                    checkpoint_file: self.checkpoint_file.clone(),
                },
            ),
            _ => None,
        }
    }
}

/// A job that failed to start or has ended, also one that had to be aborted, leaves the job slot
/// free for any other.
pub proof fn lemma_next_job_can_start(gate: Option<Seq<char>>, job: Seq<char>, next: Seq<char>)
    requires
        gate is None || gate == Some(job),
    ensures
        gate_released(gate_acquired(gate, job), job) is None,
        gate_acquired(gate_released(gate, job), next) == Some(next),
{
}

// ---------------------------------------------------------------------------
// What a stream is for
// ---------------------------------------------------------------------------

/// Where a start is requested, the first version that a stream applies is that one, whatever an
/// earlier run has saved. Where none is, it is the one behind the last that was applied, and the
/// first of all where nothing was saved.
pub proof fn lemma_stream_starts_where_asked(
    start: Option<i64>,
    saved: Option<Checkpoint>,
    s: StreamPosition,
    current: i64,
)
    requires
        s.last_sunk == start_behind(start, saved),
        s.max_versions_per_batch >= 1,
    ensures
        start matches Some(v) ==> s.last_sunk + 1 == v,
        start is None ==> (saved matches Some(c) ==> s.last_sunk == c.last_sunk_version),
        start is None && saved is None ==> s.last_sunk == -1,
        s.after_opened(current).next_action() matches StreamAction::Apply { first, .. } ==> {
            &&& start matches Some(v) ==> first == v
            &&& start is None ==> (saved matches Some(c) ==> first == c.last_sunk_version + 1)
            &&& start is None && saved is None ==> first == 0
        },
{
}

/// A stream that is not yet at the requested end, nor at the last version of its source, applies
/// the next versions: as many as a batch holds, and fewer only where the end or the source does not
/// have so many.
pub proof fn lemma_stream_applies_full_batches(s: StreamPosition, current: i64)
    requires
        s.max_versions_per_batch >= 1,
        s.last_sunk < current,
        s.end_version matches Some(end) ==> s.last_sunk < end,
    ensures
        s.after_opened(current).next_action() matches StreamAction::Apply { first, last } && {
            &&& first == s.last_sunk + 1
            &&& first <= last <= current
            &&& s.end_version matches Some(end) ==> last <= end
            &&& last - first + 1 <= s.max_versions_per_batch
            &&& last - first + 1 < s.max_versions_per_batch ==> last == current || s.end_version
                == Some(last)
        },
{
}

/// A stream that has applied a batch goes on behind it: with the next versions that were found, or
/// with another look at the source, and never with one that it has applied.
pub proof fn lemma_stream_goes_on(s: StreamPosition, last: i64)
    requires
        !s.once,
        s.max_versions_per_batch >= 1,
    ensures
        s.after_applied(last).last_sunk == last,
        s.after_applied(last).next_action() matches StreamAction::Apply { first, .. } ==> first
            == last + 1,
        s.phase matches StreamPhase::Apply { cap } ==> (s.after_applied(last).next_action() is Apply
            <==> last < cap),
        s.phase matches StreamPhase::Apply { cap } ==> last >= cap ==> s.after_applied(
            last,
        ).next_action() == StreamAction::OpenSource,
{
}

/// No step of a stream changes what was asked of it, and none but the application of versions
/// changes what it has applied.
pub proof fn lemma_steps_keep_settings(s: StreamPosition, current: i64, last: i64)
    ensures
        ({
            let a = s.after_opened(current);
            let b = s.after_second();
            let c = s.after_applied(last);
            &&& a.end_version == s.end_version && b.end_version == s.end_version && c.end_version
                == s.end_version
            &&& a.once == s.once && b.once == s.once && c.once == s.once
            &&& a.poll_interval_secs == s.poll_interval_secs && b.poll_interval_secs
                == s.poll_interval_secs && c.poll_interval_secs == s.poll_interval_secs
            &&& a.max_versions_per_batch == s.max_versions_per_batch && b.max_versions_per_batch
                == s.max_versions_per_batch && c.max_versions_per_batch == s.max_versions_per_batch
            &&& a.last_sunk == s.last_sunk && b.last_sunk == s.last_sunk
        }),
{
}

/// The stream after so many seconds.
pub open spec fn after_seconds(s: StreamPosition, n: nat) -> StreamPosition
    decreases n,
{
    if n == 0 {
        s
    } else {
        after_seconds(s, (n - 1) as nat).after_second()
    }
}

/// A stream that waits looks at its source again after as many seconds as it has to wait, and not
/// before.
pub proof fn lemma_stream_waits(s: StreamPosition, seconds: u64, n: nat)
    requires
        s.phase == (StreamPhase::Wait { seconds }),
        n <= seconds,
    ensures
        after_seconds(s, n).phase == (StreamPhase::Wait { seconds: (seconds - n) as u64 }),
        after_seconds(s, n).next_action() == (if n < seconds {
            StreamAction::SleepSecond
        } else {
            StreamAction::OpenSource
        }),
    decreases n,
{
    if n > 0 {
        lemma_stream_waits(s, seconds, (n - 1) as nat);
    }
}

/// The last version to apply is the requested end or the last of the source, whichever comes
/// first.
pub proof fn lemma_apply_cap(end_version: Option<i64>, current: i64)
    ensures
        apply_cap(end_version, current) <= current,
        end_version matches Some(end) ==> apply_cap(end_version, current) <= end,
        apply_cap(end_version, current) == current || Some(apply_cap(end_version, current))
            == end_version,
{
}

/// Every batch but the last is full.
pub proof fn lemma_batches_are_full(last: int, cap: int, max: int, k: int)
    requires
        0 <= k < batches(last, cap, max).len(),
    ensures
        batches(last, cap, max)[k].1 - batches(last, cap, max)[k].0 + 1 == max || batches(
            last,
            cap,
            max,
        )[k].1 == cap,
        batches(last, cap, max)[k].0 == (if k == 0 {
            last + 1
        } else {
            batches(last, cap, max)[k - 1].1 + 1
        }),
    decreases k,
{
    let bs = batches(last, cap, max);
    if k > 0 {
        let end = batch_end(last, cap, max);
        let rest = batches(end, cap, max);
        assert(bs[k] == rest[k - 1]);
        if k > 1 {
            assert(bs[k - 1] == rest[k - 2]);
        }
        lemma_batches_are_full(end, cap, max, k - 1);
    }
}

/// A range of versions holds every version from the first to the last, in order.
pub proof fn lemma_version_range(first: int, last: int, v: int)
    ensures
        version_range(first, last).contains(v) <==> first <= v <= last,
        forall|i: int| 0 <= i < version_range(first, last).len() ==> #[trigger] version_range(
            first,
            last,
        )[i] == first + i,
{
    if first <= v <= last {
        assert(version_range(first, last)[v - first] == v);
    }
}

/// The label of a range names its first and its last version.
pub proof fn lemma_range_label(first: int, last: int)
    ensures
        ({
            let a = "v"@ + text::decimal_int(first);
            &&& range_label(first, last).take(a.len() as int) == a
            &&& range_label(first, last).skip(a.len() as int) == "..=v"@ + text::decimal_int(last)
        }),
{
    let a = "v"@ + text::decimal_int(first);
    let b = "..=v"@ + text::decimal_int(last);
    assert(range_label(first, last) =~= a + b);
    assert(range_label(first, last).take(a.len() as int) =~= a);
    assert(range_label(first, last).skip(a.len() as int) =~= b);
}

// ---------------------------------------------------------------------------
// What the start of a job is for
// ---------------------------------------------------------------------------

/// Once the handlers of a job have been registered, both of its backends have one, those that had
/// one still do, and no other does; none is registered a second time.
pub proof fn lemma_both_backends_get_handlers(
    registered: Seq<Backend>,
    source: Backend,
    target: Backend,
    b: Backend,
)
    ensures
        (registered + newly_registered(registered, source, target)).contains(b)
            <==> registered.contains(b) || b == source || b == target,
        newly_registered(registered, source, target).contains(b) ==> !registered.contains(b),
        newly_registered(registered, source, target).no_duplicates(),
{
    let new = newly_registered(registered, source, target);
    let all = registered + new;
    assert(new.len() > 0 ==> new.contains(new[0]));
    if registered.contains(b) {
        let k = registered.index_of(b);
        assert(all[k] == b);
    }
    if !registered.contains(source) {
        assert(new[0] == source);
        assert(all[registered.len() as int] == source);
        assert(new.contains(source));
    }
    if source != target && !registered.contains(target) {
        assert(new[new.len() - 1] == target);
        assert(all[all.len() - 1] == target);
        assert(new.contains(target));
    }
    if all.contains(b) && !registered.contains(b) {
        let k = all.index_of(b);
        if k < registered.len() {
            assert(registered[k] == b);
        } else {
            assert(new[k - registered.len()] == b);
        }
    }
}

/// A stream that nothing speaks against starts: with the tables, the options and the mode that were
/// asked for, and with the number of files to read at a time.
pub proof fn lemma_good_start_succeeds(
    cfg: SinkLaunchConfig,
    env: StorageEnv,
    lib: Option<TransformLib>,
    r: Result<SinkConfig, StartError>,
)
    requires
        cfg.source_uri@.len() > 0,
        cfg.target_uri@.len() > 0,
        options_of(cfg.source_uri@, cfg.azure_auth@, env) is Some,
        options_of(cfg.target_uri@, cfg.azure_auth@, env) is Some,
        start_result(None, false, cfg, env, Ok(lib), r),
    ensures
        match r {
            Ok(sc) => {
                &&& sc.source_uri == cfg.source_uri
                &&& sc.target_uri == cfg.target_uri
                &&& Some(config::option_views(sc.source_storage_options@)) == options_of(
                    cfg.source_uri@,
                    cfg.azure_auth@,
                    env,
                )
                &&& Some(config::option_views(sc.target_storage_options@)) == options_of(
                    cfg.target_uri@,
                    cfg.azure_auth@,
                    env,
                )
                &&& sc.read_concurrency == cfg.read_concurrency
                &&& launched_mode(cfg, lib, Ok(sc.mode))
            },
            Err(StartError::Mode(e)) => launched_mode(cfg, lib, Err(e)),
            Err(_) => false,
        },
{
}

/// While a job is running no stream starts, and none starts without a source and a target.
pub proof fn lemma_refused_starts(
    gate: Option<Seq<char>>,
    running: bool,
    cfg: SinkLaunchConfig,
    env: StorageEnv,
    transform: Result<Option<TransformLib>, String>,
    r: Result<SinkConfig, StartError>,
)
    requires
        start_result(gate, running, cfg, env, transform, r),
        running || gate is Some || cfg.source_uri@.len() == 0 || cfg.target_uri@.len() == 0,
    ensures
        r is Err,
        gate_after_start(gate, r) == gate,
{
}

/// A stream is started with what was asked for: the user's predicates, keys, columns, order and
/// transforms go into the merge as they are.
pub proof fn lemma_launched_merge(
    cfg: SinkLaunchConfig,
    transform: Option<TransformLib>,
    spec: sink::MergeSpec,
)
    requires
        launched_mode(cfg, transform, Ok(SinkMode::Merge(spec))),
    ensures
        text::lower(cfg.sink_mode@) == "merge"@,
        spec.when_matched_update_predicate == cfg.merge_update_predicate,
        spec.when_matched_delete_predicate == cfg.merge_delete_predicate,
        spec.when_not_matched_insert_predicate == cfg.merge_insert_predicate,
        text::views(spec.keys@) == text::trimmed_pieces(cfg.merge_keys@, ','),
        text::views(spec.update_columns@) == text::trimmed_pieces(cfg.merge_update_columns@, ','),
        spec.transform_rust == transform,
        cfg.merge_transform_sql matches Some(q) ==> text::trimmed(q@).len() > 0
            ==> spec.transform_sql == cfg.merge_transform_sql,
        cfg.merge_dedupe_order_by matches Some(c) ==> c@.len() > 0 ==> spec.dedupe_order_by
            == cfg.merge_dedupe_order_by,
{
}

/// The same request has the same options, whichever table of a stream it is for, and a local table
/// needs none.
pub proof fn lemma_options_of(uri: Seq<char>, azure_auth: Seq<char>, env: StorageEnv)
    ensures
        options_of(uri, azure_auth, env) == config::storage_options(
            uri,
            config::resolved_auth(config::normalised_auth(azure_auth), env),
            env,
        ),
        config::backend_of(uri) == Backend::LocalFs ==> options_of(uri, azure_auth, env) == Some(
            Seq::<(Seq<char>, Seq<char>)>::empty(),
        ),
{
}

/// A transform is compiled as it is given, unless it is blank.
pub proof fn lemma_given_transform(cfg: SinkLaunchConfig)
    ensures
        cfg.merge_transform_rust is None ==> given_transform(cfg) is None,
        cfg.merge_transform_rust matches Some(t) ==> given_transform(cfg) == (if text::trimmed(
            t@,
        ).len() > 0 {
            Some(t)
        } else {
            None
        }),
{
}

/// The creation of a table is refused where one is running, where no table is named and where
/// another job is running, and in no other case.
pub proof fn lemma_create_refused(
    gate: Option<Seq<char>>,
    running: bool,
    cfg: CreateTableLaunchConfig,
)
    ensures
        create_refusal(gate, running, cfg) is Some <==> running || cfg.uri@.len() == 0 || gate is Some,
{
}

/// A job slot lets a job in where it is free and in no other case, and is freed by the job that
/// holds it alone.
pub proof fn lemma_job_slot(gate: Option<Seq<char>>, kind: Seq<char>)
    ensures
        gate is None ==> gate_acquired(gate, kind) == Some(kind) && gate_released(gate, kind)
            is None,
        gate matches Some(running) ==> gate_acquired(gate, kind) == Some(running),
        gate == Some(kind) ==> gate_released(gate, kind) is None,
        gate != Some(kind) ==> gate_released(gate, kind) == gate,
{
}

/// Why a job cannot start names the job that is running, and the one that was to start where that
/// is another.
pub proof fn lemma_busy_text(running: Seq<char>, kind: Seq<char>)
    ensures
        text::occurs_in(busy_text(running, kind), running),
        text::occurs_in(busy_text(running, kind), kind),
{
    let none = Seq::<char>::empty();
    if running == kind {
        text::lemma_occurs_within("a "@, running, " job is already running; stop it first"@);
    } else {
        let tail = ") is already running; stop it before starting "@ + kind;
        text::lemma_occurs_within("another job ("@, running, tail);
        assert("another job ("@ + running + tail =~= busy_text(running, kind));
        let head = "another job ("@ + running
            + ") is already running; stop it before starting "@;
        text::lemma_occurs_within(head, kind, none);
        assert(head + kind + none =~= busy_text(running, kind));
    }
}

/// The dashboard shows a stream that has been started with its tables and its mode, as running and
/// without an error, and keeps what it shows of everything else.
pub proof fn lemma_shows_started(
    old: DashboardState,
    cfg: SinkLaunchConfig,
    mode: SinkMode,
    new: DashboardState,
)
    requires
        shows_started(old, cfg, mode, new),
    ensures
        new.table_uri == cfg.source_uri,
        new.backend@ == config::backend_of(cfg.source_uri@).label_text(),
        new.sink.target_uri == cfg.target_uri,
        new.sink.target_backend@ == config::backend_of(cfg.target_uri@).label_text(),
        new.sink.mode@ == mode.name_text(),
        new.sink.running && new.sink.enabled,
        new.sink.last_error@.len() == 0,
        new.sink.launch_config == Some(cfg),
        new.sink.events == old.sink.events && new.sink.total_inserts == old.sink.total_inserts
            && new.sink.total_updates == old.sink.total_updates && new.sink.total_deletes
            == old.sink.total_deletes && new.sink.total_appended == old.sink.total_appended,
        new.consumer == old.consumer && new.producer == old.producer && new.create_table
            == old.create_table,
{
}

/// A cancelled stream ends wherever it stands, and one that is not cancelled ends only where it is
/// done.
pub proof fn lemma_cancelled_stream_ends(s: StreamPosition)
    ensures
        s.next_step(true) is Finish,
        s.next_step(false) is Finish <==> s.phase is Done,
{
}

/// A stream that is started anew from the checkpoint of its last batch goes on where it was, unless
/// another start is asked for.
pub proof fn lemma_restarted_stream_goes_on(s: StreamPosition, last: i64, c: Checkpoint, v: i64)
    requires
        c.last_sunk_version == last,
    ensures
        start_behind(None, Some(c)) == s.after_applied(last).last_sunk,
        start_behind(Some(v), Some(c)) == v - 1,
        start_behind(None, None) == -1,
{
}

/// A wait that is over stays over.
pub proof fn lemma_wait_ends(s: StreamPosition)
    requires
        s.phase == (StreamPhase::Wait { seconds: 0 }),
    ensures
        s.after_second() == s,
        s.next_action() is OpenSource,
{
}

} // verus!
