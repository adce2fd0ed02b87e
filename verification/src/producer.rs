//! The demo producer, which writes batches of random size.

use vstd::prelude::*;

use crate::clock;
use crate::random;
use crate::state;
use crate::state::{ProducerEvent, ProducerState, RollingAverage};

verus! {

/// How a batch is written.
#[derive(Debug, Clone, Copy, PartialEq, Eq, Structural)]
pub enum WriteMode {
    /// Behind the rows that are there.
    Append,
    /// In place of the rows that are there; the table is created where there is none.
    Overwrite,
}

/// How far a producer has come.
#[derive(Debug, Clone)]
pub struct ProducerProgress {
    /// The number of batches written.
    pub batches: usize,
    /// The rows of these batches.
    pub total_rows: u64,
    /// The durations of the last writes.
    pub durations: RollingAverage,
}

/// What a finished write brings to the dashboard.
#[derive(Debug, Clone, Copy, PartialEq, Eq, Structural)]
pub struct ProducerUpdate {
    /// The number of the batch, from 0 on.
    pub batch: usize,
    pub rows: u64,
    pub total_rows: u64,
    pub version: i64,
    pub duration_ms: u64,
    pub avg_duration_ms: u64,
}

/// The number of rows of the next batch: any from `min` to `max`.
pub fn next_batch_rows(rng: &mut rand::rngs::StdRng, min: usize, max: usize) -> (r: usize)
    requires
        min <= max,
    ensures
        min <= r <= max,
{
    random::draw(rng, min as i128, max as i128) as usize
}

/// Whether `new` is `old` after a batch of `rows` rows was written as `version`, and `u` is what the
/// dashboard is to show.
pub open spec fn batch_recorded(
    old: ProducerProgress,
    rows: u64,
    version: i64,
    duration_ms: u64,
    new: ProducerProgress,
    u: ProducerUpdate,
) -> bool {
    &&& new.batches == old.batches + 1
    &&& new.total_rows == old.total_rows + rows
    &&& new.durations.values@ == state::pushed_within(
        old.durations.values@,
        duration_ms,
        state::AVERAGE_WINDOW as nat,
    )
    &&& u == (ProducerUpdate {
        batch: old.batches,
        rows,
        total_rows: new.total_rows,
        version,
        duration_ms,
        avg_duration_ms: state::mean(new.durations.values@) as u64,
    })
    &&& u.avg_duration_ms == state::mean(new.durations.values@)
}

/// A written batch is counted once, with all its rows. Its duration is the newest of the last
/// hundred, and the dashboard gets the totals that include it.
pub proof fn lemma_batch_recorded(
    old: ProducerProgress,
    rows: u64,
    version: i64,
    duration_ms: u64,
    new: ProducerProgress,
    u: ProducerUpdate,
)
    requires
        batch_recorded(old, rows, version, duration_ms, new, u),
        old.durations.values@.len() <= 100,
    ensures
        new.batches - old.batches == 1,
        new.total_rows - old.total_rows == rows,
        0 < new.durations.values@.len() <= 100,
        old.durations.values@.len() < 100 ==> new.durations.values@.len()
            == old.durations.values@.len() + 1,
        new.durations.values@.last() == duration_ms,
        u.batch == old.batches && u.rows == rows && u.total_rows == old.total_rows + rows,
        u.version == version && u.duration_ms == duration_ms,
        u.avg_duration_ms * new.durations.values@.len() <= state::total(new.durations.values@) < (
        u.avg_duration_ms + 1) * new.durations.values@.len(),
{
    state::lemma_average_window(old.durations.values@, duration_ms);
    state::lemma_mean(new.durations.values@, duration_ms);
}

impl ProducerProgress {
    /// Nothing has been written yet.
    pub fn new() -> (r: Self)
        ensures
            r.batches == 0,
            r.total_rows == 0,
            r.durations.values@ == Seq::<u64>::empty(),
    {
        ProducerProgress { batches: 0, total_rows: 0, durations: RollingAverage::new() }
    }

    /// How the next batch is written: the first replaces what is there, the others are appended.
    pub fn write_mode(&self) -> (r: WriteMode)
        ensures
            r == (if self.batches == 0 {
                WriteMode::Overwrite
            } else {
                WriteMode::Append
            }),
    {
        if self.batches == 0 {
            WriteMode::Overwrite
        } else {
            WriteMode::Append
        }
    }

    /// Whether the counters have room for a batch of `rows` rows.
    pub fn can_record(&self, rows: usize) -> (r: bool)
        ensures
            r == (self.batches < usize::MAX && self.total_rows + rows <= u64::MAX),
    {
        self.batches < usize::MAX && rows as u64 <= u64::MAX - self.total_rows
    }

    /// Takes in that a batch of `rows` rows was written as `version`.
    pub fn record(&mut self, rows: usize, version: i64, duration_ms: u64) -> (u: ProducerUpdate)
        requires
            old(self).batches < usize::MAX,
            old(self).total_rows + rows <= u64::MAX,
        ensures
            batch_recorded(*old(self), rows as u64, version, duration_ms, *final(self), u),
    {
        let batch: usize = self.batches;
        self.batches = self.batches + 1;
        self.total_rows = self.total_rows + rows as u64;
        let avg_duration_ms = self.durations.record(duration_ms);
        ProducerUpdate {
            batch,
            rows: rows as u64,
            total_rows: self.total_rows,
            version,
            duration_ms,
            avg_duration_ms,
        }
    }
}

/// Whether `new` is `old` after the update `u` at time `timestamp`.
pub open spec fn producer_updated(
    old: ProducerState,
    u: ProducerUpdate,
    timestamp: String,
    new: ProducerState,
) -> bool {
    &&& new.status@ == "Writing"@
    &&& new.batches_written == (u.batch + 1) as u32
    &&& new.total_batches == old.total_batches
    &&& new.total_rows_written == u.total_rows
    &&& new.current_version == u.version
    &&& new.last_write_duration_ms == u.duration_ms
    &&& new.avg_write_duration_ms == u.avg_duration_ms
    &&& new.events@ == state::pushed_within(
        old.events@,
        ProducerEvent {
            timestamp,
            batch_id: u.batch as u32,
            rows: u.rows,
            version: u.version,
            duration_ms: u.duration_ms,
        },
        state::MAX_EVENTS as nat,
    )
}

/// Shows a write that was finished at `timestamp`.
pub fn update_producer_state_at(s: &mut ProducerState, u: &ProducerUpdate, timestamp: String)
    requires
        u.batch < usize::MAX,
    ensures
        producer_updated(*old(s), *u, timestamp, *final(s)),
{
    s.status = "Writing".to_string();
    s.batches_written = (u.batch + 1) as u32;
    s.total_rows_written = u.total_rows;
    s.current_version = u.version;
    s.last_write_duration_ms = u.duration_ms;
    s.avg_write_duration_ms = u.avg_duration_ms;
    let event = ProducerEvent {
        timestamp,
        batch_id: u.batch as u32,
        rows: u.rows,
        version: u.version,
        duration_ms: u.duration_ms,
    };
    state::push_within(&mut s.events, event, state::MAX_EVENTS);
}

/// Shows a write that has just been finished.
pub fn update_producer_state(s: &mut ProducerState, u: &ProducerUpdate)
    requires
        u.batch < usize::MAX,
    ensures
        exists|timestamp: String|
            clock::time_of_day(timestamp@) && #[trigger] producer_updated(
                *old(s),
                *u,
                timestamp,
                *final(s),
            ),
{
    let timestamp = clock::utc_clock_seconds();
    let ghost shown = timestamp;
    update_producer_state_at(s, u, timestamp);
    assert(producer_updated(*old(s), *u, shown, *s));
}

/// A finished write is shown: the counts and durations are those of the write, the batches are one
/// more than its number, its event is the newest, and no more than fifty events are held.
pub proof fn lemma_producer_shows_write(
    old: ProducerState,
    u: ProducerUpdate,
    timestamp: String,
    new: ProducerState,
)
    requires
        producer_updated(old, u, timestamp, new),
        u.batch < u32::MAX,
        old.events@.len() <= 50,
    ensures
        new.status@ == "Writing"@,
        new.batches_written == u.batch + 1,
        new.total_batches == old.total_batches,
        new.total_rows_written == u.total_rows,
        new.current_version == u.version,
        new.last_write_duration_ms == u.duration_ms,
        new.avg_write_duration_ms == u.avg_duration_ms,
        new.events@.len() <= 50,
        old.events@.len() < 50 ==> new.events@.drop_last() == old.events@,
        old.events@.len() == 50 ==> new.events@.drop_last() == old.events@.drop_first(),
        new.events@.last().timestamp == timestamp,
        new.events@.last().batch_id == u.batch,
        new.events@.last().rows == u.rows,
        new.events@.last().version == u.version,
        new.events@.last().duration_ms == u.duration_ms,
{
    if old.events@.len() < 50 {
        assert(new.events@.drop_last() =~= old.events@);
    } else {
        assert(new.events@.drop_last() =~= old.events@.drop_first());
    }
}

} // verus!
