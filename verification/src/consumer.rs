//! Adaptive change-data consumer.
//!
//! New commits of a table become units of work in three modes:
//!
//! - **single**: one commit is one unit
//! - **merged**: consecutive small commits are coalesced
//! - **split**: one large commit is cut into chunks of bounded size
//!
//! Progress is a checkpoint that is written after every unit, so that a consumer that stops
//! anywhere, in the middle of a split commit too, goes on with exactly the unit behind the
//! last one it finished.

use vstd::prelude::*;

use crate::clock;
use crate::config;
use crate::config::{Config, ConfigError, StorageEnv};
use crate::sink;
use crate::sink::{SinkConfig, SinkError, SinkMode};
use crate::state;
use crate::state::{
    ConsumerEvent, ConsumerState, DiskCheckpoint, RollingAverage, SinkState, TunableConfig,
};
use crate::text;
use crate::util;

verus! {

/// The largest number of commits in one merged unit.
pub const MAX_MERGE_VERSIONS: usize = 10;

// ---------------------------------------------------------------------------
// Commits, thresholds and units of work
// ---------------------------------------------------------------------------

/// A commit of the table and the number of rows that it adds.
#[derive(Debug, Clone, Copy, PartialEq, Eq, Structural)]
pub struct VersionInfo {
    pub version: i64,
    pub rows: u64,
}

/// The thresholds of one poll, none of them zero.
#[derive(Debug, Clone, Copy, PartialEq, Eq, Structural)]
pub struct Thresholds {
    /// A commit with more rows than this is split.
    pub split: u64,
    /// Merged commits hold at most this many rows together.
    pub merge: u64,
    /// The number of rows that a chunk aims at.
    pub chunk: u64,
}

/// The larger of `n` and 1.
pub open spec fn at_least_one(n: u64) -> u64 {
    if n < 1 {
        1
    } else {
        n
    }
}

impl Thresholds {
    /// No threshold is zero.
    pub open spec fn valid(self) -> bool {
        self.split >= 1 && self.merge >= 1 && self.chunk >= 1
    }

    /// The tunables as they are now, each raised to 1 where it is 0.
    pub fn new(tunables: &TunableConfig) -> (r: Self)
        ensures
            r.valid(),
            r.split == at_least_one(tunables.split_threshold_rows),
            r.merge == at_least_one(tunables.merge_threshold_rows),
            r.chunk == at_least_one(tunables.chunk_target_rows),
    {
        Thresholds {
            split: if tunables.split_threshold_rows < 1 {
                1
            } else {
                tunables.split_threshold_rows
            },
            merge: if tunables.merge_threshold_rows < 1 {
                1
            } else {
                tunables.merge_threshold_rows
            },
            chunk: if tunables.chunk_target_rows < 1 {
                1
            } else {
                tunables.chunk_target_rows
            },
        }
    }
}

/// One unit of work.
#[derive(Debug, Clone)]
pub enum WorkUnit {
    /// Chunk `index` of the `count` chunks of a split commit.
    Chunk { version: i64, index: u64, count: u64, rows: u64 },
    /// One commit, or several consecutive ones merged.
    Group { versions: Vec<i64>, rows: u64 },
}

/// A unit of work as a mathematical value.
pub enum Unit {
    /// Chunk `index` of the `count` chunks of a split commit.
    Chunk { version: int, index: int, count: int, rows: int },
    /// One commit, or several consecutive ones merged.
    Group { versions: Seq<i64>, rows: int },
}

impl View for WorkUnit {
    type V = Unit;

    open spec fn view(&self) -> Unit {
        match self {
            WorkUnit::Chunk { version, index, count, rows } => Unit::Chunk {
                version: *version as int,
                index: *index as int,
                count: *count as int,
                rows: *rows as int,
            },
            WorkUnit::Group { versions, rows } => Unit::Group {
                versions: versions@,
                rows: *rows as int,
            },
        }
    }
}

impl Unit {
    /// The rows of the unit.
    pub open spec fn row_count(self) -> int {
        match self {
            Unit::Chunk { rows, .. } => rows,
            Unit::Group { rows, .. } => rows,
        }
    }
}

// ---------------------------------------------------------------------------
// Chunks
// ---------------------------------------------------------------------------

/// The number of chunks that a split commit of `rows` rows is cut into: as many as chunks of
/// `target` rows take, and at least two.
pub open spec fn chunk_count(rows: int, target: int) -> int {
    let n = (rows + target - 1) / target;
    if n < 2 {
        2
    } else {
        n
    }
}

/// The rows of chunk `index`: equal shares, rounded down, and the rest in the last one.
pub open spec fn chunk_rows(rows: int, target: int, index: int) -> int {
    let n = chunk_count(rows, target);
    if index + 1 == n {
        rows - (rows / n) * (n - 1)
    } else {
        rows / n
    }
}

/// The rows of the first `k` chunks together.
pub open spec fn rows_of_chunks(rows: int, target: int, k: int) -> int
    decreases k,
{
    if k <= 0 {
        0
    } else {
        rows_of_chunks(rows, target, k - 1) + chunk_rows(rows, target, k - 1)
    }
}

/// The first `k` chunks, the last one not among them, hold equal shares.
proof fn lemma_rows_of_first_chunks(rows: int, target: int, k: int)
    requires
        0 <= rows,
        1 <= target,
        0 <= k < chunk_count(rows, target),
    ensures
        rows_of_chunks(rows, target, k) == k * (rows / chunk_count(rows, target)),
    decreases k,
{
    let n = chunk_count(rows, target);
    if k > 0 {
        lemma_rows_of_first_chunks(rows, target, k - 1);
        assert(k * (rows / n) == (k - 1) * (rows / n) + rows / n) by (nonlinear_arith);
    } else {
        assert(k * (rows / n) == 0) by (nonlinear_arith)
            requires
                k == 0,
        ;
    }
}

/// The chunks of a split commit hold its rows, none of them twice and none left out.
pub proof fn lemma_chunks_hold_all_rows(rows: int, target: int)
    requires
        0 <= rows,
        1 <= target,
    ensures
        rows_of_chunks(rows, target, chunk_count(rows, target)) == rows,
{
    let n = chunk_count(rows, target);
    lemma_rows_of_first_chunks(rows, target, n - 1);
    assert((n - 1) * (rows / n) == (rows / n) * (n - 1)) by (nonlinear_arith);
}

/// A split commit has at least two chunks. No chunk but the last is larger than the target,
/// and the last holds less than one row per chunk more than the others.
pub proof fn lemma_chunk_bounds(rows: int, target: int, index: int)
    requires
        0 <= rows,
        1 <= target,
        0 <= index < chunk_count(rows, target),
    ensures
        chunk_count(rows, target) >= 2,
        0 <= chunk_rows(rows, target, index) <= rows,
        index + 1 < chunk_count(rows, target) ==> chunk_rows(rows, target, index) <= target,
        rows / chunk_count(rows, target) <= chunk_rows(rows, target, index) < rows / chunk_count(
            rows,
            target,
        ) + chunk_count(rows, target),
{
    let n = chunk_count(rows, target);
    let q = rows / n;
    assert(n * q + rows % n == rows && 0 <= rows % n < n && q >= 0) by {
        vstd::arithmetic::div_mod::lemma_fundamental_div_mod(rows, n);
        vstd::arithmetic::div_mod::lemma_mod_bound(rows, n);
        vstd::arithmetic::div_mod::lemma_div_pos_is_pos(rows, n);
    }
    assert(q * (n - 1) == n * q - q) by (nonlinear_arith);
    assert(n * q >= 2 * q) by (nonlinear_arith)
        requires
            n >= 2,
            q >= 0,
    ;
    let m = (rows + target - 1) / target;
    assert(target * m >= rows) by {
        vstd::arithmetic::div_mod::lemma_fundamental_div_mod(rows + target - 1, target);
        vstd::arithmetic::div_mod::lemma_mod_bound(rows + target - 1, target);
    }
    assert(q <= target) by (nonlinear_arith)
        requires
            n >= m,
            n >= 2,
            n * q <= rows,
            target * m >= rows,
            target >= 1,
            q >= 0,
    ;
}

/// The number of chunks of a split commit.
fn count_chunks(rows: u64, target: u64) -> (n: u64)
    requires
        target >= 1,
    ensures
        n == chunk_count(rows as int, target as int),
{
    let whole: u64 = rows / target;
    let rest: u64 = rows % target;
    let n: u64 = if rest == 0 {
        whole
    } else {
        proof {
            assert(whole < rows) by (nonlinear_arith)
                requires
                    rest == rows % target,
                    rest != 0,
                    whole == rows / target,
                    target >= 1,
            ;
        }
        whole + 1
    };
    proof {
        let r = rows as int;
        let t = target as int;
        vstd::arithmetic::div_mod::lemma_fundamental_div_mod(r, t);
        if rest == 0 {
            assert((r + t - 1) / t == whole) by (nonlinear_arith)
                requires
                    r == t * whole,
                    t >= 1,
            ;
        } else {
            assert((r + t - 1) / t == whole + 1) by (nonlinear_arith)
                requires
                    r == t * whole + rest,
                    1 <= rest < t,
            ;
        }
    }
    if n < 2 {
        2
    } else {
        n
    }
}

/// The rows of one chunk of a split commit.
fn count_chunk_rows(rows: u64, target: u64, count: u64, index: u64) -> (n: u64)
    requires
        target >= 1,
        count == chunk_count(rows as int, target as int),
        index < count,
    ensures
        n == chunk_rows(rows as int, target as int, index as int),
{
    proof {
        lemma_chunk_bounds(rows as int, target as int, index as int);
    }
    let share: u64 = rows / count;
    if index == count - 1 {
        proof {
            let s = share as int;
            let n = count as int;
            let r = rows as int;
            assert(0 <= s * (n - 1) <= r) by (nonlinear_arith)
                requires
                    s == r / n,
                    n >= 2,
                    r >= 0,
            ;
        }
        rows - share * (count - 1)
    } else {
        share
    }
}

// ---------------------------------------------------------------------------
// Groups
// ---------------------------------------------------------------------------

/// The rows of the commits `i..e` together.
pub open spec fn rows_between(p: Seq<VersionInfo>, i: int, e: int) -> int
    decreases e - i,
{
    if e <= i {
        0
    } else {
        rows_between(p, i, e - 1) + p[e - 1].rows
    }
}

/// The versions of the commits `i..e`.
pub open spec fn versions_between(p: Seq<VersionInfo>, i: int, e: int) -> Seq<i64> {
    Seq::new((e - i) as nat, |k: int| p[i + k].version)
}

/// Whether commit `e` joins the group `i..e`: there is such a commit, it is not large enough
/// to be split, and neither the rows nor the number of commits become too many.
pub open spec fn joins(p: Seq<VersionInfo>, th: Thresholds, i: int, e: int) -> bool {
    &&& e < p.len()
    &&& p[e].rows <= th.split
    &&& rows_between(p, i, e) + p[e].rows <= th.merge
    &&& e - i < MAX_MERGE_VERSIONS
}

/// Where the group that holds `i..e` already ends when it takes in all that joins.
pub open spec fn group_end(p: Seq<VersionInfo>, th: Thresholds, i: int, e: int) -> int
    decreases p.len() - e,
{
    if joins(p, th, i, e) {
        group_end(p, th, i, e + 1)
    } else {
        e
    }
}

/// A group holds what it was begun with, stays within the limits, and stops only where the
/// next commit does not join.
proof fn lemma_group_end(p: Seq<VersionInfo>, th: Thresholds, i: int, e: int)
    requires
        0 <= i < e <= p.len(),
    ensures
        ({
            let end = group_end(p, th, i, e);
            &&& e <= end <= p.len()
            &&& !joins(p, th, i, end)
            &&& end > e ==> end - i <= MAX_MERGE_VERSIONS
            &&& end > e ==> rows_between(p, i, end) <= th.merge
            &&& forall|k: int| e <= k < end ==> (#[trigger] p[k]).rows <= th.split
        }),
    decreases p.len() - e,
{
    if joins(p, th, i, e) {
        lemma_group_end(p, th, i, e + 1);
    }
}

/// A merged unit that begins with commit `i` holds at most ten commits, none of them large
/// enough to be split, and together no more rows than the merge threshold; and the commit
/// behind it does not join it.
pub proof fn lemma_group_bounds(p: Seq<VersionInfo>, th: Thresholds, i: int)
    requires
        0 <= i < p.len(),
        p[i].rows <= th.split,
    ensures
        ({
            let end = group_end(p, th, i, i + 1);
            &&& i < end <= p.len()
            &&& end - i <= MAX_MERGE_VERSIONS
            &&& end - i > 1 ==> rows_between(p, i, end) <= th.merge
            &&& forall|k: int| i <= k < end ==> (#[trigger] p[k]).rows <= th.split
            &&& !joins(p, th, i, end)
        }),
{
    lemma_group_end(p, th, i, i + 1);
}

// ---------------------------------------------------------------------------
// The units of a poll
// ---------------------------------------------------------------------------

/// The units of work that remain from chunk `c` of commit `i` on.
///
/// A commit above the split threshold gives its chunks one after the other; any other commit
/// gives a group with those behind it that join.
pub open spec fn units_from(p: Seq<VersionInfo>, th: Thresholds, i: int, c: int) -> Seq<Unit>
    decreases p.len() - i, chunk_count(p[i].rows as int, th.chunk as int) - c,
{
    if i < 0 || i >= p.len() {
        Seq::empty()
    } else if p[i].rows > th.split {
        let rows = p[i].rows as int;
        let count = chunk_count(rows, th.chunk as int);
        let unit = Unit::Chunk {
            version: p[i].version as int,
            index: c,
            count,
            rows: chunk_rows(rows, th.chunk as int, c),
        };
        if c + 1 < count {
            seq![unit] + units_from(p, th, i, c + 1)
        } else {
            seq![unit] + units_from(p, th, i + 1, 0)
        }
    } else {
        let end = group_end(p, th, i, i + 1);
        let unit = Unit::Group {
            versions: versions_between(p, i, end),
            rows: rows_between(p, i, end),
        };
        proof {
            lemma_group_bounds(p, th, i);
        }
        seq![unit] + units_from(p, th, end, 0)
    }
}

/// The chunk of the first pending commit at which work goes on after checkpoint `ckpt`: behind
/// those already done where that commit was left half-way, else at its beginning. The checkpoint
/// counts chunks and not rows, so it is exact under the thresholds with which it was written.
pub open spec fn resume_chunk(p: Seq<VersionInfo>, th: Thresholds, ckpt: DiskCheckpoint) -> int {
    if p.len() > 0 && p[0].version == ckpt.last_full_version + 1 && p[0].rows > th.split
        && ckpt.partial_file_offset < chunk_count(p[0].rows as int, th.chunk as int) {
        ckpt.partial_file_offset as int
    } else {
        0
    }
}

/// The units of a poll over the pending commits `p`, after checkpoint `ckpt`.
pub open spec fn poll_units(p: Seq<VersionInfo>, th: Thresholds, ckpt: DiskCheckpoint) -> Seq<
    Unit,
> {
    units_from(p, th, 0, resume_chunk(p, th, ckpt))
}

/// Whether every version has one before it.
pub open spec fn have_predecessors(p: Seq<VersionInfo>) -> bool {
    forall|i: int| 0 <= i < p.len() ==> (#[trigger] p[i]).version > i64::MIN
}

/// The units of one poll, handed out one after the other.
#[derive(Debug, Clone)]
pub struct PollPlan {
    pending: Vec<VersionInfo>,
    thresholds: Thresholds,
    next: usize,
    chunk: u64,
}

impl PollPlan {
    /// The thresholds are valid, and the position is a chunk of the next commit.
    pub closed spec fn valid(&self) -> bool {
        &&& self.thresholds.valid()
        &&& self.next <= self.pending@.len()
        &&& self.next < self.pending@.len() && self.pending@[self.next as int].rows
            > self.thresholds.split ==> self.chunk < chunk_count(
            self.pending@[self.next as int].rows as int,
            self.thresholds.chunk as int,
        )
        &&& !(self.next < self.pending@.len() && self.pending@[self.next as int].rows
            > self.thresholds.split) ==> self.chunk == 0
    }

    /// Every pending version has one before it.
    pub closed spec fn versions_have_predecessors(&self) -> bool {
        have_predecessors(self.pending@)
    }

    /// The units that are still to be handed out.
    pub closed spec fn remaining(&self) -> Seq<Unit> {
        units_from(self.pending@, self.thresholds, self.next as int, self.chunk as int)
    }

    /// The plan for the pending commits, which begins where `ckpt` says that the work was left.
    pub fn new(pending: Vec<VersionInfo>, thresholds: Thresholds, ckpt: &DiskCheckpoint) -> (r:
        PollPlan)
        requires
            thresholds.valid(),
        ensures
            r.valid(),
            r.remaining() == poll_units(pending@, thresholds, *ckpt),
            r.versions_have_predecessors() == have_predecessors(pending@),
    {
        let mut chunk: u64 = 0;
        if pending.len() > 0 {
            let first = pending[0];
            if ckpt.last_full_version < i64::MAX && first.version == ckpt.last_full_version + 1
                && first.rows > thresholds.split {
                let count = count_chunks(first.rows, thresholds.chunk);
                if ckpt.partial_file_offset < count {
                    chunk = ckpt.partial_file_offset;
                }
            }
        }
        PollPlan { pending, thresholds, next: 0, chunk }
    }

    /// The next unit of work; `None` when there is none left.
    pub fn next_unit(&mut self) -> (r: Option<WorkUnit>)
        requires
            old(self).valid(),
        ensures
            final(self).valid(),
            match r {
                Some(unit) => old(self).remaining() == seq![unit@] + final(self).remaining(),
                None => old(self).remaining().len() == 0 && *final(self) == *old(self),
            },
            final(self).versions_have_predecessors() == old(self).versions_have_predecessors(),
            r matches Some(unit) ==> old(self).versions_have_predecessors() ==> unit.valid(),
    {
        let i: usize = self.next;
        if i >= self.pending.len() {
            return None;
        }
        let first = self.pending[i];
        let th = self.thresholds;
        if first.rows > th.split {
            let index: u64 = self.chunk;
            let count = count_chunks(first.rows, th.chunk);
            let rows = count_chunk_rows(first.rows, th.chunk, count, index);
            if index < count - 1 {
                self.chunk = index + 1;
            } else {
                self.next = i + 1;
                self.chunk = 0;
            }
            Some(WorkUnit::Chunk { version: first.version, index, count, rows })
        } else {
            let ghost p = self.pending@;
            let mut versions: Vec<i64> = Vec::new();
            versions.push(first.version);
            let mut rows: u64 = first.rows;
            let mut end: usize = i + 1;
            assert(rows_between(p, i as int, i + 1) == rows) by {
                reveal_with_fuel(rows_between, 2);
            }
            assert(versions@ =~= versions_between(p, i as int, end as int));
            while end < self.pending.len() && self.pending[end].rows <= th.split
                && self.pending[end].rows <= th.merge && rows <= th.merge - self.pending[end].rows
                && end - i < MAX_MERGE_VERSIONS
                invariant
                    p == self.pending@,
                    *self == *old(self),
                    th == self.thresholds,
                    i < end <= p.len(),
                    rows == rows_between(p, i as int, end as int),
                    versions@ == versions_between(p, i as int, end as int),
                    group_end(p, th, i as int, i + 1) == group_end(p, th, i as int, end as int),
                decreases p.len() - end,
            {
                assert(joins(p, th, i as int, end as int));
                rows = rows + self.pending[end].rows;
                versions.push(self.pending[end].version);
                end += 1;
                assert(versions@ =~= versions_between(p, i as int, end as int));
            }
            assert(!joins(p, th, i as int, end as int));
            self.next = end;
            Some(WorkUnit::Group { versions, rows })
        }
    }
}

// ---------------------------------------------------------------------------
// What the units of a poll add up to
// ---------------------------------------------------------------------------

/// The rows of the units together.
pub open spec fn rows_of_units(units: Seq<Unit>) -> int
    decreases units.len(),
{
    if units.len() == 0 {
        0
    } else {
        units.first().row_count() + rows_of_units(units.drop_first())
    }
}

/// The versions that the unit completes, in order.
pub open spec fn completed_by(unit: Unit) -> Seq<i64> {
    match unit {
        Unit::Chunk { version, index, count, .. } => if index + 1 == count {
            seq![version as i64]
        } else {
            Seq::empty()
        },
        Unit::Group { versions, .. } => versions,
    }
}

/// The versions that the units complete, in order.
pub open spec fn completed_versions(units: Seq<Unit>) -> Seq<i64>
    decreases units.len(),
{
    if units.len() == 0 {
        Seq::empty()
    } else {
        completed_by(units.first()) + completed_versions(units.drop_first())
    }
}

/// Whether chunk `c` of commit `i` is a position at which work can go on.
pub open spec fn is_position(p: Seq<VersionInfo>, th: Thresholds, i: int, c: int) -> bool {
    &&& 0 <= i <= p.len()
    &&& if i < p.len() && p[i].rows > th.split {
        0 <= c < chunk_count(p[i].rows as int, th.chunk as int)
    } else {
        c == 0
    }
}

proof fn lemma_rows_between_split(p: Seq<VersionInfo>, i: int, m: int, e: int)
    requires
        i <= m <= e,
    ensures
        rows_between(p, i, e) == rows_between(p, i, m) + rows_between(p, m, e),
    decreases e - m,
{
    if m < e {
        lemma_rows_between_split(p, i, m, e - 1);
    }
}

proof fn lemma_units_from(p: Seq<VersionInfo>, th: Thresholds, i: int, c: int)
    requires
        th.valid(),
        is_position(p, th, i, c),
    ensures
        completed_versions(units_from(p, th, i, c)) == versions_between(p, i, p.len() as int),
        rows_of_units(units_from(p, th, i, c)) == rows_between(p, i, p.len() as int) - (if i
            < p.len() && p[i].rows > th.split {
            rows_of_chunks(p[i].rows as int, th.chunk as int, c)
        } else {
            0
        }),
    decreases p.len() - i, chunk_count(p[i].rows as int, th.chunk as int) - c,
{
    let units = units_from(p, th, i, c);
    let n = p.len() as int;
    if i == n {
        assert(versions_between(p, i, n) =~= Seq::<i64>::empty());
    } else if p[i].rows > th.split {
        let rows = p[i].rows as int;
        let target = th.chunk as int;
        let count = chunk_count(rows, target);
        if c + 1 < count {
            lemma_units_from(p, th, i, c + 1);
            assert(units.drop_first() =~= units_from(p, th, i, c + 1));
            assert(completed_by(units.first()) + versions_between(p, i, n) =~= versions_between(
                p,
                i,
                n,
            ));
        } else {
            lemma_units_from(p, th, i + 1, 0);
            lemma_chunks_hold_all_rows(rows, target);
            lemma_rows_between_split(p, i, i + 1, n);
            assert(rows_between(p, i, i + 1) == rows) by {
                reveal_with_fuel(rows_between, 2);
            }
            assert(units.drop_first() =~= units_from(p, th, i + 1, 0));
            assert(completed_by(units.first()) + versions_between(p, i + 1, n)
                =~= versions_between(p, i, n));
        }
    } else {
        lemma_group_bounds(p, th, i);
        let end = group_end(p, th, i, i + 1);
        lemma_units_from(p, th, end, 0);
        lemma_rows_between_split(p, i, end, n);
        assert(units.drop_first() =~= units_from(p, th, end, 0));
        assert(versions_between(p, i, end) + versions_between(p, end, n) =~= versions_between(
            p,
            i,
            n,
        ));
    }
}

/// The units of a poll complete every pending commit, each once and in order.
pub proof fn lemma_poll_completes_every_version(
    p: Seq<VersionInfo>,
    th: Thresholds,
    ckpt: DiskCheckpoint,
)
    requires
        th.valid(),
    ensures
        completed_versions(poll_units(p, th, ckpt)) == versions_between(p, 0, p.len() as int),
{
    lemma_units_from(p, th, 0, resume_chunk(p, th, ckpt));
}

/// The units of a poll hold all pending rows but those of the chunks that were done before.
pub proof fn lemma_poll_holds_all_rows(p: Seq<VersionInfo>, th: Thresholds, ckpt: DiskCheckpoint)
    requires
        th.valid(),
    ensures
        rows_of_units(poll_units(p, th, ckpt)) == rows_between(p, 0, p.len() as int) - (if p.len()
            > 0 && p[0].rows > th.split {
            rows_of_chunks(p[0].rows as int, th.chunk as int, resume_chunk(p, th, ckpt))
        } else {
            0
        }),
{
    lemma_units_from(p, th, 0, resume_chunk(p, th, ckpt));
}

// ---------------------------------------------------------------------------
// What a unit of a poll is
// ---------------------------------------------------------------------------

/// The rows of commits that follow one another are those of each of them, added up.
pub proof fn lemma_rows_add_up(p: Seq<VersionInfo>, i: int, m: int, e: int)
    requires
        0 <= i <= m <= e <= p.len(),
    ensures
        rows_between(p, i, e) == rows_between(p, i, m) + rows_between(p, m, e),
        rows_between(p, i, i) == 0,
        i < p.len() ==> rows_between(p, i, i + 1) == p[i].rows,
{
    lemma_rows_between_split(p, i, m, e);
    reveal_with_fuel(rows_between, 2);
}

/// The chunks of a split commit are no fewer than it takes to hold its rows in chunks of the
/// target size, and no more, but two at least.
pub proof fn lemma_chunk_count(rows: int, target: int)
    requires
        0 <= rows,
        1 <= target,
    ensures
        chunk_count(rows, target) >= 2,
        chunk_count(rows, target) * target >= rows,
        chunk_count(rows, target) > 2 ==> (chunk_count(rows, target) - 1) * target < rows,
{
    let n = chunk_count(rows, target);
    let x = rows + target - 1;
    let m = x / target;
    vstd::arithmetic::div_mod::lemma_fundamental_div_mod(x, target);
    vstd::arithmetic::div_mod::lemma_mod_bound(x, target);
    assert(m * target == target * m) by (nonlinear_arith);
    assert(n * target >= m * target) by (nonlinear_arith)
        requires
            n >= m,
            target >= 1,
    ;
    assert((m - 1) * target == m * target - target) by (nonlinear_arith);
}

/// All chunks of a split commit but the last have the same number of rows, as many as go into
/// every chunk evenly; what does not go in evenly is in the last.
pub proof fn lemma_chunk_shares(rows: int, target: int, index: int)
    requires
        0 <= rows,
        1 <= target,
        0 <= index < chunk_count(rows, target),
    ensures
        index + 1 < chunk_count(rows, target) ==> {
            &&& chunk_rows(rows, target, index) * chunk_count(rows, target) <= rows
            &&& rows < (chunk_rows(rows, target, index) + 1) * chunk_count(rows, target)
        },
        index + 1 == chunk_count(rows, target) ==> chunk_rows(rows, target, index) == rows
            - rows_of_chunks(rows, target, index),
{
    let n = chunk_count(rows, target);
    let q = rows / n;
    vstd::arithmetic::div_mod::lemma_fundamental_div_mod(rows, n);
    vstd::arithmetic::div_mod::lemma_mod_bound(rows, n);
    assert(q * n == n * q) by (nonlinear_arith);
    assert((q + 1) * n == n * q + n) by (nonlinear_arith);
    if index + 1 == n {
        lemma_rows_of_first_chunks(rows, target, index);
        assert(index * q == q * (n - 1)) by (nonlinear_arith)
            requires
                index == n - 1,
        ;
    }
}

/// Whether `unit` is made of the commits `a..e` as it should be.
///
/// A chunk is one of those that a commit above the split threshold is cut into: no fewer than its
/// rows need in chunks of the target size, and no more, but two at least. A group is made of
/// commits that follow one another, none above the split threshold, ten at most, and with no more
/// rows than the merge threshold where there are several; and it is not ended early: the commit
/// behind a group of fewer than ten is above the split threshold, or its rows would be too many.
pub open spec fn well_made(
    p: Seq<VersionInfo>,
    th: Thresholds,
    unit: Unit,
    a: int,
    e: int,
) -> bool {
    &&& 0 <= a < e <= p.len()
    &&& match unit {
        Unit::Chunk { version, index, count, rows } => {
            &&& e == a + 1
            &&& version == p[a].version
            &&& p[a].rows > th.split
            &&& 0 <= index < count
            &&& count >= 2
            &&& count * th.chunk >= p[a].rows
            &&& count > 2 ==> (count - 1) * th.chunk < p[a].rows
            &&& index + 1 < count ==> rows * count <= p[a].rows < (rows + 1) * count
        },
        Unit::Group { versions, rows } => {
            &&& versions.len() == e - a
            &&& forall|j: int| 0 <= j < e - a ==> #[trigger] versions[j] == p[a + j].version
            &&& forall|j: int| a <= j < e ==> (#[trigger] p[j]).rows <= th.split
            &&& rows == rows_between(p, a, e)
            &&& e - a <= 10
            &&& e - a >= 2 ==> rows <= th.merge
            &&& e < p.len() && e - a < 10 ==> p[e].rows > th.split || rows + p[e].rows > th.merge
        },
    }
}

/// A merged unit is as large as it may be: where fewer than ten commits are in it and another
/// follows, that one is to be split, or the rows together would exceed the merge threshold.
pub proof fn lemma_groups_are_maximal(p: Seq<VersionInfo>, th: Thresholds, i: int)
    requires
        0 <= i < p.len(),
        p[i].rows <= th.split,
    ensures
        ({
            let e = group_end(p, th, i, i + 1);
            e < p.len() && e - i < 10 ==> p[e].rows > th.split || rows_between(p, i, e) + p[e].rows
                > th.merge
        }),
{
    lemma_group_bounds(p, th, i);
}

/// Two small commits that follow one another and fit into the merge threshold together are
/// merged.
pub proof fn lemma_small_neighbours_are_merged(
    p: Seq<VersionInfo>,
    th: Thresholds,
    ckpt: DiskCheckpoint,
)
    requires
        th.valid(),
        p.len() >= 2,
        p[0].rows <= th.split,
        p[1].rows <= th.split,
        p[0].rows + p[1].rows <= th.merge,
    ensures
        poll_units(p, th, ckpt).len() > 0,
        poll_units(p, th, ckpt)[0] matches Unit::Group { versions, rows } && versions.len() >= 2
            && versions[0] == p[0].version && versions[1] == p[1].version && rows >= p[0].rows
            + p[1].rows,
{
    lemma_group_bounds(p, th, 0);
    lemma_groups_are_maximal(p, th, 0);
    let e = group_end(p, th, 0, 1);
    reveal_with_fuel(rows_between, 3);
    if e >= 2 {
        lemma_rows_between_split(p, 0, 2, e);
        lemma_rows_not_negative(p, 2, e);
    }
}

proof fn lemma_rows_not_negative(p: Seq<VersionInfo>, i: int, e: int)
    ensures
        rows_between(p, i, e) >= 0,
    decreases e - i,
{
    if i < e {
        lemma_rows_not_negative(p, i, e - 1);
    }
}

proof fn lemma_unit_from(
    p: Seq<VersionInfo>,
    th: Thresholds,
    i: int,
    c: int,
    k: int,
) -> (r: (int, int))
    requires
        th.valid(),
        is_position(p, th, i, c),
        0 <= k < units_from(p, th, i, c).len(),
    ensures
        well_made(p, th, units_from(p, th, i, c)[k], r.0, r.1),
    decreases k,
{
    let units = units_from(p, th, i, c);
    if p[i].rows > th.split {
        let rows = p[i].rows as int;
        let target = th.chunk as int;
        let count = chunk_count(rows, target);
        lemma_chunk_count(rows, target);
        lemma_chunk_shares(rows, target, c);
        if k == 0 {
            (i, i + 1)
        } else if c + 1 < count {
            assert(units[k] == units_from(p, th, i, c + 1)[k - 1]);
            lemma_unit_from(p, th, i, c + 1, k - 1)
        } else {
            assert(units[k] == units_from(p, th, i + 1, 0)[k - 1]);
            lemma_unit_from(p, th, i + 1, 0, k - 1)
        }
    } else {
        lemma_group_bounds(p, th, i);
        lemma_groups_are_maximal(p, th, i);
        let e = group_end(p, th, i, i + 1);
        if k == 0 {
            (i, e)
        } else {
            assert(units[k] == units_from(p, th, e, 0)[k - 1]);
            lemma_unit_from(p, th, e, 0, k - 1)
        }
    }
}

/// Every unit of a poll is made of pending commits as it should be.
pub proof fn lemma_units_are_well_made(
    p: Seq<VersionInfo>,
    th: Thresholds,
    ckpt: DiskCheckpoint,
    k: int,
) -> (r: (int, int))
    requires
        th.valid(),
        0 <= k < poll_units(p, th, ckpt).len(),
    ensures
        well_made(p, th, poll_units(p, th, ckpt)[k], r.0, r.1),
{
    lemma_unit_from(p, th, 0, resume_chunk(p, th, ckpt), k)
}

/// The chunks of a split commit come one after the other, from the first, or the one at which a
/// checkpoint says that the work was left, up to the last.
pub proof fn lemma_chunks_follow_one_another(
    p: Seq<VersionInfo>,
    th: Thresholds,
    i: int,
    c: int,
    k: int,
)
    requires
        th.valid(),
        is_position(p, th, i, c),
        0 <= k < units_from(p, th, i, c).len(),
    ensures
        units_from(p, th, i, c)[k] matches Unit::Chunk { version, index, count, .. } ==> {
            &&& index + 1 < count ==> k + 1 < units_from(p, th, i, c).len() && (units_from(
                p,
                th,
                i,
                c,
            )[k + 1] matches Unit::Chunk { version: v, index: n, count: m, .. } && v == version && n
                == index + 1 && m == count)
            &&& index > 0 && k > 0 ==> (units_from(p, th, i, c)[k - 1] matches Unit::Chunk {
                version: v,
                index: n,
                ..
            } && v == version && n == index - 1)
        },
    decreases k,
{
    let units = units_from(p, th, i, c);
    let (ni, nc): (int, int) = if p[i].rows > th.split {
        if c + 1 < chunk_count(p[i].rows as int, th.chunk as int) {
            (i, c + 1)
        } else {
            (i + 1, 0)
        }
    } else {
        lemma_group_bounds(p, th, i);
        (group_end(p, th, i, i + 1), 0)
    };
    let rest = units_from(p, th, ni, nc);
    assert(units =~= seq![units[0]] + rest);
    if ni < p.len() && p[ni].rows <= th.split {
        lemma_group_bounds(p, th, ni);
    }
    if k > 0 {
        lemma_chunks_follow_one_another(p, th, ni, nc, k - 1);
        assert(units[k] == rest[k - 1]);
        if k + 1 < units.len() {
            assert(units[k + 1] == rest[k]);
        }
        if k >= 2 {
            assert(units[k - 1] == rest[k - 2]);
        }
    } else if p[i].rows > th.split && nc > 0 {
        assert(units[1] == rest[0]);
    }
}

/// A poll goes on at the chunk that the checkpoint names where the first pending commit is the one
/// that was left half-way, and begins every other commit at its beginning.
pub proof fn lemma_poll_begins(p: Seq<VersionInfo>, th: Thresholds, ckpt: DiskCheckpoint)
    requires
        th.valid(),
        p.len() > 0,
    ensures
        poll_units(p, th, ckpt).len() > 0,
        match poll_units(p, th, ckpt)[0] {
            Unit::Chunk { version, index, count, .. } => {
                &&& version == p[0].version
                &&& index == (if p[0].version == ckpt.last_full_version + 1
                    && ckpt.partial_file_offset < count {
                    ckpt.partial_file_offset as int
                } else {
                    0
                })
            },
            Unit::Group { versions, .. } => p[0].rows <= th.split && versions[0] == p[0].version,
        },
{
    if p[0].rows <= th.split {
        lemma_group_bounds(p, th, 0);
    }
}

// ---------------------------------------------------------------------------
// Resuming
// ---------------------------------------------------------------------------

/// The last version that is complete after the unit.
pub open spec fn full_version_after(unit: Unit) -> int {
    match unit {
        Unit::Chunk { version, index, count, .. } => if index + 1 == count {
            version
        } else {
            version - 1
        },
        Unit::Group { versions, .. } => versions.last() as int,
    }
}

/// The number of chunks of the next version that are done after the unit.
pub open spec fn chunks_done_after(unit: Unit) -> int {
    match unit {
        Unit::Chunk { index, count, .. } => if index + 1 == count {
            0
        } else {
            index + 1
        },
        Unit::Group { .. } => 0,
    }
}

/// Whether `to` is the checkpoint after `unit` where `from` was the one before it.
pub open spec fn checkpoint_step(from: DiskCheckpoint, unit: Unit, to: DiskCheckpoint) -> bool {
    &&& to.last_full_version == full_version_after(unit)
    &&& to.partial_file_offset == chunks_done_after(unit)
    &&& to.rows_committed == from.rows_committed + unit.row_count()
}

/// Whether `to` is the checkpoint after all of `units`, one after the other, where `from` was
/// the one before them.
pub open spec fn checkpoint_after(
    from: DiskCheckpoint,
    units: Seq<Unit>,
    to: DiskCheckpoint,
) -> bool
    decreases units.len(),
{
    if units.len() == 0 {
        to == from
    } else {
        exists|mid: DiskCheckpoint|
            checkpoint_after(from, units.drop_last(), mid) && #[trigger] checkpoint_step(
                mid,
                units.last(),
                to,
            )
    }
}

/// One more unit takes the checkpoint one step further.
pub proof fn lemma_checkpoint_after_one_more(
    from: DiskCheckpoint,
    units: Seq<Unit>,
    mid: DiskCheckpoint,
    unit: Unit,
    to: DiskCheckpoint,
)
    requires
        checkpoint_after(from, units, mid),
        checkpoint_step(mid, unit, to),
    ensures
        checkpoint_after(from, units.push(unit), to),
{
    assert(units.push(unit).drop_last() =~= units);
    assert(checkpoint_step(mid, units.push(unit).last(), to));
}

/// The commits of `p` that are newer than `version`.
pub open spec fn newer_than(p: Seq<VersionInfo>, version: int) -> Seq<VersionInfo> {
    p.filter(|info: VersionInfo| info.version > version)
}

/// The commits are in order of version, no version twice.
pub open spec fn ascending(p: Seq<VersionInfo>) -> bool {
    forall|a: int, b: int|
        0 <= a < b < p.len() ==> (#[trigger] p[a]).version < (#[trigger] p[b]).version
}

/// Of commits in order, those newer than a version are those from some position on.
proof fn lemma_newer_is_suffix(p: Seq<VersionInfo>, version: int, j: int)
    requires
        ascending(p),
        0 <= j <= p.len(),
        j < p.len() ==> p[j].version > version,
        j > 0 ==> p[j - 1].version <= version,
    ensures
        newer_than(p, version) == p.skip(j),
    decreases p.len(),
{
    let pred = |info: VersionInfo| info.version > version;
    reveal(Seq::filter);
    if p.len() == 0 {
        assert(p.filter(pred) =~= p.skip(j));
    } else if j == p.len() {
        assert(p.drop_last().skip(j - 1) =~= Seq::<VersionInfo>::empty());
        lemma_newer_is_suffix(p.drop_last(), version, j - 1);
        assert(p.filter(pred) =~= p.skip(j));
    } else {
        if j < p.len() - 1 {
            assert(p[j].version < p[p.len() - 1].version);
        }
        lemma_newer_is_suffix(p.drop_last(), version, j);
        assert(p.drop_last().skip(j).push(p.last()) =~= p.skip(j));
    }
}

proof fn lemma_rows_between_shift(p: Seq<VersionInfo>, j: int, i: int, e: int)
    requires
        0 <= j <= p.len(),
        0 <= i <= e <= p.len() - j,
    ensures
        rows_between(p.skip(j), i, e) == rows_between(p, i + j, e + j),
    decreases e - i,
{
    if i < e {
        lemma_rows_between_shift(p, j, i, e - 1);
    }
}

proof fn lemma_group_end_shift(p: Seq<VersionInfo>, th: Thresholds, j: int, i: int, e: int)
    requires
        0 <= j <= p.len(),
        0 <= i < e <= p.len() - j,
    ensures
        group_end(p.skip(j), th, i, e) + j == group_end(p, th, i + j, e + j),
    decreases p.len() - e,
{
    lemma_rows_between_shift(p, j, i, e);
    if joins(p.skip(j), th, i, e) {
        lemma_group_end_shift(p, th, j, i, e + 1);
    }
}

/// What remains does not depend on the commits before it.
proof fn lemma_units_shift(p: Seq<VersionInfo>, th: Thresholds, j: int, i: int, c: int)
    requires
        0 <= j <= p.len(),
        0 <= i <= p.len() - j,
    ensures
        units_from(p.skip(j), th, i, c) == units_from(p, th, i + j, c),
    decreases p.len() - i, chunk_count(p[i + j].rows as int, th.chunk as int) - c,
{
    let q = p.skip(j);
    if i == q.len() {
    } else if q[i].rows > th.split {
        if c + 1 < chunk_count(q[i].rows as int, th.chunk as int) {
            lemma_units_shift(p, th, j, i, c + 1);
        } else {
            lemma_units_shift(p, th, j, i + 1, 0);
        }
    } else {
        lemma_group_bounds(q, th, i);
        lemma_group_end_shift(p, th, j, i, i + 1);
        let end = group_end(q, th, i, i + 1);
        lemma_rows_between_shift(p, j, i, end);
        assert(versions_between(q, i, end) =~= versions_between(p, i + j, end + j));
        lemma_units_shift(p, th, j, end, 0);
    }
}

/// The position behind the first `k` units: what remains from there on is the rest of the
/// units, and unit `k - 1` tells it.
proof fn lemma_position_after(
    p: Seq<VersionInfo>,
    th: Thresholds,
    i: int,
    c: int,
    k: int,
) -> (r: (int, int))
    requires
        th.valid(),
        is_position(p, th, i, c),
        0 < k <= units_from(p, th, i, c).len(),
    ensures
        is_position(p, th, r.0, r.1),
        units_from(p, th, r.0, r.1) == units_from(p, th, i, c).skip(k),
        chunks_done_after(units_from(p, th, i, c)[k - 1]) == r.1,
        r.1 == 0 ==> r.0 > 0 && full_version_after(units_from(p, th, i, c)[k - 1]) == p[r.0
            - 1].version,
        r.1 > 0 ==> r.0 < p.len() && full_version_after(units_from(p, th, i, c)[k - 1])
            == p[r.0].version - 1,
    decreases k,
{
    let units = units_from(p, th, i, c);
    let next: (int, int) = if p[i].rows > th.split {
        if c + 1 < chunk_count(p[i].rows as int, th.chunk as int) {
            (i, c + 1)
        } else {
            (i + 1, 0)
        }
    } else {
        (group_end(p, th, i, i + 1), 0)
    };
    if p[i].rows <= th.split {
        lemma_group_bounds(p, th, i);
    }
    let rest = units_from(p, th, next.0, next.1);
    assert(units.skip(1) =~= rest);
    if k == 1 {
        next
    } else {
        let r = lemma_position_after(p, th, next.0, next.1, k - 1);
        assert(units.skip(k) =~= rest.skip(k - 1));
        assert(units[k - 1] == rest[k - 2]);
        r
    }
}

proof fn lemma_checkpoint_rows(from: DiskCheckpoint, units: Seq<Unit>, to: DiskCheckpoint)
    requires
        checkpoint_after(from, units, to),
    ensures
        to.rows_committed == from.rows_committed + rows_of_units(units),
    decreases units.len(),
{
    if units.len() > 0 {
        let mid = choose|mid: DiskCheckpoint|
            checkpoint_after(from, units.drop_last(), mid) && #[trigger] checkpoint_step(
                mid,
                units.last(),
                to,
            );
        lemma_checkpoint_rows(from, units.drop_last(), mid);
        assert(units.drop_last() + seq![units.last()] =~= units);
        lemma_rows_of_units_concat(units.drop_last(), seq![units.last()]);
        reveal_with_fuel(rows_of_units, 2);
    }
}

proof fn lemma_rows_of_units_concat(a: Seq<Unit>, b: Seq<Unit>)
    ensures
        rows_of_units(a + b) == rows_of_units(a) + rows_of_units(b),
    decreases a.len(),
{
    if a.len() == 0 {
        assert(a + b =~= b);
    } else {
        assert((a + b).drop_first() =~= a.drop_first() + b);
        lemma_rows_of_units_concat(a.drop_first(), b);
    }
}

/// Every unit moves the checkpoint forward: to a later version, or to a later chunk behind the
/// same one.
pub proof fn lemma_every_unit_advances(
    p: Seq<VersionInfo>,
    th: Thresholds,
    ckpt: DiskCheckpoint,
    k: int,
)
    requires
        th.valid(),
        ascending(p),
        0 <= k,
        k + 1 < poll_units(p, th, ckpt).len(),
    ensures
        ({
            let a = poll_units(p, th, ckpt)[k];
            let b = poll_units(p, th, ckpt)[k + 1];
            ||| full_version_after(a) < full_version_after(b)
            ||| full_version_after(a) == full_version_after(b) && chunks_done_after(a)
                < chunks_done_after(b)
        }),
{
    let units = poll_units(p, th, ckpt);
    let (i, c) = lemma_position_after(p, th, 0, resume_chunk(p, th, ckpt), k + 1);
    let rest = units_from(p, th, i, c);
    assert(rest[0] == units[k + 1]);
    if c == 0 {
        assert(p[i - 1].version < p[i].version);
    }
    if p[i].rows <= th.split {
        lemma_group_bounds(p, th, i);
        let end = group_end(p, th, i, i + 1);
        if i < end - 1 {
            assert(p[i].version < p[end - 1].version);
        }
        assert(versions_between(p, i, end).last() == p[end - 1].version);
    }
}

/// A consumer that stops after any `k` units of a poll and starts again from the checkpoint
/// that the last of them left, over the commits that this checkpoint does not cover, has
/// exactly the remaining units before it; and with them it reaches the same number of rows.
pub proof fn lemma_resume_is_exact(
    p: Seq<VersionInfo>,
    th: Thresholds,
    start: DiskCheckpoint,
    k: int,
    ckpt: DiskCheckpoint,
)
    requires
        th.valid(),
        ascending(p),
        p.len() > 0 ==> p[0].version > start.last_full_version,
        0 <= k <= poll_units(p, th, start).len(),
        checkpoint_after(start, poll_units(p, th, start).take(k), ckpt),
    ensures
        poll_units(newer_than(p, ckpt.last_full_version as int), th, ckpt) == poll_units(
            p,
            th,
            start,
        ).skip(k),
        ckpt.rows_committed + rows_of_units(poll_units(p, th, start).skip(k))
            == start.rows_committed + rows_of_units(poll_units(p, th, start)),
{
    let units = poll_units(p, th, start);
    let c0 = resume_chunk(p, th, start);
    let full = ckpt.last_full_version as int;
    lemma_checkpoint_rows(start, units.take(k), ckpt);
    assert(units.take(k) + units.skip(k) =~= units);
    lemma_rows_of_units_concat(units.take(k), units.skip(k));
    if k == 0 {
        lemma_newer_is_suffix(p, full, 0);
        assert(p.skip(0) =~= p);
        assert(units.skip(0) =~= units);
    } else {
        let (i, c) = lemma_position_after(p, th, 0, c0, k);
        assert(units.take(k).last() == units[k - 1]);
        lemma_newer_is_suffix(p, full, i);
        lemma_units_shift(p, th, i, 0, c);
        assert(resume_chunk(p.skip(i), th, ckpt) == c);
    }
}

// ---------------------------------------------------------------------------
// Progress
// ---------------------------------------------------------------------------

/// The mode of the unit.
pub open spec fn mode_text(unit: Unit) -> Seq<char> {
    match unit {
        Unit::Chunk { .. } => "split"@,
        Unit::Group { versions, .. } => if versions.len() == 1 {
            "single"@
        } else {
            "merged"@
        },
    }
}

/// What the unit covers, for the dashboard.
pub open spec fn range_text(unit: Unit) -> Seq<char> {
    match unit {
        Unit::Chunk { version, index, count, .. } => "v"@ + text::decimal_int(version)
            + "[chunk "@ + text::decimal((index + 1) as nat) + "/"@ + text::decimal(count as nat)
            + "]"@,
        Unit::Group { versions, .. } => if versions.len() == 1 {
            "v"@ + text::decimal_int(versions[0] as int)
        } else {
            "v"@ + text::decimal_int(versions[0] as int) + "-v"@ + text::decimal_int(
                versions.last() as int,
            ) + " ("@ + text::decimal(versions.len()) + " versions)"@
        },
    }
}

/// The version that the dashboard shows for the unit.
pub open spec fn shown_version(unit: Unit) -> int {
    match unit {
        Unit::Chunk { version, .. } => version,
        Unit::Group { versions, .. } => versions.last() as int,
    }
}

impl WorkUnit {
    /// The chunk is one of those counted, the group is not empty, and the version before a
    /// half-done one can be told.
    pub open spec fn valid(&self) -> bool {
        match self {
            WorkUnit::Chunk { version, index, count, .. } => *index < *count && *version > i64::MIN,
            WorkUnit::Group { versions, .. } => versions@.len() > 0,
        }
    }

    /// The mode of the unit: "split", "single" or "merged".
    pub fn mode(&self) -> (r: String)
        ensures
            r@ == mode_text(self@),
    {
        match self {
            WorkUnit::Chunk { .. } => "split".to_string(),
            WorkUnit::Group { versions, .. } => if versions.len() == 1 {
                "single".to_string()
            } else {
                "merged".to_string()
            },
        }
    }

    /// What the unit covers, for the dashboard.
    pub fn range(&self) -> (r: String)
        requires
            self.valid(),
        ensures
            r@ == range_text(self@),
    {
        let mut r = "v".to_string();
        match self {
            WorkUnit::Chunk { version, index, count, .. } => {
                text::push_i64(&mut r, *version);
                r.append("[chunk ");
                text::push_u64(&mut r, *index + 1);
                r.append("/");
                text::push_u64(&mut r, *count);
                r.append("]");
            },
            WorkUnit::Group { versions, .. } => {
                text::push_i64(&mut r, versions[0]);
                if versions.len() != 1 {
                    r.append("-v");
                    text::push_i64(&mut r, versions[versions.len() - 1]);
                    r.append(" (");
                    text::push_usize(&mut r, versions.len());
                    r.append(" versions)");
                }
            },
        }
        r
    }

    /// The rows of the unit.
    pub fn rows(&self) -> (r: u64)
        ensures
            r == self@.row_count(),
    {
        match self {
            WorkUnit::Chunk { rows, .. } => *rows,
            WorkUnit::Group { rows, .. } => *rows,
        }
    }
}

/// What is to be done for a unit.
#[derive(Debug, Clone, PartialEq, Eq)]
pub enum UnitWork {
    /// Apply these source versions to the sink.
    Sink { versions: Vec<i64> },
    /// Nothing: an earlier chunk of the same version has been applied as a whole.
    Nothing,
    /// Wait this long, in place of downstream work.
    Wait { millis: u64 },
}

/// How long downstream work on `rows` rows is imitated: a millisecond per thousand rows, at
/// least one and at most five thousand.
pub open spec fn wait_millis(rows: int) -> int {
    let ms = rows / 1000;
    if ms < 1 {
        1
    } else if ms > 5000 {
        5000
    } else {
        ms
    }
}

/// How long downstream work on `rows` rows is imitated.
pub fn process_work(rows: u64) -> (millis: u64)
    ensures
        millis == wait_millis(rows as int),
{
    let ms: u64 = rows / 1000;
    if ms < 1 {
        1
    } else if ms > 5000 {
        5000
    } else {
        ms
    }
}

/// Whether `work` is what is to be done for `unit`.
pub open spec fn is_work_for(unit: Unit, sink_enabled: bool, work: UnitWork) -> bool {
    match work {
        UnitWork::Sink { versions } => sink_enabled && match unit {
            Unit::Chunk { version, index, .. } => index == 0 && versions@ == seq![version as i64],
            Unit::Group { versions: vs, .. } => versions@ == vs,
        },
        UnitWork::Nothing => sink_enabled && unit is Chunk && unit->index != 0,
        UnitWork::Wait { millis } => !sink_enabled && millis == wait_millis(unit.row_count()),
    }
}

/// What is to be done for `unit`. With a sink, a split version is applied as a whole with its
/// first chunk, for the sink reads whole versions. A consumer that goes on at a later chunk takes
/// the version as applied, so the run that finished the first chunk must have had the sink too.
pub fn unit_work(unit: &WorkUnit, sink_enabled: bool) -> (r: UnitWork)
    ensures
        is_work_for(unit@, sink_enabled, r),
{
    if !sink_enabled {
        return UnitWork::Wait { millis: process_work(unit.rows()) };
    }
    match unit {
        WorkUnit::Chunk { version, index, .. } => if *index == 0 {
            let mut versions: Vec<i64> = Vec::new();
            versions.push(*version);
            assert(versions@ =~= seq![*version]);
            UnitWork::Sink { versions }
        } else {
            UnitWork::Nothing
        },
        WorkUnit::Group { versions: vs, .. } => {
            let mut versions: Vec<i64> = Vec::new();
            let n: usize = vs.len();
            for i in 0..n
                invariant
                    n == vs.len(),
                    versions@ == vs@.take(i as int),
            {
                versions.push(vs[i]);
                assert(vs@.take(i + 1) =~= vs@.take(i as int).push(vs@[i as int]));
            }
            assert(vs@.take(n as int) =~= vs@);
            UnitWork::Sink { versions }
        },
    }
}

/// The versions that a work hands to the sink.
pub open spec fn sunk_by(work: UnitWork) -> Seq<i64> {
    match work {
        UnitWork::Sink { versions } => versions@,
        _ => Seq::empty(),
    }
}

/// The versions that works hand to the sink, one after the other.
pub open spec fn sunk_versions(works: Seq<UnitWork>) -> Seq<i64>
    decreases works.len(),
{
    if works.len() == 0 {
        Seq::empty()
    } else {
        sunk_by(works.first()) + sunk_versions(works.drop_first())
    }
}

/// With a sink, a group hands all of its versions to it, and a split version is handed to it with
/// its first chunk and never again. Without a sink, nothing is.
pub proof fn lemma_unit_hands_over_its_versions(unit: Unit, sink_enabled: bool, work: UnitWork)
    requires
        is_work_for(unit, sink_enabled, work),
    ensures
        sink_enabled ==> sunk_by(work) == (match unit {
            Unit::Group { versions, .. } => versions,
            Unit::Chunk { version, index, .. } => if index == 0 {
                seq![version as i64]
            } else {
                Seq::empty()
            },
        }),
        sink_enabled && unit is Group ==> work is Sink,
        !sink_enabled ==> work is Wait && sunk_by(work) == Seq::<i64>::empty(),
{
}

proof fn lemma_sunk_from(
    p: Seq<VersionInfo>,
    th: Thresholds,
    i: int,
    c: int,
    works: Seq<UnitWork>,
)
    requires
        th.valid(),
        is_position(p, th, i, c),
        works.len() == units_from(p, th, i, c).len(),
        forall|k: int|
            0 <= k < works.len() ==> is_work_for(
                units_from(p, th, i, c)[k],
                true,
                #[trigger] works[k],
            ),
    ensures
        sunk_versions(works) == versions_between(
            p,
            if c == 0 {
                i
            } else {
                i + 1
            },
            p.len() as int,
        ),
    decreases works.len(),
{
    let n = p.len() as int;
    let units = units_from(p, th, i, c);
    if i == n {
        assert(versions_between(p, i, n) =~= Seq::<i64>::empty());
    } else {
        let (ni, nc): (int, int) = if p[i].rows > th.split {
            if c + 1 < chunk_count(p[i].rows as int, th.chunk as int) {
                (i, c + 1)
            } else {
                (i + 1, 0)
            }
        } else {
            lemma_group_bounds(p, th, i);
            (group_end(p, th, i, i + 1), 0)
        };
        let rest = units_from(p, th, ni, nc);
        assert(units =~= seq![units[0]] + rest);
        let tail = works.drop_first();
        assert forall|k: int| 0 <= k < tail.len() implies is_work_for(
            rest[k],
            true,
            #[trigger] tail[k],
        ) by {
            assert(tail[k] == works[k + 1]);
            assert(rest[k] == units[k + 1]);
        }
        lemma_sunk_from(p, th, ni, nc, tail);
        assert(is_work_for(units[0], true, works[0]));
        lemma_unit_hands_over_its_versions(units[0], true, works[0]);
        let from = if nc == 0 {
            ni
        } else {
            ni + 1
        };
        let all = if c == 0 {
            i
        } else {
            i + 1
        };
        assert(sunk_by(works[0]) + versions_between(p, from, n) =~= versions_between(p, all, n));
    }
}

/// Over a poll, exactly the pending versions are handed to the sink, each once and in order. Only
/// a version that was left half-way is not handed over again: it was with its first chunk.
pub proof fn lemma_poll_sinks_every_version(
    p: Seq<VersionInfo>,
    th: Thresholds,
    ckpt: DiskCheckpoint,
    works: Seq<UnitWork>,
)
    requires
        th.valid(),
        works.len() == poll_units(p, th, ckpt).len(),
        forall|k: int|
            0 <= k < works.len() ==> is_work_for(
                poll_units(p, th, ckpt)[k],
                true,
                #[trigger] works[k],
            ),
    ensures
        ({
            let first: int = if p.len() > 0 && (poll_units(p, th, ckpt)[0] matches Unit::Chunk {
                index,
                ..
            } && index > 0) {
                1
            } else {
                0
            };
            &&& sunk_versions(works).len() == p.len() - first
            &&& forall|k: int|
                first <= k < p.len() ==> sunk_versions(works)[k - first] == (#[trigger] p[k]).version
        }),
{
    let c = resume_chunk(p, th, ckpt);
    lemma_sunk_from(p, th, 0, c, works);
    if p.len() > 0 {
        lemma_poll_begins(p, th, ckpt);
    }
}

/// The imitated work takes a millisecond per thousand rows, but never less than one and never more
/// than five thousand.
pub proof fn lemma_wait_millis(rows: int)
    requires
        rows >= 0,
    ensures
        1 <= wait_millis(rows) <= 5000,
        wait_millis(rows) * 1000 <= rows || wait_millis(rows) == 1,
        rows < (wait_millis(rows) + 1) * 1000 || wait_millis(rows) == 5000,
{
}

/// Without a sink a unit takes a millisecond for every thousand rows that it has, one at least and
/// five thousand at most.
pub proof fn lemma_work_without_sink(unit: Unit, work: UnitWork)
    requires
        unit.row_count() >= 0,
        is_work_for(unit, false, work),
    ensures
        work is Wait,
        unit.row_count() < 2_000 ==> work->millis == 1,
        1_000 <= unit.row_count() < 5_001_000 ==> work->millis * 1000 <= unit.row_count() < (
        work->millis + 1) * 1000,
        unit.row_count() >= 5_000_000 ==> work->millis == 5_000,
{
    lemma_wait_millis(unit.row_count());
}

/// A threshold that is set counts as it is.
pub proof fn lemma_thresholds_count(n: u64)
    ensures
        n >= 1 ==> at_least_one(n) == n,
        at_least_one(0) == 1,
{
}

/// The mode tells what became of the commits of a unit: one that was cut, one alone, or several.
pub proof fn lemma_mode_of_unit(unit: Unit)
    ensures
        mode_text(unit) == "split"@ <==> unit is Chunk,
        mode_text(unit) == "single"@ <==> unit is Group && completed_by(unit).len() == 1,
        unit is Group && completed_by(unit).len() >= 2 ==> mode_text(unit) == "merged"@,
{
    reveal_strlit("split");
    reveal_strlit("single");
    reveal_strlit("merged");
    assert("split"@.len() == 5);
    assert("single"@[0] == 's');
    assert("merged"@[0] == 'm');
    assert("single"@.len() == 6 && "merged"@.len() == 6);
}

/// The version that is shown for a unit is the last one that it has to do with, and where the unit
/// completes any, it is the last of those, up to which everything is then complete.
pub proof fn lemma_shown_version(unit: Unit)
    requires
        match unit {
            Unit::Chunk { version, index, count, .. } => 0 <= index < count && i64::MIN <= version
                <= i64::MAX,
            Unit::Group { versions, .. } => versions.len() > 0,
        },
    ensures
        match unit {
            Unit::Chunk { version, index, count, .. } => {
                &&& shown_version(unit) == version
                &&& full_version_after(unit) == (if index + 1 < count {
                    version - 1
                } else {
                    version
                })
                &&& chunks_done_after(unit) == (if index + 1 < count {
                    index + 1
                } else {
                    0
                })
            },
            Unit::Group { versions, .. } => {
                &&& shown_version(unit) == versions[versions.len() - 1]
                &&& full_version_after(unit) == versions[versions.len() - 1]
                &&& chunks_done_after(unit) == 0
                &&& completed_by(unit) == versions
            },
        },
        completed_by(unit).len() > 0 ==> completed_by(unit).last() == full_version_after(unit)
            && chunks_done_after(unit) == 0,
{
}

/// The range that is shown for a chunk names its version first, and then which chunk of how many it
/// is.
pub proof fn lemma_range_names_chunk(version: int, index: int, count: int, rows: int)
    ensures
        ({
            let shown = range_text(Unit::Chunk { version, index, count, rows });
            let first = "v"@ + text::decimal_int(version);
            &&& shown.take(first.len() as int) == first
            &&& shown.skip(first.len() as int) == "[chunk "@ + text::decimal((index + 1) as nat)
                + "/"@ + text::decimal(count as nat) + "]"@
        }),
{
    let shown = range_text(Unit::Chunk { version, index, count, rows });
    let first = "v"@ + text::decimal_int(version);
    let second = "[chunk "@ + text::decimal((index + 1) as nat) + "/"@ + text::decimal(
        count as nat,
    ) + "]"@;
    assert(shown =~= first + second);
    assert(shown.take(first.len() as int) =~= first);
    assert(shown.skip(first.len() as int) =~= second);
}

/// The range that is shown for a group names its first version and, where there are more, the last
/// one and how many there are.
pub proof fn lemma_range_names_group(versions: Seq<i64>, rows: int)
    requires
        versions.len() > 0,
    ensures
        ({
            let shown = range_text(Unit::Group { versions, rows });
            let first = "v"@ + text::decimal_int(versions[0] as int);
            &&& shown.take(first.len() as int) == first
            &&& shown.skip(first.len() as int) == (if versions.len() == 1 {
                Seq::empty()
            } else {
                "-v"@ + text::decimal_int(versions[versions.len() - 1] as int) + " ("@
                    + text::decimal(versions.len()) + " versions)"@
            })
        }),
{
    let shown = range_text(Unit::Group { versions, rows });
    let first = "v"@ + text::decimal_int(versions[0] as int);
    let second = "-v"@ + text::decimal_int(versions[versions.len() - 1] as int) + " ("@
        + text::decimal(versions.len()) + " versions)"@;
    if versions.len() > 1 {
        assert(shown =~= first + second);
        assert(shown.take(first.len() as int) =~= first);
        assert(shown.skip(first.len() as int) =~= second);
    } else {
        assert(shown.take(first.len() as int) =~= first);
        assert(shown.skip(first.len() as int) =~= Seq::<char>::empty());
    }
}

/// What a finished unit brings to the dashboard.
#[derive(Debug, Clone)]
pub struct ConsumerUpdate {
    pub mode: String,
    pub range: String,
    pub version: i64,
    pub new_rows: u64,
    pub latency_ms: u64,
    pub avg_latency_ms: u64,
    pub versions_processed: u64,
    pub chunks_processed: u64,
    pub total_rows: u64,
    pub checkpoint: DiskCheckpoint,
}

/// What a consumer does next with a table that it found at some version.
#[derive(Debug, Clone, Copy, PartialEq, Eq, Structural)]
pub enum PollStep {
    /// There is nothing new.
    Idle,
    /// The commits `first..=last` are new.
    Inspect { first: i64, last: i64 },
}

/// How far a consumer has come.
#[derive(Debug, Clone)]
pub struct ConsumerProgress {
    /// The checkpoint after the last finished unit.
    pub checkpoint: DiskCheckpoint,
    /// The version up to which the table has been looked at.
    pub last_version: i64,
    /// The versions completed since the start.
    pub versions_processed: u64,
    /// The units finished since the start.
    pub chunks_processed: u64,
    /// The latencies of the last units.
    pub latencies: RollingAverage,
}

/// The checkpoint that a consumer begins with: the saved one or, where there is none, that of the
/// version that the table had before the start.
pub open spec fn first_checkpoint(
    saved: Option<DiskCheckpoint>,
    pre_launch_version: i64,
) -> DiskCheckpoint {
    match saved {
        Some(c) => c,
        None => DiskCheckpoint {
            last_full_version: pre_launch_version,
            partial_file_offset: 0,
            rows_committed: 0,
        },
    }
}

/// What a consumer that has looked at a table up to `last_version` does with it at `current`.
pub open spec fn poll_step(last_version: i64, current: i64) -> PollStep {
    if current <= last_version {
        PollStep::Idle
    } else {
        PollStep::Inspect { first: (last_version + 1) as i64, last: current }
    }
}

/// Whether `new` is `old` after `unit` has been finished, and `u` is what the dashboard is to show.
pub open spec fn unit_recorded(
    old: ConsumerProgress,
    unit: Unit,
    latency_ms: u64,
    new: ConsumerProgress,
    u: ConsumerUpdate,
) -> bool {
    &&& checkpoint_step(old.checkpoint, unit, new.checkpoint)
    &&& new.versions_processed == old.versions_processed + completed_by(unit).len()
    &&& new.chunks_processed == old.chunks_processed + 1
    &&& new.latencies.values@ == state::pushed_within(
        old.latencies.values@,
        latency_ms,
        state::AVERAGE_WINDOW as nat,
    )
    &&& u.mode@ == mode_text(unit)
    &&& u.range@ == range_text(unit)
    &&& u.version == shown_version(unit)
    &&& u.new_rows == unit.row_count()
    &&& u.latency_ms == latency_ms
    &&& u.avg_latency_ms == state::mean(new.latencies.values@)
    &&& u.versions_processed == new.versions_processed
    &&& u.chunks_processed == new.chunks_processed
    &&& u.total_rows == new.checkpoint.rows_committed
    &&& u.checkpoint == new.checkpoint
}

/// A finished unit is counted once: its rows, the versions that it completes, which are those of a
/// group and that of a last chunk, and itself. Its latency is the newest of the last hundred, and
/// the dashboard gets the totals that include it.
pub proof fn lemma_unit_recorded(
    old: ConsumerProgress,
    unit: Unit,
    latency_ms: u64,
    new: ConsumerProgress,
    u: ConsumerUpdate,
)
    requires
        unit_recorded(old, unit, latency_ms, new, u),
        old.latencies.values@.len() <= 100,
    ensures
        new.checkpoint.rows_committed - old.checkpoint.rows_committed == unit.row_count(),
        new.chunks_processed - old.chunks_processed == 1,
        unit matches Unit::Group { versions, .. } ==> new.versions_processed
            - old.versions_processed == versions.len() && new.checkpoint.last_full_version
            == versions.last() && new.checkpoint.partial_file_offset == 0,
        unit matches Unit::Chunk { version, index, count, .. } ==> {
            &&& index + 1 == count ==> new.versions_processed - old.versions_processed == 1
                && new.checkpoint.last_full_version == version
                && new.checkpoint.partial_file_offset == 0
            &&& index + 1 != count ==> new.versions_processed == old.versions_processed
                && new.checkpoint.last_full_version == version - 1
                && new.checkpoint.partial_file_offset == index + 1
        },
        0 < new.latencies.values@.len() <= 100,
        old.latencies.values@.len() < 100 ==> new.latencies.values@.len()
            == old.latencies.values@.len() + 1,
        new.latencies.values@.last() == latency_ms,
        u.avg_latency_ms * new.latencies.values@.len() <= state::total(new.latencies.values@) < (
        u.avg_latency_ms + 1) * new.latencies.values@.len(),
        u.new_rows == unit.row_count(),
        u.latency_ms == latency_ms,
        u.total_rows == old.checkpoint.rows_committed + unit.row_count(),
        u.versions_processed == new.versions_processed,
        u.chunks_processed == old.chunks_processed + 1,
        u.checkpoint == new.checkpoint,
{
    state::lemma_average_window(old.latencies.values@, latency_ms);
    state::lemma_mean(new.latencies.values@, latency_ms);
}

impl ConsumerProgress {
    /// Goes on from the saved checkpoint or, where there is none, behind the version that the
    /// table had before the start.
    pub fn new(saved: Option<DiskCheckpoint>, pre_launch_version: i64) -> (r: Self)
        ensures
            r.checkpoint == first_checkpoint(saved, pre_launch_version),
            r.last_version == r.checkpoint.last_full_version,
            r.versions_processed == 0,
            r.chunks_processed == 0,
            r.latencies.values@ == Seq::<u64>::empty(),
    {
        let checkpoint = match saved {
            Some(c) => c,
            None => DiskCheckpoint {
                last_full_version: pre_launch_version,
                partial_file_offset: 0,
                rows_committed: 0,
            },
        };
        ConsumerProgress {
            checkpoint,
            last_version: checkpoint.last_full_version,
            versions_processed: 0,
            chunks_processed: 0,
            latencies: RollingAverage::new(),
        }
    }

    /// What to do with a table at version `current`.
    pub fn poll(&self, current: i64) -> (r: PollStep)
        ensures
            r == poll_step(self.last_version, current),
    {
        if current <= self.last_version {
            PollStep::Idle
        } else {
            PollStep::Inspect { first: self.last_version + 1, last: current }
        }
    }

    /// Whether the counters have room for `unit`.
    pub open spec fn has_room_for(&self, unit: &WorkUnit) -> bool {
        &&& unit.valid()
        &&& self.checkpoint.rows_committed + unit@.row_count() <= u64::MAX
        &&& self.versions_processed + completed_by(unit@).len() <= u64::MAX
        &&& self.chunks_processed < u64::MAX
    }

    /// Whether the counters have room for `unit`.
    pub fn can_record(&self, unit: &WorkUnit) -> (r: bool)
        ensures
            r == self.has_room_for(unit),
    {
        let (valid, completed): (bool, u64) = match unit {
            WorkUnit::Chunk { version, index, count, .. } => (
                *index < *count && *version > i64::MIN,
                if *index < *count && *index == *count - 1 {
                    1
                } else {
                    0
                },
            ),
            WorkUnit::Group { versions, .. } => (versions.len() > 0, versions.len() as u64),
        };
        valid && unit.rows() <= u64::MAX - self.checkpoint.rows_committed && completed <= u64::MAX
            - self.versions_processed && self.chunks_processed < u64::MAX
    }

    /// Takes in a finished unit: moves the checkpoint behind it, counts it, and says what the
    /// dashboard is to show.
    pub fn record(&mut self, unit: &WorkUnit, latency_ms: u64) -> (u: ConsumerUpdate)
        requires
            old(self).has_room_for(unit),
        ensures
            unit_recorded(*old(self), unit@, latency_ms, *final(self), u),
            final(self).last_version == old(self).last_version,
    {
        let rows: u64 = unit.rows();
        let total_rows: u64 = self.checkpoint.rows_committed + rows;
        let (version, checkpoint, completed): (i64, DiskCheckpoint, u64) = match unit {
            WorkUnit::Chunk { version, index, count, .. } => if *index == *count - 1 {
                (
                    *version,
                    DiskCheckpoint {
                        last_full_version: *version,
                        partial_file_offset: 0,
                        rows_committed: total_rows,
                    },
                    1,
                )
            } else {
                (
                    *version,
                    DiskCheckpoint {
                        last_full_version: *version - 1,
                        partial_file_offset: *index + 1,
                        rows_committed: total_rows,
                    },
                    0,
                )
            },
            WorkUnit::Group { versions, .. } => {
                let last: i64 = versions[versions.len() - 1];
                (
                    last,
                    DiskCheckpoint {
                        last_full_version: last,
                        partial_file_offset: 0,
                        rows_committed: total_rows,
                    },
                    versions.len() as u64,
                )
            },
        };
        self.checkpoint = checkpoint;
        self.versions_processed = self.versions_processed + completed;
        self.chunks_processed = self.chunks_processed + 1;
        let avg_latency_ms = self.latencies.record(latency_ms);
        ConsumerUpdate {
            mode: unit.mode(),
            range: unit.range(),
            version,
            new_rows: rows,
            latency_ms,
            avg_latency_ms,
            versions_processed: self.versions_processed,
            chunks_processed: self.chunks_processed,
            total_rows,
            checkpoint,
        }
    }

    /// Takes in that the table was looked at up to version `current`.
    pub fn finish_poll(&mut self, current: i64)
        ensures
            *final(self) == (ConsumerProgress { last_version: current, ..*old(self) }),
    {
        self.last_version = current;
    }
}

// ---------------------------------------------------------------------------
// The dashboard
// ---------------------------------------------------------------------------

/// Whether `new` is `old` after the update `u` at time `timestamp`.
pub open spec fn consumer_updated(
    old: ConsumerState,
    u: ConsumerUpdate,
    timestamp: String,
    new: ConsumerState,
) -> bool {
    &&& new.status@ == "Processing"@
    &&& new.mode == u.mode
    &&& new.versions_processed == u.versions_processed
    &&& new.chunks_processed == u.chunks_processed
    &&& new.total_rows_consumed == u.total_rows
    &&& new.last_version_seen == u.version
    &&& new.pending_versions == old.pending_versions
    &&& new.last_poll_duration_ms == u.latency_ms
    &&& new.avg_latency_ms == u.avg_latency_ms
    &&& new.checkpoint@ == state::checkpoint_text(u.checkpoint)
    &&& new.events@ == state::pushed_within(
        old.events@,
        ConsumerEvent {
            timestamp,
            mode: u.mode,
            range: u.range,
            version: u.version,
            new_rows: u.new_rows,
            latency_ms: u.latency_ms,
        },
        state::MAX_EVENTS as nat,
    )
}

/// Shows a finished unit that was finished at `timestamp`.
pub fn update_consumer_state_at(s: &mut ConsumerState, u: &ConsumerUpdate, timestamp: String)
    ensures
        consumer_updated(*old(s), *u, timestamp, *final(s)),
{
    s.status = "Processing".to_string();
    s.mode = u.mode.clone();
    s.versions_processed = u.versions_processed;
    s.chunks_processed = u.chunks_processed;
    s.total_rows_consumed = u.total_rows;
    s.last_version_seen = u.version;
    s.last_poll_duration_ms = u.latency_ms;
    s.avg_latency_ms = u.avg_latency_ms;
    s.checkpoint = state::fmt_ckpt(&u.checkpoint);
    let event = ConsumerEvent {
        timestamp,
        mode: u.mode.clone(),
        range: u.range.clone(),
        version: u.version,
        new_rows: u.new_rows,
        latency_ms: u.latency_ms,
    };
    state::push_within(&mut s.events, event, state::MAX_EVENTS);
}

/// Shows a unit that has just been finished.
pub fn update_consumer_state(s: &mut ConsumerState, u: &ConsumerUpdate)
    ensures
        exists|timestamp: String|
            clock::time_of_day(timestamp@) && #[trigger] consumer_updated(
                *old(s),
                *u,
                timestamp,
                *final(s),
            ),
{
    let timestamp = clock::utc_clock_seconds();
    let ghost shown = timestamp;
    update_consumer_state_at(s, u, timestamp);
    assert(consumer_updated(*old(s), *u, shown, *s));
}

/// The dashboard shows the numbers of a finished unit as they are, and its event last; what was
/// found pending stays.
pub proof fn lemma_consumer_shows_unit(
    old: ConsumerState,
    u: ConsumerUpdate,
    timestamp: String,
    new: ConsumerState,
)
    requires
        consumer_updated(old, u, timestamp, new),
        old.events@.len() <= 50,
    ensures
        new.mode == u.mode,
        new.versions_processed == u.versions_processed,
        new.chunks_processed == u.chunks_processed,
        new.total_rows_consumed == u.total_rows,
        new.last_version_seen == u.version,
        new.last_poll_duration_ms == u.latency_ms,
        new.avg_latency_ms == u.avg_latency_ms,
        new.pending_versions == old.pending_versions,
        0 < new.events@.len() <= 50,
        old.events@.len() < 50 ==> new.events@.len() == old.events@.len() + 1,
        new.events@.last() == (ConsumerEvent {
            timestamp,
            mode: u.mode,
            range: u.range,
            version: u.version,
            new_rows: u.new_rows,
            latency_ms: u.latency_ms,
        }),
{
}

/// The counters have room for a unit wherever no sum becomes too large.
pub proof fn lemma_room_for_unit(progress: ConsumerProgress, unit: WorkUnit)
    requires
        unit.valid(),
        progress.checkpoint.rows_committed + unit@.row_count() <= u64::MAX,
        progress.versions_processed + completed_by(unit@).len() <= u64::MAX,
        progress.chunks_processed < u64::MAX,
    ensures
        progress.has_room_for(&unit),
{
}

// ---------------------------------------------------------------------------
// The consumer as a state machine
// ---------------------------------------------------------------------------

/// Whether a consumer that cannot open its table waits for it to be created.
pub open spec fn table_may_appear(message: Seq<char>) -> bool {
    text::occurs_in(message, "Not a Delta table"@) || text::occurs_in(message, "not found"@)
}

/// A failure that says, anywhere in its message, that there is no such table is one after which
/// the table may still be created; any other is not.
pub proof fn lemma_table_may_appear(before: Seq<char>, behind: Seq<char>, message: Seq<char>)
    ensures
        table_may_appear(before + "Not a Delta table"@ + behind),
        table_may_appear(before + "not found"@ + behind),
        (forall|i: int|
            !text::occurs_at(message, "Not a Delta table"@, i) && !text::occurs_at(
                message,
                "not found"@,
                i,
            )) ==> !table_may_appear(message),
{
    text::lemma_occurs_within(before, "Not a Delta table"@, behind);
    text::lemma_occurs_within(before, "not found"@, behind);
}

/// What a consumer does after it has tried to open its table for the first time.
#[derive(Debug, Clone, Copy, PartialEq, Eq, Structural)]
pub enum FirstOpen {
    /// Begin to track the table; save the checkpoint first where none was saved before.
    Track { save_checkpoint: bool },
    /// Wait this long and try again: the table may still be created.
    Retry { seconds: u64 },
    /// Give up.
    Fail,
}

/// What to do after the first attempt to open the table: `failure` is the message with which
/// it failed, `fresh` tells that there was no saved checkpoint.
pub open spec fn first_step(failure: Option<Seq<char>>, fresh: bool) -> FirstOpen {
    match failure {
        None => FirstOpen::Track { save_checkpoint: fresh },
        Some(message) => if table_may_appear(message) {
            FirstOpen::Retry { seconds: 2 }
        } else {
            FirstOpen::Fail
        },
    }
}

/// A consumer gives up only where the message does not tell that the table is missing. A checkpoint
/// is saved before the table is tracked exactly where none was saved before.
pub proof fn lemma_first_step(failure: Option<Seq<char>>, fresh: bool)
    ensures
        failure is None <==> first_step(failure, fresh) is Track,
        failure is None ==> (first_step(failure, fresh)->save_checkpoint <==> fresh),
        first_step(failure, fresh) is Fail <==> failure is Some && !text::occurs_in(
            failure->0,
            "Not a Delta table"@,
        ) && !text::occurs_in(failure->0, "not found"@),
        first_step(failure, fresh) matches FirstOpen::Retry { seconds } ==> seconds == 2,
{
}

/// What to do after the first attempt to open the table: `failure` is the message with which
/// it failed, `fresh` tells that there was no saved checkpoint.
pub fn first_open(failure: &Option<String>, fresh: bool) -> (r: FirstOpen)
    ensures
        r == first_step(sink::optional_view(*failure), fresh),
{
    match failure {
        None => FirstOpen::Track { save_checkpoint: fresh },
        Some(message) => if text::contains(message.as_str(), "Not a Delta table")
            || text::contains(message.as_str(), "not found") {
            FirstOpen::Retry { seconds: 2 }
        } else {
            FirstOpen::Fail
        },
    }
}

/// Where a consumer stands between two actions.
#[derive(Debug, Clone, Copy, PartialEq, Eq, Structural)]
pub enum ConsumerPhase {
    /// The table has never been opened.
    FirstOpen,
    /// The table is not there yet.
    FirstWait,
    /// It is not time for the next poll yet.
    PollWait,
    /// The table is to be opened.
    Open,
    /// The commits `next..=last` are still to be looked at.
    Inspect { next: i64, last: i64 },
    /// All commits up to `last` have been looked at.
    Plan { last: i64 },
    /// A unit of the commits up to `last` is being worked on.
    Work { last: i64 },
    /// The table cannot be opened.
    Failed,
}

/// What a consumer does next.
#[derive(Debug, Clone, PartialEq, Eq)]
pub enum ConsumerAction {
    /// Open the table and tell its version.
    OpenTable,
    Sleep { seconds: u64 },
    /// Look at this commit.
    InspectCommit { version: i64 },
    /// Read the thresholds.
    ReadTunables,
    /// Do this, and tell how long after the beginning of the poll it was done.
    Work(UnitWork),
    Fail,
}

/// Where a running consumer stands.
#[derive(Debug)]
pub struct ConsumerPosition {
    pub progress: ConsumerProgress,
    pub phase: ConsumerPhase,
    /// The pending commits of this poll that have been looked at.
    pub pending: Vec<VersionInfo>,
    /// The units of this poll that are still to be worked on.
    pub plan: Option<PollPlan>,
    /// The unit that is being worked on.
    pub unit: Option<WorkUnit>,
    /// There was no saved checkpoint.
    pub fresh: bool,
    pub sink_enabled: bool,
    pub poll_interval_secs: u64,
}

/// Whether the commits of `p` are in order and lie behind version `after` and before `before`.
pub open spec fn found_between(p: Seq<VersionInfo>, after: int, before: int) -> bool {
    &&& ascending(p)
    &&& forall|i: int| 0 <= i < p.len() ==> after < (#[trigger] p[i]).version < before
}

/// Whether no unit goes past version `last`.
pub open spec fn none_past(units: Seq<Unit>, last: int) -> bool {
    forall|k: int| 0 <= k < units.len() ==> full_version_after(#[trigger] units[k]) <= last
}

/// No unit goes past the last of the commits.
proof fn lemma_none_past(p: Seq<VersionInfo>, th: Thresholds, i: int, c: int, last: int)
    requires
        th.valid(),
        is_position(p, th, i, c),
        forall|k: int| 0 <= k < p.len() ==> (#[trigger] p[k]).version <= last,
    ensures
        none_past(units_from(p, th, i, c), last),
    decreases p.len() - i, chunk_count(p[i].rows as int, th.chunk as int) - c,
{
    let units = units_from(p, th, i, c);
    if i < p.len() {
        let (next_i, next_c) = if p[i].rows > th.split {
            if c + 1 < chunk_count(p[i].rows as int, th.chunk as int) {
                (i, c + 1)
            } else {
                (i + 1, 0)
            }
        } else {
            lemma_group_bounds(p, th, i);
            (group_end(p, th, i, i + 1), 0)
        };
        lemma_none_past(p, th, next_i, next_c, last);
        let rest = units_from(p, th, next_i, next_c);
        assert(units == seq![units[0]] + rest);
        assert(full_version_after(units[0]) <= last);
        assert forall|k: int| 0 <= k < units.len() implies full_version_after(#[trigger] units[k])
            <= last by {
            if k > 0 {
                assert(units[k] == rest[k - 1]);
            }
        }
    }
}

impl ConsumerPosition {
    /// While commits are looked at and planned, those found are in order, newer than all that
    /// were looked at in earlier polls, and newer than what the checkpoint covers. While there is
    /// work, there are a unit and a plan, and no unit goes past the version that was found.
    pub open spec fn valid(&self) -> bool {
        match self.phase {
            ConsumerPhase::Inspect { next, last } => {
                &&& self.progress.last_version < next <= last
                &&& self.progress.checkpoint.last_full_version <= self.progress.last_version
                &&& found_between(self.pending@, self.progress.last_version as int, next as int)
            },
            ConsumerPhase::Plan { last } => {
                &&& self.progress.last_version < last
                &&& self.progress.checkpoint.last_full_version <= self.progress.last_version
                &&& found_between(self.pending@, self.progress.last_version as int, last + 1)
            },
            ConsumerPhase::Work { last } => {
                &&& self.plan matches Some(plan)
                &&& plan.valid()
                &&& plan.versions_have_predecessors()
                &&& self.unit matches Some(unit)
                &&& unit.valid()
                &&& none_past(self.unfinished(), last as int)
            },
            ConsumerPhase::Failed => true,
            _ => self.progress.checkpoint.last_full_version <= self.progress.last_version,
        }
    }

    /// The units of this poll that are not finished, the current one first.
    pub open spec fn unfinished(&self) -> Seq<Unit> {
        match (self.phase, self.plan, self.unit) {
            (ConsumerPhase::Work { .. }, Some(plan), Some(unit)) => seq![unit@] + plan.remaining(),
            _ => Seq::empty(),
        }
    }

    /// Goes on with the next unit of `plan`; ends the poll where there is none.
    fn go_on(&mut self, mut plan: PollPlan, last: i64)
        requires
            plan.valid(),
            plan.versions_have_predecessors(),
            none_past(plan.remaining(), last as int),
            old(self).progress.checkpoint.last_full_version <= last,
        ensures
            final(self).valid(),
            final(self).unfinished() == plan.remaining(),
            final(self).phase == (if plan.remaining().len() > 0 {
                ConsumerPhase::Work { last }
            } else {
                ConsumerPhase::PollWait
            }),
            final(self).progress == (if plan.remaining().len() > 0 {
                old(self).progress
            } else {
                ConsumerProgress { last_version: last, ..old(self).progress }
            }),
            *final(self) == (ConsumerPosition {
                phase: final(self).phase,
                progress: final(self).progress,
                plan: final(self).plan,
                unit: final(self).unit,
                ..*old(self)
            }),
    {
        match plan.next_unit() {
            Some(unit) => {
                self.unit = Some(unit);
                self.plan = Some(plan);
                self.phase = ConsumerPhase::Work { last };
            },
            None => {
                self.unit = None;
                self.plan = None;
                self.progress.finish_poll(last);
                self.phase = ConsumerPhase::PollWait;
                assert(self.unfinished() =~= Seq::<Unit>::empty());
            },
        }
    }
}

/// Where a consumer stands when it has waited.
pub open spec fn phase_after_sleep(phase: ConsumerPhase) -> ConsumerPhase {
    match phase {
        ConsumerPhase::FirstWait => ConsumerPhase::FirstOpen,
        ConsumerPhase::PollWait => ConsumerPhase::Open,
        phase => phase,
    }
}

/// Where a consumer stands when it has tried to open its table for the first time: `failure` is
/// the message with which it failed.
pub open spec fn phase_after_first_open(failure: Option<Seq<char>>) -> ConsumerPhase {
    match failure {
        None => ConsumerPhase::PollWait,
        Some(message) => if table_may_appear(message) {
            ConsumerPhase::FirstWait
        } else {
            ConsumerPhase::Failed
        },
    }
}

/// Where a consumer that has looked at the table up to `last_version` stands when it has opened it
/// at version `current`, or could not open it.
pub open spec fn phase_after_open(last_version: i64, current: Option<i64>) -> ConsumerPhase {
    match current {
        Some(version) if version > last_version => ConsumerPhase::Inspect {
            next: (last_version + 1) as i64,
            last: version,
        },
        _ => ConsumerPhase::PollWait,
    }
}

/// Where a consumer stands when it has looked at commit `next` of those up to `last`.
pub open spec fn phase_after_inspect(next: i64, last: i64) -> ConsumerPhase {
    if next < last {
        ConsumerPhase::Inspect { next: (next + 1) as i64, last }
    } else {
        ConsumerPhase::Plan { last }
    }
}

/// The pending commits when commit `version` has been looked at, which has so many rows; one that
/// could not be read is left out.
pub open spec fn pending_after(
    pending: Seq<VersionInfo>,
    version: i64,
    rows: Option<u64>,
) -> Seq<VersionInfo> {
    match rows {
        Some(rows) => pending.push(VersionInfo { version, rows }),
        None => pending,
    }
}

/// Where a consumer stands that has so many units of the commits up to `last` to work on.
pub open spec fn phase_with_units(units: nat, last: i64) -> ConsumerPhase {
    if units > 0 {
        ConsumerPhase::Work { last }
    } else {
        ConsumerPhase::PollWait
    }
}

/// The version up to which a consumer has dealt with its table, where it has so many units of the
/// commits behind `last_version` and up to `last` to work on.
pub open spec fn last_version_with_units(units: nat, last_version: i64, last: i64) -> i64 {
    if units > 0 {
        last_version
    } else {
        last
    }
}

/// A running consumer.
#[derive(Debug)]
pub struct ConsumerLoop {
    position: ConsumerPosition,
}

impl View for ConsumerLoop {
    type V = ConsumerPosition;

    closed spec fn view(&self) -> ConsumerPosition {
        self.position
    }
}

impl ConsumerLoop {
    /// A consumer that has yet to open its table.
    pub fn new(
        saved: Option<DiskCheckpoint>,
        pre_launch_version: i64,
        sink_enabled: bool,
        poll_interval_secs: u64,
    ) -> (r: Self)
        ensures
            r@.valid(),
            r@.phase == ConsumerPhase::FirstOpen,
            r@.progress.checkpoint == first_checkpoint(saved, pre_launch_version),
            r@.progress.last_version == r@.progress.checkpoint.last_full_version,
            r@.progress.versions_processed == 0,
            r@.progress.chunks_processed == 0,
            r@.progress.latencies.values@ == Seq::<u64>::empty(),
            r@.pending@ == Seq::<VersionInfo>::empty(),
            r@.plan is None,
            r@.unit is None,
            r@.fresh == (saved is None),
            r@.sink_enabled == sink_enabled,
            r@.poll_interval_secs == poll_interval_secs,
    {
        ConsumerLoop {
            position: ConsumerPosition {
                progress: ConsumerProgress::new(saved, pre_launch_version),
                phase: ConsumerPhase::FirstOpen,
                pending: Vec::new(),
                plan: None,
                unit: None,
                fresh: saved.is_none(),
                sink_enabled,
                poll_interval_secs,
            },
        }
    }

    /// What to do next.
    pub fn next(&self) -> (r: ConsumerAction)
        requires
            self@.valid(),
        ensures
            match self@.phase {
                ConsumerPhase::FirstOpen => r == ConsumerAction::OpenTable,
                ConsumerPhase::FirstWait => r == (ConsumerAction::Sleep { seconds: 2 }),
                ConsumerPhase::PollWait => r == (ConsumerAction::Sleep {
                    seconds: self@.poll_interval_secs,
                }),
                ConsumerPhase::Open => r == ConsumerAction::OpenTable,
                ConsumerPhase::Inspect { next, .. } => r == (ConsumerAction::InspectCommit {
                    version: next,
                }),
                ConsumerPhase::Plan { .. } => r == ConsumerAction::ReadTunables,
                ConsumerPhase::Work { .. } => r matches ConsumerAction::Work(work) && is_work_for(
                    self@.unfinished()[0],
                    self@.sink_enabled,
                    work,
                ),
                ConsumerPhase::Failed => r == ConsumerAction::Fail,
            },
    {
        match self.position.phase {
            ConsumerPhase::FirstOpen => ConsumerAction::OpenTable,
            ConsumerPhase::FirstWait => ConsumerAction::Sleep { seconds: 2 },
            ConsumerPhase::PollWait => ConsumerAction::Sleep { seconds: self.position.poll_interval_secs },
            ConsumerPhase::Open => ConsumerAction::OpenTable,
            ConsumerPhase::Inspect { next, .. } => ConsumerAction::InspectCommit { version: next },
            ConsumerPhase::Plan { .. } => ConsumerAction::ReadTunables,
            ConsumerPhase::Work { .. } => match &self.position.unit {
                Some(unit) => ConsumerAction::Work(unit_work(unit, self.position.sink_enabled)),
                None => ConsumerAction::Fail,
            },
            ConsumerPhase::Failed => ConsumerAction::Fail,
        }
    }

    /// Takes in that the time to wait has passed.
    pub fn slept(&mut self)
        requires
            old(self)@.valid(),
        ensures
            final(self)@.valid(),
            final(self)@.phase == phase_after_sleep(old(self)@.phase),
            final(self)@ == (ConsumerPosition { phase: final(self)@.phase, ..old(self)@ }),
    {
        if self.position.phase == ConsumerPhase::FirstWait {
            self.position.phase = ConsumerPhase::FirstOpen;
        } else if self.position.phase == ConsumerPhase::PollWait {
            self.position.phase = ConsumerPhase::Open;
        }
    }

    /// Takes in what came of the first attempt to open the table: `failure` is the message with
    /// which it failed. Gives whether to save the checkpoint.
    pub fn opened_first(&mut self, failure: &Option<String>) -> (save_checkpoint: bool)
        requires
            old(self)@.valid(),
            old(self)@.phase == ConsumerPhase::FirstOpen,
        ensures
            final(self)@.valid(),
            save_checkpoint == (failure is None && old(self)@.fresh),
            final(self)@.phase == phase_after_first_open(sink::optional_view(*failure)),
            final(self)@ == (ConsumerPosition { phase: final(self)@.phase, ..old(self)@ }),
    {
        match first_open(failure, self.position.fresh) {
            FirstOpen::Track { save_checkpoint } => {
                self.position.phase = ConsumerPhase::PollWait;
                save_checkpoint
            },
            FirstOpen::Retry { .. } => {
                self.position.phase = ConsumerPhase::FirstWait;
                false
            },
            FirstOpen::Fail => {
                self.position.phase = ConsumerPhase::Failed;
                false
            },
        }
    }

    /// Takes in that the table was opened at version `current`, or could not be opened. Where
    /// there is nothing new, or the table cannot be opened, the consumer waits for the next poll.
    pub fn opened(&mut self, current: Option<i64>)
        requires
            old(self)@.valid(),
            old(self)@.phase == ConsumerPhase::Open,
        ensures
            final(self)@.valid(),
            final(self)@.pending@ == Seq::<VersionInfo>::empty(),
            final(self)@.phase == phase_after_open(old(self)@.progress.last_version, current),
            final(self)@ == (ConsumerPosition {
                phase: final(self)@.phase,
                pending: final(self)@.pending,
                ..old(self)@
            }),
    {
        self.position.pending = Vec::new();
        self.position.phase =
        match current {
            Some(version) => match self.position.progress.poll(version) {
                PollStep::Idle => ConsumerPhase::PollWait,
                PollStep::Inspect { first, last } => ConsumerPhase::Inspect { next: first, last },
            },
            None => ConsumerPhase::PollWait,
        };
    }

    /// Takes in the rows of the commit that was looked at; one that could not be is left out.
    pub fn inspected(&mut self, rows: Option<u64>)
        requires
            old(self)@.valid(),
            old(self)@.phase is Inspect,
        ensures
            final(self)@.valid(),
            final(self)@.pending@ == pending_after(
                old(self)@.pending@,
                old(self)@.phase->next,
                rows,
            ),
            final(self)@.phase == phase_after_inspect(
                old(self)@.phase->next,
                old(self)@.phase->Inspect_last,
            ),
            final(self)@ == (ConsumerPosition {
                phase: final(self)@.phase,
                pending: final(self)@.pending,
                ..old(self)@
            }),
    {
        if let ConsumerPhase::Inspect { next, last } = self.position.phase {
            if let Some(rows) = rows {
                self.position.pending.push(VersionInfo { version: next, rows });
            }
            self.position.phase =
            if next < last {
                ConsumerPhase::Inspect { next: next + 1, last }
            } else {
                ConsumerPhase::Plan { last }
            };
        }
    }

    /// Takes in the thresholds as they are now, and begins with the units of the pending commits
    /// where the checkpoint says that the work was left.
    pub fn planned(&mut self, tunables: &TunableConfig)
        requires
            old(self)@.valid(),
            old(self)@.phase is Plan,
        ensures
            final(self)@.valid(),
            exists|th: Thresholds|
                {
                    &&& th.valid()
                    &&& th.split == at_least_one(tunables.split_threshold_rows)
                    &&& th.merge == at_least_one(tunables.merge_threshold_rows)
                    &&& th.chunk == at_least_one(tunables.chunk_target_rows)
                    &&& final(self)@.unfinished() == #[trigger] poll_units(
                        old(self)@.pending@,
                        th,
                        old(self)@.progress.checkpoint,
                    )
                },
            final(self)@.phase == phase_with_units(
                final(self)@.unfinished().len(),
                old(self)@.phase->Plan_last,
            ),
            final(self)@.progress == (ConsumerProgress {
                last_version: last_version_with_units(
                    final(self)@.unfinished().len(),
                    old(self)@.progress.last_version,
                    old(self)@.phase->Plan_last,
                ),
                ..old(self)@.progress
            }),
            final(self)@.fresh == old(self)@.fresh,
            final(self)@.sink_enabled == old(self)@.sink_enabled,
            final(self)@.poll_interval_secs == old(self)@.poll_interval_secs,
    {
        if let ConsumerPhase::Plan { last } = self.position.phase {
            let mut pending: Vec<VersionInfo> = Vec::new();
            let ghost found = self.position.pending@;
            std::mem::swap(&mut pending, &mut self.position.pending);
            let th = Thresholds::new(tunables);
            let plan = PollPlan::new(pending, th, &self.position.progress.checkpoint);
            proof {
                assert(plan.remaining() == poll_units(found, th, self.position.progress.checkpoint));
                lemma_none_past(
                    found,
                    th,
                    0,
                    resume_chunk(found, th, self.position.progress.checkpoint),
                    last as int,
                );
            }
            self.position.go_on(plan, last);
        }
    }

    /// Whether the counters have room for the unit that is being worked on.
    pub fn can_finish_unit(&self) -> (r: bool)
        ensures
            r == (self@.unit matches Some(unit) && self@.progress.has_room_for(&unit)),
    {
        match &self.position.unit {
            Some(unit) => self.position.progress.can_record(unit),
            None => false,
        }
    }

    /// Takes in that the unit has been worked on: counts it, moves the checkpoint behind it,
    /// which is then to be saved, and goes on with the next one. Gives what to show.
    pub fn worked(&mut self, latency_ms: u64) -> (u: ConsumerUpdate)
        requires
            old(self)@.valid(),
            old(self)@.phase is Work,
            old(self)@.unit matches Some(unit) && old(self)@.progress.has_room_for(&unit),
        ensures
            final(self)@.valid(),
            final(self)@.unfinished() == old(self)@.unfinished().skip(1),
            unit_recorded(
                old(self)@.progress,
                old(self)@.unfinished()[0],
                latency_ms,
                final(self)@.progress,
                u,
            ),
            final(self)@.phase == phase_with_units(
                final(self)@.unfinished().len(),
                old(self)@.phase->Work_last,
            ),
            final(self)@.progress.last_version == last_version_with_units(
                final(self)@.unfinished().len(),
                old(self)@.progress.last_version,
                old(self)@.phase->Work_last,
            ),
            final(self)@.fresh == old(self)@.fresh,
            final(self)@.sink_enabled == old(self)@.sink_enabled,
            final(self)@.poll_interval_secs == old(self)@.poll_interval_secs,
    {
        let mut unit: Option<WorkUnit> = None;
        std::mem::swap(&mut unit, &mut self.position.unit);
        let mut plan: Option<PollPlan> = None;
        std::mem::swap(&mut plan, &mut self.position.plan);
        let last: i64 = match self.position.phase {
            ConsumerPhase::Work { last } => last,
            _ => 0,
        };
        let unit = unit.unwrap();
        let plan = plan.unwrap();
        let u = self.position.progress.record(&unit, latency_ms);
        proof {
            assert(old(self)@.unfinished() == seq![unit@] + plan.remaining());
            assert(old(self)@.unfinished().skip(1) =~= plan.remaining());
            assert(full_version_after(old(self)@.unfinished()[0]) <= last);
            assert forall|k: int| 0 <= k < plan.remaining().len() implies full_version_after(
                #[trigger] plan.remaining()[k],
            ) <= last by {
                assert(old(self)@.unfinished()[k + 1] == plan.remaining()[k]);
            }
        }
        self.position.go_on(plan, last);
        u
    }

    /// Where the consumer stands.
    pub fn position(&self) -> (r: &ConsumerPosition)
        ensures
            *r == self@,
    {
        &self.position
    }
}

/// The commits that a consumer looks at before it plans its work, from where it stands on.
pub open spec fn looked_at(phase: ConsumerPhase) -> Seq<i64>
    decreases
            (match phase {
                ConsumerPhase::Inspect { next, last } => if next <= last {
                    last - next + 1
                } else {
                    0
                },
                _ => 0,
            }),
{
    match phase {
        ConsumerPhase::Inspect { next, last } => if next <= last {
            seq![next] + looked_at(phase_after_inspect(next, last))
        } else {
            seq![]
        },
        _ => seq![],
    }
}

proof fn lemma_looked_at(next: i64, last: i64)
    requires
        next <= last,
    ensures
        looked_at(ConsumerPhase::Inspect { next, last }) == Seq::new(
            (last - next + 1) as nat,
            |i: int| (next + i) as i64,
        ),
    decreases last - next,
{
    let all = looked_at(ConsumerPhase::Inspect { next, last });
    if next < last {
        lemma_looked_at((next + 1) as i64, last);
    } else {
        assert(looked_at(ConsumerPhase::Plan { last }) =~= Seq::<i64>::empty());
    }
    assert(all =~= Seq::new((last - next + 1) as nat, |i: int| (next + i) as i64));
}

/// A poll looks at every commit that is newer than those of the polls before, each once and in
/// order, up to the version at which the table was found. Where there is none, it waits.
pub proof fn lemma_poll_looks_at_every_commit(last_version: i64, current: i64)
    ensures
        last_version < current ==> looked_at(phase_after_open(last_version, Some(current)))
            == Seq::new((current - last_version) as nat, |i: int| (last_version + 1 + i) as i64),
        last_version < current ==> phase_after_inspect(current, current) == (ConsumerPhase::Plan {
            last: current,
        }),
        current <= last_version ==> phase_after_open(last_version, Some(current))
            == ConsumerPhase::PollWait,
        phase_after_open(last_version, None) == ConsumerPhase::PollWait,
        poll_step(last_version, current) is Idle <==> current <= last_version,
        poll_step(last_version, current) matches PollStep::Inspect { first, last } ==> first
            == last_version + 1 && last == current,
{
    if last_version < current {
        lemma_looked_at((last_version + 1) as i64, current);
        assert(looked_at(phase_after_open(last_version, Some(current))) =~= Seq::new(
            (current - last_version) as nat,
            |i: int| (last_version + 1 + i) as i64,
        ));
    }
}

/// The pending commits of a poll that has looked at the commits from `first` on, with these rows.
pub open spec fn commits_found(first: int, rows: Seq<Option<u64>>) -> Seq<VersionInfo>
    decreases rows.len(),
{
    if rows.len() == 0 {
        seq![]
    } else {
        pending_after(
            commits_found(first, rows.drop_last()),
            (first + rows.len() - 1) as i64,
            rows.last(),
        )
    }
}

/// Every commit that could be read is pending, with its version and its rows, and no other is.
pub proof fn lemma_commits_found(first: int, rows: Seq<Option<u64>>, c: VersionInfo)
    requires
        i64::MIN <= first,
        first + rows.len() <= i64::MAX,
    ensures
        commits_found(first, rows).contains(c) <==> first <= c.version < first + rows.len()
            && rows[c.version - first] == Some(c.rows),
        ascending(commits_found(first, rows)),
        forall|i: int|
            0 <= i < commits_found(first, rows).len() ==> first <= (#[trigger] commits_found(
                first,
                rows,
            )[i]).version < first + rows.len(),
    decreases rows.len(),
{
    let all = commits_found(first, rows);
    if rows.len() > 0 {
        let before = commits_found(first, rows.drop_last());
        lemma_commits_found(first, rows.drop_last(), c);
        if let Some(n) = rows.last() {
            let added = VersionInfo { version: (first + rows.len() - 1) as i64, rows: n };
            assert(all == before.push(added));
            assert(all.last() == added);
            if before.contains(c) {
                let k = choose|k: int| 0 <= k < before.len() && before[k] == c;
                assert(all[k] == c);
            }
            if all.contains(c) && c != added {
                let k = choose|k: int| 0 <= k < all.len() && all[k] == c;
                assert(before[k] == c);
            }
        }
    }
}

/// A consumer begins behind its saved checkpoint and, where there is none, behind the version that
/// the table had before the start, with nothing consumed.
pub proof fn lemma_consumer_begins(saved: DiskCheckpoint, pre_launch_version: i64)
    ensures
        first_checkpoint(Some(saved), pre_launch_version) == saved,
        first_checkpoint(None, pre_launch_version).last_full_version == pre_launch_version,
        first_checkpoint(None, pre_launch_version).partial_file_offset == 0,
        first_checkpoint(None, pre_launch_version).rows_committed == 0,
{
}

/// While there are units of a poll, the consumer works on them and the table is not opened anew.
/// Then the next poll begins with the commit behind the last that this poll looked at.
pub proof fn lemma_polls_follow_one_another(units: nat, last_version: i64, last: i64, current: i64)
    ensures
        units > 0 ==> phase_with_units(units, last) == (ConsumerPhase::Work { last })
            && last_version_with_units(units, last_version, last) == last_version,
        phase_after_sleep(phase_with_units(0, last)) == ConsumerPhase::Open,
        last < current ==> phase_after_open(
            last_version_with_units(0, last_version, last),
            Some(current),
        ) == (ConsumerPhase::Inspect { next: (last + 1) as i64, last: current }),
{
}

/// A table that may still appear is opened again after a wait, until it is there. Then it is
/// polled. Any other failure ends the consumer.
pub proof fn lemma_first_open(message: Seq<char>)
    ensures
        phase_after_first_open(None) == ConsumerPhase::PollWait,
        text::occurs_in(message, "not found"@) || text::occurs_in(message, "Not a Delta table"@)
            ==> phase_after_sleep(phase_after_first_open(Some(message)))
            == ConsumerPhase::FirstOpen,
        phase_after_first_open(Some(message)) is Failed <==> !text::occurs_in(
            message,
            "not found"@,
        ) && !text::occurs_in(message, "Not a Delta table"@),
{
}

/// Shows that the consumer tracks its table from its checkpoint on.
pub fn show_tracking(s: &mut ConsumerState, progress: &ConsumerProgress)
    ensures
        final(s).status@ == "Tracking"@,
        final(s).checkpoint@ == state::checkpoint_text(progress.checkpoint),
        *final(s) == (ConsumerState {
            status: final(s).status,
            last_version_seen: progress.last_version,
            checkpoint: final(s).checkpoint,
            ..*old(s)
        }),
{
    s.status = "Tracking".to_string();
    s.last_version_seen = progress.last_version;
    s.checkpoint = state::fmt_ckpt(&progress.checkpoint);
}

/// Shows that a poll found nothing new.
pub fn show_polling(s: &mut ConsumerState)
    ensures
        final(s).status@ == "Polling..."@,
        *final(s) == (ConsumerState {
            status: final(s).status,
            pending_versions: 0,
            ..*old(s)
        }),
{
    s.status = "Polling...".to_string();
    s.pending_versions = 0;
}

/// Shows how many commits a poll found pending.
pub fn show_pending(s: &mut ConsumerState, pending: usize)
    ensures
        *final(s) == (ConsumerState { pending_versions: pending as u64, ..*old(s) }),
{
    s.pending_versions = pending as u64;
}

/// The version to start behind: that of the table before the start, -1 where it cannot be
/// opened or has no version yet.
pub open spec fn baseline_version(opened: Option<Option<u64>>) -> int {
    match opened {
        Some(version) => util::signed_version(version),
        None => -1,
    }
}

/// The version to start behind: that of the table before the start, -1 where it cannot be
/// opened or has no version yet.
pub fn capture_baseline_version(opened: Option<Option<u64>>) -> (r: i64)
    ensures
        r == baseline_version(opened),
{
    match opened {
        Some(version) => util::version_to_i64(version),
        None => -1,
    }
}

// ---------------------------------------------------------------------------
// The sink of a consumer
// ---------------------------------------------------------------------------

/// Why the sink of a consumer cannot be set up.
#[derive(Debug, Clone, PartialEq, Eq)]
pub enum SetupError {
    /// The mode is not described properly.
    Mode(SinkError),
    /// The storage of a table cannot be accessed.
    Storage(ConfigError),
}

/// The options of the table at `uri`, or why there are none.
pub open spec fn options_result(
    uri: Seq<char>,
    azure_auth: Seq<char>,
    env: StorageEnv,
    r: Result<Seq<(String, String)>, ConfigError>,
) -> bool {
    let auth = config::resolved_auth(config::normalised_auth(azure_auth), env);
    match r {
        Ok(options) => config::storage_options(uri, auth, env) == Some(
            config::option_views(options),
        ),
        Err(e) => config::storage_options(uri, auth, env) is None && config::is_auth_error(e, auth),
    }
}

/// Whether `r` is the mode of the sink that the configuration describes.
pub open spec fn configured_mode(cfg: Config, r: Result<SinkMode, SinkError>) -> bool {
    sink::is_parsed_mode(
        cfg.sink_mode@,
        cfg.merge_keys@,
        cfg.merge_update_columns@,
        cfg.merge_update_predicate,
        cfg.merge_delete_predicate,
        cfg.merge_insert_predicate,
        None,
        None,
        None,
        r,
    )
}

/// Whether `r` is the sink that the configuration describes: it reads from the consumer's table and
/// writes to the target table.
pub open spec fn sink_configured(
    cfg: Config,
    env: StorageEnv,
    r: Result<SinkConfig, SetupError>,
) -> bool {
    match r {
        Ok(sc) => {
            &&& sc.source_uri == cfg.table_uri
            &&& sc.target_uri == cfg.target_table_uri
            &&& configured_mode(cfg, Ok(sc.mode))
            &&& options_result(
                cfg.table_uri@,
                cfg.azure_auth@,
                env,
                Ok(sc.source_storage_options@),
            )
            &&& options_result(
                cfg.target_table_uri@,
                cfg.azure_auth@,
                env,
                Ok(sc.target_storage_options@),
            )
            &&& sc.read_concurrency == 8
        },
        Err(SetupError::Mode(e)) => configured_mode(cfg, Err(e)),
        Err(SetupError::Storage(e)) => {
            &&& exists|mode: SinkMode| configured_mode(cfg, Ok(mode))
            &&& options_result(cfg.table_uri@, cfg.azure_auth@, env, Err(e)) || {
                &&& exists|o: Seq<(String, String)>|
                    #[trigger] options_result(cfg.table_uri@, cfg.azure_auth@, env, Ok(o))
                &&& options_result(cfg.target_table_uri@, cfg.azure_auth@, env, Err(e))
            }
        },
    }
}

/// Between local tables rows can always be appended, and always be written over: the sink reads
/// from the one table and writes to the other, each with no options.
pub proof fn lemma_local_sink(cfg: Config, env: StorageEnv, r: Result<SinkConfig, SetupError>)
    requires
        sink_configured(cfg, env, r),
        config::backend_of(cfg.table_uri@) == config::Backend::LocalFs,
        config::backend_of(cfg.target_table_uri@) == config::Backend::LocalFs,
        text::lower(cfg.sink_mode@) == "append"@ || text::lower(cfg.sink_mode@) == "overwrite"@,
    ensures
        r is Ok,
        r->Ok_0.source_uri == cfg.table_uri,
        r->Ok_0.target_uri == cfg.target_table_uri,
        r->Ok_0.source_storage_options@.len() == 0,
        r->Ok_0.target_storage_options@.len() == 0,
        r->Ok_0.mode is Append <==> text::lower(cfg.sink_mode@) == "append"@,
        r->Ok_0.mode is Overwrite <==> text::lower(cfg.sink_mode@) == "overwrite"@,
        r->Ok_0.read_concurrency == 8,
{
    reveal_strlit("append");
    reveal_strlit("overwrite");
    assert("append"@.len() == 6 && "overwrite"@.len() == 9);
    if let Ok(sc) = r {
        assert(config::option_views(sc.source_storage_options@).len() == 0);
        assert(config::option_views(sc.target_storage_options@).len() == 0);
    }
}

/// The sink that the configuration describes: it reads from the consumer's table and writes to
/// the target table.
pub fn build_sink_config(cfg: &Config, env: &StorageEnv) -> (r: Result<SinkConfig, SetupError>)
    ensures
        sink_configured(*cfg, *env, r),
{
    let mode = match sink::parse_mode(
        cfg.sink_mode.as_str(),
        cfg.merge_keys.as_str(),
        cfg.merge_update_columns.as_str(),
        text::copy_option(&cfg.merge_update_predicate),
        text::copy_option(&cfg.merge_delete_predicate),
        text::copy_option(&cfg.merge_insert_predicate),
        None,
        None,
        None,
    ) {
        Ok(mode) => mode,
        Err(e) => {
            return Err(SetupError::Mode(e));
        },
    };
    assert(configured_mode(*cfg, Ok(mode)));
    let source_storage_options = match cfg.storage_options(env) {
        Ok(options) => options,
        Err(e) => {
            return Err(SetupError::Storage(e));
        },
    };
    assert(options_result(
        cfg.table_uri@,
        cfg.azure_auth@,
        *env,
        Ok(source_storage_options@),
    ));
    let target_storage_options = match cfg.target_storage_options(env) {
        Ok(options) => options,
        Err(e) => {
            return Err(SetupError::Storage(e));
        },
    };
    Ok(
        SinkConfig {
            source_uri: cfg.table_uri.clone(),
            target_uri: cfg.target_table_uri.clone(),
            source_storage_options,
            target_storage_options,
            mode,
            read_concurrency: 8,
        },
    )
}

/// Shows the sink that a consumer starts with, if any.
pub fn show_sink(s: &mut SinkState, cfg: &Config, sink: &Option<SinkConfig>)
    ensures
        final(s).enabled == cfg.sink_enabled,
        match sink {
            Some(sc) => {
                &&& final(s).mode@ == sc.mode.name_text()
                &&& final(s).target_uri == sc.target_uri
                &&& final(s).target_backend@ == config::backend_of(
                    cfg.target_table_uri@,
                ).label_text()
                &&& final(s).status@ == "Idle"@
                &&& *final(s) == (SinkState {
                    enabled: cfg.sink_enabled,
                    mode: final(s).mode,
                    target_uri: final(s).target_uri,
                    target_backend: final(s).target_backend,
                    status: final(s).status,
                    ..*old(s)
                })
            },
            None => *final(s) == (SinkState { enabled: cfg.sink_enabled, ..*old(s) }),
        },
{
    s.enabled = cfg.sink_enabled;
    if let Some(sc) = sink {
        s.mode = sc.mode.name().to_string();
        s.target_uri = sc.target_uri.clone();
        s.target_backend = cfg.target_backend().label().to_string();
        s.status = "Idle".to_string();
    }
}

/// Shows that so many versions are being applied.
pub fn show_sinking(s: &mut SinkState, versions: usize)
    ensures
        final(s).status@ == "Sinking "@ + text::decimal(versions as nat) + " version(s)..."@,
        *final(s) == (SinkState { status: final(s).status, ..*old(s) }),
{
    let mut status = "Sinking ".to_string();
    text::push_usize(&mut status, versions);
    status.append(" version(s)...");
    s.status = status;
}

// ---------------------------------------------------------------------------
// Commit files
// ---------------------------------------------------------------------------

/// The JSON text of member `key` of the JSON object `text`; `None` where `text` is no JSON
/// document, is no object or has no such member.
pub uninterp spec fn json_member(text: Seq<char>, key: Seq<char>) -> Option<Seq<char>>;

/// The string that the JSON document `text` stands for; `None` where it is no document or no
/// string.
pub uninterp spec fn json_string(text: Seq<char>) -> Option<Seq<char>>;

/// The number that the JSON document `text` stands for; `None` where it is no document or no
/// integer between 0 and 2^64 - 1.
pub uninterp spec fn json_unsigned(text: Seq<char>) -> Option<u64>;

/// Calls `serde_json::Value::get` on the value that `text` parses to, and hands out the member
/// as JSON text. Claimed is that the result depends on `text` and `key` alone.
#[verifier::external_body]
fn member_of(text: &str, key: &str) -> (r: Option<String>)
    ensures
        match r {
            Some(member) => json_member(text@, key@) == Some(member@),
            None => json_member(text@, key@) is None,
        },
{
    let value: serde_json::Value = serde_json::from_str(text).ok()?;
    match value.get(key) {
        Some(member) => Some(member.to_string()),
        None => None,
    }
}

/// Calls `serde_json::Value::as_str` on the value that `text` parses to. Claimed is that the
/// result depends on `text` alone.
#[verifier::external_body]
fn string_in(text: &str) -> (r: Option<String>)
    ensures
        match r {
            Some(s) => json_string(text@) == Some(s@),
            None => json_string(text@) is None,
        },
{
    let value: serde_json::Value = serde_json::from_str(text).ok()?;
    match value.as_str() {
        Some(s) => Some(s.to_string()),
        None => None,
    }
}

/// Calls `serde_json::Value::as_u64` on the value that `text` parses to. Claimed is that the
/// result depends on `text` alone.
#[verifier::external_body]
fn unsigned_in(text: &str) -> (r: Option<u64>)
    ensures
        r == json_unsigned(text@),
{
    let value: serde_json::Value = serde_json::from_str(text).ok()?;
    value.as_u64()
}

/// Calls `std::str::from_utf8`: the text of `bytes` where they are valid UTF-8.
#[verifier::external_body]
fn text_of_utf8(bytes: &Vec<u8>) -> (r: Option<String>)
    ensures
        match r {
            Some(t) => vstd::utf8::valid_utf8(bytes@) && t@ == vstd::utf8::decode_utf8(bytes@),
            None => !vstd::utf8::valid_utf8(bytes@),
        },
{
    match std::str::from_utf8(bytes) {
        Ok(t) => Some(t.to_string()),
        Err(_) => None,
    }
}

/// The statistics of an added file as a JSON document: a JSON string holds the document as its
/// content, anything else is the document itself.
pub open spec fn statistics(stats: Seq<char>, content: Option<Seq<char>>) -> Seq<char> {
    match content {
        Some(t) => t,
        None => stats,
    }
}

/// The statistics of an added file as a JSON document, where `content` is the string that
/// `stats` stands for, if it is one.
pub fn statistics_document(stats: String, content: Option<String>) -> (r: String)
    ensures
        r@ == statistics(
            stats@,
            match content {
                Some(t) => Some(t@),
                None => None,
            },
        ),
{
    match content {
        Some(t) => t,
        None => stats,
    }
}

/// The rows that one action of a commit adds, where it is an `add` that counts its records.
pub open spec fn action_rows(action: Seq<char>) -> Option<u64> {
    match json_member(action, "add"@) {
        None => None,
        Some(add) => match json_member(add, "stats"@) {
            None => None,
            Some(stats) => match json_member(
                statistics(stats, json_string(stats)),
                "numRecords"@,
            ) {
                None => None,
                Some(count) => json_unsigned(count),
            },
        },
    }
}

/// The rows that one action of a commit adds, where it is an `add` that counts its records.
pub fn count_action_rows(action: &str) -> (r: Option<u64>)
    ensures
        r == action_rows(action@),
{
    let add = match member_of(action, "add") {
        None => {
            return None;
        },
        Some(add) => add,
    };
    let stats = match member_of(add.as_str(), "stats") {
        None => {
            return None;
        },
        Some(stats) => stats,
    };
    let content = string_in(stats.as_str());
    let document = statistics_document(stats, content);
    match member_of(document.as_str(), "numRecords") {
        None => None,
        Some(count) => unsigned_in(count.as_str()),
    }
}

/// The sum of the counts that are there.
pub open spec fn sum_of_counts(counts: Seq<Option<u64>>) -> nat
    decreases counts.len(),
{
    if counts.len() == 0 {
        0
    } else {
        sum_of_counts(counts.drop_last()) + (match counts.last() {
            Some(n) => n as nat,
            None => 0,
        })
    }
}

/// The sum of the counts that are there; `None` where it is too large.
pub fn add_counts(counts: &Vec<Option<u64>>) -> (r: Option<u64>)
    ensures
        match r {
            Some(n) => n == sum_of_counts(counts@),
            None => sum_of_counts(counts@) > u64::MAX,
        },
{
    let n: usize = counts.len();
    let mut sum: u128 = 0;
    for i in 0..n
        invariant
            n == counts.len(),
            sum == sum_of_counts(counts@.take(i as int)),
            sum <= i * 0xffff_ffff_ffff_ffff,
    {
        assert(counts@.take(i + 1).drop_last() =~= counts@.take(i as int));
        if let Some(c) = counts[i] {
            sum = sum + c as u128;
        }
    }
    assert(counts@.take(n as int) =~= counts@);
    if sum > 0xffff_ffff_ffff_ffff {
        None
    } else {
        Some(sum as u64)
    }
}

/// Why the rows of a commit cannot be counted.
#[derive(Debug, Clone, Copy, PartialEq, Eq, Structural)]
pub enum CommitError {
    /// The commit file is not valid UTF-8.
    NotUtf8,
    /// The counts add up to more than 2^64 - 1.
    TooManyRows,
}

/// The actions of a commit file: its lines, trimmed, without the blank ones.
pub open spec fn actions(content: Seq<char>) -> Seq<Seq<char>> {
    text::trimmed_pieces(content, '\n')
}

/// The row count of each action of a commit file.
pub open spec fn action_counts(content: Seq<char>) -> Seq<Option<u64>> {
    Seq::new(actions(content).len(), |i: int| action_rows(actions(content)[i]))
}

/// The commit `version` and the rows that it adds, counted in the content of its commit file
/// without a look at any data file. Lines that are not actions count nothing.
pub fn inspect_version(version: i64, bytes: &Vec<u8>) -> (r: Result<VersionInfo, CommitError>)
    ensures
        match r {
            Ok(info) => vstd::utf8::valid_utf8(bytes@) && info.version == version && info.rows
                == sum_of_counts(action_counts(vstd::utf8::decode_utf8(bytes@))),
            Err(CommitError::NotUtf8) => !vstd::utf8::valid_utf8(bytes@),
            Err(CommitError::TooManyRows) => vstd::utf8::valid_utf8(bytes@) && sum_of_counts(
                action_counts(vstd::utf8::decode_utf8(bytes@)),
            ) > u64::MAX,
        },
{
    let content = match text_of_utf8(bytes) {
        Some(t) => t,
        None => {
            return Err(CommitError::NotUtf8);
        },
    };
    let lines = text::split_trimmed(content.as_str(), '\n');
    let n: usize = lines.len();
    let mut counts: Vec<Option<u64>> = Vec::new();
    for i in 0..n
        invariant
            n == lines.len(),
            text::views(lines@) == actions(content@),
            counts@ == action_counts(content@).take(i as int),
    {
        let rows = count_action_rows(lines[i].as_str());
        assert(text::views(lines@)[i as int] == lines@[i as int]@);
        counts.push(rows);
        assert(action_counts(content@).take(i + 1) =~= action_counts(content@).take(
            i as int,
        ).push(rows));
    }
    assert(text::views(lines@).len() == n);
    assert(action_counts(content@).take(n as int) =~= action_counts(content@));
    match add_counts(&counts) {
        Some(rows) => Ok(VersionInfo { version, rows }),
        None => Err(CommitError::TooManyRows),
    }
}

// ---------------------------------------------------------------------------
// What the count of a commit file is
// ---------------------------------------------------------------------------

/// An action with an `add` whose statistics count its records adds that many rows, whatever else
/// the action, the `add` and the statistics hold; the statistics may be an object or a string that
/// holds one.
pub proof fn lemma_added_records_count(
    action: Seq<char>,
    add: Seq<char>,
    stats: Seq<char>,
    document: Seq<char>,
    count: Seq<char>,
    n: u64,
)
    requires
        json_member(action, "add"@) == Some(add),
        json_member(add, "stats"@) == Some(stats),
        json_string(stats) == Some(document) || (json_string(stats) is None && document == stats),
        json_member(document, "numRecords"@) == Some(count),
        json_unsigned(count) == Some(n),
    ensures
        action_rows(action) == Some(n),
{
}

/// Rows are counted for an `add` with statistics alone: any other action counts nothing, and so
/// does one whose statistics count no records.
pub proof fn lemma_other_actions_count_nothing(action: Seq<char>)
    ensures
        json_member(action, "add"@) is None ==> action_rows(action) is None,
        json_member(action, "add"@) matches Some(add) ==> {
            &&& json_member(add, "stats"@) is None ==> action_rows(action) is None
            &&& json_member(add, "stats"@) matches Some(stats) ==> {
                let document = match json_string(stats) {
                    Some(t) => t,
                    None => stats,
                };
                &&& json_member(document, "numRecords"@) is None ==> action_rows(action) is None
                &&& json_member(document, "numRecords"@) matches Some(count) ==> action_rows(action)
                    == json_unsigned(count)
            }
        },
{
}

/// Counts add up: those of two lists are those of the one and the other, a count alone is itself,
/// and what has no count adds nothing.
pub proof fn lemma_counts_add_up(a: Seq<Option<u64>>, b: Seq<Option<u64>>, n: u64)
    ensures
        sum_of_counts(a + b) == sum_of_counts(a) + sum_of_counts(b),
        sum_of_counts(seq![Some(n)]) == n,
        sum_of_counts(seq![None]) == 0,
        sum_of_counts(Seq::empty()) == 0,
    decreases b.len(),
{
    reveal_with_fuel(sum_of_counts, 2);
    if b.len() == 0 {
        assert(a + b =~= a);
    } else {
        lemma_counts_add_up(a, b.drop_last(), n);
        assert((a + b).drop_last() =~= a + b.drop_last());
        assert((a + b).last() == b.last());
    }
}

/// The rows of a commit file are those of its lines: a file of two parts, one below the other, has
/// the rows of both.
pub proof fn lemma_commit_file_adds_up(a: Seq<char>, b: Seq<char>)
    ensures
        sum_of_counts(action_counts(a.push('\n') + b)) == sum_of_counts(action_counts(a))
            + sum_of_counts(action_counts(b)),
{
    text::lemma_trimmed_pieces_of_both(a, b, '\n');
    assert(action_counts(a.push('\n') + b) =~= action_counts(a) + action_counts(b));
    lemma_counts_add_up(action_counts(a), action_counts(b), 0);
}

/// A commit file of one line has the rows of the action in that line, whatever white space is
/// around it; a blank one has none.
pub proof fn lemma_commit_file_of_one_line(line: Seq<char>)
    requires
        !line.contains('\n'),
    ensures
        text::trimmed(line).len() > 0 ==> sum_of_counts(action_counts(line)) == (match action_rows(
            text::trimmed(line),
        ) {
            Some(n) => n as nat,
            None => 0,
        }),
        text::trimmed(line).len() == 0 ==> sum_of_counts(action_counts(line)) == 0,
{
    text::lemma_trimmed_piece(line, '\n');
    let counts = action_counts(line);
    if text::trimmed(line).len() > 0 {
        let r = action_rows(text::trimmed(line));
        assert(counts =~= seq![r]);
        match r {
            Some(n) => lemma_counts_add_up(Seq::empty(), Seq::empty(), n),
            None => lemma_counts_add_up(Seq::empty(), Seq::empty(), 0),
        }
    } else {
        assert(counts =~= Seq::<Option<u64>>::empty());
    }
}

/// The sink of a consumer is set up as the configuration says: with the user's predicates as they
/// are, and with the keys and the columns that are listed.
pub proof fn lemma_configured_merge(cfg: Config, spec: sink::MergeSpec)
    requires
        configured_mode(cfg, Ok(SinkMode::Merge(spec))),
    ensures
        text::lower(cfg.sink_mode@) == "merge"@,
        spec.when_matched_update_predicate == cfg.merge_update_predicate,
        spec.when_matched_delete_predicate == cfg.merge_delete_predicate,
        spec.when_not_matched_insert_predicate == cfg.merge_insert_predicate,
        text::views(spec.keys@) == text::trimmed_pieces(cfg.merge_keys@, ','),
        text::views(spec.update_columns@) == text::trimmed_pieces(cfg.merge_update_columns@, ','),
        spec.keys@.len() > 0,
        spec.transform_sql is None && spec.transform_rust is None && spec.dedupe_order_by is None,
{
    sink::lemma_parsed_merge(
        cfg.sink_mode@,
        cfg.merge_keys@,
        cfg.merge_update_columns@,
        cfg.merge_update_predicate,
        cfg.merge_delete_predicate,
        cfg.merge_insert_predicate,
        None,
        None,
        None,
        spec,
    );
}

/// A table has the options of its backend, the environment and the method that is asked for; case
/// and white space of the method make no difference, and a local table needs no options.
pub proof fn lemma_options_result(
    uri: Seq<char>,
    a: Seq<char>,
    b: Seq<char>,
    env: StorageEnv,
    r: Result<Seq<(String, String)>, ConfigError>,
)
    requires
        config::ascii_only(text::trimmed(a)),
        config::ascii_only(text::trimmed(b)),
        text::lower(text::trimmed(a)) == text::lower(text::trimmed(b)),
    ensures
        options_result(uri, a, env, r) <==> options_result(uri, b, env, r),
        text::lower(text::trimmed(a)) != "auto"@ ==> (options_result(uri, a, env, r) <==> match r {
            Ok(options) => config::storage_options(uri, text::lower(text::trimmed(a)), env) == Some(
                config::option_views(options),
            ),
            Err(e) => config::storage_options(uri, text::lower(text::trimmed(a)), env) is None
                && config::is_auth_error(e, text::lower(text::trimmed(a))),
        }),
        config::backend_of(uri) == config::Backend::LocalFs ==> (options_result(uri, a, env, r)
            <==> (r matches Ok(options) && options.len() == 0)),
{
    config::lemma_normalised_auth(a, b);
    config::lemma_normalised_auth(b, a);
    if config::backend_of(uri) == config::Backend::LocalFs {
        if let Ok(options) = r {
            if options.len() == 0 {
                assert(config::option_views(options) =~= Seq::empty());
            } else {
                assert(config::option_views(options).len() > 0);
            }
        }
    }
}

/// A table that cannot be opened, or has no version yet, is at -1, so that its first commit is new.
pub proof fn lemma_baseline(v: u64)
    ensures
        baseline_version(None) == -1,
        baseline_version(Some(None)) == -1,
        v <= i64::MAX ==> baseline_version(Some(Some(v))) == v,
{
}

/// A unit stands for what it holds: a chunk for its version, its place and its rows, and a group for
/// its versions and its rows.
pub proof fn lemma_unit_as_planned(unit: WorkUnit)
    ensures
        unit matches WorkUnit::Chunk { version, index, count, rows } ==> unit@ == (Unit::Chunk {
            version: version as int,
            index: index as int,
            count: count as int,
            rows: rows as int,
        }),
        unit matches WorkUnit::Group { versions, rows } ==> unit@ == (Unit::Group {
            versions: versions@,
            rows: rows as int,
        }),
{
}

} // verus!
