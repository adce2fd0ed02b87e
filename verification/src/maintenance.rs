//! Maintenance of tables: compaction, ordering by columns, and removal of old files.

use vstd::prelude::*;

use crate::text;
use crate::util;

verus! {

/// What an optimisation did.
#[derive(Debug, Clone, PartialEq, Eq)]
pub struct OptimizeResult {
    pub uri: String,
    /// "compact" or "zorder".
    pub mode: String,
    pub starting_version: i64,
    pub new_version: i64,
    pub num_files_added: u64,
    pub num_files_removed: u64,
    pub partitions_optimized: u64,
    pub duration_ms: u64,
    /// The columns that the table was ordered by; none where it was compacted.
    pub zorder_columns: Vec<String>,
    /// The target size of a file in bytes, where one was given.
    pub target_file_size: Option<u64>,
}

/// What a removal of old files did.
#[derive(Debug, Clone, PartialEq, Eq)]
pub struct VacuumResult {
    pub uri: String,
    pub dry_run: bool,
    pub starting_version: i64,
    pub new_version: i64,
    pub retention_hours: u64,
    pub num_files_deleted: usize,
    /// The first paths of the removed files.
    pub sample_deleted_paths: Vec<String>,
    pub duration_ms: u64,
}

/// How a table is optimised.
#[derive(Debug, Clone, PartialEq, Eq)]
pub struct OptimizePlan {
    /// The columns to order by; the table is only compacted where there are none.
    pub zorder_columns: Vec<String>,
    /// The target size of a file, where one is set.
    pub target_size: Option<u64>,
    /// The most tasks at a time, where a limit is set.
    pub max_concurrent_tasks: Option<usize>,
}

impl OptimizePlan {
    /// Whether the table is only compacted, and not ordered by columns.
    pub fn is_compaction(&self) -> (r: bool)
        ensures
            r == (self.zorder_columns@.len() == 0),
    {
        self.zorder_columns.len() == 0
    }
}

/// The mode of an optimisation by these columns.
pub open spec fn mode_text(columns: nat) -> Seq<char> {
    if columns == 0 {
        "compact"@
    } else {
        "zorder"@
    }
}

/// Whether `plan` optimises a table as is asked for. A size or a number of tasks of zero sets none.
pub open spec fn is_plan(
    zorder_columns: Seq<String>,
    target_file_size_bytes: Option<u64>,
    max_concurrent_tasks: Option<usize>,
    plan: OptimizePlan,
) -> bool {
    &&& plan.zorder_columns@ == zorder_columns
    &&& plan.target_size == (match target_file_size_bytes {
        Some(n) => if n > 0 {
            Some(n)
        } else {
            None
        },
        None => None,
    })
    &&& plan.max_concurrent_tasks == (match max_concurrent_tasks {
        Some(n) => if n > 0 {
            Some(n)
        } else {
            None
        },
        None => None,
    })
}

/// A plan orders by the columns that are asked for and no others, in their order. It never sets a
/// limit of zero, and sets every other limit that is given as it is given.
pub proof fn lemma_plan(
    zorder_columns: Seq<String>,
    size: Option<u64>,
    tasks: Option<usize>,
    plan: OptimizePlan,
)
    requires
        is_plan(zorder_columns, size, tasks, plan),
    ensures
        plan.zorder_columns@ == zorder_columns,
        plan.target_size matches Some(n) ==> n > 0,
        plan.max_concurrent_tasks matches Some(n) ==> n > 0,
        size != Some(0u64) ==> plan.target_size == size,
        tasks != Some(0usize) ==> plan.max_concurrent_tasks == tasks,
{
}

/// How a table is optimised. A size or a number of tasks of zero sets none.
pub fn plan_optimize(
    zorder_columns: &Vec<String>,
    target_file_size_bytes: Option<u64>,
    max_concurrent_tasks: Option<usize>,
) -> (r: OptimizePlan)
    ensures
        is_plan(zorder_columns@, target_file_size_bytes, max_concurrent_tasks, r),
{
    OptimizePlan {
        zorder_columns: text::copy_strings(zorder_columns),
        target_size: match target_file_size_bytes {
            Some(n) => if n > 0 {
                Some(n)
            } else {
                None
            },
            None => None,
        },
        max_concurrent_tasks: match max_concurrent_tasks {
            Some(n) => if n > 0 {
                Some(n)
            } else {
                None
            },
            None => None,
        },
    }
}

/// What an optimisation did, as it is shown.
pub fn optimize_result(
    uri: &str,
    zorder_columns: Vec<String>,
    target_file_size: Option<u64>,
    starting: Option<u64>,
    new: Option<u64>,
    added: u64,
    removed: u64,
    partitions: u64,
    duration_ms: u64,
) -> (r: OptimizeResult)
    ensures
        r.uri@ == uri@,
        r.mode@ == mode_text(zorder_columns@.len()),
        r.starting_version == util::signed_version(starting),
        r.new_version == util::signed_version(new),
        r.num_files_added == added,
        r.num_files_removed == removed,
        r.partitions_optimized == partitions,
        r.duration_ms == duration_ms,
        r.zorder_columns == zorder_columns,
        r.target_file_size == target_file_size,
{
    OptimizeResult {
        uri: uri.to_string(),
        mode: if zorder_columns.len() == 0 {
            "compact".to_string()
        } else {
            "zorder".to_string()
        },
        starting_version: util::version_to_i64(starting),
        new_version: util::version_to_i64(new),
        num_files_added: added,
        num_files_removed: removed,
        partitions_optimized: partitions,
        duration_ms,
        zorder_columns,
        target_file_size,
    }
}

/// The longest period in seconds that can be asked for: as many as milliseconds can be counted.
pub const MAX_RETENTION_SECS: u64 = 9_223_372_036_854_775;

/// The least age in seconds of a file that is removed, for a retention in hours. A retention
/// that is too long to be asked for stands for the longest period.
pub open spec fn retained_seconds(retention_hours: u64) -> int {
    if retention_hours * 3600 <= MAX_RETENTION_SECS {
        retention_hours * 3600
    } else {
        MAX_RETENTION_SECS as int
    }
}

/// Files are kept for every hour of the retention, and a longer retention keeps no fewer; what is
/// asked for in seconds can be counted in milliseconds.
pub proof fn lemma_retention(hours: u64, more: u64)
    requires
        hours <= more,
    ensures
        hours <= 2_562_047_788_015 ==> retained_seconds(hours) == hours * 3600,
        hours > 2_562_047_788_015 ==> retained_seconds(hours) == 9_223_372_036_854_775,
        retained_seconds(hours) <= retained_seconds(more),
        retained_seconds(hours) * 1000 <= i64::MAX,
{
}

/// The least age in seconds of a file that is removed, for a retention in hours. A retention
/// that is too long to be asked for stands for the longest period.
pub fn retention_seconds(retention_hours: u64) -> (r: i64)
    ensures
        r == retained_seconds(retention_hours),
{
    let seconds: u128 = retention_hours as u128 * 3600;
    if seconds <= MAX_RETENTION_SECS as u128 {
        seconds as i64
    } else {
        MAX_RETENTION_SECS as i64
    }
}

/// The number of removed files that are shown by path.
pub const MAX_SAMPLE_PATHS: usize = 100;

/// The removed files that are shown by path: all of them, or the first ones where they are many.
pub open spec fn sample_of(deleted: Seq<String>) -> Seq<String> {
    if deleted.len() <= MAX_SAMPLE_PATHS {
        deleted
    } else {
        deleted.take(MAX_SAMPLE_PATHS as int)
    }
}

/// The first removed files are shown by path, each of them up to a hundred.
pub proof fn lemma_sample(deleted: Seq<String>, i: int)
    ensures
        sample_of(deleted).len() <= deleted.len(),
        sample_of(deleted).len() <= 100,
        0 <= i < deleted.len() && i < 100 ==> i < sample_of(deleted).len() && sample_of(deleted)[i]
            == deleted[i],
{
}

/// What a removal of old files did, as it is shown.
pub fn vacuum_result(
    uri: &str,
    dry_run: bool,
    retention_hours: u64,
    starting: Option<u64>,
    new: Option<u64>,
    deleted: &Vec<String>,
    duration_ms: u64,
) -> (r: VacuumResult)
    ensures
        r.uri@ == uri@,
        r.dry_run == dry_run,
        r.starting_version == util::signed_version(starting),
        r.new_version == util::signed_version(new),
        r.retention_hours == retention_hours,
        r.num_files_deleted == deleted@.len(),
        r.sample_deleted_paths@ == sample_of(deleted@),
        r.duration_ms == duration_ms,
{
    let n: usize = if deleted.len() <= MAX_SAMPLE_PATHS {
        deleted.len()
    } else {
        MAX_SAMPLE_PATHS
    };
    let mut sample: Vec<String> = Vec::new();
    for i in 0..n
        invariant
            n <= deleted.len(),
            sample@ == deleted@.take(i as int),
    {
        sample.push(deleted[i].clone());
        assert(deleted@.take(i + 1) =~= deleted@.take(i as int).push(deleted@[i as int]));
    }
    assert(deleted@.take(deleted@.len() as int) =~= deleted@);
    VacuumResult {
        uri: uri.to_string(),
        dry_run,
        starting_version: util::version_to_i64(starting),
        new_version: util::version_to_i64(new),
        retention_hours,
        num_files_deleted: deleted.len(),
        sample_deleted_paths: sample,
        duration_ms,
    }
}

/// An optimisation is shown as a compaction exactly where it orders by no column.
pub proof fn lemma_mode_of_optimisation(columns: nat)
    ensures
        mode_text(columns) == "compact"@ <==> columns == 0,
        mode_text(columns) == "zorder"@ <==> columns > 0,
{
    reveal_strlit("compact");
    reveal_strlit("zorder");
    assert("compact"@.len() == 7 && "zorder"@.len() == 6);
}

} // verus!
