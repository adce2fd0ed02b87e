//! Table-to-table sink: what is read, how it is deduplicated, and which statements and clauses
//! an append, an overwrite or a merge consists of.
//!
//! - **Append** writes the changed rows behind those of the target.
//! - **Overwrite** replaces the rows of the target.
//! - **Merge** is keyed by columns that the user names. Rows that the change feed marks as
//!   deleted are routed to a delete clause; the user's own predicates still apply.
//!
//! The columns that a change feed adds are open to the user's transforms and are never
//! written to the target.

use vstd::prelude::*;

use crate::clock;
use crate::producer::WriteMode;
use crate::state;
use crate::state::{SinkEvent, SinkState};
use crate::text;
use crate::util;

verus! {

/// The column that tells what kind of change a row is.
pub const CDF_CHANGE_TYPE_COL: &'static str = "_change_type";

/// The column that tells the version in which a row changed.
pub const CDF_COMMIT_VERSION_COL: &'static str = "_commit_version";

/// The column that tells when a row changed.
pub const CDF_COMMIT_TIMESTAMP_COL: &'static str = "_commit_timestamp";

/// Whether `name` is a column that a change feed adds.
pub open spec fn cdf_column(name: Seq<char>) -> bool {
    name == "_change_type"@ || name == "_commit_version"@ || name == "_commit_timestamp"@
}

/// Whether `name` is a column that a change feed adds.
pub fn is_cdf_metadata_col(name: &str) -> (r: bool)
    ensures
        r == cdf_column(name@),
{
    text::same_text(name, CDF_CHANGE_TYPE_COL) || text::same_text(name, CDF_COMMIT_VERSION_COL)
        || text::same_text(name, CDF_COMMIT_TIMESTAMP_COL)
}

// ---------------------------------------------------------------------------
// Modes
// ---------------------------------------------------------------------------

/// A compiled transform, by the path of its library.
#[derive(Debug, Clone, PartialEq, Eq)]
pub struct TransformLib {
    pub path: String,
}

/// How a merge joins the source to the target and what it does with the rows.
#[derive(Debug, Clone)]
pub struct MergeSpec {
    /// The columns on which source and target are joined.
    pub keys: Vec<String>,
    /// The columns that a matched row takes from the source; all but the keys where empty.
    pub update_columns: Vec<String>,
    /// A condition on matched rows that are updated.
    pub when_matched_update_predicate: Option<String>,
    /// A condition on matched rows that are deleted.
    pub when_matched_delete_predicate: Option<String>,
    /// A condition on rows that are inserted.
    pub when_not_matched_insert_predicate: Option<String>,
    /// The column by which the latest of several source rows with one key is told.
    pub dedupe_order_by: Option<String>,
    /// A query over the view `__src` that stands in for the source.
    pub transform_sql: Option<String>,
    /// A compiled transform of the source. Excludes `transform_sql`.
    pub transform_rust: Option<TransformLib>,
}

/// How changed rows go into the target.
#[derive(Debug, Clone)]
pub enum SinkMode {
    Append,
    Overwrite,
    Merge(MergeSpec),
}

impl SinkMode {
    /// The name of the mode.
    pub open spec fn name_text(&self) -> Seq<char> {
        match self {
            SinkMode::Append => "append"@,
            SinkMode::Overwrite => "overwrite"@,
            SinkMode::Merge(_) => "merge"@,
        }
    }

    /// The name of the mode.
    pub fn name(&self) -> (r: &'static str)
        ensures
            r@ == self.name_text(),
    {
        match self {
            SinkMode::Append => "append",
            SinkMode::Overwrite => "overwrite",
            SinkMode::Merge(_) => "merge",
        }
    }
}

/// Where a sink reads from and writes to, and how.
#[derive(Debug, Clone)]
pub struct SinkConfig {
    pub source_uri: String,
    pub target_uri: String,
    pub source_storage_options: Vec<(String, String)>,
    pub target_storage_options: Vec<(String, String)>,
    pub mode: SinkMode,
    /// The number of source files to read in parallel; 0 stands for 8.
    pub read_concurrency: usize,
}

/// What one application of a batch did.
#[derive(Debug, Clone, Copy, PartialEq, Eq, Structural)]
pub struct SinkOutcome {
    pub source_rows: u64,
    pub inserts: u64,
    pub updates: u64,
    pub deletes: u64,
    pub appended: u64,
    pub target_version: i64,
    pub duration_ms: u64,
}

impl Default for SinkOutcome {
    fn default() -> (r: Self)
        ensures
            r == (SinkOutcome {
                source_rows: 0,
                inserts: 0,
                updates: 0,
                deletes: 0,
                appended: 0,
                target_version: 0,
                duration_ms: 0,
            }),
    {
        SinkOutcome {
            source_rows: 0,
            inserts: 0,
            updates: 0,
            deletes: 0,
            appended: 0,
            target_version: 0,
            duration_ms: 0,
        }
    }
}

/// Why a sink cannot be set up or cannot apply a batch.
#[derive(Debug, Clone, PartialEq, Eq)]
pub enum SinkError {
    /// A merge was asked for without a key column.
    MergeKeysRequired,
    /// Both kinds of transform were given.
    TransformsExclusive,
    /// There is no such mode.
    UnknownMode { mode: String },
    /// A merge has no key column.
    NoKeys,
    /// The source has no change feed.
    ChangeFeedDisabled,
    /// The range of versions ends before it begins.
    ReversedRange { start: i64, end: i64 },
    /// The transform has dropped a key column.
    MissingKey { key: String, columns: Vec<String> },
}

impl SinkError {
    /// The message that the user is shown.
    pub open spec fn text(&self) -> Seq<char> {
        match self {
            SinkError::MergeKeysRequired => "--sink-mode merge requires --merge-keys"@,
            SinkError::TransformsExclusive =>
                "--merge-transform-sql and --merge-transform-rust-file are mutually exclusive"@,
            SinkError::UnknownMode { mode } => "Unknown --sink-mode '"@ + mode@
                + "'. Use append | overwrite | merge."@,
            SinkError::NoKeys => "merge mode requires at least one key column"@,
            SinkError::ChangeFeedDisabled =>
                "source table does not have delta.enableChangeDataFeed=true. Riffle reads exclusively via Delta Change Data Feed. Recreate the source table with CDF enabled, or run `ALTER TABLE ... SET TBLPROPERTIES ('delta.enableChangeDataFeed' = 'true')`. Note that ALTER only enables CDF for FUTURE commits — existing versions will not be replayable as a change feed."@,
            SinkError::ReversedRange { start, end } => "read_cdf_rows: end_version v"@
                + text::decimal_int(*end as int) + " < start_version v"@ + text::decimal_int(
                *start as int,
            ),
            SinkError::MissingKey { key, columns } => "merge key '"@ + key@
                + "' missing from source after transform; columns: ["@ + text::joined(
                text::views(columns@),
                ", "@,
            ) + "]"@,
        }
    }

    /// The message that the user is shown.
    pub fn message(&self) -> (r: String)
        ensures
            r@ == self.text(),
    {
        match self {
            SinkError::MergeKeysRequired => "--sink-mode merge requires --merge-keys".to_string(),
            SinkError::TransformsExclusive =>
                "--merge-transform-sql and --merge-transform-rust-file are mutually exclusive".to_string(),
            SinkError::UnknownMode { mode } => {
                let mut r = "Unknown --sink-mode '".to_string();
                r.append(mode.as_str());
                r.append("'. Use append | overwrite | merge.");
                r
            },
            SinkError::NoKeys => "merge mode requires at least one key column".to_string(),
            SinkError::ChangeFeedDisabled =>
                "source table does not have delta.enableChangeDataFeed=true. Riffle reads exclusively via Delta Change Data Feed. Recreate the source table with CDF enabled, or run `ALTER TABLE ... SET TBLPROPERTIES ('delta.enableChangeDataFeed' = 'true')`. Note that ALTER only enables CDF for FUTURE commits — existing versions will not be replayable as a change feed.".to_string(),
            SinkError::ReversedRange { start, end } => {
                let mut r = "read_cdf_rows: end_version v".to_string();
                text::push_i64(&mut r, *end);
                r.append(" < start_version v");
                text::push_i64(&mut r, *start);
                r
            },
            SinkError::MissingKey { key, columns } => {
                let mut r = "merge key '".to_string();
                r.append(key.as_str());
                r.append("' missing from source after transform; columns: [");
                r.append(text::join(columns, ", ").as_str());
                r.append("]");
                r
            },
        }
    }
}

/// Whether a query is given that is not blank.
pub open spec fn given_query(sql: Option<String>) -> bool {
    sql matches Some(q) && text::trimmed(q@).len() > 0
}

/// Whether a name is given that is not empty.
pub open spec fn given_name(name: Option<String>) -> bool {
    name matches Some(n) && n@.len() > 0
}

/// Whether `r` is the sink mode that the given parameters describe.
pub open spec fn is_parsed_mode(
    mode: Seq<char>,
    keys: Seq<char>,
    update_columns: Seq<char>,
    when_matched_update_predicate: Option<String>,
    when_matched_delete_predicate: Option<String>,
    when_not_matched_insert_predicate: Option<String>,
    dedupe_order_by: Option<String>,
    transform_sql: Option<String>,
    transform_rust: Option<TransformLib>,
    r: Result<SinkMode, SinkError>,
) -> bool {
    if text::lower(mode) == "append"@ {
        r == Ok::<SinkMode, SinkError>(SinkMode::Append)
    } else if text::lower(mode) == "overwrite"@ {
        r == Ok::<SinkMode, SinkError>(SinkMode::Overwrite)
    } else if text::lower(mode) == "merge"@ {
        if text::trimmed_pieces(keys, ',').len() == 0 {
            r == Err::<SinkMode, SinkError>(SinkError::MergeKeysRequired)
        } else if given_query(transform_sql) && transform_rust is Some {
            r == Err::<SinkMode, SinkError>(SinkError::TransformsExclusive)
        } else {
            &&& r matches Ok(SinkMode::Merge(spec))
            &&& text::views(spec.keys@) == text::trimmed_pieces(keys, ',')
            &&& text::views(spec.update_columns@) == text::trimmed_pieces(update_columns, ',')
            &&& spec.when_matched_update_predicate == when_matched_update_predicate
            &&& spec.when_matched_delete_predicate == when_matched_delete_predicate
            &&& spec.when_not_matched_insert_predicate == when_not_matched_insert_predicate
            &&& spec.dedupe_order_by == (if given_name(dedupe_order_by) {
                dedupe_order_by
            } else {
                None
            })
            &&& spec.transform_sql == (if given_query(transform_sql) {
                transform_sql
            } else {
                None
            })
            &&& spec.transform_rust == transform_rust
        }
    } else {
        r matches Err(SinkError::UnknownMode { mode: m }) && m@ == text::lower(mode)
    }
}

/// The sink mode that the given parameters describe. The name of the mode may be written in
/// any case; lists are separated by commas, and blank members are dropped.
pub fn parse_mode(
    mode: &str,
    keys: &str,
    update_columns: &str,
    when_matched_update_predicate: Option<String>,
    when_matched_delete_predicate: Option<String>,
    when_not_matched_insert_predicate: Option<String>,
    dedupe_order_by: Option<String>,
    transform_sql: Option<String>,
    transform_rust: Option<TransformLib>,
) -> (r: Result<SinkMode, SinkError>)
    ensures
        is_parsed_mode(
            mode@,
            keys@,
            update_columns@,
            when_matched_update_predicate,
            when_matched_delete_predicate,
            when_not_matched_insert_predicate,
            dedupe_order_by,
            transform_sql,
            transform_rust,
            r,
        ),
{
    let name = text::to_lower(mode);
    if text::same_text(name.as_str(), "append") {
        return Ok(SinkMode::Append);
    }
    if text::same_text(name.as_str(), "overwrite") {
        return Ok(SinkMode::Overwrite);
    }
    if !text::same_text(name.as_str(), "merge") {
        return Err(SinkError::UnknownMode { mode: name });
    }
    let keys = text::split_trimmed(keys, ',');
    if keys.len() == 0 {
        return Err(SinkError::MergeKeysRequired);
    }
    let update_columns = text::split_trimmed(update_columns, ',');
    let transform_sql = match transform_sql {
        Some(q) => if text::trim(q.as_str()).as_str().is_empty() {
            None
        } else {
            Some(q)
        },
        None => None,
    };
    if transform_sql.is_some() && transform_rust.is_some() {
        return Err(SinkError::TransformsExclusive);
    }
    let dedupe_order_by = match dedupe_order_by {
        Some(n) => if n.as_str().is_empty() {
            None
        } else {
            Some(n)
        },
        None => None,
    };
    Ok(
        SinkMode::Merge(
            MergeSpec {
                keys,
                update_columns,
                when_matched_update_predicate,
                when_matched_delete_predicate,
                when_not_matched_insert_predicate,
                dedupe_order_by,
                transform_sql,
                transform_rust,
            },
        ),
    )
}

/// A merge that was parsed has at least one key, no blank ones, and at most one kind of
/// transform, which is not blank.
pub proof fn lemma_parsed_merge(
    mode: Seq<char>,
    keys: Seq<char>,
    update_columns: Seq<char>,
    update_predicate: Option<String>,
    delete_predicate: Option<String>,
    insert_predicate: Option<String>,
    dedupe_order_by: Option<String>,
    transform_sql: Option<String>,
    transform_rust: Option<TransformLib>,
    spec: MergeSpec,
)
    requires
        is_parsed_mode(
            mode,
            keys,
            update_columns,
            update_predicate,
            delete_predicate,
            insert_predicate,
            dedupe_order_by,
            transform_sql,
            transform_rust,
            Ok(SinkMode::Merge(spec)),
        ),
    ensures
        spec.keys@.len() > 0,
        forall|i: int| 0 <= i < spec.keys@.len() ==> (#[trigger] spec.keys@[i])@.len() > 0,
        !(spec.transform_sql is Some && spec.transform_rust is Some),
        spec.transform_sql is Some ==> given_query(spec.transform_sql),
{
    let names = text::views(spec.keys@);
    assert(names.len() == spec.keys@.len());
    assert forall|i: int| 0 <= i < spec.keys@.len() implies (#[trigger] spec.keys@[i])@.len()
        > 0 by {
        assert(names[i] == spec.keys@[i]@);
        text::lemma_trimmed_pieces_nonempty(text::pieces(keys, ','), i);
    }
}

// ---------------------------------------------------------------------------
// Reading the source
// ---------------------------------------------------------------------------

/// The number of source files to read in parallel where none is configured.
pub const DEFAULT_READ_CONCURRENCY: usize = 8;

/// The view that holds the raw rows of a change feed.
pub const RAW_VIEW: &'static str = "__cdf_raw";

/// The query that drops the rows that show values before an update.
pub const PREIMAGE_FILTER_SQL: &'static str =
    "SELECT * FROM __cdf_raw WHERE \"_change_type\" IS NULL OR \"_change_type\" <> 'update_preimage'";

/// The number of source files to read in parallel.
pub fn read_concurrency(configured: usize) -> (r: usize)
    ensures
        r == (if configured == 0 {
            8
        } else {
            configured
        }),
{
    if configured == 0 {
        DEFAULT_READ_CONCURRENCY
    } else {
        configured
    }
}

/// The first and the last of the versions to apply; `None` where there is nothing to apply.
pub fn apply_range(versions: &Vec<i64>) -> (r: Option<(i64, i64)>)
    ensures
        r == (if versions@.len() == 0 {
            None
        } else {
            Some((versions@.first(), versions@.last()))
        }),
{
    if versions.len() == 0 {
        None
    } else {
        Some((versions[0], versions[versions.len() - 1]))
    }
}

/// Whether the changes of the versions `start..=end` can be read from a source.
pub fn check_cdf_read(change_feed_enabled: bool, start: i64, end: i64) -> (r: Result<(), SinkError>)
    ensures
        r == (if !change_feed_enabled {
            Err(SinkError::ChangeFeedDisabled)
        } else if end < start {
            Err(SinkError::ReversedRange { start, end })
        } else {
            Ok(())
        }),
{
    if !change_feed_enabled {
        Err(SinkError::ChangeFeedDisabled)
    } else if end < start {
        Err(SinkError::ReversedRange { start, end })
    } else {
        Ok(())
    }
}

/// The versions that an application of `versions` reads, first and last; `None` where there is
/// nothing to apply.
pub open spec fn range_to_read(versions: Seq<i64>, change_feed_enabled: bool) -> Result<
    Option<(i64, i64)>,
    SinkError,
> {
    if versions.len() == 0 {
        Ok(None)
    } else if !change_feed_enabled {
        Err(SinkError::ChangeFeedDisabled)
    } else if versions.last() < versions.first() {
        Err(SinkError::ReversedRange { start: versions.first(), end: versions.last() })
    } else {
        Ok(Some((versions.first(), versions.last())))
    }
}

/// An application of versions in order reads every one of them, and begins and ends with one of
/// them; without a change feed there is nothing to read them from.
pub proof fn lemma_every_version_is_read(versions: Seq<i64>, i: int)
    requires
        forall|j: int, k: int| 0 <= j <= k < versions.len() ==> versions[j] <= versions[k],
        0 <= i < versions.len(),
    ensures
        range_to_read(versions, true) matches Ok(Some((start, end))) && start <= versions[i] <= end
            && versions.contains(start) && versions.contains(end),
        range_to_read(versions, false) == Err::<Option<(i64, i64)>, SinkError>(
            SinkError::ChangeFeedDisabled,
        ),
{
    assert(versions.contains(versions[0]));
    assert(versions.contains(versions[versions.len() - 1]));
}

/// Where there is nothing to apply, nothing is read, and the change feed is not asked for.
pub proof fn lemma_nothing_to_read(versions: Seq<i64>, change_feed_enabled: bool)
    ensures
        range_to_read(versions, change_feed_enabled) == Ok::<Option<(i64, i64)>, SinkError>(None)
            <==> versions.len() == 0,
{
}

/// The versions that an application of `versions` reads, first and last; `None` where there is
/// nothing to apply.
pub fn plan_apply(versions: &Vec<i64>, change_feed_enabled: bool) -> (r: Result<
    Option<(i64, i64)>,
    SinkError,
>)
    ensures
        r == range_to_read(versions@, change_feed_enabled),
{
    match apply_range(versions) {
        None => Ok(None),
        Some((start, end)) => match check_cdf_read(change_feed_enabled, start, end) {
            Ok(()) => Ok(Some((start, end))),
            Err(e) => Err(e),
        },
    }
}

/// The rows of the batches together; `None` where they are too many to count.
pub fn total_rows(batch_rows: &Vec<u64>) -> (r: Option<u64>)
    ensures
        match r {
            Some(n) => n == state::total(batch_rows@),
            None => state::total(batch_rows@) > u64::MAX,
        },
{
    let n: usize = batch_rows.len();
    let mut sum: u128 = 0;
    for i in 0..n
        invariant
            n == batch_rows.len(),
            sum == state::total(batch_rows@.take(i as int)),
            sum <= i * 0xffff_ffff_ffff_ffff,
    {
        assert(batch_rows@.take(i + 1).drop_last() =~= batch_rows@.take(i as int));
        sum = sum + batch_rows[i] as u128;
    }
    assert(batch_rows@.take(n as int) =~= batch_rows@);
    if sum > 0xffff_ffff_ffff_ffff {
        None
    } else {
        Some(sum as u64)
    }
}

// ---------------------------------------------------------------------------
// Columns
// ---------------------------------------------------------------------------

/// The columns that are not added by a change feed, in order.
pub open spec fn data_columns(columns: Seq<Seq<char>>) -> Seq<Seq<char>> {
    columns.filter(|c: Seq<char>| !cdf_column(c))
}

/// The columns that are not added by a change feed, in order.
pub fn keep_data_columns(columns: &Vec<String>) -> (r: Vec<String>)
    ensures
        text::views(r@) == data_columns(text::views(columns@)),
{
    let n: usize = columns.len();
    let mut r: Vec<String> = Vec::new();
    let ghost all = text::views(columns@);
    let ghost keep = |c: Seq<char>| !cdf_column(c);
    reveal(Seq::filter);
    assert(text::views(r@) =~= all.take(0).filter(keep));
    for i in 0..n
        invariant
            n == columns.len(),
            all == text::views(columns@),
            keep == |c: Seq<char>| !cdf_column(c),
            text::views(r@) == all.take(i as int).filter(keep),
    {
        let ghost before = text::views(r@);
        reveal(Seq::filter);
        assert(all.take(i + 1).drop_last() =~= all.take(i as int));
        if !is_cdf_metadata_col(columns[i].as_str()) {
            r.push(columns[i].clone());
            assert(text::views(r@) =~= before.push(all[i as int]));
        }
    }
    assert(all.take(n as int) =~= all);
    r
}

/// No column that a change feed adds is among the data columns, and no other is missing.
pub proof fn lemma_data_columns(columns: Seq<Seq<char>>, c: Seq<char>)
    ensures
        data_columns(columns).contains(c) <==> columns.contains(c) && !cdf_column(c),
{
    let keep = |c: Seq<char>| !cdf_column(c);
    let kept = data_columns(columns);
    if kept.contains(c) {
        columns.lemma_filter_contains_rev(keep, c);
        columns.lemma_filter_pred(keep, kept.index_of(c));
    }
    if columns.contains(c) && !cdf_column(c) {
        columns.lemma_filter_contains(keep, columns.index_of(c));
    }
}

/// The columns that are no keys, in order.
pub open spec fn non_key_columns(columns: Seq<Seq<char>>, keys: Seq<Seq<char>>) -> Seq<Seq<char>> {
    columns.filter(|c: Seq<char>| !keys.contains(c))
}

/// The columns that are no keys, in order.
fn drop_keys(columns: &Vec<String>, keys: &Vec<String>) -> (r: Vec<String>)
    ensures
        text::views(r@) == non_key_columns(text::views(columns@), text::views(keys@)),
{
    let n: usize = columns.len();
    let mut r: Vec<String> = Vec::new();
    let ghost all = text::views(columns@);
    let ghost names = text::views(keys@);
    let ghost keep = |c: Seq<char>| !names.contains(c);
    reveal(Seq::filter);
    assert(text::views(r@) =~= all.take(0).filter(keep));
    for i in 0..n
        invariant
            n == columns.len(),
            all == text::views(columns@),
            names == text::views(keys@),
            keep == |c: Seq<char>| !names.contains(c),
            text::views(r@) == all.take(i as int).filter(keep),
    {
        let ghost before = text::views(r@);
        reveal(Seq::filter);
        assert(all.take(i + 1).drop_last() =~= all.take(i as int));
        if !text::is_among(keys, columns[i].as_str()) {
            r.push(columns[i].clone());
            assert(text::views(r@) =~= before.push(all[i as int]));
        }
    }
    assert(all.take(n as int) =~= all);
    r
}

/// A column of a data frame: its name, whether it may be null, and its place among the
/// columns, by which the type is found again.
#[derive(Debug, Clone, PartialEq, Eq)]
pub struct Column {
    pub name: String,
    pub nullable: bool,
    pub place: usize,
}

/// The columns with which a target is created: those that are not added by a change feed.
pub open spec fn target_columns(columns: Seq<Column>) -> Seq<Column> {
    columns.filter(|c: Column| !cdf_column(c.name@))
}

/// The columns with which a target is created: those that are not added by a change feed.
pub fn keep_target_columns(columns: &Vec<Column>) -> (r: Vec<Column>)
    ensures
        r@ == target_columns(columns@),
{
    let n: usize = columns.len();
    let mut r: Vec<Column> = Vec::new();
    let ghost keep = |c: Column| !cdf_column(c.name@);
    reveal(Seq::filter);
    assert(r@ =~= columns@.take(0).filter(keep));
    for i in 0..n
        invariant
            n == columns.len(),
            keep == |c: Column| !cdf_column(c.name@),
            r@ == columns@.take(i as int).filter(keep),
    {
        reveal(Seq::filter);
        assert(columns@.take(i + 1).drop_last() =~= columns@.take(i as int));
        if !is_cdf_metadata_col(columns[i].name.as_str()) {
            r.push(
                Column {
                    name: columns[i].name.clone(),
                    nullable: columns[i].nullable,
                    place: columns[i].place,
                },
            );
        }
    }
    assert(columns@.take(n as int) =~= columns@);
    r
}

/// The columns that have to be added to a target with the columns `existing` before rows with
/// the columns `columns` can be merged into it.
pub open spec fn missing_columns(columns: Seq<Column>, existing: Seq<Seq<char>>) -> Seq<Column> {
    columns.filter(|c: Column| !cdf_column(c.name@) && !existing.contains(c.name@))
}

/// The columns that have to be added to the target: the data columns that it lacks, in order.
/// They may be null, for the rows already there have no value for them.
pub fn columns_to_add(columns: &Vec<Column>, existing: &Vec<String>) -> (r: Vec<Column>)
    ensures
        r@.len() == missing_columns(columns@, text::views(existing@)).len(),
        forall|i: int|
            0 <= i < r@.len() ==> #[trigger] r@[i] == (Column {
                nullable: true,
                ..missing_columns(columns@, text::views(existing@))[i]
            }),
{
    let n: usize = columns.len();
    let mut r: Vec<Column> = Vec::new();
    let ghost names = text::views(existing@);
    let ghost keep = |c: Column| !cdf_column(c.name@) && !names.contains(c.name@);
    reveal(Seq::filter);
    assert(columns@.take(0).filter(keep) =~= Seq::<Column>::empty());
    for i in 0..n
        invariant
            n == columns.len(),
            names == text::views(existing@),
            keep == |c: Column| !cdf_column(c.name@) && !names.contains(c.name@),
            r@.len() == columns@.take(i as int).filter(keep).len(),
            forall|j: int|
                0 <= j < r@.len() ==> #[trigger] r@[j] == (Column {
                    nullable: true,
                    ..columns@.take(i as int).filter(keep)[j]
                }),
    {
        reveal(Seq::filter);
        assert(columns@.take(i + 1).drop_last() =~= columns@.take(i as int));
        if !is_cdf_metadata_col(columns[i].name.as_str()) && !text::is_among(
            existing,
            columns[i].name.as_str(),
        ) {
            r.push(
                Column {
                    name: columns[i].name.clone(),
                    nullable: true,
                    place: columns[i].place,
                },
            );
        }
    }
    assert(columns@.take(n as int) =~= columns@);
    r
}

// ---------------------------------------------------------------------------
// Statements
// ---------------------------------------------------------------------------

/// The view that holds the rows of a batch that is appended or overwrites.
pub const BATCH_VIEW: &'static str = "__cdf";

/// The view from which the columns of the change feed are stripped.
pub const STRIP_VIEW: &'static str = "__riffle_cdf_strip";

/// The view that holds the rows of a batch that is merged.
pub const MERGE_VIEW: &'static str = "__riffle_merge_src";

/// The view that the user's transform reads.
pub const TRANSFORM_VIEW: &'static str = "__src";

/// The names between double quotes, with commas between them.
pub open spec fn quoted_list(columns: Seq<Seq<char>>) -> Seq<char> {
    text::joined(text::all_quoted(columns), ", "@)
}

/// The names between double quotes, with commas between them.
fn quote_list(columns: &Vec<String>) -> (r: String)
    ensures
        r@ == quoted_list(text::views(columns@)),
{
    text::join(&text::quote_all(columns), ", ")
}

/// The query that drops deleted rows from a batch, where the batch tells which they are.
pub open spec fn live_rows_sql_text(columns: Seq<Seq<char>>) -> Seq<char> {
    if columns.contains("_change_type"@) {
        "SELECT * FROM __cdf WHERE \"_change_type\" IS NULL OR \"_change_type\" <> 'delete'"@
    } else {
        "SELECT * FROM __cdf"@
    }
}

/// The query that drops deleted rows from a batch, where the batch tells which they are.
pub fn live_rows_sql(columns: &Vec<String>) -> (r: &'static str)
    ensures
        r@ == live_rows_sql_text(text::views(columns@)),
{
    if text::is_among(columns, CDF_CHANGE_TYPE_COL) {
        "SELECT * FROM __cdf WHERE \"_change_type\" IS NULL OR \"_change_type\" <> 'delete'"
    } else {
        "SELECT * FROM __cdf"
    }
}

/// The query that strips the columns of the change feed.
pub open spec fn drop_cdf_cols_text(columns: Seq<Seq<char>>) -> Seq<char> {
    "SELECT "@ + quoted_list(data_columns(columns)) + " FROM "@ + "__riffle_cdf_strip"@
}

/// The query that strips the columns of the change feed.
pub fn drop_cdf_cols(columns: &Vec<String>) -> (r: String)
    ensures
        r@ == drop_cdf_cols_text(text::views(columns@)),
{
    let mut r = "SELECT ".to_string();
    r.append(quote_list(&keep_data_columns(columns)).as_str());
    r.append(" FROM ");
    r.append(STRIP_VIEW);
    r
}

/// How several source rows with one key are ordered: by the user's column, else by the version
/// of the change, the latest first; not at all where the rows tell neither.
pub open spec fn dedup_order(spec: MergeSpec, columns: Seq<Seq<char>>) -> Option<Seq<char>> {
    if given_name(spec.dedupe_order_by) {
        Some(text::quoted(spec.dedupe_order_by->0@) + " DESC"@)
    } else if columns.contains("_commit_version"@) {
        Some("\"_commit_version\" DESC"@)
    } else {
        None
    }
}

/// The query that keeps one source row per key.
pub open spec fn dedup_sql_text(spec: MergeSpec, columns: Seq<Seq<char>>) -> Seq<char> {
    "SELECT "@ + quoted_list(columns) + " FROM (SELECT "@ + quoted_list(columns)
        + ", ROW_NUMBER() OVER (PARTITION BY "@ + quoted_list(text::views(spec.keys@)) + (
    match dedup_order(spec, columns) {
        Some(order) => " ORDER BY "@ + order,
        None => Seq::empty(),
    }) + ") AS __rn FROM "@ + "__riffle_merge_src"@ + ") WHERE __rn = 1"@
}

/// The query that keeps one source row per key.
pub fn dedup_sql(spec: &MergeSpec, columns: &Vec<String>) -> (r: String)
    ensures
        r@ == dedup_sql_text(*spec, text::views(columns@)),
{
    let cols = quote_list(columns);
    let mut r = "SELECT ".to_string();
    r.append(cols.as_str());
    r.append(" FROM (SELECT ");
    r.append(cols.as_str());
    r.append(", ROW_NUMBER() OVER (PARTITION BY ");
    r.append(quote_list(&spec.keys).as_str());
    let mut order = String::new();
    let named = match &spec.dedupe_order_by {
        Some(c) => if c.as_str().is_empty() {
            false
        } else {
            order.append(" ORDER BY ");
            text::push_quoted(&mut order, c.as_str());
            order.append(" DESC");
            true
        },
        None => false,
    };
    if !named && text::is_among(columns, CDF_COMMIT_VERSION_COL) {
        order.append(" ORDER BY ");
        order.append("\"_commit_version\" DESC");
    }
    assert(order@ =~= (match dedup_order(*spec, text::views(columns@)) {
        Some(o) => " ORDER BY "@ + o,
        None => Seq::empty(),
    }));
    r.append(order.as_str());
    r.append(") AS __rn FROM ");
    r.append(MERGE_VIEW);
    r.append(") WHERE __rn = 1");
    r
}

/// The user's query that stands in for the source, where one is given that is not blank.
pub open spec fn source_query(spec: MergeSpec) -> Option<String> {
    if given_query(spec.transform_sql) {
        spec.transform_sql
    } else {
        None
    }
}

/// A query is used as it was written, unless it is blank.
pub proof fn lemma_source_query(spec: MergeSpec, q: String)
    ensures
        spec.transform_sql == Some(q) && text::trimmed(q@).len() > 0 ==> source_query(spec) == Some(
            q,
        ),
        spec.transform_sql == Some(q) && text::trimmed(q@).len() == 0 ==> source_query(spec) is None,
        spec.transform_sql is None ==> source_query(spec) is None,
{
}

/// The user's query that stands in for the source, where one is given that is not blank.
pub fn transform_query(spec: &MergeSpec) -> (r: Option<String>)
    ensures
        r == source_query(*spec),
{
    match &spec.transform_sql {
        Some(q) => if text::trim(q.as_str()).as_str().is_empty() {
            None
        } else {
            Some(q.clone())
        },
        None => None,
    }
}

// ---------------------------------------------------------------------------
// Merging
// ---------------------------------------------------------------------------

/// The condition under which a source and a target row have the same key column `key`.
pub open spec fn key_match(key: Seq<char>) -> Seq<char> {
    "target."@ + text::quoted(key) + " = source."@ + text::quoted(key)
}

/// The condition under which a source and a target row have the same key.
pub open spec fn join_predicate_text(keys: Seq<Seq<char>>) -> Seq<char> {
    text::joined(Seq::new(keys.len(), |i: int| key_match(keys[i])), " AND "@)
}

/// The condition under which a source and a target row have the same key.
pub fn join_predicate(keys: &Vec<String>) -> (r: String)
    ensures
        r@ == join_predicate_text(text::views(keys@)),
{
    let n: usize = keys.len();
    let mut parts: Vec<String> = Vec::new();
    let ghost names = text::views(keys@);
    let ghost matches = Seq::new(names.len(), |i: int| key_match(names[i]));
    for i in 0..n
        invariant
            n == keys.len(),
            parts.len() == i,
            forall|j: int| 0 <= j < i ==> (#[trigger] parts@[j])@ == key_match(keys@[j]@),
    {
        let mut part = "target.".to_string();
        text::push_quoted(&mut part, keys[i].as_str());
        part.append(" = source.");
        text::push_quoted(&mut part, keys[i].as_str());
        parts.push(part);
    }
    assert(text::views(parts@) =~= matches);
    text::join(&parts, " AND ")
}

/// The source column `column`, as an expression.
pub fn source_column(column: &str) -> (r: String)
    ensures
        r@ == "source."@ + text::quoted(column@),
{
    let mut r = "source.".to_string();
    text::push_quoted(&mut r, column);
    r
}

/// A clause of a merge. Clauses are tried in order, and the first that applies to a row wins.
#[allow(inconsistent_fields)]
#[derive(Debug, Clone, PartialEq, Eq)]
pub enum MergeClause {
    /// Delete a matched target row where the predicate holds.
    Delete { predicate: String },
    /// Take these columns of a matched row from the source where the predicate holds.
    Update { predicate: Option<String>, columns: Vec<String> },
    /// Insert a source row that matches none, with these columns, where the predicate holds.
    Insert { predicate: Option<String>, columns: Vec<String> },
}

/// A clause of a merge as a mathematical value.
#[allow(inconsistent_fields)]
pub enum Clause {
    Delete { predicate: Seq<char> },
    Update { predicate: Option<Seq<char>>, columns: Seq<Seq<char>> },
    Insert { predicate: Option<Seq<char>>, columns: Seq<Seq<char>> },
}

/// The characters of a string that may be there.
pub open spec fn optional_view(s: Option<String>) -> Option<Seq<char>> {
    match s {
        Some(t) => Some(t@),
        None => None,
    }
}

impl View for MergeClause {
    type V = Clause;

    open spec fn view(&self) -> Clause {
        match self {
            MergeClause::Delete { predicate } => Clause::Delete { predicate: predicate@ },
            MergeClause::Update { predicate, columns } => Clause::Update {
                predicate: optional_view(*predicate),
                columns: text::views(columns@),
            },
            MergeClause::Insert { predicate, columns } => Clause::Insert {
                predicate: optional_view(*predicate),
                columns: text::views(columns@),
            },
        }
    }
}

/// The clauses as mathematical values.
pub open spec fn clause_views(clauses: Seq<MergeClause>) -> Seq<Clause> {
    Seq::new(clauses.len(), |i: int| clauses[i]@)
}

/// The condition that the source row is no deleted one.
pub open spec fn live_row() -> Seq<char> {
    "source.\"_change_type\" IS NULL OR source.\"_change_type\" <> 'delete'"@
}

/// The user's predicate, and where the rows tell what kind of change they are, that they are
/// no deleted ones.
pub open spec fn gated(user: Option<Seq<char>>, has_change_type: bool) -> Option<Seq<char>> {
    match user {
        Some(p) => if has_change_type {
            Some("("@ + p + ") AND ("@ + live_row() + ")"@)
        } else {
            Some(p)
        },
        None => if has_change_type {
            Some(live_row())
        } else {
            None
        },
    }
}

/// The user's predicate, and where the rows tell what kind of change they are, that they are
/// no deleted ones.
pub fn gate_predicate(user: &Option<String>, has_change_type: bool) -> (r: Option<String>)
    ensures
        optional_view(r) == gated(optional_view(*user), has_change_type),
{
    match user {
        Some(p) => if has_change_type {
            let mut r = "(".to_string();
            r.append(p.as_str());
            r.append(") AND (");
            r.append("source.\"_change_type\" IS NULL OR source.\"_change_type\" <> 'delete'");
            r.append(")");
            Some(r)
        } else {
            Some(p.clone())
        },
        None => if has_change_type {
            Some(
                "source.\"_change_type\" IS NULL OR source.\"_change_type\" <> 'delete'".to_string(),
            )
        } else {
            None
        },
    }
}

/// The columns that a matched row takes from the source: those that the user names, or else all
/// but the keys. None is one that a change feed adds.
pub open spec fn updated_columns(spec: MergeSpec, columns: Seq<Seq<char>>) -> Seq<Seq<char>> {
    if spec.update_columns@.len() == 0 {
        non_key_columns(data_columns(columns), text::views(spec.keys@))
    } else {
        data_columns(text::views(spec.update_columns@))
    }
}

/// The clauses of a merge of rows with the columns `columns`, in the order in which they are
/// tried: deleted rows, what the user deletes, what is updated, what is inserted.
pub open spec fn merge_clauses(spec: MergeSpec, columns: Seq<Seq<char>>) -> Seq<Clause> {
    let has_change_type = columns.contains("_change_type"@);
    let routed = if has_change_type {
        seq![Clause::Delete { predicate: "source.\"_change_type\" = 'delete'"@ }]
    } else {
        Seq::empty()
    };
    let user = match spec.when_matched_delete_predicate {
        Some(p) => seq![Clause::Delete { predicate: p@ }],
        None => Seq::empty(),
    };
    routed + user + seq![
        Clause::Update {
            predicate: gated(optional_view(spec.when_matched_update_predicate), has_change_type),
            columns: updated_columns(spec, columns),
        },
        Clause::Insert {
            predicate: gated(
                optional_view(spec.when_not_matched_insert_predicate),
                has_change_type,
            ),
            columns: data_columns(columns),
        },
    ]
}

/// A merge of rows with given columns.
#[derive(Debug, Clone)]
pub struct MergePlan {
    /// The condition under which a source and a target row have the same key.
    pub predicate: String,
    /// The clauses, in the order in which they are tried.
    pub clauses: Vec<MergeClause>,
}

/// The first key that is not among the data columns, if any.
pub open spec fn first_missing_key(
    keys: Seq<Seq<char>>,
    columns: Seq<Seq<char>>,
    i: int,
) -> bool {
    &&& 0 <= i < keys.len()
    &&& !data_columns(columns).contains(keys[i])
    &&& forall|j: int| 0 <= j < i ==> data_columns(columns).contains(#[trigger] keys[j])
}

/// Whether every key is among the data columns.
pub open spec fn keys_present(keys: Seq<Seq<char>>, columns: Seq<Seq<char>>) -> bool {
    forall|i: int| 0 <= i < keys.len() ==> data_columns(columns).contains(#[trigger] keys[i])
}

/// A merge can be planned exactly where every key is a column of the rows, and none is one that a
/// change feed adds. Else the first key of which this does not hold is the missing one.
pub proof fn lemma_merge_needs_its_keys(keys: Seq<Seq<char>>, columns: Seq<Seq<char>>, i: int)
    ensures
        keys_present(keys, columns) <==> forall|j: int|
            0 <= j < keys.len() ==> columns.contains(#[trigger] keys[j]) && keys[j]
                != "_change_type"@ && keys[j] != "_commit_version"@ && keys[j]
                != "_commit_timestamp"@,
        first_missing_key(keys, columns, i) ==> {
            &&& 0 <= i < keys.len()
            &&& !keys_present(keys, columns)
            &&& keys_present(keys.take(i), columns)
            &&& !columns.contains(keys[i]) || keys[i] == "_change_type"@ || keys[i]
                == "_commit_version"@ || keys[i] == "_commit_timestamp"@
        },
{
    assert forall|c: Seq<char>| #[trigger] data_columns(columns).contains(c) <==> columns.contains(c)
        && !cdf_column(c) by {
        lemma_data_columns(columns, c);
    }
    if first_missing_key(keys, columns, i) {
        assert(!data_columns(columns).contains(keys[i]));
        assert forall|j: int| 0 <= j < keys.take(i).len() implies data_columns(columns).contains(
            #[trigger] keys.take(i)[j],
        ) by {
            assert(keys.take(i)[j] == keys[j]);
        }
    }
}

/// Plans the merge of rows with the columns `columns`, which are those after the user's
/// transform.
pub fn plan_merge(spec: &MergeSpec, columns: &Vec<String>) -> (r: Result<MergePlan, SinkError>)
    ensures
        match r {
            Ok(plan) => {
                &&& spec.keys@.len() > 0
                &&& keys_present(text::views(spec.keys@), text::views(columns@))
                &&& plan.predicate@ == join_predicate_text(text::views(spec.keys@))
                &&& clause_views(plan.clauses@) == merge_clauses(*spec, text::views(columns@))
            },
            Err(SinkError::NoKeys) => spec.keys@.len() == 0,
            Err(SinkError::MissingKey { key, columns: present }) => {
                &&& spec.keys@.len() > 0
                &&& exists|i: int|
                    #[trigger] first_missing_key(
                        text::views(spec.keys@),
                        text::views(columns@),
                        i,
                    ) && key@ == spec.keys@[i]@
                &&& text::views(present@) == data_columns(text::views(columns@))
            },
            Err(_) => false,
        },
{
    let n: usize = spec.keys.len();
    if n == 0 {
        return Err(SinkError::NoKeys);
    }
    let ghost all = text::views(columns@);
    let ghost keys = text::views(spec.keys@);
    let data = keep_data_columns(columns);
    for i in 0..n
        invariant
            n == spec.keys.len(),
            n > 0,
            all == text::views(columns@),
            keys == text::views(spec.keys@),
            text::views(data@) == data_columns(all),
            forall|j: int| 0 <= j < i ==> data_columns(all).contains(#[trigger] keys[j]),
    {
        if !text::is_among(&data, spec.keys[i].as_str()) {
            assert(keys[i as int] == spec.keys@[i as int]@);
            assert(first_missing_key(keys, all, i as int));
            return Err(SinkError::MissingKey { key: spec.keys[i].clone(), columns: data });
        }
    }
    let has_change_type = text::is_among(columns, CDF_CHANGE_TYPE_COL);
    let updated = if spec.update_columns.len() == 0 {
        drop_keys(&data, &spec.keys)
    } else {
        keep_data_columns(&spec.update_columns)
    };
    let mut clauses: Vec<MergeClause> = Vec::new();
    if has_change_type {
        clauses.push(
            MergeClause::Delete { predicate: "source.\"_change_type\" = 'delete'".to_string() },
        );
    }
    if let Some(p) = &spec.when_matched_delete_predicate {
        clauses.push(MergeClause::Delete { predicate: p.clone() });
    }
    clauses.push(
        MergeClause::Update {
            predicate: gate_predicate(&spec.when_matched_update_predicate, has_change_type),
            columns: updated,
        },
    );
    clauses.push(
        MergeClause::Insert {
            predicate: gate_predicate(&spec.when_not_matched_insert_predicate, has_change_type),
            columns: data,
        },
    );
    assert(clause_views(clauses@) =~= merge_clauses(*spec, all));
    Ok(MergePlan { predicate: join_predicate(&spec.keys), clauses })
}

/// A merge writes no column that a change feed adds: it inserts the other columns of the rows,
/// and it updates those that the user names or, where the user names none, all but the keys.
pub proof fn lemma_merge_writes_data_only(
    spec: MergeSpec,
    columns: Seq<Seq<char>>,
    i: int,
    c: Seq<char>,
)
    requires
        0 <= i < merge_clauses(spec, columns).len(),
    ensures
        merge_clauses(spec, columns)[i] matches Clause::Insert { columns: cs, .. } ==> (cs.contains(
            c,
        ) <==> columns.contains(c) && !cdf_column(c)),
        merge_clauses(spec, columns)[i] matches Clause::Update { columns: cs, .. } ==> (cs.contains(
            c,
        ) <==> !cdf_column(c) && if spec.update_columns@.len() == 0 {
            columns.contains(c) && !text::views(spec.keys@).contains(c)
        } else {
            text::views(spec.update_columns@).contains(c)
        }),
{
    lemma_data_columns(text::views(spec.update_columns@), c);
    lemma_data_columns(columns, c);
    let data = data_columns(columns);
    let keys = text::views(spec.keys@);
    let keep = |c: Seq<char>| !keys.contains(c);
    let kept = non_key_columns(data, keys);
    if kept.contains(c) {
        data.lemma_filter_contains_rev(keep, c);
        data.lemma_filter_pred(keep, kept.index_of(c));
    }
    if data.contains(c) && !keys.contains(c) {
        data.lemma_filter_contains(keep, data.index_of(c));
    }
}

/// Rows that the change feed marks as deleted only ever delete: where the rows tell what kind
/// of change they are, the first clause deletes the matched ones, and the conditions on updates
/// and inserts leave them out.
pub proof fn lemma_deleted_rows_only_delete(spec: MergeSpec, columns: Seq<Seq<char>>, i: int)
    requires
        columns.contains("_change_type"@),
        0 <= i < merge_clauses(spec, columns).len(),
    ensures
        merge_clauses(spec, columns)[0] == (Clause::Delete {
            predicate: "source.\"_change_type\" = 'delete'"@,
        }),
        match merge_clauses(spec, columns)[i] {
            Clause::Delete { .. } => true,
            Clause::Update { predicate, .. } => predicate == (match optional_view(
                spec.when_matched_update_predicate,
            ) {
                None => Some(live_row()),
                Some(p) => Some("("@ + p + ") AND ("@ + live_row() + ")"@),
            }),
            Clause::Insert { predicate, .. } => predicate == (match optional_view(
                spec.when_not_matched_insert_predicate,
            ) {
                None => Some(live_row()),
                Some(p) => Some("("@ + p + ") AND ("@ + live_row() + ")"@),
            }),
        },
{
}

/// Rows from a source without a change feed are written as they are: no column is stripped, no
/// row is dropped, and a merge updates or inserts every one of them unless the user's own
/// predicates say otherwise.
pub proof fn lemma_plain_rows_are_upserts(spec: MergeSpec, columns: Seq<Seq<char>>)
    requires
        forall|i: int| 0 <= i < columns.len() ==> !cdf_column(#[trigger] columns[i]),
    ensures
        data_columns(columns) == columns,
        live_rows_sql_text(columns) == "SELECT * FROM __cdf"@,
        spec.when_matched_delete_predicate is None ==> merge_clauses(spec, columns) == seq![
            Clause::Update {
                predicate: optional_view(spec.when_matched_update_predicate),
                columns: updated_columns(spec, columns),
            },
            Clause::Insert {
                predicate: optional_view(spec.when_not_matched_insert_predicate),
                columns,
            },
        ],
        !given_name(spec.dedupe_order_by) ==> dedup_order(spec, columns) is None,
{
    lemma_data_columns_of_plain(columns);
    assert(!columns.contains("_change_type"@));
    assert(!columns.contains("_commit_version"@));
    if spec.when_matched_delete_predicate is None {
        assert(merge_clauses(spec, columns) =~= seq![
            Clause::Update {
                predicate: optional_view(spec.when_matched_update_predicate),
                columns: updated_columns(spec, columns),
            },
            Clause::Insert {
                predicate: optional_view(spec.when_not_matched_insert_predicate),
                columns,
            },
        ]);
    }
}

proof fn lemma_data_columns_of_plain(columns: Seq<Seq<char>>)
    requires
        forall|i: int| 0 <= i < columns.len() ==> !cdf_column(#[trigger] columns[i]),
    ensures
        data_columns(columns) == columns,
    decreases columns.len(),
{
    reveal(Seq::filter);
    if columns.len() > 0 {
        lemma_data_columns_of_plain(columns.drop_last());
        assert(!cdf_column(columns[columns.len() - 1]));
        assert(columns.drop_last().push(columns.last()) =~= columns);
    } else {
        assert(data_columns(columns) =~= columns);
    }
}

// ---------------------------------------------------------------------------
// Appends and overwrites
// ---------------------------------------------------------------------------

impl SinkMode {
    /// How the rows of a batch are written, in a mode that writes them; `None` for a merge.
    pub open spec fn written_as(&self) -> Option<WriteMode> {
        match self {
            SinkMode::Append => Some(WriteMode::Append),
            SinkMode::Overwrite => Some(WriteMode::Overwrite),
            SinkMode::Merge(_) => None,
        }
    }

    /// How the rows of a batch are written, in a mode that writes them; `None` for a merge.
    pub fn write_mode(&self) -> (r: Option<WriteMode>)
        ensures
            r == self.written_as(),
    {
        match self {
            SinkMode::Append => Some(WriteMode::Append),
            SinkMode::Overwrite => Some(WriteMode::Overwrite),
            SinkMode::Merge(_) => None,
        }
    }
}

/// A row of a change feed: what kind of change it is, where that is told, and the row without
/// the columns that the feed adds.
pub ghost struct ChangeRow<R> {
    pub change_type: Option<Seq<char>>,
    pub data: R,
}

/// The rows of a batch that are written: all but the deleted ones.
pub open spec fn live_rows<R>(batch: Seq<ChangeRow<R>>) -> Seq<R>
    decreases batch.len(),
{
    if batch.len() == 0 {
        Seq::empty()
    } else if batch.last().change_type == Some("delete"@) {
        live_rows(batch.drop_last())
    } else {
        live_rows(batch.drop_last()).push(batch.last().data)
    }
}

/// The rows of a table that had the rows `before`, after `rows` have been written to it. This is
/// a model of what an append and an overwrite are; the code is tied to it by `written_as`, which
/// says which of them a batch is handed to.
pub open spec fn rows_after<R>(mode: WriteMode, before: Seq<R>, rows: Seq<R>) -> Seq<R> {
    match mode {
        WriteMode::Append => before + rows,
        WriteMode::Overwrite => rows,
    }
}

/// The rows of a target that had the rows `before`, after a batch has been applied to it; `None`
/// for a merge, which does not write the batch as it is.
pub open spec fn rows_after_batch<R>(
    mode: SinkMode,
    before: Seq<R>,
    batch: Seq<ChangeRow<R>>,
) -> Option<Seq<R>> {
    match mode.written_as() {
        Some(w) => Some(rows_after(w, before, live_rows(batch))),
        None => None,
    }
}

/// In the model of a write, the one that an overwriting sink asks for leaves the rows of the batch
/// that are not deleted and nothing of what was there, so that applying the batch once more
/// changes nothing.
pub proof fn lemma_overwrite_is_idempotent<R>(before: Seq<R>, batch: Seq<ChangeRow<R>>)
    ensures
        rows_after_batch(SinkMode::Overwrite, before, batch) == Some(live_rows(batch)),
        rows_after_batch(SinkMode::Overwrite, live_rows(batch), batch) == rows_after_batch(
            SinkMode::Overwrite,
            before,
            batch,
        ),
{
}

/// In the model of a write, the one that an appending sink asks for keeps the rows that were there
/// and adds those of the batch that are not deleted.
pub proof fn lemma_append_keeps_rows<R>(before: Seq<R>, batch: Seq<ChangeRow<R>>)
    ensures
        rows_after_batch(SinkMode::Append, before, batch) == Some(before + live_rows(batch)),
{
}

// ---------------------------------------------------------------------------
// What a merge does to rows
// ---------------------------------------------------------------------------

/// The condition that the source row is a deleted one.
pub open spec fn deleted_row() -> Seq<char> {
    "source.\"_change_type\" = 'delete'"@
}

/// Whether a condition holds of a source row with the given kind of change, for the two conditions
/// that the library writes itself. No other condition holds here: what the user writes is not
/// modelled.
pub open spec fn condition_holds(condition: Seq<char>, change_type: Option<Seq<char>>) -> bool {
    if condition == deleted_row() {
        change_type == Some("delete"@)
    } else {
        condition == live_row() && change_type != Some("delete"@)
    }
}

/// Whether a clause applies to a source row; `matched` tells whether the target has a row with its
/// key.
pub open spec fn clause_applies(
    clause: Clause,
    matched: bool,
    change_type: Option<Seq<char>>,
) -> bool {
    match clause {
        Clause::Delete { predicate } => matched && condition_holds(predicate, change_type),
        Clause::Update { predicate, .. } => matched && match predicate {
            Some(p) => condition_holds(p, change_type),
            None => true,
        },
        Clause::Insert { predicate, .. } => !matched && match predicate {
            Some(p) => condition_holds(p, change_type),
            None => true,
        },
    }
}

/// The first clause that applies to a source row, if any does.
pub open spec fn applied_clause(
    clauses: Seq<Clause>,
    matched: bool,
    change_type: Option<Seq<char>>,
) -> Option<Clause>
    decreases clauses.len(),
{
    if clauses.len() == 0 {
        None
    } else if clause_applies(clauses[0], matched, change_type) {
        Some(clauses[0])
    } else {
        applied_clause(clauses.skip(1), matched, change_type)
    }
}

/// What the target has under a key after a merge with the given clauses, where it had `before`
/// under it and `source` is the source row with that key, if there is one. An update takes the
/// whole row from the source.
pub open spec fn merged_row<R>(
    clauses: Seq<Clause>,
    before: Option<R>,
    source: Option<ChangeRow<R>>,
) -> Option<R> {
    match source {
        None => before,
        Some(row) => match applied_clause(clauses, before is Some, row.change_type) {
            None => before,
            Some(Clause::Delete { .. }) => None,
            Some(_) => Some(row.data),
        },
    }
}

/// A change of the row with key `key`. Of several changes of a row, the one with the largest
/// `order` is the latest.
pub ghost struct KeyedChange<K, R> {
    pub key: K,
    pub order: int,
    pub row: ChangeRow<R>,
}

/// Whether the change at place `i` is a latest one of its row.
pub open spec fn latest_change<K, R>(batch: Seq<KeyedChange<K, R>>, i: int) -> bool {
    &&& 0 <= i < batch.len()
    &&& forall|j: int|
        0 <= j < batch.len() && (#[trigger] batch[j]).key == batch[i].key ==> batch[j].order
            <= batch[i].order
}

/// Whether the change at place `i` is later than all others of its row.
pub open spec fn sole_latest_change<K, R>(batch: Seq<KeyedChange<K, R>>, i: int) -> bool {
    &&& 0 <= i < batch.len()
    &&& forall|j: int|
        0 <= j < batch.len() && j != i && (#[trigger] batch[j]).key == batch[i].key
            ==> batch[j].order < batch[i].order
}

/// Whether `kept` is what the query that keeps one source row per key, the latest first, leaves of
/// a batch: under each key that occurs, a latest change of it.
pub open spec fn deduplicated<K, R>(
    batch: Seq<KeyedChange<K, R>>,
    kept: Map<K, ChangeRow<R>>,
) -> bool {
    &&& forall|i: int| 0 <= i < batch.len() ==> kept.dom().contains((#[trigger] batch[i]).key)
    &&& forall|key: K| #[trigger]
        kept.dom().contains(key) ==> exists|i: int| #[trigger]
            latest_change(batch, i) && batch[i].key == key && batch[i].row == kept[key]
}

/// What stands under `key`, if anything does.
pub open spec fn found_in<K, V>(m: Map<K, V>, key: K) -> Option<V> {
    if m.dom().contains(key) {
        Some(m[key])
    } else {
        None
    }
}

/// Whether a target with the rows `before`, by their keys, has the rows `after` once the batch has
/// been merged into it. This is a model of a merge; the code is tied to it by the clauses of
/// `merge_clauses`, which are those that the engine is handed.
pub open spec fn rows_merged<K, R>(
    clauses: Seq<Clause>,
    before: Map<K, R>,
    batch: Seq<KeyedChange<K, R>>,
    after: Map<K, R>,
) -> bool {
    exists|kept: Map<K, ChangeRow<R>>| #[trigger]
        deduplicated(batch, kept) && forall|key: K|
            #![trigger found_in(after, key)]
            found_in(after, key) == merged_row(clauses, found_in(before, key), found_in(kept, key))
}

/// Whether a merge takes the changed rows as they are: the user gives no predicate and no
/// transform, and names no columns to update.
pub open spec fn takes_whole_rows(spec: MergeSpec) -> bool {
    &&& spec.when_matched_update_predicate is None
    &&& spec.when_matched_delete_predicate is None
    &&& spec.when_not_matched_insert_predicate is None
    &&& spec.update_columns@.len() == 0
    &&& !given_query(spec.transform_sql)
    &&& spec.transform_rust is None
}

/// Whether the rows of a batch with the columns `columns` tell what kind of change they are, or
/// are no changes at all.
pub open spec fn kinds_told<K, R>(
    columns: Seq<Seq<char>>,
    batch: Seq<KeyedChange<K, R>>,
) -> bool {
    columns.contains("_change_type"@) || forall|j: int|
        0 <= j < batch.len() ==> (#[trigger] batch[j]).row.change_type is None
}

/// What a merge that takes the changed rows as they are does with a source row: a deleted one deletes its
/// match or does nothing, and any other one replaces its match or is inserted.
pub proof fn lemma_merged_row<R>(
    spec: MergeSpec,
    columns: Seq<Seq<char>>,
    before: Option<R>,
    row: ChangeRow<R>,
)
    requires
        takes_whole_rows(spec),
        columns.contains("_change_type"@) || row.change_type is None,
    ensures
        merged_row(merge_clauses(spec, columns), before, Some(row)) == (if row.change_type == Some(
            "delete"@,
        ) {
            None
        } else {
            Some(row.data)
        }),
{
    reveal_with_fuel(applied_clause, 4);
    reveal_strlit("source.\"_change_type\" = 'delete'");
    reveal_strlit("source.\"_change_type\" IS NULL OR source.\"_change_type\" <> 'delete'");
    assert(deleted_row().len() != live_row().len());
    let clauses = merge_clauses(spec, columns);
    if columns.contains("_change_type"@) {
        assert(clauses.len() == 3);
        assert(clauses.skip(1)[0] == clauses[1]);
        assert(clauses.skip(1).skip(1)[0] == clauses[2]);
        assert(clauses.skip(1).skip(1).skip(1).len() == 0);
    } else {
        assert(clauses.len() == 2);
        assert(clauses.skip(1)[0] == clauses[1]);
        assert(clauses.skip(1).skip(1).len() == 0);
    }
}

/// The latest change of a row wins: after a merge the target has no row under its key where that
/// change is a deletion, whatever came before it, and else has the row of that change.
pub proof fn lemma_latest_change_wins<K, R>(
    spec: MergeSpec,
    columns: Seq<Seq<char>>,
    before: Map<K, R>,
    batch: Seq<KeyedChange<K, R>>,
    after: Map<K, R>,
    i: int,
)
    requires
        takes_whole_rows(spec),
        dedup_order(spec, columns) is Some,
        kinds_told(columns, batch),
        rows_merged(merge_clauses(spec, columns), before, batch, after),
        sole_latest_change(batch, i),
    ensures
        found_in(after, batch[i].key) == (if batch[i].row.change_type == Some("delete"@) {
            None
        } else {
            Some(batch[i].row.data)
        }),
{
    let clauses = merge_clauses(spec, columns);
    let key = batch[i].key;
    let kept = choose|kept: Map<K, ChangeRow<R>>| #[trigger]
        deduplicated(batch, kept) && forall|key: K|
            #![trigger found_in(after, key)]
            found_in(after, key) == merged_row(clauses, found_in(before, key), found_in(kept, key));
    assert(kept.dom().contains(key));
    let k = choose|k: int| #[trigger]
        latest_change(batch, k) && batch[k].key == key && batch[k].row == kept[key];
    assert(k == i) by {
        if k != i {
            assert(batch[k].order < batch[i].order);
            assert(batch[i].order <= batch[k].order);
        }
    }
    lemma_merged_row(spec, columns, found_in(before, key), batch[i].row);
}

/// Rows that a batch does not name stay as they were, whatever the clauses of the merge.
pub proof fn lemma_other_rows_stay<K, R>(
    clauses: Seq<Clause>,
    before: Map<K, R>,
    batch: Seq<KeyedChange<K, R>>,
    after: Map<K, R>,
    key: K,
)
    requires
        rows_merged(clauses, before, batch, after),
        forall|j: int| 0 <= j < batch.len() ==> (#[trigger] batch[j]).key != key,
    ensures
        found_in(after, key) == found_in(before, key),
{
}

/// A row that is inserted and then deleted within a batch is deleted.
pub proof fn lemma_insert_then_delete_is_delete<K, R>(
    spec: MergeSpec,
    columns: Seq<Seq<char>>,
    before: Map<K, R>,
    key: K,
    inserted: R,
    deleted: R,
    first: int,
    second: int,
    after: Map<K, R>,
)
    requires
        takes_whole_rows(spec),
        dedup_order(spec, columns) is Some,
        columns.contains("_change_type"@),
        first < second,
        rows_merged(
            merge_clauses(spec, columns),
            before,
            seq![
                KeyedChange {
                    key,
                    order: first,
                    row: ChangeRow { change_type: Some("insert"@), data: inserted },
                },
                KeyedChange {
                    key,
                    order: second,
                    row: ChangeRow { change_type: Some("delete"@), data: deleted },
                },
            ],
            after,
        ),
    ensures
        !after.dom().contains(key),
{
    let batch = seq![
        KeyedChange {
            key,
            order: first,
            row: ChangeRow { change_type: Some("insert"@), data: inserted },
        },
        KeyedChange {
            key,
            order: second,
            row: ChangeRow { change_type: Some("delete"@), data: deleted },
        },
    ];
    assert(sole_latest_change(batch, 1));
    lemma_latest_change_wins(spec, columns, before, batch, after, 1);
}

/// Merging a batch once more changes nothing, where no two changes of a row are equally late.
pub proof fn lemma_merge_is_idempotent<K, R>(
    spec: MergeSpec,
    columns: Seq<Seq<char>>,
    before: Map<K, R>,
    batch: Seq<KeyedChange<K, R>>,
    after: Map<K, R>,
    again: Map<K, R>,
)
    requires
        takes_whole_rows(spec),
        dedup_order(spec, columns) is Some,
        kinds_told(columns, batch),
        forall|i: int| #[trigger] latest_change(batch, i) ==> sole_latest_change(batch, i),
        rows_merged(merge_clauses(spec, columns), before, batch, after),
        rows_merged(merge_clauses(spec, columns), after, batch, again),
    ensures
        again == after,
{
    let clauses = merge_clauses(spec, columns);
    assert forall|key: K| found_in(again, key) == #[trigger] found_in(after, key) by {
        if exists|j: int| 0 <= j < batch.len() && (#[trigger] batch[j]).key == key {
            let j = choose|j: int| 0 <= j < batch.len() && (#[trigger] batch[j]).key == key;
            let kept = choose|kept: Map<K, ChangeRow<R>>| #[trigger] deduplicated(batch, kept);
            assert(kept.dom().contains(batch[j].key));
            let i = choose|i: int| #[trigger]
                latest_change(batch, i) && batch[i].key == key && batch[i].row == kept[key];
            lemma_latest_change_wins(spec, columns, before, batch, after, i);
            lemma_latest_change_wins(spec, columns, after, batch, again, i);
        } else {
            lemma_other_rows_stay(clauses, before, batch, after, key);
            lemma_other_rows_stay(clauses, after, batch, again, key);
        }
    }
    assert forall|key: K| again.dom().contains(key) == #[trigger] after.dom().contains(key) by {
        assert(found_in(again, key) == found_in(after, key));
    }
    assert forall|key: K| #[trigger] after.dom().contains(key) implies again[key] == after[key] by {
        assert(found_in(again, key) == found_in(after, key));
    }
    assert(again.dom() =~= after.dom());
    assert(again =~= after);
}

// ---------------------------------------------------------------------------
// Outcomes
// ---------------------------------------------------------------------------

/// The outcome of an append or an overwrite.
pub fn written_outcome(source_rows: u64, appended: u64, version: Option<u64>) -> (r: SinkOutcome)
    ensures
        r.source_rows == source_rows,
        r.appended == appended,
        r.target_version == util::signed_version(version),
        r.inserts == 0 && r.updates == 0 && r.deletes == 0 && r.duration_ms == 0,
{
    SinkOutcome {
        source_rows,
        inserts: 0,
        updates: 0,
        deletes: 0,
        appended,
        target_version: util::version_to_i64(version),
        duration_ms: 0,
    }
}

/// The outcome of a merge.
pub fn merged_outcome(
    source_rows: u64,
    inserted: usize,
    updated: usize,
    deleted: usize,
    version: Option<u64>,
) -> (r: SinkOutcome)
    ensures
        r.source_rows == source_rows,
        r.inserts == inserted && r.updates == updated && r.deletes == deleted,
        r.target_version == util::signed_version(version),
        r.appended == 0 && r.duration_ms == 0,
{
    SinkOutcome {
        source_rows,
        inserts: inserted as u64,
        updates: updated as u64,
        deletes: deleted as u64,
        appended: 0,
        target_version: util::version_to_i64(version),
        duration_ms: 0,
    }
}

impl SinkOutcome {
    /// The same outcome, with the time that it took.
    pub fn timed(self, duration_ms: u64) -> (r: Self)
        ensures
            r == (SinkOutcome { duration_ms, ..self }),
    {
        SinkOutcome { duration_ms, ..self }
    }
}

// ---------------------------------------------------------------------------
// The dashboard
// ---------------------------------------------------------------------------

/// The durations of the events.
pub open spec fn durations(events: Seq<SinkEvent>) -> Seq<u64> {
    Seq::new(events.len(), |i: int| events[i].duration_ms)
}

/// Whether the counters have room for `outcome`.
pub open spec fn has_room_for(s: SinkState, outcome: SinkOutcome) -> bool {
    &&& s.batches_processed < u64::MAX
    &&& s.total_inserts + outcome.inserts <= u64::MAX
    &&& s.total_updates + outcome.updates <= u64::MAX
    &&& s.total_deletes + outcome.deletes <= u64::MAX
    &&& s.total_appended + outcome.appended <= u64::MAX
}

/// Whether the counters have room for `outcome`.
pub fn can_update_sink_state(s: &SinkState, outcome: &SinkOutcome) -> (r: bool)
    ensures
        r == has_room_for(*s, *outcome),
{
    s.batches_processed < u64::MAX && outcome.inserts <= u64::MAX - s.total_inserts
        && outcome.updates <= u64::MAX - s.total_updates && outcome.deletes <= u64::MAX
        - s.total_deletes && outcome.appended <= u64::MAX - s.total_appended
}

/// Whether `new` is `old` after `outcome` of a sink in mode `mode` at time `timestamp`.
pub open spec fn sink_updated(
    old: SinkState,
    mode: SinkMode,
    outcome: SinkOutcome,
    timestamp: String,
    new: SinkState,
) -> bool {
    &&& new.status@ == "Idle"@
    &&& new.batches_processed == old.batches_processed + 1
    &&& new.total_inserts == old.total_inserts + outcome.inserts
    &&& new.total_updates == old.total_updates + outcome.updates
    &&& new.total_deletes == old.total_deletes + outcome.deletes
    &&& new.total_appended == old.total_appended + outcome.appended
    &&& new.target_version == outcome.target_version
    &&& new.last_duration_ms == outcome.duration_ms
    &&& new.last_source_rows == outcome.source_rows
    &&& exists|event: SinkEvent|
        {
            &&& #[trigger] is_event(event, mode, outcome, timestamp)
            &&& new.events@ == state::pushed_within(old.events@, event, state::MAX_EVENTS as nat)
        }
    &&& new.avg_duration_ms == state::mean(durations(new.events@))
    &&& new.enabled == old.enabled
    &&& new.mode == old.mode
    &&& new.target_uri == old.target_uri
    &&& new.target_backend == old.target_backend
    &&& new.running == old.running
    &&& new.last_error == old.last_error
    &&& new.launch_config == old.launch_config
}

/// Whether `event` records `outcome` of a sink in mode `mode` at time `timestamp`.
pub open spec fn is_event(
    event: SinkEvent,
    mode: SinkMode,
    outcome: SinkOutcome,
    timestamp: String,
) -> bool {
    &&& event.timestamp == timestamp
    &&& event.mode@ == mode.name_text()
    &&& event.source_rows == outcome.source_rows
    &&& event.inserts == outcome.inserts
    &&& event.updates == outcome.updates
    &&& event.deletes == outcome.deletes
    &&& event.appended == outcome.appended
    &&& event.target_version == outcome.target_version
    &&& event.duration_ms == outcome.duration_ms
}

/// Shows what one application of a batch did at `timestamp`.
pub fn update_sink_state_at(
    s: &mut SinkState,
    mode: &SinkMode,
    outcome: &SinkOutcome,
    timestamp: String,
)
    requires
        has_room_for(*old(s), *outcome),
    ensures
        sink_updated(*old(s), *mode, *outcome, timestamp, *final(s)),
{
    s.status = "Idle".to_string();
    s.batches_processed = s.batches_processed + 1;
    s.total_inserts = s.total_inserts + outcome.inserts;
    s.total_updates = s.total_updates + outcome.updates;
    s.total_deletes = s.total_deletes + outcome.deletes;
    s.total_appended = s.total_appended + outcome.appended;
    s.target_version = outcome.target_version;
    s.last_duration_ms = outcome.duration_ms;
    s.last_source_rows = outcome.source_rows;
    let event = SinkEvent {
        timestamp,
        mode: mode.name().to_string(),
        source_rows: outcome.source_rows,
        inserts: outcome.inserts,
        updates: outcome.updates,
        deletes: outcome.deletes,
        appended: outcome.appended,
        target_version: outcome.target_version,
        duration_ms: outcome.duration_ms,
    };
    assert(is_event(event, *mode, *outcome, timestamp));
    state::push_within(&mut s.events, event, state::MAX_EVENTS);
    let n: usize = s.events.len();
    let mut times: Vec<u64> = Vec::new();
    for i in 0..n
        invariant
            n == s.events.len(),
            times@ == durations(s.events@).take(i as int),
    {
        times.push(s.events[i].duration_ms);
        assert(durations(s.events@).take(i + 1) =~= durations(s.events@).take(i as int).push(
            s.events@[i as int].duration_ms,
        ));
    }
    assert(durations(s.events@).take(n as int) =~= durations(s.events@));
    s.avg_duration_ms = state::mean_of(&times);
}

/// Shows what an application of a batch that has just ended did.
pub fn update_sink_state(s: &mut SinkState, mode: &SinkMode, outcome: &SinkOutcome)
    requires
        has_room_for(*old(s), *outcome),
    ensures
        exists|timestamp: String|
            clock::time_of_day(timestamp@) && #[trigger] sink_updated(
                *old(s),
                *mode,
                *outcome,
                timestamp,
                *final(s),
            ),
{
    let timestamp = clock::utc_clock_seconds();
    let ghost shown = timestamp;
    update_sink_state_at(s, mode, outcome, timestamp);
    assert(sink_updated(*old(s), *mode, *outcome, shown, *s));
}

// ---------------------------------------------------------------------------
// What the plan of a merge is for
// ---------------------------------------------------------------------------

/// What the user wants deleted is deleted, whatever the columns of the rows are: the clauses have
/// the user's delete predicate as it is, before the one update clause.
pub proof fn lemma_user_deletes_are_kept(spec: MergeSpec, columns: Seq<Seq<char>>, p: String)
    requires
        spec.when_matched_delete_predicate == Some(p),
    ensures
        exists|i: int, j: int|
            {
                &&& 0 <= i < j < merge_clauses(spec, columns).len()
                &&& #[trigger] merge_clauses(spec, columns)[i] == (Clause::Delete {
                    predicate: p@,
                })
                &&& #[trigger] merge_clauses(spec, columns)[j] is Update
            },
{
    let clauses = merge_clauses(spec, columns);
    let n = clauses.len() as int;
    assert(clauses[n - 3] == (Clause::Delete { predicate: p@ }));
    assert(clauses[n - 2] is Update);
}

/// Nothing else is deleted: a delete clause is the user's, or the one for rows that the change feed
/// marks as deleted, which is there exactly where the rows tell what kind of change they are.
pub proof fn lemma_only_asked_deletes(spec: MergeSpec, columns: Seq<Seq<char>>, i: int)
    requires
        0 <= i < merge_clauses(spec, columns).len(),
    ensures
        merge_clauses(spec, columns)[i] matches Clause::Delete { predicate } ==> (
        spec.when_matched_delete_predicate matches Some(p) && p@ == predicate) || (
        columns.contains("_change_type"@) && i == 0 && predicate
            == "source.\"_change_type\" = 'delete'"@),
        columns.contains("_change_type"@) ==> merge_clauses(spec, columns)[0] == (Clause::Delete {
            predicate: "source.\"_change_type\" = 'delete'"@,
        }),
{
}

/// A merge ends with one update clause and one insert clause, in this order, and has no other of
/// either kind; before them there are delete clauses alone, as many as there are reasons to delete.
pub proof fn lemma_clause_order(spec: MergeSpec, columns: Seq<Seq<char>>, i: int)
    ensures
        merge_clauses(spec, columns).len() == 2 + (if columns.contains("_change_type"@) {
            1int
        } else {
            0
        }) + (if spec.when_matched_delete_predicate is Some {
            1int
        } else {
            0
        }),
        merge_clauses(spec, columns)[merge_clauses(spec, columns).len() - 1] is Insert,
        merge_clauses(spec, columns)[merge_clauses(spec, columns).len() - 2] is Update,
        0 <= i < merge_clauses(spec, columns).len() - 2 ==> merge_clauses(spec, columns)[i] is Delete,
{
}

/// The user's conditions on updates and inserts hold of what is updated and inserted: each is the
/// condition of its clause, or the first of two that have to hold, where rows that the change feed
/// marks as deleted are left out too. Without a condition of the user, only these are left out.
pub proof fn lemma_user_conditions_apply(spec: MergeSpec, columns: Seq<Seq<char>>, i: int)
    requires
        0 <= i < merge_clauses(spec, columns).len(),
    ensures
        merge_clauses(spec, columns)[i] matches Clause::Update { predicate, .. } ==> is_condition(
            spec.when_matched_update_predicate,
            columns.contains("_change_type"@),
            predicate,
        ),
        merge_clauses(spec, columns)[i] matches Clause::Insert { predicate, .. } ==> is_condition(
            spec.when_not_matched_insert_predicate,
            columns.contains("_change_type"@),
            predicate,
        ),
{
}

/// Whether `r` is the user's condition, with the condition that the row is no deleted one where
/// the rows tell that.
pub open spec fn is_condition(
    user: Option<String>,
    kinds_told: bool,
    r: Option<Seq<char>>,
) -> bool {
    let live = "source.\"_change_type\" IS NULL OR source.\"_change_type\" <> 'delete'"@;
    match (user, kinds_told) {
        (None, false) => r is None,
        (Some(p), false) => r == Some(p@),
        (None, true) => r == Some(live),
        (Some(p), true) => r == Some("("@ + p@ + ") AND ("@ + live + ")"@),
    }
}

/// The same columns are inserted and, where the user names none, updated, whatever predicates the
/// user gives; and the order of the columns is that of the rows.
pub proof fn lemma_columns_of_a_merge(spec: MergeSpec, columns: Seq<Seq<char>>)
    ensures
        ({
            let clauses = merge_clauses(spec, columns);
            let n = clauses.len() as int;
            &&& clauses[n - 1]->Insert_columns == columns.filter(
                |c: Seq<char>|
                    c != "_change_type"@ && c != "_commit_version"@ && c != "_commit_timestamp"@,
            )
            &&& spec.update_columns@.len() == 0 ==> clauses[n - 2]->Update_columns
                == clauses[n - 1]->Insert_columns.filter(
                |c: Seq<char>| !text::views(spec.keys@).contains(c),
            )
            &&& spec.update_columns@.len() > 0 ==> clauses[n - 2]->Update_columns == text::views(
                spec.update_columns@,
            ).filter(
                |c: Seq<char>|
                    c != "_change_type"@ && c != "_commit_version"@ && c != "_commit_timestamp"@,
            )
        }),
{
    let keep = |c: Seq<char>|
        c != "_change_type"@ && c != "_commit_version"@ && c != "_commit_timestamp"@;
    let same = |c: Seq<char>| !cdf_column(c);
    assert(keep =~= same);
}

/// The columns that a change feed adds are these three and no others.
pub proof fn lemma_cdf_columns(name: Seq<char>)
    ensures
        cdf_column("_change_type"@) && cdf_column("_commit_version"@) && cdf_column(
            "_commit_timestamp"@,
        ),
        name != "_change_type"@ && name != "_commit_version"@ && name != "_commit_timestamp"@
            ==> !cdf_column(name),
{
}

/// A target is created with every column of the rows that the change feed has not added, as it is
/// and in order; and to one that is there exactly those of them are added that it lacks.
pub proof fn lemma_columns_of_a_target(columns: Seq<Column>, existing: Seq<Seq<char>>, c: Column)
    ensures
        target_columns(columns).contains(c) <==> columns.contains(c) && !cdf_column(c.name@),
        missing_columns(columns, existing).contains(c) <==> columns.contains(c) && !cdf_column(
            c.name@,
        ) && !existing.contains(c.name@),
{
    let keep = |c: Column| !cdf_column(c.name@);
    let kept = target_columns(columns);
    if kept.contains(c) {
        columns.lemma_filter_contains_rev(keep, c);
        columns.lemma_filter_pred(keep, kept.index_of(c));
    }
    if columns.contains(c) && keep(c) {
        columns.lemma_filter_contains(keep, columns.index_of(c));
    }
    let lacks = |c: Column| !cdf_column(c.name@) && !existing.contains(c.name@);
    let missing = missing_columns(columns, existing);
    if missing.contains(c) {
        columns.lemma_filter_contains_rev(lacks, c);
        columns.lemma_filter_pred(lacks, missing.index_of(c));
    }
    if columns.contains(c) && lacks(c) {
        columns.lemma_filter_contains(lacks, columns.index_of(c));
    }
}

/// Once the missing columns have been added, none is missing any more.
pub proof fn lemma_nothing_is_added_twice(columns: Seq<Column>, existing: Seq<Seq<char>>)
    requires
        forall|i: int|
            0 <= i < columns.len() && !cdf_column((#[trigger] columns[i]).name@)
                ==> existing.contains(columns[i].name@),
    ensures
        missing_columns(columns, existing).len() == 0,
{
    let missing = missing_columns(columns, existing);
    if missing.len() > 0 {
        let c = missing[0];
        assert(missing.contains(c));
        lemma_columns_of_a_target(columns, existing, c);
        let i = columns.index_of(c);
        assert(existing.contains(columns[i].name@));
    }
}

/// A row is joined by all of its keys: the condition on several keys is that on some of them and
/// that on the others, and on one key that it is the same in the target and in the source.
pub proof fn lemma_join_by_every_key(a: Seq<Seq<char>>, b: Seq<Seq<char>>, key: Seq<char>)
    requires
        a.len() > 0,
        b.len() > 0,
    ensures
        join_predicate_text(a + b) == join_predicate_text(a) + " AND "@ + join_predicate_text(b),
        join_predicate_text(seq![key]) == "target."@ + text::quoted(key) + " = source."@
            + text::quoted(key),
{
    let ma = Seq::new(a.len(), |i: int| key_match(a[i]));
    let mb = Seq::new(b.len(), |i: int| key_match(b[i]));
    let all = Seq::new((a + b).len(), |i: int| key_match((a + b)[i]));
    assert(all =~= ma + mb);
    text::lemma_joined_of_both(ma, mb, " AND "@);
    let one = Seq::new(seq![key].len(), |i: int| key_match(seq![key][i]));
    assert(one =~= seq![key_match(key)]);
    text::lemma_joined_alone(key_match(key), " AND "@);
}

/// A list of columns names each of them, between quotation marks, in order and with commas between
/// them.
pub proof fn lemma_quoted_list(a: Seq<Seq<char>>, b: Seq<Seq<char>>, c: Seq<char>)
    requires
        a.len() > 0,
        b.len() > 0,
    ensures
        quoted_list(a + b) == quoted_list(a) + ", "@ + quoted_list(b),
        quoted_list(seq![c]) == seq!['"'] + c + seq!['"'],
        quoted_list(Seq::empty()) == Seq::<char>::empty(),
{
    assert(text::all_quoted(a + b) =~= text::all_quoted(a) + text::all_quoted(b));
    text::lemma_joined_of_both(text::all_quoted(a), text::all_quoted(b), ", "@);
    assert(text::all_quoted(seq![c]) =~= seq![text::quoted(c)]);
    text::lemma_joined_alone(text::quoted(c), ", "@);
    assert(text::all_quoted(Seq::empty()) =~= Seq::<Seq<char>>::empty());
}

/// Of several source rows with one key, the latest is kept: by the column that the user names, and
/// else, where the rows tell it, by the version of the change.
pub proof fn lemma_latest_source_row_first(spec: MergeSpec, columns: Seq<Seq<char>>)
    ensures
        spec.dedupe_order_by matches Some(c) && c@.len() > 0 ==> dedup_order(spec, columns) == Some(
            seq!['"'] + spec.dedupe_order_by->0@ + seq!['"'] + " DESC"@,
        ),
        !(spec.dedupe_order_by matches Some(c) && c@.len() > 0) ==> dedup_order(spec, columns)
            == (if columns.contains("_commit_version"@) {
            Some("\"_commit_version\" DESC"@)
        } else {
            None
        }),
{
}

/// The query that keeps one source row per key reads every column, ranks the rows with the same
/// keys in the order that tells the latest, and keeps the first of each rank.
pub proof fn lemma_dedup_query(spec: MergeSpec, columns: Seq<Seq<char>>, i: int)
    ensures
        0 <= i < columns.len() ==> text::occurs_in(
            dedup_sql_text(spec, columns),
            text::quoted(columns[i]),
        ),
        text::occurs_in(
            dedup_sql_text(spec, columns),
            "PARTITION BY "@ + quoted_list(text::views(spec.keys@)) + (match dedup_order(
                spec,
                columns,
            ) {
                Some(order) => " ORDER BY "@ + order,
                None => Seq::empty(),
            }) + ")"@,
        ),
        text::occurs_in(dedup_sql_text(spec, columns), " WHERE __rn = 1"@),
{
    reveal_strlit(", ROW_NUMBER() OVER (PARTITION BY ");
    reveal_strlit(", ROW_NUMBER() OVER (");
    reveal_strlit("PARTITION BY ");
    reveal_strlit(") AS __rn FROM ");
    reveal_strlit(")");
    reveal_strlit(" AS __rn FROM ");
    reveal_strlit(") WHERE __rn = 1");
    reveal_strlit(" WHERE __rn = 1");
    let none = Seq::<char>::empty();
    let sql = dedup_sql_text(spec, columns);
    let cols = quoted_list(columns);
    let keys = quoted_list(text::views(spec.keys@));
    let order = match dedup_order(spec, columns) {
        Some(order) => " ORDER BY "@ + order,
        None => none,
    };
    let head = "SELECT "@;
    let tail = " FROM (SELECT "@ + cols + ", ROW_NUMBER() OVER (PARTITION BY "@ + keys + order
        + ") AS __rn FROM "@ + "__riffle_merge_src"@ + ") WHERE __rn = 1"@;
    assert(sql =~= head + cols + tail);
    if 0 <= i < columns.len() {
        let parts = text::all_quoted(columns);
        assert(parts[i] == text::quoted(columns[i]));
        text::lemma_joined_holds_each(parts, ", "@, i);
        text::lemma_occurs_in_part(head, cols, tail, text::quoted(columns[i]));
    }
    assert(", ROW_NUMBER() OVER (PARTITION BY "@ =~= ", ROW_NUMBER() OVER ("@ + "PARTITION BY "@);
    assert(") AS __rn FROM "@ =~= ")"@ + " AS __rn FROM "@);
    assert(") WHERE __rn = 1"@ =~= ")"@ + " WHERE __rn = 1"@);
    let rank = "PARTITION BY "@ + keys + order + ")"@;
    let before = "SELECT "@ + cols + " FROM (SELECT "@ + cols + ", ROW_NUMBER() OVER ("@;
    let behind = " AS __rn FROM "@ + "__riffle_merge_src"@ + ") WHERE __rn = 1"@;
    assert(sql =~= before + rank + behind);
    text::lemma_occurs_within(before, rank, behind);
    let first = before + rank + " AS __rn FROM "@ + "__riffle_merge_src"@ + ")"@;
    assert(sql =~= first + " WHERE __rn = 1"@ + none);
    text::lemma_occurs_within(first, " WHERE __rn = 1"@, none);
}

/// Deleted rows are dropped from what is appended or overwrites wherever the rows tell which they
/// are, whatever other columns there are; nothing is dropped where they do not.
pub proof fn lemma_live_rows_query(columns: Seq<Seq<char>>)
    ensures
        columns.contains("_change_type"@) ==> live_rows_sql_text(columns)
            == "SELECT * FROM __cdf WHERE \"_change_type\" IS NULL OR \"_change_type\" <> 'delete'"@,
        !columns.contains("_change_type"@) ==> live_rows_sql_text(columns) == "SELECT * FROM __cdf"@,
{
}

/// What is appended or overwrites has every column of the rows but those of the change feed.
pub proof fn lemma_written_columns_query(columns: Seq<Seq<char>>, i: int)
    requires
        0 <= i < columns.len(),
        !cdf_column(columns[i]),
    ensures
        text::occurs_in(drop_cdf_cols_text(columns), text::quoted(columns[i])),
        text::begins_with(drop_cdf_cols_text(columns), "SELECT "@),
{
    lemma_data_columns(columns, columns[i]);
    let data = data_columns(columns);
    assert(columns.contains(columns[i]));
    let k = data.index_of(columns[i]);
    let parts = text::all_quoted(data);
    assert(parts[k] == text::quoted(columns[i]));
    text::lemma_joined_holds_each(parts, ", "@, k);
    let tail = " FROM "@ + "__riffle_cdf_strip"@;
    text::lemma_occurs_in_part("SELECT "@, quoted_list(data), tail, text::quoted(columns[i]));
    assert("SELECT "@ + quoted_list(data) + tail =~= drop_cdf_cols_text(columns));
    assert(drop_cdf_cols_text(columns).take("SELECT "@.len() as int) =~= "SELECT "@);
}

/// The mode is told by its name alone, in whatever case it is written: an append and an overwrite
/// whatever else is given, and no other name but `merge` is a mode.
pub proof fn lemma_mode_by_name(
    mode: Seq<char>,
    keys: Seq<char>,
    update_columns: Seq<char>,
    update_predicate: Option<String>,
    delete_predicate: Option<String>,
    insert_predicate: Option<String>,
    dedupe_order_by: Option<String>,
    transform_sql: Option<String>,
    transform_rust: Option<TransformLib>,
    r: Result<SinkMode, SinkError>,
)
    requires
        is_parsed_mode(
            mode,
            keys,
            update_columns,
            update_predicate,
            delete_predicate,
            insert_predicate,
            dedupe_order_by,
            transform_sql,
            transform_rust,
            r,
        ),
    ensures
        text::lower(mode) == "append"@ <==> r == Ok::<SinkMode, SinkError>(SinkMode::Append),
        text::lower(mode) == "overwrite"@ <==> r == Ok::<SinkMode, SinkError>(SinkMode::Overwrite),
        r matches Ok(m) ==> text::lower(mode) == m.name_text(),
        text::lower(mode) != "append"@ && text::lower(mode) != "overwrite"@ && text::lower(mode)
            != "merge"@ <==> r matches Err(SinkError::UnknownMode { .. }),
        r matches Err(SinkError::UnknownMode { mode: m }) ==> m@ == text::lower(mode),
{
    reveal_strlit("append");
    reveal_strlit("overwrite");
    reveal_strlit("merge");
    assert("append"@.len() == 6 && "overwrite"@.len() == 9 && "merge"@.len() == 5);
}

/// A merge takes over what the user gives as it is: the predicates, every key and every column that
/// is listed, and the order and the transform where they are not blank. It is refused only without a
/// key or with both kinds of transform.
pub proof fn lemma_merge_as_given(
    mode: Seq<char>,
    keys: Seq<char>,
    update_columns: Seq<char>,
    update_predicate: Option<String>,
    delete_predicate: Option<String>,
    insert_predicate: Option<String>,
    dedupe_order_by: Option<String>,
    transform_sql: Option<String>,
    transform_rust: Option<TransformLib>,
    r: Result<SinkMode, SinkError>,
)
    requires
        text::lower(mode) == "merge"@,
        is_parsed_mode(
            mode,
            keys,
            update_columns,
            update_predicate,
            delete_predicate,
            insert_predicate,
            dedupe_order_by,
            transform_sql,
            transform_rust,
            r,
        ),
    ensures
        ({
            let query = transform_sql matches Some(q) && text::trimmed(q@).len() > 0;
            let both = query && transform_rust is Some;
            let names = text::trimmed_pieces(keys, ',');
            match r {
                Ok(SinkMode::Merge(spec)) => {
                    &&& names.len() > 0 && !both
                    &&& text::views(spec.keys@) == names
                    &&& text::views(spec.update_columns@) == text::trimmed_pieces(
                        update_columns,
                        ',',
                    )
                    &&& spec.when_matched_update_predicate == update_predicate
                    &&& spec.when_matched_delete_predicate == delete_predicate
                    &&& spec.when_not_matched_insert_predicate == insert_predicate
                    &&& spec.transform_rust == transform_rust
                    &&& query ==> spec.transform_sql == transform_sql
                    &&& !query ==> spec.transform_sql is None
                    &&& dedupe_order_by matches Some(c) ==> c@.len() > 0 ==> spec.dedupe_order_by
                        == dedupe_order_by
                    &&& (dedupe_order_by is None || dedupe_order_by->0@.len() == 0)
                        ==> spec.dedupe_order_by is None
                },
                Ok(_) => false,
                Err(SinkError::MergeKeysRequired) => names.len() == 0,
                Err(SinkError::TransformsExclusive) => names.len() > 0 && both,
                Err(_) => false,
            }
        }),
{
    reveal_strlit("append");
    reveal_strlit("overwrite");
    reveal_strlit("merge");
    assert("append"@.len() == 6 && "overwrite"@.len() == 9 && "merge"@.len() == 5);
}

/// The dashboard counts what a batch did on top of what was counted before, and shows its event
/// last.
pub proof fn lemma_sink_shows_outcome(
    old: SinkState,
    mode: SinkMode,
    outcome: SinkOutcome,
    timestamp: String,
    new: SinkState,
)
    requires
        sink_updated(old, mode, outcome, timestamp, new),
        old.events@.len() <= 50,
    ensures
        new.total_inserts - old.total_inserts == outcome.inserts,
        new.total_updates - old.total_updates == outcome.updates,
        new.total_deletes - old.total_deletes == outcome.deletes,
        new.total_appended - old.total_appended == outcome.appended,
        new.batches_processed - old.batches_processed == 1,
        new.target_version == outcome.target_version,
        new.last_source_rows == outcome.source_rows,
        new.last_duration_ms == outcome.duration_ms,
        new.running == old.running && new.launch_config == old.launch_config && new.target_uri
            == old.target_uri && new.last_error == old.last_error,
        0 < new.events@.len() <= 50,
        old.events@.len() < 50 ==> new.events@.len() == old.events@.len() + 1,
        new.events@.last().timestamp == timestamp,
        new.events@.last().mode@ == mode.name_text(),
        new.events@.last().source_rows == outcome.source_rows,
        new.events@.last().inserts == outcome.inserts,
        new.events@.last().updates == outcome.updates,
        new.events@.last().deletes == outcome.deletes,
        new.events@.last().appended == outcome.appended,
        new.events@.last().target_version == outcome.target_version,
        new.events@.last().duration_ms == outcome.duration_ms,
        new.avg_duration_ms == state::mean(
            Seq::new(new.events@.len(), |i: int| new.events@[i].duration_ms),
        ),
        new.avg_duration_ms * new.events@.len() <= state::total(
            Seq::new(new.events@.len(), |i: int| new.events@[i].duration_ms),
        ),
{
    let times = Seq::new(new.events@.len(), |i: int| new.events@[i].duration_ms);
    assert(times =~= durations(new.events@));
    state::lemma_mean(times, 0);
}

/// The counters have room for an outcome wherever no sum becomes too large.
pub proof fn lemma_room_for_outcome(s: SinkState, outcome: SinkOutcome)
    requires
        s.batches_processed < u64::MAX,
        s.total_inserts + outcome.inserts <= u64::MAX,
        s.total_updates + outcome.updates <= u64::MAX,
        s.total_deletes + outcome.deletes <= u64::MAX,
        s.total_appended + outcome.appended <= u64::MAX,
    ensures
        has_room_for(s, outcome),
{
}

/// A mode that writes rows writes them as its name says; a merge does not write them as they are.
pub proof fn lemma_mode_writes(mode: SinkMode)
    ensures
        mode.name_text() == "append"@ <==> mode.written_as() == Some(WriteMode::Append),
        mode.name_text() == "overwrite"@ <==> mode.written_as() == Some(WriteMode::Overwrite),
        mode.name_text() == "merge"@ <==> mode.written_as() is None,
{
    reveal_strlit("append");
    reveal_strlit("overwrite");
    reveal_strlit("merge");
    assert("append"@.len() == 6 && "overwrite"@.len() == 9 && "merge"@.len() == 5);
}

/// The rows of a batch that are written are those of its parts, one part after the other; a row
/// alone is written unless it is a deleted one.
pub proof fn lemma_live_rows<R>(a: Seq<ChangeRow<R>>, b: Seq<ChangeRow<R>>, row: ChangeRow<R>)
    ensures
        live_rows(a + b) == live_rows(a) + live_rows(b),
        live_rows(seq![row]) == (if row.change_type == Some("delete"@) {
            Seq::empty()
        } else {
            seq![row.data]
        }),
    decreases b.len(),
{
    reveal_with_fuel(live_rows, 2);
    assert(seq![row].drop_last() =~= Seq::<ChangeRow<R>>::empty());
    assert(live_rows(Seq::<ChangeRow<R>>::empty()).push(row.data) =~= seq![row.data]);
    if b.len() == 0 {
        assert(a + b =~= a);
        assert(live_rows(a) + live_rows(b) =~= live_rows(a));
    } else {
        lemma_live_rows(a, b.drop_last(), row);
        assert((a + b).drop_last() =~= a + b.drop_last());
        assert((a + b).last() == b.last());
        assert(live_rows(a + b) =~= live_rows(a) + live_rows(b));
    }
}

/// A message about a mode names the mode.
pub proof fn lemma_mode_is_named(e: SinkError)
    requires
        e is UnknownMode,
    ensures
        text::occurs_in(e.text(), e->mode@),
{
    text::lemma_occurs_within(
        "Unknown --sink-mode '"@,
        e->mode@,
        "'. Use append | overwrite | merge."@,
    );
}

/// A message about a key names the key and, behind it, the columns that there are.
pub proof fn lemma_key_is_named(e: SinkError)
    requires
        e is MissingKey,
    ensures
        text::occurs_in(e.text(), e->key@),
        text::occurs_in(e.text(), text::joined(text::views(e->columns@), ", "@)),
{
    let a = "merge key '"@;
    let key = e->key@;
    let b = "' missing from source after transform; columns: ["@;
    let names = text::joined(text::views(e->columns@), ", "@);
    let c = "]"@;
    assert(e.text() == a + key + b + names + c);
    text::lemma_occurs_within(a + key + b, names, c);
    text::lemma_occurs_within(a, key, b + names + c);
    assert(a + key + b + names + c =~= a + key + (b + names + c));
}

/// A message about a range names its end and its start.
pub proof fn lemma_range_is_named(e: SinkError)
    requires
        e is ReversedRange,
    ensures
        text::occurs_in(
            e.text(),
            text::decimal_int(e->end as int) + " < start_version v"@ + text::decimal_int(
                e->start as int,
            ),
        ),
{
    lemma_occurs_behind(
        "read_cdf_rows: end_version v"@,
        text::decimal_int(e->end as int),
        " < start_version v"@,
        text::decimal_int(e->start as int),
    );
}

proof fn lemma_occurs_behind(a: Seq<char>, b: Seq<char>, c: Seq<char>, d: Seq<char>)
    ensures
        text::occurs_in(a + b + c + d, b + c + d),
{
    let all = a + b + c + d;
    let part = b + c + d;
    let n = a.len() as int;
    assert(all.subrange(n, n + part.len()) =~= part);
    assert(text::occurs_at(all, part, n));
}

/// What is planned is what is handed on: each clause with its own condition and its own columns.
pub proof fn lemma_clauses_as_planned(clauses: Seq<MergeClause>, i: int)
    requires
        0 <= i < clauses.len(),
    ensures
        clause_views(clauses).len() == clauses.len(),
        clauses[i] matches MergeClause::Delete { predicate } ==> clause_views(clauses)[i] == (
        Clause::Delete { predicate: predicate@ }),
        clauses[i] matches MergeClause::Update { predicate, columns } ==> {
            &&& clause_views(clauses)[i] is Update
            &&& clause_views(clauses)[i]->Update_columns == columns@.map_values(|c: String| c@)
            &&& predicate matches Some(p) ==> clause_views(clauses)[i]->Update_predicate == Some(p@)
            &&& predicate is None ==> clause_views(clauses)[i]->Update_predicate is None
        },
        clauses[i] matches MergeClause::Insert { predicate, columns } ==> {
            &&& clause_views(clauses)[i] is Insert
            &&& clause_views(clauses)[i]->Insert_columns == columns@.map_values(|c: String| c@)
            &&& predicate matches Some(p) ==> clause_views(clauses)[i]->Insert_predicate == Some(p@)
            &&& predicate is None ==> clause_views(clauses)[i]->Insert_predicate is None
        },
{
    match clauses[i] {
        MergeClause::Update { predicate, columns } => {
            assert(text::views(columns@) =~= columns@.map_values(|c: String| c@));
        },
        MergeClause::Insert { predicate, columns } => {
            assert(text::views(columns@) =~= columns@.map_values(|c: String| c@));
        },
        _ => {},
    }
}

} // verus!
