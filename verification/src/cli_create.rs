//! Creation of a table with commits of synthetic data.
//!
//! The table is wide: an identifier, a timestamp, and columns of mixed types. Its rows are
//! spread over the commits, and at the end it can be optimised for one of its columns.

use vstd::prelude::*;

use crate::clock;
use crate::producer::WriteMode;
use crate::random;
use crate::sample_data;
use crate::sample_data::{ColumnType, SchemaField};
use crate::state::{CreateTableLaunchConfig, CreateTableState};
use crate::text;

verus! {

// ---------------------------------------------------------------------------
// Arguments
// ---------------------------------------------------------------------------

/// The arguments of the command that creates a table.
#[derive(Debug, Clone)]
pub struct CreateTableArgs {
    pub uri: String,
    /// The number of rows over all commits.
    pub rows: usize,
    /// The number of commits that the rows are spread over.
    pub commits: usize,
    /// The number of columns, at least two.
    pub columns: usize,
    /// The column to optimise for; none where empty.
    pub zorder_by: String,
    /// Replace what the table holds.
    pub overwrite: bool,
    pub azure_auth: String,
}

impl CreateTableArgs {
    /// The job that the arguments describe.
    pub fn launch(self) -> (r: CreateTableLaunchConfig)
        ensures
            r == (CreateTableLaunchConfig {
                uri: self.uri,
                rows: self.rows,
                commits: self.commits,
                columns: self.columns,
                zorder_by: self.zorder_by,
                overwrite: self.overwrite,
                azure_auth: self.azure_auth,
            }),
    {
        CreateTableLaunchConfig {
            uri: self.uri,
            rows: self.rows,
            commits: self.commits,
            columns: self.columns,
            zorder_by: self.zorder_by,
            overwrite: self.overwrite,
            azure_auth: self.azure_auth,
        }
    }
}

/// Why a table cannot be created.
#[derive(Debug, Clone, PartialEq, Eq)]
pub enum CreateError {
    NoCommits,
    NoRows,
    TooFewColumns,
    /// The column to optimise for is not in the table.
    UnknownZorderColumn { column: String },
}

impl CreateError {
    /// The message that the user is shown.
    pub open spec fn text(&self) -> Seq<char> {
        match self {
            CreateError::NoCommits => "commits must be >= 1"@,
            CreateError::NoRows => "rows must be >= 1"@,
            CreateError::TooFewColumns => "columns must be >= 2"@,
            CreateError::UnknownZorderColumn { column } => "zorder_by column '"@ + column@
                + "' not found in schema"@,
        }
    }

    /// The message that the user is shown.
    pub fn message(&self) -> (r: String)
        ensures
            r@ == self.text(),
    {
        match self {
            CreateError::NoCommits => "commits must be >= 1".to_string(),
            CreateError::NoRows => "rows must be >= 1".to_string(),
            CreateError::TooFewColumns => "columns must be >= 2".to_string(),
            CreateError::UnknownZorderColumn { column } => {
                let mut r = "zorder_by column '".to_string();
                r.append(column.as_str());
                r.append("' not found in schema");
                r
            },
        }
    }
}

/// Whether the job writes at least one commit, one row and two columns.
pub open spec fn valid_request(cfg: CreateTableLaunchConfig) -> bool {
    cfg.commits >= 1 && cfg.rows >= 1 && cfg.columns >= 2
}

/// Whether the job writes at least one commit, one row and two columns.
pub fn check_request(cfg: &CreateTableLaunchConfig) -> (r: Result<(), CreateError>)
    ensures
        r == (if cfg.commits == 0 {
            Err(CreateError::NoCommits)
        } else if cfg.rows == 0 {
            Err(CreateError::NoRows)
        } else if cfg.columns < 2 {
            Err(CreateError::TooFewColumns)
        } else {
            Ok(())
        }),
        r is Ok <==> valid_request(*cfg),
{
    if cfg.commits == 0 {
        return Err(CreateError::NoCommits);
    }
    if cfg.rows == 0 {
        return Err(CreateError::NoRows);
    }
    if cfg.columns < 2 {
        return Err(CreateError::TooFewColumns);
    }
    Ok(())
}

// ---------------------------------------------------------------------------
// Columns
// ---------------------------------------------------------------------------

/// The beginning of the name of filler column `i`, and its type.
pub open spec fn filler_kind(i: int) -> (Seq<char>, ColumnType) {
    if i % 5 == 0 {
        ("str_"@, ColumnType::Utf8)
    } else if i % 5 == 1 {
        ("int64_"@, ColumnType::Int64)
    } else if i % 5 == 2 {
        ("dbl_"@, ColumnType::Float64)
    } else if i % 5 == 3 {
        ("bool_"@, ColumnType::Boolean)
    } else {
        ("int32_"@, ColumnType::Int32)
    }
}

/// Filler column `i`: its type goes round, and its name bears its number.
pub open spec fn filler_column(i: int) -> (Seq<char>, ColumnType) {
    (filler_kind(i).0 + text::decimal_padded(i as nat, 2), filler_kind(i).1)
}

/// The columns of a wide table: an identifier, a timestamp, and fillers.
pub open spec fn wide_schema(columns: int) -> Seq<(Seq<char>, ColumnType)> {
    Seq::new(
        columns as nat,
        |i: int|
            if i == 0 {
                ("event_id"@, ColumnType::Utf8)
            } else if i == 1 {
                ("event_timestamp"@, ColumnType::TimestampMicros)
            } else {
                filler_column(i - 2)
            },
    )
}

/// The columns of a wide table.
pub fn build_wide_schema(num_columns: usize) -> (r: Vec<SchemaField>)
    requires
        num_columns >= 2,
    ensures
        sample_data::field_views(r@) == wide_schema(num_columns as int),
{
    let mut r: Vec<SchemaField> = Vec::new();
    sample_data::push_field(&mut r, "event_id", ColumnType::Utf8);
    sample_data::push_field(&mut r, "event_timestamp", ColumnType::TimestampMicros);
    assert(sample_data::field_views(r@) =~= wide_schema(2));
    let fillers: usize = num_columns - 2;
    for i in 0..fillers
        invariant
            fillers == num_columns - 2,
            sample_data::field_views(r@) == wide_schema(i + 2),
    {
        let kind: usize = i % 5;
        let (prefix, column_type): (&'static str, ColumnType) = if kind == 0 {
            ("str_", ColumnType::Utf8)
        } else if kind == 1 {
            ("int64_", ColumnType::Int64)
        } else if kind == 2 {
            ("dbl_", ColumnType::Float64)
        } else if kind == 3 {
            ("bool_", ColumnType::Boolean)
        } else {
            ("int32_", ColumnType::Int32)
        };
        let mut name = prefix.to_string();
        text::push_padded(&mut name, i as u64, 2);
        sample_data::push_field(&mut r, name.as_str(), column_type);
        assert(wide_schema(i + 3) =~= wide_schema(i + 2).push(filler_column(i as int)));
    }
    r
}

/// No two columns of a wide table have the same name.
pub proof fn lemma_wide_names_distinct(columns: int, i: int, j: int)
    requires
        0 <= i < j < columns,
    ensures
        wide_schema(columns)[i].0 != wide_schema(columns)[j].0,
{
    reveal_strlit("event_id");
    reveal_strlit("event_timestamp");
    reveal_strlit("str_");
    reveal_strlit("int64_");
    reveal_strlit("dbl_");
    reveal_strlit("bool_");
    reveal_strlit("int32_");
    let a = wide_schema(columns)[i].0;
    let b = wide_schema(columns)[j].0;
    assert(filler_kind(j - 2).0.len() >= 4);
    assert(b[0] == (if j == 1 {
        'e'
    } else {
        filler_kind(j - 2).0[0]
    }));
    if i >= 2 && a == b {
        let m = (i - 2) as nat;
        let n = (j - 2) as nat;
        let p = filler_kind(i - 2).0;
        let q = filler_kind(j - 2).0;
        assert(p.len() >= 4 && q.len() >= 4);
        assert(a[0] == p[0] && a[3] == p[3] && b[0] == q[0] && b[3] == q[3]);
        assert(p =~= q);
        assert(a.skip(p.len() as int) =~= text::decimal_padded(m, 2));
        assert(b.skip(q.len() as int) =~= text::decimal_padded(n, 2));
        text::lemma_decimal_padded_injective(m, n, 2);
    } else if i == 0 && j == 1 {
        assert(a.len() != b.len());
    } else if i < 2 {
        assert(a[0] == 'e');
    }
}

/// Whether a table with these columns can be optimised for `column`.
pub open spec fn has_column(schema: Seq<(Seq<char>, ColumnType)>, column: Seq<char>) -> bool {
    exists|i: int| 0 <= i < schema.len() && (#[trigger] schema[i]).0 == column
}

/// Whether a table with these columns can be optimised for `column`.
pub fn find_column(schema: &Vec<SchemaField>, column: &str) -> (r: bool)
    ensures
        r == has_column(sample_data::field_views(schema@), column@),
{
    let n: usize = schema.len();
    for i in 0..n
        invariant
            n == schema.len(),
            forall|j: int| 0 <= j < i ==> (#[trigger] schema@[j]).name@ != column@,
    {
        if text::same_text(schema[i].name.as_str(), column) {
            assert(sample_data::field_views(schema@)[i as int].0 == column@);
            return true;
        }
    }
    false
}

// ---------------------------------------------------------------------------
// Rows
// ---------------------------------------------------------------------------

/// The number of seconds that the rows of a wide table look back on: thirty days.
pub const WIDE_SPREAD_SECS: i64 = 2_592_000;

/// The values of one column of a wide table.
#[derive(Debug, Clone)]
pub enum WideColumn {
    Text(Vec<String>),
    Micros(Vec<i64>),
    Int64(Vec<i64>),
    Int32(Vec<i32>),
    Boolean(Vec<bool>),
    /// So many random numbers from 0 up to a million, which the writer fills in.
    Float64 { rows: usize },
}

/// Whether `s` is a random identifier without hyphens.
pub open spec fn is_simple_uuid(s: Seq<char>) -> bool {
    exists|u: Seq<char>| random::is_uuid(u) && s == #[trigger] text::without(u, '-')
}

/// Whether `c` holds `rows` values of a filler column of the given type.
pub open spec fn is_filler(c: WideColumn, column_type: ColumnType, rows: nat) -> bool {
    match c {
        WideColumn::Text(v) => {
            &&& column_type == ColumnType::Utf8
            &&& v@.len() == rows
            &&& forall|i: int| 0 <= i < rows ==> is_simple_uuid((#[trigger] v@[i])@)
        },
        WideColumn::Micros(_) => false,
        WideColumn::Int64(v) => column_type == ColumnType::Int64 && v@.len() == rows,
        WideColumn::Int32(v) => column_type == ColumnType::Int32 && v@.len() == rows,
        WideColumn::Boolean(v) => column_type == ColumnType::Boolean && v@.len() == rows,
        WideColumn::Float64 { rows: n } => column_type == ColumnType::Float64 && n == rows,
    }
}

/// Whether `columns` are `rows` rows of a table with `count` columns as of time `now`.
pub open spec fn is_wide_batch(columns: Seq<WideColumn>, count: nat, rows: nat, now: i64) -> bool {
    &&& columns.len() == count
    &&& count >= 2
    &&& columns[0] matches WideColumn::Text(ids)
    &&& ids@.len() == rows
    &&& forall|i: int| 0 <= i < rows ==> random::is_uuid((#[trigger] ids@[i])@)
    &&& columns[1] matches WideColumn::Micros(times)
    &&& times@.len() == rows
    &&& forall|i: int|
        0 <= i < rows ==> sample_data::recent(#[trigger] times@[i], now, WIDE_SPREAD_SECS)
    &&& forall|k: int|
        2 <= k < count ==> is_filler(#[trigger] columns[k], filler_kind(k - 2).1, rows)
}

/// `rows` random values of a filler column.
fn new_filler(kind: usize, rows: usize, rng: &mut rand::rngs::StdRng) -> (r: WideColumn)
    requires
        kind < 5,
    ensures
        is_filler(r, filler_kind(kind as int).1, rows as nat),
{
    if kind == 0 {
        let mut v: Vec<String> = Vec::new();
        for i in 0..rows
            invariant
                v.len() == i,
                forall|j: int| 0 <= j < i ==> is_simple_uuid((#[trigger] v@[j])@),
        {
            let s = random::new_simple_uuid();
            assert(is_simple_uuid(s@));
            v.push(s);
        }
        WideColumn::Text(v)
    } else if kind == 1 {
        let mut v: Vec<i64> = Vec::new();
        for i in 0..rows
            invariant
                v.len() == i,
        {
            v.push(random::draw(rng, i64::MIN as i128, i64::MAX as i128) as i64);
        }
        WideColumn::Int64(v)
    } else if kind == 2 {
        WideColumn::Float64 { rows }
    } else if kind == 3 {
        WideColumn::Boolean(sample_data::new_flags(rng, rows, 1, 2))
    } else {
        let mut v: Vec<i32> = Vec::new();
        for i in 0..rows
            invariant
                v.len() == i,
        {
            v.push(random::draw(rng, i32::MIN as i128, i32::MAX as i128) as i32);
        }
        WideColumn::Int32(v)
    }
}

/// `num_rows` random rows of a table with `num_columns` columns as of time `now`, in
/// microseconds since 1970.
pub fn generate_wide_batch_at(
    num_columns: usize,
    num_rows: usize,
    now: i64,
    rng: &mut rand::rngs::StdRng,
) -> (r: Vec<WideColumn>)
    requires
        num_columns >= 2,
        0 <= now,
    ensures
        is_wide_batch(r@, num_columns as nat, num_rows as nat, now),
{
    let mut r: Vec<WideColumn> = Vec::new();
    r.push(WideColumn::Text(sample_data::new_ids(num_rows)));
    r.push(WideColumn::Micros(sample_data::recent_times(rng, num_rows, now, WIDE_SPREAD_SECS)));
    let mut k: usize = 2;
    while k < num_columns
        invariant
            2 <= k <= num_columns,
            is_wide_batch(r@, k as nat, num_rows as nat, now),
        decreases num_columns - k,
    {
        let ghost before = r@;
        assert(filler_kind((k - 2) % 5) == filler_kind(k - 2));
        r.push(new_filler((k - 2) % 5, num_rows, rng));
        k += 1;
        assert(forall|j: int| 0 <= j < k - 1 ==> r@[j] == before[j]);
    }
    r
}

/// `num_rows` random rows of a table with `num_columns` columns as of now.
pub fn generate_wide_batch(
    num_columns: usize,
    num_rows: usize,
    rng: &mut rand::rngs::StdRng,
) -> (r: Vec<WideColumn>)
    requires
        num_columns >= 2,
    ensures
        exists|now: i64|
            0 <= now && #[trigger] is_wide_batch(r@, num_columns as nat, num_rows as nat, now),
{
    let now: i64 = clock::now_micros();
    let r = generate_wide_batch_at(num_columns, num_rows, now, rng);
    assert(is_wide_batch(r@, num_columns as nat, num_rows as nat, now));
    r
}

// ---------------------------------------------------------------------------
// Rows per commit
// ---------------------------------------------------------------------------

/// The even share of a commit, rounded up.
pub open spec fn even_share(rows: int, commits: int) -> int {
    (rows + commits - 1) / commits
}

/// The rows of commit `index`, where `written` rows are in the commits before it: the even
/// share, but no more than leaves a row for each later commit while there are enough, and in
/// the last commit all that is left.
pub open spec fn commit_rows(rows: int, commits: int, index: int, written: int) -> int {
    let left = rows - written;
    let later = commits - index - 1;
    let share = even_share(rows, commits);
    if later <= 0 {
        left
    } else if rows < commits {
        if share < left {
            share
        } else {
            left
        }
    } else if share < left - later {
        share
    } else {
        left - later
    }
}

/// The rows of the first `k` commits together.
pub open spec fn rows_written(rows: int, commits: int, k: int) -> int
    decreases k,
{
    if k <= 0 {
        0
    } else {
        let before = rows_written(rows, commits, k - 1);
        before + commit_rows(rows, commits, k - 1, before)
    }
}

proof fn lemma_even_share(rows: int, commits: int)
    requires
        rows >= 1,
        commits >= 1,
    ensures
        even_share(rows, commits) >= 1,
        even_share(rows, commits) * commits >= rows,
        even_share(rows, commits) <= rows,
        rows < commits ==> even_share(rows, commits) == 1,
{
    let q = even_share(rows, commits);
    let x = rows + commits - 1;
    vstd::arithmetic::div_mod::lemma_fundamental_div_mod(x, commits);
    vstd::arithmetic::div_mod::lemma_mod_bound(x, commits);
    assert(q >= 1) by (nonlinear_arith)
        requires
            x == commits * q + x % commits,
            x % commits < commits,
            x >= commits,
            commits >= 1,
    ;
    assert(q * commits == commits * q) by (nonlinear_arith);
    assert(q <= rows) by (nonlinear_arith)
        requires
            commits * q <= x,
            x == rows + commits - 1,
            rows >= 1,
            commits >= 1,
    ;
    if rows < commits {
        assert(q == 1) by (nonlinear_arith)
            requires
                commits * q <= x,
                x == rows + commits - 1,
                rows < commits,
                q >= 1,
                commits >= 1,
        ;
    }
}

/// While the commits are written, no more rows are written than there are, and while there are
/// enough, a row is left for each commit to come.
proof fn lemma_rows_written(rows: int, commits: int, k: int)
    requires
        rows >= 1,
        commits >= 1,
        0 <= k <= commits,
    ensures
        0 <= rows_written(rows, commits, k) <= rows,
        rows >= commits ==> rows - rows_written(rows, commits, k) >= commits - k,
        k == commits ==> rows_written(rows, commits, k) == rows,
        rows_written(rows, commits, k) <= k * even_share(rows, commits),
        rows < commits && k < commits ==> rows_written(rows, commits, k) == (if k < rows {
            k
        } else {
            rows
        }),
        rows >= commits && k < commits ==> rows_written(rows, commits, k) == (if k * even_share(
            rows,
            commits,
        ) <= rows - (commits - k) {
            k * even_share(rows, commits)
        } else {
            rows - (commits - k)
        }),
    decreases k,
{
    lemma_even_share(rows, commits);
    let share = even_share(rows, commits);
    if k > 0 {
        lemma_rows_written(rows, commits, k - 1);
        assert(k * share == (k - 1) * share + share) by (nonlinear_arith);
        if k == commits && rows >= commits {
            assert((commits - 1) * share + share == share * commits) by (nonlinear_arith);
        }
    } else {
        assert(k * share == 0) by (nonlinear_arith)
            requires
                k == 0,
        ;
    }
}

/// The commits hold the requested number of rows together. None holds more than the even
/// share, and none is empty where there are as many rows as commits.
pub proof fn lemma_commits_hold_all_rows(rows: int, commits: int, index: int)
    requires
        rows >= 1,
        commits >= 1,
        0 <= index < commits,
    ensures
        rows_written(rows, commits, commits) == rows,
        ({
            let n = commit_rows(rows, commits, index, rows_written(rows, commits, index));
            &&& 0 <= n <= even_share(rows, commits)
            &&& rows >= commits ==> n >= 1
        }),
{
    lemma_rows_written(rows, commits, commits);
    lemma_rows_written(rows, commits, index);
    lemma_even_share(rows, commits);
    let share = even_share(rows, commits);
    if index == commits - 1 {
        assert(share * commits == index * share + share) by (nonlinear_arith)
            requires
                commits == index + 1,
        ;
    }
}

// ---------------------------------------------------------------------------
// The job as a state machine
// ---------------------------------------------------------------------------

/// What the creation of a table does next.
#[derive(Debug, Clone, PartialEq, Eq)]
pub enum CreateStep {
    /// Write commit `index` with so many rows.
    Commit { index: usize, rows: usize, mode: WriteMode },
    /// End: the job was cancelled.
    Cancelled,
    /// Optimise the table for this column.
    Optimize { column: String },
    /// End: all is done.
    Finished,
}

/// Whether `r` is what a job does next of which `done` commits have been written.
pub open spec fn is_next_step(
    cfg: CreateTableLaunchConfig,
    done: int,
    optimized: bool,
    cancelled: bool,
    r: Result<CreateStep, CreateError>,
) -> bool {
    if done < cfg.commits {
        if cancelled {
            r == Ok::<CreateStep, CreateError>(CreateStep::Cancelled)
        } else {
            &&& r matches Ok(CreateStep::Commit { index, rows, mode })
            &&& index == done
            &&& rows == commit_rows(
                cfg.rows as int,
                cfg.commits as int,
                done,
                rows_written(cfg.rows as int, cfg.commits as int, done),
            )
            &&& mode == (if done == 0 && cfg.overwrite {
                WriteMode::Overwrite
            } else {
                WriteMode::Append
            })
        }
    } else if cfg.zorder_by@.len() == 0 || optimized {
        r == Ok::<CreateStep, CreateError>(CreateStep::Finished)
    } else if has_column(wide_schema(cfg.columns as int), cfg.zorder_by@) {
        r == Ok::<CreateStep, CreateError>(CreateStep::Optimize { column: cfg.zorder_by })
    } else {
        r == Err::<CreateStep, CreateError>(
            CreateError::UnknownZorderColumn { column: cfg.zorder_by },
        )
    }
}

/// A running creation of a table.
#[derive(Debug)]
pub struct CreateJob {
    cfg: CreateTableLaunchConfig,
    schema: Vec<SchemaField>,
    done: usize,
    written: usize,
    optimized: bool,
}

impl CreateJob {
    /// What is to be created.
    pub closed spec fn request(&self) -> CreateTableLaunchConfig {
        self.cfg
    }

    /// The number of commits that have been written.
    pub closed spec fn commits_done(&self) -> int {
        self.done as int
    }

    /// Whether the table has been optimised.
    pub closed spec fn is_optimized(&self) -> bool {
        self.optimized
    }

    /// The request is valid, and the rows written are those of the commits done.
    pub closed spec fn valid(&self) -> bool {
        &&& valid_request(self.cfg)
        &&& sample_data::field_views(self.schema@) == wide_schema(self.cfg.columns as int)
        &&& self.done <= self.cfg.commits
        &&& self.written == rows_written(
            self.cfg.rows as int,
            self.cfg.commits as int,
            self.done as int,
        )
    }

    /// A job of which nothing has been done, where the request is valid.
    pub fn new(cfg: CreateTableLaunchConfig) -> (r: Result<CreateJob, CreateError>)
        ensures
            match r {
                Ok(job) => {
                    &&& valid_request(cfg)
                    &&& job.valid()
                    &&& job.request() == cfg
                    &&& job.commits_done() == 0
                    &&& !job.is_optimized()
                },
                Err(CreateError::NoCommits) => cfg.commits == 0,
                Err(CreateError::NoRows) => cfg.commits > 0 && cfg.rows == 0,
                Err(CreateError::TooFewColumns) => cfg.commits > 0 && cfg.rows > 0 && cfg.columns
                    < 2,
                Err(_) => false,
            },
    {
        match check_request(&cfg) {
            Err(e) => Err(e),
            Ok(()) => {
                let schema = build_wide_schema(cfg.columns);
                Ok(CreateJob { cfg, schema, done: 0, written: 0, optimized: false })
            },
        }
    }

    /// The rows of the next commit.
    fn next_rows(&self) -> (r: usize)
        requires
            self.valid(),
            self.done < self.cfg.commits,
        ensures
            r == commit_rows(
                self.cfg.rows as int,
                self.cfg.commits as int,
                self.done as int,
                self.written as int,
            ),
    {
        proof {
            lemma_rows_written(
                self.cfg.rows as int,
                self.cfg.commits as int,
                self.done as int,
            );
            lemma_even_share(self.cfg.rows as int, self.cfg.commits as int);
        }
        let left: usize = self.cfg.rows - self.written;
        let later: usize = self.cfg.commits - self.done - 1;
        if later == 0 {
            return left;
        }
        let commits: u128 = self.cfg.commits as u128;
        let share: usize = ((self.cfg.rows as u128 + commits - 1) / commits) as usize;
        let most: usize = if self.cfg.rows < self.cfg.commits {
            left
        } else {
            left - later
        };
        if share < most {
            share
        } else {
            most
        }
    }

    /// What to do next. Commits are written one after the other, the first in place of what the
    /// table holds where that is asked for; a cancelled job writes no more of them.
    pub fn next(&self, cancelled: bool) -> (r: Result<CreateStep, CreateError>)
        requires
            self.valid(),
        ensures
            is_next_step(self.request(), self.commits_done(), self.is_optimized(), cancelled, r),
    {
        if self.done < self.cfg.commits {
            if cancelled {
                return Ok(CreateStep::Cancelled);
            }
            let mode = if self.done == 0 && self.cfg.overwrite {
                WriteMode::Overwrite
            } else {
                WriteMode::Append
            };
            return Ok(CreateStep::Commit { index: self.done, rows: self.next_rows(), mode });
        }
        if self.cfg.zorder_by.as_str().is_empty() || self.optimized {
            return Ok(CreateStep::Finished);
        }
        if find_column(&self.schema, self.cfg.zorder_by.as_str()) {
            Ok(CreateStep::Optimize { column: self.cfg.zorder_by.clone() })
        } else {
            Err(CreateError::UnknownZorderColumn { column: self.cfg.zorder_by.clone() })
        }
    }

    /// Takes in that the next commit has been written, and gives the rows written so far.
    pub fn committed(&mut self) -> (written: u64)
        requires
            old(self).valid(),
            old(self).commits_done() < old(self).request().commits,
        ensures
            final(self).valid(),
            final(self).request() == old(self).request(),
            final(self).commits_done() == old(self).commits_done() + 1,
            final(self).is_optimized() == old(self).is_optimized(),
            written == rows_written(
                old(self).request().rows as int,
                old(self).request().commits as int,
                final(self).commits_done(),
            ),
    {
        proof {
            lemma_rows_written(
                self.cfg.rows as int,
                self.cfg.commits as int,
                self.done as int,
            );
            lemma_rows_written(self.cfg.rows as int, self.cfg.commits as int, self.done + 1);
        }
        let rows = self.next_rows();
        self.written = self.written + rows;
        self.done = self.done + 1;
        self.written as u64
    }

    /// Takes in that the table has been optimised.
    pub fn optimize_done(&mut self)
        requires
            old(self).valid(),
        ensures
            final(self).valid(),
            final(self).request() == old(self).request(),
            final(self).commits_done() == old(self).commits_done(),
            final(self).is_optimized(),
    {
        self.optimized = true;
    }

    /// The columns of the table.
    pub fn columns(&self) -> (r: &Vec<SchemaField>)
        requires
            self.valid(),
        ensures
            sample_data::field_views(r@) == wide_schema(self.request().columns as int),
    {
        &self.schema
    }
}

// ---------------------------------------------------------------------------
// The dashboard
// ---------------------------------------------------------------------------

/// Shows that the commits are about to be written.
pub fn show_writing(s: &mut CreateTableState, cfg: &CreateTableLaunchConfig)
    ensures
        final(s).status@ == "Writing "@ + text::decimal(cfg.commits as nat) + " commit(s)..."@,
        final(s).last_error@ == Seq::<char>::empty(),
        final(s).optimize_status@ == Seq::<char>::empty(),
        *final(s) == (CreateTableState {
            running: true,
            status: final(s).status,
            last_error: final(s).last_error,
            target_uri: cfg.uri,
            commits_done: 0,
            total_commits: cfg.commits,
            rows_written: 0,
            total_rows: cfg.rows as u64,
            optimize_status: final(s).optimize_status,
            launch_config: Some(*cfg),
            ..*old(s)
        }),
{
    s.running = true;
    s.last_error = String::new();
    s.target_uri = cfg.uri.clone();
    s.commits_done = 0;
    s.total_commits = cfg.commits;
    s.rows_written = 0;
    s.total_rows = cfg.rows as u64;
    s.optimize_status = String::new();
    let mut status = "Writing ".to_string();
    text::push_usize(&mut status, cfg.commits);
    status.append(" commit(s)...");
    s.status = status;
    s.launch_config = Some(cfg.clone());
}

/// Shows that a commit is being written.
pub fn show_commit(s: &mut CreateTableState, index: usize, commits: usize, rows: usize)
    requires
        index < commits,
    ensures
        final(s).status@ == "Writing commit "@ + text::decimal((index + 1) as nat) + "/"@
            + text::decimal(commits as nat) + " ("@ + text::decimal(rows as nat) + " rows)..."@,
        *final(s) == (CreateTableState { status: final(s).status, ..*old(s) }),
{
    let mut status = "Writing commit ".to_string();
    text::push_usize(&mut status, index + 1);
    status.append("/");
    text::push_usize(&mut status, commits);
    status.append(" (");
    text::push_usize(&mut status, rows);
    status.append(" rows)...");
    s.status = status;
}

/// Shows that a commit has been written.
pub fn show_committed(s: &mut CreateTableState, index: usize, rows_written: u64, millis: u64)
    requires
        index < usize::MAX,
    ensures
        *final(s) == (CreateTableState {
            commits_done: (index + 1) as usize,
            rows_written,
            last_commit_ms: millis,
            ..*old(s)
        }),
{
    s.commits_done = index + 1;
    s.rows_written = rows_written;
    s.last_commit_ms = millis;
}

/// Shows that the job was cancelled.
pub fn show_cancelled(s: &mut CreateTableState)
    ensures
        final(s).status@ == "Cancelled"@,
        *final(s) == (CreateTableState { status: final(s).status, running: false, ..*old(s) }),
{
    s.status = "Cancelled".to_string();
    s.running = false;
}

/// Shows that the table is being optimised.
pub fn show_optimizing(s: &mut CreateTableState, column: &str)
    ensures
        final(s).status@ == "OPTIMIZE ZORDER BY ("@ + column@ + ")..."@,
        final(s).optimize_status@ == "running"@,
        *final(s) == (CreateTableState {
            status: final(s).status,
            optimize_status: final(s).optimize_status,
            ..*old(s)
        }),
{
    let mut status = "OPTIMIZE ZORDER BY (".to_string();
    status.append(column);
    status.append(")...");
    s.status = status;
    s.optimize_status = "running".to_string();
}

/// Shows that the table has been optimised.
pub fn show_optimized(s: &mut CreateTableState, millis: u64, added: u64, removed: u64)
    ensures
        final(s).optimize_status@ == "done in "@ + text::decimal(millis as nat)
            + "ms (files_added="@ + text::decimal(added as nat) + ", files_removed="@
            + text::decimal(removed as nat) + ")"@,
        *final(s) == (CreateTableState {
            optimize_status: final(s).optimize_status,
            ..*old(s)
        }),
{
    let mut status = "done in ".to_string();
    text::push_u64(&mut status, millis);
    status.append("ms (files_added=");
    text::push_u64(&mut status, added);
    status.append(", files_removed=");
    text::push_u64(&mut status, removed);
    status.append(")");
    s.optimize_status = status;
}

/// Shows that all is done.
pub fn show_done(s: &mut CreateTableState, rows: u64, millis: u64)
    ensures
        final(s).status@ == "Done — "@ + text::decimal(rows as nat) + " rows in "@
            + text::decimal(millis as nat) + "ms"@,
        *final(s) == (CreateTableState { status: final(s).status, running: false, ..*old(s) }),
{
    let mut status = "Done — ".to_string();
    text::push_u64(&mut status, rows);
    status.append(" rows in ");
    text::push_u64(&mut status, millis);
    status.append("ms");
    s.status = status;
    s.running = false;
}

// ---------------------------------------------------------------------------
// What the creation of a table is for
// ---------------------------------------------------------------------------

/// A share is as many rows as it takes to hold all of them in the given number of commits, and no
/// more.
pub proof fn lemma_share_is_even(rows: int, commits: int)
    requires
        rows >= 1,
        commits >= 1,
    ensures
        even_share(rows, commits) * commits >= rows,
        (even_share(rows, commits) - 1) * commits < rows,
{
    lemma_even_share(rows, commits);
    let q = even_share(rows, commits);
    let x = rows + commits - 1;
    vstd::arithmetic::div_mod::lemma_fundamental_div_mod(x, commits);
    vstd::arithmetic::div_mod::lemma_mod_bound(x, commits);
    assert((q - 1) * commits == commits * q - commits) by (nonlinear_arith);
}

/// Before a commit that is not past the last, every commit has held an even share, unless later
/// ones would then be left without a row: then a row for each of them is left, where there are as
/// many rows as commits. Where there are fewer rows than commits, the first ones hold one each.
pub proof fn lemma_rows_before_commit(rows: int, commits: int, k: int)
    requires
        rows >= 1,
        commits >= 1,
        0 <= k < commits,
    ensures
        rows >= commits && k * even_share(rows, commits) + (commits - k) <= rows ==> rows_written(
            rows,
            commits,
            k,
        ) == k * even_share(rows, commits),
        rows >= commits && k * even_share(rows, commits) + (commits - k) > rows ==> rows_written(
            rows,
            commits,
            k,
        ) == rows - (commits - k),
        rows < commits && k <= rows ==> rows_written(rows, commits, k) == k,
        rows < commits && k > rows ==> rows_written(rows, commits, k) == rows,
{
    lemma_rows_written(rows, commits, k);
}

/// Each commit adds its rows to those of the commits before it, and the last one brings them to
/// the number that was asked for.
pub proof fn lemma_commits_add_up(rows: int, commits: int, k: int)
    requires
        rows >= 1,
        commits >= 1,
        0 <= k < commits,
    ensures
        rows_written(rows, commits, 0) == 0,
        rows_written(rows, commits, k + 1) == rows_written(rows, commits, k) + commit_rows(
            rows,
            commits,
            k,
            rows_written(rows, commits, k),
        ),
        k + 1 == commits ==> rows_written(rows, commits, k + 1) == rows,
{
    lemma_rows_written(rows, commits, k + 1);
}

/// A job is valid that writes a commit, a row and two columns at least, and no other is.
pub proof fn lemma_valid_request(cfg: CreateTableLaunchConfig)
    ensures
        valid_request(cfg) <==> cfg.commits > 0 && cfg.rows > 0 && cfg.columns > 1,
{
}

/// A wide table has as many columns as were asked for: an identifier, a timestamp, and fillers,
/// whose types take turns and whose names tell their number. More columns leave the first ones as
/// they are.
pub proof fn lemma_wide_schema(columns: int, more: int, i: int)
    requires
        0 <= i < columns <= more,
    ensures
        wide_schema(columns).len() == columns,
        wide_schema(more)[i] == wide_schema(columns)[i],
        i == 0 ==> wide_schema(columns)[i] == ("event_id"@, ColumnType::Utf8),
        i == 1 ==> wide_schema(columns)[i] == ("event_timestamp"@, ColumnType::TimestampMicros),
        i >= 2 ==> {
            let (name, column_type) = wide_schema(columns)[i];
            let number = text::decimal_padded((i - 2) as nat, 2);
            &&& i % 5 == 2 ==> name == "str_"@ + number && column_type == ColumnType::Utf8
            &&& i % 5 == 3 ==> name == "int64_"@ + number && column_type == ColumnType::Int64
            &&& i % 5 == 4 ==> name == "dbl_"@ + number && column_type == ColumnType::Float64
            &&& i % 5 == 0 ==> name == "bool_"@ + number && column_type == ColumnType::Boolean
            &&& i % 5 == 1 ==> name == "int32_"@ + number && column_type == ColumnType::Int32
        },
{
}

/// A table can be optimised for each of its columns, and for no other.
pub proof fn lemma_has_column(columns: int, i: int, column: Seq<char>)
    requires
        0 <= i < columns,
    ensures
        has_column(wide_schema(columns), wide_schema(columns)[i].0),
        columns >= 2 ==> has_column(wide_schema(columns), "event_timestamp"@),
        (forall|j: int| 0 <= j < columns ==> (#[trigger] wide_schema(columns)[j]).0 != column)
            ==> !has_column(wide_schema(columns), column),
{
    if columns >= 2 {
        assert(wide_schema(columns)[1].0 == "event_timestamp"@);
    }
}

/// The rows of a wide table have a value of the column's type in every column, as many as there are
/// rows; the times lie within thirty days before now.
pub proof fn lemma_wide_batch(batch: Seq<WideColumn>, count: nat, rows: nat, now: i64, k: int, i: int)
    requires
        is_wide_batch(batch, count, rows, now),
        0 <= k < count,
        0 <= i < rows,
    ensures
        batch.len() == count,
        match batch[k] {
            WideColumn::Text(v) => v@.len() == rows && wide_schema(count as int)[k].1
                == ColumnType::Utf8,
            WideColumn::Micros(v) => v@.len() == rows && wide_schema(count as int)[k].1
                == ColumnType::TimestampMicros && now - 2_592_000_000_000 < v@[i] <= now,
            WideColumn::Int64(v) => v@.len() == rows && wide_schema(count as int)[k].1
                == ColumnType::Int64,
            WideColumn::Int32(v) => v@.len() == rows && wide_schema(count as int)[k].1
                == ColumnType::Int32,
            WideColumn::Boolean(v) => v@.len() == rows && wide_schema(count as int)[k].1
                == ColumnType::Boolean,
            WideColumn::Float64 { rows: n } => n == rows && wide_schema(count as int)[k].1
                == ColumnType::Float64,
        },
        batch[0] matches WideColumn::Text(ids) && random::is_uuid(ids@[i]@),
{
    if k >= 2 {
        assert(is_filler(batch[k], filler_kind(k - 2).1, rows));
    } else if k == 1 {
        let times = batch[1]->Micros_0;
        assert(sample_data::recent(times@[i], now, WIDE_SPREAD_SECS));
    }
}

/// A job that is not cancelled writes the commit that is due, with the rows that bring the table to
/// the number that is due; only the first one replaces what the table holds, and only where that
/// was asked for. A cancelled job writes no commit.
pub proof fn lemma_next_commit(
    cfg: CreateTableLaunchConfig,
    done: int,
    optimized: bool,
    cancelled: bool,
    r: Result<CreateStep, CreateError>,
)
    requires
        valid_request(cfg),
        0 <= done < cfg.commits,
        is_next_step(cfg, done, optimized, cancelled, r),
    ensures
        r is Ok,
        r->Ok_0 is Cancelled <==> cancelled,
        !cancelled ==> r->Ok_0 is Commit,
        r->Ok_0 matches CreateStep::Commit { index, rows, mode } ==> {
            &&& index == done
            &&& rows_written(cfg.rows as int, cfg.commits as int, done) + rows == rows_written(
                cfg.rows as int,
                cfg.commits as int,
                done + 1,
            )
            &&& mode == WriteMode::Overwrite <==> done == 0 && cfg.overwrite
        },
{
    lemma_commits_add_up(cfg.rows as int, cfg.commits as int, done);
}

/// A job that has written its commits ends; before that it optimises the table once, for a column
/// of the table, where one is named. It fails only where the table has no column of that name.
pub proof fn lemma_job_ends(
    cfg: CreateTableLaunchConfig,
    cancelled: bool,
    before: Result<CreateStep, CreateError>,
    after: Result<CreateStep, CreateError>,
)
    requires
        is_next_step(cfg, cfg.commits as int, false, cancelled, before),
        is_next_step(cfg, cfg.commits as int, true, cancelled, after),
    ensures
        after matches Ok(step) && step is Finished,
        cfg.zorder_by@.len() == 0 ==> (before matches Ok(step) && step
            is Finished),
        cfg.zorder_by@.len() > 0 ==> match before {
            Ok(CreateStep::Optimize { column }) => column == cfg.zorder_by && exists|i: int|
                0 <= i < cfg.columns && (#[trigger] wide_schema(cfg.columns as int)[i]).0
                    == column@,
            Ok(_) => false,
            Err(e) => e == (CreateError::UnknownZorderColumn { column: cfg.zorder_by }) && forall|
                i: int,
            |
                0 <= i < cfg.columns ==> (#[trigger] wide_schema(cfg.columns as int)[i]).0
                    != cfg.zorder_by@,
        },
{
}

/// What is left of the characters `a..b`, where no hyphen stands among them but one behind them.
proof fn lemma_group_of_digits(u: Seq<char>, a: int, b: int)
    requires
        0 <= a <= b <= u.len(),
        forall|i: int| a <= i < b ==> u[i] != '-',
    ensures
        text::without(u.take(b), '-') == text::without(u.take(a), '-') + u.subrange(a, b),
        b < u.len() && u[b] == '-' ==> text::without(u.take(b + 1), '-') == text::without(
            u.take(b),
            '-',
        ),
{
    let digits = u.subrange(a, b);
    assert(!digits.contains('-'));
    text::lemma_without(digits, Seq::empty(), '-');
    text::lemma_without(u.take(a), digits, '-');
    assert(u.take(b) =~= u.take(a) + digits);
    if b < u.len() && u[b] == '-' {
        text::lemma_without(u.take(b), seq!['-'], '-');
        assert(u.take(b + 1) =~= u.take(b) + seq!['-']);
        assert(text::without(u.take(b), '-') + Seq::<char>::empty() =~= text::without(
            u.take(b),
            '-',
        ));
    }
}

/// A random identifier without hyphens has 32 hexadecimal digits, and its version stands at the
/// thirteenth place.
pub proof fn lemma_simple_uuid(s: Seq<char>)
    requires
        is_simple_uuid(s),
    ensures
        s.len() == 32,
        s[12] == '4',
        forall|i: int| 0 <= i < 32 ==> '0' <= #[trigger] s[i] <= '9' || 'a' <= s[i] <= 'f',
{
    let u = choose|u: Seq<char>| random::is_uuid(u) && s == #[trigger] text::without(u, '-');
    assert(text::without(u.take(0), '-') =~= Seq::<char>::empty());
    lemma_group_of_digits(u, 0, 8);
    lemma_group_of_digits(u, 9, 13);
    lemma_group_of_digits(u, 14, 18);
    lemma_group_of_digits(u, 19, 23);
    lemma_group_of_digits(u, 24, 36);
    assert(u.take(36) =~= u);
    assert(s =~= u.subrange(0, 8) + u.subrange(9, 13) + u.subrange(14, 18) + u.subrange(19, 23)
        + u.subrange(24, 36));
}

} // verus!
