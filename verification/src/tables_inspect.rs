//! What the dashboard shows of a table: its columns, its size, its recent commits, and a preview
//! of its rows.

use vstd::prelude::*;

use crate::config;
use crate::config::Backend;
use crate::text;
use crate::util;

verus! {

/// What is shown of a table.
#[derive(Debug, Clone, PartialEq, Eq)]
pub struct InspectResult {
    pub uri: String,
    pub backend: String,
    pub version: i64,
    pub num_files: usize,
    pub estimated_rows: u64,
    pub schema: Vec<ColumnInfo>,
    pub partition_columns: Vec<String>,
    pub commits: Vec<CommitInfo>,
}

/// What is shown of a column.
#[derive(Debug, Clone, PartialEq, Eq)]
pub struct ColumnInfo {
    pub name: String,
    pub data_type: String,
    pub nullable: bool,
}

/// What is shown of a commit.
#[derive(Debug, Clone, PartialEq, Eq)]
pub struct CommitInfo {
    pub version: i64,
    pub timestamp: String,
    pub operation: String,
}

// ---------------------------------------------------------------------------
// Size
// ---------------------------------------------------------------------------

/// The rows that the files count together; files that count none, or a negative number, add
/// nothing.
pub open spec fn counted_rows(counts: Seq<Option<i64>>) -> nat
    decreases counts.len(),
{
    if counts.len() == 0 {
        0
    } else {
        counted_rows(counts.drop_last()) + (match counts.last() {
            Some(n) => if n > 0 {
                n as nat
            } else {
                0
            },
            None => 0,
        })
    }
}

/// The rows that the files count together; `None` where they are too many.
pub fn estimate_rows(counts: &Vec<Option<i64>>) -> (r: Option<u64>)
    ensures
        match r {
            Some(n) => n == counted_rows(counts@),
            None => counted_rows(counts@) > u64::MAX,
        },
{
    let n: usize = counts.len();
    let mut sum: u128 = 0;
    for i in 0..n
        invariant
            n == counts.len(),
            sum == counted_rows(counts@.take(i as int)),
            sum <= i * 0x7fff_ffff_ffff_ffff,
    {
        assert(counts@.take(i + 1).drop_last() =~= counts@.take(i as int));
        if let Some(c) = counts[i] {
            if c > 0 {
                sum = sum + c as u128;
            }
        }
    }
    assert(counts@.take(n as int) =~= counts@);
    if sum > 0xffff_ffff_ffff_ffff {
        None
    } else {
        Some(sum as u64)
    }
}

// ---------------------------------------------------------------------------
// Commits
// ---------------------------------------------------------------------------

/// The number of commits that are shown.
pub const MAX_COMMITS: usize = 10;

/// A commit in the history of a table, which is told newest first and without versions.
#[derive(Debug, Clone, PartialEq, Eq)]
pub struct HistoryEntry {
    /// Milliseconds since 1970.
    pub timestamp: Option<i64>,
    pub operation: Option<String>,
}

/// The time `millis` milliseconds after 1970 as a date and time of day in UTC; `None` where it
/// is too far away.
pub uninterp spec fn utc_time(millis: i64) -> Option<Seq<char>>;

/// Calls `chrono::DateTime::from_timestamp_millis` and formats the result with
/// `%Y-%m-%d %H:%M:%S UTC`. Claimed is that the text depends on `millis` alone.
#[verifier::external_body]
fn format_utc(millis: i64) -> (r: Option<String>)
    ensures
        match r {
            Some(t) => utc_time(millis) == Some(t@),
            None => utc_time(millis) is None,
        },
{
    match chrono::DateTime::<chrono::Utc>::from_timestamp_millis(millis) {
        Some(t) => Some(t.format("%Y-%m-%d %H:%M:%S UTC").to_string()),
        None => None,
    }
}

/// How a time is shown, where `formatted` is its date and time of day, if it has one.
pub open spec fn shown_time(millis: i64, formatted: Option<Seq<char>>) -> Seq<char> {
    match formatted {
        Some(t) => t,
        None => text::decimal_int(millis as int),
    }
}

/// How a time is shown: by its date and time of day, else by its number.
pub fn show_time(millis: i64, formatted: Option<String>) -> (r: String)
    ensures
        r@ == shown_time(
            millis,
            match formatted {
                Some(t) => Some(t@),
                None => None,
            },
        ),
{
    match formatted {
        Some(t) => t,
        None => {
            let mut r = String::new();
            text::push_i64(&mut r, millis);
            assert(r@ =~= text::decimal_int(millis as int));
            r
        },
    }
}

/// Whether `info` shows the commit `entry` with version `version`.
pub open spec fn shows_commit(info: CommitInfo, entry: HistoryEntry, version: int) -> bool {
    &&& info.version == version
    &&& info.timestamp@ == (match entry.timestamp {
        Some(millis) => shown_time(millis, utc_time(millis)),
        None => Seq::empty(),
    })
    &&& info.operation@ == (match entry.operation {
        Some(operation) => operation@,
        None => Seq::empty(),
    })
}

/// Whether the commits are what is shown of the history of a table at version `version`.
pub open spec fn show_history(
    commits: Seq<CommitInfo>,
    history: Seq<HistoryEntry>,
    version: int,
) -> bool {
    &&& commits.len() == (if history.len() < MAX_COMMITS {
        history.len()
    } else {
        MAX_COMMITS as nat
    })
    &&& forall|i: int|
        0 <= i < commits.len() ==> shows_commit(#[trigger] commits[i], history[i], version - i)
}

/// The ten newest commits are shown, or all where there are fewer: the first is the version of the
/// table, and each is one version older than the one before it.
pub proof fn lemma_history_shown(
    commits: Seq<CommitInfo>,
    history: Seq<HistoryEntry>,
    version: int,
    i: int,
)
    requires
        show_history(commits, history, version),
    ensures
        commits.len() <= 10,
        commits.len() <= history.len(),
        0 <= i < history.len() && i < 10 ==> i < commits.len() && commits[i].version == version - i,
        0 <= i < commits.len() ==> (history[i].operation matches Some(operation)
            ==> commits[i].operation@ == operation@),
        0 <= i < commits.len() && history[i].timestamp is None ==> commits[i].timestamp@.len() == 0,
{
    if 0 <= i < commits.len() {
        assert(shows_commit(commits[i], history[i], version - i));
    }
}

/// What is shown of the newest commits of a table at version `version`: at most ten, each one
/// version older than the one before it.
pub fn recent_commits(version: i64, history: &Vec<HistoryEntry>) -> (r: Vec<CommitInfo>)
    requires
        version >= i64::MIN + 9,
    ensures
        show_history(r@, history@, version as int),
{
    let n: usize = if history.len() < MAX_COMMITS {
        history.len()
    } else {
        MAX_COMMITS
    };
    let mut r: Vec<CommitInfo> = Vec::new();
    for i in 0..n
        invariant
            version >= i64::MIN + 9,
            n <= history.len(),
            n <= 10,
            r.len() == i,
            forall|j: int|
                0 <= j < i ==> shows_commit(#[trigger] r@[j], history@[j], version - j),
    {
        let timestamp = match history[i].timestamp {
            Some(millis) => show_time(millis, format_utc(millis)),
            None => String::new(),
        };
        let operation = match &history[i].operation {
            Some(operation) => operation.clone(),
            None => String::new(),
        };
        r.push(CommitInfo { version: version - i as i64, timestamp, operation });
    }
    r
}

/// What is shown of the table at `uri`.
pub fn inspect_result(
    uri: &str,
    version: Option<u64>,
    num_files: usize,
    estimated_rows: u64,
    schema: Vec<ColumnInfo>,
    partition_columns: Vec<String>,
    history: &Vec<HistoryEntry>,
) -> (r: InspectResult)
    requires
        util::signed_version(version) >= i64::MIN + 9,
    ensures
        r.uri@ == uri@,
        r.backend@ == config::backend_of(uri@).label_text(),
        r.version == util::signed_version(version),
        r.num_files == num_files,
        r.estimated_rows == estimated_rows,
        r.schema == schema,
        r.partition_columns == partition_columns,
        show_history(r.commits@, history@, r.version as int),
{
    let version = util::version_to_i64(version);
    InspectResult {
        uri: uri.to_string(),
        backend: Backend::detect(uri).label().to_string(),
        version,
        num_files,
        estimated_rows,
        schema,
        partition_columns,
        commits: recent_commits(version, history),
    }
}

// ---------------------------------------------------------------------------
// Previews
// ---------------------------------------------------------------------------

/// Whether `c` goes on with a word: an ASCII letter, a digit, `_`, or any character beyond ASCII
/// that is not white space.
pub open spec fn word_char(c: char) -> bool {
    'a' <= c <= 'z' || 'A' <= c <= 'Z' || '0' <= c <= '9' || c == '_' || (c as u32 >= 128
        && !text::white_space(c))
}

/// Whether `s` begins with the word `WHERE`, in any case: nothing goes on with the word behind
/// its letters.
pub open spec fn begins_with_where(s: Seq<char>) -> bool {
    &&& s.len() >= 5
    &&& text::lower(s.take(5)) == "where"@
    &&& s.len() > 5 ==> !word_char(s[5])
}

/// A trimmed condition without the word `WHERE` at its beginning.
pub open spec fn without_where(s: Seq<char>) -> Seq<char> {
    if begins_with_where(s) {
        text::trimmed_start(s.skip(5))
    } else {
        s
    }
}

/// The condition of a preview, which the user may write with or without the word `WHERE`;
/// `None` where nothing is left of it.
pub open spec fn preview_condition(clause: Option<Seq<char>>) -> Option<Seq<char>> {
    match clause {
        Some(c) => if without_where(text::trimmed(c)).len() > 0 {
            Some(without_where(text::trimmed(c)))
        } else {
            None
        },
        None => None,
    }
}

/// Whether a text begins with the word `WHERE`.
fn starts_with_where(cs: &Vec<char>) -> (r: bool)
    ensures
        r == begins_with_where(cs@),
{
    if cs.len() < 5 {
        return false;
    }
    if cs.len() > 5 {
        let c = cs[5];
        let letter = ('a' <= c && c <= 'z') || ('A' <= c && c <= 'Z');
        if letter || ('0' <= c && c <= '9') || c == '_' {
            return false;
        }
        if c as u32 >= 128 && !text::is_white_space(c) {
            return false;
        }
    }
    let word = text::to_lower(text::string_of(cs, 0, 5).as_str());
    assert(cs@.subrange(0, 5) =~= cs@.take(5));
    text::same_text(word.as_str(), "where")
}

/// A condition on a column is kept as it is, also where the name of the column begins with the
/// letters of `WHERE`, and the word before it makes no difference.
pub proof fn lemma_condition_is_kept(condition: Seq<char>, word: Seq<char>)
    requires
        condition.len() > 0,
        !text::white_space(condition.first()),
        !text::white_space(condition.last()),
        !begins_with_where(condition),
        text::lower(word) == "where"@,
    ensures
        preview_condition(Some(condition)) == Some(condition),
        preview_condition(Some(word + " "@ + condition)) == Some(condition),
{
    reveal_strlit("where");
    reveal_strlit(" ");
    let n = condition.len() as int;
    text::lemma_trimmed_start_at(condition, 0);
    text::lemma_trimmed_end_at(condition, n);
    assert(condition.skip(0) =~= condition);
    assert(condition.take(n) =~= condition);
    let s = word + " "@ + condition;
    assert(word.len() == text::lower(word).len());
    assert(text::lower(word)[0] == 'w');
    assert(s[0] == word[0]);
    assert(s.last() == condition.last());
    text::lemma_trimmed_start_at(s, 0);
    text::lemma_trimmed_end_at(s, n + 6);
    assert(s.skip(0) =~= s);
    assert(s.take(n + 6) =~= s);
    assert(s.take(5) =~= word);
    assert(s[5] == ' ');
    let rest = s.skip(5);
    assert(rest[0] == ' ');
    assert(rest[1] == condition[0]);
    text::lemma_trimmed_start_at(rest, 1);
    assert(rest.skip(1) =~= condition);
}

/// The condition of a preview, which the user may write with or without the word `WHERE`.
pub fn preview_filter(where_clause: Option<&str>) -> (r: Option<String>)
    ensures
        (match r {
            Some(c) => Some(c@),
            None => None,
        }) == preview_condition(
            match where_clause {
                Some(c) => Some(c@),
                None => None,
            },
        ),
{
    let clause = match where_clause {
        Some(c) => text::trim(c),
        None => {
            return None;
        },
    };
    let cs = text::chars_of(clause.as_str());
    let n: usize = cs.len();
    let condition = if starts_with_where(&cs) {
        assert(cs@.subrange(5, n as int) =~= clause@.skip(5));
        text::trim_start(text::string_of(&cs, 5, n).as_str())
    } else {
        clause
    };
    if condition.as_str().is_empty() {
        None
    } else {
        Some(condition)
    }
}

/// The query of a preview with a condition, over the view `t`.
pub fn preview_sql(condition: &str, limit: usize) -> (r: String)
    ensures
        r@ == "SELECT * FROM t WHERE "@ + condition@ + " LIMIT "@ + text::decimal(limit as nat),
{
    let mut r = "SELECT * FROM t WHERE ".to_string();
    r.append(condition);
    r.append(" LIMIT ");
    text::push_usize(&mut r, limit);
    r
}

/// A preview of the rows of a table.
#[derive(Debug, Clone, PartialEq, Eq)]
pub struct PreviewResult {
    pub columns: Vec<String>,
    pub rows: Vec<Vec<String>>,
    pub returned: usize,
    pub limit: usize,
    /// Whether the limit was reached.
    pub truncated: bool,
}

/// A preview that is being collected, batch by batch.
#[derive(Debug)]
pub struct PreviewBuilder {
    columns: Vec<String>,
    rows: Vec<Vec<String>>,
    limit: usize,
}

/// How many of `n` more rows a preview takes that has `held` of `limit` rows.
pub open spec fn wanted(held: nat, limit: nat, n: nat) -> nat {
    if held >= limit {
        0
    } else if n < limit - held {
        n
    } else {
        (limit - held) as nat
    }
}

impl PreviewBuilder {
    /// The columns, where a batch has told them.
    pub closed spec fn columns(&self) -> Seq<String> {
        self.columns@
    }

    /// The rows.
    pub closed spec fn rows(&self) -> Seq<Vec<String>> {
        self.rows@
    }

    /// The most rows.
    pub closed spec fn limit(&self) -> nat {
        self.limit as nat
    }

    /// There are no more rows than the limit.
    pub open spec fn valid(&self) -> bool {
        self.rows().len() <= self.limit()
    }

    /// An empty preview of at most `limit` rows.
    pub fn new(limit: usize) -> (r: Self)
        ensures
            r.valid(),
            r.columns() == Seq::<String>::empty(),
            r.rows() == Seq::<Vec<String>>::empty(),
            r.limit() == limit,
    {
        PreviewBuilder { columns: Vec::new(), rows: Vec::new(), limit }
    }

    /// How many rows of a batch of `n` rows are taken.
    pub fn rows_wanted(&self, n: usize) -> (r: usize)
        ensures
            r == wanted(self.rows().len(), self.limit(), n as nat),
    {
        if self.rows.len() >= self.limit {
            0
        } else if n < self.limit - self.rows.len() {
            n
        } else {
            self.limit - self.rows.len()
        }
    }

    /// Takes in a batch: its columns where none are known yet, and as many of its first rows as
    /// are still wanted. Gives whether another batch is of use.
    pub fn add_batch(&mut self, columns: Vec<String>, rows: Vec<Vec<String>>) -> (more: bool)
        requires
            old(self).valid(),
        ensures
            final(self).valid(),
            final(self).limit() == old(self).limit(),
            final(self).columns() == (if old(self).columns().len() == 0 {
                columns@
            } else {
                old(self).columns()
            }),
            final(self).rows() == old(self).rows() + rows@.take(
                wanted(old(self).rows().len(), old(self).limit(), rows@.len()) as int,
            ),
            more == (final(self).rows().len() < final(self).limit()),
    {
        if self.columns.len() == 0 {
            self.columns = columns;
        }
        let n: usize = self.rows_wanted(rows.len());
        let ghost before = self.rows@;
        let mut rest = rows;
        let tail = rest.split_off(n);
        let mut first = rest;
        self.rows.append(&mut first);
        assert(self.rows@ =~= before + rows@.take(n as int));
        self.rows.len() < self.limit
    }

    /// The preview that was collected.
    pub fn finish(self) -> (r: PreviewResult)
        ensures
            r.columns@ == self.columns(),
            r.rows@ == self.rows(),
            r.returned == self.rows().len(),
            r.limit == self.limit(),
            r.truncated == (self.rows().len() >= self.limit()),
    {
        PreviewResult {
            returned: self.rows.len(),
            truncated: self.rows.len() >= self.limit,
            columns: self.columns,
            rows: self.rows,
            limit: self.limit,
        }
    }
}

// ---------------------------------------------------------------------------
// What the figures of a table are for
// ---------------------------------------------------------------------------

/// The rows of files add up: those of two lists are those of the one and the other; a count above
/// zero counts as it is, and no other count adds anything.
pub proof fn lemma_rows_of_files_add_up(a: Seq<Option<i64>>, b: Seq<Option<i64>>, n: i64)
    ensures
        counted_rows(a + b) == counted_rows(a) + counted_rows(b),
        n >= 0 ==> counted_rows(seq![Some(n)]) == n,
        n < 0 ==> counted_rows(seq![Some(n)]) == 0,
        counted_rows(seq![None]) == 0,
        counted_rows(Seq::empty()) == 0,
    decreases b.len(),
{
    reveal_with_fuel(counted_rows, 2);
    if b.len() == 0 {
        assert(a + b =~= a);
    } else {
        lemma_rows_of_files_add_up(a, b.drop_last(), n);
        assert((a + b).drop_last() =~= a + b.drop_last());
        assert((a + b).last() == b.last());
    }
}

/// A commit is shown with its version, with its operation as it is told, and with its time: as a
/// date where it has one, else as the number that it is.
pub proof fn lemma_shown_commit(info: CommitInfo, entry: HistoryEntry, version: int)
    requires
        shows_commit(info, entry, version),
    ensures
        info.version == version,
        entry.operation matches Some(operation) ==> info.operation@ == operation@,
        entry.operation is None ==> info.operation@.len() == 0,
        entry.timestamp is None ==> info.timestamp@.len() == 0,
        entry.timestamp matches Some(millis) ==> {
            &&& utc_time(millis) matches Some(t) ==> info.timestamp@ == t
            &&& utc_time(millis) is None ==> info.timestamp@ == text::decimal_int(millis as int)
        },
{
}

/// A preview takes as many more rows as there are, but never more than its limit leaves room for;
/// it takes fewer than there are only to reach the limit.
pub proof fn lemma_wanted(held: nat, limit: nat, n: nat)
    requires
        held <= limit,
    ensures
        wanted(held, limit, n) <= n,
        held + wanted(held, limit, n) <= limit,
        wanted(held, limit, n) < n ==> held + wanted(held, limit, n) == limit,
{
}

/// A preview has a condition exactly where one is left when the white space and the word `WHERE`
/// are taken off, and the condition is a part of what was written.
pub proof fn lemma_preview_condition(clause: Seq<char>)
    ensures
        preview_condition(None) is None,
        text::trimmed(clause).len() == 0 ==> preview_condition(Some(clause)) is None,
        text::trimmed(clause).len() > 0 && !begins_with_where(text::trimmed(clause))
            ==> preview_condition(Some(clause)) == Some(text::trimmed(clause)),
        begins_with_where(text::trimmed(clause)) ==> (preview_condition(Some(clause)) matches Some(c)
            ==> c == text::trimmed_start(text::trimmed(clause).skip(5))),
        preview_condition(Some(clause)) matches Some(c) ==> c.len() > 0,
{
}

/// A word is the word `WHERE` in whatever case it is written, and nothing else is: one that goes on
/// with a letter, a digit, an underscore or what is no white space beyond ASCII is another.
pub proof fn lemma_where(word: Seq<char>, next: char, rest: Seq<char>)
    requires
        text::lower(word) == "where"@,
    ensures
        begins_with_where(word),
        begins_with_where(word.push(' ') + rest),
        begins_with_where(word.push('(') + rest),
        text::white_space(next) ==> begins_with_where(word.push(next) + rest),
        next as u32 >= 128 && !text::white_space(next) ==> !begins_with_where(
            word.push(next) + rest,
        ),
        'a' <= next <= 'z' || 'A' <= next <= 'Z' || '0' <= next <= '9' || next == '_'
            ==> !begins_with_where(word.push(next) + rest),
{
    reveal_strlit("where");
    assert(word.len() == text::lower(word).len());
    let a = word.push(' ') + rest;
    let b = word.push('(') + rest;
    let c = word.push(next) + rest;
    assert(word.take(5) =~= word);
    assert(a.take(5) =~= word && b.take(5) =~= word && c.take(5) =~= word);
    assert(a[5] == ' ' && b[5] == '(' && c[5] == next);
}

/// A preview holds the first rows of all batches together, as many as its limit allows, however the
/// rows are spread over the batches.
pub proof fn lemma_preview_holds_first_rows<R>(held: Seq<R>, limit: nat, batch: Seq<R>, all: Seq<R>)
    requires
        held == (if all.len() < limit {
            all
        } else {
            all.take(limit as int)
        }),
    ensures
        held + batch.take(wanted(held.len(), limit, batch.len()) as int) == (if all.len()
            + batch.len() < limit {
            all + batch
        } else {
            (all + batch).take(limit as int)
        }),
{
    let now = held + batch.take(wanted(held.len(), limit, batch.len()) as int);
    if all.len() + batch.len() < limit {
        assert(now =~= all + batch);
    } else {
        assert(now =~= (all + batch).take(limit as int));
    }
}

} // verus!
