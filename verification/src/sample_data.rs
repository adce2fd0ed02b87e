//! Synthetic rows for the demo.

use vstd::prelude::*;

use crate::clock;
use crate::random;
use crate::text;

verus! {

/// The type of a column.
#[derive(Debug, Clone, Copy, PartialEq, Eq, Structural)]
pub enum ColumnType {
    Utf8,
    /// Microseconds since 1970, without a time zone.
    TimestampMicros,
    Decimal { precision: u8, scale: i8 },
    Boolean,
    Int32,
    Int64,
    Float64,
}

/// A column: its name and type. No column of synthetic data may be null.
#[derive(Debug, Clone, PartialEq, Eq)]
pub struct SchemaField {
    pub name: String,
    pub column_type: ColumnType,
}

/// A column as a mathematical value.
pub open spec fn field_view(f: SchemaField) -> (Seq<char>, ColumnType) {
    (f.name@, f.column_type)
}

/// Columns as mathematical values.
pub open spec fn field_views(fields: Seq<SchemaField>) -> Seq<(Seq<char>, ColumnType)> {
    Seq::new(fields.len(), |i: int| field_view(fields[i]))
}

/// Appends a column.
pub fn push_field(fields: &mut Vec<SchemaField>, name: &str, column_type: ColumnType)
    ensures
        field_views(final(fields)@) == field_views(old(fields)@).push((name@, column_type)),
{
    fields.push(SchemaField { name: name.to_string(), column_type });
    assert(field_views(fields@) =~= field_views(old(fields)@).push((name@, column_type)));
}

/// The columns of the demo.
pub open spec fn demo_schema() -> Seq<(Seq<char>, ColumnType)> {
    seq![
        ("event_id"@, ColumnType::Utf8),
        ("account_id"@, ColumnType::Utf8),
        ("event_timestamp"@, ColumnType::TimestampMicros),
        ("event_type"@, ColumnType::Utf8),
        ("category"@, ColumnType::Utf8),
        ("product"@, ColumnType::Utf8),
        ("amount"@, ColumnType::Decimal { precision: 18, scale: 4 }),
        ("currency"@, ColumnType::Utf8),
        ("is_eligible"@, ColumnType::Boolean),
        ("region"@, ColumnType::Utf8),
        ("status"@, ColumnType::Utf8),
        ("batch_id"@, ColumnType::Int32),
    ]
}

/// The columns of the demo.
pub fn build_schema() -> (r: Vec<SchemaField>)
    ensures
        field_views(r@) == demo_schema(),
{
    let mut r: Vec<SchemaField> = Vec::new();
    push_field(&mut r, "event_id", ColumnType::Utf8);
    push_field(&mut r, "account_id", ColumnType::Utf8);
    push_field(&mut r, "event_timestamp", ColumnType::TimestampMicros);
    push_field(&mut r, "event_type", ColumnType::Utf8);
    push_field(&mut r, "category", ColumnType::Utf8);
    push_field(&mut r, "product", ColumnType::Utf8);
    push_field(&mut r, "amount", ColumnType::Decimal { precision: 18, scale: 4 });
    push_field(&mut r, "currency", ColumnType::Utf8);
    push_field(&mut r, "is_eligible", ColumnType::Boolean);
    push_field(&mut r, "region", ColumnType::Utf8);
    push_field(&mut r, "status", ColumnType::Utf8);
    push_field(&mut r, "batch_id", ColumnType::Int32);
    assert(field_views(r@) =~= demo_schema());
    r
}

// ---------------------------------------------------------------------------
// Values
// ---------------------------------------------------------------------------

/// The largest number that an account can have.
pub const MAX_ACCOUNT: u64 = 99_999_998;

/// The number of seconds that the rows of a batch look back on.
pub const DEMO_SPREAD_SECS: i64 = 3600;

/// The kinds of events.
pub open spec fn event_types() -> Seq<Seq<char>> {
    seq!["create"@, "update"@, "delete"@, "refund"@, "credit"@]
}

/// The categories.
pub open spec fn categories() -> Seq<Seq<char>> {
    seq!["compute"@, "storage"@, "network"@, "database"@, "analytics"@, "ml"@]
}

/// The products.
pub open spec fn products() -> Seq<Seq<char>> {
    seq!["service-a"@, "service-b"@, "service-c"@, "service-d"@, "service-e"@]
}

/// The currencies.
pub open spec fn currencies() -> Seq<Seq<char>> {
    seq!["USD"@, "EUR"@, "GBP"@, "JPY"@, "CAD"@]
}

/// The regions.
pub open spec fn regions() -> Seq<Seq<char>> {
    seq!["us-east"@, "us-west"@, "eu-west"@, "ap-south"@, "ap-east"@]
}

/// The states of an event.
pub open spec fn statuses() -> Seq<Seq<char>> {
    seq!["active"@, "completed"@, "pending"@, "processing"@]
}

/// Whether `t` is a time up to `spread` seconds before `now`, whole seconds away from it.
pub open spec fn recent(t: i64, now: i64, spread: i64) -> bool {
    exists|s: int| 0 <= s < spread && t == now - #[trigger] (s * 1_000_000)
}

/// `rows` times, each up to `spread` seconds before `now`.
pub(crate) fn recent_times(
    rng: &mut rand::rngs::StdRng,
    rows: usize,
    now: i64,
    spread: i64,
) -> (r: Vec<i64>)
    requires
        0 <= now,
        0 < spread <= 2_592_000,
    ensures
        r.len() == rows,
        forall|i: int| 0 <= i < rows ==> recent(#[trigger] r@[i], now, spread),
{
    let mut r: Vec<i64> = Vec::new();
    for i in 0..rows
        invariant
            0 <= now,
            0 < spread <= 2_592_000,
            r.len() == i,
            forall|j: int| 0 <= j < i ==> recent(#[trigger] r@[j], now, spread),
    {
        let s: i64 = random::draw(rng, 0, (spread - 1) as i128) as i64;
        let t: i64 = now - s * 1_000_000;
        assert(t == now - (s as int) * 1_000_000);
        assert(recent(t, now, spread));
        r.push(t);
    }
    r
}

/// `rows` random identifiers.
pub(crate) fn new_ids(rows: usize) -> (r: Vec<String>)
    ensures
        r.len() == rows,
        forall|i: int| 0 <= i < rows ==> random::is_uuid((#[trigger] r@[i])@),
{
    let mut r: Vec<String> = Vec::new();
    for i in 0..rows
        invariant
            r.len() == i,
            forall|j: int| 0 <= j < i ==> random::is_uuid((#[trigger] r@[j])@),
    {
        r.push(random::new_uuid());
    }
    r
}

/// Whether `s` names an account.
pub open spec fn is_account(s: Seq<char>) -> bool {
    exists|n: nat|
        n <= MAX_ACCOUNT && s == "acct-"@ + #[trigger] text::decimal_padded(n, 8)
}

/// `rows` accounts.
fn new_accounts(rng: &mut rand::rngs::StdRng, rows: usize) -> (r: Vec<String>)
    ensures
        r.len() == rows,
        forall|i: int| 0 <= i < rows ==> is_account((#[trigger] r@[i])@),
{
    let mut r: Vec<String> = Vec::new();
    for i in 0..rows
        invariant
            r.len() == i,
            forall|j: int| 0 <= j < i ==> is_account((#[trigger] r@[j])@),
    {
        let n: u64 = random::draw(rng, 0, MAX_ACCOUNT as i128) as u64;
        let mut name = "acct-".to_string();
        text::push_padded(&mut name, n, 8);
        assert(name@ == "acct-"@ + text::decimal_padded(n as nat, 8));
        assert(is_account(name@));
        r.push(name);
    }
    r
}

/// The characters of each text.
pub open spec fn text_views(v: Seq<&'static str>) -> Seq<Seq<char>> {
    Seq::new(v.len(), |i: int| v[i]@)
}

/// `rows` members of `options`.
fn pick(rng: &mut rand::rngs::StdRng, rows: usize, options: Vec<&'static str>) -> (r: Vec<
    &'static str,
>)
    requires
        options.len() > 0,
    ensures
        r.len() == rows,
        forall|i: int|
            0 <= i < rows ==> text_views(options@).contains((#[trigger] r@[i])@),
{
    let mut r: Vec<&'static str> = Vec::new();
    for i in 0..rows
        invariant
            options.len() > 0,
            r.len() == i,
            forall|j: int| 0 <= j < i ==> text_views(options@).contains((#[trigger] r@[j])@),
    {
        let k: usize = random::draw(rng, 0, (options.len() - 1) as i128) as usize;
        assert(text_views(options@)[k as int] == options@[k as int]@);
        r.push(options[k]);
    }
    r
}

/// `rows` amounts, in ten-thousandths.
fn new_amounts(rng: &mut rand::rngs::StdRng, rows: usize) -> (r: Vec<i128>)
    ensures
        r.len() == rows,
        forall|i: int| 0 <= i < rows ==> 1000 <= #[trigger] r@[i] < 50_000_000,
{
    let mut r: Vec<i128> = Vec::new();
    for i in 0..rows
        invariant
            r.len() == i,
            forall|j: int| 0 <= j < i ==> 1000 <= #[trigger] r@[j] < 50_000_000,
    {
        r.push(random::draw(rng, 1000, 49_999_999));
    }
    r
}

/// `rows` truth values, of which `numerator` in `denominator` are true on average.
pub(crate) fn new_flags(
    rng: &mut rand::rngs::StdRng,
    rows: usize,
    numerator: u32,
    denominator: u32,
) -> (r: Vec<bool>)
    requires
        0 < denominator,
        numerator <= denominator,
    ensures
        r.len() == rows,
{
    let mut r: Vec<bool> = Vec::new();
    for i in 0..rows
        invariant
            0 < denominator,
            numerator <= denominator,
            r.len() == i,
    {
        r.push(random::chance(rng, numerator, denominator));
    }
    r
}

// ---------------------------------------------------------------------------
// Batches
// ---------------------------------------------------------------------------

/// Rows of the demo, by column.
#[derive(Debug, Clone)]
pub struct SampleBatch {
    pub event_ids: Vec<String>,
    pub account_ids: Vec<String>,
    pub timestamps: Vec<i64>,
    pub event_types: Vec<&'static str>,
    pub categories: Vec<&'static str>,
    pub products: Vec<&'static str>,
    pub amounts: Vec<i128>,
    pub currencies: Vec<&'static str>,
    pub eligible: Vec<bool>,
    pub regions: Vec<&'static str>,
    pub statuses: Vec<&'static str>,
    pub batch_ids: Vec<i32>,
}

/// Whether each of the `rows` values is a member of `options`.
pub open spec fn picked(v: Seq<&'static str>, rows: nat, options: Seq<Seq<char>>) -> bool {
    v.len() == rows && forall|i: int| 0 <= i < rows ==> options.contains((#[trigger] v[i])@)
}

impl SampleBatch {
    /// The batch has `rows` rows, each with values that its columns can have at time `now`, and
    /// all with the number of the batch.
    pub open spec fn is_batch(&self, rows: nat, batch_id: i32, now: i64) -> bool {
        &&& self.event_ids@.len() == rows
        &&& forall|i: int| 0 <= i < rows ==> random::is_uuid((#[trigger] self.event_ids@[i])@)
        &&& self.account_ids@.len() == rows
        &&& forall|i: int| 0 <= i < rows ==> is_account((#[trigger] self.account_ids@[i])@)
        &&& self.timestamps@.len() == rows
        &&& forall|i: int|
            0 <= i < rows ==> recent(#[trigger] self.timestamps@[i], now, DEMO_SPREAD_SECS)
        &&& picked(self.event_types@, rows, event_types())
        &&& picked(self.categories@, rows, categories())
        &&& picked(self.products@, rows, products())
        &&& self.amounts@.len() == rows
        &&& forall|i: int| 0 <= i < rows ==> 1000 <= #[trigger] self.amounts@[i] < 50_000_000
        &&& picked(self.currencies@, rows, currencies())
        &&& self.eligible@.len() == rows
        &&& picked(self.regions@, rows, regions())
        &&& picked(self.statuses@, rows, statuses())
        &&& self.batch_ids@ == Seq::new(rows, |i: int| batch_id)
    }
}

/// `num_rows` random rows as of time `now`, in microseconds since 1970. Seventeen in twenty of
/// them are eligible on average.
pub fn generate_batch_at(
    num_rows: usize,
    batch_id: i32,
    now: i64,
    rng: &mut rand::rngs::StdRng,
) -> (r: SampleBatch)
    requires
        0 <= now,
    ensures
        r.is_batch(num_rows as nat, batch_id, now),
{
    let event_ids = new_ids(num_rows);
    let account_ids = new_accounts(rng, num_rows);
    let timestamps = recent_times(rng, num_rows, now, DEMO_SPREAD_SECS);
    let options: Vec<&'static str> = vec!["create", "update", "delete", "refund", "credit"];
    assert(text_views(options@) =~= self::event_types());
    let event_types = pick(rng, num_rows, options);
    let options: Vec<&'static str> = vec![
        "compute",
        "storage",
        "network",
        "database",
        "analytics",
        "ml",
    ];
    assert(text_views(options@) =~= self::categories());
    let categories = pick(rng, num_rows, options);
    let options: Vec<&'static str> = vec![
        "service-a",
        "service-b",
        "service-c",
        "service-d",
        "service-e",
    ];
    assert(text_views(options@) =~= self::products());
    let products = pick(rng, num_rows, options);
    let amounts = new_amounts(rng, num_rows);
    let options: Vec<&'static str> = vec!["USD", "EUR", "GBP", "JPY", "CAD"];
    assert(text_views(options@) =~= self::currencies());
    let currencies = pick(rng, num_rows, options);
    let eligible = new_flags(rng, num_rows, 17, 20);
    let options: Vec<&'static str> = vec!["us-east", "us-west", "eu-west", "ap-south", "ap-east"];
    assert(text_views(options@) =~= self::regions());
    let regions = pick(rng, num_rows, options);
    let options: Vec<&'static str> = vec!["active", "completed", "pending", "processing"];
    assert(text_views(options@) =~= self::statuses());
    let statuses = pick(rng, num_rows, options);
    let mut batch_ids: Vec<i32> = Vec::new();
    for i in 0..num_rows
        invariant
            batch_ids@ == Seq::new(i as nat, |j: int| batch_id),
    {
        batch_ids.push(batch_id);
        assert(batch_ids@ =~= Seq::new((i + 1) as nat, |j: int| batch_id));
    }
    SampleBatch {
        event_ids,
        account_ids,
        timestamps,
        event_types,
        categories,
        products,
        amounts,
        currencies,
        eligible,
        regions,
        statuses,
        batch_ids,
    }
}

/// `num_rows` random rows as of now.
pub fn generate_batch(num_rows: usize, batch_id: i32, rng: &mut rand::rngs::StdRng) -> (r:
    SampleBatch)
    ensures
        exists|now: i64| 0 <= now && #[trigger] r.is_batch(num_rows as nat, batch_id, now),
{
    let now: i64 = clock::now_micros();
    let r = generate_batch_at(num_rows, batch_id, now, rng);
    assert(r.is_batch(num_rows as nat, batch_id, now));
    r
}

/// Whether `new` is `old` with the identifier of row `i` replaced by the recent one at place `k`
/// wherever `picks[i]` is `Some(k)`.
pub open spec fn ids_reused(
    old: SampleBatch,
    recent: Seq<String>,
    picks: Seq<Option<usize>>,
    new: SampleBatch,
) -> bool {
    &&& new == (SampleBatch { event_ids: new.event_ids, ..old })
    &&& new.event_ids@.len() == old.event_ids@.len()
    &&& forall|i: int|
        0 <= i < old.event_ids@.len() ==> #[trigger] new.event_ids@[i] == (match picks[i] {
            Some(k) => recent[k as int],
            None => old.event_ids@[i],
        })
}

/// Whether `picks` has for each of `rows` rows a place among `recent` identifiers or none.
pub open spec fn are_picks(picks: Seq<Option<usize>>, rows: nat, recent: nat) -> bool {
    &&& picks.len() == rows
    &&& forall|i: int| 0 <= i < rows ==> (#[trigger] picks[i] matches Some(k) ==> k < recent)
}

/// Gives the rows of the batch for which a place is picked the recent identifier at that place.
pub fn reuse_ids(batch: &mut SampleBatch, recent: &Vec<String>, picks: &Vec<Option<usize>>)
    requires
        are_picks(picks@, old(batch).event_ids@.len(), recent@.len()),
    ensures
        ids_reused(*old(batch), recent@, picks@, *final(batch)),
{
    let n: usize = batch.event_ids.len();
    for i in 0..n
        invariant
            n == old(batch).event_ids@.len(),
            n == batch.event_ids@.len(),
            are_picks(picks@, n as nat, recent@.len()),
            *batch == (SampleBatch { event_ids: batch.event_ids, ..*old(batch) }),
            forall|j: int|
                0 <= j < n ==> #[trigger] batch.event_ids@[j] == (if j < i {
                    match picks@[j] {
                        Some(k) => recent@[k as int],
                        None => old(batch).event_ids@[j],
                    }
                } else {
                    old(batch).event_ids@[j]
                }),
    {
        if let Some(k) = picks[i] {
            let id = recent[k].clone();
            assert(recent@[k as int] == id);
            batch.event_ids.set(i, id);
        }
    }
}

/// What chance may pick for `rows` rows: a place for `numerator` in `denominator` of them on
/// average, so for none where the numerator is zero and for all where it is the denominator.
pub open spec fn possible_picks(
    picks: Seq<Option<usize>>,
    rows: nat,
    recent: nat,
    numerator: u32,
    denominator: u32,
) -> bool {
    &&& are_picks(picks, rows, recent)
    &&& numerator == 0 || recent == 0 ==> forall|i: int| 0 <= i < rows ==> #[trigger] picks[i] is None
    &&& numerator == denominator && recent > 0 ==> forall|i: int|
        0 <= i < rows ==> #[trigger] picks[i] is Some
}

/// Picks the rows that get a recent identifier, and which of `recent` identifiers each gets.
fn pick_ids(
    rows: usize,
    recent: usize,
    numerator: u32,
    denominator: u32,
    rng: &mut rand::rngs::StdRng,
) -> (r: Vec<Option<usize>>)
    requires
        0 < denominator,
        numerator <= denominator,
    ensures
        possible_picks(r@, rows as nat, recent as nat, numerator, denominator),
{
    let mut r: Vec<Option<usize>> = Vec::new();
    for i in 0..rows
        invariant
            0 < denominator,
            numerator <= denominator,
            possible_picks(r@, i as nat, recent as nat, numerator, denominator),
    {
        if recent > 0 && random::chance(rng, numerator, denominator) {
            r.push(Some(random::draw(rng, 0, (recent - 1) as i128) as usize));
        } else {
            r.push(None);
        }
    }
    r
}

/// Gives some rows of the batch the identifier of a recent one, so that a merge finds them in
/// its target: `numerator` in `denominator` of them on average. Which rows these are, and which
/// identifiers they get, is left to chance.
pub fn reuse_recent_ids(
    batch: &mut SampleBatch,
    recent: &Vec<String>,
    numerator: u32,
    denominator: u32,
    rng: &mut rand::rngs::StdRng,
)
    requires
        0 < denominator,
        numerator <= denominator,
    ensures
        exists|picks: Seq<Option<usize>>|
            {
                &&& possible_picks(
                    picks,
                    old(batch).event_ids@.len(),
                    recent@.len(),
                    numerator,
                    denominator,
                )
                &&& #[trigger] ids_reused(*old(batch), recent@, picks, *final(batch))
            },
{
    let picks = pick_ids(batch.event_ids.len(), recent.len(), numerator, denominator, rng);
    reuse_ids(batch, recent, &picks);
    assert(ids_reused(*old(batch), recent@, picks@, *batch));
}

// ---------------------------------------------------------------------------
// What the rows are for
// ---------------------------------------------------------------------------

/// A recent time is not in the future, not as far back as the spread, and whole seconds ago.
pub proof fn lemma_recent(t: i64, now: i64, spread: i64)
    ensures
        recent(t, now, spread) <==> t <= now && now - t < spread * 1_000_000 && (now - t)
            % 1_000_000 == 0,
{
    if recent(t, now, spread) {
        let s = choose|s: int| 0 <= s < spread && t == now - #[trigger] (s * 1_000_000);
        assert((s * 1_000_000) % 1_000_000 == 0);
    }
    if t <= now && now - t < spread * 1_000_000 && (now - t) % 1_000_000 == 0 {
        let s = (now - t) / 1_000_000;
        assert(t == now - (s * 1_000_000));
    }
}

/// An account is the word `acct`, a hyphen and eight digits.
pub proof fn lemma_account(s: Seq<char>)
    requires
        is_account(s),
    ensures
        s.len() == 13,
        s.take(5) == "acct-"@,
        text::decimal_value(s.skip(5)) <= 99_999_998,
        forall|i: int| 5 <= i < 13 ==> '0' <= #[trigger] s[i] <= '9',
{
    let n = choose|n: nat|
        n <= MAX_ACCOUNT && s == "acct-"@ + #[trigger] text::decimal_padded(n, 8);
    reveal_strlit("acct-");
    text::lemma_decimal_padded(n, 8);
    text::lemma_decimal_length(n, 8);
    assert(vstd::arithmetic::power::pow(10, 8) == 100_000_000) by {
        reveal_with_fuel(vstd::arithmetic::power::pow, 9);
    }
    let digits = text::decimal_padded(n, 8);
    assert forall|i: int| 5 <= i < 13 implies '0' <= #[trigger] s[i] <= '9' by {
        assert(s[i] == digits[i - 5]);
    }
    assert(s.take(5) =~= "acct-"@);
    assert(s.skip(5) =~= digits);
}

/// A value that is picked from a list that begins with one option and goes on with others is that
/// option or picked from the others.
pub proof fn lemma_picked(
    v: Seq<&'static str>,
    rows: nat,
    first: Seq<char>,
    others: Seq<Seq<char>>,
    i: int,
)
    requires
        picked(v, rows, seq![first] + others),
        0 <= i < rows,
    ensures
        v.len() == rows,
        v[i]@ == first || others.contains(v[i]@),
{
    let all = seq![first] + others;
    let k = choose|k: int| 0 <= k < all.len() && all[k] == v[i]@;
    if k > 0 {
        assert(others[k - 1] == v[i]@);
    }
}

/// A batch has a value in every column of every row. Its rows look back on the last hour, their
/// amounts are below five thousand, and all have the number of the batch.
pub proof fn lemma_batch_rows(b: SampleBatch, rows: nat, batch_id: i32, now: i64, i: int)
    requires
        b.is_batch(rows, batch_id, now),
        0 <= i < rows,
    ensures
        b.event_ids@.len() == rows && b.account_ids@.len() == rows && b.timestamps@.len() == rows,
        b.event_types@.len() == rows && b.categories@.len() == rows && b.products@.len() == rows,
        b.amounts@.len() == rows && b.currencies@.len() == rows && b.eligible@.len() == rows,
        b.regions@.len() == rows && b.statuses@.len() == rows && b.batch_ids@.len() == rows,
        random::is_uuid(b.event_ids@[i]@),
        b.account_ids@[i]@.len() == 13,
        now - 3_600_000_000 < b.timestamps@[i] <= now,
        1_000 <= b.amounts@[i] < 50_000_000,
        b.batch_ids@[i] == batch_id,
{
    assert(is_account(b.account_ids@[i]@));
    lemma_account(b.account_ids@[i]@);
    lemma_recent(b.timestamps@[i], now, DEMO_SPREAD_SECS);
}

/// A row keeps its identifier or gets a recent one, no other column changes, and nothing is picked
/// where there is no recent identifier.
pub proof fn lemma_reused_ids(
    old: SampleBatch,
    recent: Seq<String>,
    picks: Seq<Option<usize>>,
    numerator: u32,
    denominator: u32,
    new: SampleBatch,
    i: int,
)
    requires
        possible_picks(picks, old.event_ids@.len(), recent.len(), numerator, denominator),
        ids_reused(old, recent, picks, new),
        0 <= i < old.event_ids@.len(),
    ensures
        new.event_ids@.len() == old.event_ids@.len(),
        new.event_ids@[i] == old.event_ids@[i] || recent.contains(new.event_ids@[i]),
        recent.len() == 0 || numerator == 0 ==> new.event_ids@[i] == old.event_ids@[i],
        recent.len() > 0 && numerator == denominator ==> recent.contains(new.event_ids@[i]),
        new.account_ids == old.account_ids && new.timestamps == old.timestamps,
        new.event_types == old.event_types && new.categories == old.categories,
        new.products == old.products && new.amounts == old.amounts,
        new.currencies == old.currencies && new.eligible == old.eligible,
        new.regions == old.regions && new.statuses == old.statuses,
        new.batch_ids == old.batch_ids,
{
    assert(new.event_ids@[i] == (match picks[i] {
        Some(k) => recent[k as int],
        None => old.event_ids@[i],
    }));
    if let Some(k) = picks[i] {
        assert(recent[k as int] == new.event_ids@[i]);
    }
}

} // verus!
