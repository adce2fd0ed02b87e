//! Azure Event Hubs as a source: positions, received events, and batches of them.
//!
//! Events of all partitions are collected into batches with six columns: the partition, the
//! offset, the sequence number, the time at which the event was enqueued, the body as text, in
//! which what is not valid UTF-8 is replaced, and the properties as JSON.

use vstd::prelude::*;

use crate::text;

verus! {

// ---------------------------------------------------------------------------
// Configuration
// ---------------------------------------------------------------------------

/// Where reading starts in a partition for which there is no checkpoint.
#[derive(Debug, Clone, Copy, PartialEq, Eq, Structural)]
pub enum InitialPosition {
    /// With the oldest event.
    Earliest,
    /// Behind the newest event.
    Latest,
}

/// Why an Event Hub cannot be read.
#[derive(Debug, Clone, PartialEq, Eq)]
pub enum EventHubError {
    /// There is no such position.
    InvalidPosition { position: String },
    /// The hub has no partitions.
    NoPartitions { event_hub: String },
}

impl EventHubError {
    /// The message that the user is shown.
    pub open spec fn text(&self) -> Seq<char> {
        match self {
            EventHubError::InvalidPosition { position } => "invalid initial position '"@ + position@
                + "': expected 'earliest' or 'latest'"@,
            EventHubError::NoPartitions { event_hub } => "no partitions discovered for "@
                + event_hub@,
        }
    }

    /// The message that the user is shown.
    pub fn message(&self) -> (r: String)
        ensures
            r@ == self.text(),
    {
        match self {
            EventHubError::InvalidPosition { position } => {
                let mut r = "invalid initial position '".to_string();
                r.append(position.as_str());
                r.append("': expected 'earliest' or 'latest'");
                r
            },
            EventHubError::NoPartitions { event_hub } => {
                let mut r = "no partitions discovered for ".to_string();
                r.append(event_hub.as_str());
                r
            },
        }
    }
}

/// The position that the normalised text `s` names, if any.
pub open spec fn position_of(s: Seq<char>) -> Option<InitialPosition> {
    if s == ""@ || s == "latest"@ || s == "newest"@ {
        Some(InitialPosition::Latest)
    } else if s == "earliest"@ || s == "oldest"@ || s == "beginning"@ {
        Some(InitialPosition::Earliest)
    } else {
        None
    }
}

impl InitialPosition {
    /// The position that `s` names. White space around it and its case do not matter; nothing
    /// stands for the latest.
    pub fn parse(s: &str) -> (r: Result<Self, EventHubError>)
        ensures
            match position_of(text::lower(text::trimmed(s@))) {
                Some(position) => r == Ok::<Self, EventHubError>(position),
                None => r matches Err(EventHubError::InvalidPosition { position }) && position@
                    == text::lower(text::trimmed(s@)),
            },
    {
        let name = text::to_lower(text::trim(s).as_str());
        let n = name.as_str();
        if text::same_text(n, "") || text::same_text(n, "latest") || text::same_text(n, "newest") {
            Ok(InitialPosition::Latest)
        } else if text::same_text(n, "earliest") || text::same_text(n, "oldest")
            || text::same_text(n, "beginning") {
            Ok(InitialPosition::Earliest)
        } else {
            Err(EventHubError::InvalidPosition { position: name })
        }
    }
}

/// Which Event Hub is read, and how.
#[derive(Debug, Clone)]
pub struct EventHubSourceConfig {
    /// The host of the namespace.
    pub namespace: String,
    pub event_hub: String,
    pub consumer_group: String,
    /// Where to start in a partition for which there is no checkpoint.
    pub initial_position: InitialPosition,
    /// The most events in a batch.
    pub max_events_per_batch: usize,
    /// A batch is closed after this time even where it is not full.
    pub batch_timeout_secs: u64,
    /// The partitions to read; all of them where there is no list.
    pub partitions: Option<Vec<String>>,
    /// The number of events that are fetched ahead per partition.
    pub prefetch: u32,
}

/// What identifies the checkpoints of a consumer group of a hub in a namespace.
pub open spec fn signature(namespace: Seq<char>, hub: Seq<char>, group: Seq<char>) -> Seq<char> {
    "eh:"@ + namespace + "|"@ + hub + "|"@ + group
}

/// The number of events that may wait to be collected into batches of at most `max` events.
pub open spec fn waiting_events(max: usize) -> usize {
    if max < 1024 {
        1024
    } else if max > 100_000 {
        100_000
    } else {
        max
    }
}

/// The number of events that are fetched ahead where `prefetch` is configured.
pub open spec fn fetched_ahead(prefetch: u32) -> u32 {
    if prefetch < 1 {
        1
    } else {
        prefetch
    }
}

/// The partitions to read: those listed, else those discovered.
pub open spec fn chosen_partitions(listed: Option<Vec<String>>, discovered: Seq<String>) -> Seq<
    String,
> {
    match listed {
        Some(listed) => listed@,
        None => discovered,
    }
}

/// As many events may wait as a batch holds, unless that is below 1024 or above a hundred thousand;
/// then the nearer of these may. One event at least is fetched ahead, and else as many as are
/// configured.
pub proof fn lemma_events_ahead(max: usize, more: usize, prefetch: u32)
    requires
        max <= more,
    ensures
        1024 <= waiting_events(max) <= 100_000,
        waiting_events(max) <= waiting_events(more),
        1024 <= max <= 100_000 ==> waiting_events(max) == max,
        fetched_ahead(0) == 1,
        prefetch > 0 ==> fetched_ahead(prefetch) == prefetch,
{
}

/// A list of partitions is read as it is, whatever is discovered; without one, all that are
/// discovered are read.
pub proof fn lemma_chosen_partitions(listed: Vec<String>, discovered: Seq<String>)
    ensures
        chosen_partitions(Some(listed), discovered) == listed@,
        chosen_partitions(None, discovered) == discovered,
{
}

impl EventHubSourceConfig {
    /// What identifies the checkpoints of this source.
    pub fn checkpoint_signature(&self) -> (r: String)
        ensures
            r@ == signature(self.namespace@, self.event_hub@, self.consumer_group@),
    {
        let mut r = "eh:".to_string();
        r.append(self.namespace.as_str());
        r.append("|");
        r.append(self.event_hub.as_str());
        r.append("|");
        r.append(self.consumer_group.as_str());
        r
    }

    /// The consumer group to ask for; none where it is blank, which stands for the default.
    pub fn named_consumer_group(&self) -> (r: Option<String>)
        ensures
            r == (if text::trimmed(self.consumer_group@).len() > 0 {
                Some(self.consumer_group)
            } else {
                None
            }),
    {
        if text::trim(self.consumer_group.as_str()).as_str().is_empty() {
            None
        } else {
            Some(self.consumer_group.clone())
        }
    }

    /// The number of events that may wait to be collected: that of a batch, but at least 1024
    /// and at most 100,000.
    pub fn channel_capacity(&self) -> (r: usize)
        ensures
            r == waiting_events(self.max_events_per_batch),
    {
        if self.max_events_per_batch < 1024 {
            1024
        } else if self.max_events_per_batch > 100_000 {
            100_000
        } else {
            self.max_events_per_batch
        }
    }

    /// The number of events that are fetched ahead per partition, at least one.
    pub fn prefetch_count(&self) -> (r: u32)
        ensures
            r == fetched_ahead(self.prefetch),
    {
        if self.prefetch < 1 {
            1
        } else {
            self.prefetch
        }
    }

    /// The partitions to read: those listed, else those discovered.
    pub fn partitions_to_read(&self, discovered: Vec<String>) -> (r: Result<
        Vec<String>,
        EventHubError,
    >)
        ensures
            ({
                let all = chosen_partitions(self.partitions, discovered@);
                match r {
                    Ok(partitions) => partitions@ == all && all.len() > 0,
                    Err(e) => all.len() == 0 && e == (EventHubError::NoPartitions {
                        event_hub: self.event_hub,
                    }),
                }
            }),
    {
        let partitions = match &self.partitions {
            Some(listed) => text::copy_strings(listed),
            None => discovered,
        };
        if partitions.len() == 0 {
            Err(EventHubError::NoPartitions { event_hub: self.event_hub.clone() })
        } else {
            Ok(partitions)
        }
    }

    /// What a failed check of the source is reported about.
    pub fn preflight_context(&self) -> (r: String)
        ensures
            r@ == "eventhub preflight "@ + self.namespace@ + "/"@ + self.event_hub@,
    {
        let mut r = "eventhub preflight ".to_string();
        r.append(self.namespace.as_str());
        r.append("/");
        r.append(self.event_hub.as_str());
        r
    }
}

/// Checkpoints are not shared by different sources: to change the namespace, the hub or the
/// consumer group alone changes the signature.
pub proof fn lemma_signature_tells_each_part(
    namespace: Seq<char>,
    hub: Seq<char>,
    group: Seq<char>,
    other: Seq<char>,
)
    ensures
        signature(other, hub, group) == signature(namespace, hub, group) ==> other == namespace,
        signature(namespace, other, group) == signature(namespace, hub, group) ==> other == hub,
        signature(namespace, hub, other) == signature(namespace, hub, group) ==> other == group,
{
    let s = signature(namespace, hub, group);
    let a = "eh:"@.len() as int;
    let bar = "|"@.len() as int;
    let n = namespace.len() as int;
    let h = hub.len() as int;
    if signature(other, hub, group) == s {
        assert(signature(other, hub, group).subrange(a, a + other.len()) =~= other);
        assert(s.subrange(a, a + n) =~= namespace);
        assert(other.len() == n) by {
            assert(signature(other, hub, group).len() == s.len());
        }
    }
    if signature(namespace, other, group) == s {
        let at = a + n + bar;
        assert(signature(namespace, other, group).len() == s.len());
        assert(signature(namespace, other, group).subrange(at, at + other.len()) =~= other);
        assert(s.subrange(at, at + h) =~= hub);
    }
    if signature(namespace, hub, other) == s {
        let at = a + n + bar + h + bar;
        assert(signature(namespace, hub, other).skip(at) =~= other);
        assert(s.skip(at) =~= group);
    }
}

/// Where neither namespace nor hub holds a bar, the signature tells all three parts.
pub proof fn lemma_signature_injective(
    n1: Seq<char>,
    h1: Seq<char>,
    g1: Seq<char>,
    n2: Seq<char>,
    h2: Seq<char>,
    g2: Seq<char>,
)
    requires
        !n1.contains('|'),
        !h1.contains('|'),
        !n2.contains('|'),
        !h2.contains('|'),
        signature(n1, h1, g1) == signature(n2, h2, g2),
    ensures
        n1 == n2,
        h1 == h2,
        g1 == g2,
{
    reveal_strlit("|");
    let s1 = signature(n1, h1, g1);
    let s2 = signature(n2, h2, g2);
    let a = "eh:"@.len() as int;
    let p1 = a + n1.len();
    let p2 = a + n2.len();
    assert(s1[p1] == '|' && s2[p2] == '|');
    if p1 < p2 {
        assert(s2[p1] == n2[p1 - a]);
        assert(n2.contains('|'));
    }
    if p2 < p1 {
        assert(s1[p2] == n1[p2 - a]);
        assert(n1.contains('|'));
    }
    assert(s1.subrange(a, p1) =~= n1);
    assert(s2.subrange(a, p2) =~= n2);
    let q1 = p1 + 1 + h1.len();
    let q2 = p2 + 1 + h2.len();
    assert(s1[q1] == '|' && s2[q2] == '|');
    if q1 < q2 {
        assert(s2[q1] == h2[q1 - p2 - 1]);
        assert(h2.contains('|'));
    }
    if q2 < q1 {
        assert(s1[q2] == h1[q2 - p1 - 1]);
        assert(h1.contains('|'));
    }
    assert(s1.subrange(p1 + 1, q1) =~= h1);
    assert(s2.subrange(p2 + 1, q2) =~= h2);
    assert(s1.skip(q1 + 1) =~= g1);
    assert(s2.skip(q2 + 1) =~= g2);
}

// ---------------------------------------------------------------------------
// Namespaces
// ---------------------------------------------------------------------------

/// `s` without the first of the known schemes that it begins with.
pub open spec fn without_scheme(s: Seq<char>) -> Seq<char> {
    if text::begins_with(s, "amqps://"@) {
        s.skip("amqps://"@.len() as int)
    } else if text::begins_with(s, "sb://"@) {
        s.skip("sb://"@.len() as int)
    } else if text::begins_with(s, "https://"@) {
        s.skip("https://"@.len() as int)
    } else if text::begins_with(s, "http://"@) {
        s.skip("http://"@.len() as int)
    } else {
        s
    }
}

/// `s` up to its last `c`; all of it where there is none.
pub open spec fn before_last(s: Seq<char>, c: char) -> Seq<char>
    decreases s.len(),
{
    if s.len() == 0 || !s.contains(c) {
        s
    } else if s.last() == c {
        s.drop_last()
    } else {
        before_last(s.drop_last(), c)
    }
}

proof fn lemma_before_last(s: Seq<char>, c: char, k: int)
    requires
        0 <= k < s.len(),
        s[k] == c,
        forall|j: int| k < j < s.len() ==> s[j] != c,
    ensures
        before_last(s, c) == s.take(k),
    decreases s.len(),
{
    if k < s.len() - 1 {
        assert(s.drop_last()[k] == c);
        lemma_before_last(s.drop_last(), c, k);
        assert(s.drop_last().take(k) =~= s.take(k));
    } else {
        assert(s.drop_last() =~= s.take(k));
    }
}

/// The host in a namespace that the user typed: without white space, scheme, path and port.
pub open spec fn namespace_host(raw: Seq<char>) -> Seq<char> {
    text::trimmed(before_last(text::pieces(without_scheme(text::trimmed(raw)), '/')[0], ':'))
}

/// `s` without `prefix`, where it begins with it.
fn strip_prefix(s: &str, prefix: &str) -> (r: Option<String>)
    ensures
        match r {
            Some(rest) => text::begins_with(s@, prefix@) && rest@ == s@.skip(prefix@.len() as int),
            None => !text::begins_with(s@, prefix@),
        },
{
    if text::starts_with(s, prefix) {
        let cs = text::chars_of(s);
        let k: usize = text::chars_of(prefix).len();
        assert(cs@.subrange(k as int, cs@.len() as int) =~= s@.skip(k as int));
        Some(text::string_of(&cs, k, cs.len()))
    } else {
        None
    }
}

/// `s` up to its last `c`; all of it where there is none.
fn cut_at_last(s: &str, c: char) -> (r: String)
    ensures
        r@ == before_last(s@, c),
{
    let cs = text::chars_of(s);
    let mut k: usize = cs.len();
    while k > 0
        invariant
            k <= cs.len(),
            cs@ == s@,
            forall|j: int| k <= j < cs.len() ==> cs@[j] != c,
        decreases k,
    {
        if cs[k - 1] == c {
            proof {
                let at = k - 1;
                lemma_before_last(s@, c, at);
                assert(cs@.subrange(0, at) =~= s@.take(at));
            }
            return text::string_of(&cs, 0, k - 1);
        }
        k -= 1;
    }
    assert(!s@.contains(c));
    s.to_string()
}

/// The host in a namespace that the user typed: without white space, scheme, path and port.
pub fn sanitize_namespace(raw: &str) -> (r: String)
    ensures
        r@ == namespace_host(raw@),
{
    let s = text::trim(raw);
    let rest = match strip_prefix(s.as_str(), "amqps://") {
        Some(rest) => rest,
        None => match strip_prefix(s.as_str(), "sb://") {
            Some(rest) => rest,
            None => match strip_prefix(s.as_str(), "https://") {
                Some(rest) => rest,
                None => match strip_prefix(s.as_str(), "http://") {
                    Some(rest) => rest,
                    None => s,
                },
            },
        },
    };
    let parts = text::split(rest.as_str(), '/');
    proof {
        text::lemma_pieces_nonempty(rest@, '/');
        assert(text::views(parts@)[0] == parts@[0]@);
    }
    text::trim(cut_at_last(parts[0].as_str(), ':').as_str())
}

// ---------------------------------------------------------------------------
// Start positions
// ---------------------------------------------------------------------------

/// The last sequence number that was seen in a partition.
#[derive(Debug, Clone, PartialEq, Eq)]
pub struct PartitionSeq {
    pub partition: String,
    pub sequence: i64,
}

/// Where reading starts in a partition.
#[derive(Debug, Clone, Copy, PartialEq, Eq, Structural)]
pub enum StartAt {
    Earliest,
    Latest,
    /// Behind this sequence number.
    After(i64),
}

/// The sequence number of a partition in a checkpoint, if it has one.
pub open spec fn sequence_of(seqs: Seq<PartitionSeq>, partition: Seq<char>) -> Option<i64>
    decreases seqs.len(),
{
    if seqs.len() == 0 {
        None
    } else if seqs.first().partition@ == partition {
        Some(seqs.first().sequence)
    } else {
        sequence_of(seqs.drop_first(), partition)
    }
}

proof fn lemma_sequence_of(seqs: Seq<PartitionSeq>, partition: Seq<char>, k: int)
    requires
        0 <= k <= seqs.len(),
        forall|j: int| 0 <= j < k ==> (#[trigger] seqs[j]).partition@ != partition,
        k < seqs.len() ==> seqs[k].partition@ == partition,
    ensures
        sequence_of(seqs, partition) == (if k < seqs.len() {
            Some(seqs[k].sequence)
        } else {
            None
        }),
    decreases k,
{
    if k > 0 {
        let rest = seqs.drop_first();
        assert forall|j: int| 0 <= j < k - 1 implies (#[trigger] rest[j]).partition@
            != partition by {
            assert(rest[j] == seqs[j + 1]);
        }
        lemma_sequence_of(rest, partition, k - 1);
    }
}

/// The place of a partition in a checkpoint, or the length of the checkpoint.
fn find_partition(seqs: &Vec<PartitionSeq>, partition: &str) -> (k: usize)
    ensures
        k <= seqs.len(),
        forall|j: int| 0 <= j < k ==> (#[trigger] seqs@[j]).partition@ != partition@,
        k < seqs.len() ==> seqs@[k as int].partition@ == partition@,
        sequence_of(seqs@, partition@) == (if k < seqs.len() {
            Some(seqs@[k as int].sequence)
        } else {
            None
        }),
{
    let n: usize = seqs.len();
    let mut k: usize = 0;
    while k < n && !text::same_text(seqs[k].partition.as_str(), partition)
        invariant
            k <= n,
            n == seqs.len(),
            forall|j: int| 0 <= j < k ==> (#[trigger] seqs@[j]).partition@ != partition@,
        decreases n - k,
    {
        k += 1;
    }
    proof {
        lemma_sequence_of(seqs@, partition@, k as int);
    }
    k
}

/// Where reading starts in a partition: behind what the checkpoint has of it, else at the
/// configured position.
pub open spec fn start_in(
    partition: Seq<char>,
    resume_from: Seq<PartitionSeq>,
    fallback: InitialPosition,
) -> StartAt {
    match sequence_of(resume_from, partition) {
        Some(sequence) => StartAt::After(sequence),
        None => match fallback {
            InitialPosition::Earliest => StartAt::Earliest,
            InitialPosition::Latest => StartAt::Latest,
        },
    }
}

/// Where reading starts in a partition: behind what the checkpoint has of it, else at the
/// configured position.
pub fn start_position_for(
    partition: &str,
    resume_from: &Vec<PartitionSeq>,
    fallback: InitialPosition,
) -> (r: StartAt)
    ensures
        r == start_in(partition@, resume_from@, fallback),
{
    let k = find_partition(resume_from, partition);
    if k < resume_from.len() {
        StartAt::After(resume_from[k].sequence)
    } else {
        match fallback {
            InitialPosition::Earliest => StartAt::Earliest,
            InitialPosition::Latest => StartAt::Latest,
        }
    }
}

// ---------------------------------------------------------------------------
// Events
// ---------------------------------------------------------------------------

/// What a receiver of a partition brought.
#[derive(Debug, Clone, Copy, PartialEq, Eq, Structural)]
pub enum Received {
    Event,
    Error,
    /// The partition has ended.
    Ended,
    /// Nothing came in time.
    TimedOut,
}

/// What the reader of a partition does next.
#[derive(Debug, Clone, Copy, PartialEq, Eq, Structural)]
pub enum ReaderStep {
    /// Hand the event on.
    Deliver,
    /// Wait for the next event.
    Again,
    /// End.
    Stop,
}

/// What the reader of a partition does with what was received.
pub open spec fn step_after(received: Received) -> ReaderStep {
    match received {
        Received::Event => ReaderStep::Deliver,
        Received::Ended => ReaderStep::Stop,
        Received::Error | Received::TimedOut => ReaderStep::Again,
    }
}

/// Every event is delivered and nothing else is, and only the end of a partition ends its reader.
pub proof fn lemma_step_after(received: Received)
    ensures
        step_after(received) is Deliver <==> received is Event,
        step_after(received) is Stop <==> received is Ended,
{
}

/// What the reader of a partition does with what was received.
pub fn reader_step(received: Received) -> (r: ReaderStep)
    ensures
        r == step_after(received),
{
    match received {
        Received::Event => ReaderStep::Deliver,
        Received::Ended => ReaderStep::Stop,
        Received::Error => ReaderStep::Again,
        Received::TimedOut => ReaderStep::Again,
    }
}

/// An event as it was received.
#[derive(Debug, Clone)]
pub struct ReceivedEvent {
    pub offset: Option<String>,
    pub sequence_number: Option<i64>,
    /// Microseconds from 1970 to when the event was enqueued; none where that is not known or
    /// was earlier.
    pub enqueued_micros: Option<u128>,
    pub body: Option<Vec<u8>>,
    /// Names and shown values of the properties, where the event has any.
    pub properties: Option<Vec<(String, String)>>,
}

/// An event as a row.
#[derive(Debug, PartialEq, Eq)]
pub struct EventRow {
    pub partition_id: String,
    pub offset: Option<String>,
    pub sequence_number: i64,
    pub enqueued_us: Option<i64>,
    pub body: String,
    pub properties: Option<String>,
}

/// A time in microseconds since 1970, where it can be stored.
pub open spec fn stored_time(micros: Option<u128>) -> Option<i64> {
    match micros {
        Some(us) => if us <= i64::MAX {
            Some(us as i64)
        } else {
            None
        },
        None => None,
    }
}

/// Whether the row tells of the event where it stands in the partition: its offset, its sequence
/// number, -1 where it has none, and when it was enqueued.
pub open spec fn is_placed(partition_id: Seq<char>, event: ReceivedEvent, row: EventRow) -> bool {
    &&& row.partition_id@ == partition_id
    &&& row.offset == event.offset
    &&& row.sequence_number == (match event.sequence_number {
        Some(n) => n,
        None => -1i64,
    })
    &&& row.enqueued_us == stored_time(event.enqueued_micros)
}

/// A row keeps what is known of its event, and what is not known or cannot be stored is told from
/// it.
pub proof fn lemma_row_tells_event(
    partition_id: Seq<char>,
    event: ReceivedEvent,
    row: EventRow,
    n: i64,
    us: u128,
)
    requires
        is_placed(partition_id, event, row),
    ensures
        row.partition_id@ == partition_id,
        row.offset == event.offset,
        event.sequence_number == Some(n) ==> row.sequence_number == n,
        event.sequence_number is None ==> row.sequence_number == -1,
        event.enqueued_micros == Some(us) && us < 0x8000_0000_0000_0000 ==> (
        row.enqueued_us matches Some(t) && t == us),
        row.enqueued_us matches Some(t) ==> event.enqueued_micros matches Some(m) && m == t,
{
}

/// A time in microseconds since 1970, where it can be stored.
pub fn system_time_to_us(micros: Option<u128>) -> (r: Option<i64>)
    ensures
        r == stored_time(micros),
{
    match micros {
        Some(us) => if us <= i64::MAX as u128 {
            Some(us as i64)
        } else {
            None
        },
        None => None,
    }
}

/// The text of bytes in which what is not valid UTF-8 is replaced.
pub uninterp spec fn lossy_text(bytes: Seq<u8>) -> Seq<char>;

/// Calls `String::from_utf8_lossy`. Claimed is that the text depends on the bytes alone, and
/// that it is their text where they are valid UTF-8.
#[verifier::external_body]
fn decode_lossy(bytes: &Vec<u8>) -> (r: String)
    ensures
        r@ == lossy_text(bytes@),
        vstd::utf8::valid_utf8(bytes@) ==> r@ == vstd::utf8::decode_utf8(bytes@),
{
    String::from_utf8_lossy(bytes).into_owned()
}

/// Names and values as character sequences.
pub open spec fn pair_views(pairs: Seq<(String, String)>) -> Seq<(Seq<char>, Seq<char>)> {
    Seq::new(pairs.len(), |i: int| (pairs[i].0@, pairs[i].1@))
}

/// The JSON text of an object with these members, each a string.
pub uninterp spec fn json_object(members: Seq<(Seq<char>, Seq<char>)>) -> Seq<char>;

/// Calls `serde_json::Map::from_iter` on the members as `Value::String` and writes the object
/// as text. Claimed is that the text depends on the members alone.
#[verifier::external_body]
fn write_json_object(members: &Vec<(String, String)>) -> (r: String)
    ensures
        r@ == json_object(pair_views(members@)),
{
    let object: serde_json::Map<String, serde_json::Value> = members.iter().map(
        |m| (m.0.clone(), serde_json::Value::String(m.1.clone())),
    ).collect();
    serde_json::Value::Object(object).to_string()
}

/// The row of an event whose body reads `body` and whose properties read `properties`.
pub fn event_row(
    partition_id: &str,
    event: &ReceivedEvent,
    body: String,
    properties: Option<String>,
) -> (r: EventRow)
    ensures
        is_placed(partition_id@, *event, r),
        r.body == body,
        r.properties == properties,
{
    EventRow {
        partition_id: partition_id.to_string(),
        offset: text::copy_option(&event.offset),
        sequence_number: match event.sequence_number {
            Some(n) => n,
            None => -1,
        },
        enqueued_us: system_time_to_us(event.enqueued_micros),
        body,
        properties,
    }
}

/// The row of an event of a partition. An event without a body has an empty one, and one
/// without a sequence number has -1.
pub fn received_to_row(partition_id: &str, event: &ReceivedEvent) -> (r: EventRow)
    ensures
        is_placed(partition_id@, *event, r),
        r.body@ == (match event.body {
            Some(bytes) => lossy_text(bytes@),
            None => Seq::empty(),
        }),
        event.body matches Some(bytes) ==> vstd::utf8::valid_utf8(bytes@) ==> r.body@
            == vstd::utf8::decode_utf8(bytes@),
        match event.properties {
            Some(pairs) => r.properties matches Some(json) && json@ == json_object(
                pair_views(pairs@),
            ),
            None => r.properties is None,
        },
{
    let body = match &event.body {
        Some(bytes) => decode_lossy(bytes),
        None => String::new(),
    };
    let properties = match &event.properties {
        Some(pairs) => Some(write_json_object(pairs)),
        None => None,
    };
    event_row(partition_id, event, body, properties)
}

// ---------------------------------------------------------------------------
// Batches
// ---------------------------------------------------------------------------

/// The type of a column of a batch of events.
#[derive(Debug, Clone, Copy, PartialEq, Eq, Structural)]
pub enum EventColumnType {
    Utf8,
    Int64,
    /// Microseconds since 1970 in UTC.
    TimestampMicrosUtc,
}

/// The columns of a batch of events: name, type and whether it may be null.
pub open spec fn event_columns() -> Seq<(Seq<char>, EventColumnType, bool)> {
    seq![
        ("partition_id"@, EventColumnType::Utf8, false),
        ("offset"@, EventColumnType::Utf8, true),
        ("sequence_number"@, EventColumnType::Int64, false),
        ("enqueued_time"@, EventColumnType::TimestampMicrosUtc, true),
        ("body"@, EventColumnType::Utf8, true),
        ("properties"@, EventColumnType::Utf8, true),
    ]
}

/// A column of a batch of events.
#[derive(Debug, Clone, Copy)]
pub struct EventField {
    pub name: &'static str,
    pub column_type: EventColumnType,
    pub nullable: bool,
}

/// The columns of a batch of events.
pub fn event_hub_arrow_schema() -> (r: Vec<EventField>)
    ensures
        r@.len() == event_columns().len(),
        forall|i: int|
            0 <= i < r@.len() ==> ((#[trigger] r@[i]).name@, r@[i].column_type, r@[i].nullable)
                == event_columns()[i],
{
    vec![
        EventField { name: "partition_id", column_type: EventColumnType::Utf8, nullable: false },
        EventField { name: "offset", column_type: EventColumnType::Utf8, nullable: true },
        EventField { name: "sequence_number", column_type: EventColumnType::Int64, nullable: false },
        EventField {
            name: "enqueued_time",
            column_type: EventColumnType::TimestampMicrosUtc,
            nullable: true,
        },
        EventField { name: "body", column_type: EventColumnType::Utf8, nullable: true },
        EventField { name: "properties", column_type: EventColumnType::Utf8, nullable: true },
    ]
}

/// The values of a batch of events, by column.
#[derive(Debug, Clone)]
pub struct EventColumns {
    pub partition_id: Vec<String>,
    pub offset: Vec<Option<String>>,
    pub sequence_number: Vec<i64>,
    pub enqueued_time: Vec<Option<i64>>,
    pub body: Vec<String>,
    pub properties: Vec<Option<String>>,
}

/// Whether `c` holds the rows of `rows`, by column.
pub open spec fn holds_rows(c: EventColumns, rows: Seq<EventRow>) -> bool {
    &&& c.partition_id@ == Seq::new(rows.len(), |i: int| rows[i].partition_id)
    &&& c.offset@ == Seq::new(rows.len(), |i: int| rows[i].offset)
    &&& c.sequence_number@ == Seq::new(rows.len(), |i: int| rows[i].sequence_number)
    &&& c.enqueued_time@ == Seq::new(rows.len(), |i: int| rows[i].enqueued_us)
    &&& c.body@ == Seq::new(rows.len(), |i: int| rows[i].body)
    &&& c.properties@ == Seq::new(rows.len(), |i: int| rows[i].properties)
}

/// The rows, by column.
pub fn build_record_batch(rows: &Vec<EventRow>) -> (r: EventColumns)
    ensures
        holds_rows(r, rows@),
{
    let mut r = EventColumns {
        partition_id: Vec::new(),
        offset: Vec::new(),
        sequence_number: Vec::new(),
        enqueued_time: Vec::new(),
        body: Vec::new(),
        properties: Vec::new(),
    };
    let n: usize = rows.len();
    proof {
        let none = rows@.take(0);
        assert(r.partition_id@ =~= Seq::new(none.len(), |j: int| none[j].partition_id));
        assert(r.offset@ =~= Seq::new(none.len(), |j: int| none[j].offset));
        assert(r.sequence_number@ =~= Seq::new(none.len(), |j: int| none[j].sequence_number));
        assert(r.enqueued_time@ =~= Seq::new(none.len(), |j: int| none[j].enqueued_us));
        assert(r.body@ =~= Seq::new(none.len(), |j: int| none[j].body));
        assert(r.properties@ =~= Seq::new(none.len(), |j: int| none[j].properties));
    }
    for i in 0..n
        invariant
            n == rows.len(),
            holds_rows(r, rows@.take(i as int)),
    {
        let row = &rows[i];
        r.partition_id.push(row.partition_id.clone());
        r.offset.push(text::copy_option(&row.offset));
        r.sequence_number.push(row.sequence_number);
        r.enqueued_time.push(row.enqueued_us);
        r.body.push(row.body.clone());
        r.properties.push(text::copy_option(&row.properties));
        proof {
            let next = rows@.take(i + 1);
            assert(forall|j: int| 0 <= j < i ==> next[j] == rows@.take(i as int)[j]);
            assert(r.partition_id@ =~= Seq::new(next.len(), |j: int| next[j].partition_id));
            assert(r.offset@ =~= Seq::new(next.len(), |j: int| next[j].offset));
            assert(r.sequence_number@ =~= Seq::new(next.len(), |j: int| next[j].sequence_number));
            assert(r.enqueued_time@ =~= Seq::new(next.len(), |j: int| next[j].enqueued_us));
            assert(r.body@ =~= Seq::new(next.len(), |j: int| next[j].body));
            assert(r.properties@ =~= Seq::new(next.len(), |j: int| next[j].properties));
        }
    }
    assert(rows@.take(n as int) =~= rows@);
    r
}

/// Whether `best` is the largest sequence number among the rows of a partition.
pub open spec fn is_largest(rows: Seq<EventRow>, partition: Seq<char>, best: Option<i64>) -> bool {
    match best {
        Some(m) => {
            &&& exists|i: int|
                0 <= i < rows.len() && (#[trigger] rows[i]).partition_id@ == partition
                    && rows[i].sequence_number == m
            &&& forall|i: int|
                0 <= i < rows.len() && (#[trigger] rows[i]).partition_id@ == partition
                    ==> rows[i].sequence_number <= m
        },
        None => forall|i: int|
            0 <= i < rows.len() ==> (#[trigger] rows[i]).partition_id@ != partition,
    }
}

/// A batch of events.
#[derive(Debug, Clone)]
pub struct EventHubBatch {
    pub columns: EventColumns,
    pub row_count: u64,
    /// The largest sequence number of each partition that has events in the batch.
    pub latest_seq_by_partition: Vec<PartitionSeq>,
}

/// A batch that is being collected.
#[derive(Debug)]
pub struct BatchCollector {
    rows: Vec<EventRow>,
    latest: Vec<PartitionSeq>,
}

/// Whether `latest` has the largest sequence number of every partition.
pub open spec fn tells_latest(latest: Seq<PartitionSeq>, rows: Seq<EventRow>) -> bool {
    forall|p: Seq<char>| is_largest(rows, p, #[trigger] sequence_of(latest, p))
}

/// Whether `latest` has no partition twice.
pub open spec fn distinct_partitions(latest: Seq<PartitionSeq>) -> bool {
    forall|i: int, j: int|
        0 <= i < j < latest.len() ==> (#[trigger] latest[i]).partition@ != (
        #[trigger] latest[j]).partition@
}

/// What was waited for while a batch was being collected.
#[derive(Debug, Clone, Copy, PartialEq, Eq, Structural)]
pub enum CollectEvent {
    /// A row was taken in, which filled the batch where `full`.
    Row { full: bool },
    /// All partitions have ended.
    Ended,
    /// The time of the batch is up.
    TimedOut,
}

/// Whether to wait for another row after `event`.
pub open spec fn goes_on(event: CollectEvent, cancelled: bool) -> bool {
    event == (CollectEvent::Row { full: false }) && !cancelled
}

/// A batch is closed where it is full, its time is up, the partitions have ended or the source is
/// cancelled, and by nothing else.
pub proof fn lemma_batch_closes(event: CollectEvent, cancelled: bool)
    ensures
        !goes_on(event, cancelled) <==> cancelled || event is TimedOut || event is Ended || (
        event matches CollectEvent::Row { full } && full),
{
}

/// Whether to wait for another row after `event`.
pub fn collects_on(event: CollectEvent, cancelled: bool) -> (r: bool)
    ensures
        r == goes_on(event, cancelled),
{
    match event {
        CollectEvent::Row { full } => !full && !cancelled,
        CollectEvent::Ended => false,
        CollectEvent::TimedOut => false,
    }
}

impl BatchCollector {
    /// The rows that have been taken in.
    pub closed spec fn rows(&self) -> Seq<EventRow> {
        self.rows@
    }

    /// The largest sequence number of each partition is known, each once.
    pub closed spec fn valid(&self) -> bool {
        &&& tells_latest(self.latest@, self.rows@)
        &&& distinct_partitions(self.latest@)
    }

    /// An empty batch.
    pub fn new() -> (r: Self)
        ensures
            r.valid(),
            r.rows() == Seq::<EventRow>::empty(),
    {
        BatchCollector { rows: Vec::new(), latest: Vec::new() }
    }

    /// Takes in a row. Gives whether the batch is then full, where it holds at most `max_events`
    /// rows.
    pub fn push(&mut self, row: EventRow, max_events: usize) -> (full: bool)
        requires
            old(self).valid(),
        ensures
            final(self).valid(),
            final(self).rows() == old(self).rows().push(row),
            full == (final(self).rows().len() >= max_events),
    {
        let k = find_partition(&self.latest, row.partition_id.as_str());
        let sequence: i64 = row.sequence_number;
        let ghost before = self.latest@;
        let ghost partition = row.partition_id@;
        let ghost new_row = row;
        if k < self.latest.len() {
            if sequence > self.latest[k].sequence {
                let entry = PartitionSeq { partition: row.partition_id.clone(), sequence };
                self.latest.set(k, entry);
            }
        } else {
            self.latest.push(PartitionSeq { partition: row.partition_id.clone(), sequence });
        }
        self.rows.push(row);
        proof {
            let rows = old(self).rows@;
            let latest = self.latest@;
            let now = rows.push(new_row);
            assert(self.rows@ == now);
            assert forall|p: Seq<char>| is_largest(now, p, #[trigger] sequence_of(latest, p)) by {
                assert(is_largest(rows, p, sequence_of(before, p)));
                lemma_latest_after(before, latest, k as int, partition, sequence, p);
                lemma_largest_after(rows, new_row, p, sequence_of(before, p), sequence_of(
                    latest,
                    p,
                ));
            }
        }
        self.rows.len() >= max_events
    }

    /// The batch that was collected; `None` where no row came.
    pub fn finish(self) -> (r: Option<EventHubBatch>)
        requires
            self.valid(),
        ensures
            match r {
                Some(batch) => {
                    &&& self.rows().len() > 0
                    &&& holds_rows(batch.columns, self.rows())
                    &&& batch.row_count == self.rows().len()
                    &&& tells_latest(batch.latest_seq_by_partition@, self.rows())
                    &&& distinct_partitions(batch.latest_seq_by_partition@)
                },
                None => self.rows().len() == 0,
            },
    {
        if self.rows.len() == 0 {
            return None;
        }
        let columns = build_record_batch(&self.rows);
        Some(
            EventHubBatch {
                columns,
                row_count: self.rows.len() as u64,
                latest_seq_by_partition: self.latest,
            },
        )
    }
}

/// What the known sequence numbers are after one of partition `partition` has been taken in at
/// place `k`.
proof fn lemma_latest_after(
    before: Seq<PartitionSeq>,
    after: Seq<PartitionSeq>,
    k: int,
    partition: Seq<char>,
    sequence: i64,
    p: Seq<char>,
)
    requires
        0 <= k <= before.len(),
        forall|j: int| 0 <= j < k ==> (#[trigger] before[j]).partition@ != partition,
        k < before.len() ==> before[k].partition@ == partition,
        after.len() == (if k < before.len() {
            before.len()
        } else {
            before.len() + 1
        }),
        forall|j: int| 0 <= j < after.len() && j != k ==> #[trigger] after[j] == before[j],
        after[k].partition@ == partition,
        after[k].sequence == (if k < before.len() && before[k].sequence >= sequence {
            before[k].sequence
        } else {
            sequence
        }),
    ensures
        sequence_of(after, p) == (if p == partition {
            Some(
                if k < before.len() && before[k].sequence >= sequence {
                    before[k].sequence
                } else {
                    sequence
                },
            )
        } else {
            sequence_of(before, p)
        }),
        p == partition ==> sequence_of(before, p) == (if k < before.len() {
            Some(before[k].sequence)
        } else {
            None
        }),
{
    if p == partition {
        lemma_sequence_of(before, p, k);
        assert forall|j: int| 0 <= j < k implies (#[trigger] after[j]).partition@ != p by {
            assert(after[j] == before[j]);
        }
        lemma_sequence_of(after, p, k);
    } else {
        let m = first_place(before, p, 0);
        lemma_first_place(before, p, 0);
        lemma_sequence_of(before, p, m);
        assert forall|j: int| 0 <= j < m implies (#[trigger] after[j]).partition@ != p by {
            if j != k {
                assert(after[j] == before[j]);
            }
        }
        if m < before.len() {
            assert(after[m] == before[m]);
            lemma_sequence_of(after, p, m);
        } else {
            assert forall|j: int| 0 <= j < after.len() implies (#[trigger] after[j]).partition@
                != p by {
                if j != k {
                    assert(after[j] == before[j]);
                }
            }
            lemma_sequence_of(after, p, after.len() as int);
        }
    }
}

spec fn first_place(seqs: Seq<PartitionSeq>, p: Seq<char>, k: int) -> int
    decreases seqs.len() - k,
{
    if k < 0 || k >= seqs.len() || seqs[k].partition@ == p {
        k
    } else {
        first_place(seqs, p, k + 1)
    }
}

proof fn lemma_first_place(seqs: Seq<PartitionSeq>, p: Seq<char>, k: int)
    requires
        0 <= k <= seqs.len(),
    ensures
        ({
            let m = first_place(seqs, p, k);
            &&& k <= m <= seqs.len()
            &&& forall|j: int| k <= j < m ==> (#[trigger] seqs[j]).partition@ != p
            &&& m < seqs.len() ==> seqs[m].partition@ == p
        }),
    decreases seqs.len() - k,
{
    if k < seqs.len() && seqs[k].partition@ != p {
        lemma_first_place(seqs, p, k + 1);
    }
}

proof fn lemma_largest_after(
    rows: Seq<EventRow>,
    row: EventRow,
    p: Seq<char>,
    before: Option<i64>,
    after: Option<i64>,
)
    requires
        is_largest(rows, p, before),
        after == (if p == row.partition_id@ {
            match before {
                Some(m) => if m >= row.sequence_number {
                    Some(m)
                } else {
                    Some(row.sequence_number)
                },
                None => Some(row.sequence_number),
            }
        } else {
            before
        }),
    ensures
        is_largest(rows.push(row), p, after),
{
    let now = rows.push(row);
    assert(now[rows.len() as int] == row);
    if let Some(m) = before {
        let i = choose|i: int|
            0 <= i < rows.len() && (#[trigger] rows[i]).partition_id@ == p
                && rows[i].sequence_number == m;
        assert(now[i] == rows[i]);
    }
    assert(forall|i: int| 0 <= i < rows.len() ==> now[i] == rows[i]);
}

/// A source that goes on from the sequence numbers of a batch starts, in every partition that
/// has events in it, behind all of them; any other partition starts at the configured position.
pub proof fn lemma_resume_behind_batch(
    rows: Seq<EventRow>,
    latest: Seq<PartitionSeq>,
    p: Seq<char>,
)
    requires
        tells_latest(latest, rows),
    ensures
        match sequence_of(latest, p) {
            Some(m) => forall|i: int|
                0 <= i < rows.len() && (#[trigger] rows[i]).partition_id@ == p
                    ==> rows[i].sequence_number <= m,
            None => forall|i: int|
                0 <= i < rows.len() ==> (#[trigger] rows[i]).partition_id@ != p,
        },
{
    assert(is_largest(rows, p, sequence_of(latest, p)));
}

// ---------------------------------------------------------------------------
// What positions, hosts and batches are for
// ---------------------------------------------------------------------------

/// A position has a name of its own, and every other text but nothing names none.
pub proof fn lemma_position_by_name(s: Seq<char>)
    ensures
        position_of(s) == Some(InitialPosition::Latest) <==> s.len() == 0 || s == "latest"@ || s
            == "newest"@,
        position_of(s) == Some(InitialPosition::Earliest) <==> s == "earliest"@ || s == "oldest"@
            || s == "beginning"@,
{
    reveal_strlit("");
    reveal_strlit("latest");
    reveal_strlit("newest");
    reveal_strlit("earliest");
    reveal_strlit("oldest");
    reveal_strlit("beginning");
    if s.len() == 0 {
        assert(s =~= ""@);
    }
    assert("latest"@[0] == 'l' && "newest"@[0] == 'n' && "oldest"@[0] == 'o');
    assert("earliest"@[0] == 'e' && "beginning"@[0] == 'b');
}

/// The host of a namespace is found whatever stands around it: a scheme that is known, a port and
/// a path.
pub proof fn lemma_host_of_namespace(
    raw: Seq<char>,
    scheme: Seq<char>,
    host: Seq<char>,
    port: Seq<char>,
    path: Seq<char>,
)
    requires
        scheme.len() == 0 || scheme == "amqps://"@ || scheme == "sb://"@ || scheme == "https://"@
            || scheme == "http://"@,
        !host.contains(':'),
        !host.contains('/'),
        text::trimmed(host) == host,
        port.len() > 1 && port[0] == ':' && !port.skip(1).contains(':') && !port.contains('/')
            || port.len() == 0,
        path.len() > 0 && path[0] == '/' || path.len() == 0,
        text::trimmed(raw) == scheme + host + port + path,
    ensures
        namespace_host(raw) == host,
{
    let middle = host + port;
    let t = middle + path;
    let s = text::trimmed(raw);
    assert(s =~= scheme + t);
    assert(without_scheme(s) == t) by {
        reveal_strlit("amqps://");
        reveal_strlit("sb://");
        reveal_strlit("https://");
        reveal_strlit("http://");
        if scheme.len() == 0 {
            assert(s =~= t);
            lemma_no_scheme(host, port, path, "amqps://"@, 5);
            lemma_no_scheme(host, port, path, "sb://"@, 2);
            lemma_no_scheme(host, port, path, "https://"@, 5);
            lemma_no_scheme(host, port, path, "http://"@, 4);
        } else {
            let n = scheme.len() as int;
            assert(s.take(n) =~= scheme);
            assert(s.skip(n) =~= t);
            assert(forall|i: int| 0 <= i < n ==> s[i] == scheme[i]);
            if scheme != "amqps://"@ {
                assert(s[0] != 'a');
                assert(s.len() >= 8 ==> s.take(8)[0] == s[0]);
                assert(!text::begins_with(s, "amqps://"@));
                if scheme != "sb://"@ {
                    assert(s.take(5)[0] == s[0]);
                    assert(!text::begins_with(s, "sb://"@));
                    if scheme != "https://"@ {
                        assert(s[4] == ':');
                        assert(s.len() >= 8 ==> s.take(8)[4] == s[4]);
                        assert(!text::begins_with(s, "https://"@));
                    }
                }
            }
        }
    }
    assert(!middle.contains('/')) by {
        assert(forall|i: int| 0 <= i < host.len() ==> middle[i] == host[i]);
        assert(forall|i: int| host.len() <= i < middle.len() ==> middle[i] == port[i - host.len()]);
    }
    assert(text::pieces(t, '/')[0] == middle) by {
        if path.len() == 0 {
            assert(t =~= middle);
            text::lemma_one_piece(middle, '/');
        } else {
            assert(t =~= middle.push('/') + path.skip(1));
            text::lemma_first_piece(middle, path.skip(1), '/');
        }
    }
    assert(before_last(middle, ':') == host) by {
        let k = host.len() as int;
        if port.len() == 0 {
            assert(middle =~= host);
        } else {
            assert(middle[k] == ':');
            assert forall|j: int| k < j < middle.len() implies middle[j] != ':' by {
                assert(port.skip(1)[j - k - 1] == middle[j]);
            }
            lemma_before_last(middle, ':', k);
            assert(middle.take(k) =~= host);
        }
    }
}

proof fn lemma_no_scheme(
    host: Seq<char>,
    port: Seq<char>,
    path: Seq<char>,
    scheme: Seq<char>,
    colon: int,
)
    requires
        !host.contains(':'),
        port.len() > 1 && port[0] == ':' && !port.contains('/') || port.len() == 0,
        path.len() > 0 && path[0] == '/' || path.len() == 0,
        0 <= colon,
        scheme.len() == colon + 3,
        scheme[colon] == ':' && scheme[colon + 1] == '/',
        forall|i: int| 0 <= i < colon ==> scheme[i] != ':' && scheme[i] != '/',
    ensures
        !text::begins_with(host + port + path, scheme),
{
    let t = host + port + path;
    if text::begins_with(t, scheme) {
        let h = host.len() as int;
        assert(forall|i: int| 0 <= i < scheme.len() ==> t.take(scheme.len() as int)[i] == t[i]);
        assert(t[colon] == ':' && t[colon + 1] == '/');
        if colon < h {
            assert(host[colon] == ':');
        } else if port.len() == 0 {
            assert(t[h] == path[0]);
            if h < colon {
                assert(scheme[h] == '/');
            }
        } else {
            assert(t[h] == port[0]);
            if h < colon {
                assert(scheme[h] == ':');
            }
            assert(t[h + 1] == port[1]);
        }
    }
}

/// A partition that a checkpoint holds is read from behind the sequence number that stands there,
/// wherever reading would start else. One that it does not hold starts where it was configured.
pub proof fn lemma_reading_goes_on(
    resume_from: Seq<PartitionSeq>,
    partition: Seq<char>,
    fallback: InitialPosition,
    k: int,
)
    ensures
        0 <= k < resume_from.len() && resume_from[k].partition@ == partition && (forall|j: int|
            0 <= j < k ==> (#[trigger] resume_from[j]).partition@ != partition) ==> start_in(
            partition,
            resume_from,
            fallback,
        ) == StartAt::After(resume_from[k].sequence),
        (forall|j: int|
            0 <= j < resume_from.len() ==> (#[trigger] resume_from[j]).partition@ != partition)
            ==> start_in(partition, resume_from, fallback) == (if fallback
            == InitialPosition::Earliest {
            StartAt::Earliest
        } else {
            StartAt::Latest
        }),
{
    if 0 <= k < resume_from.len() && resume_from[k].partition@ == partition && (forall|j: int|
        0 <= j < k ==> (#[trigger] resume_from[j]).partition@ != partition) {
        lemma_sequence_of(resume_from, partition, k);
    }
    if forall|j: int|
        0 <= j < resume_from.len() ==> (#[trigger] resume_from[j]).partition@ != partition {
        lemma_sequence_of(resume_from, partition, resume_from.len() as int);
    }
}

/// A source that goes on from the sequence numbers of a batch misses no event and reads none
/// twice: in every partition of the batch it starts behind an event of the batch, and no event of
/// the batch is behind that one.
pub proof fn lemma_reading_goes_on_behind_batch(
    rows: Seq<EventRow>,
    latest: Seq<PartitionSeq>,
    fallback: InitialPosition,
    k: int,
) -> (last: int)
    requires
        tells_latest(latest, rows),
        0 <= k < rows.len(),
    ensures
        0 <= last < rows.len(),
        rows[last].partition_id@ == rows[k].partition_id@,
        start_in(rows[k].partition_id@, latest, fallback) == StartAt::After(
            rows[last].sequence_number,
        ),
        rows[k].sequence_number <= rows[last].sequence_number,
{
    let p = rows[k].partition_id@;
    assert(is_largest(rows, p, sequence_of(latest, p)));
    let m = sequence_of(latest, p)->Some_0;
    choose|i: int|
        0 <= i < rows.len() && (#[trigger] rows[i]).partition_id@ == p && rows[i].sequence_number
            == m
}

/// Every column of a batch has a value for every row, in the order of the rows.
pub proof fn lemma_batch_holds_rows(c: EventColumns, rows: Seq<EventRow>, i: int)
    requires
        holds_rows(c, rows),
    ensures
        c.partition_id@.len() == rows.len(),
        c.offset@.len() == rows.len(),
        c.sequence_number@.len() == rows.len(),
        c.enqueued_time@.len() == rows.len(),
        c.body@.len() == rows.len(),
        c.properties@.len() == rows.len(),
        0 <= i < rows.len() ==> rows[i] == (EventRow {
            partition_id: c.partition_id@[i],
            offset: c.offset@[i],
            sequence_number: c.sequence_number@[i],
            enqueued_us: c.enqueued_time@[i],
            body: c.body@[i],
            properties: c.properties@[i],
        }),
{
}

/// The columns of a batch of events are six; what tells an event from the others is never null.
pub proof fn lemma_event_columns(i: int)
    ensures
        event_columns().len() == 6,
        0 <= i < 6 ==> (event_columns()[i].2 <==> i != 0 && i != 2),
        event_columns()[0] == ("partition_id"@, EventColumnType::Utf8, false),
        event_columns()[2] == ("sequence_number"@, EventColumnType::Int64, false),
        event_columns()[3].1 == EventColumnType::TimestampMicrosUtc,
        i == 1 || i == 4 || i == 5 ==> event_columns()[i].1 == EventColumnType::Utf8,
{
}

/// A partition stands in a checkpoint once at most, so that there is one place to go on from: it is
/// found wherever it stands.
pub proof fn lemma_partition_stands_once(
    latest: Seq<PartitionSeq>,
    i: int,
    j: int,
    fallback: InitialPosition,
)
    requires
        distinct_partitions(latest),
        0 <= i < latest.len(),
        0 <= j < latest.len(),
    ensures
        latest[i].partition@ == latest[j].partition@ <==> i == j,
        start_in(latest[i].partition@, latest, fallback) == StartAt::After(latest[i].sequence),
{
    let p = latest[i].partition@;
    assert forall|k: int| 0 <= k < i implies (#[trigger] latest[k]).partition@ != p by {
        assert(latest[k].partition@ != latest[i].partition@);
    }
    lemma_sequence_of(latest, p, i);
}

} // verus!
