//! The dashboard's requests: what they change and how they are answered.

use vstd::prelude::*;

use crate::state;
use crate::state::{ConfigSnapshot, LogBuffer, LogLine, TunableConfig};
use crate::text;

verus! {

// ---------------------------------------------------------------------------
// Tunables
// ---------------------------------------------------------------------------

/// The least value that a request can give a threshold.
pub const MIN_TUNABLE: u64 = 1_000;

/// The greatest value that a request can give a threshold.
pub const MAX_TUNABLE: u64 = 10_000_000;

/// New thresholds; those that are not given stay as they are.
#[derive(Debug, Clone, Copy, PartialEq, Eq, Structural)]
pub struct ConfigUpdate {
    pub chunk_target_rows: Option<u64>,
    pub merge_threshold_rows: Option<u64>,
    pub split_threshold_rows: Option<u64>,
}

/// A threshold after a request for `requested`: as near to it as is allowed, or as before.
pub open spec fn tuned(current: u64, requested: Option<u64>) -> u64 {
    match requested {
        Some(v) => if v < MIN_TUNABLE {
            MIN_TUNABLE
        } else if v > MAX_TUNABLE {
            MAX_TUNABLE
        } else {
            v
        },
        None => current,
    }
}

fn tune(current: u64, requested: Option<u64>) -> (r: u64)
    ensures
        r == tuned(current, requested),
{
    match requested {
        Some(v) => if v < MIN_TUNABLE {
            MIN_TUNABLE
        } else if v > MAX_TUNABLE {
            MAX_TUNABLE
        } else {
            v
        },
        None => current,
    }
}

/// Whether `new` is `old` after the request: each threshold is set as the request asks for it.
pub open spec fn config_updated(old: TunableConfig, req: ConfigUpdate, new: TunableConfig) -> bool {
    &&& new.chunk_target_rows == tuned(old.chunk_target_rows, req.chunk_target_rows)
    &&& new.merge_threshold_rows == tuned(old.merge_threshold_rows, req.merge_threshold_rows)
    &&& new.split_threshold_rows == tuned(old.split_threshold_rows, req.split_threshold_rows)
}

/// A threshold that a request does not give stays as it is, whatever else it gives; one that it
/// gives within the limits is as it gives it.
pub proof fn lemma_config_updated(old: TunableConfig, req: ConfigUpdate, new: TunableConfig, v: u64)
    requires
        config_updated(old, req, new),
        1_000 <= v <= 10_000_000,
    ensures
        req.chunk_target_rows is None ==> new.chunk_target_rows == old.chunk_target_rows,
        req.merge_threshold_rows is None ==> new.merge_threshold_rows == old.merge_threshold_rows,
        req.split_threshold_rows is None ==> new.split_threshold_rows == old.split_threshold_rows,
        req.chunk_target_rows == Some(v) ==> new.chunk_target_rows == v,
        req.merge_threshold_rows == Some(v) ==> new.merge_threshold_rows == v,
        req.split_threshold_rows == Some(v) ==> new.split_threshold_rows == v,
{
}

/// Sets the thresholds that are given and answers with all of them.
pub fn update_config(config: &mut TunableConfig, req: &ConfigUpdate) -> (r: ConfigSnapshot)
    ensures
        config_updated(*old(config), *req, *final(config)),
        r.chunk_target_rows == final(config).chunk_target_rows,
        r.merge_threshold_rows == final(config).merge_threshold_rows,
        r.split_threshold_rows == final(config).split_threshold_rows,
{
    config.chunk_target_rows = tune(config.chunk_target_rows, req.chunk_target_rows);
    config.merge_threshold_rows = tune(config.merge_threshold_rows, req.merge_threshold_rows);
    config.split_threshold_rows = tune(config.split_threshold_rows, req.split_threshold_rows);
    config.snapshot()
}

/// A threshold that is requested ends up within the limits, at the request itself where that is
/// within them; to request it again changes nothing more.
pub proof fn lemma_tuned_within_limits(current: u64, v: u64)
    ensures
        MIN_TUNABLE <= tuned(current, Some(v)) <= MAX_TUNABLE,
        MIN_TUNABLE <= v <= MAX_TUNABLE ==> tuned(current, Some(v)) == v,
        tuned(tuned(current, Some(v)), Some(v)) == tuned(current, Some(v)),
        tuned(current, None) == current,
{
}

// ---------------------------------------------------------------------------
// Commands
// ---------------------------------------------------------------------------

/// The status codes of answers.
pub const BAD_REQUEST: u16 = 400;

pub const CONFLICT: u16 = 409;

pub const INTERNAL_SERVER_ERROR: u16 = 500;

pub const SERVICE_UNAVAILABLE: u16 = 503;

/// What became of a command to start or to stop a job.
#[derive(Debug, Clone, PartialEq, Eq)]
pub enum CommandOutcome {
    /// There is no controller for such jobs; this is its name.
    NotEnabled(String),
    /// The command could not be sent.
    SendFailed(String),
    /// No answer came.
    ReceiveFailed(String),
    /// The controller refused.
    Refused(String),
    /// The controller did it.
    Done,
}

/// An answer that is not a success: a status code and a text.
#[derive(Debug, Clone, PartialEq, Eq)]
pub struct ErrorReply {
    pub status: u16,
    pub text: String,
}

/// Whether `reply` answers `outcome`, where a refusal is answered with `refused`.
pub open spec fn answers(
    outcome: CommandOutcome,
    refused: u16,
    reply: Result<(), ErrorReply>,
) -> bool {
    match outcome {
        CommandOutcome::Done => reply is Ok,
        CommandOutcome::NotEnabled(name) => reply matches Err(e) && e.status == SERVICE_UNAVAILABLE
            && e.text@ == name@ + " controller not enabled"@,
        CommandOutcome::SendFailed(why) => reply matches Err(e) && e.status
            == INTERNAL_SERVER_ERROR && e.text@ == "send failed: "@ + why@,
        CommandOutcome::ReceiveFailed(why) => reply matches Err(e) && e.status
            == INTERNAL_SERVER_ERROR && e.text@ == "recv failed: "@ + why@,
        CommandOutcome::Refused(why) => reply matches Err(e) && e.status == refused && e.text
            == why,
    }
}

fn answer(outcome: CommandOutcome, refused: u16) -> (r: Result<(), ErrorReply>)
    ensures
        answers(outcome, refused, r),
{
    match outcome {
        CommandOutcome::Done => Ok(()),
        CommandOutcome::NotEnabled(name) => {
            let mut text = name;
            text.append(" controller not enabled");
            Err(ErrorReply { status: SERVICE_UNAVAILABLE, text })
        },
        CommandOutcome::SendFailed(why) => {
            let mut text = "send failed: ".to_string();
            text.append(why.as_str());
            Err(ErrorReply { status: INTERNAL_SERVER_ERROR, text })
        },
        CommandOutcome::ReceiveFailed(why) => {
            let mut text = "recv failed: ".to_string();
            text.append(why.as_str());
            Err(ErrorReply { status: INTERNAL_SERVER_ERROR, text })
        },
        CommandOutcome::Refused(why) => Err(ErrorReply { status: refused, text: why }),
    }
}

/// Whether `reply` answers a request to start a job. One that is refused conflicts with what is
/// running.
pub open spec fn start_answered(outcome: CommandOutcome, reply: Result<(), ErrorReply>) -> bool {
    answers(outcome, CONFLICT, reply)
}

/// Whether `reply` answers a request to stop a job. One that is refused makes no sense.
pub open spec fn stop_answered(outcome: CommandOutcome, reply: Result<(), ErrorReply>) -> bool {
    answers(outcome, BAD_REQUEST, reply)
}

/// A refused start is answered with 409 and a refused stop with 400, both with the reason; what the
/// controller did is answered with success.
pub proof fn lemma_refusals(why: String, start: Result<(), ErrorReply>, stop: Result<(), ErrorReply>)
    ensures
        start_answered(CommandOutcome::Refused(why), start) <==> start == Err::<(), ErrorReply>(
            ErrorReply { status: 409, text: why },
        ),
        stop_answered(CommandOutcome::Refused(why), stop) <==> stop == Err::<(), ErrorReply>(
            ErrorReply { status: 400, text: why },
        ),
        start_answered(CommandOutcome::Done, start) <==> start is Ok,
        stop_answered(CommandOutcome::Done, stop) <==> stop is Ok,
{
}

/// The answer to a request to start a job. One that is refused conflicts with what is running.
pub fn answer_start(outcome: CommandOutcome) -> (r: Result<(), ErrorReply>)
    ensures
        start_answered(outcome, r),
{
    answer(outcome, CONFLICT)
}

/// The answer to a request to stop a job. One that is refused makes no sense.
pub fn answer_stop(outcome: CommandOutcome) -> (r: Result<(), ErrorReply>)
    ensures
        stop_answered(outcome, r),
{
    answer(outcome, BAD_REQUEST)
}

// ---------------------------------------------------------------------------
// Inspection
// ---------------------------------------------------------------------------

/// Which table to look at.
#[derive(Debug, Clone, PartialEq, Eq)]
pub struct InspectQuery {
    pub uri: String,
    pub azure_auth: String,
}

/// The Azure authentication method where a query names none.
pub fn default_auth() -> (r: String)
    ensures
        r@ == "auto"@,
{
    "auto".to_string()
}

/// Whether a query can be answered: it has to name a table.
pub fn check_query(q: &InspectQuery) -> (r: Result<(), ErrorReply>)
    ensures
        r is Ok <==> q.uri@.len() > 0,
        r matches Err(e) ==> e.status == BAD_REQUEST && e.text@ == "uri is required"@,
{
    if q.uri.as_str().is_empty() {
        Err(ErrorReply { status: BAD_REQUEST, text: "uri is required".to_string() })
    } else {
        Ok(())
    }
}

/// The answer to a query about a table that could not be looked at.
pub fn answer_failed_inspection(why: String) -> (r: ErrorReply)
    ensures
        r == (ErrorReply { status: BAD_REQUEST, text: why }),
{
    ErrorReply { status: BAD_REQUEST, text: why }
}

// ---------------------------------------------------------------------------
// Tailing the log
// ---------------------------------------------------------------------------

/// How far a reader has followed the log.
#[derive(Debug, Clone, Copy, PartialEq, Eq, Structural)]
pub struct LogTail {
    /// The number of the last line that was sent.
    pub last_seq: u64,
}

impl LogTail {
    /// Begins to follow the log: all lines that it holds are sent first.
    pub fn start(buffer: &LogBuffer) -> (r: (Self, Vec<LogLine>))
        requires
            buffer.valid(),
        ensures
            r.1@ == buffer@,
            r.0.last_seq == buffer.last_seq(),
    {
        (LogTail { last_seq: buffer.newest() }, buffer.snapshot())
    }

    /// The lines that have come since; none of them has been sent before.
    pub fn next_lines(&mut self, buffer: &LogBuffer) -> (r: Vec<LogLine>)
        requires
            buffer.valid(),
            old(self).last_seq <= buffer.last_seq(),
        ensures
            r@ == state::lines_after(buffer@, old(self).last_seq),
            final(self).last_seq == buffer.last_seq(),
    {
        let lines = buffer.since(self.last_seq);
        self.last_seq = buffer.newest();
        lines
    }
}

/// A reader that follows the log gets every line that is logged once and in order, as long as
/// it comes back before the buffer has dropped any of them.
pub proof fn lemma_tail_misses_nothing(buffer: LogBuffer, last_seq: u64, i: int)
    requires
        buffer.valid(),
        last_seq <= buffer.last_seq(),
        buffer.last_seq() - last_seq <= buffer.limit(),
    ensures
        state::lines_after(buffer@, last_seq).len() == buffer.last_seq() - last_seq,
        0 <= i < buffer.last_seq() - last_seq ==> state::lines_after(buffer@, last_seq)[i].seq
            == last_seq + 1 + i,
{
    state::lemma_log_tail(buffer, last_seq);
}

// ---------------------------------------------------------------------------
// What requests are for
// ---------------------------------------------------------------------------

/// A threshold that is asked for is set as it is where it lies between a thousand and ten million,
/// and else to the nearer of these; one that is not asked for is kept. A greater request never
/// sets a smaller threshold.
pub proof fn lemma_tuned(current: u64, v: u64, w: u64)
    ensures
        1_000 <= v <= 10_000_000 ==> tuned(current, Some(v)) == v,
        v < 1_000 ==> tuned(current, Some(v)) == 1_000,
        v > 10_000_000 ==> tuned(current, Some(v)) == 10_000_000,
        tuned(current, None) == current,
        v <= w ==> tuned(current, Some(v)) <= tuned(current, Some(w)),
{
}

/// A command is answered with success exactly where it was carried out. Else the answer tells the
/// reason, and its code whose fault it is: the refusal's own, 503 where there is no controller, and
/// 500 where the controller cannot be reached.
pub proof fn lemma_answers(outcome: CommandOutcome, refused: u16, reply: Result<(), ErrorReply>)
    requires
        answers(outcome, refused, reply),
    ensures
        reply is Ok <==> outcome is Done,
        outcome matches CommandOutcome::Refused(why) ==> reply == Err::<(), ErrorReply>(
            ErrorReply { status: refused, text: why },
        ),
        outcome is NotEnabled ==> reply->Err_0.status == 503,
        outcome is SendFailed || outcome is ReceiveFailed ==> reply->Err_0.status == 500,
        outcome matches CommandOutcome::SendFailed(why) ==> text::occurs_in(
            reply->Err_0.text@,
            why@,
        ),
        outcome matches CommandOutcome::ReceiveFailed(why) ==> text::occurs_in(
            reply->Err_0.text@,
            why@,
        ),
        outcome matches CommandOutcome::NotEnabled(name) ==> text::occurs_in(
            reply->Err_0.text@,
            name@,
        ),
{
    let none = Seq::<char>::empty();
    match outcome {
        CommandOutcome::SendFailed(why) => {
            text::lemma_occurs_within("send failed: "@, why@, none);
            assert("send failed: "@ + why@ + none =~= "send failed: "@ + why@);
        },
        CommandOutcome::ReceiveFailed(why) => {
            text::lemma_occurs_within("recv failed: "@, why@, none);
            assert("recv failed: "@ + why@ + none =~= "recv failed: "@ + why@);
        },
        CommandOutcome::NotEnabled(name) => {
            text::lemma_occurs_within(none, name@, " controller not enabled"@);
            assert(none + name@ =~= name@);
        },
        _ => {},
    }
}

} // verus!
