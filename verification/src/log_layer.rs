//! Which events are mirrored into the rolling log, and as what text.

use vstd::prelude::*;

use crate::clock;
use crate::state;
use crate::state::{LogBuffer, LogLine};
use crate::text;

verus! {

/// How important an event is.
#[derive(Debug, Clone, Copy, PartialEq, Eq, Structural)]
pub enum LogLevel {
    Error,
    Warn,
    Info,
    Debug,
    Trace,
}

impl LogLevel {
    /// Whether events of this level are mirrored.
    pub open spec fn is_mirrored(self) -> bool {
        self == LogLevel::Error || self == LogLevel::Warn || self == LogLevel::Info
    }

    /// How a line of the log shows the level.
    pub open spec fn name_text(self) -> Seq<char> {
        match self {
            LogLevel::Error => "ERROR"@,
            LogLevel::Warn => "WARN"@,
            LogLevel::Info => "INFO"@,
            LogLevel::Debug => "DEBUG"@,
            LogLevel::Trace => "TRACE"@,
        }
    }

    /// Whether events of this level are mirrored: the finer ones would flood the log.
    pub fn mirrored(self) -> (r: bool)
        ensures
            r == self.is_mirrored(),
    {
        match self {
            LogLevel::Error => true,
            LogLevel::Warn => true,
            LogLevel::Info => true,
            LogLevel::Debug => false,
            LogLevel::Trace => false,
        }
    }

    /// How a line of the log shows the level.
    pub fn name(self) -> (r: &'static str)
        ensures
            r@ == self.name_text(),
    {
        match self {
            LogLevel::Error => "ERROR",
            LogLevel::Warn => "WARN",
            LogLevel::Info => "INFO",
            LogLevel::Debug => "DEBUG",
            LogLevel::Trace => "TRACE",
        }
    }
}

/// The text of an event, made from its fields.
#[derive(Debug)]
pub struct MessageVisitor {
    pub out: String,
}

/// The text with another field: the message as it is, any other with its name, and with a space
/// before it where it is not the first.
pub open spec fn with_field(out: Seq<char>, name: Seq<char>, value: Seq<char>) -> Seq<char> {
    if name == "message"@ {
        out + value
    } else if out.len() > 0 {
        out + " "@ + name + "="@ + value
    } else {
        name + "="@ + value
    }
}

impl MessageVisitor {
    /// No field yet.
    pub fn new() -> (r: Self)
        ensures
            r.out@ == Seq::<char>::empty(),
    {
        MessageVisitor { out: String::new() }
    }

    /// Takes in a field, with its value as it is shown.
    pub fn record(&mut self, name: &str, value: &str)
        ensures
            final(self).out@ == with_field(old(self).out@, name@, value@),
    {
        if text::same_text(name, "message") {
            self.out.append(value);
        } else {
            if !self.out.as_str().is_empty() {
                self.out.append(" ");
            }
            self.out.append(name);
            self.out.append("=");
            self.out.append(value);
        }
        assert(self.out@ =~= with_field(old(self).out@, name@, value@));
    }
}

/// Mirrors an event into the log, where its level is one of those mirrored and it has a text.
/// Gives whether it did.
pub fn on_event(buffer: &mut LogBuffer, level: LogLevel, target: &str, visitor: MessageVisitor) -> (r:
    bool)
    requires
        old(buffer).valid(),
        old(buffer).last_seq() < u64::MAX,
    ensures
        final(buffer).valid(),
        final(buffer).limit() == old(buffer).limit(),
        r == (level.is_mirrored() && visitor.out@.len() > 0),
        !r ==> *final(buffer) == *old(buffer),
        r ==> final(buffer).last_seq() == old(buffer).last_seq() + 1 && exists|line: LogLine|
            {
                &&& #[trigger] state::is_line(
                    line,
                    final(buffer).last_seq(),
                    line.ts,
                    level.name_text(),
                    target@,
                    visitor.out,
                )
                &&& clock::time_of_day_millis(line.ts@)
                &&& final(buffer)@ == state::logged(old(buffer)@, line, old(buffer).limit())
            },
{
    if !level.mirrored() || visitor.out.as_str().is_empty() {
        return false;
    }
    buffer.push(level.name(), target, visitor.out);
    true
}

/// What is worse than a level that is mirrored is mirrored too, and the two finest are not.
pub proof fn lemma_mirrored(level: LogLevel)
    ensures
        level.is_mirrored() <==> level != LogLevel::Debug && level != LogLevel::Trace,
{
}

/// The text of an event ends with the field that came last, begins with what came before it, and
/// holds the message without a name.
pub proof fn lemma_field_is_shown(out: Seq<char>, name: Seq<char>, value: Seq<char>)
    ensures
        with_field(out, name, value).take(out.len() as int) == out,
        name == "message"@ ==> with_field(out, name, value).skip(out.len() as int) == value,
        name != "message"@ && out.len() == 0 ==> with_field(out, name, value) == name + "="@ + value,
        name != "message"@ && out.len() > 0 ==> with_field(out, name, value).skip(
            out.len() as int,
        ) == " "@ + name + "="@ + value,
{
    let all = with_field(out, name, value);
    let n = out.len() as int;
    if name == "message"@ {
        assert(all.skip(n) =~= value);
    } else if out.len() > 0 {
        assert(all.skip(n) =~= " "@ + name + "="@ + value);
    }
    assert(all.take(n) =~= out);
}

} // verus!
