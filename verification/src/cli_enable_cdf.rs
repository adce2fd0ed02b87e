//! Enabling the change feed of an existing table.
//!
//! Only commits from then on can be replayed as a change feed.

use vstd::prelude::*;

use crate::text;
use crate::util;

verus! {

/// The arguments of the command that enables a change feed.
#[derive(Debug, Clone, PartialEq, Eq)]
pub struct EnableCdfArgs {
    pub uri: String,
    pub azure_auth: String,
}

/// What enabling a change feed did.
#[derive(Debug, Clone, Copy, PartialEq, Eq, Structural)]
pub struct EnableCdfResult {
    /// Whether the feed was enabled before, so that nothing was written.
    pub already_enabled: bool,
    pub starting_version: i64,
    pub new_version: i64,
}

/// What there is to report of a table at `version` before anything is written: that its feed is
/// enabled, where it is. `None` where the feed is to be enabled.
pub fn check_enabled(version: Option<u64>, enabled: bool) -> (r: Option<EnableCdfResult>)
    ensures
        match r {
            Some(res) => {
                &&& enabled
                &&& res.already_enabled
                &&& res.starting_version == util::signed_version(version)
                &&& res.new_version == res.starting_version
            },
            None => !enabled,
        },
{
    if enabled {
        let version = util::version_to_i64(version);
        Some(
            EnableCdfResult {
                already_enabled: true,
                starting_version: version,
                new_version: version,
            },
        )
    } else {
        None
    }
}

/// What there is to report of a table that was at version `before`, once its feed has been enabled
/// in version `after`.
pub fn enabled_result(before: Option<u64>, after: Option<u64>) -> (r: EnableCdfResult)
    ensures
        !r.already_enabled,
        r.starting_version == util::signed_version(before),
        r.new_version == util::signed_version(after),
{
    EnableCdfResult {
        already_enabled: false,
        starting_version: util::version_to_i64(before),
        new_version: util::version_to_i64(after),
    }
}

/// What the user is told.
pub open spec fn report_text(res: EnableCdfResult, millis: u64) -> Seq<Seq<char>> {
    if res.already_enabled {
        seq![
            "delta.enableChangeDataFeed is already true on this table (v"@ + text::decimal_int(
                res.starting_version as int,
            ) + "). No commit written."@,
        ]
    } else {
        seq![
            "Enabled delta.enableChangeDataFeed=true (v"@ + text::decimal_int(
                res.starting_version as int,
            ) + " -> v"@ + text::decimal_int(res.new_version as int) + ", "@ + text::decimal(
                millis as nat,
            ) + "ms)."@,
            "NOTE: CDF replay is only available for commits AT OR AFTER v"@ + text::decimal_int(
                res.new_version as int,
            ) + "; older commits are not replayable as a change feed."@,
        ]
    }
}

/// What the user is told, line by line.
pub fn report(res: &EnableCdfResult, millis: u64) -> (r: Vec<String>)
    ensures
        text::views(r@) == report_text(*res, millis),
{
    let mut r: Vec<String> = Vec::new();
    if res.already_enabled {
        let mut line = "delta.enableChangeDataFeed is already true on this table (v".to_string();
        text::push_i64(&mut line, res.starting_version);
        line.append("). No commit written.");
        r.push(line);
    } else {
        let mut line = "Enabled delta.enableChangeDataFeed=true (v".to_string();
        text::push_i64(&mut line, res.starting_version);
        line.append(" -> v");
        text::push_i64(&mut line, res.new_version);
        line.append(", ");
        text::push_u64(&mut line, millis);
        line.append("ms).");
        r.push(line);
        let mut note = "NOTE: CDF replay is only available for commits AT OR AFTER v".to_string();
        text::push_i64(&mut note, res.new_version);
        note.append("; older commits are not replayable as a change feed.");
        r.push(note);
    }
    assert(text::views(r@) =~= report_text(*res, millis));
    r
}

/// The user is told of the version from which on changes can be replayed exactly where the feed
/// was enabled just now.
pub proof fn lemma_report(res: EnableCdfResult, millis: u64)
    ensures
        report_text(res, millis).len() == 1 <==> res.already_enabled,
        report_text(res, millis).len() == 2 <==> !res.already_enabled,
        res.already_enabled ==> text::occurs_in(
            report_text(res, millis)[0],
            text::decimal_int(res.starting_version as int),
        ),
        !res.already_enabled ==> text::occurs_in(
            report_text(res, millis)[1],
            text::decimal_int(res.new_version as int),
        ),
        !res.already_enabled ==> text::occurs_in(
            report_text(res, millis)[0],
            text::decimal_int(res.starting_version as int) + " -> v"@ + text::decimal_int(
                res.new_version as int,
            ),
        ),
{
    let a = text::decimal_int(res.starting_version as int);
    let b = text::decimal_int(res.new_version as int);
    if res.already_enabled {
        text::lemma_occurs_within(
            "delta.enableChangeDataFeed is already true on this table (v"@,
            a,
            "). No commit written."@,
        );
    } else {
        text::lemma_occurs_within(
            "NOTE: CDF replay is only available for commits AT OR AFTER v"@,
            b,
            "; older commits are not replayable as a change feed."@,
        );
        let first = "Enabled delta.enableChangeDataFeed=true (v"@;
        let last = ", "@ + text::decimal(millis as nat) + "ms)."@;
        text::lemma_occurs_within(first, a + " -> v"@ + b, last);
        assert(first + (a + " -> v"@ + b) + last =~= report_text(res, millis)[0]);
    }
}

} // verus!
