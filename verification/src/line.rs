//! The sampling tool's line format.
//!
//! A line is matched against [`LINE_PATTERN`] by the `regex` crate; what the
//! match captured is then checked and turned into a [`Reading`] here.

use vstd::prelude::*;
use regex::Regex;
use crate::decimal::{decimal_u32, is_measurement, is_measurement_text, parse_u32};
use crate::sample::{Reading, ReadingView};

verus! {

/// The layout of one line of the tool's batch output, newline included:
/// thread id, priority, user, read rate, write rate, swap-in share, I/O
/// share and command.
pub const LINE_PATTERN: &'static str =
    "^\\s*(?P<tid>[0-9]+)\\s+(?P<prio>.*?)\\s+(?P<user>.*?)\\s+(?P<disk_read_kb>[0-9.]+) K/s\\s+(?P<disk_write_kb>[0-9.]+) K/s\\s+(?P<swapin_percent>[0-9.]+) %\\s+(?P<io_percent>[0-9.]+) % (?P<command>.*)\\n$";

/// How many groups a match of the line pattern has: the whole match and the
/// eight fields.
pub const GROUP_COUNT: usize = 9;

/// Why a line gave no reading.
#[derive(Clone, Copy, Debug, PartialEq, Eq, Structural)]
pub enum LineError {
    /// The line pattern itself was not accepted.
    Pattern,
    /// The line does not have the layout of the pattern.
    Mismatch,
    /// The match lacks one of the eight fields.
    Shape,
    /// The thread id is no number of 32 bits.
    ThreadId,
    /// One of the four measurements is no decimal number.
    Measurement,
}

/// `regex::Regex`, a compiled expression: carried, never looked into.
#[verifier::external_type_specification]
#[verifier::external_body]
pub struct ExRegex(regex::Regex);

/// `regex::Error`, the reason why a pattern was refused: never looked into.
#[verifier::external_type_specification]
#[verifier::external_body]
pub struct ExRegexError(regex::Error);

/// Whether `regex::Regex::new` accepts `pattern`.
pub uninterp spec fn compiles(pattern: Seq<char>) -> bool;

/// The pattern that `regex::Regex::as_str` reports of an expression: the one
/// it was compiled from.
pub uninterp spec fn source(expression: Regex) -> Seq<char>;

/// What `regex::Regex::captures` finds for an expression in `haystack`:
/// `None` where nothing matches, else the text of every group of the
/// leftmost match, the whole match first, with `None` for a group that took
/// no part in it.
pub uninterp spec fn captures(expression: Regex, haystack: Seq<char>) -> Option<
    Seq<Option<Seq<char>>>,
>;

/// The captured groups as plain text.
pub open spec fn group_views(groups: Seq<Option<String>>) -> Seq<Option<Seq<char>>> {
    groups.map_values(
        |group: Option<String>|
            match group {
                Some(text) => Some(text@),
                None => None,
            },
    )
}

/// Calls `regex::Regex::new`. Trusted: it succeeds exactly on the patterns
/// that [`compiles`] names, and the expression it returns reports `pattern`
/// as its source.
#[verifier::external_body]
fn compile(pattern: &str) -> (compiled: Result<Regex, regex::Error>)
    ensures
        compiled is Ok <==> compiles(pattern@),
        compiled matches Ok(expression) ==> source(expression) == pattern@,
{
    Regex::new(pattern)
}

/// Calls `regex::Regex::captures` and copies the text of each group out of
/// the match. Trusted: what comes back is what [`captures`] names for this
/// expression and haystack.
#[verifier::external_body]
fn find_groups(expression: &Regex, haystack: &str) -> (found: Option<Vec<Option<String>>>)
    ensures
        match found {
            Some(groups) => captures(*expression, haystack@) == Some(group_views(groups@)),
            None => captures(*expression, haystack@) is None,
        },
{
    expression.captures(haystack).map(
        |found| found.iter().map(|group| group.map(|text| text.as_str().to_string())).collect(),
    )
}

/// The reading that the groups of a match stand for, or why they stand for
/// none. Group 0 is the whole match; the fields follow in the order of the
/// line.
pub open spec fn decode(groups: Seq<Option<Seq<char>>>) -> Result<ReadingView, LineError> {
    if groups.len() != GROUP_COUNT || !(forall|i: int|
        1 <= i < GROUP_COUNT ==> (#[trigger] groups[i]) is Some) {
        Err(LineError::Shape)
    } else if decimal_u32(groups[1]->0) is None {
        Err(LineError::ThreadId)
    } else if !(is_measurement(groups[4]->0) && is_measurement(groups[5]->0) && is_measurement(
        groups[6]->0,
    ) && is_measurement(groups[7]->0)) {
        Err(LineError::Measurement)
    } else {
        Ok(
            ReadingView {
                thread_id: decimal_u32(groups[1]->0)->0 as nat,
                priority: groups[2]->0,
                user: groups[3]->0,
                disk_read_rate: groups[4]->0,
                disk_write_rate: groups[5]->0,
                swap_in_percent: groups[6]->0,
                io_percent: groups[7]->0,
                command: groups[8]->0,
            },
        )
    }
}

/// What matching a line yields, given what the expression found in it.
pub open spec fn line_outcome(found: Option<Seq<Option<Seq<char>>>>) -> Result<
    ReadingView,
    LineError,
> {
    match found {
        Some(groups) => decode(groups),
        None => Err(LineError::Mismatch),
    }
}

/// The value of a parse result.
pub open spec fn outcome_view(outcome: Result<Reading, LineError>) -> Result<
    ReadingView,
    LineError,
> {
    match outcome {
        Ok(reading) => Ok(reading@),
        Err(error) => Err(error),
    }
}

/// The text of group `index`, where the match has it.
fn group_text(groups: &Vec<Option<String>>, index: usize) -> (text: Option<&String>)
    requires
        index < groups@.len(),
    ensures
        match text {
            Some(found) => group_views(groups@)[index as int] == Some(found@),
            None => group_views(groups@)[index as int] is None,
        },
{
    match &groups[index] {
        Some(found) => Some(found),
        None => None,
    }
}

/// Builds the reading that the groups of a match stand for: the thread id
/// is read as a number, the measurements are checked to be decimal numbers
/// and kept as text, the other fields are taken as they are.
pub fn reading_from_groups(groups: &Vec<Option<String>>) -> (outcome: Result<Reading, LineError>)
    ensures
        outcome_view(outcome) == decode(group_views(groups@)),
{
    if groups.len() != GROUP_COUNT {
        return Err(LineError::Shape);
    }
    let mut i: usize = 1;
    while i < GROUP_COUNT
        invariant
            1 <= i <= GROUP_COUNT == groups@.len(),
            forall|k: int| 1 <= k < i ==> (#[trigger] group_views(groups@)[k]) is Some,
        decreases GROUP_COUNT - i,
    {
        if group_text(groups, i).is_none() {
            return Err(LineError::Shape);
        }
        i += 1;
    }
    let thread_id = match parse_u32(group_text(groups, 1).unwrap().as_str()) {
        Some(number) => number,
        None => { return Err(LineError::ThreadId); },
    };
    let priority = group_text(groups, 2).unwrap();
    let user = group_text(groups, 3).unwrap();
    let disk_read_rate = group_text(groups, 4).unwrap();
    let disk_write_rate = group_text(groups, 5).unwrap();
    let swap_in_percent = group_text(groups, 6).unwrap();
    let io_percent = group_text(groups, 7).unwrap();
    let command = group_text(groups, 8).unwrap();
    if !(is_measurement_text(disk_read_rate.as_str()) && is_measurement_text(
        disk_write_rate.as_str(),
    ) && is_measurement_text(swap_in_percent.as_str()) && is_measurement_text(
        io_percent.as_str(),
    )) {
        return Err(LineError::Measurement);
    }
    Ok(
        Reading {
            thread_id,
            priority: priority.clone(),
            user: user.clone(),
            disk_read_rate: disk_read_rate.clone(),
            disk_write_rate: disk_write_rate.clone(),
            swap_in_percent: swap_in_percent.clone(),
            io_percent: io_percent.clone(),
            command: command.clone(),
        },
    )
}

/// The line pattern, compiled once and ready to match lines.
pub struct LineFormat {
    expression: Regex,
}

impl LineFormat {
    #[verifier::type_invariant]
    spec fn holds_line_pattern(self) -> bool {
        source(self.expression) == LINE_PATTERN@
    }

    /// The compiled expression.
    pub closed spec fn expression(self) -> Regex {
        self.expression
    }

    /// What the expression finds in `line`.
    pub open spec fn found(self, line: Seq<char>) -> Option<Seq<Option<Seq<char>>>> {
        captures(self.expression(), line)
    }

    /// Compiles [`LINE_PATTERN`].
    pub fn new() -> (made: Result<LineFormat, LineError>)
        ensures
            made is Ok <==> compiles(LINE_PATTERN@),
            made matches Ok(format) ==> source(format.expression()) == LINE_PATTERN@,
            made matches Err(error) ==> error == LineError::Pattern,
    {
        match compile(LINE_PATTERN) {
            Ok(expression) => Ok(LineFormat { expression }),
            Err(_) => Err(LineError::Pattern),
        }
    }

    /// Reads one line of the tool's output: the reading that the groups
    /// stand for which the expression, compiled from [`LINE_PATTERN`], finds
    /// in the line.
    pub fn parse(&self, line: &str) -> (outcome: Result<Reading, LineError>)
        ensures
            outcome_view(outcome) == line_outcome(self.found(line@)),
            source(self.expression()) == LINE_PATTERN@,
    {
        proof {
            use_type_invariant(self);
        }
        match find_groups(&self.expression, line) {
            Some(groups) => reading_from_groups(&groups),
            None => Err(LineError::Mismatch),
        }
    }
}

} // verus!
