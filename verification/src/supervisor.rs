//! The decisions of the session supervisor: when a session ends and why.
//!
//! The supervisor works in rounds. In each round it first looks whether the
//! audio callbacks still run, and ends the session if one has stalled. Only
//! then it reads the operator's pending lines, oldest first, up to and
//! including the first that is a command; that command ends the session.
//! Lines behind it stay pending.

use crate::sample::Scalar;
use crate::telemetry::is_stalled;
use crate::telemetry::SharedData;
use vstd::prelude::*;
use vstd::string::StringSliceAdditionalSpecFns;

verus! {

/// Why a session ended.
#[derive(Clone, Copy, Debug, PartialEq, Eq)]
pub enum RunResult {
    /// The operator asked to leave.
    Quit,
    /// The operator asked for a fresh session.
    Reload,
    /// An audio callback has not run for over a second.
    StreamsStopped,
}

/// The bytes of the command that ends the program: the letter q.
pub open spec fn quit_command() -> Seq<u8> {
    seq![0x71u8]
}

/// The bytes of the command that starts a fresh session: the letter r.
pub open spec fn reload_command() -> Seq<u8> {
    seq![0x72u8]
}

/// What a line of operator input asks for: `q` ends the program, `r` ends
/// the session for a fresh one, anything else is no command.
pub open spec fn command_of(line: Seq<u8>) -> Option<RunResult> {
    if line == quit_command() {
        Some(RunResult::Quit)
    } else if line == reload_command() {
        Some(RunResult::Reload)
    } else {
        None
    }
}

/// Reads one line of operator input.
pub fn parse_command(line: &str) -> (command: Option<RunResult>)
    ensures
        command == command_of(line.spec_bytes()),
{
    let bytes = line.as_bytes();
    if bytes.len() != 1 {
        return None;
    }
    let letter = bytes[0];
    if letter == 0x71 {
        Some(RunResult::Quit)
    } else if letter == 0x72 {
        Some(RunResult::Reload)
    } else {
        None
    }
}

/// The first check of a supervisor round: a session whose input or output
/// callback last ran more than a second before `now` has stopped.
pub fn check_streams<S: Scalar>(shared: &SharedData<S>, now: u64) -> (end: Option<RunResult>)
    ensures
        end == if is_stalled(now, shared.input_buffer_timestamp, shared.output_buffer_timestamp) {
            Some(RunResult::StreamsStopped)
        } else {
            None::<RunResult>
        },
{
    if shared.streams_stalled(now) {
        Some(RunResult::StreamsStopped)
    } else {
        None
    }
}

/// What one round of the supervisor comes to.
#[derive(Clone, Copy, Debug, PartialEq, Eq)]
pub struct Round {
    /// Why the session ends, if it does.
    pub end: Option<RunResult>,
    /// How many of the pending lines were read.
    pub lines_read: usize,
    /// How many of the lines read were no command.
    pub invalid: usize,
}

/// None of the first `count` lines is a command.
pub open spec fn no_command_among(lines: Seq<&str>, count: int) -> bool {
    forall|i: int| 0 <= i < count ==> command_of((#[trigger] lines[i]).spec_bytes()) is None
}

/// `round` is the round of a supervisor that finds the streams stalled or
/// not, with `lines` pending.
///
/// Stalled streams end the session before any line is read. Otherwise the
/// lines are read in order. Every line before the first command is invalid,
/// the first command ends the session and is the last line read; without a
/// command all lines are read and the session goes on.
pub open spec fn is_round(stalled: bool, lines: Seq<&str>, round: Round) -> bool {
    if stalled {
        &&& round.end == Some(RunResult::StreamsStopped)
        &&& round.lines_read == 0
        &&& round.invalid == 0
    } else {
        &&& round.invalid <= lines.len()
        &&& no_command_among(lines, round.invalid as int)
        &&& if round.invalid < lines.len() {
            &&& round.end is Some
            &&& round.end == command_of(lines[round.invalid as int].spec_bytes())
            &&& round.lines_read == round.invalid + 1
        } else {
            &&& round.end is None
            &&& round.lines_read == round.invalid
        }
    }
}

/// One round of the supervisor at `now`, with `lines` pending from the
/// operator, oldest first.
pub fn supervise<S: Scalar>(shared: &SharedData<S>, now: u64, lines: &Vec<&str>) -> (round: Round)
    ensures
        is_round(
            is_stalled(now, shared.input_buffer_timestamp, shared.output_buffer_timestamp),
            lines@,
            round,
        ),
{
    match check_streams(shared, now) {
        Some(stopped) => {
            return Round { end: Some(stopped), lines_read: 0, invalid: 0 };
        },
        None => {},
    }
    let mut invalid: usize = 0;
    while invalid < lines.len()
        invariant
            invalid <= lines.len(),
            !is_stalled(now, shared.input_buffer_timestamp, shared.output_buffer_timestamp),
            no_command_among(lines@, invalid as int),
        decreases lines.len() - invalid,
    {
        match parse_command(lines[invalid]) {
            Some(command) => {
                return Round { end: Some(command), lines_read: invalid + 1, invalid };
            },
            None => {},
        }
        invalid += 1;
    }
    Round { end: None, lines_read: invalid, invalid }
}


} // verus!
