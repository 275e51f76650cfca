//! The watcher as a process: telling it from other processes, and stopping it
//! without harming them.
//!
//! The watcher runs detached, and a marker file holds its process id. By the
//! time the watcher is to be stopped the id may belong to another process, so
//! the command line of the process is looked at before a signal is sent.

use vstd::prelude::*;
use crate::numbers::{
    decimal, lemma_decimal_reads_back, parse_i32, push_decimal, signed_body, signed_of,
};
use crate::text::{
    chars_of, contains, contains_text, is_space, trim, trim_end, trim_start, trimmed,
};

verus! {

/// Whether a command line is that of this tool: it is known and holds the
/// tool's name.
pub open spec fn is_own_command_line(cmdline: Option<Seq<char>>) -> bool {
    match cmdline {
        Some(text) => contains_text(text, "dcw"@),
        None => false,
    }
}

/// The model of an optional command line.
pub open spec fn cmdline_model(cmdline: Option<String>) -> Option<Seq<char>> {
    match cmdline {
        Some(text) => Some(text@),
        None => None,
    }
}

/// Whether the process with this command line is one of this tool. `None`
/// stands for a command line that cannot be read, as that of a process that
/// is gone.
pub fn is_dcw_process(cmdline: Option<&str>) -> (own: bool)
    ensures
        own == is_own_command_line(
            match cmdline {
                Some(text) => Some(text@),
                None => None,
            },
        ),
{
    match cmdline {
        Some(text) => {
            let all = chars_of(text);
            let name = chars_of("dcw");
            contains(&all, &name)
        },
        None => false,
    }
}

/// What to do about a process that is to be terminated.
#[derive(Clone, Copy, Debug, PartialEq, Eq, Structural)]
pub enum KillDecision {
    /// Leave the process alone: it is not one of this tool.
    Skip,
    /// Send the termination signal to this process.
    Signal(i32),
}

/// Decides whether the process `pid` is sent the termination signal: only if
/// its command line shows it to be one of this tool.
pub fn kill_dcw_process(pid: i32, cmdline: Option<&str>) -> (decision: KillDecision)
    ensures
        decision == if is_own_command_line(
            match cmdline {
                Some(text) => Some(text@),
                None => None,
            },
        ) {
            KillDecision::Signal(pid)
        } else {
            KillDecision::Skip
        },
{
    if is_dcw_process(cmdline) {
        KillDecision::Signal(pid)
    } else {
        KillDecision::Skip
    }
}

/// The process id that a marker file records: the decimal number that its
/// contents write, surrounding whitespace aside.
pub open spec fn recorded_pid(contents: Seq<char>) -> Option<i32> {
    match signed_of(trimmed(contents), i32::MIN as int, i32::MAX as int) {
        Some(v) => Some(v as i32),
        None => None,
    }
}

/// The process id that a marker file records.
pub fn read_marker(contents: &str) -> (pid: Option<i32>)
    ensures
        pid == recorded_pid(contents@),
{
    let all = chars_of(contents);
    let text = trim(&all);
    parse_i32(&text)
}

/// What is written to the marker file for the watcher `pid`.
pub fn marker_contents(pid: u32) -> (contents: String)
    ensures
        contents@ == decimal(pid as nat),
{
    let mut contents = String::new();
    push_decimal(&mut contents, pid as u64);
    assert(Seq::<char>::empty() + decimal(pid as nat) =~= decimal(pid as nat));
    contents
}

/// What the one who stops a watcher has to do next.
#[derive(Clone, Copy, Debug, PartialEq, Eq, Structural)]
pub enum StopAction {
    /// Read the marker file and report `Marker`.
    ReadMarker,
    /// Read the command line of this process and report `CommandLine`.
    Inspect(i32),
    /// Send the termination signal to this process and report `Signalled`.
    Signal(i32),
    /// Delete the marker file and report `Removed`.
    RemoveMarker,
    /// Nothing is left to do.
    Done,
}

/// What the one who stops a watcher reports back.
pub enum StopEvent {
    /// The contents of the marker file; `None` if it cannot be read.
    Marker(Option<String>),
    /// The command line of the process; `None` if it cannot be read.
    CommandLine(Option<String>),
    /// The signal was sent, or sending it failed.
    Signalled,
    /// The marker file was deleted, or deleting it failed.
    Removed,
}

/// The action that follows `pending` when `event` is reported. With `validate`
/// the recorded process is inspected before it is signalled; without, it is
/// signalled as recorded. An event that does not answer the pending action
/// changes nothing.
pub open spec fn stop_next(pending: StopAction, event: StopEvent, validate: bool) -> StopAction {
    match (pending, event) {
        (StopAction::ReadMarker, StopEvent::Marker(None)) => StopAction::Done,
        (StopAction::ReadMarker, StopEvent::Marker(Some(contents))) => match recorded_pid(
            contents@,
        ) {
            Some(pid) => if validate {
                StopAction::Inspect(pid)
            } else {
                StopAction::Signal(pid)
            },
            None => StopAction::RemoveMarker,
        },
        (StopAction::Inspect(pid), StopEvent::CommandLine(cmdline)) => if is_own_command_line(
            cmdline_model(cmdline),
        ) {
            StopAction::Signal(pid)
        } else {
            StopAction::RemoveMarker
        },
        (StopAction::Signal(_), StopEvent::Signalled) => StopAction::RemoveMarker,
        (StopAction::RemoveMarker, StopEvent::Removed) => StopAction::Done,
        _ => pending,
    }
}

/// Stops the watcher that a marker file records, one action at a time: the
/// caller starts with `ReadMarker`, performs each action and reports the
/// outcome, until the action is `Done`. The marker file is deleted whether or
/// not a signal was sent.
pub fn stop_watcher(pending: StopAction, event: &StopEvent, validate: bool) -> (next: StopAction)
    ensures
        next == stop_next(pending, *event, validate),
{
    match pending {
        StopAction::ReadMarker => match event {
            StopEvent::Marker(None) => StopAction::Done,
            StopEvent::Marker(Some(contents)) => match read_marker(contents.as_str()) {
                Some(pid) => if validate {
                    StopAction::Inspect(pid)
                } else {
                    StopAction::Signal(pid)
                },
                None => StopAction::RemoveMarker,
            },
            _ => pending,
        },
        StopAction::Inspect(pid) => match event {
            StopEvent::CommandLine(cmdline) => {
                let own = match cmdline {
                    Some(text) => is_dcw_process(Some(text.as_str())),
                    None => is_dcw_process(None),
                };
                if own {
                    StopAction::Signal(pid)
                } else {
                    StopAction::RemoveMarker
                }
            },
            _ => pending,
        },
        StopAction::Signal(_) => match event {
            StopEvent::Signalled => StopAction::RemoveMarker,
            _ => pending,
        },
        StopAction::RemoveMarker => match event {
            StopEvent::Removed => StopAction::Done,
            _ => pending,
        },
        StopAction::Done => pending,
    }
}

/// A stale marker harms no one: if the command line of the recorded process
/// does not show it to be one of this tool, a validating stop never asks for a
/// signal, and still asks for the marker file to be deleted.
pub proof fn lemma_stale_marker_is_removed_unsignalled(contents: String, cmdline: Option<String>)
    requires
        !is_own_command_line(cmdline_model(cmdline)),
    ensures
        ({
            let first = stop_next(StopAction::ReadMarker, StopEvent::Marker(Some(contents)), true);
            &&& first is Inspect || first is RemoveMarker
            &&& first is Inspect ==> stop_next(first, StopEvent::CommandLine(cmdline), true)
                == StopAction::RemoveMarker
            &&& stop_next(StopAction::RemoveMarker, StopEvent::Removed, true) == StopAction::Done
        }),
{
}

/// A validating stop asks for a signal only after it has seen a command line
/// that shows the process to be one of this tool.
pub proof fn lemma_signal_only_after_validation(pending: StopAction, event: StopEvent)
    requires
        !(pending is Signal),
        stop_next(pending, event, true) is Signal,
    ensures
        pending is Inspect,
        stop_next(pending, event, true) == StopAction::Signal(pending->Inspect_0),
        event matches StopEvent::CommandLine(cmdline) && is_own_command_line(
            cmdline_model(cmdline),
        ),
{
}

/// A stop ends only by deleting the marker file, unless there was no marker
/// file to begin with.
pub proof fn lemma_marker_is_always_removed(pending: StopAction, event: StopEvent, validate: bool)
    requires
        !(pending is Done),
        stop_next(pending, event, validate) is Done,
    ensures
        (pending is RemoveMarker && event is Removed) || (pending is ReadMarker
            && event matches StopEvent::Marker(None)),
{
}

/// What is written to the marker file is read back as the same process id.
pub proof fn lemma_marker_reads_back(pid: u32)
    requires
        pid <= i32::MAX,
    ensures
        recorded_pid(decimal(pid as nat)) == Some(pid as i32),
{
    let text = decimal(pid as nat);
    lemma_decimal_reads_back(pid as nat);
    assert(!is_space(text[0]));
    assert(!is_space(text.last()));
    assert(trim_start(text) == text);
    assert(trim_end(text) == text);
    assert(signed_body(text) == text);
}

} // verus!
