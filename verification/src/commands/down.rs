//! Taking the sandbox down: the watcher is stopped, the forwards are removed,
//! and the container is stopped if it still runs.

use vstd::prelude::*;
use crate::process::{stop_next, StopAction, StopEvent};
use crate::text::{push_text, strings};

verus! {

/// The arguments that stop a container.
pub open spec fn stop_args(container: Seq<char>) -> Seq<Seq<char>> {
    seq!["stop"@, container]
}

/// The arguments of the command that stops a container.
pub fn stop_container_args(container_id: &str) -> (args: Vec<String>)
    ensures
        strings(args@) == stop_args(container_id@),
{
    let mut args: Vec<String> = Vec::new();
    assert(strings(args@) =~= Seq::<Seq<char>>::empty());
    push_text(&mut args, "stop");
    push_text(&mut args, container_id);
    assert(strings(args@) =~= stop_args(container_id@));
    args
}

/// The command that stops the container of the workspace; none if no container
/// runs, which is no error: the sandbox is down already.
pub fn run(container: Option<&str>) -> (command: Option<Vec<String>>)
    ensures
        match container {
            Some(id) => command matches Some(args) && strings(args@) == stop_args(id@),
            None => command is None,
        },
{
    match container {
        Some(id) => Some(stop_container_args(id)),
        None => None,
    }
}

/// Stops the watcher of the workspace, one action at a time. The recorded
/// process is signalled only if its command line shows it to be one of this
/// tool; the marker file is deleted in any case.
pub fn stop_watcher(pending: StopAction, event: &StopEvent) -> (next: StopAction)
    ensures
        next == stop_next(pending, *event, true),
{
    crate::process::stop_watcher(pending, event, true)
}

} // verus!
