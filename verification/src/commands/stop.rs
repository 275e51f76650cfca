//! Stopping the sandbox: unlike taking it down, this asks for a running
//! container.

use vstd::prelude::*;
use crate::commands::down::{stop_args, stop_container_args};
use crate::process::{stop_next, StopAction, StopEvent};
use crate::text::strings;

verus! {

/// Why the sandbox cannot be stopped.
#[derive(Clone, Copy, Debug, PartialEq, Eq, Structural)]
pub enum StopError {
    /// No container of the workspace runs.
    NoContainer,
}

/// The command that stops the container of the workspace; an error if no
/// container runs.
pub fn run(container: Option<&str>) -> (command: Result<Vec<String>, StopError>)
    ensures
        match container {
            Some(id) => command matches Ok(args) && strings(args@) == stop_args(id@),
            None => command == Err::<Vec<String>, StopError>(StopError::NoContainer),
        },
{
    match container {
        Some(id) => Ok(stop_container_args(id)),
        None => Err(StopError::NoContainer),
    }
}

/// Stops the watcher of the workspace, one action at a time. The recorded
/// process is signalled only if its command line shows it to be one of this
/// tool; the marker file is deleted in any case.
pub fn stop_watcher(pending: StopAction, event: &StopEvent) -> (next: StopAction)
    ensures
        next == stop_next(pending, *event, true),
{
    crate::process::stop_watcher(pending, event, true)
}

} // verus!
