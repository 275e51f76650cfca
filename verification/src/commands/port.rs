//! The `port` commands: adding, removing and listing forwards, and watching.

use vstd::prelude::*;
use std::collections::HashSet;
use crate::commands::watch::WatchConfig;

verus! {

/// What the `port` command is asked to do.
#[derive(Clone, Debug, PartialEq, Eq)]
pub enum PortAction {
    /// Forward a port.
    Add {
        /// The port on the host.
        host_port: u16,
        /// The port in the container.
        container_port: u16,
        /// Whether the sidecar runs in the background.
        detach: bool,
    },
    /// Remove the forward of one port, or all forwards.
    Remove {
        /// The container port whose forward is removed.
        port: Option<u16>,
        /// Whether all forwards are removed.
        all: bool,
    },
    /// List the active forwards.
    List,
    /// Watch for listening ports and forward them.
    Watch {
        /// Seconds between two polls.
        interval: u64,
        /// Ports below this one are never forwarded.
        min_port: u16,
        /// Ports that are never forwarded.
        exclude: Vec<u16>,
    },
}

/// Why a `port` command cannot be carried out.
#[derive(Clone, Copy, Debug, PartialEq, Eq, Structural)]
pub enum PortError {
    /// A removal names neither a port nor all ports.
    NothingToRemove,
}

/// What a `port` command comes to.
pub enum PortPlan {
    /// Forward `host_port` to `container_port`, without a source.
    Forward { host_port: u16, container_port: u16, detach: bool },
    /// Remove every forward of the workspace.
    RemoveAll,
    /// Remove the forward of this container port.
    RemoveOne(u16),
    /// List the forwards of the workspace.
    List,
    /// Run a watch with these settings.
    Watch(WatchConfig),
}

/// Decides what a `port` command comes to. A removal of all forwards takes
/// precedence over a named port; a removal that names neither is refused.
pub fn run(action: &PortAction) -> (plan: Result<PortPlan, PortError>)
    ensures
        match *action {
            PortAction::Add { host_port, container_port, detach } => plan matches Ok(
                PortPlan::Forward { host_port: h, container_port: c, detach: d },
            ) && h == host_port && c == container_port && d == detach,
            PortAction::Remove { port, all } => if all {
                plan matches Ok(PortPlan::RemoveAll)
            } else {
                match port {
                    Some(p) => plan matches Ok(PortPlan::RemoveOne(q)) && q == p,
                    None => plan matches Err(PortError::NothingToRemove),
                }
            },
            PortAction::List => plan matches Ok(PortPlan::List),
            PortAction::Watch { interval, min_port, exclude } => plan matches Ok(
                PortPlan::Watch(config),
            ) && config.interval == interval && config.min_port == min_port
                && config.exclude_ports@ == exclude@.to_set(),
        },
{
    match action {
        PortAction::Add { host_port, container_port, detach } => Ok(
            PortPlan::Forward {
                host_port: *host_port,
                container_port: *container_port,
                detach: *detach,
            },
        ),
        PortAction::Remove { port, all } => {
            if *all {
                Ok(PortPlan::RemoveAll)
            } else {
                match port {
                    Some(p) => Ok(PortPlan::RemoveOne(*p)),
                    None => Err(PortError::NothingToRemove),
                }
            }
        },
        PortAction::List => Ok(PortPlan::List),
        PortAction::Watch { interval, min_port, exclude } => {
            let mut excluded: HashSet<u16> = HashSet::new();
            let mut i: usize = 0;
            assert(excluded@ =~= exclude@.take(0).to_set());
            while i < exclude.len()
                invariant
                    i <= exclude.len(),
                    excluded@ == exclude@.take(i as int).to_set(),
                decreases exclude.len() - i,
            {
                excluded.insert(exclude[i]);
                assert(exclude@.take(i + 1) =~= exclude@.take(i as int).push(exclude@[i as int]));
                assert(excluded@ =~= exclude@.take(i + 1).to_set()) by {
                    assert forall|p: u16| exclude@.take(i + 1).contains(p) <==> (exclude@.take(
                        i as int,
                    ).contains(p) || p == exclude@[i as int]) by {
                        let shorter = exclude@.take(i as int);
                        let longer = exclude@.take(i + 1);
                        if shorter.contains(p) {
                            let k = choose|k: int| 0 <= k < shorter.len() && shorter[k] == p;
                            assert(longer[k] == p);
                        }
                        if p == exclude@[i as int] {
                            assert(longer[i as int] == p);
                        }
                        if longer.contains(p) {
                            let k = choose|k: int| 0 <= k < longer.len() && longer[k] == p;
                            if k < i {
                                assert(shorter[k] == p);
                            }
                        }
                    }
                }
                i += 1;
            }
            assert(exclude@.take(exclude.len() as int) =~= exclude@);
            Ok(
                PortPlan::Watch(
                    WatchConfig {
                        interval: *interval,
                        min_port: *min_port,
                        exclude_ports: excluded,
                    },
                ),
            )
        },
    }
}

} // verus!
