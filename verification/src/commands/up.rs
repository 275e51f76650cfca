//! Bringing the sandbox up, forwarding the configured ports, and starting the
//! watcher.

use vstd::prelude::*;
use crate::docker::{ForwardRequest, RequestModel};
use crate::paths::joined;
use crate::process::{stop_next, StopAction, StopEvent};
use crate::text::{extend_args, push_text, strings};
use crate::workspace::{
    runtime_dir, runtime_dir_of, text_model, workspace_key, Environment, WorkspaceError,
};

verus! {

/// The arguments of the `up` command.
#[derive(Clone, Debug, PartialEq, Eq)]
pub struct UpArgs {
    /// Remove the existing container and build anew.
    pub rebuild: bool,
    /// Forward the configured ports once the sandbox is up.
    pub auto_forward: bool,
    /// Start the watcher once the sandbox is up.
    pub watch: bool,
    /// Further arguments, handed on to the sandbox tool.
    pub extra: Vec<String>,
}

/// The arguments for the sandbox tool that bring up the sandbox of the
/// workspace at `folder`.
pub open spec fn up_command(folder: Seq<char>, rebuild: bool, extra: Seq<Seq<char>>) -> Seq<
    Seq<char>,
> {
    seq!["up"@, "--workspace-folder"@, folder] + (if rebuild {
        seq!["--remove-existing-container"@]
    } else {
        Seq::<Seq<char>>::empty()
    }) + extra
}

/// The arguments with which the sandbox tool is run for `args`.
pub fn run(args: &UpArgs, workspace_folder: &str) -> (command: Vec<String>)
    ensures
        strings(command@) == up_command(workspace_folder@, args.rebuild, strings(args.extra@)),
{
    let mut command: Vec<String> = Vec::new();
    assert(strings(command@) =~= Seq::<Seq<char>>::empty());
    push_text(&mut command, "up");
    push_text(&mut command, "--workspace-folder");
    push_text(&mut command, workspace_folder);
    if args.rebuild {
        push_text(&mut command, "--remove-existing-container");
    }
    let ghost head = strings(command@);
    assert(head =~= seq!["up"@, "--workspace-folder"@, workspace_folder@] + (if args.rebuild {
        seq!["--remove-existing-container"@]
    } else {
        Seq::<Seq<char>>::empty()
    }));
    extend_args(&mut command, &args.extra);
    command
}

/// The forward that start-up makes for a configured port: the same port on the
/// host as in the container, in the background, without a source.
pub open spec fn auto_forward(
    ws_id: Seq<char>,
    container_id: Seq<char>,
    network: Seq<char>,
    port: u16,
) -> RequestModel {
    RequestModel {
        ws_id,
        container_id,
        host_port: port,
        container_port: port,
        network,
        detach: true,
        source: None,
    }
}

/// The forwards to make at start-up, one for each configured port, in the
/// order of the ports. The caller makes each and goes on when one fails.
pub fn auto_forward_ports(ws_id: &str, container_id: &str, network: &str, ports: &Vec<u16>) -> (
    requests: Vec<ForwardRequest>)
    ensures
        requests@.len() == ports@.len(),
        forall|i: int|
            0 <= i < ports@.len() ==> (#[trigger] requests@[i])@ == auto_forward(
                ws_id@,
                container_id@,
                network@,
                ports@[i],
            ),
{
    let mut requests: Vec<ForwardRequest> = Vec::new();
    let mut i: usize = 0;
    while i < ports.len()
        invariant
            i <= ports.len(),
            requests@.len() == i,
            forall|j: int|
                0 <= j < i ==> (#[trigger] requests@[j])@ == auto_forward(
                    ws_id@,
                    container_id@,
                    network@,
                    ports@[j],
                ),
        decreases ports.len() - i,
    {
        requests.push(
            ForwardRequest {
                ws_id: ws_id.to_owned(),
                container_id: container_id.to_owned(),
                host_port: ports[i],
                container_port: ports[i],
                network: network.to_owned(),
                detach: true,
                source: None,
            },
        );
        i += 1;
    }
    requests
}

/// What is needed to start the watcher of a workspace.
#[derive(Clone, Debug, PartialEq, Eq)]
pub struct SpawnPlan {
    /// The directory that holds the marker file; it is created if missing.
    pub directory: String,
    /// The marker file, which takes the process id of the watcher.
    pub marker: String,
    /// The arguments with which this program is started as the watcher.
    pub args: Vec<String>,
}

/// Plans the start of the watcher: the program is started again with the
/// arguments `port watch`, detached and without standard streams, and its
/// process id is written to `watch.pid` in the runtime directory of the
/// workspace. A watcher that the marker file records is stopped first.
pub fn spawn_watcher(env: &Environment) -> (plan: Result<SpawnPlan, WorkspaceError>)
    ensures
        match env.current_dir {
            None => plan == Err::<SpawnPlan, WorkspaceError>(WorkspaceError::NoCurrentDir),
            Some(cwd) => match workspace_key(cwd@) {
                None => plan == Err::<SpawnPlan, WorkspaceError>(WorkspaceError::NoBasename),
                Some(key) => {
                    let directory = runtime_dir_of(text_model(env.xdg_runtime_dir), env.uid, key);
                    &&& plan matches Ok(p)
                    &&& p.directory@ == directory
                    &&& p.marker@ == joined(directory, "watch.pid"@)
                    &&& strings(p.args@) == seq!["port"@, "watch"@]
                },
            },
        },
{
    let directory = match runtime_dir(env) {
        Ok(dir) => dir,
        Err(e) => {
            return Err(e);
        },
    };
    let marker = crate::paths::join(directory.as_str(), "watch.pid");
    let mut args: Vec<String> = Vec::new();
    assert(strings(args@) =~= Seq::<Seq<char>>::empty());
    push_text(&mut args, "port");
    push_text(&mut args, "watch");
    assert(strings(args@) =~= seq!["port"@, "watch"@]);
    Ok(SpawnPlan { directory, marker, args })
}

/// Stops the watcher that the marker file records before a new one is
/// started, one action at a time. The recorded process is signalled as
/// recorded, without a look at its command line, and the marker file is
/// deleted.
pub fn stop_watcher_if_running(pending: StopAction, event: &StopEvent) -> (next: StopAction)
    ensures
        next == stop_next(pending, *event, false),
{
    crate::process::stop_watcher(pending, event, false)
}

} // verus!
