//! The container runtime as this library sees it: the argument lists of the
//! `docker` commands it needs, and what their outcomes mean.
//!
//! Nothing here runs a command. A caller runs `docker` with the arguments that a
//! `*_args` function returns and hands the outcome to the function of the same
//! name without the suffix.

use vstd::prelude::*;
use crate::numbers::{decimal, lemma_decimal_reads_back, push_decimal};
use crate::text::{
    copy_range, extend_args, join_text, lemma_pieces_nonempty, lines, pieces, push_arg, push_text,
    split, split_lines, string_of, strings, trimmed, trimmed_chars, views, Separator,
};

verus! {

/// How one run of `docker` ended.
#[derive(Clone, Debug, PartialEq, Eq)]
pub enum CommandResult {
    /// The program could not be started.
    NotStarted,
    /// The program ran to its end.
    Finished {
        /// Whether it reported success.
        success: bool,
        /// What it wrote to standard output.
        stdout: String,
        /// What it wrote to standard error.
        stderr: String,
    },
}

/// What a `docker` command was run for.
#[derive(Clone, Debug, PartialEq, Eq)]
pub enum Operation {
    /// Running a command inside a container.
    Exec,
    /// Inspecting a container's state or networks.
    Inspect,
    /// Inspecting a container's address on a network.
    InspectAddress,
    /// Looking for the workspace's container.
    FindContainer,
    /// Launching the sidecar of this name.
    StartForward { sidecar: String },
    /// Removing the sidecar of this name.
    RemoveForward { sidecar: String },
    /// Enumerating a workspace's sidecars.
    ListForwards,
    /// Enumerating a workspace's sidecars of one source.
    ListForwardsBySource,
}

/// Why an operation on the container runtime failed.
#[derive(Clone, Debug, PartialEq, Eq)]
pub enum DockerError {
    /// `docker` could not be started.
    NotStarted { operation: Operation },
    /// `docker` ran and reported failure; `stderr` is what it printed.
    Failed { operation: Operation, stderr: String },
    /// The container is attached to no network.
    NoNetworks { container: String },
    /// The container has no address on the network.
    NoAddress { container: String, network: String },
}

/// The model of an `Operation`.
pub enum OperationModel {
    Exec,
    Inspect,
    InspectAddress,
    FindContainer,
    StartForward { sidecar: Seq<char> },
    RemoveForward { sidecar: Seq<char> },
    ListForwards,
    ListForwardsBySource,
}

/// The model of a `DockerError`.
pub enum ErrorModel {
    NotStarted { operation: OperationModel },
    Failed { operation: OperationModel, stderr: Seq<char> },
    NoNetworks { container: Seq<char> },
    NoAddress { container: Seq<char>, network: Seq<char> },
}

/// The model of how a command ended.
pub enum ResultModel {
    NotStarted,
    Finished { success: bool, stdout: Seq<char>, stderr: Seq<char> },
}

impl View for Operation {
    type V = OperationModel;

    open spec fn view(&self) -> OperationModel {
        match self {
            Operation::Exec => OperationModel::Exec,
            Operation::Inspect => OperationModel::Inspect,
            Operation::InspectAddress => OperationModel::InspectAddress,
            Operation::FindContainer => OperationModel::FindContainer,
            Operation::StartForward { sidecar } => OperationModel::StartForward {
                sidecar: sidecar@,
            },
            Operation::RemoveForward { sidecar } => OperationModel::RemoveForward {
                sidecar: sidecar@,
            },
            Operation::ListForwards => OperationModel::ListForwards,
            Operation::ListForwardsBySource => OperationModel::ListForwardsBySource,
        }
    }
}

impl View for DockerError {
    type V = ErrorModel;

    open spec fn view(&self) -> ErrorModel {
        match self {
            DockerError::NotStarted { operation } => ErrorModel::NotStarted {
                operation: operation@,
            },
            DockerError::Failed { operation, stderr } => ErrorModel::Failed {
                operation: operation@,
                stderr: stderr@,
            },
            DockerError::NoNetworks { container } => ErrorModel::NoNetworks {
                container: container@,
            },
            DockerError::NoAddress { container, network } => ErrorModel::NoAddress {
                container: container@,
                network: network@,
            },
        }
    }
}

impl View for CommandResult {
    type V = ResultModel;

    open spec fn view(&self) -> ResultModel {
        match self {
            CommandResult::NotStarted => ResultModel::NotStarted,
            CommandResult::Finished { success, stdout, stderr } => ResultModel::Finished {
                success: *success,
                stdout: stdout@,
                stderr: stderr@,
            },
        }
    }
}

/// What a command printed, if it ran and succeeded; else why the operation
/// failed.
pub open spec fn output_of(result: ResultModel, operation: OperationModel) -> Result<
    Seq<char>,
    ErrorModel,
> {
    match result {
        ResultModel::NotStarted => Err(ErrorModel::NotStarted { operation }),
        ResultModel::Finished { success, stdout, stderr } => if success {
            Ok(stdout)
        } else {
            Err(ErrorModel::Failed { operation, stderr })
        },
    }
}

/// The model of an outcome that carries text.
pub open spec fn text_outcome(r: Result<String, DockerError>) -> Result<Seq<char>, ErrorModel> {
    match r {
        Ok(text) => Ok(text@),
        Err(e) => Err(e@),
    }
}

/// The model of an outcome that carries nothing.
pub open spec fn unit_outcome(r: Result<(), DockerError>) -> Result<(), ErrorModel> {
    match r {
        Ok(_) => Ok(()),
        Err(e) => Err(e@),
    }
}

/// What a command printed, if it ran and succeeded.
pub fn checked_output(result: CommandResult, operation: Operation) -> (r: Result<
    String,
    DockerError,
>)
    ensures
        text_outcome(r) == output_of(result@, operation@),
{
    match result {
        CommandResult::NotStarted => Err(DockerError::NotStarted { operation }),
        CommandResult::Finished { success, stdout, stderr } => if success {
            Ok(stdout)
        } else {
            Err(DockerError::Failed { operation, stderr })
        },
    }
}

/// The arguments that run `cmd` inside a container.
pub open spec fn exec_args(container: Seq<char>, cmd: Seq<Seq<char>>) -> Seq<Seq<char>> {
    seq!["exec"@, container] + cmd
}

/// The arguments of the command that runs `cmd` inside a container.
pub fn exec_in_container_args(container_id: &str, cmd: &Vec<String>) -> (args: Vec<String>)
    ensures
        strings(args@) == exec_args(container_id@, strings(cmd@)),
{
    let mut args: Vec<String> = Vec::new();
    assert(strings(args@) =~= Seq::<Seq<char>>::empty());
    push_text(&mut args, "exec");
    push_text(&mut args, container_id);
    assert(strings(args@) =~= seq!["exec"@, container_id@]);
    extend_args(&mut args, cmd);
    args
}

/// What a command run inside a container printed.
pub fn exec_in_container(result: CommandResult) -> (r: Result<String, DockerError>)
    ensures
        text_outcome(r) == output_of(result@, OperationModel::Exec),
{
    checked_output(result, Operation::Exec)
}

/// The arguments that ask whether a container runs.
pub open spec fn running_args(container: Seq<char>) -> Seq<Seq<char>> {
    seq!["inspect"@, "-f"@, "{{.State.Running}}"@, container]
}

/// The arguments of the command that asks whether a container runs.
pub fn is_container_running_args(container_id: &str) -> (args: Vec<String>)
    ensures
        strings(args@) == running_args(container_id@),
{
    let mut args: Vec<String> = Vec::new();
    assert(strings(args@) =~= Seq::<Seq<char>>::empty());
    push_text(&mut args, "inspect");
    push_text(&mut args, "-f");
    push_text(&mut args, "{{.State.Running}}");
    push_text(&mut args, container_id);
    assert(strings(args@) =~= running_args(container_id@));
    args
}

/// Whether the answer of the runtime says that the container runs: the command
/// succeeded and printed `true`.
pub open spec fn says_running(result: ResultModel) -> Result<bool, ErrorModel> {
    match result {
        ResultModel::NotStarted => Err(
            ErrorModel::NotStarted { operation: OperationModel::Inspect },
        ),
        ResultModel::Finished { success, stdout, stderr } => Ok(
            success && trimmed(stdout) == "true"@,
        ),
    }
}

/// Whether a container still runs. A command that fails means that it does
/// not; only a command that cannot be started is an error.
pub fn is_container_running(result: CommandResult) -> (r: Result<bool, DockerError>)
    ensures
        match r {
            Ok(b) => says_running(result@) == Ok::<bool, ErrorModel>(b),
            Err(e) => says_running(result@) == Err::<bool, ErrorModel>(e@),
        },
{
    match result {
        CommandResult::NotStarted => Err(
            DockerError::NotStarted { operation: Operation::Inspect },
        ),
        CommandResult::Finished { success, stdout, stderr } => {
            let answer = trimmed_chars(stdout.as_str());
            proof {
                reveal_strlit("true");
            }
            let is_true = answer.len() == 4 && answer[0] == 't' && answer[1] == 'r' && answer[2]
                == 'u' && answer[3] == 'e';
            assert(is_true == (answer@ == "true"@)) by {
                if is_true {
                    assert(answer@ =~= "true"@);
                }
            }
            Ok(success && is_true)
        },
    }
}


/// The arguments that look for the running container of a workspace folder.
pub open spec fn find_args(folder: Seq<char>) -> Seq<Seq<char>> {
    seq!["ps"@, "-q"@, "--filter"@, "label=devcontainer.local_folder="@ + folder]
}

/// The arguments of the command that looks for the container of a workspace.
pub fn find_devcontainer_args(workspace_folder: &str) -> (args: Vec<String>)
    ensures
        strings(args@) == find_args(workspace_folder@),
{
    let mut args: Vec<String> = Vec::new();
    assert(strings(args@) =~= Seq::<Seq<char>>::empty());
    push_text(&mut args, "ps");
    push_text(&mut args, "-q");
    push_text(&mut args, "--filter");
    push_arg(&mut args, join_text("label=devcontainer.local_folder=", workspace_folder));
    assert(strings(args@) =~= find_args(workspace_folder@));
    args
}

/// The container that the runtime names: the first line of what it printed,
/// once surrounding whitespace is removed; none if nothing is left.
pub open spec fn found_container(result: ResultModel) -> Result<Option<Seq<char>>, ErrorModel> {
    match output_of(result, OperationModel::FindContainer) {
        Err(e) => Err(e),
        Ok(stdout) => if trimmed(stdout).len() == 0 {
            Ok(None)
        } else {
            Ok(Some(lines(trimmed(stdout))[0]))
        },
    }
}

/// A text that is not empty has a first line.
pub proof fn lemma_lines_of_text(s: Seq<char>)
    requires
        s.len() > 0,
    ensures
        lines(s).len() > 0,
{
}

/// The running container of the workspace, if there is one; the first if the
/// runtime names several.
pub fn find_devcontainer(result: CommandResult) -> (r: Result<Option<String>, DockerError>)
    ensures
        match r {
            Ok(Some(id)) => found_container(result@) == Ok::<Option<Seq<char>>, ErrorModel>(
                Some(id@),
            ),
            Ok(None) => found_container(result@) == Ok::<Option<Seq<char>>, ErrorModel>(None),
            Err(e) => found_container(result@) == Err::<Option<Seq<char>>, ErrorModel>(e@),
        },
{
    let stdout = match checked_output(result, Operation::FindContainer) {
        Ok(text) => text,
        Err(e) => {
            return Err(e);
        },
    };
    let id = trimmed_chars(stdout.as_str());
    if id.len() == 0 {
        return Ok(None);
    }
    let rows = split_lines(&id);
    proof {
        lemma_lines_of_text(id@);
        assert(views(rows@)[0] == rows@[0]@);
    }
    Ok(Some(string_of(&rows[0])))
}

/// The arguments that ask for the names of a container's networks.
pub open spec fn network_args(container: Seq<char>) -> Seq<Seq<char>> {
    seq![
        "inspect"@,
        "-f"@,
        "{{range $k, $v := .NetworkSettings.Networks}}{{$k}}{{end}}"@,
        container,
    ]
}

/// The arguments of the command that asks for a container's networks.
pub fn get_container_network_args(container_id: &str) -> (args: Vec<String>)
    ensures
        strings(args@) == network_args(container_id@),
{
    let mut args: Vec<String> = Vec::new();
    assert(strings(args@) =~= Seq::<Seq<char>>::empty());
    push_text(&mut args, "inspect");
    push_text(&mut args, "-f");
    push_text(&mut args, "{{range $k, $v := .NetworkSettings.Networks}}{{$k}}{{end}}");
    push_text(&mut args, container_id);
    assert(strings(args@) =~= network_args(container_id@));
    args
}

/// The network that the runtime names: what it printed up to the first line
/// feed, once surrounding whitespace is removed.
pub open spec fn found_network(container: Seq<char>, result: ResultModel) -> Result<
    Seq<char>,
    ErrorModel,
> {
    match output_of(result, OperationModel::Inspect) {
        Err(e) => Err(e),
        Ok(stdout) => if trimmed(stdout).len() == 0 {
            Err(ErrorModel::NoNetworks { container })
        } else {
            Ok(pieces(trimmed(stdout), Separator::Char('\n'))[0])
        },
    }
}

/// The network of a container; the first if it has several.
pub fn get_container_network(container_id: &str, result: CommandResult) -> (r: Result<
    String,
    DockerError,
>)
    ensures
        text_outcome(r) == found_network(container_id@, result@),
{
    let stdout = match checked_output(result, Operation::Inspect) {
        Ok(text) => text,
        Err(e) => {
            return Err(e);
        },
    };
    let network = trimmed_chars(stdout.as_str());
    if network.len() == 0 {
        return Err(DockerError::NoNetworks { container: container_id.to_owned() });
    }
    let parts = split(&network, Separator::Char('\n'));
    proof {
        lemma_pieces_nonempty(network@, Separator::Char('\n'));
        assert(views(parts@)[0] == parts@[0]@);
    }
    Ok(string_of(&parts[0]))
}

/// The arguments that ask for a container's address on a network.
pub open spec fn address_args(container: Seq<char>, network: Seq<char>) -> Seq<Seq<char>> {
    seq![
        "inspect"@,
        "-f"@,
        "{{.NetworkSettings.Networks."@ + network + ".IPAddress}}"@,
        container,
    ]
}

/// The arguments of the command that asks for a container's address.
pub fn get_container_ip_args(container_id: &str, network: &str) -> (args: Vec<String>)
    ensures
        strings(args@) == address_args(container_id@, network@),
{
    let mut args: Vec<String> = Vec::new();
    assert(strings(args@) =~= Seq::<Seq<char>>::empty());
    push_text(&mut args, "inspect");
    push_text(&mut args, "-f");
    let mut template = join_text("{{.NetworkSettings.Networks.", network);
    template.append(".IPAddress}}");
    push_arg(&mut args, template);
    push_text(&mut args, container_id);
    assert(strings(args@) =~= address_args(container_id@, network@));
    args
}

/// The address that the runtime names: what it printed, once surrounding
/// whitespace is removed; an error if nothing is left.
pub open spec fn found_address(
    container: Seq<char>,
    network: Seq<char>,
    result: ResultModel,
) -> Result<Seq<char>, ErrorModel> {
    match output_of(result, OperationModel::InspectAddress) {
        Err(e) => Err(e),
        Ok(stdout) => if trimmed(stdout).len() == 0 {
            Err(ErrorModel::NoAddress { container, network })
        } else {
            Ok(trimmed(stdout))
        },
    }
}

/// The address of a container on a network. The relay needs the address
/// itself: the default network resolves no container names.
pub fn get_container_ip(container_id: &str, network: &str, result: CommandResult) -> (r: Result<
    String,
    DockerError,
>)
    ensures
        text_outcome(r) == found_address(container_id@, network@, result@),
{
    let stdout = match checked_output(result, Operation::InspectAddress) {
        Ok(text) => text,
        Err(e) => {
            return Err(e);
        },
    };
    let address = trimmed_chars(stdout.as_str());
    if address.len() == 0 {
        return Err(
            DockerError::NoAddress {
                container: container_id.to_owned(),
                network: network.to_owned(),
            },
        );
    }
    Ok(string_of(&address))
}

/// The name of the sidecar that forwards a container port of a workspace:
/// `pf-<workspace>-c<port>`. The name is the forward's identity: a workspace has
/// at most one forward per container port.
pub open spec fn sidecar_name_of(ws_id: Seq<char>, container_port: u16) -> Seq<char> {
    "pf-"@ + ws_id + "-c"@ + decimal(container_port as nat)
}

/// The name of the sidecar that forwards `container_port` for a workspace.
pub fn sidecar_name(ws_id: &str, container_port: u16) -> (name: String)
    ensures
        name@ == sidecar_name_of(ws_id@, container_port),
{
    let mut name = join_text("pf-", ws_id);
    name.append("-c");
    push_decimal(&mut name, container_port as u64);
    name
}

/// A workspace has one sidecar name per container port: two ports get the same
/// name only if they are the same port.
pub proof fn lemma_one_name_per_port(ws_id: Seq<char>, a: u16, b: u16)
    ensures
        sidecar_name_of(ws_id, a) == sidecar_name_of(ws_id, b) <==> a == b,
{
    let prefix = "pf-"@ + ws_id + "-c"@;
    if sidecar_name_of(ws_id, a) == sidecar_name_of(ws_id, b) {
        let name_a = prefix + decimal(a as nat);
        let name_b = prefix + decimal(b as nat);
        assert(name_a.skip(prefix.len() as int) =~= decimal(a as nat));
        assert(name_b.skip(prefix.len() as int) =~= decimal(b as nat));
        lemma_decimal_reads_back(a as nat);
        lemma_decimal_reads_back(b as nat);
    }
}

/// A text followed by a number in decimal.
pub fn with_number(prefix: &str, n: u16) -> (out: String)
    ensures
        out@ == prefix@ + decimal(n as nat),
{
    let mut out = prefix.to_owned();
    push_decimal(&mut out, n as u64);
    out
}

/// The arguments that remove a sidecar by name, whether or not it runs.
pub open spec fn remove_args(sidecar: Seq<char>) -> Seq<Seq<char>> {
    seq!["rm"@, "-f"@, sidecar]
}

/// The arguments that remove the container `name` by force.
pub fn remove_container_args(name: &str) -> (args: Vec<String>)
    ensures
        strings(args@) == remove_args(name@),
{
    let mut args: Vec<String> = Vec::new();
    assert(strings(args@) =~= Seq::<Seq<char>>::empty());
    push_text(&mut args, "rm");
    push_text(&mut args, "-f");
    push_text(&mut args, name);
    assert(strings(args@) =~= remove_args(name@));
    args
}

/// The arguments of the command that removes the forward of a container port.
pub fn remove_port_forward_args(ws_id: &str, port: u16) -> (args: Vec<String>)
    ensures
        strings(args@) == remove_args(sidecar_name_of(ws_id@, port)),
{
    let name = sidecar_name(ws_id, port);
    remove_container_args(name.as_str())
}

/// Whether the removal of a forward succeeded. The runtime does not fail for a
/// sidecar that is not there, so success does not say that there was one.
pub fn remove_port_forward(ws_id: &str, port: u16, result: CommandResult) -> (r: Result<
    (),
    DockerError,
>)
    ensures
        unit_outcome(r) == match output_of(
            result@,
            OperationModel::RemoveForward { sidecar: sidecar_name_of(ws_id@, port) },
        ) {
            Ok(_) => Ok::<(), ErrorModel>(()),
            Err(e) => Err::<(), ErrorModel>(e),
        },
{
    let sidecar = sidecar_name(ws_id, port);
    match checked_output(result, Operation::RemoveForward { sidecar }) {
        Ok(_) => Ok(()),
        Err(e) => Err(e),
    }
}


/// What is needed to forward one port.
#[derive(Clone, Debug, PartialEq, Eq)]
pub struct ForwardRequest {
    /// The key of the workspace.
    pub ws_id: String,
    /// The container whose port is forwarded.
    pub container_id: String,
    /// The port on the host's loopback interface.
    pub host_port: u16,
    /// The port inside the container.
    pub container_port: u16,
    /// The network on which the relay reaches the container.
    pub network: String,
    /// Whether the sidecar runs in the background.
    pub detach: bool,
    /// Who asked for the forward, if that is to be recorded.
    pub source: Option<String>,
}

/// The model of a `ForwardRequest`.
pub struct RequestModel {
    pub ws_id: Seq<char>,
    pub container_id: Seq<char>,
    pub host_port: u16,
    pub container_port: u16,
    pub network: Seq<char>,
    pub detach: bool,
    pub source: Option<Seq<char>>,
}

impl View for ForwardRequest {
    type V = RequestModel;

    open spec fn view(&self) -> RequestModel {
        RequestModel {
            ws_id: self.ws_id@,
            container_id: self.container_id@,
            host_port: self.host_port,
            container_port: self.container_port,
            network: self.network@,
            detach: self.detach,
            source: match self.source {
                Some(s) => Some(s@),
                None => None,
            },
        }
    }
}

/// The labels by which a sidecar is found again: `role=port-forward`,
/// `workspace=<key>`, `port=<container port>`, `host_port=<host port>` and,
/// where given, `source=<source>`. The running sidecars with these labels are
/// the only record of what is forwarded.
pub open spec fn label_args(req: RequestModel) -> Seq<Seq<char>> {
    seq![
        "--label"@,
        "role=port-forward"@,
        "--label"@,
        "workspace="@ + req.ws_id,
        "--label"@,
        "port="@ + decimal(req.container_port as nat),
        "--label"@,
        "host_port="@ + decimal(req.host_port as nat),
    ] + (match req.source {
        Some(source) => seq!["--label"@, "source="@ + source],
        None => Seq::<Seq<char>>::empty(),
    })
}

/// The arguments that launch the sidecar of a forward: a relay that listens on
/// the host port of the loopback interface, accepts any number of connections,
/// and connects each to the container port at `address`.
pub open spec fn launch_args(req: RequestModel, address: Seq<char>) -> Seq<Seq<char>> {
    seq![
        "run"@,
        "--rm"@,
        "--name"@,
        sidecar_name_of(req.ws_id, req.container_port),
        "--network"@,
        req.network,
    ] + label_args(req) + seq![
        "-p"@,
        "127.0.0.1:"@ + decimal(req.host_port as nat) + ":"@ + decimal(req.host_port as nat),
    ] + (if req.detach {
        seq!["-d"@]
    } else {
        Seq::<Seq<char>>::empty()
    }) + seq![
        "alpine/socat"@,
        "TCP-LISTEN:"@ + decimal(req.host_port as nat) + ",fork,reuseaddr"@,
        "TCP:"@ + address + ":"@ + decimal(req.container_port as nat),
    ]
}

/// The arguments of the command that launches the sidecar of a forward.
pub fn launch_sidecar_args(req: &ForwardRequest, address: &str) -> (args: Vec<String>)
    ensures
        strings(args@) == launch_args(req@, address@),
{
    let mut args: Vec<String> = Vec::new();
    assert(strings(args@) =~= Seq::<Seq<char>>::empty());
    push_text(&mut args, "run");
    push_text(&mut args, "--rm");
    push_text(&mut args, "--name");
    push_arg(&mut args, sidecar_name(req.ws_id.as_str(), req.container_port));
    push_text(&mut args, "--network");
    push_arg(&mut args, req.network.clone());
    let ghost head = strings(args@);
    assert(head =~= seq![
        "run"@,
        "--rm"@,
        "--name"@,
        sidecar_name_of(req@.ws_id, req@.container_port),
        "--network"@,
        req@.network,
    ]);
    push_text(&mut args, "--label");
    push_text(&mut args, "role=port-forward");
    push_text(&mut args, "--label");
    push_arg(&mut args, join_text("workspace=", req.ws_id.as_str()));
    push_text(&mut args, "--label");
    push_arg(&mut args, with_number("port=", req.container_port));
    push_text(&mut args, "--label");
    push_arg(&mut args, with_number("host_port=", req.host_port));
    match &req.source {
        Some(source) => {
            push_text(&mut args, "--label");
            push_arg(&mut args, join_text("source=", source.as_str()));
        },
        None => {},
    }
    let ghost labelled = strings(args@);
    assert(labelled =~= head + label_args(req@));
    let mut publish = with_number("127.0.0.1:", req.host_port);
    publish.append(":");
    push_decimal(&mut publish, req.host_port as u64);
    push_text(&mut args, "-p");
    push_arg(&mut args, publish);
    if req.detach {
        push_text(&mut args, "-d");
    }
    let ghost published = strings(args@);
    assert(published =~= labelled + seq![
        "-p"@,
        "127.0.0.1:"@ + decimal(req@.host_port as nat) + ":"@ + decimal(req@.host_port as nat),
    ] + (if req@.detach {
        seq!["-d"@]
    } else {
        Seq::<Seq<char>>::empty()
    }));
    let mut listen = with_number("TCP-LISTEN:", req.host_port);
    listen.append(",fork,reuseaddr");
    let mut connect = join_text("TCP:", address);
    connect.append(":");
    push_decimal(&mut connect, req.container_port as u64);
    push_text(&mut args, "alpine/socat");
    push_arg(&mut args, listen);
    push_arg(&mut args, connect);
    assert(strings(args@) =~= published + seq![
        "alpine/socat"@,
        "TCP-LISTEN:"@ + decimal(req@.host_port as nat) + ",fork,reuseaddr"@,
        "TCP:"@ + address@ + ":"@ + decimal(req@.container_port as nat),
    ]);
    args
}

/// Where the making of a forward stands.
#[derive(Clone, Debug, PartialEq, Eq)]
pub enum ForwardStep {
    /// A sidecar of the same name, if any, is to be removed.
    RemoveExisting,
    /// The container's address is to be looked up.
    ResolveAddress,
    /// The sidecar is to be launched against this address.
    Launch { address: String },
    /// The forward was made; nothing is left to do.
    Made,
    /// The forward could not be made; nothing is left to do.
    Failed(DockerError),
}

/// The model of a `ForwardStep`.
pub enum StepModel {
    RemoveExisting,
    ResolveAddress,
    Launch { address: Seq<char> },
    Made,
    Failed(ErrorModel),
}

impl View for ForwardStep {
    type V = StepModel;

    open spec fn view(&self) -> StepModel {
        match self {
            ForwardStep::RemoveExisting => StepModel::RemoveExisting,
            ForwardStep::ResolveAddress => StepModel::ResolveAddress,
            ForwardStep::Launch { address } => StepModel::Launch { address: address@ },
            ForwardStep::Made => StepModel::Made,
            ForwardStep::Failed(e) => StepModel::Failed(e@),
        }
    }
}

/// The arguments of the command that a step runs; none when nothing is left to
/// do.
pub open spec fn step_args(req: RequestModel, step: StepModel) -> Seq<Seq<char>> {
    match step {
        StepModel::RemoveExisting => remove_args(sidecar_name_of(req.ws_id, req.container_port)),
        StepModel::ResolveAddress => address_args(req.container_id, req.network),
        StepModel::Launch { address } => launch_args(req, address),
        StepModel::Made => Seq::<Seq<char>>::empty(),
        StepModel::Failed(_) => Seq::<Seq<char>>::empty(),
    }
}

/// The step that follows when the command of `step` ended with `result`. The
/// outcome of removing an earlier sidecar is ignored; a container without an
/// address and a launch that fails end the making of the forward in failure.
pub open spec fn next_step(req: RequestModel, step: StepModel, result: ResultModel) -> StepModel {
    match step {
        StepModel::RemoveExisting => StepModel::ResolveAddress,
        StepModel::ResolveAddress => match found_address(req.container_id, req.network, result) {
            Ok(address) => StepModel::Launch { address },
            Err(e) => StepModel::Failed(e),
        },
        StepModel::Launch { address } => match output_of(
            result,
            OperationModel::StartForward {
                sidecar: sidecar_name_of(req.ws_id, req.container_port),
            },
        ) {
            Ok(_) => StepModel::Made,
            Err(e) => StepModel::Failed(e),
        },
        StepModel::Made => StepModel::Made,
        StepModel::Failed(e) => StepModel::Failed(e),
    }
}

/// The arguments of the command that `step` runs in making the forward of
/// `req`.
pub fn start_port_forward_args(req: &ForwardRequest, step: &ForwardStep) -> (args: Vec<String>)
    ensures
        strings(args@) == step_args(req@, step@),
{
    match step {
        ForwardStep::RemoveExisting => remove_port_forward_args(
            req.ws_id.as_str(),
            req.container_port,
        ),
        ForwardStep::ResolveAddress => get_container_ip_args(
            req.container_id.as_str(),
            req.network.as_str(),
        ),
        ForwardStep::Launch { address } => launch_sidecar_args(req, address.as_str()),
        _ => {
            let args: Vec<String> = Vec::new();
            assert(strings(args@) =~= Seq::<Seq<char>>::empty());
            args
        },
    }
}

/// Makes or replaces the forward of `req`, one command at a time: the caller
/// starts at `RemoveExisting`, runs the command of each step and reports how it
/// ended, until the step is `Made` or `Failed`. Removing first makes the call repeatable:
/// an earlier sidecar of the same name never stands in the way of the new one.
pub fn start_port_forward(req: &ForwardRequest, step: ForwardStep, result: CommandResult) -> (next:
    ForwardStep)
    ensures
        next@ == next_step(req@, step@, result@),
{
    match step {
        ForwardStep::RemoveExisting => ForwardStep::ResolveAddress,
        ForwardStep::ResolveAddress => {
            match get_container_ip(req.container_id.as_str(), req.network.as_str(), result) {
                Ok(address) => ForwardStep::Launch { address },
                Err(e) => ForwardStep::Failed(e),
            }
        },
        ForwardStep::Launch { address } => {
            let sidecar = sidecar_name(req.ws_id.as_str(), req.container_port);
            match checked_output(result, Operation::StartForward { sidecar }) {
                Ok(_) => ForwardStep::Made,
                Err(e) => ForwardStep::Failed(e),
            }
        },
        ForwardStep::Made => ForwardStep::Made,
        ForwardStep::Failed(e) => ForwardStep::Failed(e),
    }
}

/// A forward is made by removing before creating: the first command removes,
/// by force, the very name under which the launch then creates the sidecar;
/// the launch is reached only through the removal and the address lookup.
pub proof fn lemma_forward_removes_before_it_creates(
    req: RequestModel,
    step: StepModel,
    result: ResultModel,
    address: Seq<char>,
)
    ensures
        step_args(req, StepModel::RemoveExisting) == remove_args(
            sidecar_name_of(req.ws_id, req.container_port),
        ),
        launch_args(req, address)[2] == "--name"@,
        launch_args(req, address)[3] == sidecar_name_of(req.ws_id, req.container_port),
        next_step(req, step, result) is ResolveAddress ==> step is RemoveExisting,
        next_step(req, step, result) is Launch ==> step is ResolveAddress,
{
}


/// How many sidecars run under `name`, where `sidecars` counts the running
/// sidecars by name.
pub open spec fn running(sidecars: Map<Seq<char>, nat>, name: Seq<char>) -> nat {
    if sidecars.dom().contains(name) {
        sidecars[name]
    } else {
        0
    }
}

/// The sidecars that run after a runtime has carried out a command: a forced
/// removal ends every sidecar of the name, a launch adds one sidecar under the
/// name it is given, and any other command changes nothing. The runtime of
/// this model refuses no name, so that what keeps the sidecars of a forward
/// from piling up is seen to be the removal and not a refusal.
pub open spec fn sidecars_after(sidecars: Map<Seq<char>, nat>, args: Seq<Seq<char>>) -> Map<
    Seq<char>,
    nat,
> {
    if args.len() == 3 && args[0] == "rm"@ && args[1] == "-f"@ {
        sidecars.insert(args[2], 0)
    } else if args.len() >= 4 && args[0] == "run"@ && args[2] == "--name"@ {
        sidecars.insert(args[3], running(sidecars, args[3]) + 1)
    } else {
        sidecars
    }
}

/// The sidecars that run after a forward was made: after the three commands of
/// its steps, where the lookup gave `address` and the launch succeeded.
pub open spec fn sidecars_after_forward(
    sidecars: Map<Seq<char>, nat>,
    req: RequestModel,
    address: Seq<char>,
) -> Map<Seq<char>, nat> {
    sidecars_after(
        sidecars_after(
            sidecars_after(sidecars, step_args(req, StepModel::RemoveExisting)),
            step_args(req, StepModel::ResolveAddress),
        ),
        step_args(req, StepModel::Launch { address }),
    )
}

/// Making a forward leaves exactly one sidecar under its name, however many
/// ran under it before, and touches no sidecar of another name. So adding the
/// same forward twice in a row leaves one sidecar, not two.
pub proof fn lemma_forward_leaves_one_sidecar(
    sidecars: Map<Seq<char>, nat>,
    req: RequestModel,
    address: Seq<char>,
    again: Seq<char>,
)
    ensures
        ({
            let name = sidecar_name_of(req.ws_id, req.container_port);
            let once = sidecars_after_forward(sidecars, req, address);
            let twice = sidecars_after_forward(once, req, again);
            &&& running(once, name) == 1
            &&& running(twice, name) == 1
            &&& forall|other: Seq<char>|
                other != name ==> running(once, other) == running(sidecars, other) && running(
                    twice,
                    other,
                ) == running(sidecars, other)
        }),
{
    lemma_forward_step_effect(sidecars, req, address);
    lemma_forward_step_effect(sidecars_after_forward(sidecars, req, address), req, again);
}

/// What the three commands of a forward do to the running sidecars.
pub proof fn lemma_forward_step_effect(
    sidecars: Map<Seq<char>, nat>,
    req: RequestModel,
    address: Seq<char>,
)
    ensures
        sidecars_after_forward(sidecars, req, address) == sidecars.insert(
            sidecar_name_of(req.ws_id, req.container_port),
            0,
        ).insert(sidecar_name_of(req.ws_id, req.container_port), 1),
{
    reveal_strlit("run");
    reveal_strlit("inspect");
    let name = sidecar_name_of(req.ws_id, req.container_port);
    let removal = step_args(req, StepModel::RemoveExisting);
    let lookup = step_args(req, StepModel::ResolveAddress);
    let launch = step_args(req, StepModel::Launch { address });
    assert(removal.len() == 3 && removal[0] == "rm"@ && removal[1] == "-f"@ && removal[2] == name);
    let removed = sidecars_after(sidecars, removal);
    assert(removed == sidecars.insert(name, 0));
    assert(lookup.len() == 4 && lookup[0] == "inspect"@);
    assert("inspect"@.len() != "run"@.len());
    assert(sidecars_after(removed, lookup) == removed);
    assert(launch.len() >= 4 && launch[0] == "run"@ && launch[2] == "--name"@ && launch[3]
        == name);
    assert(running(removed, name) == 0);
}

/// The lines of what a command printed that are not empty, once surrounding
/// whitespace is removed from the whole.
pub open spec fn listed_lines(stdout: Seq<char>) -> Seq<Seq<char>> {
    lines(trimmed(stdout)).filter(|line: Seq<char>| line.len() > 0)
}

/// The lines of `stdout` that are not empty.
pub fn nonempty_lines(stdout: &str) -> (out: Vec<Vec<char>>)
    ensures
        views(out@) == listed_lines(stdout@),
{
    let text = trimmed_chars(stdout);
    let rows = split_lines(&text);
    let ghost keep = |line: Seq<char>| line.len() > 0;
    let mut out: Vec<Vec<char>> = Vec::new();
    let mut i: usize = 0;
    assert(views(out@) =~= Seq::<Seq<char>>::empty());
    assert(views(rows@).take(0) =~= Seq::<Seq<char>>::empty());
    while i < rows.len()
        invariant
            i <= rows.len(),
            keep == |line: Seq<char>| line.len() > 0,
            views(out@) == views(rows@).take(i as int).filter(keep),
        decreases rows.len() - i,
    {
        let ghost before = views(out@);
        proof {
            assert(views(rows@)[i as int] == rows@[i as int]@);
            assert(views(rows@).take(i + 1) =~= views(rows@).take(i as int).push(
                rows@[i as int]@,
            ));
            views(rows@).take(i as int).lemma_filter_push(rows@[i as int]@, keep);
        }
        if rows[i].len() > 0 {
            let row = copy_range(&rows[i], 0, rows[i].len());
            assert(row@ =~= rows@[i as int]@);
            out.push(row);
            assert(views(out@) =~= before.push(row@));
        }
        i += 1;
    }
    assert(views(rows@).take(rows.len() as int) =~= views(rows@));
    out
}

/// The arguments that list the identifiers of a workspace's sidecars, all of
/// them or those of one source.
pub open spec fn sweep_args(ws_id: Seq<char>, source: Option<Seq<char>>) -> Seq<Seq<char>> {
    seq![
        "ps"@,
        "-q"@,
        "--filter"@,
        "label=role=port-forward"@,
        "--filter"@,
        "label=workspace="@ + ws_id,
    ] + (match source {
        Some(s) => seq!["--filter"@, "label=source="@ + s],
        None => Seq::<Seq<char>>::empty(),
    })
}

/// The arguments of the command that lists every sidecar of a workspace.
pub fn remove_all_port_forwards_args(ws_id: &str) -> (args: Vec<String>)
    ensures
        strings(args@) == sweep_args(ws_id@, None),
{
    let mut args: Vec<String> = Vec::new();
    assert(strings(args@) =~= Seq::<Seq<char>>::empty());
    push_text(&mut args, "ps");
    push_text(&mut args, "-q");
    push_text(&mut args, "--filter");
    push_text(&mut args, "label=role=port-forward");
    push_text(&mut args, "--filter");
    push_arg(&mut args, join_text("label=workspace=", ws_id));
    assert(strings(args@) =~= sweep_args(ws_id@, None));
    args
}

/// The arguments of the command that lists the sidecars of a workspace that
/// carry the source `source`.
pub fn remove_port_forwards_by_source_args(ws_id: &str, source: &str) -> (args: Vec<String>)
    ensures
        strings(args@) == sweep_args(ws_id@, Some(source@)),
{
    let mut args = remove_all_port_forwards_args(ws_id);
    push_text(&mut args, "--filter");
    push_arg(&mut args, join_text("label=source=", source));
    assert(strings(args@) =~= sweep_args(ws_id@, Some(source@)));
    args
}

/// The views of a vector of argument lists.
pub open spec fn arg_lists(v: Seq<Vec<String>>) -> Seq<Seq<Seq<char>>> {
    v.map_values(|args: Vec<String>| strings(args@))
}

/// The removals that a listing calls for: one forced removal per identifier
/// listed. Only a listing that could not be started is an error; what a listing
/// printed is used whether or not it reported success.
pub open spec fn removals(result: ResultModel, operation: OperationModel) -> Result<
    Seq<Seq<Seq<char>>>,
    ErrorModel,
> {
    match result {
        ResultModel::NotStarted => Err(ErrorModel::NotStarted { operation }),
        ResultModel::Finished { success, stdout, stderr } => Ok(
            listed_lines(stdout).map_values(|id: Seq<char>| remove_args(id)),
        ),
    }
}

/// The model of an outcome that carries argument lists.
pub open spec fn lists_outcome(r: Result<Vec<Vec<String>>, DockerError>) -> Result<
    Seq<Seq<Seq<char>>>,
    ErrorModel,
> {
    match r {
        Ok(lists) => Ok(arg_lists(lists@)),
        Err(e) => Err(e@),
    }
}

/// The removal commands for the sidecars that a listing names.
pub fn removal_commands(result: CommandResult, operation: Operation) -> (r: Result<
    Vec<Vec<String>>,
    DockerError,
>)
    ensures
        lists_outcome(r) == removals(result@, operation@),
{
    match result {
        CommandResult::NotStarted => Err(DockerError::NotStarted { operation }),
        CommandResult::Finished { success, stdout, stderr } => {
            let ids = nonempty_lines(stdout.as_str());
            let mut commands: Vec<Vec<String>> = Vec::new();
            let mut i: usize = 0;
            while i < ids.len()
                invariant
                    i <= ids.len(),
                    commands@.len() == i,
                    forall|j: int|
                        0 <= j < i ==> strings((#[trigger] commands@[j])@) == remove_args(
                            ids@[j]@,
                        ),
                decreases ids.len() - i,
            {
                let id = string_of(&ids[i]);
                commands.push(remove_container_args(id.as_str()));
                i += 1;
            }
            assert(arg_lists(commands@) =~= views(ids@).map_values(
                |id: Seq<char>| remove_args(id),
            ));
            Ok(commands)
        },
    }
}

/// The commands that remove every sidecar of a workspace, from the listing of
/// them. The caller runs each and goes on when one fails, so that as much as
/// possible is removed.
pub fn remove_all_port_forwards(result: CommandResult) -> (r: Result<
    Vec<Vec<String>>,
    DockerError,
>)
    ensures
        lists_outcome(r) == removals(result@, OperationModel::ListForwards),
{
    removal_commands(result, Operation::ListForwards)
}

/// The commands that remove the sidecars of one source, from the listing of
/// them. The caller runs each and goes on when one fails.
pub fn remove_port_forwards_by_source(result: CommandResult) -> (r: Result<
    Vec<Vec<String>>,
    DockerError,
>)
    ensures
        lists_outcome(r) == removals(result@, OperationModel::ListForwardsBySource),
{
    removal_commands(result, Operation::ListForwardsBySource)
}

/// An active forward, as the runtime lists it.
#[derive(Clone, Debug, PartialEq, Eq)]
pub struct PortForwardInfo {
    /// The name of the sidecar.
    pub name: String,
    /// The host port, as the sidecar's label gives it.
    pub host_port: String,
    /// The container port, as the sidecar's label gives it.
    pub container_port: String,
}

/// The model of a `PortForwardInfo`.
pub struct InfoModel {
    pub name: Seq<char>,
    pub host_port: Seq<char>,
    pub container_port: Seq<char>,
}

impl View for PortForwardInfo {
    type V = InfoModel;

    open spec fn view(&self) -> InfoModel {
        InfoModel {
            name: self.name@,
            host_port: self.host_port@,
            container_port: self.container_port@,
        }
    }
}

/// The format in which the runtime is asked to list a sidecar: its name, host
/// port and container port, separated by tabs.
pub open spec fn list_format() -> Seq<char> {
    "{{.Names}}\t{{.Label \"host_port\"}}\t{{.Label \"port\"}}"@
}

/// The arguments that list the sidecars of a workspace for display.
pub open spec fn list_args(ws_id: Seq<char>) -> Seq<Seq<char>> {
    seq![
        "ps"@,
        "--filter"@,
        "label=role=port-forward"@,
        "--filter"@,
        "label=workspace="@ + ws_id,
        "--format"@,
        list_format(),
    ]
}

/// The arguments of the command that lists the sidecars of a workspace.
pub fn list_port_forwards_args(ws_id: &str) -> (args: Vec<String>)
    ensures
        strings(args@) == list_args(ws_id@),
{
    let mut args: Vec<String> = Vec::new();
    assert(strings(args@) =~= Seq::<Seq<char>>::empty());
    push_text(&mut args, "ps");
    push_text(&mut args, "--filter");
    push_text(&mut args, "label=role=port-forward");
    push_text(&mut args, "--filter");
    push_arg(&mut args, join_text("label=workspace=", ws_id));
    push_text(&mut args, "--format");
    push_text(&mut args, "{{.Names}}\t{{.Label \"host_port\"}}\t{{.Label \"port\"}}");
    assert(strings(args@) =~= list_args(ws_id@));
    args
}

/// The `i`-th of the fields `parts`; empty if there are not that many.
pub open spec fn field(parts: Seq<Seq<char>>, i: int) -> Seq<char> {
    if 0 <= i < parts.len() {
        parts[i]
    } else {
        Seq::<char>::empty()
    }
}

/// The forward that one line of the listing describes: its tab-separated
/// fields are the name, the host port and the container port.
pub open spec fn info_of_line(line: Seq<char>) -> InfoModel {
    let parts = pieces(line, Separator::Char('\t'));
    InfoModel { name: field(parts, 0), host_port: field(parts, 1), container_port: field(parts, 2) }
}

/// The forwards that a listing describes, one per line that is not empty.
pub open spec fn listed_forwards(result: ResultModel) -> Result<Seq<InfoModel>, ErrorModel> {
    match output_of(result, OperationModel::ListForwards) {
        Err(e) => Err(e),
        Ok(stdout) => Ok(listed_lines(stdout).map_values(|line: Seq<char>| info_of_line(line))),
    }
}

/// The `i`-th of the fields `parts` as a string; empty if there are not that
/// many.
pub fn field_text(parts: &Vec<Vec<char>>, i: usize) -> (out: String)
    ensures
        out@ == field(views(parts@), i as int),
{
    if i < parts.len() {
        assert(views(parts@)[i as int] == parts@[i as int]@);
        string_of(&parts[i])
    } else {
        String::new()
    }
}

/// The active forwards of a workspace, from the listing of its sidecars.
pub fn list_port_forwards(result: CommandResult) -> (r: Result<Vec<PortForwardInfo>, DockerError>)
    ensures
        match r {
            Ok(forwards) => listed_forwards(result@) == Ok::<Seq<InfoModel>, ErrorModel>(
                forwards@.map_values(|info: PortForwardInfo| info@),
            ),
            Err(e) => listed_forwards(result@) == Err::<Seq<InfoModel>, ErrorModel>(e@),
        },
{
    let stdout = match checked_output(result, Operation::ListForwards) {
        Ok(text) => text,
        Err(e) => {
            return Err(e);
        },
    };
    let rows = nonempty_lines(stdout.as_str());
    let mut forwards: Vec<PortForwardInfo> = Vec::new();
    let mut i: usize = 0;
    while i < rows.len()
        invariant
            i <= rows.len(),
            forwards@.len() == i,
            forall|j: int| 0 <= j < i ==> (#[trigger] forwards@[j])@ == info_of_line(rows@[j]@),
        decreases rows.len() - i,
    {
        let parts = split(&rows[i], Separator::Char('\t'));
        let info = PortForwardInfo {
            name: field_text(&parts, 0),
            host_port: field_text(&parts, 1),
            container_port: field_text(&parts, 2),
        };
        forwards.push(info);
        i += 1;
    }
    assert(forwards@.map_values(|info: PortForwardInfo| info@) =~= views(rows@).map_values(
        |line: Seq<char>| info_of_line(line),
    ));
    Ok(forwards)
}

} // verus!
