use dcw::docker::{
    exec_in_container, exec_in_container_args, find_devcontainer, find_devcontainer_args,
    get_container_ip, get_container_ip_args, get_container_network, get_container_network_args,
    is_container_running, is_container_running_args, launch_sidecar_args, list_port_forwards,
    list_port_forwards_args, remove_all_port_forwards, remove_all_port_forwards_args,
    remove_port_forward, remove_port_forward_args, remove_port_forwards_by_source,
    remove_port_forwards_by_source_args, sidecar_name, start_port_forward,
    start_port_forward_args, CommandResult, DockerError, ForwardRequest, ForwardStep, Operation,
    PortForwardInfo,
};
use std::collections::BTreeMap;

fn ok(stdout: &str) -> CommandResult {
    CommandResult::Finished { success: true, stdout: stdout.to_string(), stderr: String::new() }
}

fn fail(stderr: &str) -> CommandResult {
    CommandResult::Finished { success: false, stdout: String::new(), stderr: stderr.to_string() }
}

fn strs(args: &[&str]) -> Vec<String> {
    args.iter().map(|s| s.to_string()).collect()
}

fn request(host_port: u16, container_port: u16, source: Option<&str>, detach: bool) -> ForwardRequest {
    ForwardRequest {
        ws_id: "dev-app-0a1b2c3d".to_string(),
        container_id: "abc123".to_string(),
        host_port,
        container_port,
        network: "bridge".to_string(),
        detach,
        source: source.map(|s| s.to_string()),
    }
}

#[test]
fn exec_runs_a_command_in_the_container() {
    assert_eq!(
        exec_in_container_args("abc123", &strs(&["cat", "/proc/net/tcp"])),
        strs(&["exec", "abc123", "cat", "/proc/net/tcp"])
    );
    assert_eq!(exec_in_container_args("c", &vec![]), strs(&["exec", "c"]));
    assert_eq!(exec_in_container(ok(" out\n")), Ok(" out\n".to_string()));
    assert_eq!(
        exec_in_container(fail("no such container")),
        Err(DockerError::Failed {
            operation: Operation::Exec,
            stderr: "no such container".to_string()
        })
    );
    assert_eq!(
        exec_in_container(CommandResult::NotStarted),
        Err(DockerError::NotStarted { operation: Operation::Exec })
    );
}

#[test]
fn a_container_runs_if_the_runtime_says_true() {
    assert_eq!(
        is_container_running_args("abc123"),
        strs(&["inspect", "-f", "{{.State.Running}}", "abc123"])
    );
    assert_eq!(is_container_running(ok("true\n")), Ok(true));
    assert_eq!(is_container_running(ok("  true  ")), Ok(true));
    assert_eq!(is_container_running(ok("false\n")), Ok(false));
    assert_eq!(is_container_running(ok("True")), Ok(false));
    assert_eq!(is_container_running(ok("truex")), Ok(false));
    assert_eq!(is_container_running(ok("")), Ok(false));
    assert_eq!(is_container_running(fail("gone")), Ok(false));
    let lying = CommandResult::Finished {
        success: false,
        stdout: "true".to_string(),
        stderr: String::new(),
    };
    assert_eq!(is_container_running(lying), Ok(false));
    assert_eq!(
        is_container_running(CommandResult::NotStarted),
        Err(DockerError::NotStarted { operation: Operation::Inspect })
    );
}

#[test]
fn the_container_of_a_workspace_is_found_by_its_label() {
    assert_eq!(
        find_devcontainer_args("/home/user/app"),
        strs(&["ps", "-q", "--filter", "label=devcontainer.local_folder=/home/user/app"])
    );
    assert_eq!(find_devcontainer(ok("abc123\n")), Ok(Some("abc123".to_string())));
    assert_eq!(find_devcontainer(ok("\n abc123\ndef456\n")), Ok(Some("abc123".to_string())));
    assert_eq!(find_devcontainer(ok("abc123\r\ndef456")), Ok(Some("abc123".to_string())));
    assert_eq!(find_devcontainer(ok("")), Ok(None));
    assert_eq!(find_devcontainer(ok(" \n\t")), Ok(None));
    assert_eq!(
        find_devcontainer(fail("daemon down")),
        Err(DockerError::Failed {
            operation: Operation::FindContainer,
            stderr: "daemon down".to_string()
        })
    );
    assert_eq!(
        find_devcontainer(CommandResult::NotStarted),
        Err(DockerError::NotStarted { operation: Operation::FindContainer })
    );
}

#[test]
fn the_network_of_a_container_is_the_first_named() {
    assert_eq!(
        get_container_network_args("abc123"),
        strs(&[
            "inspect",
            "-f",
            "{{range $k, $v := .NetworkSettings.Networks}}{{$k}}{{end}}",
            "abc123"
        ])
    );
    assert_eq!(get_container_network("abc123", ok("bridge\n")), Ok("bridge".to_string()));
    assert_eq!(get_container_network("abc123", ok(" net1\nnet2 ")), Ok("net1".to_string()));
    assert_eq!(get_container_network("abc123", ok("net1\r\nnet2")), Ok("net1\r".to_string()));
    assert_eq!(
        get_container_network("abc123", ok("  \n")),
        Err(DockerError::NoNetworks { container: "abc123".to_string() })
    );
    assert_eq!(
        get_container_network("abc123", fail("boom")),
        Err(DockerError::Failed { operation: Operation::Inspect, stderr: "boom".to_string() })
    );
    assert_eq!(
        get_container_network("abc123", CommandResult::NotStarted),
        Err(DockerError::NotStarted { operation: Operation::Inspect })
    );
}

#[test]
fn the_address_of_a_container_is_asked_per_network() {
    assert_eq!(
        get_container_ip_args("abc123", "bridge"),
        strs(&["inspect", "-f", "{{.NetworkSettings.Networks.bridge.IPAddress}}", "abc123"])
    );
    assert_eq!(get_container_ip("abc123", "bridge", ok("172.17.0.2\n")), Ok("172.17.0.2".to_string()));
    assert_eq!(
        get_container_ip("abc123", "bridge", ok("\n")),
        Err(DockerError::NoAddress {
            container: "abc123".to_string(),
            network: "bridge".to_string()
        })
    );
    assert_eq!(
        get_container_ip("abc123", "bridge", fail("boom")),
        Err(DockerError::Failed {
            operation: Operation::InspectAddress,
            stderr: "boom".to_string()
        })
    );
    assert_eq!(
        get_container_ip("abc123", "bridge", CommandResult::NotStarted),
        Err(DockerError::NotStarted { operation: Operation::InspectAddress })
    );
}

#[test]
fn a_sidecar_is_named_by_workspace_and_container_port() {
    assert_eq!(sidecar_name("dev-app-0a1b2c3d", 3000), "pf-dev-app-0a1b2c3d-c3000");
    assert_eq!(sidecar_name("w", 0), "pf-w-c0");
    assert_eq!(sidecar_name("w", 65535), "pf-w-c65535");
    assert_eq!(sidecar_name("", 10), "pf--c10");
}

#[test]
fn a_sidecar_is_launched_with_its_labels() {
    assert_eq!(
        launch_sidecar_args(&request(8080, 3000, Some("watch"), true), "172.17.0.2"),
        strs(&[
            "run",
            "--rm",
            "--name",
            "pf-dev-app-0a1b2c3d-c3000",
            "--network",
            "bridge",
            "--label",
            "role=port-forward",
            "--label",
            "workspace=dev-app-0a1b2c3d",
            "--label",
            "port=3000",
            "--label",
            "host_port=8080",
            "--label",
            "source=watch",
            "-p",
            "127.0.0.1:8080:8080",
            "-d",
            "alpine/socat",
            "TCP-LISTEN:8080,fork,reuseaddr",
            "TCP:172.17.0.2:3000",
        ])
    );
    assert_eq!(
        launch_sidecar_args(&request(3000, 3000, None, false), "10.0.0.9"),
        strs(&[
            "run",
            "--rm",
            "--name",
            "pf-dev-app-0a1b2c3d-c3000",
            "--network",
            "bridge",
            "--label",
            "role=port-forward",
            "--label",
            "workspace=dev-app-0a1b2c3d",
            "--label",
            "port=3000",
            "--label",
            "host_port=3000",
            "-p",
            "127.0.0.1:3000:3000",
            "alpine/socat",
            "TCP-LISTEN:3000,fork,reuseaddr",
            "TCP:10.0.0.9:3000",
        ])
    );
}

#[test]
fn a_forward_is_made_in_three_commands() {
    let req = request(3000, 3000, None, true);
    let step = ForwardStep::RemoveExisting;
    assert_eq!(
        start_port_forward_args(&req, &step),
        strs(&["rm", "-f", "pf-dev-app-0a1b2c3d-c3000"])
    );
    let step = start_port_forward(&req, step, fail("No such container"));
    assert_eq!(step, ForwardStep::ResolveAddress);
    assert_eq!(start_port_forward_args(&req, &step), get_container_ip_args("abc123", "bridge"));
    let step = start_port_forward(&req, step, ok("172.17.0.2\n"));
    assert_eq!(step, ForwardStep::Launch { address: "172.17.0.2".to_string() });
    assert_eq!(start_port_forward_args(&req, &step), launch_sidecar_args(&req, "172.17.0.2"));
    let step = start_port_forward(&req, step, ok("4f5e6d\n"));
    assert_eq!(step, ForwardStep::Made);
    assert_eq!(start_port_forward_args(&req, &step), Vec::<String>::new());
    assert_eq!(start_port_forward(&req, step, CommandResult::NotStarted), ForwardStep::Made);
}

#[test]
fn a_forward_fails_without_an_address_or_a_launch() {
    let req = request(3000, 3000, None, true);
    let no_address = DockerError::NoAddress {
        container: "abc123".to_string(),
        network: "bridge".to_string(),
    };
    let step = start_port_forward(&req, ForwardStep::ResolveAddress, ok(""));
    assert_eq!(step, ForwardStep::Failed(no_address.clone()));
    assert_eq!(start_port_forward_args(&req, &step), Vec::<String>::new());
    assert_eq!(start_port_forward(&req, step, ok("x")), ForwardStep::Failed(no_address));

    let launch = ForwardStep::Launch { address: "172.17.0.2".to_string() };
    assert_eq!(
        start_port_forward(&req, launch.clone(), fail("port is already allocated")),
        ForwardStep::Failed(DockerError::Failed {
            operation: Operation::StartForward { sidecar: "pf-dev-app-0a1b2c3d-c3000".to_string() },
            stderr: "port is already allocated".to_string(),
        })
    );
    assert_eq!(
        start_port_forward(&req, launch, CommandResult::NotStarted),
        ForwardStep::Failed(DockerError::NotStarted {
            operation: Operation::StartForward { sidecar: "pf-dev-app-0a1b2c3d-c3000".to_string() },
        })
    );
    assert_eq!(
        start_port_forward(&req, ForwardStep::ResolveAddress, CommandResult::NotStarted),
        ForwardStep::Failed(DockerError::NotStarted { operation: Operation::InspectAddress })
    );
}

fn runtime(containers: &mut BTreeMap<String, Vec<String>>, args: &[String]) -> CommandResult {
    match args[0].as_str() {
        "rm" => match containers.remove(&args[2]) {
            Some(_) => ok(&args[2]),
            None => fail("No such container"),
        },
        "inspect" => ok("172.17.0.2\n"),
        "run" => {
            let name = args[args.iter().position(|a| a == "--name").unwrap() + 1].clone();
            if containers.contains_key(&name) {
                fail("Conflict. The container name is already in use")
            } else {
                containers.insert(name, args.to_vec());
                ok("0123456789ab\n")
            }
        }
        other => panic!("unexpected command {other}"),
    }
}

fn upsert(containers: &mut BTreeMap<String, Vec<String>>, req: &ForwardRequest) -> ForwardStep {
    let mut step = ForwardStep::RemoveExisting;
    loop {
        let args = start_port_forward_args(req, &step);
        if args.is_empty() {
            return step;
        }
        let result = runtime(containers, &args);
        step = start_port_forward(req, step, result);
    }
}

#[test]
fn adding_a_forward_twice_leaves_one_sidecar() {
    let mut containers = BTreeMap::new();
    let req = request(3000, 3000, None, true);
    assert_eq!(upsert(&mut containers, &req), ForwardStep::Made);
    assert_eq!(upsert(&mut containers, &req), ForwardStep::Made);
    let names: Vec<&String> = containers.keys().collect();
    assert_eq!(names, vec![&sidecar_name("dev-app-0a1b2c3d", 3000)]);

    let other_host = request(8080, 3000, Some("watch"), true);
    assert_eq!(upsert(&mut containers, &other_host), ForwardStep::Made);
    assert_eq!(containers.len(), 1);
    assert!(containers["pf-dev-app-0a1b2c3d-c3000"].contains(&"host_port=8080".to_string()));

    let launch = launch_sidecar_args(&req, "172.17.0.2");
    assert_eq!(
        runtime(&mut containers, &launch),
        fail("Conflict. The container name is already in use")
    );
    assert_eq!(upsert(&mut containers, &request(4000, 4000, None, true)), ForwardStep::Made);
    assert_eq!(containers.len(), 2);
}

#[test]
fn a_forward_is_removed_by_name() {
    assert_eq!(
        remove_port_forward_args("dev-app-0a1b2c3d", 3000),
        strs(&["rm", "-f", "pf-dev-app-0a1b2c3d-c3000"])
    );
    assert_eq!(remove_port_forward("w", 3000, ok("pf-w-c3000\n")), Ok(()));
    assert_eq!(
        remove_port_forward("w", 3000, fail("daemon down")),
        Err(DockerError::Failed {
            operation: Operation::RemoveForward { sidecar: "pf-w-c3000".to_string() },
            stderr: "daemon down".to_string(),
        })
    );
    assert_eq!(
        remove_port_forward("w", 3000, CommandResult::NotStarted),
        Err(DockerError::NotStarted {
            operation: Operation::RemoveForward { sidecar: "pf-w-c3000".to_string() }
        })
    );
}

#[test]
fn a_sweep_removes_every_listed_sidecar() {
    assert_eq!(
        remove_all_port_forwards_args("dev-app-0a1b2c3d"),
        strs(&[
            "ps",
            "-q",
            "--filter",
            "label=role=port-forward",
            "--filter",
            "label=workspace=dev-app-0a1b2c3d",
        ])
    );
    assert_eq!(
        remove_port_forwards_by_source_args("dev-app-0a1b2c3d", "watch"),
        strs(&[
            "ps",
            "-q",
            "--filter",
            "label=role=port-forward",
            "--filter",
            "label=workspace=dev-app-0a1b2c3d",
            "--filter",
            "label=source=watch",
        ])
    );
    let expected = vec![strs(&["rm", "-f", "aaa"]), strs(&["rm", "-f", "bbb"])];
    assert_eq!(remove_all_port_forwards(ok("aaa\nbbb\n")), Ok(expected.clone()));
    assert_eq!(remove_all_port_forwards(ok("\n aaa\n\nbbb\r\n \n")), Ok(expected.clone()));
    assert_eq!(remove_port_forwards_by_source(ok("aaa\nbbb")), Ok(expected.clone()));
    assert_eq!(remove_all_port_forwards(ok("")), Ok(vec![]));
    let partial = CommandResult::Finished {
        success: false,
        stdout: "aaa\nbbb\n".to_string(),
        stderr: "warning".to_string(),
    };
    assert_eq!(remove_port_forwards_by_source(partial), Ok(expected));
    assert_eq!(
        remove_all_port_forwards(CommandResult::NotStarted),
        Err(DockerError::NotStarted { operation: Operation::ListForwards })
    );
    assert_eq!(
        remove_port_forwards_by_source(CommandResult::NotStarted),
        Err(DockerError::NotStarted { operation: Operation::ListForwardsBySource })
    );
}

#[test]
fn forwards_are_listed_by_name_and_ports() {
    assert_eq!(
        list_port_forwards_args("dev-app-0a1b2c3d"),
        strs(&[
            "ps",
            "--filter",
            "label=role=port-forward",
            "--filter",
            "label=workspace=dev-app-0a1b2c3d",
            "--format",
            "{{.Names}}\t{{.Label \"host_port\"}}\t{{.Label \"port\"}}",
        ])
    );
    let info = |name: &str, host: &str, container: &str| PortForwardInfo {
        name: name.to_string(),
        host_port: host.to_string(),
        container_port: container.to_string(),
    };
    assert_eq!(
        list_port_forwards(ok("pf-w-c3000\t8080\t3000\npf-w-c4000\t4000\t4000\n")),
        Ok(vec![info("pf-w-c3000", "8080", "3000"), info("pf-w-c4000", "4000", "4000")])
    );
    assert_eq!(
        list_port_forwards(ok("only-name\n\nname\thost\nn\t\tc\textra\n")),
        Ok(vec![info("only-name", "", ""), info("name", "host", ""), info("n", "", "c")])
    );
    assert_eq!(list_port_forwards(ok(" \n")), Ok(vec![]));
    assert_eq!(
        list_port_forwards(fail("daemon down")),
        Err(DockerError::Failed {
            operation: Operation::ListForwards,
            stderr: "daemon down".to_string()
        })
    );
    assert_eq!(
        list_port_forwards(CommandResult::NotStarted),
        Err(DockerError::NotStarted { operation: Operation::ListForwards })
    );
}
