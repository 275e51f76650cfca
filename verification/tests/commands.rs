use dcw::commands::down;
use dcw::commands::exec::{self, ExecArgs};
use dcw::commands::port::{self, PortAction, PortError, PortPlan};
use dcw::commands::stop::{self, StopError};
use dcw::commands::up::{self, auto_forward_ports, spawn_watcher, SpawnPlan, UpArgs};
use dcw::docker::ForwardRequest;
use dcw::workspace::{runtime_dir, Environment, WorkspaceError};

fn strs(args: &[&str]) -> Vec<String> {
    args.iter().map(|s| s.to_string()).collect()
}

#[test]
fn up_hands_its_arguments_to_the_sandbox_tool() {
    let mut args = UpArgs { rebuild: false, auto_forward: true, watch: true, extra: vec![] };
    assert_eq!(up::run(&args, "/home/user/app"), strs(&["up", "--workspace-folder", "/home/user/app"]));
    args.rebuild = true;
    args.extra = strs(&["--log-level", "debug"]);
    assert_eq!(
        up::run(&args, "/w"),
        strs(&["up", "--workspace-folder", "/w", "--remove-existing-container", "--log-level", "debug"])
    );
}

#[test]
fn exec_hands_its_command_to_the_sandbox_tool() {
    let args = ExecArgs { cmd: strs(&["cargo", "test", "--", "--nocapture"]) };
    assert_eq!(
        exec::run(&args, "/w", None),
        strs(&["exec", "--workspace-folder", "/w", "cargo", "test", "--", "--nocapture"])
    );
    assert_eq!(
        exec::run(&args, "/w", Some("/run/dcw/dev-w-1/devcontainer.json")),
        strs(&[
            "exec",
            "--workspace-folder",
            "/w",
            "--config",
            "/run/dcw/dev-w-1/devcontainer.json",
            "cargo",
            "test",
            "--",
            "--nocapture"
        ])
    );
}

#[test]
fn down_stops_a_container_that_runs() {
    assert_eq!(down::run(Some("abc123")), Some(strs(&["stop", "abc123"])));
    assert_eq!(down::run(None), None);
    assert_eq!(stop::run(Some("abc123")), Ok(strs(&["stop", "abc123"])));
    assert_eq!(stop::run(None), Err(StopError::NoContainer));
}

#[test]
fn start_up_forwards_each_configured_port() {
    let requests = auto_forward_ports("dev-w-1", "abc123", "bridge", &vec![3000, 8080]);
    let expect = |port: u16| ForwardRequest {
        ws_id: "dev-w-1".to_string(),
        container_id: "abc123".to_string(),
        host_port: port,
        container_port: port,
        network: "bridge".to_string(),
        detach: true,
        source: None,
    };
    assert_eq!(requests, vec![expect(3000), expect(8080)]);
    assert_eq!(auto_forward_ports("w", "c", "n", &vec![]), vec![]);
}

#[test]
fn the_watcher_is_started_as_port_watch() {
    let env = Environment {
        current_dir: Some("/home/user/app".to_string()),
        xdg_runtime_dir: Some("/run/user/1000".to_string()),
        uid: 1000,
    };
    let directory = runtime_dir(&env).unwrap();
    assert_eq!(
        spawn_watcher(&env),
        Ok(SpawnPlan {
            marker: format!("{directory}/watch.pid"),
            directory,
            args: strs(&["port", "watch"]),
        })
    );
    let lost = Environment { current_dir: None, xdg_runtime_dir: None, uid: 1 };
    assert_eq!(spawn_watcher(&lost), Err(WorkspaceError::NoCurrentDir));
    let root = Environment { current_dir: Some("/".to_string()), xdg_runtime_dir: None, uid: 1 };
    assert_eq!(spawn_watcher(&root), Err(WorkspaceError::NoBasename));
}

#[test]
fn a_port_command_comes_to_one_plan() {
    match port::run(&PortAction::Add { host_port: 8080, container_port: 3000, detach: true }) {
        Ok(PortPlan::Forward { host_port, container_port, detach }) => {
            assert_eq!((host_port, container_port, detach), (8080, 3000, true));
        }
        _ => panic!("expected a forward"),
    }
    assert!(matches!(
        port::run(&PortAction::Remove { port: Some(3000), all: false }),
        Ok(PortPlan::RemoveOne(3000))
    ));
    assert!(matches!(
        port::run(&PortAction::Remove { port: Some(3000), all: true }),
        Ok(PortPlan::RemoveAll)
    ));
    assert!(matches!(port::run(&PortAction::Remove { port: None, all: true }), Ok(PortPlan::RemoveAll)));
    assert!(matches!(
        port::run(&PortAction::Remove { port: None, all: false }),
        Err(PortError::NothingToRemove)
    ));
    assert!(matches!(port::run(&PortAction::List), Ok(PortPlan::List)));
    match port::run(&PortAction::Watch { interval: 5, min_port: 1024, exclude: vec![8080, 9000, 8080] }) {
        Ok(PortPlan::Watch(config)) => {
            assert_eq!(config.interval, 5);
            assert_eq!(config.min_port, 1024);
            assert_eq!(config.exclude_ports, [8080u16, 9000].into_iter().collect());
        }
        _ => panic!("expected a watch"),
    }
}
