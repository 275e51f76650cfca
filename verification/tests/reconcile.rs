use dcw::commands::watch::{
    detect_listening_ports, drain_args, run_watch, watch_forward_request, WatchAction, WatchConfig,
    WatchError, WatchEvent, Watcher,
};
use dcw::docker::{
    launch_sidecar_args, remove_port_forwards_by_source_args, DockerError, ForwardRequest,
    Operation,
};
use std::collections::HashSet;

fn set(ports: &[u16]) -> HashSet<u16> {
    ports.iter().copied().collect()
}

fn config(min_port: u16, exclude: &[u16]) -> WatchConfig {
    WatchConfig { interval: 2, min_port, exclude_ports: set(exclude) }
}

fn started(min_port: u16, exclude: &[u16]) -> Watcher {
    let mut w = run_watch(config(min_port, exclude));
    assert_eq!(w.action(), WatchAction::FindContainer);
    assert_eq!(
        w.handle(WatchEvent::ContainerFound(Ok(Some("abc123".to_string())))),
        WatchAction::FindNetwork
    );
    assert_eq!(
        w.handle(WatchEvent::NetworkFound(Ok("bridge".to_string()))),
        WatchAction::AwaitTick
    );
    w
}

fn probe(w: &mut Watcher, ports: &[u16]) {
    assert_eq!(w.handle(WatchEvent::Tick { cancelled: false }), WatchAction::CheckContainer);
    assert_eq!(w.handle(WatchEvent::ContainerChecked(Ok(true))), WatchAction::Probe);
    assert_eq!(w.handle(WatchEvent::Probed(Ok(set(ports)))), WatchAction::Converge);
}

fn failed() -> DockerError {
    DockerError::NotStarted { operation: Operation::Exec }
}

#[test]
fn two_ticks_converge_on_what_listens() {
    let mut w = started(1024, &[]);
    assert_eq!(w.container(), "abc123");
    assert_eq!(w.network(), "bridge");
    assert_eq!(w.interval(), 2);
    assert!(w.managed().is_empty());

    probe(&mut w, &[3000, 4000]);
    assert_eq!(w.to_create(), &vec![3000, 4000]);
    assert_eq!(w.to_remove(), &Vec::<u16>::new());
    assert_eq!(w.handle(WatchEvent::Converged { created: vec![true, true] }), WatchAction::Sleep);
    assert_eq!(w.managed(), &set(&[3000, 4000]));
    assert_eq!(w.handle(WatchEvent::Slept), WatchAction::AwaitTick);

    probe(&mut w, &[4000, 5000]);
    assert_eq!(w.to_create(), &vec![5000]);
    assert_eq!(w.to_remove(), &vec![3000]);
    assert_eq!(w.handle(WatchEvent::Converged { created: vec![true] }), WatchAction::Sleep);
    assert_eq!(w.managed(), &set(&[4000, 5000]));
    assert_eq!(w.to_create(), &Vec::<u16>::new());
    assert_eq!(w.to_remove(), &Vec::<u16>::new());
}

#[test]
fn policy_filters_what_is_forwarded() {
    let mut w = started(1024, &[8080, 9000]);
    probe(&mut w, &[22, 80, 1023, 1024, 3000, 8080, 9000, 65535]);
    assert_eq!(w.to_create(), &vec![1024, 3000, 65535]);
    w.handle(WatchEvent::Converged { created: vec![true, true, true] });
    assert_eq!(w.managed(), &set(&[1024, 3000, 65535]));

    let mut all = started(0, &[]);
    probe(&mut all, &[0, 22]);
    assert_eq!(all.to_create(), &vec![0, 22]);
}

#[test]
fn a_failed_forward_is_tried_again() {
    let mut w = started(1024, &[]);
    probe(&mut w, &[3000, 4000, 5000]);
    w.handle(WatchEvent::Converged { created: vec![true, false] });
    assert_eq!(w.managed(), &set(&[3000]));
    w.handle(WatchEvent::Slept);
    probe(&mut w, &[3000, 4000, 5000]);
    assert_eq!(w.to_create(), &vec![4000, 5000]);
    assert_eq!(w.to_remove(), &Vec::<u16>::new());
}

#[test]
fn a_failed_probe_keeps_the_forwards() {
    let mut w = started(1024, &[]);
    probe(&mut w, &[3000]);
    w.handle(WatchEvent::Converged { created: vec![true] });
    w.handle(WatchEvent::Slept);
    w.handle(WatchEvent::Tick { cancelled: false });
    w.handle(WatchEvent::ContainerChecked(Ok(true)));
    assert_eq!(w.handle(WatchEvent::Probed(Err(failed()))), WatchAction::Sleep);
    assert_eq!(w.managed(), &set(&[3000]));
    assert_eq!(w.failure(), &None);
    assert_eq!(w.handle(WatchEvent::Slept), WatchAction::AwaitTick);
}

#[test]
fn cancellation_and_container_loss_drain() {
    let mut w = started(1024, &[]);
    assert_eq!(w.handle(WatchEvent::Tick { cancelled: true }), WatchAction::Drain);
    assert_eq!(w.handle(WatchEvent::Drained(Ok(()))), WatchAction::Exit);
    assert_eq!(w.failure(), &None);

    let mut w = started(1024, &[]);
    w.handle(WatchEvent::Tick { cancelled: false });
    assert_eq!(w.handle(WatchEvent::ContainerChecked(Ok(false))), WatchAction::Drain);
    assert_eq!(w.handle(WatchEvent::Drained(Err(failed()))), WatchAction::Exit);
    assert_eq!(w.failure(), &Some(WatchError::Docker(failed())));
}

#[test]
fn a_watch_needs_a_running_container() {
    let mut w = run_watch(config(1024, &[]));
    assert_eq!(w.handle(WatchEvent::ContainerFound(Ok(None))), WatchAction::Exit);
    assert_eq!(w.failure(), &Some(WatchError::NoContainer));

    let mut w = run_watch(config(1024, &[]));
    assert_eq!(w.handle(WatchEvent::ContainerFound(Err(failed()))), WatchAction::Exit);
    assert_eq!(w.failure(), &Some(WatchError::Docker(failed())));

    let mut w = run_watch(config(1024, &[]));
    w.handle(WatchEvent::ContainerFound(Ok(Some("c".to_string()))));
    assert_eq!(w.handle(WatchEvent::NetworkFound(Err(failed()))), WatchAction::Exit);

    let mut w = started(1024, &[]);
    w.handle(WatchEvent::Tick { cancelled: false });
    assert_eq!(w.handle(WatchEvent::ContainerChecked(Err(failed()))), WatchAction::Exit);
    assert_eq!(w.failure(), &Some(WatchError::Docker(failed())));
}

#[test]
fn an_event_out_of_turn_changes_nothing() {
    let mut w = started(1024, &[]);
    assert_eq!(w.handle(WatchEvent::Slept), WatchAction::AwaitTick);
    assert_eq!(w.handle(WatchEvent::Probed(Ok(set(&[3000])))), WatchAction::AwaitTick);
    assert!(w.managed().is_empty());
    assert_eq!(w.handle(WatchEvent::Converged { created: vec![true] }), WatchAction::AwaitTick);
    let mut done = started(1024, &[]);
    done.handle(WatchEvent::Tick { cancelled: true });
    done.handle(WatchEvent::Drained(Ok(())));
    assert_eq!(done.handle(WatchEvent::Tick { cancelled: false }), WatchAction::Exit);
}

#[test]
fn detection_unites_both_tables() {
    let v4 = "h\n0: 00000000:0BB8 00000000:0000 0A".to_string();
    let v6 = "h\n0: 0:1F90 0:0000 0A\n1: 0:0BB8 0:0000 0A".to_string();
    assert_eq!(detect_listening_ports(Ok(v4.clone()), Ok(v6)), Ok(set(&[3000, 8080])));
    assert_eq!(detect_listening_ports(Ok(v4.clone()), Err(failed())), Ok(set(&[3000])));
    assert_eq!(detect_listening_ports(Err(failed()), Ok(v4)), Err(failed()));
}

#[test]
fn a_watched_port_is_forwarded_to_itself_in_the_background() {
    let mut w = started(1024, &[]);
    probe(&mut w, &[3000, 4000]);
    let requests: Vec<ForwardRequest> = w
        .to_create()
        .iter()
        .map(|&port| watch_forward_request("dev-app-0a1b2c3d", &w, port))
        .collect();
    let expect = |port: u16| ForwardRequest {
        ws_id: "dev-app-0a1b2c3d".to_string(),
        container_id: "abc123".to_string(),
        host_port: port,
        container_port: port,
        network: "bridge".to_string(),
        detach: true,
        source: Some("watch".to_string()),
    };
    assert_eq!(requests, vec![expect(3000), expect(4000)]);
    let launch = launch_sidecar_args(&requests[0], "172.17.0.2");
    assert!(launch.contains(&"source=watch".to_string()));
    assert!(launch.contains(&"127.0.0.1:3000:3000".to_string()));
    assert!(launch.contains(&"-d".to_string()));
}

#[test]
fn the_final_sweep_is_by_source() {
    let expected: Vec<String> = [
        "ps",
        "-q",
        "--filter",
        "label=role=port-forward",
        "--filter",
        "label=workspace=dev-app-0a1b2c3d",
        "--filter",
        "label=source=watch",
    ]
    .iter()
    .map(|s| s.to_string())
    .collect();
    assert_eq!(drain_args("dev-app-0a1b2c3d"), expected);
    assert_eq!(
        drain_args("dev-app-0a1b2c3d"),
        remove_port_forwards_by_source_args("dev-app-0a1b2c3d", "watch")
    );
}
