//! Discovery of listening ports and the reconciliation of forwards with them.

use vstd::prelude::*;
use std::collections::HashSet;
use crate::docker::{
    remove_port_forwards_by_source_args, sweep_args, DockerError, ForwardRequest, RequestModel,
};
use crate::numbers::{parse_u16, unsigned_of};
use crate::ports::{ascending, difference, eligible, eligible_ports, extend, lemma_ascending};
use crate::text::{
    after_last, chars_of, is_row, lemma_words_of_row, lines, padded_row, split_lines,
    split_whitespace, strings, suffix_after_last, views, words,
};

verus! {

/// The state code of a listening socket in the kernel's socket tables.
pub open spec fn listen_state() -> Seq<char> {
    seq!['0', 'A']
}

/// The port that one row of a socket table contributes: the row has at least
/// four whitespace-separated fields, its fourth field is the LISTEN code, and
/// what follows the last colon of its second field is a 16-bit hexadecimal
/// number, which is the port.
pub open spec fn listen_port(row: Seq<char>) -> Option<u16> {
    let fields = words(row);
    if fields.len() >= 4 && fields[3] == listen_state() {
        match unsigned_of(after_last(fields[1], ':'), 16, 0xFFFF) {
            Some(p) => Some(p as u16),
            None => None,
        }
    } else {
        None
    }
}

/// The ports that the rows `rows[1..upto]` contribute; row 0 is the header.
pub open spec fn ports_of_rows(rows: Seq<Seq<char>>, upto: int) -> Set<u16> {
    Set::new(|p: u16| exists|i: int| 1 <= i < upto && #[trigger] listen_port(rows[i]) == Some(p))
}

/// The ports in LISTEN state that a socket table lists.
pub open spec fn listen_ports(content: Seq<char>) -> Set<u16> {
    ports_of_rows(lines(content), lines(content).len() as int)
}

/// What a row contributes depends on its fields alone, not on the width or the
/// kind of the whitespace around and between them: a row of at least four
/// fields whose fourth is the LISTEN code contributes the port that its second
/// field ends with, and any other row contributes nothing.
pub proof fn lemma_padding_does_not_matter(fields: Seq<Seq<char>>, pads: Seq<Seq<char>>)
    requires
        is_row(fields, pads),
    ensures
        listen_port(padded_row(fields, pads)) == if fields.len() >= 4 && fields[3]
            == listen_state() {
            match unsigned_of(after_last(fields[1], ':'), 16, 0xFFFF) {
                Some(p) => Some(p as u16),
                None => None,
            }
        } else {
            None
        },
{
    lemma_words_of_row(fields, pads);
}

/// The port of one row, if the row is a listening socket.
pub fn parse_row(row: &Vec<char>) -> (port: Option<u16>)
    ensures
        port == listen_port(row@),
{
    let fields = split_whitespace(row);
    if fields.len() < 4 {
        return None;
    }
    assert(views(fields@)[3] == fields@[3]@);
    assert(views(fields@)[1] == fields@[1]@);
    let state = &fields[3];
    if !(state.len() == 2 && state[0] == '0' && state[1] == 'A') {
        assert(state@ != listen_state()) by {
            if state@.len() == 2 {
                assert(state@[0] != listen_state()[0] || state@[1] != listen_state()[1]);
            }
        }
        return None;
    }
    assert(state@ =~= listen_state());
    let hex = suffix_after_last(&fields[1], ':');
    parse_u16(&hex, 16)
}

/// Parses the text of `/proc/net/tcp` or `/proc/net/tcp6` and returns the ports
/// in LISTEN state. The first line is the header; rows that are malformed or in
/// another state contribute nothing.
pub fn parse_proc_net_tcp(content: &str) -> (ports: HashSet<u16>)
    ensures
        ports@ == listen_ports(content@),
{
    let text = chars_of(content);
    let rows = split_lines(&text);
    let mut ports: HashSet<u16> = HashSet::new();
    let mut i: usize = 1;
    assert(ports@ =~= ports_of_rows(views(rows@), 1));
    while i < rows.len()
        invariant
            1 <= i,
            views(rows@) == lines(content@),
            i <= rows.len() ==> ports@ == ports_of_rows(views(rows@), i as int),
            i > rows.len() ==> ports@ == ports_of_rows(views(rows@), rows.len() as int),
        decreases rows.len() - i,
    {
        assert(views(rows@)[i as int] == rows@[i as int]@);
        let ghost before = ports@;
        let ghost table = views(rows@);
        match parse_row(&rows[i]) {
            Some(p) => {
                ports.insert(p);
            },
            None => {},
        }
        assert(ports@ =~= ports_of_rows(table, i + 1)) by {
            assert forall|q: u16| #[trigger] ports@.contains(q) implies ports_of_rows(
                table,
                i + 1,
            ).contains(q) by {
                if before.contains(q) {
                    let j = choose|j: int| 1 <= j < i && #[trigger] listen_port(table[j]) == Some(q);
                    assert(1 <= j < i + 1);
                } else {
                    assert(listen_port(table[i as int]) == Some(q));
                }
            }
        }
        i += 1;
    }
    assert(ports@ =~= listen_ports(content@));
    ports
}


/// The ports found by reading both socket tables of a container. The IPv4 table
/// is required; the IPv6 table is optional and a failure to read it is ignored.
pub fn detect_listening_ports(
    tcp: Result<String, DockerError>,
    tcp6: Result<String, DockerError>,
) -> (found: Result<HashSet<u16>, DockerError>)
    ensures
        match tcp {
            Err(e) => found == Err::<HashSet<u16>, DockerError>(e),
            Ok(v4) => found matches Ok(ports) && ports@ == listen_ports(v4@).union(
                match tcp6 {
                    Ok(v6) => listen_ports(v6@),
                    Err(_) => Set::<u16>::empty(),
                },
            ),
        },
{
    match tcp {
        Err(e) => Err(e),
        Ok(v4) => {
            let mut ports = parse_proc_net_tcp(v4.as_str());
            match tcp6 {
                Ok(v6) => {
                    let more = parse_proc_net_tcp(v6.as_str());
                    extend(&mut ports, &more);
                    Ok(ports)
                },
                Err(_) => {
                    assert(ports@ =~= ports@.union(Set::<u16>::empty()));
                    Ok(ports)
                },
            }
        },
    }
}


/// Settings of a watch.
pub struct WatchConfig {
    /// Seconds between two polls.
    pub interval: u64,
    /// Ports below this one are never forwarded.
    pub min_port: u16,
    /// Ports that are never forwarded.
    pub exclude_ports: HashSet<u16>,
}

/// Why a watch ended in failure.
#[derive(Clone, Debug, PartialEq, Eq)]
pub enum WatchError {
    /// No running container belongs to the workspace.
    NoContainer,
    /// The container runtime failed.
    Docker(DockerError),
}

/// What the driver of a watch has to do next.
#[derive(Clone, Copy, Debug, PartialEq, Eq, Structural)]
pub enum WatchAction {
    /// Look for the workspace's container and report `ContainerFound`.
    FindContainer,
    /// Look up the container's network and report `NetworkFound`.
    FindNetwork,
    /// Read the cancellation flag and report `Tick`.
    AwaitTick,
    /// Ask whether the container still runs and report `ContainerChecked`.
    CheckContainer,
    /// Read the socket tables and report `Probed`.
    Probe,
    /// Forward every port of `to_create` with the request that
    /// `watch_forward_request` gives for it, remove the forward of every port
    /// of `to_remove`, and report `Converged`.
    Converge,
    /// Sleep for the polling interval and report `Slept`.
    Sleep,
    /// Run the listing of `drain_args`, remove every sidecar that it names,
    /// and report `Drained`.
    Drain,
    /// Stop; `failure` tells how the watch ended.
    Exit,
}

/// What the driver reports back after an action.
pub enum WatchEvent {
    /// The outcome of looking for the container.
    ContainerFound(Result<Option<String>, DockerError>),
    /// The outcome of looking up the network.
    NetworkFound(Result<String, DockerError>),
    /// A tick begins; `cancelled` says whether an interrupt was requested.
    Tick { cancelled: bool },
    /// Whether the container still runs.
    ContainerChecked(Result<bool, DockerError>),
    /// The ports found listening.
    Probed(Result<HashSet<u16>, DockerError>),
    /// The forwards were attempted; `created[i]` says whether the forward of
    /// the `i`-th port of `to_create` succeeded. The outcomes of removals are
    /// not reported: a port whose removal failed is forgotten all the same.
    Converged { created: Vec<bool> },
    /// The polling interval has passed.
    Slept,
    /// The outcome of the final sweep.
    Drained(Result<(), DockerError>),
}

/// The state of a watch as the contracts see it.
pub struct WatchState {
    /// What the driver has to do next.
    pub action: WatchAction,
    /// The container under watch; empty until it is known.
    pub container: Seq<char>,
    /// The container's network; empty until it is known.
    pub network: Seq<char>,
    /// The ports believed to have a forward made by this watch.
    pub managed: Set<u16>,
    /// The ports to forward in the current tick.
    pub create: Seq<u16>,
    /// The ports whose forward is to be removed in the current tick.
    pub remove: Seq<u16>,
    /// Why the watch failed, if it did.
    pub failure: Option<WatchError>,
    /// Seconds between two polls.
    pub interval: u64,
    /// Ports below this one are never forwarded.
    pub min_port: u16,
    /// Ports that are never forwarded.
    pub excluded: Set<u16>,
}

/// `s` without the ports listed in `gone`.
pub open spec fn without(s: Set<u16>, gone: Seq<u16>) -> Set<u16> {
    Set::new(|p: u16| s.contains(p) && !gone.contains(p))
}

/// The ports among the first `upto` of `create` whose forward succeeded; a port
/// without a reported outcome counts as failed.
pub open spec fn created_upto(create: Seq<u16>, outcomes: Seq<bool>, upto: int) -> Set<u16> {
    Set::new(
        |p: u16|
            exists|i: int|
                0 <= i < upto && i < create.len() && i < outcomes.len() && outcomes[i]
                    && #[trigger] create[i] == p,
    )
}

/// The ports of `create` whose forward succeeded.
pub open spec fn created_ports(create: Seq<u16>, outcomes: Seq<bool>) -> Set<u16> {
    created_upto(create, outcomes, create.len() as int)
}

/// The state in which a watch begins.
pub open spec fn initial_state(interval: u64, min_port: u16, excluded: Set<u16>) -> WatchState {
    WatchState {
        action: WatchAction::FindContainer,
        container: Seq::empty(),
        network: Seq::empty(),
        managed: Set::empty(),
        create: Seq::empty(),
        remove: Seq::empty(),
        failure: None,
        interval,
        min_port,
        excluded,
    }
}

/// The state that follows `s` when `e` is reported. An event that does not
/// answer the pending action changes nothing.
pub open spec fn after(s: WatchState, e: WatchEvent) -> WatchState {
    match (s.action, e) {
        (WatchAction::FindContainer, WatchEvent::ContainerFound(Ok(Some(id)))) => WatchState {
            action: WatchAction::FindNetwork,
            container: id@,
            ..s
        },
        (WatchAction::FindContainer, WatchEvent::ContainerFound(Ok(None))) => WatchState {
            action: WatchAction::Exit,
            failure: Some(WatchError::NoContainer),
            ..s
        },
        (WatchAction::FindContainer, WatchEvent::ContainerFound(Err(err))) => WatchState {
            action: WatchAction::Exit,
            failure: Some(WatchError::Docker(err)),
            ..s
        },
        (WatchAction::FindNetwork, WatchEvent::NetworkFound(Ok(name))) => WatchState {
            action: WatchAction::AwaitTick,
            network: name@,
            ..s
        },
        (WatchAction::FindNetwork, WatchEvent::NetworkFound(Err(err))) => WatchState {
            action: WatchAction::Exit,
            failure: Some(WatchError::Docker(err)),
            ..s
        },
        (WatchAction::AwaitTick, WatchEvent::Tick { cancelled }) => WatchState {
            action: if cancelled {
                WatchAction::Drain
            } else {
                WatchAction::CheckContainer
            },
            ..s
        },
        (WatchAction::CheckContainer, WatchEvent::ContainerChecked(Ok(running))) => WatchState {
            action: if running {
                WatchAction::Probe
            } else {
                WatchAction::Drain
            },
            ..s
        },
        (WatchAction::CheckContainer, WatchEvent::ContainerChecked(Err(err))) => WatchState {
            action: WatchAction::Exit,
            failure: Some(WatchError::Docker(err)),
            ..s
        },
        (WatchAction::Probe, WatchEvent::Probed(Ok(listening))) => {
            let wanted = eligible(listening@, s.min_port, s.excluded);
            WatchState {
                action: WatchAction::Converge,
                create: ascending(wanted.difference(s.managed)),
                remove: ascending(s.managed.difference(wanted)),
                ..s
            }
        },
        (WatchAction::Probe, WatchEvent::Probed(Err(_))) => WatchState {
            action: WatchAction::Sleep,
            ..s
        },
        (WatchAction::Converge, WatchEvent::Converged { created }) => WatchState {
            action: WatchAction::Sleep,
            managed: without(s.managed, s.remove).union(created_ports(s.create, created@)),
            create: Seq::empty(),
            remove: Seq::empty(),
            ..s
        },
        (WatchAction::Sleep, WatchEvent::Slept) => WatchState { action: WatchAction::AwaitTick, ..s },
        (WatchAction::Drain, WatchEvent::Drained(Ok(_))) => WatchState {
            action: WatchAction::Exit,
            ..s
        },
        (WatchAction::Drain, WatchEvent::Drained(Err(err))) => WatchState {
            action: WatchAction::Exit,
            failure: Some(WatchError::Docker(err)),
            ..s
        },
        _ => s,
    }
}

/// Removes from `set` every port listed in `gone`.
pub fn remove_listed(set: &mut HashSet<u16>, gone: &Vec<u16>)
    ensures
        final(set)@ == without(old(set)@, gone@),
{
    let ghost first = set@;
    let mut i: usize = 0;
    assert(set@ =~= without(first, gone@.take(0)));
    while i < gone.len()
        invariant
            i <= gone.len(),
            set@ == without(first, gone@.take(i as int)),
        decreases gone.len() - i,
    {
        let p: u16 = gone[i];
        set.remove(&p);
        assert(set@ =~= without(first, gone@.take(i + 1))) by {
            let shorter = gone@.take(i as int);
            let longer = gone@.take(i + 1);
            assert(longer =~= shorter.push(p));
            assert forall|q: u16| longer.contains(q) <==> (shorter.contains(q) || q == p) by {
                if shorter.contains(q) {
                    let k = choose|k: int| 0 <= k < shorter.len() && shorter[k] == q;
                    assert(longer[k] == q);
                }
                if q == p {
                    assert(longer[i as int] == q);
                }
                if longer.contains(q) {
                    let k = choose|k: int| 0 <= k < longer.len() && longer[k] == q;
                    if k < i {
                        assert(shorter[k] == q);
                    }
                }
            }
        }
        i += 1;
    }
    assert(gone@.take(gone.len() as int) =~= gone@);
}

/// Adds to `set` every port of `create` whose outcome in `outcomes` is success.
pub fn insert_created(set: &mut HashSet<u16>, create: &Vec<u16>, outcomes: &Vec<bool>)
    ensures
        final(set)@ == old(set)@.union(created_ports(create@, outcomes@)),
{
    let ghost first = set@;
    let mut i: usize = 0;
    assert(set@ =~= first.union(created_upto(create@, outcomes@, 0)));
    while i < create.len()
        invariant
            i <= create.len(),
            set@ == first.union(created_upto(create@, outcomes@, i as int)),
        decreases create.len() - i,
    {
        if i < outcomes.len() && outcomes[i] {
            set.insert(create[i]);
        }
        assert(set@ =~= first.union(created_upto(create@, outcomes@, i + 1))) by {
            assert forall|q: u16| #[trigger]
                created_upto(create@, outcomes@, i + 1).contains(q) <==> (created_upto(
                    create@,
                    outcomes@,
                    i as int,
                ).contains(q) || (i < outcomes@.len() && outcomes@[i as int] && create@[i as int]
                    == q)) by {
                if created_upto(create@, outcomes@, i + 1).contains(q) {
                    let k = choose|k: int|
                        0 <= k < i + 1 && k < create@.len() && k < outcomes@.len() && outcomes@[k]
                            && #[trigger] create@[k] == q;
                    if k < i {
                        assert(created_upto(create@, outcomes@, i as int).contains(q));
                    }
                }
                if created_upto(create@, outcomes@, i as int).contains(q) {
                    let k = choose|k: int|
                        0 <= k < i && k < create@.len() && k < outcomes@.len() && outcomes@[k]
                            && #[trigger] create@[k] == q;
                    assert(0 <= k < i + 1);
                }
            }
        }
        i += 1;
    }
}

/// The reconciliation loop as a state machine. The driver performs `action()`
/// and reports the outcome to `handle`, until the action is `Exit`.
pub struct Watcher {
    config: WatchConfig,
    action: WatchAction,
    container: String,
    network: String,
    managed: HashSet<u16>,
    create: Vec<u16>,
    remove: Vec<u16>,
    failure: Option<WatchError>,
}

impl View for Watcher {
    type V = WatchState;

    closed spec fn view(&self) -> WatchState {
        WatchState {
            action: self.action,
            container: self.container@,
            network: self.network@,
            managed: self.managed@,
            create: self.create@,
            remove: self.remove@,
            failure: self.failure,
            interval: self.config.interval,
            min_port: self.config.min_port,
            excluded: self.config.exclude_ports@,
        }
    }
}

/// Begins a watch: nothing is managed yet and the container is still to be
/// found.
pub fn run_watch(config: WatchConfig) -> (watcher: Watcher)
    ensures
        watcher@ == initial_state(config.interval, config.min_port, config.exclude_ports@),
{
    Watcher {
        config,
        action: WatchAction::FindContainer,
        container: String::new(),
        network: String::new(),
        managed: HashSet::new(),
        create: Vec::new(),
        remove: Vec::new(),
        failure: None,
    }
}

impl Watcher {
    /// What the driver has to do next.
    pub fn action(&self) -> (a: WatchAction)
        ensures
            a == self@.action,
    {
        self.action
    }

    /// The container under watch.
    pub fn container(&self) -> (c: &String)
        ensures
            c@ == self@.container,
    {
        &self.container
    }

    /// The network of the container under watch.
    pub fn network(&self) -> (n: &String)
        ensures
            n@ == self@.network,
    {
        &self.network
    }

    /// Seconds to sleep between two polls.
    pub fn interval(&self) -> (seconds: u64)
        ensures
            seconds == self@.interval,
    {
        self.config.interval
    }

    /// The ports believed to have a forward made by this watch.
    pub fn managed(&self) -> (ports: &HashSet<u16>)
        ensures
            ports@ == self@.managed,
    {
        &self.managed
    }

    /// The ports to forward in the current tick, in ascending order.
    pub fn to_create(&self) -> (ports: &Vec<u16>)
        ensures
            ports@ == self@.create,
    {
        &self.create
    }

    /// The ports whose forward is to be removed in the current tick, in
    /// ascending order.
    pub fn to_remove(&self) -> (ports: &Vec<u16>)
        ensures
            ports@ == self@.remove,
    {
        &self.remove
    }

    /// Why the watch failed, if it did.
    pub fn failure(&self) -> (f: &Option<WatchError>)
        ensures
            *f == self@.failure,
    {
        &self.failure
    }

    /// Takes the report of the driver and returns the next action.
    pub fn handle(&mut self, event: WatchEvent) -> (next: WatchAction)
        ensures
            final(self)@ == after(old(self)@, event),
            next == final(self)@.action,
    {
        match (self.action, event) {
            (WatchAction::FindContainer, WatchEvent::ContainerFound(found)) => {
                match found {
                    Ok(Some(id)) => {
                        self.container = id;
                        self.action = WatchAction::FindNetwork;
                    },
                    Ok(None) => {
                        self.failure = Some(WatchError::NoContainer);
                        self.action = WatchAction::Exit;
                    },
                    Err(err) => {
                        self.failure = Some(WatchError::Docker(err));
                        self.action = WatchAction::Exit;
                    },
                }
            },
            (WatchAction::FindNetwork, WatchEvent::NetworkFound(found)) => {
                match found {
                    Ok(name) => {
                        self.network = name;
                        self.action = WatchAction::AwaitTick;
                    },
                    Err(err) => {
                        self.failure = Some(WatchError::Docker(err));
                        self.action = WatchAction::Exit;
                    },
                }
            },
            (WatchAction::AwaitTick, WatchEvent::Tick { cancelled }) => {
                self.action = if cancelled {
                    WatchAction::Drain
                } else {
                    WatchAction::CheckContainer
                };
            },
            (WatchAction::CheckContainer, WatchEvent::ContainerChecked(checked)) => {
                match checked {
                    Ok(running) => {
                        self.action = if running {
                            WatchAction::Probe
                        } else {
                            WatchAction::Drain
                        };
                    },
                    Err(err) => {
                        self.failure = Some(WatchError::Docker(err));
                        self.action = WatchAction::Exit;
                    },
                }
            },
            (WatchAction::Probe, WatchEvent::Probed(probed)) => {
                match probed {
                    Ok(listening) => {
                        let wanted = eligible_ports(
                            &listening,
                            self.config.min_port,
                            &self.config.exclude_ports,
                        );
                        self.create = difference(&wanted, &self.managed);
                        self.remove = difference(&self.managed, &wanted);
                        self.action = WatchAction::Converge;
                    },
                    Err(_) => {
                        self.action = WatchAction::Sleep;
                    },
                }
            },
            (WatchAction::Converge, WatchEvent::Converged { created }) => {
                remove_listed(&mut self.managed, &self.remove);
                insert_created(&mut self.managed, &self.create, &created);
                self.create = Vec::new();
                self.remove = Vec::new();
                self.action = WatchAction::Sleep;
            },
            (WatchAction::Sleep, WatchEvent::Slept) => {
                self.action = WatchAction::AwaitTick;
            },
            (WatchAction::Drain, WatchEvent::Drained(drained)) => {
                match drained {
                    Ok(_) => {
                        self.action = WatchAction::Exit;
                    },
                    Err(err) => {
                        self.failure = Some(WatchError::Docker(err));
                        self.action = WatchAction::Exit;
                    },
                }
            },
            _ => {},
        }
        self.action
    }
}


/// What one tick does to the managed set, whatever the outcomes of the
/// forwards: a port is managed afterwards exactly if it is eligible and either
/// was managed before or was forwarded successfully in this tick. A port whose
/// forward failed stays unmanaged, so the next tick tries it again; a port that
/// is no longer eligible is forgotten whether or not its removal succeeded.
pub proof fn lemma_tick_outcome(s: WatchState, listening: HashSet<u16>, created: Vec<bool>)
    requires
        s.action == WatchAction::Probe,
    ensures
        ({
            let wanted = eligible(listening@, s.min_port, s.excluded);
            let planned = after(s, WatchEvent::Probed(Ok(listening)));
            let done = after(planned, WatchEvent::Converged { created });
            &&& planned.action == WatchAction::Converge
            &&& planned.managed == s.managed
            &&& planned.create.to_set() == wanted.difference(s.managed)
            &&& planned.remove.to_set() == s.managed.difference(wanted)
            &&& done.action == WatchAction::Sleep
            &&& created_ports(planned.create, created@).subset_of(wanted.difference(s.managed))
            &&& done.managed == s.managed.intersect(wanted).union(
                created_ports(planned.create, created@),
            )
        }),
{
    let wanted = eligible(listening@, s.min_port, s.excluded);
    let planned = after(s, WatchEvent::Probed(Ok(listening)));
    let done = after(planned, WatchEvent::Converged { created });
    lemma_ascending(wanted.difference(s.managed));
    lemma_ascending(s.managed.difference(wanted));
    assert(planned.create.to_set() =~= wanted.difference(s.managed));
    assert(planned.remove.to_set() =~= s.managed.difference(wanted));
    let made = created_ports(planned.create, created@);
    assert forall|q: u16| made.contains(q) implies wanted.difference(s.managed).contains(q) by {
        let i = choose|i: int|
            0 <= i < planned.create.len() && i < planned.create.len() && i < created@.len()
                && created@[i] && #[trigger] planned.create[i] == q;
        assert(planned.create.contains(q));
    }
    assert(done.managed =~= s.managed.intersect(wanted).union(made));
}

/// Convergence: a tick in which every forward succeeds leaves exactly the
/// eligible ports managed.
pub proof fn lemma_tick_converges(s: WatchState, listening: HashSet<u16>, created: Vec<bool>)
    requires
        s.action == WatchAction::Probe,
        created@.len() == after(s, WatchEvent::Probed(Ok(listening))).create.len(),
        forall|i: int| 0 <= i < created@.len() ==> created@[i],
    ensures
        after(
            after(s, WatchEvent::Probed(Ok(listening))),
            WatchEvent::Converged { created },
        ).managed == eligible(listening@, s.min_port, s.excluded),
{
    let wanted = eligible(listening@, s.min_port, s.excluded);
    let planned = after(s, WatchEvent::Probed(Ok(listening)));
    let done = after(planned, WatchEvent::Converged { created });
    lemma_tick_outcome(s, listening, created);
    let made = created_ports(planned.create, created@);
    assert forall|q: u16| wanted.difference(s.managed).contains(q) implies made.contains(q) by {
        assert(planned.create.to_set().contains(q));
        assert(planned.create.contains(q));
        let i = choose|i: int| 0 <= i < planned.create.len() && planned.create[i] == q;
        assert(created@[i]);
    }
    assert(done.managed =~= wanted);
}

/// A failed probe tears nothing down: the managed set is as it was and the
/// watch goes to sleep until the next tick.
pub proof fn lemma_failed_probe_keeps_forwards(s: WatchState, err: DockerError)
    requires
        s.action == WatchAction::Probe,
    ensures
        after(s, WatchEvent::Probed(Err(err))).managed == s.managed,
        after(s, WatchEvent::Probed(Err(err))).action == WatchAction::Sleep,
        after(s, WatchEvent::Probed(Err(err))).failure == s.failure,
{
}

/// Cancellation and the loss of the container both lead to the final sweep,
/// whatever the managed set holds.
pub proof fn lemma_exit_goes_through_drain(s: WatchState)
    ensures
        s.action == WatchAction::AwaitTick ==> after(s, WatchEvent::Tick { cancelled: true }).action
            == WatchAction::Drain,
        s.action == WatchAction::CheckContainer ==> after(
            s,
            WatchEvent::ContainerChecked(Ok(false)),
        ).action == WatchAction::Drain,
{
}


/// The forward that a watch makes for a port it found listening: the same port
/// on the host as in the container, in the background, with the source `watch`
/// by which the final sweep finds it again.
pub open spec fn watch_forward(
    ws_id: Seq<char>,
    container: Seq<char>,
    network: Seq<char>,
    port: u16,
) -> RequestModel {
    RequestModel {
        ws_id,
        container_id: container,
        host_port: port,
        container_port: port,
        network,
        detach: true,
        source: Some("watch"@),
    }
}

/// The request with which the driver forwards `port`, one of `to_create`, for
/// the container under watch.
pub fn watch_forward_request(ws_id: &str, watcher: &Watcher, port: u16) -> (req: ForwardRequest)
    ensures
        req@ == watch_forward(ws_id@, watcher@.container, watcher@.network, port),
{
    ForwardRequest {
        ws_id: ws_id.to_owned(),
        container_id: watcher.container.clone(),
        host_port: port,
        container_port: port,
        network: watcher.network.clone(),
        detach: true,
        source: Some("watch".to_owned()),
    }
}

/// The arguments of the listing with which the final sweep begins: every
/// sidecar of the workspace with the source `watch`, whatever the managed set
/// holds. The sweep may so remove a sidecar of another watch of the same
/// workspace; in return no sidecar is left behind by a managed set that has
/// fallen out of step.
pub fn drain_args(ws_id: &str) -> (args: Vec<String>)
    ensures
        strings(args@) == sweep_args(ws_id@, Some("watch"@)),
{
    remove_port_forwards_by_source_args(ws_id, "watch")
}

} // verus!
