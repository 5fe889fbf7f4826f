use networkd_hooks::dispatcher::{find_link, Dispatcher, LinkEntry, Response};
use networkd_hooks::environment::{Arguments, Environments, LinkSnapshot, LinkStatus};
use networkd_hooks::event::{
    decode, parse_decimal, parse_link_path, unescape, DecodeError, LinkEvent, PropValue, Property,
    Signal,
};
use networkd_hooks::launcher::{step, Action, Launcher, Phase, ProcessEvent, ScriptSpec};
use networkd_hooks::resolver::{is_script_entry, join, resolve, DirEntry, ResolveError};
use networkd_hooks::state::{parse_state, LinkState};
use std::sync::Arc;

fn strings(xs: &[&str]) -> Vec<String> {
    xs.iter().map(|s| s.to_string()).collect()
}

fn snapshot(iface: &str, addresses: &[&str]) -> LinkSnapshot {
    LinkSnapshot {
        iface: iface.to_string(),
        status: LinkStatus {
            admin_state: "configured".to_string(),
            oper_state: "routable".to_string(),
            addresses: strings(addresses),
            gateway: strings(&["10.0.0.1"]),
            dns: strings(&["1.1.1.1", "9.9.9.9"]),
            domains: strings(&["example.org"]),
            routes: Vec::new(),
        },
    }
}

fn exe(name: &str) -> DirEntry {
    DirEntry { name: name.to_string(), is_file: true, executable: true }
}

fn plain(name: &str) -> DirEntry {
    DirEntry { name: name.to_string(), is_file: true, executable: false }
}

fn state_signal(path: &str, state: &str) -> Signal {
    Signal {
        path: path.to_string(),
        interface: "org.freedesktop.network1.Link".to_string(),
        changed: vec![Property {
            name: "OperationalState".to_string(),
            value: PropValue::Text(state.to_string()),
        }],
    }
}

fn env_value(env: &Environments, key: &str) -> Option<String> {
    env.vars.iter().find(|(k, _)| k == key).map(|(_, v)| v.clone())
}

fn links() -> Vec<LinkEntry> {
    vec![
        LinkEntry { index: 1, link: snapshot("lo", &["127.0.0.1/8"]) },
        LinkEntry { index: 2, link: snapshot("eth0", &["10.0.0.2/24", "fe80::1/64"]) },
    ]
}

#[test]
fn happy_path_spawns_both_scripts_in_order() {
    let d = Dispatcher::new("/etc/hooks".to_string(), false, 20, false, 0);
    let ev = decode(&state_signal("/org/freedesktop/network1/link/_32", "routable")).unwrap();
    assert_eq!(ev, LinkEvent { index: 2, state: LinkState::Routable });
    assert_eq!(d.state_dir(ev.state), "/etc/hooks/routable.d");
    let listing = Some(vec![exe("20-notify"), exe("10-log")]);
    match d.respond(&ev, &links(), &listing) {
        Response::Launch(specs) => {
            assert_eq!(specs.len(), 2);
            assert_eq!(specs[0].path, "/etc/hooks/routable.d/10-log");
            assert_eq!(specs[1].path, "/etc/hooks/routable.d/20-notify");
            for s in &specs {
                assert_eq!(s.args.args, strings(&["routable", "eth0"]));
                assert_eq!(env_value(&s.env, "STATE").as_deref(), Some("routable"));
                assert_eq!(env_value(&s.env, "IFACE").as_deref(), Some("eth0"));
                assert_eq!(s.timeout, 20);
            }
            assert!(Arc::ptr_eq(&specs[0].args, &specs[1].args));
            assert!(Arc::ptr_eq(&specs[0].env, &specs[1].env));
        }
        other => panic!("unexpected {:?}", other),
    }
}

#[test]
fn missing_state_dir_is_no_path_found() {
    let d = Dispatcher::new("/etc/hooks".to_string(), false, 20, false, 0);
    let ev = LinkEvent { index: 2, state: LinkState::Degraded };
    match d.respond(&ev, &links(), &None) {
        Response::NoPathFound(dir) => assert_eq!(dir, "/etc/hooks/degraded.d"),
        other => panic!("unexpected {:?}", other),
    }
}

#[test]
fn empty_state_dir_is_no_script_found() {
    let d = Dispatcher::new("/etc/hooks/".to_string(), false, 20, false, 0);
    let ev = LinkEvent { index: 2, state: LinkState::Carrier };
    match d.respond(&ev, &links(), &Some(vec![exe(".README")])) {
        Response::NoScriptFound(dir) => assert_eq!(dir, "/etc/hooks/carrier.d"),
        other => panic!("unexpected {:?}", other),
    }
}

#[test]
fn unknown_ifindex_is_dropped() {
    let d = Dispatcher::new("/etc/hooks".to_string(), false, 20, false, 0);
    let ev = LinkEvent { index: 99, state: LinkState::Routable };
    assert!(matches!(
        d.respond(&ev, &links(), &Some(vec![exe("10-log")])),
        Response::UnknownLink
    ));
    assert_eq!(find_link(&links(), 99), None);
    assert_eq!(find_link(&links(), 2), Some(1));
}

fn spec_with_timeout(path: &str, timeout: u64) -> ScriptSpec {
    let ev = LinkEvent { index: 2, state: LinkState::Routable };
    let link = snapshot("eth0", &[]);
    ScriptSpec::new(
        path.to_string(),
        Arc::new(Arguments::build(&ev, &link)),
        Arc::new(Environments::build(&ev, &link, false)),
        timeout,
    )
}

#[test]
fn timed_out_script_is_terminated_then_killed() {
    let mut l = Launcher::new();
    l.add(spec_with_timeout("/etc/hooks/routable.d/10-sleep", 2));
    l.add(spec_with_timeout("/etc/hooks/routable.d/20-quick", 2));
    for i in 0..2 {
        assert_eq!(l.advance(i, ProcessEvent::Start), Action::Spawn);
        assert_eq!(l.advance(i, ProcessEvent::Spawned), Action::Nothing);
    }
    assert_eq!(l.advance(0, ProcessEvent::Tick(1)), Action::Nothing);
    assert_eq!(l.advance(0, ProcessEvent::Tick(2)), Action::Terminate);
    assert_eq!(l.phases[0], Phase::Terminating);
    assert_eq!(l.advance(0, ProcessEvent::Tick(3)), Action::Kill);
    assert_eq!(l.phases[0], Phase::TimedOut);
    assert_eq!(l.phases[1], Phase::Running);
    assert!(!l.all_done());
    assert_eq!(l.advance(1, ProcessEvent::Exit(0)), Action::Nothing);
    assert_eq!(l.phases[1], Phase::Exited(0));
    assert!(l.all_done());
}

#[test]
fn json_encoding_of_addresses() {
    let ev = LinkEvent { index: 2, state: LinkState::Routable };
    let link = snapshot("eth0", &["10.0.0.2/24", "fe80::1/64"]);
    let env = Environments::build(&ev, &link, true);
    assert_eq!(env_value(&env, "IP_ADDRS").as_deref(), Some("[\"10.0.0.2/24\"]"));
    assert_eq!(env_value(&env, "IP6_ADDRS").as_deref(), Some("[\"fe80::1/64\"]"));
    assert_eq!(env_value(&env, "JSON").as_deref(), Some("1"));
    assert_eq!(env_value(&env, "DNS").as_deref(), Some("[\"1.1.1.1\",\"9.9.9.9\"]"));
    assert_eq!(env_value(&env, "ROUTES").as_deref(), Some("[]"));
}

#[test]
fn space_separated_lists_without_json() {
    let ev = LinkEvent { index: 2, state: LinkState::Routable };
    let link = snapshot("eth0", &["10.0.0.2/24", "10.0.0.3/24", "fe80::1/64"]);
    let env = Environments::build(&ev, &link, false);
    assert_eq!(env_value(&env, "IP_ADDRS").as_deref(), Some("10.0.0.2/24 10.0.0.3/24"));
    assert_eq!(env_value(&env, "IP6_ADDRS").as_deref(), Some("fe80::1/64"));
    assert_eq!(env_value(&env, "DNS").as_deref(), Some("1.1.1.1 9.9.9.9"));
    assert_eq!(env_value(&env, "ROUTES").as_deref(), Some(""));
    assert_eq!(env_value(&env, "JSON"), None);
}

#[test]
fn json_strings_are_escaped() {
    let ev = LinkEvent { index: 2, state: LinkState::Routable };
    let mut link = snapshot("eth0", &[]);
    link.status.domains = strings(&["a\"b\\c\n"]);
    let env = Environments::build(&ev, &link, true);
    assert_eq!(env_value(&env, "DOMAINS").as_deref(), Some("[\"a\\\"b\\\\c\\u000a\"]"));
}

#[test]
fn every_variable_is_present_even_when_empty() {
    let ev = LinkEvent { index: 5, state: LinkState::Off };
    let link = LinkSnapshot {
        iface: "wlan0".to_string(),
        status: LinkStatus {
            admin_state: String::new(),
            oper_state: String::new(),
            addresses: Vec::new(),
            gateway: Vec::new(),
            dns: Vec::new(),
            domains: Vec::new(),
            routes: Vec::new(),
        },
    };
    let env = Environments::build(&ev, &link, false);
    let keys: Vec<&str> = env.vars.iter().map(|(k, _)| k.as_str()).collect();
    assert_eq!(
        keys,
        vec![
            "PATH", "STATE", "IFACE", "IP_ADDRS", "IP6_ADDRS", "GATEWAY", "DNS", "DOMAINS",
            "ROUTES", "ADMIN_STATE", "OPER_STATE"
        ]
    );
    assert_eq!(env_value(&env, "GATEWAY").as_deref(), Some(""));
    assert_eq!(env_value(&env, "STATE").as_deref(), Some("off"));
}

#[test]
fn arguments_and_environment_name_the_same_link() {
    let d = Dispatcher::new("/etc/hooks".to_string(), false, 5, false, 0);
    let ev = LinkEvent { index: 1, state: LinkState::Configured };
    match d.respond(&ev, &links(), &Some(vec![exe("a")])) {
        Response::Launch(specs) => {
            assert_eq!(specs[0].args.args[1], "lo");
            assert_eq!(env_value(&specs[0].env, "IFACE").as_deref(), Some("lo"));
            assert_eq!(specs[0].args.args[0], "configured");
        }
        other => panic!("unexpected {:?}", other),
    }
}

#[test]
fn script_order_does_not_depend_on_listing_order() {
    let a = vec![exe("b"), exe("a"), exe("C"), exe("10")];
    let b = vec![exe("10"), exe("C"), exe("b"), exe("a")];
    let ra = resolve("/d", &Some(a)).unwrap();
    let rb = resolve("/d", &Some(b)).unwrap();
    assert_eq!(ra, rb);
    assert_eq!(ra, strings(&["/d/10", "/d/C", "/d/a", "/d/b"]));
}

#[test]
fn resolver_filters_entries() {
    let listing = vec![
        exe("run"),
        plain("notes.txt"),
        plain("hook.sh"),
        exe(".hidden"),
        exe("old~"),
        exe("x.bak"),
        exe("y.dpkg-old"),
        DirEntry { name: "sub".to_string(), is_file: false, executable: true },
    ];
    let r = resolve("/d/", &Some(listing)).unwrap();
    assert_eq!(r, strings(&["/d/hook.sh", "/d/run"]));
    assert!(!is_script_entry(&plain("README")));
    assert!(is_script_entry(&plain("a.py")));
}

#[test]
fn resolver_errors() {
    assert_eq!(resolve("/d", &None), Err(ResolveError::NoPathFound));
    assert_eq!(resolve("/d", &Some(Vec::new())), Err(ResolveError::NoScriptFound));
    assert_eq!(resolve("/d", &Some(vec![plain("x")])), Err(ResolveError::NoScriptFound));
}

#[test]
fn join_adds_one_separator() {
    assert_eq!(join("/etc/hooks", "a"), "/etc/hooks/a");
    assert_eq!(join("/etc/hooks/", "a"), "/etc/hooks/a");
    assert_eq!(join("", "a"), "/a");
}

#[test]
fn link_paths_decode_to_indices() {
    assert_eq!(parse_link_path("/org/freedesktop/network1/link/_32"), Some(2));
    assert_eq!(parse_link_path("/org/freedesktop/network1/link/_312"), Some(12));
    assert_eq!(parse_link_path("/org/freedesktop/network1/link/_3123"), Some(123));
    assert_eq!(parse_link_path("/org/freedesktop/network1/link/"), None);
    assert_eq!(parse_link_path("/org/freedesktop/network1/link/_3x"), None);
    assert_eq!(parse_link_path("/org/freedesktop/network1/link/eth0"), None);
    assert_eq!(parse_link_path("/org/freedesktop/network1/_32"), None);
    assert_eq!(parse_link_path("/org/freedesktop/network1/link/_34294967295"), Some(4294967295));
    assert_eq!(parse_link_path("/org/freedesktop/network1/link/_34294967296"), None);
}

#[test]
fn labels_and_decimals() {
    assert_eq!(unescape("_2d_41b"), Some(vec![0x2d, 0x41, b'b']));
    assert_eq!(unescape("a-b"), None);
    assert_eq!(unescape("_4"), None);
    assert_eq!(parse_decimal(&b"0042".to_vec()), Some(42));
    assert_eq!(parse_decimal(&Vec::new()), None);
    assert_eq!(parse_decimal(&b"4x".to_vec()), None);
}

#[test]
fn decode_errors() {
    let good = "/org/freedesktop/network1/link/_32";
    let mut s = state_signal(good, "routable");
    s.interface = "org.freedesktop.network1.Manager".to_string();
    assert_eq!(decode(&s), Err(DecodeError::Unrelated));
    let mut s = state_signal(good, "routable");
    s.changed[0].name = "BitRates".to_string();
    assert_eq!(decode(&s), Err(DecodeError::Unrelated));
    assert_eq!(decode(&state_signal(good, "bogus")), Err(DecodeError::UnknownState));
    assert_eq!(
        decode(&state_signal("/org/freedesktop/network1/link/x", "routable")),
        Err(DecodeError::Malformed)
    );
    let mut s = state_signal(good, "routable");
    s.changed[0].value = PropValue::Other;
    assert_eq!(decode(&s), Err(DecodeError::Malformed));
}

#[test]
fn decode_finds_state_among_other_properties() {
    let mut s = state_signal("/org/freedesktop/network1/link/_37", "configuring");
    s.changed[0].name = "AdministrativeState".to_string();
    s.changed.insert(0, Property { name: "BitRates".to_string(), value: PropValue::Other });
    assert_eq!(decode(&s), Ok(LinkEvent { index: 7, state: LinkState::Configuring }));
}

#[test]
fn state_names_round_trip() {
    let all = [
        LinkState::Missing,
        LinkState::Off,
        LinkState::NoCarrier,
        LinkState::Dormant,
        LinkState::DegradedCarrier,
        LinkState::Carrier,
        LinkState::Degraded,
        LinkState::Enslaved,
        LinkState::Routable,
        LinkState::Pending,
        LinkState::Initialized,
        LinkState::Configuring,
        LinkState::Configured,
        LinkState::Unmanaged,
        LinkState::Failed,
        LinkState::Linger,
    ];
    for s in all {
        assert_eq!(parse_state(s.name()), Some(s));
    }
    assert_eq!(LinkState::NoCarrier.name(), "no-carrier");
    assert_eq!(parse_state("Routable"), None);
}

#[test]
fn state_machine_edges() {
    assert_eq!(step(Phase::Spawning, ProcessEvent::SpawnError, 3), (Phase::SpawnFailed, Action::Nothing));
    assert_eq!(step(Phase::Running, ProcessEvent::Exit(1), 3), (Phase::Exited(1), Action::Nothing));
    assert_eq!(step(Phase::Running, ProcessEvent::Tick(9), 3), (Phase::TimedOut, Action::Kill));
    assert_eq!(step(Phase::Terminating, ProcessEvent::Exit(0), 3), (Phase::TimedOut, Action::Nothing));
    assert_eq!(step(Phase::TimedOut, ProcessEvent::Tick(100), 3), (Phase::TimedOut, Action::Nothing));
    assert_eq!(
        step(Phase::Running, ProcessEvent::Tick(u64::MAX), u64::MAX),
        (Phase::Terminating, Action::Terminate)
    );
}

#[test]
fn failed_script_leaves_peers_alone() {
    let mut l = Launcher::new();
    l.add(spec_with_timeout("/a", 1));
    l.add(spec_with_timeout("/b", 1));
    l.advance(0, ProcessEvent::Start);
    l.advance(0, ProcessEvent::SpawnError);
    assert_eq!(l.phases[0], Phase::SpawnFailed);
    assert_eq!(l.phases[1], Phase::Queued);
    assert_eq!(l.advance(1, ProcessEvent::Start), Action::Spawn);
}

#[test]
fn startup_events_follow_carrier() {
    let mut ls = links();
    ls[0].link.status.oper_state = "no-carrier".to_string();
    let d = Dispatcher::new("/etc/hooks".to_string(), true, 20, false, 0);
    assert_eq!(
        d.startup_events(&ls),
        vec![
            LinkEvent { index: 1, state: LinkState::Off },
            LinkEvent { index: 2, state: LinkState::Configured }
        ]
    );
    let quiet = Dispatcher::new("/etc/hooks".to_string(), false, 20, true, 2);
    assert!(quiet.startup_events(&ls).is_empty());
    assert!(quiet.json());
    assert_eq!(quiet.verbose(), 2);
    assert_eq!(quiet.timeout(), 20);
    assert_eq!(quiet.script_dir(), "/etc/hooks");
    assert!(!quiet.run_startup_triggers());
}
