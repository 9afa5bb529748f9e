use odproxy::config::{ProxyConf, RootConf, SpawnConf};
use odproxy::forward::{build_target_url, route_request, RouteDecision};
use odproxy::prober::{probe_plan, ProbePlan};
use odproxy::registry::{prepare_services, EnsureStart, Status};
use odproxy::routing::{generate_host_map, ProxyState};

fn api_conf() -> RootConf {
    RootConf {
        listen: "127.0.0.1:8080".to_string(),
        proxy: vec![(
            "api".to_string(),
            ProxyConf {
                hosts: vec!["api.local".to_string()],
                target: "http://127.0.0.1:4567".to_string(),
                socket: false,
                spawn: Some(SpawnConf {
                    command: "api-backend".to_string(),
                    args: vec!["--serve".to_string()],
                    envs: vec![("PORT".to_string(), "4567".to_string())],
                }),
                timeout: Some(5),
            },
        )],
    }
}

fn state_of(conf: RootConf) -> ProxyState {
    let map = generate_host_map(&conf);
    ProxyState { conf, host_map: map }
}

#[test]
fn known_host_is_forwarded_to_its_service() {
    let state = state_of(api_conf());
    let host = "api.local".to_string();
    match route_request(Some(&host), &state) {
        RouteDecision::Forward { name, proxy } => {
            assert_eq!(name, "api".to_string());
            assert_eq!(proxy.target, "http://127.0.0.1:4567".to_string());
        }
        RouteDecision::Unknown => panic!("expected a forward decision"),
    }
}

#[test]
fn unknown_host_gets_empty_response_and_no_spawn() {
    let state = state_of(api_conf());
    let host = "unknown.local".to_string();
    assert!(matches!(
        route_request(Some(&host), &state),
        RouteDecision::Unknown
    ));

    // No spawn is attempted: the registry is never consulted, so every
    // service stays in its initial state.
    let reg = prepare_services(&state.conf);
    let (status, _) = reg.snapshot_status(&"api".to_string());
    assert_eq!(status, Status::Stopped);
}

#[test]
fn missing_host_header_is_unknown() {
    let state = state_of(api_conf());
    assert!(matches!(route_request(None, &state), RouteDecision::Unknown));
}

#[test]
fn outbound_url_appends_path_and_query() {
    assert_eq!(
        build_target_url("http://127.0.0.1:4567", "/a/b?q=1"),
        "http://127.0.0.1:4567/a/b?q=1".to_string()
    );
}

#[test]
fn first_request_spawns_then_reuses_then_reaps() {
    // The api service: hosts=["api.local"], a TCP target, a spawn command,
    // a 5 second idle timeout.
    let state = state_of(api_conf());
    let mut reg = prepare_services(&state.conf);
    let host = "api.local".to_string();

    // First request at t=100: resolved, spawned once, probed over TCP,
    // then forwarded.
    let (name, proxy) = match route_request(Some(&host), &state) {
        RouteDecision::Forward { name, proxy } => (name, proxy),
        RouteDecision::Unknown => panic!("expected a forward decision"),
    };
    assert_eq!(
        reg.ensure_begin(&name, &proxy, 100),
        EnsureStart::MustSpawn { clear_stale_socket: false }
    );
    reg.note_spawned(&name);
    assert_eq!(
        probe_plan(&proxy),
        ProbePlan::Tcp("127.0.0.1".to_string(), 4567)
    );
    reg.note_probe_ok(&name, 100);
    let (status, _) = reg.snapshot_status(&name);
    assert_eq!(status, Status::Running);

    // A second request 1s later reuses the running process: no new spawn.
    assert_eq!(reg.ensure_begin(&name, &proxy, 101), EnsureStart::Ready);

    // After 6s of inactivity the reaper stops it.
    let kills = reg.reap(&state.conf, 107);
    assert_eq!(kills, vec!["api".to_string()]);
    let (status, _) = reg.snapshot_status(&name);
    assert_eq!(status, Status::Stopped);

    // The next request re-spawns.
    assert_eq!(
        reg.ensure_begin(&name, &proxy, 108),
        EnsureStart::MustSpawn { clear_stale_socket: false }
    );
}
