use odproxy::config::ProxyConf;
use odproxy::prober::{probe_plan, probe_step, ProbePlan, ProbeStep, PROBE_INTERVAL_MS};

fn svc(target: &str, socket: bool) -> ProxyConf {
    ProxyConf {
        hosts: vec!["api.local".to_string()],
        target: target.to_string(),
        socket,
        spawn: None,
        timeout: None,
    }
}

#[test]
fn probe_step_ready_when_reachable() {
    assert_eq!(probe_step(true, 0, 1000), ProbeStep::Ready);
    assert_eq!(probe_step(true, 5000, 1000), ProbeStep::Ready);
}

#[test]
fn probe_step_polls_until_the_bound() {
    assert_eq!(probe_step(false, 0, 1000), ProbeStep::Poll);
    assert_eq!(probe_step(false, 900, 1000), ProbeStep::Poll);
}

#[test]
fn probe_step_times_out_at_the_bound() {
    assert_eq!(probe_step(false, 1000, 1000), ProbeStep::Timeout);
    assert_eq!(probe_step(false, 1100, 1000), ProbeStep::Timeout);
}

#[test]
fn probe_interval_is_100ms() {
    assert_eq!(PROBE_INTERVAL_MS, 100);
}

#[test]
fn socket_target_is_probed_as_a_path() {
    let p = svc("/run/backend.sock", true);
    assert_eq!(
        probe_plan(&p),
        ProbePlan::UnixPath("/run/backend.sock".to_string())
    );
}

#[test]
fn tcp_target_is_probed_at_parsed_host_and_port() {
    let p = svc("http://127.0.0.1:4567", false);
    assert_eq!(
        probe_plan(&p),
        ProbePlan::Tcp("127.0.0.1".to_string(), 4567)
    );
}

#[test]
fn tcp_target_with_path_keeps_only_the_authority() {
    let p = svc("http://backend.internal:3000/some/path", false);
    assert_eq!(
        probe_plan(&p),
        ProbePlan::Tcp("backend.internal".to_string(), 3000)
    );
}

#[test]
fn target_without_explicit_port_is_not_probed() {
    let p = svc("http://backend.internal", false);
    assert_eq!(probe_plan(&p), ProbePlan::Unprobed);
}

#[test]
fn unparseable_target_is_not_probed() {
    let p = svc("localhost:3000", false);
    assert_eq!(probe_plan(&p), ProbePlan::Unprobed);
}
