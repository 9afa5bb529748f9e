use odproxy::config::{ProxyConf, RootConf};
use odproxy::routing::{generate_host_map, get_proxy_name, reload, strip_port, HostMap, ProxyState};

fn svc(hosts: &[&str], target: &str) -> ProxyConf {
    ProxyConf {
        hosts: hosts.iter().map(|h| h.to_string()).collect(),
        target: target.to_string(),
        socket: false,
        spawn: None,
        timeout: None,
    }
}

fn conf(services: Vec<(&str, ProxyConf)>) -> RootConf {
    RootConf {
        listen: "127.0.0.1:8080".to_string(),
        proxy: services.into_iter().map(|(n, p)| (n.to_string(), p)).collect(),
    }
}

#[test]
fn strip_port_removes_port_suffix() {
    assert_eq!(strip_port("a.example.com:8080"), "a.example.com".to_string());
}

#[test]
fn strip_port_keeps_bare_host() {
    assert_eq!(strip_port("a.example.com"), "a.example.com".to_string());
}

#[test]
fn strip_port_edge_cases() {
    assert_eq!(strip_port(""), "".to_string());
    assert_eq!(strip_port(":8080"), "".to_string());
    assert_eq!(strip_port("h:1:2"), "h".to_string());
}

#[test]
fn host_map_expands_every_host() {
    let c = conf(vec![
        ("api", svc(&["api.local", "api2.local"], "http://127.0.0.1:3000")),
        ("web", svc(&["web.local"], "http://127.0.0.1:3001")),
    ]);
    let map = generate_host_map(&c);
    let got: Vec<(String, String)> = map.entries.clone();
    assert_eq!(
        got,
        vec![
            ("api.local".to_string(), "api".to_string()),
            ("api2.local".to_string(), "api".to_string()),
            ("web.local".to_string(), "web".to_string()),
        ]
    );
}

#[test]
fn lookup_with_port_resolves_like_bare_host() {
    let c = conf(vec![("api", svc(&["a.example.com"], "http://127.0.0.1:3000"))]);
    let map = generate_host_map(&c);
    let with_port = "a.example.com:8080".to_string();
    let bare = "a.example.com".to_string();
    let r1 = get_proxy_name(Some(&with_port), &map);
    let r2 = get_proxy_name(Some(&bare), &map);
    assert_eq!(r1, Some("api".to_string()));
    assert_eq!(r1, r2);
}

#[test]
fn lookup_unknown_host_is_none() {
    let c = conf(vec![("api", svc(&["api.local"], "http://127.0.0.1:3000"))]);
    let map = generate_host_map(&c);
    assert_eq!(get_proxy_name(Some(&"unknown.local".to_string()), &map), None);
}

#[test]
fn lookup_missing_header_is_none() {
    let map = HostMap { entries: vec![("api.local".to_string(), "api".to_string())] };
    assert_eq!(get_proxy_name(None, &map), None);
}

#[test]
fn duplicate_host_last_configured_wins() {
    let c = conf(vec![
        ("first", svc(&["dup.local"], "http://127.0.0.1:3000")),
        ("second", svc(&["dup.local"], "http://127.0.0.1:3001")),
    ]);
    let map = generate_host_map(&c);
    assert_eq!(
        get_proxy_name(Some(&"dup.local".to_string()), &map),
        Some("second".to_string())
    );
}

#[test]
fn reload_swaps_mapping_for_later_requests() {
    let c1 = conf(vec![("api", svc(&["app.local"], "http://127.0.0.1:3000"))]);
    let map1 = generate_host_map(&c1);
    let mut state = ProxyState { conf: c1, host_map: map1 };
    let host = "app.local".to_string();
    assert_eq!(
        get_proxy_name(Some(&host), &state.host_map),
        Some("api".to_string())
    );

    let c2 = conf(vec![("other", svc(&["app.local"], "http://127.0.0.1:3002"))]);
    reload(&mut state, c2);
    assert_eq!(
        get_proxy_name(Some(&host), &state.host_map),
        Some("other".to_string())
    );
}
