//! The forwarding handler's decisions: resolving an inbound request's host
//! header to a service, and building the outbound target. The caller copies
//! method, headers and body and streams the exchange; an unknown host gets an
//! empty successful response and touches no service.

use vstd::prelude::*;
use vstd::string::StringExecFns;

use crate::config::{get_proxy, ProxyConf};
use crate::routing::{get_proxy_name, ProxyState};

verus! {

/// What the handler does with an inbound request.
#[derive(Debug)]
pub enum RouteDecision {
    /// The host is not routed to any configured service: answer with an
    /// empty successful response and attempt no spawn.
    Unknown,
    /// Forward to the named service after ensuring it is running.
    Forward { name: String, proxy: ProxyConf },
}

/// Resolves an inbound request's host header against the shared state: the
/// bare host is looked up in the routing table and the service name in the
/// configuration snapshot. Both must resolve for the request to be
/// forwarded.
pub fn route_request(host: Option<&String>, state: &ProxyState) -> (r: RouteDecision)
    ensures
        match r {
            RouteDecision::Unknown => match host {
                Some(h) => match state.route(h@) {
                    Some(n) => state.conf.service_of(n) is None,
                    None => true,
                },
                None => true,
            },
            RouteDecision::Forward { name, proxy } => {
                &&& host is Some
                &&& state.route(host->0@) == Some(name@)
                &&& state.conf.service_of(name@) == Some(proxy@)
            },
        },
{
    let name = get_proxy_name(host, &state.host_map);
    let lookup = match &name {
        Some(n) => Some(n.clone()),
        None => None,
    };
    let proxy = get_proxy(lookup, &state.conf);
    match (name, proxy) {
        (Some(n), Some(p)) => RouteDecision::Forward { name: n, proxy: p },
        _ => RouteDecision::Unknown,
    }
}

/// The outbound URL for a TCP-target service: the configured target with the
/// request's path and query appended unchanged.
pub fn build_target_url(target: &str, path: &str) -> (r: String)
    ensures
        r@ == target@ + path@,
{
    let mut s = target.to_owned();
    s.append(path);
    s
}

} // verus!
