//! Readiness probing: decides how a backend's target is probed and when a
//! poll loop is done. The caller performs the actual probe attempt (a socket
//! file existence check or a TCP connect) and the sleeps between attempts.

use vstd::prelude::*;

use crate::config::ProxyConf;

verus! {

/// Fixed interval between readiness probe attempts, in milliseconds.
pub const PROBE_INTERVAL_MS: u64 = 100;

/// The host and port that URL parsing reads out of a target string, if the
/// string is an absolute URL with both. A function of the string alone.
pub uninterp spec fn target_authority_of(s: Seq<char>) -> Option<(Seq<char>, u16)>;

/// Relies on url::Url::parse, url::Url::host and url::Url::port: parses the
/// target as an absolute URL and reads its host and explicit port, which
/// depend on the string alone.
#[verifier::external_body]
fn target_host_port(target: &str) -> (r: Option<(String, u16)>)
    ensures
        r.deep_view() == target_authority_of(target@),
{
    match url::Url::parse(target) {
        Ok(u) => match (u.host(), u.port()) {
            (Some(h), Some(p)) => Some((h.to_string(), p)),
            _ => None,
        },
        Err(_) => None,
    }
}

/// How a service's readiness is probed.
#[derive(Debug, Clone, PartialEq, Eq)]
pub enum ProbePlan {
    /// Poll until this socket file exists.
    UnixPath(String),
    /// Poll until a TCP connection to this host and port succeeds.
    Tcp(String, u16),
    /// The target names no host and port to connect to: nothing is polled and
    /// the service counts as reachable at once.
    Unprobed,
}

/// How the named service's target is probed: the socket file's path for a
/// socket-file transport, otherwise the host and port parsed out of the
/// target URL.
pub fn probe_plan(proxy: &ProxyConf) -> (r: ProbePlan)
    ensures
        proxy.socket ==> (r matches ProbePlan::UnixPath(p) && p@ == proxy.target@),
        !proxy.socket ==> match target_authority_of(proxy.target@) {
            Some(hp) => r matches ProbePlan::Tcp(h, p) && h@ == hp.0 && p == hp.1,
            None => r == ProbePlan::Unprobed,
        },
{
    if proxy.socket {
        ProbePlan::UnixPath(proxy.target.clone())
    } else {
        match target_host_port(proxy.target.as_str()) {
            Some((h, p)) => ProbePlan::Tcp(h, p),
            None => ProbePlan::Unprobed,
        }
    }
}

/// What one round of the readiness poll loop decides.
#[derive(Clone, Copy, Debug, PartialEq, Eq)]
pub enum ProbeStep {
    /// The backend is reachable: the service is ready.
    Ready,
    /// The backend is still unreachable and the waiting bound has been
    /// reached: give up.
    Timeout,
    /// The backend is still unreachable: sleep one interval and try again.
    Poll,
}

/// One decision of the readiness poll loop: `reachable` is the outcome of the
/// probe attempt just made, `waited_ms` the total time waited so far, and
/// `bound_ms` the upper bound on waiting.
pub fn probe_step(reachable: bool, waited_ms: u64, bound_ms: u64) -> (r: ProbeStep)
    ensures
        r == ProbeStep::Ready <==> reachable,
        r == ProbeStep::Timeout <==> !reachable && waited_ms >= bound_ms,
        r == ProbeStep::Poll <==> !reachable && waited_ms < bound_ms,
{
    if reachable {
        ProbeStep::Ready
    } else if waited_ms >= bound_ms {
        ProbeStep::Timeout
    } else {
        ProbeStep::Poll
    }
}

} // verus!
