//! The routing table: a mapping from host name to service name, derived from
//! the configuration snapshot. Hosts are matched by bare host, with any port
//! suffix stripped. The table is rebuilt wholesale on every reload; a later
//! binding of the same host wins over an earlier one.

use vstd::prelude::*;
use vstd::string::StrSliceExecFns;

use crate::assoc::{assoc_last, lemma_assoc_last_at};
use crate::config::{ProxyConfV, RootConf};

verus! {

/// Index of the first ':' in `s`, or `s.len()` if there is none.
pub open spec fn first_colon(s: Seq<char>) -> int
    decreases s.len(),
{
    if s.len() == 0 {
        0
    } else if s[0] == ':' {
        0
    } else {
        1 + first_colon(s.drop_first())
    }
}

/// The host part of a host header value: everything before the first ':',
/// so that a port suffix never takes part in routing.
pub open spec fn bare_host(s: Seq<char>) -> Seq<char> {
    s.take(first_colon(s))
}

/// `first_colon` points at the first ':' of `s`: everything before it is not
/// a ':', and it lies inside `s` exactly when `s` holds a ':' at all.
pub proof fn lemma_first_colon_props(s: Seq<char>)
    ensures
        0 <= first_colon(s) <= s.len(),
        forall|j: int| 0 <= j < first_colon(s) ==> s[j] != ':',
        first_colon(s) < s.len() ==> s[first_colon(s)] == ':',
    decreases s.len(),
{
    if s.len() > 0 && s[0] != ':' {
        lemma_first_colon_props(s.drop_first());
        assert forall|j: int| 0 <= j < first_colon(s) implies s[j] != ':' by {
            if j > 0 {
                assert(s.drop_first()[j - 1] != ':');
            }
        }
    }
}

/// A position `i` with no ':' before it, and a ':' at it unless it is the
/// end, is exactly `first_colon`.
pub proof fn lemma_first_colon_at(s: Seq<char>, i: int)
    requires
        0 <= i <= s.len(),
        forall|j: int| 0 <= j < i ==> s[j] != ':',
        i < s.len() ==> s[i] == ':',
    ensures
        first_colon(s) == i,
    decreases s.len(),
{
    if s.len() == 0 {
    } else if s[0] == ':' {
        assert(i == 0);
    } else {
        assert(i >= 1);
        assert forall|j: int| 0 <= j < i - 1 implies s.drop_first()[j] != ':' by {
            assert(s[j + 1] != ':');
        }
        lemma_first_colon_at(s.drop_first(), i - 1);
    }
}

/// Index of the first ':' of `host`, or its length if it has none.
fn find_colon(host: &str) -> (i: usize)
    ensures
        i as int == first_colon(host@),
{
    let n = host.unicode_len();
    let mut i: usize = 0;
    while i < n
        invariant
            i <= n,
            n == host@.len(),
            forall|j: int| 0 <= j < i ==> host@[j] != ':',
        decreases n - i,
    {
        if host.get_char(i) == ':' {
            proof {
                lemma_first_colon_at(host@, i as int);
            }
            return i;
        }
        i += 1;
    }
    proof {
        lemma_first_colon_at(host@, n as int);
    }
    i
}

/// The bare host of a host header value: the part before the first ':', the
/// whole value if it has none.
pub fn strip_port(host: &str) -> (r: String)
    ensures
        r@ == bare_host(host@),
{
    let i = find_colon(host);
    proof {
        lemma_first_colon_props(host@);
    }
    let s = host.substring_char(0, i);
    s.to_owned()
}

/// The routing table: (host, service name) pairs in configuration order. A
/// lookup takes the latest binding of a host, so of two services declaring
/// the same host the one configured last wins.
#[derive(Debug)]
pub struct HostMap {
    pub entries: Vec<(String, String)>,
}

impl View for HostMap {
    type V = Seq<(Seq<char>, Seq<char>)>;

    open spec fn view(&self) -> Seq<(Seq<char>, Seq<char>)> {
        self.entries.deep_view()
    }
}

impl HostMap {
    /// The service name the table routes `host` to, if any: the value of the
    /// latest entry whose key is `host`.
    pub open spec fn route_of(self, host: Seq<char>) -> Option<Seq<char>> {
        assoc_last(self@, host)
    }

    /// Looks a bare host up in the table.
    pub fn lookup(&self, host: &String) -> (r: Option<String>)
        ensures
            match r {
                Some(n) => self.route_of(host@) == Some(n@),
                None => self.route_of(host@) is None,
            },
    {
        let mut i: usize = self.entries.len();
        while i > 0
            invariant
                i <= self.entries.len(),
                self@.len() == self.entries.len(),
                forall|j: int| i <= j < self@.len() ==> self@[j].0 != host@,
            decreases i,
    {
            i -= 1;
            if self.entries[i].0 == *host {
                proof {
                    lemma_assoc_last_at(self@, host@, i as int + 1);
                }
                return Some(self.entries[i].1.clone());
            }
        }
        proof {
            lemma_assoc_last_at(self@, host@, 0);
        }
        None
    }
}

/// The (host, service name) pairs that one service contributes to the table.
pub open spec fn service_pairs(name: Seq<char>, p: ProxyConfV) -> Seq<(Seq<char>, Seq<char>)> {
    Seq::new(p.hosts.len(), |i: int| (p.hosts[i], name))
}

/// The whole table derived from a service list: every service's host list
/// expanded, in configuration order.
pub open spec fn host_pairs(services: Seq<(Seq<char>, ProxyConfV)>) -> Seq<
    (Seq<char>, Seq<char>),
>
    decreases services.len(),
{
    if services.len() == 0 {
        Seq::empty()
    } else {
        service_pairs(services[0].0, services[0].1) + host_pairs(services.drop_first())
    }
}

proof fn lemma_host_pairs_push(services: Seq<(Seq<char>, ProxyConfV)>, x: (Seq<char>, ProxyConfV))
    ensures
        host_pairs(services.push(x)) =~= host_pairs(services) + service_pairs(x.0, x.1),
    decreases services.len(),
{
    let sx = services.push(x);
    if services.len() == 0 {
        assert(sx[0] == x);
        assert(sx.drop_first() =~= Seq::<(Seq<char>, ProxyConfV)>::empty());
        assert(host_pairs(sx.drop_first()) == Seq::<(Seq<char>, Seq<char>)>::empty());
        assert(host_pairs(sx) == service_pairs(x.0, x.1) + host_pairs(sx.drop_first()));
        assert(host_pairs(services) == Seq::<(Seq<char>, Seq<char>)>::empty());
    } else {
        assert(sx[0] == services[0]);
        assert(sx.drop_first() =~= services.drop_first().push(x));
        assert(host_pairs(sx) == service_pairs(sx[0].0, sx[0].1) + host_pairs(
            services.drop_first().push(x),
        ));
        lemma_host_pairs_push(services.drop_first(), x);
        assert(host_pairs(services) == service_pairs(services[0].0, services[0].1) + host_pairs(
            services.drop_first(),
        ));
    }
}

/// Builds the routing table from a configuration snapshot: every service's
/// hosts inserted in order, each mapped to its service's name.
pub fn generate_host_map(conf: &RootConf) -> (r: HostMap)
    ensures
        r@ == host_pairs(conf@.proxy),
{
    let n = conf.proxy.len();
    let mut entries: Vec<(String, String)> = Vec::new();
    let mut i: usize = 0;
    while i < n
        invariant
            i <= n,
            n == conf.proxy.len(),
            entries.deep_view() =~= host_pairs(conf@.proxy.take(i as int)),
        decreases n - i,
    {
        let name = &conf.proxy[i].0;
        let p = &conf.proxy[i].1;
        let m = p.hosts.len();
        let ghost before = entries.deep_view();
        let mut j: usize = 0;
        while j < m
            invariant
                j <= m,
                m == p.hosts.len(),
                entries.deep_view() =~= before + service_pairs(name@, p@).take(j as int),
            decreases m - j,
        {
            let ghost prev = entries.deep_view();
            let ghost old_e = entries@;
            entries.push((p.hosts[j].clone(), name.clone()));
            proof {
                assert(prev.len() == old_e.len());
                assert(entries@.len() == old_e.len() + 1);
                assert(entries@[old_e.len() as int].0@ == p.hosts@[j as int]@);
                assert(entries@[old_e.len() as int].1@ == name@);
                let dv = entries.deep_view();
                let tv = before + service_pairs(name@, p@).take(j as int + 1);
                assert forall|k: int| 0 <= k < dv.len() implies dv[k] == tv[k] by {
                    assert(dv[k] == (entries@[k].0@, entries@[k].1@));
                    if k < prev.len() {
                        assert(dv[k] == prev[k]);
                    } else {
                        assert(service_pairs(name@, p@)[k - before.len()]
                            == (p.hosts@[j as int]@, name@));
                    }
                }
                assert(dv =~= tv);
            }
            j += 1;
        }
        proof {
            assert(service_pairs(name@, p@).take(m as int) =~= service_pairs(name@, p@));
            assert(conf@.proxy.take(i as int + 1) =~= conf@.proxy.take(i as int).push(
                conf@.proxy[i as int],
            ));
            lemma_host_pairs_push(conf@.proxy.take(i as int), conf@.proxy[i as int]);
            assert(conf@.proxy[i as int] == (conf.proxy@[i as int].0@, conf.proxy@[i as int].1@));
        }
        i += 1;
    }
    proof {
        assert(conf@.proxy.take(n as int) =~= conf@.proxy);
    }
    HostMap { entries }
}

/// Resolves a host header value to a service name: strips any port suffix
/// and looks the bare host up in the routing table.
pub fn get_proxy_name(host: Option<&String>, map: &HostMap) -> (r: Option<String>)
    ensures
        match r {
            Some(n) => host is Some && map.route_of(bare_host(host->0@)) == Some(n@),
            None => match host {
                Some(h) => map.route_of(bare_host(h@)) is None,
                None => true,
            },
        },
{
    match host {
        Some(h) => {
            let domain = strip_port(h.as_str());
            map.lookup(&domain)
        },
        None => None,
    }
}

/// The shared state the request path reads: the configuration snapshot and
/// the routing table derived from it. A reload replaces both at once, so a
/// request sees one consistent pair.
#[derive(Debug)]
pub struct ProxyState {
    pub conf: RootConf,
    pub host_map: HostMap,
}

impl ProxyState {
    /// The routing table is the one derived from the configuration.
    pub open spec fn consistent(self) -> bool {
        self.host_map@ == host_pairs(self.conf@.proxy)
    }

    /// Where a host header value is routed under this state.
    pub open spec fn route(self, host: Seq<char>) -> Option<Seq<char>> {
        self.host_map.route_of(bare_host(host))
    }
}

/// Installs a new configuration snapshot: rebuilds the routing table from it
/// and replaces both parts of the shared state at once.
pub fn reload(state: &mut ProxyState, conf: RootConf)
    ensures
        final(state).conf == conf,
        final(state).host_map@ == host_pairs(conf@.proxy),
        final(state).consistent(),
{
    let map = generate_host_map(&conf);
    state.conf = conf;
    state.host_map = map;
}

/// Law: a host with a port suffix is routed exactly as the bare host is. The
/// host itself holds no ':'; the suffix, if present, starts with one.
pub proof fn lemma_port_insensitive(
    m: Seq<(Seq<char>, Seq<char>)>,
    host: Seq<char>,
    suffix: Seq<char>,
)
    requires
        forall|j: int| 0 <= j < host.len() ==> host[j] != ':',
        suffix.len() > 0 ==> suffix[0] == ':',
    ensures
        assoc_last(m, bare_host(host + suffix)) == assoc_last(m, bare_host(host)),
{
    let s = host + suffix;
    assert forall|j: int| 0 <= j < host.len() implies s[j] != ':' by {
        assert(s[j] == host[j]);
    }
    if suffix.len() > 0 {
        assert(s[host.len() as int] == suffix[0]);
    }
    lemma_first_colon_at(s, host.len() as int);
    lemma_first_colon_at(host, host.len() as int);
    assert(bare_host(s) =~= host);
    assert(bare_host(host) =~= host);
}

/// Law: routing is determined by the configuration alone. Two states
/// consistent with the same service list route every host identically; so
/// once a reload has completed, every later request follows the new mapping,
/// and a request begun against the old state follows the old one.
pub proof fn lemma_routing_follows_conf(st1: ProxyState, st2: ProxyState, host: Seq<char>)
    requires
        st1.consistent(),
        st2.consistent(),
        st1.conf@.proxy == st2.conf@.proxy,
    ensures
        st1.route(host) == st2.route(host),
{
}

} // verus!
