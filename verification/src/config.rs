//! The configuration snapshot: named services, each with its match hosts,
//! target address, transport kind, optional spawn specification and optional
//! idle timeout. A snapshot is immutable once published; a reload replaces it
//! wholesale.

use vstd::prelude::*;

use crate::assoc::{assoc_first, lemma_assoc_first_at};

verus! {

/// How a service's process is started: a command with its arguments and
/// environment variables.
#[derive(Debug)]
pub struct SpawnConf {
    pub command: String,
    pub args: Vec<String>,
    pub envs: Vec<(String, String)>,
}

/// Mathematical image of a spawn specification.
pub ghost struct SpawnConfV {
    pub command: Seq<char>,
    pub args: Seq<Seq<char>>,
    pub envs: Seq<(Seq<char>, Seq<char>)>,
}

impl View for SpawnConf {
    type V = SpawnConfV;

    open spec fn view(&self) -> SpawnConfV {
        SpawnConfV {
            command: self.command@,
            args: self.args.deep_view(),
            envs: self.envs.deep_view(),
        }
    }
}

/// Copies a list of (name, value) pairs.
fn clone_pairs(v: &Vec<(String, String)>) -> (r: Vec<(String, String)>)
    ensures
        r.deep_view() == v.deep_view(),
{
    let n = v.len();
    let mut r: Vec<(String, String)> = Vec::new();
    let mut i: usize = 0;
    while i < n
        invariant
            i <= n,
            n == v.len(),
            r.deep_view() =~= v.deep_view().take(i as int),
        decreases n - i,
    {
        let ghost prev = r.deep_view();
        let ghost old_r = r@;
        r.push((v[i].0.clone(), v[i].1.clone()));
        proof {
            let dv = r.deep_view();
            let tv = v.deep_view().take(i as int + 1);
            assert(prev.len() == i as int);
            assert(prev.len() == old_r.len());
            assert(r@.len() == i as int + 1);
            assert(r@[i as int].0@ == v@[i as int].0@);
            assert(r@[i as int].1@ == v@[i as int].1@);
            assert forall|k: int| 0 <= k < dv.len() implies dv[k] == tv[k] by {
                assert(dv[k] == (r@[k].0@, r@[k].1@));
                if k < i as int {
                    assert(dv[k] == prev[k]);
                    assert(prev[k] == v.deep_view().take(i as int)[k]);
                } else {
                    assert(dv[k] == (v@[k].0@, v@[k].1@));
                }
            }
            assert(dv =~= tv);
        }
        i += 1;
    }
    proof {
        assert(r.deep_view() =~= v.deep_view());
    }
    r
}

impl Clone for SpawnConf {
    fn clone(&self) -> (r: Self)
        ensures
            r@ == self@,
    {
        let r = SpawnConf {
            command: self.command.clone(),
            args: self.args.clone(),
            envs: clone_pairs(&self.envs),
        };
        proof {
            assert(r.args.deep_view() =~= self.args.deep_view());
        }
        r
    }
}

/// One service: the host names routed to it, the address of its backend, the
/// transport used to reach that address (a TCP address, or a socket file when
/// `socket` is set), an optional spawn specification, and an optional idle
/// timeout in seconds. A service without a spawn specification is externally
/// managed: it is never started or stopped here.
#[derive(Debug)]
pub struct ProxyConf {
    pub hosts: Vec<String>,
    pub target: String,
    pub socket: bool,
    pub spawn: Option<SpawnConf>,
    pub timeout: Option<u64>,
}

/// Mathematical image of a service configuration.
pub ghost struct ProxyConfV {
    pub hosts: Seq<Seq<char>>,
    pub target: Seq<char>,
    pub socket: bool,
    pub spawn: Option<SpawnConfV>,
    pub timeout: Option<u64>,
}

impl View for ProxyConf {
    type V = ProxyConfV;

    open spec fn view(&self) -> ProxyConfV {
        ProxyConfV {
            hosts: self.hosts.deep_view(),
            target: self.target@,
            socket: self.socket,
            spawn: match self.spawn {
                Some(s) => Some(s@),
                None => None,
            },
            timeout: self.timeout,
        }
    }
}

impl Clone for ProxyConf {
    fn clone(&self) -> (r: Self)
        ensures
            r@ == self@,
    {
        let spawn = match &self.spawn {
            Some(s) => Some(s.clone()),
            None => None,
        };
        let r = ProxyConf {
            hosts: self.hosts.clone(),
            target: self.target.clone(),
            socket: self.socket,
            spawn,
            timeout: self.timeout,
        };
        proof {
            assert(r.hosts.deep_view() =~= self.hosts.deep_view());
        }
        r
    }
}

/// The whole configuration snapshot: the listen address of the proxy itself
/// and the set of services, keyed by unique service name.
#[derive(Debug)]
pub struct RootConf {
    pub listen: String,
    pub proxy: Vec<(String, ProxyConf)>,
}

/// Mathematical image of a configuration snapshot.
pub ghost struct RootConfV {
    pub listen: Seq<char>,
    pub proxy: Seq<(Seq<char>, ProxyConfV)>,
}

impl View for RootConf {
    type V = RootConfV;

    open spec fn view(&self) -> RootConfV {
        RootConfV {
            listen: self.listen@,
            proxy: Seq::new(self.proxy@.len(), |i: int| (self.proxy@[i].0@, self.proxy@[i].1@)),
        }
    }
}

impl RootConf {
    /// A service name is a unique key within a snapshot.
    pub open spec fn wf(self) -> bool {
        forall|i: int, j: int|
            0 <= i < j < self@.proxy.len() ==> self@.proxy[i].0 != self@.proxy[j].0
    }

    /// The configuration of the named service, if one is configured.
    pub open spec fn service_of(self, name: Seq<char>) -> Option<ProxyConfV> {
        assoc_first(self@.proxy, name)
    }

    /// Looks the named service up in the snapshot.
    pub fn find(&self, name: &String) -> (r: Option<&ProxyConf>)
        ensures
            match r {
                Some(p) => self.service_of(name@) == Some(p@),
                None => self.service_of(name@) is None,
            },
    {
        let n = self.proxy.len();
        let mut i: usize = 0;
        while i < n
            invariant
                i <= n,
                n == self.proxy.len(),
                forall|j: int| 0 <= j < i ==> self@.proxy[j].0 != name@,
            decreases n - i,
        {
            if self.proxy[i].0 == *name {
                proof {
                    lemma_assoc_first_at(self@.proxy, name@, i as int);
                }
                return Some(&self.proxy[i].1);
            }
            i += 1;
        }
        proof {
            lemma_assoc_first_at(self@.proxy, name@, n as int);
        }
        None
    }
}

/// The service configuration under the given name, as an owned copy. This is
/// the request path's way from a resolved service name to the service that
/// must be ensured running and forwarded to.
pub fn get_proxy(name: Option<String>, conf: &RootConf) -> (r: Option<ProxyConf>)
    ensures
        match r {
            Some(p) => name is Some && conf.service_of(name->0@) == Some(p@),
            None => match name {
                Some(n) => conf.service_of(n@) is None,
                None => true,
            },
        },
{
    match name {
        Some(n) => match conf.find(&n) {
            Some(p) => Some(p.clone()),
            None => None,
        },
        None => None,
    }
}

} // verus!
