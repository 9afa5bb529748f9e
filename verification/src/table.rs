//! The flat configuration layout: a plain list of proxy entries, each with a
//! single host, and a host table mapping each host to its entry's index. The
//! lookup strips any port suffix from the requested host, like the routing
//! table's.

use vstd::prelude::*;

use crate::assoc::{assoc_last, lemma_assoc_last_at};
use crate::routing::{bare_host, strip_port};

verus! {

/// One proxy entry: a host routed to a target, reached over TCP or, when
/// `socket` says so, over a socket file.
#[derive(Debug)]
pub struct ProxyItem {
    pub host: String,
    pub target: String,
    pub socket: Option<bool>,
}

/// Mathematical image of a proxy entry.
pub ghost struct ProxyItemV {
    pub host: Seq<char>,
    pub target: Seq<char>,
    pub socket: Option<bool>,
}

impl View for ProxyItem {
    type V = ProxyItemV;

    open spec fn view(&self) -> ProxyItemV {
        ProxyItemV { host: self.host@, target: self.target@, socket: self.socket }
    }
}

/// The whole flat configuration: the proxy entries in file order.
#[derive(Debug)]
pub struct Root {
    pub proxy: Vec<ProxyItem>,
}

impl View for Root {
    type V = Seq<ProxyItemV>;

    open spec fn view(&self) -> Seq<ProxyItemV> {
        Seq::new(self.proxy@.len(), |i: int| self.proxy@[i]@)
    }
}

/// The host table: each entry's host paired with the entry's index. A lookup
/// takes the latest binding, so a host declared twice goes to the entry
/// declared last.
#[derive(Debug)]
pub struct HostTable {
    pub entries: Vec<(String, usize)>,
}

impl View for HostTable {
    type V = Seq<(Seq<char>, usize)>;

    open spec fn view(&self) -> Seq<(Seq<char>, usize)> {
        self.entries.deep_view()
    }
}

impl HostTable {
    /// The index the table maps a bare host to, if any.
    pub open spec fn index_of(self, host: Seq<char>) -> Option<usize> {
        assoc_last(self@, host)
    }

    /// Looks a bare host up in the table.
    pub fn lookup(&self, host: &String) -> (r: Option<usize>)
        ensures
            r == self.index_of(host@),
    {
        let mut i: usize = self.entries.len();
        while i > 0
            invariant
                i <= self.entries.len(),
                self@.len() == self.entries.len(),
                forall|j: int| i <= j < self@.len() ==> self@[j].0 != host@,
            decreases i,
        {
            i -= 1;
            if self.entries[i].0 == *host {
                proof {
                    lemma_assoc_last_at(self@, host@, i as int + 1);
                }
                return Some(self.entries[i].1);
            }
        }
        proof {
            lemma_assoc_last_at(self@, host@, 0);
        }
        None
    }
}

/// Builds the host table from the flat configuration: entry `i`'s host maps
/// to `i`.
pub fn generate_host_table(conf: &Root) -> (r: HostTable)
    ensures
        r@ == Seq::new(conf@.len(), |i: int| (conf@[i].host, i as usize)),
{
    let n = conf.proxy.len();
    let mut entries: Vec<(String, usize)> = Vec::new();
    let mut i: usize = 0;
    while i < n
        invariant
            i <= n,
            n == conf.proxy.len(),
            entries.deep_view() =~= Seq::new(i as nat, |k: int| (conf@[k].host, k as usize)),
        decreases n - i,
    {
        let ghost prev = entries.deep_view();
        let ghost old_e = entries@;
        entries.push((conf.proxy[i].host.clone(), i));
        proof {
            assert(prev.len() == old_e.len());
            assert(entries@.len() == old_e.len() + 1);
            assert(entries@[old_e.len() as int].0@ == conf.proxy@[i as int].host@);
            let dv = entries.deep_view();
            let tv = Seq::new(i as nat + 1, |k: int| (conf@[k].host, k as usize));
            assert forall|k: int| 0 <= k < dv.len() implies dv[k] == tv[k] by {
                assert(dv[k] == (entries@[k].0@, entries@[k].1));
                if k < prev.len() {
                    assert(dv[k] == prev[k]);
                }
            }
            assert(dv =~= tv);
        }
        i += 1;
    }
    proof {
        assert(entries.deep_view() =~= Seq::new(conf@.len(), |k: int| (conf@[k].host, k as usize)));
    }
    HostTable { entries }
}

/// Resolves a host header value against the flat configuration: strips any
/// port suffix, looks the bare host up in the table, and takes the entry the
/// found index points at, if it is in range.
pub fn get_host<'a>(host: Option<&String>, conf: &'a Root, table: &HostTable) -> (r: Option<
    &'a ProxyItem,
>)
    ensures
        ({
            let found = match host {
                Some(h) => table.index_of(bare_host(h@)),
                None => None::<usize>,
            };
            match r {
                Some(p) => {
                    &&& found is Some
                    &&& (found->0 as int) < conf@.len()
                    &&& p@ == conf@[found->0 as int]
                },
                None => match found {
                    Some(idx) => idx as int >= conf@.len(),
                    None => true,
                },
            }
        }),
{
    match host {
        Some(h) => {
            let domain = strip_port(h.as_str());
            match table.lookup(&domain) {
                Some(idx) => {
                    if idx < conf.proxy.len() {
                        Some(&conf.proxy[idx])
                    } else {
                        None
                    }
                },
                None => None,
            }
        },
        None => None,
    }
}

} // verus!
