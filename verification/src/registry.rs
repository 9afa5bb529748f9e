//! The service registry: one lifecycle entry per configured service, holding
//! whether a process handle is held, the lifecycle status, and the time of
//! last activity. The registry decides the request path's lifecycle steps —
//! whether a service is ready, being started by another caller, or must be
//! spawned by this caller — and the idle reaper's stops. The caller owns the
//! actual process handles and performs the spawns, probes and kills that the
//! decisions call for; every transition here is a plain state change.

use vstd::pervasive::unreached;
use vstd::prelude::*;

use crate::assoc::{assoc_first, lemma_assoc_first_some};
use crate::config::{ProxyConf, ProxyConfV, RootConf};

verus! {

/// Interval between two scans of the idle reaper, in seconds.
pub const REAP_INTERVAL_SECS: u64 = 10;

/// Lifecycle status of a managed service.
#[derive(Clone, Copy, Debug, PartialEq, Eq, Structural)]
pub enum Status {
    /// No process is live; the next request spawns one.
    Stopped,
    /// One caller is spawning and probing the process; others wait.
    Starting,
    /// The process is reachable and serving.
    Running,
}

/// Lifecycle state of one service: whether a process handle is held (the
/// registry's owner keeps the handle itself), the status, and the last-active
/// time in seconds.
#[derive(Clone, Copy, Debug, PartialEq, Eq, Structural)]
pub struct ServiceData {
    pub child: bool,
    pub status: Status,
    pub last_active: u64,
}

/// The state every service starts in: stopped, no process, never active.
pub open spec fn initial_service_data() -> ServiceData {
    ServiceData { child: false, status: Status::Stopped, last_active: 0 }
}

/// A service's state after a stop: the process handle is dropped and the
/// status is back to stopped; the last-active time is kept.
pub open spec fn stopped_data(d: ServiceData) -> ServiceData {
    ServiceData { child: false, status: Status::Stopped, last_active: d.last_active }
}

impl ServiceData {
    /// A fresh entry, as created for every configured service at startup.
    pub fn new() -> (r: ServiceData)
        ensures
            r == initial_service_data(),
    {
        ServiceData { child: false, status: Status::Stopped, last_active: 0 }
    }
}

/// What the request path must do next for a service, as decided by
/// [`Registry::ensure_begin`].
#[derive(Clone, Copy, Debug, PartialEq, Eq, Structural)]
pub enum EnsureStart {
    /// The service needs no start (it is running, or is externally managed):
    /// forward the request now.
    Ready,
    /// Another caller is already spawning this service: wait for its outcome,
    /// then ask again.
    Wait,
    /// This caller has won the start: spawn the process, after removing a
    /// stale socket file if `clear_stale_socket` is set.
    MustSpawn { clear_stale_socket: bool },
}

/// Why an ensure-running attempt failed.
#[derive(Clone, Copy, Debug, PartialEq, Eq, Structural)]
pub enum EnsureError {
    /// The configured command could not be started; the service stays
    /// stopped and a later request retries.
    SpawnFailed,
    /// The process started but never became reachable within the bound; it
    /// is killed and the service is stopped.
    ProbeTimeout,
}

/// What [`Registry::ensure_begin`] answers, given the service's state, whether
/// a spawn specification is configured, and whether the target is a socket
/// file.
pub open spec fn begin_result(d: ServiceData, has_spawn: bool, socket: bool) -> EnsureStart {
    if !has_spawn {
        EnsureStart::Ready
    } else if d.status is Running {
        EnsureStart::Ready
    } else if d.status is Starting {
        EnsureStart::Wait
    } else {
        EnsureStart::MustSpawn { clear_stale_socket: socket && !d.child }
    }
}

/// The service's state after [`Registry::ensure_begin`]: activity is
/// recorded, and a stopped service with a spawn specification moves to
/// starting — atomically with the decision, so no second caller can also see
/// it stopped.
pub open spec fn begin_post(d: ServiceData, has_spawn: bool, now: u64) -> ServiceData {
    ServiceData {
        child: d.child,
        status: if has_spawn && d.status is Stopped {
            Status::Starting
        } else {
            d.status
        },
        last_active: now,
    }
}

/// The idle timeout the configuration gives the named service, if the
/// service is configured at all.
pub open spec fn timeout_of(services: Seq<(Seq<char>, ProxyConfV)>, name: Seq<char>) -> Option<
    u64,
> {
    match assoc_first(services, name) {
        Some(p) => p.timeout,
        None => None,
    }
}

/// The idle reaper stops a service exactly when it has an idle timeout
/// configured, is running, and has been inactive for longer than the timeout.
pub open spec fn should_reap(d: ServiceData, timeout: Option<u64>, now: u64) -> bool {
    &&& timeout is Some
    &&& d.status is Running
    &&& now - d.last_active > timeout->0
}

/// A service's state after one reaper scan at time `now`.
pub open spec fn reaped(d: ServiceData, timeout: Option<u64>, now: u64) -> ServiceData {
    if should_reap(d, timeout, now) {
        stopped_data(d)
    } else {
        d
    }
}

/// The names whose processes one reaper scan kills: services among the first
/// `i` entries that are reaped while holding a process handle, in registry
/// order.
pub open spec fn kill_prefix(
    names: Seq<Seq<char>>,
    data: Seq<ServiceData>,
    services: Seq<(Seq<char>, ProxyConfV)>,
    now: u64,
    i: int,
) -> Seq<Seq<char>>
    decreases i,
{
    if i <= 0 {
        Seq::empty()
    } else {
        let rest = kill_prefix(names, data, services, now, i - 1);
        if should_reap(data[i - 1], timeout_of(services, names[i - 1]), now) && data[i
            - 1].child {
            rest.push(names[i - 1])
        } else {
            rest
        }
    }
}

/// Per-service lifecycle state for every configured service, keyed by unique
/// service name. The entry for a service is created at startup and survives
/// stops; only its state changes.
#[derive(Debug)]
pub struct Registry {
    pub names: Vec<String>,
    pub data: Vec<ServiceData>,
}

impl Registry {
    /// One state per name, and names are unique keys.
    pub open spec fn wf(self) -> bool {
        &&& self.names@.len() == self.data@.len()
        &&& forall|i: int, j: int|
            0 <= i < j < self.names@.len() ==> self.names@[i]@ != self.names@[j]@
    }

    /// Whether a service of this name has an entry.
    pub open spec fn contains_name(self, name: Seq<char>) -> bool {
        exists|i: int| 0 <= i < self.names@.len() && self.names@[i]@ == name
    }

    /// The position of the named entry.
    pub open spec fn idx_of(self, name: Seq<char>) -> int {
        choose|i: int| 0 <= i < self.names@.len() && self.names@[i]@ == name
    }

    /// The named service's lifecycle state.
    pub open spec fn data_of(self, name: Seq<char>) -> ServiceData {
        self.data@[self.idx_of(name)]
    }

    /// Unique names make the found position the `idx_of` position.
    proof fn lemma_idx_unique(self, name: Seq<char>, i: int)
        requires
            self.wf(),
            0 <= i < self.names@.len(),
            self.names@[i]@ == name,
        ensures
            self.contains_name(name),
            self.idx_of(name) == i,
    {
        assert(self.contains_name(name));
        let j = self.idx_of(name);
        assert(0 <= j < self.names@.len() && self.names@[j]@ == name);
        if i < j {
            assert(self.names@[i]@ != self.names@[j]@);
        } else if j < i {
            assert(self.names@[j]@ != self.names@[i]@);
        }
    }

    /// Whether the named service has an entry, for callers that must check
    /// before asking for a transition.
    pub fn contains(&self, name: &String) -> (r: bool)
        ensures
            r == self.contains_name(name@),
    {
        let n = self.names.len();
        let mut i: usize = 0;
        while i < n
            invariant
                i <= n,
                n == self.names.len(),
                forall|j: int| 0 <= j < i ==> self.names@[j]@ != name@,
            decreases n - i,
        {
            if self.names[i] == *name {
                return true;
            }
            i += 1;
        }
        false
    }

    /// Finds the named entry's position.
    fn find_index(&self, name: &String) -> (r: Option<usize>)
        requires
            self.wf(),
        ensures
            match r {
                Some(i) => {
                    &&& self.contains_name(name@)
                    &&& 0 <= i < self.data@.len()
                    &&& self.idx_of(name@) == i as int
                    &&& self.names@[i as int]@ == name@
                },
                None => !self.contains_name(name@),
            },
    {
        let n = self.names.len();
        let mut i: usize = 0;
        while i < n
            invariant
                i <= n,
                n == self.names.len(),
                self.wf(),
                forall|j: int| 0 <= j < i ==> self.names@[j]@ != name@,
            decreases n - i,
        {
            if self.names[i] == *name {
                proof {
                    self.lemma_idx_unique(name@, i as int);
                }
                return Some(i);
            }
            i += 1;
        }
        None
    }

    /// Replaces the state at position `i`, leaving every other entry as it
    /// was.
    fn update_entry(&mut self, i: usize, d: ServiceData)
        requires
            old(self).wf(),
            i < old(self).data@.len(),
        ensures
            final(self).wf(),
            final(self).names == old(self).names,
            final(self).data@ == old(self).data@.update(i as int, d),
            forall|m: Seq<char>|
                final(self).contains_name(m) == old(self).contains_name(m),
            final(self).data_of(old(self).names@[i as int]@) == d,
            forall|m: Seq<char>|
                old(self).contains_name(m) && m != old(self).names@[i as int]@
                    ==> final(self).data_of(m) == old(self).data_of(m),
    {
        self.data[i] = d;
        proof {
            let pre = *old(self);
            let post = *self;
            assert(post.names@ == pre.names@);
            post.lemma_idx_unique(pre.names@[i as int]@, i as int);
            assert forall|m: Seq<char>|
                pre.contains_name(m) && m != pre.names@[i as int]@ implies post.data_of(m)
                == pre.data_of(m) by {
                let j = pre.idx_of(m);
                assert(0 <= j < pre.names@.len() && pre.names@[j]@ == m);
                post.lemma_idx_unique(m, j);
                pre.lemma_idx_unique(m, j);
                assert(j != i as int);
            }
        }
    }

    /// The request path's lifecycle entry for the named service, at time
    /// `now`. Decides — atomically with the state change — whether the
    /// service is ready to forward to, whether another caller is already
    /// starting it, or whether this caller must spawn it (clearing a stale
    /// socket file first when the target is a socket file and no process
    /// handle is held). Activity is recorded in every case. A service
    /// without a spawn specification is externally managed and is always
    /// ready.
    pub fn ensure_begin(&mut self, name: &String, proxy: &ProxyConf, now: u64) -> (r: EnsureStart)
        requires
            old(self).wf(),
            old(self).contains_name(name@),
        ensures
            final(self).wf(),
            final(self).names == old(self).names,
            r == begin_result(old(self).data_of(name@), proxy.spawn is Some, proxy.socket),
            final(self).data_of(name@) == begin_post(
                old(self).data_of(name@),
                proxy.spawn is Some,
                now,
            ),
            forall|m: Seq<char>|
                final(self).contains_name(m) == old(self).contains_name(m),
            forall|m: Seq<char>|
                old(self).contains_name(m) && m != name@ ==> final(self).data_of(m) == old(
                    self,
                ).data_of(m),
    {
        let i = match self.find_index(name) {
            Some(i) => i,
            None => unreached(),
        };
        let d = self.data[i];
        let has_spawn = proxy.spawn.is_some();
        if !has_spawn {
            self.update_entry(i, ServiceData { last_active: now, ..d });
            EnsureStart::Ready
        } else {
            match d.status {
                Status::Running => {
                    self.update_entry(i, ServiceData { last_active: now, ..d });
                    EnsureStart::Ready
                },
                Status::Starting => {
                    self.update_entry(i, ServiceData { last_active: now, ..d });
                    EnsureStart::Wait
                },
                Status::Stopped => {
                    self.update_entry(
                        i,
                        ServiceData { status: Status::Starting, last_active: now, ..d },
                    );
                    EnsureStart::MustSpawn { clear_stale_socket: proxy.socket && !d.child }
                },
            }
        }
    }

    /// Records that the spawn succeeded: the registry now holds a process
    /// handle for the named service.
    pub fn note_spawned(&mut self, name: &String)
        requires
            old(self).wf(),
            old(self).contains_name(name@),
        ensures
            final(self).wf(),
            final(self).names == old(self).names,
            final(self).data_of(name@) == (ServiceData {
                child: true,
                ..old(self).data_of(name@)
            }),
            forall|m: Seq<char>|
                final(self).contains_name(m) == old(self).contains_name(m),
            forall|m: Seq<char>|
                old(self).contains_name(m) && m != name@ ==> final(self).data_of(m) == old(
                    self,
                ).data_of(m),
    {
        let i = match self.find_index(name) {
            Some(i) => i,
            None => unreached(),
        };
        let d = self.data[i];
        self.update_entry(i, ServiceData { child: true, ..d });
    }

    /// Records that the spawn failed: the service goes back to stopped with
    /// no handle, so a later request may retry, and this attempt's callers
    /// see a spawn failure.
    pub fn note_spawn_failed(&mut self, name: &String) -> (e: EnsureError)
        requires
            old(self).wf(),
            old(self).contains_name(name@),
        ensures
            e == EnsureError::SpawnFailed,
            final(self).wf(),
            final(self).names == old(self).names,
            final(self).data_of(name@) == stopped_data(old(self).data_of(name@)),
            forall|m: Seq<char>|
                final(self).contains_name(m) == old(self).contains_name(m),
            forall|m: Seq<char>|
                old(self).contains_name(m) && m != name@ ==> final(self).data_of(m) == old(
                    self,
                ).data_of(m),
    {
        let i = match self.find_index(name) {
            Some(i) => i,
            None => unreached(),
        };
        let d = self.data[i];
        self.update_entry(i, ServiceData { child: false, status: Status::Stopped, ..d });
        EnsureError::SpawnFailed
    }

    /// Records that the readiness probe succeeded: the service is running
    /// and its activity time is `now`.
    pub fn note_probe_ok(&mut self, name: &String, now: u64)
        requires
            old(self).wf(),
            old(self).contains_name(name@),
        ensures
            final(self).wf(),
            final(self).names == old(self).names,
            final(self).data_of(name@) == (ServiceData {
                status: Status::Running,
                last_active: now,
                ..old(self).data_of(name@)
            }),
            forall|m: Seq<char>|
                final(self).contains_name(m) == old(self).contains_name(m),
            forall|m: Seq<char>|
                old(self).contains_name(m) && m != name@ ==> final(self).data_of(m) == old(
                    self,
                ).data_of(m),
    {
        let i = match self.find_index(name) {
            Some(i) => i,
            None => unreached(),
        };
        let d = self.data[i];
        self.update_entry(i, ServiceData { status: Status::Running, last_active: now, ..d });
    }

    /// Records that the readiness probe timed out: the service is stopped
    /// rather than left half-started. The result says whether a process was
    /// live and must be killed by the caller, and names the error this
    /// attempt's callers see.
    pub fn note_probe_timeout(&mut self, name: &String) -> (r: (EnsureError, bool))
        requires
            old(self).wf(),
            old(self).contains_name(name@),
        ensures
            r.0 == EnsureError::ProbeTimeout,
            r.1 == old(self).data_of(name@).child,
            final(self).wf(),
            final(self).names == old(self).names,
            final(self).data_of(name@) == stopped_data(old(self).data_of(name@)),
            forall|m: Seq<char>|
                final(self).contains_name(m) == old(self).contains_name(m),
            forall|m: Seq<char>|
                old(self).contains_name(m) && m != name@ ==> final(self).data_of(m) == old(
                    self,
                ).data_of(m),
    {
        let i = match self.find_index(name) {
            Some(i) => i,
            None => unreached(),
        };
        let d = self.data[i];
        self.update_entry(i, ServiceData { child: false, status: Status::Stopped, ..d });
        (EnsureError::ProbeTimeout, d.child)
    }

    /// Stops the named service: drops the handle and sets the status back to
    /// stopped. Idempotent — stopping a stopped service changes nothing and
    /// asks for no kill. The result says whether a process was live and must
    /// be killed by the caller. The entry itself is never removed.
    pub fn stop_service(&mut self, name: &String) -> (kill: bool)
        requires
            old(self).wf(),
            old(self).contains_name(name@),
        ensures
            kill == old(self).data_of(name@).child,
            final(self).wf(),
            final(self).names == old(self).names,
            final(self).data_of(name@) == stopped_data(old(self).data_of(name@)),
            forall|m: Seq<char>|
                final(self).contains_name(m) == old(self).contains_name(m),
            forall|m: Seq<char>|
                old(self).contains_name(m) && m != name@ ==> final(self).data_of(m) == old(
                    self,
                ).data_of(m),
    {
        let i = match self.find_index(name) {
            Some(i) => i,
            None => unreached(),
        };
        let d = self.data[i];
        self.update_entry(i, ServiceData { child: false, status: Status::Stopped, ..d });
        d.child
    }

    /// Records activity for the named service, as every successful forward
    /// does.
    pub fn record_activity(&mut self, name: &String, now: u64)
        requires
            old(self).wf(),
            old(self).contains_name(name@),
        ensures
            final(self).wf(),
            final(self).names == old(self).names,
            final(self).data_of(name@) == (ServiceData {
                last_active: now,
                ..old(self).data_of(name@)
            }),
            forall|m: Seq<char>|
                final(self).contains_name(m) == old(self).contains_name(m),
            forall|m: Seq<char>|
                old(self).contains_name(m) && m != name@ ==> final(self).data_of(m) == old(
                    self,
                ).data_of(m),
    {
        let i = match self.find_index(name) {
            Some(i) => i,
            None => unreached(),
        };
        let d = self.data[i];
        self.update_entry(i, ServiceData { last_active: now, ..d });
    }

    /// One scan of the idle reaper at time `now`: every running service whose
    /// configured idle timeout has been exceeded is stopped; every other
    /// entry — in particular every service without an idle timeout — is left
    /// untouched. The result names the services, in registry order, whose
    /// processes were live and must now be killed by the caller.
    pub fn reap(&mut self, conf: &RootConf, now: u64) -> (kills: Vec<String>)
        requires
            old(self).wf(),
        ensures
            final(self).wf(),
            final(self).names == old(self).names,
            final(self).data@.len() == old(self).data@.len(),
            forall|i: int|
                0 <= i < old(self).data@.len() ==> final(self).data@[i] == reaped(
                    old(self).data@[i],
                    timeout_of(conf@.proxy, old(self).names@[i]@),
                    now,
                ),
            forall|m: Seq<char>|
                old(self).contains_name(m) ==> final(self).data_of(m) == reaped(
                    old(self).data_of(m),
                    timeout_of(conf@.proxy, m),
                    now,
                ),
            kills.deep_view() == kill_prefix(
                old(self).names.deep_view(),
                old(self).data@,
                conf@.proxy,
                now,
                old(self).data@.len() as int,
            ),
    {
        let n = self.names.len();
        let mut kills: Vec<String> = Vec::new();
        let mut i: usize = 0;
        while i < n
            invariant
                i <= n,
                n == self.names.len(),
                self.wf(),
                self.names == old(self).names,
                self.data@.len() == old(self).data@.len(),
                forall|k: int| i <= k < n ==> self.data@[k] == old(self).data@[k],
                forall|k: int|
                    0 <= k < i ==> self.data@[k] == reaped(
                        old(self).data@[k],
                        timeout_of(conf@.proxy, old(self).names@[k]@),
                        now,
                    ),
                kills.deep_view() =~= kill_prefix(
                    old(self).names.deep_view(),
                    old(self).data@,
                    conf@.proxy,
                    now,
                    i as int,
                ),
            decreases n - i,
        {
            let d = self.data[i];
            let ghost timeout_g = timeout_of(conf@.proxy, self.names@[i as int]@);
            let timeout = match conf.find(&self.names[i]) {
                Some(p) => p.timeout,
                None => None,
            };
            proof {
                assert(timeout == timeout_g);
            }
            let expired = match timeout {
                Some(t) => d.status == Status::Running && now > d.last_active && now
                    - d.last_active > t,
                None => false,
            };
            proof {
                assert(expired == should_reap(d, timeout_g, now));
            }
            if expired {
                self.data[i] = ServiceData {
                    child: false,
                    status: Status::Stopped,
                    last_active: d.last_active,
                };
                if d.child {
                    let ghost prev = kills.deep_view();
                    kills.push(self.names[i].clone());
                    proof {
                        assert(kills.deep_view() =~= prev.push(
                            old(self).names.deep_view()[i as int],
                        ));
                    }
                }
            }
            proof {
                assert(kills.deep_view() =~= kill_prefix(
                    old(self).names.deep_view(),
                    old(self).data@,
                    conf@.proxy,
                    now,
                    i as int + 1,
                ));
            }
            i += 1;
        }
        proof {
            let pre = *old(self);
            let post = *self;
            assert forall|m: Seq<char>| pre.contains_name(m) implies post.data_of(m) == reaped(
                pre.data_of(m),
                timeout_of(conf@.proxy, m),
                now,
            ) by {
                let j = pre.idx_of(m);
                assert(0 <= j < pre.names@.len() && pre.names@[j]@ == m);
                pre.lemma_idx_unique(m, j);
                post.lemma_idx_unique(m, j);
            }
        }
        kills
    }

    /// The named service's status and last-active time, for the reaper's and
    /// the tests' read path.
    pub fn snapshot_status(&self, name: &String) -> (r: (Status, u64))
        requires
            self.wf(),
            self.contains_name(name@),
        ensures
            r.0 == self.data_of(name@).status,
            r.1 == self.data_of(name@).last_active,
    {
        let i = match self.find_index(name) {
            Some(i) => i,
            None => unreached(),
        };
        let d = self.data[i];
        (d.status, d.last_active)
    }
}

/// Creates the registry at startup: one entry per configured service, each
/// stopped, with no process handle and no recorded activity.
pub fn prepare_services(conf: &RootConf) -> (r: Registry)
    requires
        conf.wf(),
    ensures
        r.wf(),
        r.names.deep_view() == Seq::new(conf@.proxy.len(), |i: int| conf@.proxy[i].0),
        r.data@.len() == conf@.proxy.len(),
        forall|i: int| 0 <= i < r.data@.len() ==> r.data@[i] == initial_service_data(),
        forall|m: Seq<char>| r.contains_name(m) <==> conf.service_of(m) is Some,
        forall|m: Seq<char>| r.contains_name(m) ==> r.data_of(m) == initial_service_data(),
{
    let n = conf.proxy.len();
    let mut names: Vec<String> = Vec::new();
    let mut data: Vec<ServiceData> = Vec::new();
    let mut i: usize = 0;
    while i < n
        invariant
            i <= n,
            n == conf.proxy.len(),
            names@.len() == i,
            data@.len() == i,
            forall|k: int| 0 <= k < i ==> names@[k]@ == conf@.proxy[k].0,
            forall|k: int| 0 <= k < i ==> data@[k] == initial_service_data(),
        decreases n - i,
    {
        names.push(conf.proxy[i].0.clone());
        data.push(ServiceData::new());
        i += 1;
    }
    let r = Registry { names, data };
    proof {
        assert(r.names.deep_view() =~= Seq::new(conf@.proxy.len(), |k: int| conf@.proxy[k].0));
        assert forall|m: Seq<char>| r.contains_name(m) <==> conf.service_of(m) is Some by {
            lemma_assoc_first_some(conf@.proxy, m);
            if r.contains_name(m) {
                let k = r.idx_of(m);
                assert(0 <= k < r.names@.len() && r.names@[k]@ == m);
                assert(conf@.proxy[k].0 == m);
            }
            if conf.service_of(m) is Some {
                let k = choose|k: int| 0 <= k < conf@.proxy.len() && conf@.proxy[k].0 == m;
                assert(r.names@[k]@ == m);
            }
        }
        assert forall|m: Seq<char>| r.contains_name(m) implies r.data_of(m)
            == initial_service_data() by {
            let k = r.idx_of(m);
            assert(0 <= k < r.names@.len() && r.names@[k]@ == m);
        }
    }
    r
}

/// Law: at most one in-flight spawn per service. A caller that is told to
/// spawn leaves the service starting, so every caller that asks while the
/// spawn is in flight — at any time, for any transport — is told to wait,
/// and waiting changes nothing but the activity time: the process is spawned
/// exactly once per attempt.
pub proof fn lemma_single_flight(
    d: ServiceData,
    socket1: bool,
    socket2: bool,
    now1: u64,
    now2: u64,
)
    requires
        begin_result(d, true, socket1) is MustSpawn,
    ensures
        begin_post(d, true, now1).status is Starting,
        begin_result(begin_post(d, true, now1), true, socket2) is Wait,
        begin_post(begin_post(d, true, now1), true, now2).status is Starting,
        begin_post(begin_post(d, true, now1), true, now2).child == d.child,
{
}

/// Law: once a service is running, asking to ensure it running never
/// re-spawns it — the answer is ready, the status stays running and the
/// process handle is untouched; only the activity time moves.
pub proof fn lemma_running_idempotent(d: ServiceData, socket: bool, now: u64)
    requires
        d.status is Running,
    ensures
        begin_result(d, true, socket) == EnsureStart::Ready,
        begin_post(d, true, now).status is Running,
        begin_post(d, true, now).child == d.child,
{
}

/// Law: the reaper stops a service exactly when it is running and its
/// inactivity exceeds its configured idle timeout; a service with no idle
/// timeout is never touched by the reaper.
pub proof fn lemma_reap_iff(d: ServiceData, timeout: Option<u64>, now: u64)
    ensures
        should_reap(d, timeout, now) <==> (timeout is Some && d.status is Running && now
            - d.last_active > timeout->0),
        should_reap(d, timeout, now) ==> reaped(d, timeout, now) == stopped_data(d),
        !should_reap(d, timeout, now) ==> reaped(d, timeout, now) == d,
        timeout is None ==> reaped(d, timeout, now) == d,
{
}

/// Law: stopping is idempotent. A stopped service stops to the same state,
/// and holds no process, so the second stop asks for no kill.
pub proof fn lemma_stop_idempotent(d: ServiceData)
    ensures
        stopped_data(stopped_data(d)) == stopped_data(d),
        !stopped_data(d).child,
{
}

} // verus!
