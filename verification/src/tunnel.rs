//! The tunnels that have been started: their state, their counters, and
//! the status of every configured tunnel that is derived from them.

use vstd::prelude::*;
use vstd::string::*;

use crate::config::{ConfigStore, TunnelConfig};
use crate::reconnect::{ReconnectAction, ReconnectEvent, ReconnectStep, reconnect_next, reconnect_step};
use crate::stats::{StatsEvent, StatsSnapshot, TunnelStats, after_event, cleared, reconnected, shows_counters};
use crate::text::{decimal, push_decimal, str_eq};

verus! {

/// Where a tunnel is in its life.
#[derive(Debug)]
pub enum TunnelState {
    Stopped,
    Starting,
    Running,
    Reconnecting,
    Error(String),
}

impl TunnelState {
    /// A copy of the state.
    pub fn duplicate(&self) -> (r: TunnelState)
        ensures
            r == *self,
    {
        match self {
            TunnelState::Stopped => TunnelState::Stopped,
            TunnelState::Starting => TunnelState::Starting,
            TunnelState::Running => TunnelState::Running,
            TunnelState::Reconnecting => TunnelState::Reconnecting,
            TunnelState::Error(m) => TunnelState::Error(m.clone()),
        }
    }

    /// Whether the state is `Running`.
    pub fn is_running(&self) -> (r: bool)
        ensures
            r == (*self is Running),
    {
        match self {
            TunnelState::Running => true,
            _ => false,
        }
    }
}

impl Clone for TunnelState {
    fn clone(&self) -> (r: TunnelState)
        ensures
            r == *self,
    {
        self.duplicate()
    }
}

/// What is shown of one configured tunnel.
#[derive(Debug)]
pub struct TunnelStatus {
    pub id: String,
    pub name: String,
    pub state: TunnelState,
    /// The counters, present only while the tunnel runs.
    pub stats: Option<StatsSnapshot>,
    pub local_port: u16,
    pub target_host: String,
    pub target_port: u16,
}

/// A tunnel that has been started, with the I/O handles `H` (process,
/// listener, channels) that the application attached to it.
pub struct RunningTunnel<H> {
    pub config: TunnelConfig,
    pub state: TunnelState,
    pub stats: TunnelStats,
    /// Which run of the tunnel this is; traffic of an earlier run is not
    /// counted into it.
    pub session: u64,
    pub io: Option<H>,
}

/// Position of the tunnel with the id `id`, if one is there.
pub open spec fn find<H>(s: Seq<RunningTunnel<H>>, id: Seq<char>) -> Option<int> {
    if exists|k: int| 0 <= k < s.len() && (#[trigger] s[k]).config.id@ == id {
        Some(choose|k: int| 0 <= k < s.len() && (#[trigger] s[k]).config.id@ == id)
    } else {
        None
    }
}

/// No two tunnels share an id.
pub open spec fn unique_ids<H>(s: Seq<RunningTunnel<H>>) -> bool {
    forall|i: int, j: int|
        0 <= i < s.len() && 0 <= j < s.len() && i != j ==> (#[trigger] s[i]).config.id@ != (#[trigger] s[j]).config.id@
}

/// The tunnels after `t` is put in: it replaces the tunnel with its id, or
/// is added at the end.
pub open spec fn inserted<H>(s: Seq<RunningTunnel<H>>, t: RunningTunnel<H>) -> Seq<RunningTunnel<H>> {
    match find(s, t.config.id@) {
        Some(k) => s.update(k, t),
        None => s.push(t),
    }
}

/// The tunnels without the one with the id `id`.
pub open spec fn removed<H>(s: Seq<RunningTunnel<H>>, id: Seq<char>) -> Seq<RunningTunnel<H>> {
    match find(s, id) {
        Some(k) => s.remove(k),
        None => s,
    }
}

/// `t` stopped: state `Stopped`, counters cleared, handles taken.
pub open spec fn stopped_tunnel<H>(t: RunningTunnel<H>) -> RunningTunnel<H> {
    RunningTunnel { state: TunnelState::Stopped, stats: cleared(t.stats), io: None, ..t }
}

/// The tunnels after the one with the id `id` is stopped.
pub open spec fn stopped<H>(s: Seq<RunningTunnel<H>>, id: Seq<char>) -> Seq<RunningTunnel<H>> {
    match find(s, id) {
        Some(k) => s.update(k, stopped_tunnel(s[k])),
        None => s,
    }
}

/// The tunnels after the one with the id `id` counts `e`, if it is the run
/// numbered `session`.
pub open spec fn counted<H>(s: Seq<RunningTunnel<H>>, id: Seq<char>, session: u64, e: StatsEvent) -> Seq<RunningTunnel<H>> {
    match find(s, id) {
        Some(k) => if s[k].session == session {
            s.update(k, RunningTunnel { stats: after_event(s[k].stats, e), ..s[k] })
        } else {
            s
        },
        None => s,
    }
}

pub open spec fn not_found_message(id: Seq<char>) -> Seq<char> {
    "Tunnel "@ + id + " not found"@
}

/// The message for an SSH forward whose port never accepted a connection.
pub open spec fn tunnel_port_not_ready_text(port: u16, retries: u32, err: Seq<char>) -> Seq<char> {
    "SSH tunnel port "@ + decimal(port as nat) + " not ready after "@ + decimal(retries as nat)
        + " retries: "@ + err
}

/// Builds the message for an SSH forward whose port never accepted a
/// connection.
pub fn tunnel_port_not_ready_message(port: u16, retries: u32, err: &str) -> (r: String)
    ensures
        r@ == tunnel_port_not_ready_text(port, retries, err@),
{
    let mut m = String::from_str("SSH tunnel port ");
    push_decimal(&mut m, port as u64);
    m.append(" not ready after ");
    push_decimal(&mut m, retries as u64);
    m.append(" retries: ");
    m.append(err);
    m
}

pub open spec fn not_running_message(id: Seq<char>) -> Seq<char> {
    "Tunnel "@ + id + " not running"@
}

/// `st` is the status of the configured tunnel `c` given the started
/// tunnels `s`: the configuration's id, name and ports; the state of the
/// started tunnel with that id, or `Stopped` when there is none; and the
/// counters of that tunnel exactly when it is running.
pub open spec fn status_of<H>(st: TunnelStatus, c: TunnelConfig, s: Seq<RunningTunnel<H>>) -> bool {
    &&& st.id@ == c.id@
    &&& st.name@ == c.name@
    &&& st.local_port == c.local_port
    &&& st.target_host@ == c.target_host@
    &&& st.target_port == c.target_port
    &&& match find(s, c.id@) {
        None => st.state is Stopped && st.stats is None,
        Some(k) => {
            &&& st.state == s[k].state
            &&& (s[k].state is Running ==> (st.stats matches Some(snap) && shows_counters(
                snap,
                s[k].stats,
            )))
            &&& (!(s[k].state is Running) ==> st.stats is None)
        },
    }
}

proof fn lemma_find<H>(s: Seq<RunningTunnel<H>>, id: Seq<char>, k: int)
    requires
        unique_ids(s),
        0 <= k < s.len(),
        s[k].config.id@ == id,
    ensures
        find(s, id) == Some(k),
{
    let j = choose|j: int| 0 <= j < s.len() && (#[trigger] s[j]).config.id@ == id;
    if j != k {
        assert(s[j].config.id@ != s[k].config.id@);
    }
}

/// `t` is the record of a failed start of `config`: state `Error` with
/// `message`, counters at zero, no handles, run `session`.
pub open spec fn failed_run<H>(t: RunningTunnel<H>, config: TunnelConfig, message: String, session: u64) -> bool {
    &&& t.config == config
    &&& t.state == TunnelState::Error(message)
    &&& t.stats.bytes_uploaded == 0
    &&& t.stats.bytes_downloaded == 0
    &&& t.stats.connections_open == 0
    &&& t.stats.connections_total == 0
    &&& t.stats.last_reconnect is None
    &&& t.session == session
    &&& t.io is None
}

/// The run numbered `session` of the tunnel with the id `id` goes on: the
/// tunnel is there, still in that run, and was not stopped.
pub open spec fn run_goes_on<H>(s: Seq<RunningTunnel<H>>, id: Seq<char>, session: u64) -> bool {
    find(s, id) matches Some(k) && s[k].session == session && !(s[k].state is Stopped)
}

/// `next` is `t` after the reconnect step `step`: it takes the step's state;
/// on `Resume` its counters start over and it becomes the run numbered
/// `new_session`; on `GiveUp` its handles are taken; nothing else changes.
pub open spec fn reconnect_applied<H>(
    t: RunningTunnel<H>,
    next: RunningTunnel<H>,
    step: ReconnectStep,
    new_session: u64,
) -> bool {
    &&& next.config == t.config
    &&& next.state == step.state
    &&& if step.action is Resume {
        &&& reconnected(t.stats, next.stats)
        &&& next.session == new_session
        &&& next.io == t.io
    } else if step.action is GiveUp {
        &&& next.stats == t.stats
        &&& next.session == t.session
        &&& next.io is None
    } else {
        &&& next.stats == t.stats
        &&& next.session == t.session
        &&& next.io == t.io
    }
}

/// Whether a click on a tunnel's menu item stops it or starts it.
#[derive(Debug, Clone, Copy)]
pub enum ToggleChoice {
    Stop,
    Start,
}

proof fn lemma_unique_update<H>(s: Seq<RunningTunnel<H>>, k: int, t: RunningTunnel<H>)
    requires
        unique_ids(s),
        0 <= k < s.len(),
        t.config.id@ == s[k].config.id@,
    ensures
        unique_ids(s.update(k, t)),
{
    let r = s.update(k, t);
    assert forall|i: int, j: int|
        0 <= i < r.len() && 0 <= j < r.len() && i != j implies (#[trigger] r[i]).config.id@
        != (#[trigger] r[j]).config.id@ by {
        assert(r[i].config.id@ == s[i].config.id@);
        assert(r[j].config.id@ == s[j].config.id@);
    }
}

proof fn lemma_unique_push<H>(s: Seq<RunningTunnel<H>>, t: RunningTunnel<H>)
    requires
        unique_ids(s),
        find(s, t.config.id@) is None,
    ensures
        unique_ids(s.push(t)),
{
    let r = s.push(t);
    assert forall|i: int, j: int|
        0 <= i < r.len() && 0 <= j < r.len() && i != j implies (#[trigger] r[i]).config.id@
        != (#[trigger] r[j]).config.id@ by {
        if i < s.len() {
            assert(r[i] == s[i]);
        }
        if j < s.len() {
            assert(r[j] == s[j]);
        }
    }
}

proof fn lemma_unique_remove<H>(s: Seq<RunningTunnel<H>>, k: int)
    requires
        unique_ids(s),
        0 <= k < s.len(),
    ensures
        unique_ids(s.remove(k)),
{
    let r = s.remove(k);
    assert forall|i: int, j: int|
        0 <= i < r.len() && 0 <= j < r.len() && i != j implies (#[trigger] r[i]).config.id@
        != (#[trigger] r[j]).config.id@ by {
        let oi = if i < k { i } else { i + 1 };
        let oj = if j < k { j } else { j + 1 };
        assert(r[i] == s[oi]);
        assert(r[j] == s[oj]);
    }
}

/// The tunnels started so far, kept under a lock by the application, and
/// where their configurations are stored.
///
/// The tunnels are a list in which no two share an id, in the role of a
/// map keyed by the id text.
pub struct TunnelManagerInner<H> {
    config_store: ConfigStore,
    tunnels: Vec<RunningTunnel<H>>,
}

impl<H> TunnelManagerInner<H> {
    /// No two started tunnels share an id.
    #[verifier::type_invariant]
    spec fn ids_unique(self) -> bool {
        unique_ids(self.tunnels@)
    }

    /// The started tunnels, in the order they were first started.
    pub closed spec fn tunnels(&self) -> Seq<RunningTunnel<H>> {
        self.tunnels@
    }

    /// The store of the configurations.
    pub closed spec fn store(&self) -> ConfigStore {
        self.config_store
    }

    /// No tunnel started yet.
    pub fn new(config_store: ConfigStore) -> (r: Self)
        ensures
            unique_ids(r.tunnels()),
            r.tunnels() == Seq::<RunningTunnel<H>>::empty(),
            r.store() == config_store,
    {
        TunnelManagerInner { config_store, tunnels: Vec::new() }
    }

    /// Where the configurations are stored.
    pub fn config_store(&self) -> (r: &ConfigStore)
        ensures
            unique_ids(self.tunnels()),
            *r == self.store(),
    {
        proof {
            use_type_invariant(self);
        }
        &self.config_store
    }

    fn position(&self, id: &str) -> (r: Option<usize>)
        ensures
            unique_ids(self.tunnels()),
            match r {
                Some(k) => k < self.tunnels().len() && find(self.tunnels(), id@) == Some(k as int),
                None => find(self.tunnels(), id@) is None,
            },
    {
        proof {
            use_type_invariant(self);
        }
        let n = self.tunnels.len();
        let mut i: usize = 0;
        while i < n
            invariant
                n == self.tunnels@.len(),
                unique_ids(self.tunnels@),
                i <= n,
                forall|j: int| 0 <= j < i ==> (#[trigger] self.tunnels@[j]).config.id@ != id@,
            decreases n - i,
        {
            if str_eq(self.tunnels[i].config.id.as_str(), id) {
                proof {
                    lemma_find(self.tunnels@, id@, i as int);
                }
                return Some(i);
            }
            i = i + 1;
        }
        None
    }

    /// Whether a tunnel with the id `id` has been started.
    pub fn contains_tunnel(&self, id: &str) -> (r: bool)
        ensures
            unique_ids(self.tunnels()),
            r == (find(self.tunnels(), id@) is Some),
    {
        proof {
            use_type_invariant(self);
        }
        self.position(id).is_some()
    }

    /// Records a started tunnel; it replaces the one with the same id, which
    /// is handed back.
    pub fn insert_tunnel(&mut self, tunnel: RunningTunnel<H>) -> (r: Option<RunningTunnel<H>>)
        ensures
            unique_ids(final(self).tunnels()),
            final(self).tunnels() == inserted(old(self).tunnels(), tunnel),
            final(self).store() == old(self).store(),
            match find(old(self).tunnels(), tunnel.config.id@) {
                Some(k) => r == Some(old(self).tunnels()[k]),
                None => r is None,
            },
    {
        let pos = self.position(tunnel.config.id.as_str());
        let mut v: Vec<RunningTunnel<H>> = Vec::new();
        std::mem::swap(&mut v, &mut self.tunnels);
        assert(v@ == old(self).tunnels@);
        match pos {
            Some(k) => {
                let prev = v.remove(k);
                v.insert(k, tunnel);
                proof {
                    assert(v@ =~= old(self).tunnels@.update(k as int, tunnel));
                    lemma_unique_update(old(self).tunnels@, k as int, tunnel);
                }
                self.tunnels = v;
                Some(prev)
            },
            None => {
                v.push(tunnel);
                proof {
                    lemma_unique_push(old(self).tunnels@, tunnel);
                }
                self.tunnels = v;
                None
            },
        }
    }

    /// Records that starting the tunnel `config` (its run numbered
    /// `session`) failed with `message`: unless a tunnel with its id is
    /// running, it is put in the `Error` state with that message, fresh
    /// counters and no handles, replacing (and handing back) the one with
    /// its id.
    pub fn mark_start_failed(&mut self, config: TunnelConfig, message: String, session: u64) -> (r: Option<RunningTunnel<H>>)
        ensures
            unique_ids(final(self).tunnels()),
            final(self).store() == old(self).store(),
            if (find(old(self).tunnels(), config.id@) matches Some(k) && old(self).tunnels()[k].state is Running) {
                final(self).tunnels() == old(self).tunnels() && r is None
            } else {
                exists|t: RunningTunnel<H>|
                    #[trigger] failed_run(t, config, message, session) && final(self).tunnels() == inserted(
                        old(self).tunnels(),
                        t,
                    ) && match find(old(self).tunnels(), config.id@) {
                        Some(k) => r == Some(old(self).tunnels()[k]),
                        None => r is None,
                    }
            },
    {
        proof {
            use_type_invariant(&*self);
        }
        if let ToggleChoice::Stop = self.toggle_choice(config.id.as_str()) {
            return None;
        }
        let t = RunningTunnel {
            config,
            state: TunnelState::Error(message),
            stats: TunnelStats::new(),
            session,
            io: None,
        };
        assert(failed_run(t, config, message, session));
        self.insert_tunnel(t)
    }

    /// Marks the run numbered `session` of the tunnel with the id `id` as
    /// running with the handles `io`, keeping its counters; tells whether
    /// that run was found. When it was not, `io` is handed back.
    pub fn mark_running(&mut self, id: &str, session: u64, io: H) -> (r: Option<H>)
        ensures
            unique_ids(final(self).tunnels()),
            final(self).store() == old(self).store(),
            match find(old(self).tunnels(), id@) {
                Some(k) => if old(self).tunnels()[k].session == session {
                    r is None && final(self).tunnels() == old(self).tunnels().update(
                        k,
                        RunningTunnel {
                            state: TunnelState::Running,
                            io: Some(io),
                            ..old(self).tunnels()[k]
                        },
                    )
                } else {
                    r == Some(io) && final(self).tunnels() == old(self).tunnels()
                },
                None => r == Some(io) && final(self).tunnels() == old(self).tunnels(),
            },
    {
        match self.position(id) {
            Some(k) => {
                if self.tunnels[k].session != session {
                    return Some(io);
                }
                let mut v: Vec<RunningTunnel<H>> = Vec::new();
                std::mem::swap(&mut v, &mut self.tunnels);
                assert(v@ == old(self).tunnels@);
                let t = v.remove(k);
                let RunningTunnel { config, state: _, stats, session: run, io: _ } = t;
                let ghost nt = RunningTunnel {
                    state: TunnelState::Running,
                    io: Some(io),
                    ..old(self).tunnels@[k as int]
                };
                v.insert(k, RunningTunnel { config, state: TunnelState::Running, stats, session: run, io: Some(io) });
                proof {
                    assert(v@ =~= old(self).tunnels@.update(k as int, nt));
                    lemma_unique_update(old(self).tunnels@, k as int, nt);
                }
                self.tunnels = v;
                None
            },
            None => Some(io),
        }
    }

    /// Forgets the tunnel with the id `id`, handing it back.
    pub fn remove_tunnel(&mut self, id: &str) -> (r: Option<RunningTunnel<H>>)
        ensures
            unique_ids(final(self).tunnels()),
            final(self).tunnels() == removed(old(self).tunnels(), id@),
            final(self).store() == old(self).store(),
            match find(old(self).tunnels(), id@) {
                Some(k) => r == Some(old(self).tunnels()[k]),
                None => r is None,
            },
    {
        match self.position(id) {
            Some(k) => {
                let mut v: Vec<RunningTunnel<H>> = Vec::new();
                std::mem::swap(&mut v, &mut self.tunnels);
                assert(v@ == old(self).tunnels@);
                let prev = v.remove(k);
                proof {
                    lemma_unique_remove(old(self).tunnels@, k as int);
                }
                self.tunnels = v;
                Some(prev)
            },
            None => None,
        }
    }

    /// Stops the bookkeeping of the tunnel with the id `id`: its state
    /// becomes `Stopped`, its counters are cleared, and its I/O handles are
    /// handed back for the application to shut down. Fails when no tunnel
    /// with that id has been started.
    pub fn stop_tunnel(&mut self, id: &str) -> (r: Result<Option<H>, String>)
        ensures
            unique_ids(final(self).tunnels()),
            final(self).tunnels() == stopped(old(self).tunnels(), id@),
            final(self).store() == old(self).store(),
            match find(old(self).tunnels(), id@) {
                Some(k) => r == Ok::<Option<H>, String>(old(self).tunnels()[k].io),
                None => r matches Err(e) && e@ == not_found_message(id@),
            },
    {
        match self.position(id) {
            Some(k) => {
                let mut v: Vec<RunningTunnel<H>> = Vec::new();
                std::mem::swap(&mut v, &mut self.tunnels);
                assert(v@ == old(self).tunnels@);
                let t = v.remove(k);
                let RunningTunnel { config, state: _, mut stats, session, io } = t;
                stats.reset();
                v.insert(k, RunningTunnel { config, state: TunnelState::Stopped, stats, session, io: None });
                proof {
                    assert(v@ =~= old(self).tunnels@.update(
                        k as int,
                        stopped_tunnel(old(self).tunnels@[k as int]),
                    ));
                    lemma_unique_update(
                        old(self).tunnels@,
                        k as int,
                        stopped_tunnel(old(self).tunnels@[k as int]),
                    );
                }
                self.tunnels = v;
                Ok(io)
            },
            None => {
                let mut m = String::from_str("Tunnel ");
                m.append(id);
                m.append(" not found");
                Err(m)
            },
        }
    }

    /// Counts `e` on the tunnel with the id `id`, if it is still the run
    /// numbered `session`; tells whether it was counted.
    pub fn record_stats(&mut self, id: &str, session: u64, e: StatsEvent) -> (r: bool)
        ensures
            unique_ids(final(self).tunnels()),
            final(self).tunnels() == counted(old(self).tunnels(), id@, session, e),
            final(self).store() == old(self).store(),
            r == (find(old(self).tunnels(), id@) matches Some(k) && old(self).tunnels()[k].session
                == session),
    {
        match self.position(id) {
            Some(k) => {
                if self.tunnels[k].session != session {
                    return false;
                }
                let mut v: Vec<RunningTunnel<H>> = Vec::new();
                std::mem::swap(&mut v, &mut self.tunnels);
                assert(v@ == old(self).tunnels@);
                let mut t = v.remove(k);
                t.stats.apply(e);
                v.insert(k, t);
                proof {
                    assert(v@ =~= counted(old(self).tunnels@, id@, session, e));
                    lemma_unique_update(old(self).tunnels@, k as int, v@[k as int]);
                }
                self.tunnels = v;
                true
            },
            None => false,
        }
    }

    /// Takes in what the watcher of the run numbered `session` of the tunnel
    /// with the id `id` saw, while restart number `attempt` is under way
    /// (0 when none is), and decides with `reconnect_step`. When that run goes
    /// on, the tunnel takes the step's state; after a successful restart its
    /// counters start over and it becomes the run numbered `new_session`;
    /// when it is given up its handles are handed back to be shut down. A run
    /// that was stopped or replaced counts as stopped on purpose and is left
    /// as it is.
    pub fn apply_reconnect(
        &mut self,
        id: &str,
        session: u64,
        new_session: u64,
        attempt: u32,
        event: ReconnectEvent,
    ) -> (r: (ReconnectStep, Option<H>))
        ensures
            unique_ids(final(self).tunnels()),
            final(self).store() == old(self).store(),
            run_goes_on(old(self).tunnels(), id@, session) ==> {
                let k = find(old(self).tunnels(), id@)->0;
                let t = old(self).tunnels()[k];
                &&& reconnect_next(r.0, t.state, t.config.auto_reconnect, false, attempt, event)
                &&& final(self).tunnels().len() == old(self).tunnels().len()
                &&& final(self).tunnels() == old(self).tunnels().update(k, final(self).tunnels()[k])
                &&& reconnect_applied(t, final(self).tunnels()[k], r.0, new_session)
                &&& r.1 == (if r.0.action is GiveUp {
                    t.io
                } else {
                    None
                })
            },
            !run_goes_on(old(self).tunnels(), id@, session) ==> {
                &&& reconnect_next(r.0, TunnelState::Stopped, false, true, attempt, event)
                &&& final(self).tunnels() == old(self).tunnels()
                &&& r.1 is None
            },
    {
        let pos = self.position(id);
        let k = match pos {
            Some(k) => {
                let stopped = match self.tunnels[k].state {
                    TunnelState::Stopped => true,
                    _ => false,
                };
                if self.tunnels[k].session != session || stopped {
                    let step = reconnect_step(&TunnelState::Stopped, false, true, attempt, event);
                    return (step, None);
                }
                k
            },
            None => {
                let step = reconnect_step(&TunnelState::Stopped, false, true, attempt, event);
                return (step, None);
            },
        };
        let auto = self.tunnels[k].config.auto_reconnect;
        let step = reconnect_step(&self.tunnels[k].state, auto, false, attempt, event);
        let mut v: Vec<RunningTunnel<H>> = Vec::new();
        std::mem::swap(&mut v, &mut self.tunnels);
        assert(v@ == old(self).tunnels@);
        let t = v.remove(k);
        let RunningTunnel { config, state: _, mut stats, session: run, io } = t;
        let state = step.state.duplicate();
        let (nt, taken) = match step.action {
            ReconnectAction::Resume => {
                stats.mark_reconnected();
                (RunningTunnel { config, state, stats, session: new_session, io }, None)
            },
            ReconnectAction::GiveUp => (RunningTunnel { config, state, stats, session: run, io: None }, io),
            _ => (RunningTunnel { config, state, stats, session: run, io }, None),
        };
        let ghost g = nt;
        v.insert(k, nt);
        proof {
            assert(v@ =~= old(self).tunnels@.update(k as int, g));
            lemma_unique_update(old(self).tunnels@, k as int, g);
        }
        self.tunnels = v;
        (step, taken)
    }

    /// The ids of the started tunnels, in order.
    pub fn tunnel_ids(&self) -> (r: Vec<String>)
        ensures
            unique_ids(self.tunnels()),
            r@.len() == self.tunnels().len(),
            forall|i: int| 0 <= i < r@.len() ==> (#[trigger] r@[i])@ == self.tunnels()[i].config.id@,
    {
        proof {
            use_type_invariant(self);
        }
        let mut r: Vec<String> = Vec::new();
        let n = self.tunnels.len();
        let mut i: usize = 0;
        while i < n
            invariant
                n == self.tunnels@.len(),
                i <= n,
                r@.len() == i,
                forall|j: int| 0 <= j < i ==> (#[trigger] r@[j])@ == self.tunnels@[j].config.id@,
            decreases n - i,
        {
            r.push(self.tunnels[i].config.id.clone());
            i = i + 1;
        }
        r
    }

    /// The state of the tunnel with the id `id`, if it has been started.
    pub fn tunnel_state(&self, id: &str) -> (r: Option<TunnelState>)
        ensures
            unique_ids(self.tunnels()),
            match find(self.tunnels(), id@) {
                Some(k) => r == Some(self.tunnels()[k].state),
                None => r is None,
            },
    {
        proof {
            use_type_invariant(self);
        }
        match self.position(id) {
            Some(k) => Some(self.tunnels[k].state.duplicate()),
            None => None,
        }
    }

    /// What a click on the tunnel's menu item does: stop it when a tunnel
    /// with the id `id` runs, start it otherwise.
    pub fn toggle_choice(&self, id: &str) -> (r: ToggleChoice)
        ensures
            unique_ids(self.tunnels()),
            (r is Stop) == (find(self.tunnels(), id@) matches Some(k) && self.tunnels()[k].state is Running),
    {
        proof {
            use_type_invariant(self);
        }
        match self.position(id) {
            Some(k) => if self.tunnels[k].state.is_running() {
                ToggleChoice::Stop
            } else {
                ToggleChoice::Start
            },
            None => ToggleChoice::Start,
        }
    }

    /// The configuration the tunnel with the id `id` was started with, if
    /// it has been started.
    pub fn tunnel_config(&self, id: &str) -> (r: Option<TunnelConfig>)
        ensures
            unique_ids(self.tunnels()),
            match find(self.tunnels(), id@) {
                Some(k) => r == Some(self.tunnels()[k].config),
                None => r is None,
            },
    {
        proof {
            use_type_invariant(self);
        }
        match self.position(id) {
            Some(k) => Some(self.tunnels[k].config.duplicate()),
            None => None,
        }
    }

    /// The configuration a restart of the tunnel with the id `id` starts
    /// with: the new one when given, else the one it was started with, else
    /// the error that names the id.
    pub fn config_for_restart(&self, id: &str, new_config: Option<TunnelConfig>) -> (r: Result<TunnelConfig, String>)
        ensures
            unique_ids(self.tunnels()),
            match new_config {
                Some(c) => r == Ok::<TunnelConfig, String>(c),
                None => match find(self.tunnels(), id@) {
                    Some(k) => r == Ok::<TunnelConfig, String>(self.tunnels()[k].config),
                    None => r matches Err(e) && e@ == not_found_message(id@),
                },
            },
    {
        proof {
            use_type_invariant(self);
        }
        match new_config {
            Some(c) => Ok(c),
            None => match self.position(id) {
                Some(k) => Ok(self.tunnels[k].config.duplicate()),
                None => {
                    let mut m = String::from_str("Tunnel ");
                    m.append(id);
                    m.append(" not found");
                    Err(m)
                },
            },
        }
    }

    /// The counters of the tunnel with the id `id`, or the error that says
    /// it is not running when it has not been started.
    pub fn get_tunnel_stats(&self, id: &str) -> (r: Result<StatsSnapshot, String>)
        ensures
            unique_ids(self.tunnels()),
            match find(self.tunnels(), id@) {
                Some(k) => r matches Ok(snap) && shows_counters(snap, self.tunnels()[k].stats),
                None => r matches Err(e) && e@ == not_running_message(id@),
            },
    {
        proof {
            use_type_invariant(self);
        }
        match self.position(id) {
            Some(k) => {
                let snap = self.tunnels[k].stats.snapshot();
                Ok(snap)
            },
            None => {
                let mut m = String::from_str("Tunnel ");
                m.append(id);
                m.append(" not running");
                Err(m)
            },
        }
    }

    /// The status of each configured tunnel, in the order of `configs`.
    pub fn get_all_status(&self, configs: &[TunnelConfig]) -> (r: Vec<TunnelStatus>)
        ensures
            unique_ids(self.tunnels()),
            r@.len() == configs@.len(),
            forall|i: int| 0 <= i < configs@.len() ==> status_of(#[trigger] r@[i], configs@[i], self.tunnels()),
    {
        proof {
            use_type_invariant(self);
        }
        let mut r: Vec<TunnelStatus> = Vec::new();
        let n = configs.len();
        let mut i: usize = 0;
        while i < n
            invariant
                n == configs@.len(),
                i <= n,
                r@.len() == i,
                forall|j: int| 0 <= j < i ==> status_of(#[trigger] r@[j], configs@[j], self.tunnels()),
            decreases n - i,
        {
            let c = &configs[i];
            let st = match self.position(c.id.as_str()) {
                Some(k) => {
                    let t = &self.tunnels[k];
                    let stats = if t.state.is_running() {
                        Some(t.stats.snapshot())
                    } else {
                        None
                    };
                    TunnelStatus {
                        id: c.id.clone(),
                        name: c.name.clone(),
                        state: t.state.duplicate(),
                        stats,
                        local_port: c.local_port,
                        target_host: c.target_host.clone(),
                        target_port: c.target_port,
                    }
                },
                None => TunnelStatus {
                    id: c.id.clone(),
                    name: c.name.clone(),
                    state: TunnelState::Stopped,
                    stats: None,
                    local_port: c.local_port,
                    target_host: c.target_host.clone(),
                    target_port: c.target_port,
                },
            };
            r.push(st);
            i = i + 1;
        }
        r
    }
}

// ---------------------------------------------------------------------
// Laws of the started tunnels
// ---------------------------------------------------------------------

/// A tunnel that is put in is what a lookup of its id finds afterwards,
/// and ids stay unique.
pub proof fn law_find_after_insert<H>(s: Seq<RunningTunnel<H>>, t: RunningTunnel<H>)
    requires
        unique_ids(s),
    ensures
        unique_ids(inserted(s, t)),
        find(inserted(s, t), t.config.id@) matches Some(k) && inserted(s, t)[k] == t,
{
    let r = inserted(s, t);
    match find(s, t.config.id@) {
        Some(k) => {
            assert forall|i: int, j: int|
                0 <= i < r.len() && 0 <= j < r.len() && i != j implies (#[trigger] r[i]).config.id@
                != (#[trigger] r[j]).config.id@ by {
                assert(s[k].config.id@ == t.config.id@);
                if i != k {
                    assert(r[i] == s[i]);
                }
                if j != k {
                    assert(r[j] == s[j]);
                }
            }
            lemma_find(r, t.config.id@, k);
        },
        None => {
            assert forall|i: int, j: int|
                0 <= i < r.len() && 0 <= j < r.len() && i != j implies (#[trigger] r[i]).config.id@
                != (#[trigger] r[j]).config.id@ by {
                if i < s.len() {
                    assert(r[i] == s[i]);
                }
                if j < s.len() {
                    assert(r[j] == s[j]);
                }
            }
            lemma_find(r, t.config.id@, s.len() as int);
        },
    }
}

/// After a tunnel is forgotten, a lookup of its id finds nothing, and
/// every other tunnel is still there.
pub proof fn law_absent_after_remove<H>(s: Seq<RunningTunnel<H>>, id: Seq<char>)
    requires
        unique_ids(s),
    ensures
        find(removed(s, id), id) is None,
        forall|i: int|
            0 <= i < s.len() && (#[trigger] s[i]).config.id@ != id ==> removed(s, id).contains(s[i]),
{
    let r = removed(s, id);
    match find(s, id) {
        Some(k) => {
            assert forall|m: int| 0 <= m < r.len() implies (#[trigger] r[m]).config.id@ != id by {
                let om = if m < k { m } else { m + 1 };
                assert(r[m] == s[om]);
                assert(s[k].config.id@ == id);
            }
            assert forall|i: int| 0 <= i < s.len() && (#[trigger] s[i]).config.id@ != id implies r.contains(s[i]) by {
                if i < k {
                    assert(r[i] == s[i]);
                } else {
                    assert(i != k);
                    assert(r[i - 1] == s[i]);
                }
            }
        },
        None => {},
    }
}

/// A stopped tunnel keeps its configuration, is in state `Stopped`, holds
/// no I/O handles, and all its counters read zero; the other tunnels are
/// untouched.
pub proof fn law_stop_clears_counters<H>(s: Seq<RunningTunnel<H>>, id: Seq<char>)
    requires
        unique_ids(s),
        find(s, id) is Some,
    ensures
        find(stopped(s, id), id) == find(s, id),
        ({
            let k = find(s, id)->0;
            let t = stopped(s, id)[k];
            &&& t.config == s[k].config
            &&& t.state is Stopped
            &&& t.io is None
            &&& t.stats.bytes_uploaded == 0
            &&& t.stats.bytes_downloaded == 0
            &&& t.stats.connections_open == 0
            &&& t.stats.connections_total == 0
        }),
        forall|i: int| 0 <= i < s.len() && i != find(s, id)->0 ==> stopped(s, id)[i] == s[i],
{
    let k = find(s, id)->0;
    let r = stopped(s, id);
    assert(s[k].config.id@ == id);
    assert forall|i: int, j: int|
        0 <= i < r.len() && 0 <= j < r.len() && i != j implies (#[trigger] r[i]).config.id@
        != (#[trigger] r[j]).config.id@ by {
        assert(r[i].config == s[i].config);
        assert(r[j].config == s[j].config);
    }
    lemma_find(r, id, k);
}

/// The status shown for a configured tunnel right after it is stopped is
/// `Stopped`, without counters.
pub proof fn law_status_after_stop<H>(s: Seq<RunningTunnel<H>>, c: TunnelConfig, st: TunnelStatus)
    requires
        unique_ids(s),
        find(s, c.id@) is Some,
        status_of(st, c, stopped(s, c.id@)),
    ensures
        st.state is Stopped,
        st.stats is None,
{
    law_stop_clears_counters(s, c.id@);
}

/// Counting an event of a tunnel's current run changes only that tunnel's
/// counters, and changes them as the event says: an upload or download adds
/// its bytes, an opened connection adds one open and one handled connection,
/// a closed connection takes one off the open ones (each counter wrapping
/// at its width); everything else stays as it was.
pub proof fn law_record_counts_the_event<H>(s: Seq<RunningTunnel<H>>, id: Seq<char>, session: u64, e: StatsEvent)
    requires
        unique_ids(s),
        find(s, id) is Some,
        s[find(s, id)->0].session == session,
    ensures
        counted(s, id, session, e).len() == s.len(),
        find(counted(s, id, session, e), id) == find(s, id),
        forall|i: int|
            0 <= i < s.len() && i != find(s, id)->0 ==> counted(s, id, session, e)[i] == s[i],
        ({
            let k = find(s, id)->0;
            let t = s[k];
            let u = counted(s, id, session, e)[k];
            let (b, a) = (t.stats, u.stats);
            &&& u.config == t.config
            &&& u.state == t.state
            &&& u.session == t.session
            &&& u.io == t.io
            &&& a.started_at == b.started_at
            &&& a.last_reconnect == b.last_reconnect
            &&& match e {
                StatsEvent::Upload(n) => {
                    &&& a.bytes_uploaded == (b.bytes_uploaded + n) % 0x1_0000_0000_0000_0000
                    &&& a.bytes_downloaded == b.bytes_downloaded
                    &&& a.connections_open == b.connections_open
                    &&& a.connections_total == b.connections_total
                },
                StatsEvent::Download(n) => {
                    &&& a.bytes_uploaded == b.bytes_uploaded
                    &&& a.bytes_downloaded == (b.bytes_downloaded + n) % 0x1_0000_0000_0000_0000
                    &&& a.connections_open == b.connections_open
                    &&& a.connections_total == b.connections_total
                },
                StatsEvent::Opened => {
                    &&& a.bytes_uploaded == b.bytes_uploaded
                    &&& a.bytes_downloaded == b.bytes_downloaded
                    &&& a.connections_open == (b.connections_open + 1) % 0x1_0000_0000
                    &&& a.connections_total == (b.connections_total + 1) % 0x1_0000_0000_0000_0000
                },
                StatsEvent::Closed => {
                    &&& a.bytes_uploaded == b.bytes_uploaded
                    &&& a.bytes_downloaded == b.bytes_downloaded
                    &&& a.connections_open == (b.connections_open + 0xffff_ffff) % 0x1_0000_0000
                    &&& a.connections_total == b.connections_total
                },
            }
        }),
{
    let k = find(s, id)->0;
    let r = counted(s, id, session, e);
    assert(s[k].config.id@ == id);
    assert forall|i: int, j: int|
        0 <= i < r.len() && 0 <= j < r.len() && i != j implies (#[trigger] r[i]).config.id@
        != (#[trigger] r[j]).config.id@ by {
        assert(r[i].config == s[i].config);
        assert(r[j].config == s[j].config);
    }
    lemma_find(r, id, k);
}

/// A connection of the current run that opens and then closes leaves the
/// number of open connections of the tunnel as it was, and adds one to the
/// connections handled.
pub proof fn law_open_then_close_restores_open_count<H>(s: Seq<RunningTunnel<H>>, id: Seq<char>, session: u64)
    requires
        unique_ids(s),
        find(s, id) is Some,
        s[find(s, id)->0].session == session,
    ensures
        ({
            let k = find(s, id)->0;
            let r = counted(counted(s, id, session, StatsEvent::Opened), id, session, StatsEvent::Closed);
            &&& r[k].stats.connections_open == s[k].stats.connections_open
            &&& r[k].stats.connections_total == (s[k].stats.connections_total + 1) % 0x1_0000_0000_0000_0000
        }),
{
    let k = find(s, id)->0;
    law_record_counts_the_event(s, id, session, StatsEvent::Opened);
    let m = counted(s, id, session, StatsEvent::Opened);
    assert(unique_ids(m)) by {
        assert forall|i: int, j: int|
            0 <= i < m.len() && 0 <= j < m.len() && i != j implies (#[trigger] m[i]).config.id@
            != (#[trigger] m[j]).config.id@ by {
            if i != k {
                assert(m[i] == s[i]);
            }
            if j != k {
                assert(m[j] == s[j]);
            }
        }
    }
    law_record_counts_the_event(m, id, session, StatsEvent::Closed);
}

} // verus!
