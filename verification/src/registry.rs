//! The single source of truth for every managed instance.
//!
//! One registry entry owns an instance's declared configuration, its
//! authoritative lifecycle state and process id, and — when one exists —
//! the process handle and resource monitor. Every API operation consults
//! and mutates the registry through the guarded transitions here, so the
//! lifecycle discipline (start only from Stopped, stop only with a process
//! attached, delete only when Stopped, exit-watchers tolerant of a
//! concurrent delete) is enforced in one place.

use vstd::prelude::*;
use vstd::string::*;

use crate::errors::ServerError;
use crate::monitor::clamp_epoch;
use crate::monitor::ServerMonitor;
use crate::process::ForceStopPlan;
use crate::process::MarkerWrite;
use crate::process::ServerProcess;
use crate::text::spec_dec;
use crate::types::config_like;
use crate::types::ServerConfig;
use crate::types::ServerInstance;
use crate::types::ServerState;

verus! {

/// Grace period a restart grants the graceful stop before escalating to a
/// force-stop, in seconds.
pub const RESTART_GRACE_SECONDS: u64 = 30;

/// How a restart request is to be carried out.
#[derive(Clone, Copy, Debug, PartialEq, Eq, Structural)]
pub enum RestartPlan {
    /// No process handle exists: skip the stop phase.
    JustStart,
    /// Stop gracefully, await exit for the grace period, force-stop on
    /// timeout, then start.
    StopThenStart,
}

/// All facets of one managed instance.
pub struct InstanceEntry {
    pub instance: ServerInstance,
    pub process: Option<ServerProcess>,
    pub monitor: Option<ServerMonitor>,
}

impl InstanceEntry {
    pub open spec fn id(&self) -> Seq<char> {
        self.instance.config.id@
    }

    pub open spec fn wf(&self) -> bool {
        &&& (self.instance.state == ServerState::Stopped ==> self.instance.pid is None)
        &&& (self.instance.state == ServerState::Running || self.instance.state
            == ServerState::Stopping ==> self.instance.pid is Some)
        &&& (self.process is Some ==> self.process->0.wf() && self.process->0.config.id@
            == self.id())
    }
}

pub struct InstanceRegistry {
    pub entries: Vec<InstanceEntry>,
    /// Directory under which every instance's working directory lives.
    pub base_dir: String,
}

impl InstanceRegistry {
    pub open spec fn wf(&self) -> bool {
        &&& self.unique_ids()
        &&& (forall|i: int| 0 <= i < self.entries@.len() ==> #[trigger] self.entries@[i].wf())
        &&& (forall|i: int|
            0 <= i < self.entries@.len() && #[trigger] self.entries@[i].process is Some
                ==> self.entries@[i].process->0.base_dir@ == self.base_dir@)
    }

    pub open spec fn contains_id(&self, id: Seq<char>) -> bool {
        exists|i: int| 0 <= i < self.entries@.len() && self.entries@[i].id() == id
    }

    pub open spec fn index_of(&self, id: Seq<char>) -> int {
        choose|i: int| 0 <= i < self.entries@.len() && self.entries@[i].id() == id
    }

    pub open spec fn entry_of(&self, id: Seq<char>) -> InstanceEntry {
        self.entries@[self.index_of(id)]
    }

    /// The authoritative lifecycle state; an instance the registry does
    /// not hold is Stopped.
    pub open spec fn state_of(&self, id: Seq<char>) -> ServerState {
        if self.contains_id(id) {
            self.entry_of(id).instance.state
        } else {
            ServerState::Stopped
        }
    }

    /// The attached OS process id, if any.
    pub open spec fn pid_of(&self, id: Seq<char>) -> Option<u32> {
        if self.contains_id(id) {
            self.entry_of(id).instance.pid
        } else {
            None
        }
    }

    /// Whether a start request would be admitted: only an instance whose
    /// authoritative state is Stopped may start.
    pub open spec fn start_allowed(&self, id: Seq<char>) -> bool {
        self.state_of(id) == ServerState::Stopped
    }

    /// Ids are pairwise distinct across the entries.
    pub open spec fn unique_ids(&self) -> bool {
        forall|i: int, j: int|
            0 <= i < j < self.entries@.len() ==> #[trigger] self.entries@[i].id()
                != #[trigger] self.entries@[j].id()
    }

    /// An entry with this id sits at index `i`, so `index_of` names `i`.
    pub proof fn lemma_index_at(&self, i: int, id: Seq<char>)
        requires
            self.unique_ids(),
            0 <= i < self.entries@.len(),
            self.entries@[i].id() == id,
        ensures
            self.contains_id(id),
            self.index_of(id) == i,
    {
        assert(self.contains_id(id));
        let j = self.index_of(id);
        assert(0 <= j < self.entries@.len() && self.entries@[j].id() == id);
        if i < j {
            assert(self.entries@[i].id() != self.entries@[j].id());
        } else if j < i {
            assert(self.entries@[j].id() != self.entries@[i].id());
        }
    }

    /// An empty registry over `base_dir`.
    pub fn new(base_dir: String) -> (r: InstanceRegistry)
        ensures
            r.wf(),
            r.entries@.len() == 0,
            r.base_dir == base_dir,
    {
        InstanceRegistry { entries: Vec::new(), base_dir }
    }

    /// Index of the entry holding `id`, if the registry holds one.
    fn find_index(&self, id: &String) -> (r: Option<usize>)
        requires
            self.wf(),
        ensures
            r is Some <==> self.contains_id(id@),
            r is Some ==> 0 <= r->0 < self.entries@.len() && self.entries@[r->0 as int].id() == id@
                && r->0 == self.index_of(id@),
    {
        let n = self.entries.len();
        let mut k: usize = 0;
        while k < n
            invariant
                0 <= k <= n,
                n == self.entries@.len(),
                self.wf(),
                forall|i: int| 0 <= i < k ==> #[trigger] self.entries@[i].id() != id@,
            decreases n - k,
        {
            if self.entries[k].instance.config.id == *id {
                proof {
                    self.lemma_index_at(k as int, id@);
                }
                return Some(k);
            }
            k = k + 1;
        }
        assert(!self.contains_id(id@));
        None
    }

    /// A shared view of the entry for `id`.
    pub fn get(&self, id: &String) -> (r: Option<&InstanceEntry>)
        requires
            self.wf(),
        ensures
            r is Some <==> self.contains_id(id@),
            r is Some ==> *r->0 == self.entry_of(id@),
    {
        match self.find_index(id) {
            Some(i) => Some(&self.entries[i]),
            None => None,
        }
    }

    /// Declares (or redeclares) an instance: the entry holds the given
    /// instance and neither process handle nor monitor.
    pub fn insert_instance(&mut self, instance: ServerInstance)
        requires
            old(self).wf(),
            instance.state == ServerState::Stopped,
            instance.pid is None,
        ensures
            final(self).wf(),
            final(self).base_dir == old(self).base_dir,
            final(self).contains_id(instance.config.id@),
            final(self).entry_of(instance.config.id@).instance == instance,
            final(self).entry_of(instance.config.id@).process is None,
            final(self).entry_of(instance.config.id@).monitor is None,
            if old(self).contains_id(instance.config.id@) {
                final(self).entries@ =~= old(self).entries@.update(
                    old(self).index_of(instance.config.id@),
                    final(self).entry_of(instance.config.id@),
                )
            } else {
                final(self).entries@ =~= old(self).entries@.push(
                    final(self).entry_of(instance.config.id@),
                )
            },
    {
        let ghost gid = instance.config.id@;
        let id_key = instance.config.id.clone();
        let entry = InstanceEntry { instance, process: None, monitor: None };
        match self.find_index(&id_key) {
            Some(i) => {
                self.entries.set(i, entry);
                proof {
                    assert forall|a: int, b: int|
                        0 <= a < b < self.entries@.len() implies #[trigger] self.entries@[a].id()
                        != #[trigger] self.entries@[b].id() by {
                        assert(old(self).entries@[a].id() != old(self).entries@[b].id());
                    }
                    self.lemma_index_at(i as int, gid);
                }
            },
            None => {
                let ghost n = self.entries@.len();
                self.entries.push(entry);
                proof {
                    assert forall|a: int, b: int|
                        0 <= a < b < self.entries@.len() implies #[trigger] self.entries@[a].id()
                        != #[trigger] self.entries@[b].id() by {
                        if b < n {
                            assert(old(self).entries@[a].id() != old(self).entries@[b].id());
                        } else {
                            assert(self.entries@[b].id() == gid);
                            assert(!old(self).contains_id(gid));
                            assert(old(self).entries@[a].id() != gid);
                        }
                    }
                    self.lemma_index_at(n as int, gid);
                }
            },
        }
    }

    /// Admits a start request: moves a Stopped (or undeclared) instance to
    /// Starting with a fresh, unattached process handle, and rejects every
    /// other lifecycle state with `AlreadyRunning` — so a second start
    /// without an intervening stop can never reach a second spawn.
    pub fn begin_start(&mut self, config: ServerConfig) -> (r: Result<(), ServerError>)
        requires
            old(self).wf(),
        ensures
            final(self).wf(),
            final(self).base_dir == old(self).base_dir,
            r is Ok <==> old(self).start_allowed(config.id@),
            r is Err ==> r->Err_0 == ServerError::AlreadyRunning && *final(self) == *old(self),
            r is Ok ==> {
                let e = final(self).entry_of(config.id@);
                &&& final(self).contains_id(config.id@)
                &&& e.instance.config == config
                &&& e.instance.state == ServerState::Starting
                &&& e.instance.pid is None
                &&& e.instance.players_online == 0
                &&& e.process is Some
                &&& !e.process->0.is_attached()
                &&& !e.process->0.has_input()
                &&& config_like(&e.process->0.config, &config)
                &&& e.monitor is None
                &&& if old(self).contains_id(config.id@) {
                    final(self).entries@ =~= old(self).entries@.update(
                        old(self).index_of(config.id@),
                        e,
                    )
                } else {
                    final(self).entries@ =~= old(self).entries@.push(e)
                }
            },
    {
        let ghost gid = config.id@;
        let id_key = config.id.clone();
        let found = self.find_index(&id_key);
        if let Some(i) = found {
            if !(self.entries[i].instance.state == ServerState::Stopped) {
                return Err(ServerError::AlreadyRunning);
            }
        }
        let process = ServerProcess::new(config.clone(), self.base_dir.clone());
        let mut instance = ServerInstance::new(config);
        instance.state = ServerState::Starting;
        let entry = InstanceEntry { instance, process: Some(process), monitor: None };
        match found {
            Some(i) => {
                self.entries.set(i, entry);
                proof {
                    assert forall|a: int, b: int|
                        0 <= a < b < self.entries@.len() implies #[trigger] self.entries@[a].id()
                        != #[trigger] self.entries@[b].id() by {
                        assert(old(self).entries@[a].id() != old(self).entries@[b].id());
                    }
                    self.lemma_index_at(i as int, gid);
                    assert forall|k: int| 0 <= k < self.entries@.len() implies (#[trigger] self.entries@[k]).wf() by {
                        if k != i as int {
                            assert(old(self).entries@[k].wf());
                        }
                    }
                    assert forall|k: int|
                        0 <= k < self.entries@.len() && (#[trigger] self.entries@[k]).process is Some
                        implies self.entries@[k].process->0.base_dir@ == self.base_dir@ by {
                        if k != i as int {
                            assert(old(self).entries@[k].process is Some
                                ==> old(self).entries@[k].process->0.base_dir@
                                == old(self).base_dir@);
                        }
                    }
                }
            },
            None => {
                let ghost n = self.entries@.len();
                self.entries.push(entry);
                proof {
                    assert forall|a: int, b: int|
                        0 <= a < b < self.entries@.len() implies #[trigger] self.entries@[a].id()
                        != #[trigger] self.entries@[b].id() by {
                        if b < n {
                            assert(old(self).entries@[a].id() != old(self).entries@[b].id());
                        } else {
                            assert(self.entries@[b].id() == gid);
                            assert(!old(self).contains_id(gid));
                            assert(old(self).entries@[a].id() != gid);
                        }
                    }
                    self.lemma_index_at(n as int, gid);
                    assert forall|k: int| 0 <= k < self.entries@.len() implies (#[trigger] self.entries@[k]).wf() by {
                        if k != n {
                            assert(old(self).entries@[k].wf());
                        }
                    }
                    assert forall|k: int|
                        0 <= k < self.entries@.len() && (#[trigger] self.entries@[k]).process is Some
                        implies self.entries@[k].process->0.base_dir@ == self.base_dir@ by {
                        if k != n {
                            assert(old(self).entries@[k].process is Some
                                ==> old(self).entries@[k].process->0.base_dir@
                                == old(self).base_dir@);
                        }
                    }
                }
            },
        }
        Ok(())
    }

    /// Folds a successful spawn into the registry: the instance enters
    /// Running with the new process id attached, the handle becomes a
    /// spawned handle, the uptime baseline restarts at clock reading
    /// `now`, and the returned liveness marker (the id in decimal) must be
    /// persisted by the shell.
    pub fn finish_start(&mut self, id: &String, pid: u32, now: i64) -> (m: MarkerWrite)
        requires
            old(self).wf(),
            old(self).contains_id(id@),
            old(self).state_of(id@) == ServerState::Starting,
            old(self).entry_of(id@).process is Some,
        ensures
            final(self).wf(),
            final(self).base_dir == old(self).base_dir,
            final(self).contains_id(id@),
            final(self).state_of(id@) == ServerState::Running,
            final(self).pid_of(id@) == Some(pid),
            final(self).entry_of(id@).instance.config == old(self).entry_of(id@).instance.config,
            final(self).entry_of(id@).process is Some,
            final(self).entry_of(id@).process->0.is_attached(),
            final(self).entry_of(id@).process->0.has_input(),
            final(self).entry_of(id@).process->0.spec_pid() == Some(pid),
            final(self).entry_of(id@).monitor == Some(
                ServerMonitor { started_at: clamp_epoch(now) },
            ),
            final(self).entries@ =~= old(self).entries@.update(
                old(self).index_of(id@),
                final(self).entry_of(id@),
            ),
            m.path@ == old(self).base_dir@ + "/"@ + id@ + "/server.pid"@,
            m.contents@ == spec_dec(pid as nat),
    {
        let i = self.find_index(id).unwrap();
        proof {
            assert(old(self).entries@[i as int].wf());
        }
        let mut entry = self.entries.remove(i);
        let mut process = entry.process.unwrap();
        let marker = process.attach_spawned(pid);
        entry.instance.state = ServerState::Running;
        entry.instance.pid = Some(pid);
        entry.process = Some(process);
        entry.monitor = Some(ServerMonitor::from_clock(now));
        self.entries.insert(i, entry);
        proof {
            assert(self.entries@ =~= old(self).entries@.update(
                old(self).index_of(id@),
                self.entries@[i as int],
            ));
            assert forall|a: int, b: int|
                0 <= a < b < self.entries@.len() implies #[trigger] self.entries@[a].id()
                != #[trigger] self.entries@[b].id() by {
                assert(self.entries@[a].id() == old(self).entries@[a].id());
                assert(self.entries@[b].id() == old(self).entries@[b].id());
                assert(old(self).entries@[a].id() != old(self).entries@[b].id());
            }
            self.lemma_index_at(i as int, id@);
        }
        marker
    }

    /// Folds a failed spawn into the registry: the instance returns to
    /// Stopped with no handle and no monitor.
    pub fn abort_start(&mut self, id: &String)
        requires
            old(self).wf(),
            old(self).contains_id(id@),
            old(self).state_of(id@) == ServerState::Starting,
        ensures
            final(self).wf(),
            final(self).base_dir == old(self).base_dir,
            final(self).contains_id(id@),
            final(self).state_of(id@) == ServerState::Stopped,
            final(self).pid_of(id@) is None,
            final(self).entry_of(id@).instance.config == old(self).entry_of(id@).instance.config,
            final(self).entry_of(id@).process is None,
            final(self).entry_of(id@).monitor is None,
            final(self).entries@ =~= old(self).entries@.update(
                old(self).index_of(id@),
                final(self).entry_of(id@),
            ),
    {
        let i = self.find_index(id).unwrap();
        let mut entry = self.entries.remove(i);
        entry.instance.state = ServerState::Stopped;
        entry.instance.pid = None;
        entry.process = None;
        entry.monitor = None;
        self.entries.insert(i, entry);
        proof {
            assert(self.entries@ =~= old(self).entries@.update(
                old(self).index_of(id@),
                self.entries@[i as int],
            ));
            assert forall|a: int, b: int|
                0 <= a < b < self.entries@.len() implies #[trigger] self.entries@[a].id()
                != #[trigger] self.entries@[b].id() by {
                assert(self.entries@[a].id() == old(self).entries@[a].id());
                assert(self.entries@[b].id() == old(self).entries@[b].id());
                assert(old(self).entries@[a].id() != old(self).entries@[b].id());
            }
            self.lemma_index_at(i as int, id@);
        }
    }

    /// Whether a graceful-stop request would be admitted: an OS process id
    /// and a handle must be attached.
    pub open spec fn stoppable(&self, id: Seq<char>) -> bool {
        &&& self.contains_id(id)
        &&& self.pid_of(id) is Some
        &&& self.entry_of(id).process is Some
    }

    /// Admits a graceful-stop request: enqueues the shutdown command on the
    /// instance's input and moves it to Stopping. Rejected with `NotRunning`
    /// when no process id is attached, and with `NoInputChannel` when the
    /// handle was recovered without pipes; neither rejection changes state.
    /// Does not wait for exit: the exit-watcher performs the rest.
    pub fn request_stop(&mut self, id: &String) -> (r: Result<(), ServerError>)
        requires
            old(self).wf(),
        ensures
            final(self).wf(),
            final(self).base_dir == old(self).base_dir,
            !old(self).stoppable(id@) ==> r == Err::<(), ServerError>(ServerError::NotRunning)
                && *final(self) == *old(self),
            old(self).stoppable(id@) && !old(self).entry_of(id@).process->0.has_input() ==> r
                == Err::<(), ServerError>(ServerError::NoInputChannel) && *final(self) == *old(
                self,
            ),
            old(self).stoppable(id@) && old(self).entry_of(id@).process->0.has_input() ==> {
                let e = final(self).entry_of(id@);
                &&& r is Ok
                &&& final(self).contains_id(id@)
                &&& e.instance.state == ServerState::Stopping
                &&& e.instance.pid == old(self).pid_of(id@)
                &&& e.instance.config == old(self).entry_of(id@).instance.config
                &&& e.process is Some
                &&& e.process->0.pending_commands() =~= old(
                    self,
                ).entry_of(id@).process->0.pending_commands().push("stop"@)
                &&& e.process->0.is_attached() == old(self).entry_of(id@).process->0.is_attached()
                &&& e.process->0.has_input()
                &&& e.monitor == old(self).entry_of(id@).monitor
                &&& final(self).entries@ =~= old(self).entries@.update(
                    old(self).index_of(id@),
                    e,
                )
            },
    {
        let found = self.find_index(id);
        let i = match found {
            None => {
                return Err(ServerError::NotRunning);
            },
            Some(i) => i,
        };
        let (has_pid, has_input) = match &self.entries[i].process {
            Some(p) => (self.entries[i].instance.pid.is_some(), p.input_open),
            None => (false, false),
        };
        if self.entries[i].instance.pid.is_none() || self.entries[i].process.is_none() {
            return Err(ServerError::NotRunning);
        }
        if !has_input {
            return Err(ServerError::NoInputChannel);
        }
        proof {
            assert(old(self).entries@[i as int].wf());
        }
        let mut entry = self.entries.remove(i);
        let mut process = entry.process.unwrap();
        let _ = process.stop();
        entry.instance.state = ServerState::Stopping;
        entry.process = Some(process);
        self.entries.insert(i, entry);
        proof {
            assert(self.entries@ =~= old(self).entries@.update(
                old(self).index_of(id@),
                self.entries@[i as int],
            ));
            assert forall|a: int, b: int|
                0 <= a < b < self.entries@.len() implies #[trigger] self.entries@[a].id()
                != #[trigger] self.entries@[b].id() by {
                assert(self.entries@[a].id() == old(self).entries@[a].id());
                assert(self.entries@[b].id() == old(self).entries@[b].id());
                assert(old(self).entries@[a].id() != old(self).entries@[b].id());
            }
            self.lemma_index_at(i as int, id@);
        }
        Ok(())
    }

    /// Hard termination of an instance, admitted whenever a handle exists.
    /// The instance moves straight to Stopped with its process id cleared,
    /// and the returned plan always removes the liveness marker — also for
    /// a recovered handle without pipes, which is signalled at the id the
    /// marker recorded (`marker_pid`).
    pub fn force_stop(&mut self, id: &String, marker_pid: Option<u32>) -> (r: Result<
        ForceStopPlan,
        ServerError,
    >)
        requires
            old(self).wf(),
        ensures
            final(self).wf(),
            final(self).base_dir == old(self).base_dir,
            r is Ok <==> old(self).contains_id(id@) && old(self).entry_of(id@).process is Some,
            r is Err ==> r->Err_0 == ServerError::NotRunning && *final(self) == *old(self),
            r is Ok ==> {
                let e = final(self).entry_of(id@);
                let plan = r->Ok_0;
                &&& final(self).contains_id(id@)
                &&& final(self).state_of(id@) == ServerState::Stopped
                &&& final(self).pid_of(id@) is None
                &&& e.instance.config == old(self).entry_of(id@).instance.config
                &&& e.process is Some
                &&& !e.process->0.is_attached()
                &&& !e.process->0.has_input()
                &&& e.monitor == old(self).entry_of(id@).monitor
                &&& plan.kill_pid == if old(self).entry_of(id@).process->0.is_attached() {
                    old(self).entry_of(id@).process->0.spec_pid()
                } else {
                    marker_pid
                }
                &&& plan.marker_path@ == old(self).base_dir@ + "/"@ + id@ + "/server.pid"@
                &&& final(self).entries@ =~= old(self).entries@.update(
                    old(self).index_of(id@),
                    e,
                )
            },
    {
        let found = self.find_index(id);
        let i = match found {
            None => {
                return Err(ServerError::NotRunning);
            },
            Some(i) => i,
        };
        if self.entries[i].process.is_none() {
            return Err(ServerError::NotRunning);
        }
        proof {
            assert(old(self).entries@[i as int].wf());
        }
        let mut entry = self.entries.remove(i);
        let mut process = entry.process.unwrap();
        let plan = process.force_stop(marker_pid);
        entry.instance.state = ServerState::Stopped;
        entry.instance.pid = None;
        entry.process = Some(process);
        self.entries.insert(i, entry);
        proof {
            assert(self.entries@ =~= old(self).entries@.update(
                old(self).index_of(id@),
                self.entries@[i as int],
            ));
            assert forall|a: int, b: int|
                0 <= a < b < self.entries@.len() implies #[trigger] self.entries@[a].id()
                != #[trigger] self.entries@[b].id() by {
                assert(self.entries@[a].id() == old(self).entries@[a].id());
                assert(self.entries@[b].id() == old(self).entries@[b].id());
                assert(old(self).entries@[a].id() != old(self).entries@[b].id());
            }
            self.lemma_index_at(i as int, id@);
        }
        Ok(plan)
    }

    /// The terminal transition an exit-watcher performs once the OS
    /// process is gone: Stopped, process id cleared, handle and monitor
    /// released, and the liveness marker (whose path is returned) removed.
    /// A watcher may race a concurrent delete, so an instance the registry
    /// no longer holds is a benign no-op, not an error.
    pub fn observe_exit(&mut self, id: &String) -> (r: Option<String>)
        requires
            old(self).wf(),
        ensures
            final(self).wf(),
            final(self).base_dir == old(self).base_dir,
            r is Some <==> old(self).contains_id(id@),
            r is None ==> *final(self) == *old(self),
            r is Some ==> {
                let e = final(self).entry_of(id@);
                &&& r->0@ == old(self).base_dir@ + "/"@ + id@ + "/server.pid"@
                &&& final(self).contains_id(id@)
                &&& final(self).state_of(id@) == ServerState::Stopped
                &&& final(self).pid_of(id@) is None
                &&& e.instance.config == old(self).entry_of(id@).instance.config
                &&& e.process is None
                &&& e.monitor is None
                &&& final(self).entries@ =~= old(self).entries@.update(
                    old(self).index_of(id@),
                    e,
                )
            },
    {
        let found = self.find_index(id);
        let i = match found {
            None => {
                return None;
            },
            Some(i) => i,
        };
        let mut entry = self.entries.remove(i);
        entry.instance.state = ServerState::Stopped;
        entry.instance.pid = None;
        entry.process = None;
        entry.monitor = None;
        self.entries.insert(i, entry);
        let mut p = self.base_dir.clone();
        p.append("/");
        p.append(id.as_str());
        p.append("/server.pid");
        proof {
            assert(self.entries@ =~= old(self).entries@.update(
                old(self).index_of(id@),
                self.entries@[i as int],
            ));
            assert forall|a: int, b: int|
                0 <= a < b < self.entries@.len() implies #[trigger] self.entries@[a].id()
                != #[trigger] self.entries@[b].id() by {
                assert(self.entries@[a].id() == old(self).entries@[a].id());
                assert(self.entries@[b].id() == old(self).entries@[b].id());
                assert(old(self).entries@[a].id() != old(self).entries@[b].id());
            }
            self.lemma_index_at(i as int, id@);
        }
        Some(p)
    }

    /// Deletes an instance. Permitted only when its authoritative state is
    /// Stopped; any other state is rejected with the running-instance
    /// conflict and nothing changes.
    pub fn remove(&mut self, id: &String) -> (r: Result<(), ServerError>)
        requires
            old(self).wf(),
        ensures
            final(self).wf(),
            final(self).base_dir == old(self).base_dir,
            r is Err <==> old(self).state_of(id@) != ServerState::Stopped,
            r is Err ==> r->Err_0 == ServerError::ServerRunning && *final(self) == *old(self),
            r is Ok ==> !final(self).contains_id(id@),
            r is Ok ==> final(self).entries@ =~= if old(self).contains_id(id@) {
                old(self).entries@.remove(old(self).index_of(id@))
            } else {
                old(self).entries@
            },
    {
        let found = self.find_index(id);
        let i = match found {
            None => {
                return Ok(());
            },
            Some(i) => i,
        };
        if !(self.entries[i].instance.state == ServerState::Stopped) {
            return Err(ServerError::ServerRunning);
        }
        self.entries.remove(i);
        proof {
            assert forall|a: int, b: int|
                0 <= a < b < self.entries@.len() implies #[trigger] self.entries@[a].id()
                != #[trigger] self.entries@[b].id() by {
                let a0 = if a < i as int {
                    a
                } else {
                    a + 1
                };
                let b0 = if b < i as int {
                    b
                } else {
                    b + 1
                };
                assert(self.entries@[a] == old(self).entries@[a0]);
                assert(self.entries@[b] == old(self).entries@[b0]);
                assert(old(self).entries@[a0].id() != old(self).entries@[b0].id());
            }
            assert forall|k: int|
                0 <= k < self.entries@.len() implies (#[trigger] self.entries@[k]).wf()
                && (self.entries@[k].process is Some ==> self.entries@[k].process->0.base_dir@
                == self.base_dir@) by {
                let k0 = if k < i as int {
                    k
                } else {
                    k + 1
                };
                assert(self.entries@[k] == old(self).entries@[k0]);
                assert(old(self).entries@[k0].wf());
                assert(old(self).entries@[k0].process is Some ==> old(
                    self,
                ).entries@[k0].process->0.base_dir@ == old(self).base_dir@);
            }
            assert forall|k: int|
                0 <= k < self.entries@.len() implies (#[trigger] self.entries@[k]).id() != id@ by {
                let k0 = if k < i as int {
                    k
                } else {
                    k + 1
                };
                assert(self.entries@[k] == old(self).entries@[k0]);
                if k0 != i as int {
                    assert(old(self).entries@[k0].id() != old(self).entries@[i as int].id());
                }
            }
        }
        Ok(())
    }

    /// How a restart of `id` must proceed: an instance without a handle
    /// skips the stop phase, one with a handle is stopped first — with the
    /// grace period — and started again.
    pub fn restart_plan(&self, id: &String) -> (r: RestartPlan)
        requires
            self.wf(),
        ensures
            r == RestartPlan::StopThenStart <==> (self.contains_id(id@) && self.entry_of(
                id@,
            ).process is Some),
    {
        match self.find_index(id) {
            Some(i) => {
                if self.entries[i].process.is_some() {
                    RestartPlan::StopThenStart
                } else {
                    RestartPlan::JustStart
                }
            },
            None => RestartPlan::JustStart,
        }
    }

    /// How many of the entries have an OS process id attached.
    pub open spec fn spec_running_count(s: Seq<InstanceEntry>) -> int
        decreases s.len(),
    {
        if s.len() == 0 {
            0
        } else {
            Self::spec_running_count(s.drop_last()) + if s.last().instance.pid is Some {
                1int
            } else {
                0int
            }
        }
    }

    /// Counts the instances that currently have an OS process attached.
    pub fn running_count(&self) -> (n: usize)
        ensures
            n == Self::spec_running_count(self.entries@),
            n <= self.entries@.len(),
    {
        let mut n: usize = 0;
        let mut k: usize = 0;
        while k < self.entries.len()
            invariant
                0 <= k <= self.entries@.len(),
                n <= k,
                n == Self::spec_running_count(self.entries@.take(k as int)),
            decreases self.entries@.len() - k,
        {
            proof {
                assert(self.entries@.take(k + 1).drop_last() =~= self.entries@.take(k as int));
                assert(self.entries@.take(k + 1).last() == self.entries@[k as int]);
            }
            if self.entries[k].instance.pid.is_some() {
                n = n + 1;
            }
            k = k + 1;
        }
        proof {
            assert(self.entries@.take(self.entries@.len() as int) =~= self.entries@);
        }
        n
    }
}

/// The registry's per-entry coherence, preserved by every operation: a
/// Stopped instance never has an OS process id attached, and a Running or
/// Stopping instance always has one.
pub proof fn lemma_state_pid_coherence(reg: &InstanceRegistry, id: Seq<char>)
    requires
        reg.wf(),
    ensures
        reg.state_of(id) == ServerState::Stopped ==> reg.pid_of(id) is None,
        reg.state_of(id) == ServerState::Running || reg.state_of(id) == ServerState::Stopping
            ==> reg.pid_of(id) is Some,
{
    if reg.contains_id(id) {
        assert(reg.entries@[reg.index_of(id)].wf());
    }
}

/// Starting twice without an intervening stop can never spawn twice: once
/// a start has been admitted the instance is Starting, then Running, then
/// at most Stopping — and in every one of those states a further start
/// request is not allowed, so `begin_start` rejects it with
/// `AlreadyRunning` and leaves the registry unchanged.
pub proof fn lemma_start_is_exclusive(reg: &InstanceRegistry, id: Seq<char>)
    requires
        reg.state_of(id) == ServerState::Starting || reg.state_of(id) == ServerState::Running
            || reg.state_of(id) == ServerState::Stopping,
    ensures
        !reg.start_allowed(id),
{
}

} // verus!
