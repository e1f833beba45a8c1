//! Reconciliation at manager startup.
//!
//! For every persisted configuration the shell reads the liveness marker
//! (if any) and signal-probes the recorded process id; this module decides
//! what the evidence means. A missing marker leaves the instance Stopped;
//! an unreadable or corrupt marker is skipped and touches nothing; a marker
//! naming a dead process is stale and is deleted; a marker naming a live
//! process makes the instance Running under a recovered handle, watched by
//! a periodic probe until it fails, whereupon the ordinary exit transition
//! (state cleared, marker removed) applies. One instance's bad evidence
//! never disturbs the others: each decision touches its own entry alone.

use vstd::prelude::*;
use vstd::string::*;

use crate::monitor::clamp_epoch;
use crate::monitor::ServerMonitor;
use crate::process::ServerProcess;
use crate::registry::InstanceEntry;
use crate::registry::InstanceRegistry;
use crate::text::spec_parse_pid;
use crate::text::parse_pid;
use crate::types::config_like;
use crate::types::ServerConfig;
use crate::types::ServerInstance;
use crate::types::ServerState;

verus! {

/// How often, in seconds, a recovered instance's exit-watcher probes the
/// process.
pub const RECOVERY_PROBE_SECONDS: u64 = 5;

/// The process id a liveness marker records, when it records one.
pub open spec fn spec_marker_pid(marker: Option<Seq<char>>) -> Option<u32> {
    match marker {
        None => None,
        Some(text) => spec_parse_pid(text),
    }
}

/// What evidence the marker file offered.
#[derive(Clone, Copy, Debug, PartialEq, Eq, Structural)]
pub enum MarkerStatus {
    /// No marker file: the instance simply is not running.
    Missing,
    /// A marker whose body is not a process id: the entry is skipped.
    Corrupt,
    /// A marker recording this process id.
    Recorded(u32),
}

/// Reads the marker evidence: the recorded process id, if the file existed
/// and parsed.
pub fn marker_status(marker: Option<&String>) -> (r: MarkerStatus)
    ensures
        r == (match marker {
            None => MarkerStatus::Missing,
            Some(text) => match spec_parse_pid(text@) {
                None => MarkerStatus::Corrupt,
                Some(pid) => MarkerStatus::Recorded(pid),
            },
        }),
{
    match marker {
        None => MarkerStatus::Missing,
        Some(text) => match parse_pid(text.as_str()) {
            None => MarkerStatus::Corrupt,
            Some(pid) => MarkerStatus::Recorded(pid),
        },
    }
}

/// What the shell must still do after one instance's recovery decision.
pub struct RecoveryStep {
    /// A live process was adopted: poll this id until the probe fails.
    pub watch_pid: Option<u32>,
    /// A stale marker must be deleted at this path.
    pub delete_marker: Option<String>,
}

/// Folds one instance's recovery evidence into the registry.
///
/// With no marker, or a corrupt one, nothing changes and the instance
/// stays Stopped. With a marker naming a process the probe found dead, the
/// registry is untouched and the stale marker is handed back for deletion.
/// With a marker naming a live process, the instance enters the registry as
/// Running at that id under a recovered handle (no pipes), its uptime
/// baseline restarts at `now`, and the id is handed back to be watched.
pub fn recover_instance(
    reg: &mut InstanceRegistry,
    config: ServerConfig,
    marker: Option<&String>,
    probe_alive: bool,
    now: i64,
) -> (r: RecoveryStep)
    requires
        old(reg).wf(),
        !old(reg).contains_id(config.id@),
    ensures
        final(reg).wf(),
        final(reg).base_dir == old(reg).base_dir,
        ({
            let recorded = spec_marker_pid(
                match marker {
                    None => None,
                    Some(text) => Some(text@),
                },
            );
            match recorded {
                None => {
                    &&& *final(reg) == *old(reg)
                    &&& r.watch_pid is None
                    &&& r.delete_marker is None
                },
                Some(pid) => {
                    if probe_alive {
                        let e = final(reg).entry_of(config.id@);
                        &&& final(reg).contains_id(config.id@)
                        &&& final(reg).state_of(config.id@) == ServerState::Running
                        &&& final(reg).pid_of(config.id@) == Some(pid)
                        &&& e.instance.config == config
                        &&& e.process is Some
                        &&& !e.process->0.is_attached()
                        &&& !e.process->0.has_input()
                        &&& e.process->0.spec_pid() == Some(pid)
                        &&& config_like(&e.process->0.config, &config)
                        &&& e.monitor == Some(ServerMonitor { started_at: clamp_epoch(now) })
                        &&& final(reg).entries@ =~= old(reg).entries@.push(e)
                        &&& r.watch_pid == Some(pid)
                        &&& r.delete_marker is None
                    } else {
                        &&& *final(reg) == *old(reg)
                        &&& r.watch_pid is None
                        &&& r.delete_marker matches Some(p) && p@ == old(reg).base_dir@ + "/"@
                            + config.id@ + "/server.pid"@
                    }
                },
            }
        }),
{
    let ghost gid = config.id@;
    let status = marker_status(marker);
    let pid = match status {
        MarkerStatus::Missing | MarkerStatus::Corrupt => {
            return RecoveryStep { watch_pid: None, delete_marker: None };
        },
        MarkerStatus::Recorded(pid) => pid,
    };
    if !probe_alive {
        let mut p = reg.base_dir.clone();
        p.append("/");
        p.append(config.id.as_str());
        p.append("/server.pid");
        return RecoveryStep { watch_pid: None, delete_marker: Some(p) };
    }
    let process = ServerProcess::from_pid(config.clone(), reg.base_dir.clone(), pid);
    let mut instance = ServerInstance::new(config);
    instance.state = ServerState::Running;
    instance.pid = Some(pid);
    let entry = InstanceEntry {
        instance,
        process: Some(process),
        monitor: Some(ServerMonitor::from_clock(now)),
    };
    let ghost n = reg.entries@.len();
    reg.entries.push(entry);
    proof {
        assert forall|a: int, b: int|
            0 <= a < b < reg.entries@.len() implies #[trigger] reg.entries@[a].id()
            != #[trigger] reg.entries@[b].id() by {
            if b < n {
                assert(old(reg).entries@[a].id() != old(reg).entries@[b].id());
            } else {
                assert(reg.entries@[b].id() == gid);
                assert(!old(reg).contains_id(gid));
                assert(old(reg).entries@[a].id() != gid);
            }
        }
        reg.lemma_index_at(n as int, gid);
        assert forall|k: int| 0 <= k < reg.entries@.len() implies (#[trigger] reg.entries@[k]).wf()
            by {
            if k != n {
                assert(old(reg).entries@[k].wf());
            }
        }
        assert forall|k: int|
            0 <= k < reg.entries@.len() && (#[trigger] reg.entries@[k]).process is Some
            implies reg.entries@[k].process->0.base_dir@ == reg.base_dir@ by {
            if k != n {
                assert(old(reg).entries@[k].process is Some ==> old(
                    reg,
                ).entries@[k].process->0.base_dir@ == old(reg).base_dir@);
            }
        }
    }
    RecoveryStep { watch_pid: Some(pid), delete_marker: None }
}

} // verus!
