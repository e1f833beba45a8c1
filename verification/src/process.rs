//! The model of one managed OS process: how it is spawned, written to,
//! probed for liveness, and torn down.
//!
//! The handle never performs I/O itself. Every operation either computes a
//! plan (what to spawn, which file to write, which process id to signal)
//! for the shell to carry out, or folds the outcome the shell observed back
//! into the model. A handle is *spawned* when the manager owns the child's
//! pipes and wait facility, and *recovered* when only a process id is known;
//! a recovered handle never regains pipes.

use vstd::prelude::*;
use vstd::string::*;

use crate::broadcast::LineBroadcaster;
use crate::broadcast::PollMsg;
use crate::broadcast::Subscription;
use crate::errors::ProcessError;
use crate::text::spec_dec;
use crate::text::u64_to_dec;
use crate::types::ServerConfig;

verus! {

/// How many console lines are retained for slow subscribers.
pub const CONSOLE_CAPACITY: usize = 1000;

/// Everything the shell needs in order to spawn the configured executable:
/// the agreement file to write first, then the command to run.
pub struct StartPlan {
    pub program: String,
    pub args: Vec<String>,
    pub cwd: String,
    pub eula_path: String,
    pub eula_contents: String,
}

/// A liveness-marker write the shell must perform.
pub struct MarkerWrite {
    pub path: String,
    pub contents: String,
}

/// What a force-stop asks of the shell: optionally a process id to signal,
/// and always the marker file to remove.
pub struct ForceStopPlan {
    pub kill_pid: Option<u32>,
    pub marker_path: String,
}

pub struct ServerProcess {
    pub config: ServerConfig,
    pub base_dir: String,
    /// Console fan-out fed by the stdout/stderr readers.
    pub console: LineBroadcaster,
    /// Whether a spawned, wait-capable child with pipes is attached.
    pub attached: bool,
    /// Whether the stdin channel is available.
    pub input_open: bool,
    /// The OS process id the handle knows, if any.
    pub pid: Option<u32>,
    /// Commands accepted but not yet drained by the shell's writer.
    pub pending: Vec<String>,
}

/// The JVM arguments the executable is launched with, as a function of the
/// configured memory ceiling (whole megabytes).
pub open spec fn spec_jvm_args(memory_mb: nat) -> Seq<Seq<char>> {
    seq![
        "-Xms"@ + spec_dec(memory_mb / 2) + "M"@,
        "-Xmx"@ + spec_dec(memory_mb) + "M"@,
        "-XX:+UseG1GC"@,
        "-XX:+ParallelRefProcEnabled"@,
        "-XX:MaxGCPauseMillis=200"@,
        "-XX:+UnlockExperimentalVMOptions"@,
        "-XX:+DisableExplicitGC"@,
        "-XX:+AlwaysPreTouch"@,
        "-XX:G1NewSizePercent=30"@,
        "-XX:G1MaxNewSizePercent=40"@,
        "-XX:G1HeapRegionSize=8M"@,
        "-XX:G1ReservePercent=20"@,
        "-XX:G1HeapWastePercent=5"@,
        "-XX:G1MixedGCCountTarget=4"@,
        "-XX:InitiatingHeapOccupancyPercent=15"@,
        "-XX:G1MixedGCLiveThresholdPercent=90"@,
        "-XX:G1RSetUpdatingPauseTimePercent=5"@,
        "-XX:SurvivorRatio=32"@,
        "-XX:+PerfDisableSharedMem"@,
        "-XX:MaxTenuringThreshold=1"@,
        "-XX:+ExitOnOutOfMemoryError"@,
        "-Dusing.aikars.flags=https://mcflags.emc.gs"@,
        "-Daikars.new.flags=true"@,
        "-jar"@,
        "server.jar"@,
        "--nogui"@,
    ]
}

/// Renders the JVM argument list for `memory_mb` megabytes of heap.
pub fn jvm_args(memory_mb: u32) -> (args: Vec<String>)
    ensures
        args@.len() == spec_jvm_args(memory_mb as nat).len(),
        forall|i: int|
            0 <= i < args@.len() ==> #[trigger] args@[i]@ == spec_jvm_args(memory_mb as nat)[i],
{
    let mut args: Vec<String> = Vec::new();
    let mut xms = "-Xms".to_owned();
    xms.append(u64_to_dec((memory_mb / 2) as u64).as_str());
    xms.append("M");
    args.push(xms);
    let mut xmx = "-Xmx".to_owned();
    xmx.append(u64_to_dec(memory_mb as u64).as_str());
    xmx.append("M");
    args.push(xmx);
    args.push("-XX:+UseG1GC".to_owned());
    args.push("-XX:+ParallelRefProcEnabled".to_owned());
    args.push("-XX:MaxGCPauseMillis=200".to_owned());
    args.push("-XX:+UnlockExperimentalVMOptions".to_owned());
    args.push("-XX:+DisableExplicitGC".to_owned());
    args.push("-XX:+AlwaysPreTouch".to_owned());
    args.push("-XX:G1NewSizePercent=30".to_owned());
    args.push("-XX:G1MaxNewSizePercent=40".to_owned());
    args.push("-XX:G1HeapRegionSize=8M".to_owned());
    args.push("-XX:G1ReservePercent=20".to_owned());
    args.push("-XX:G1HeapWastePercent=5".to_owned());
    args.push("-XX:G1MixedGCCountTarget=4".to_owned());
    args.push("-XX:InitiatingHeapOccupancyPercent=15".to_owned());
    args.push("-XX:G1MixedGCLiveThresholdPercent=90".to_owned());
    args.push("-XX:G1RSetUpdatingPauseTimePercent=5".to_owned());
    args.push("-XX:SurvivorRatio=32".to_owned());
    args.push("-XX:+PerfDisableSharedMem".to_owned());
    args.push("-XX:MaxTenuringThreshold=1".to_owned());
    args.push("-XX:+ExitOnOutOfMemoryError".to_owned());
    args.push("-Dusing.aikars.flags=https://mcflags.emc.gs".to_owned());
    args.push("-Daikars.new.flags=true".to_owned());
    args.push("-jar".to_owned());
    args.push("server.jar".to_owned());
    args.push("--nogui".to_owned());
    proof {
        assert(args@[0]@ =~= spec_jvm_args(memory_mb as nat)[0]);
        assert(args@[1]@ =~= spec_jvm_args(memory_mb as nat)[1]);
    }
    args
}

/// A command line as handed to the process: the text plus the terminator.
pub fn command_line(command: &str) -> (l: String)
    ensures
        l@ == command@ + "\n"@,
{
    let mut l = command.to_owned();
    l.append("\n");
    l
}

/// Prefixes a console line read from stderr so consumers can tell the two
/// streams apart.
pub fn tag_stderr(line: &str) -> (l: String)
    ensures
        l@ == "[ERROR] "@ + line@,
{
    let mut l = "[ERROR] ".to_owned();
    l.append(line);
    l
}

impl ServerProcess {
    /// A spawned handle owns the child: pipes and wait facility are valid
    /// until the process exits or is forcibly terminated.
    pub open spec fn is_attached(&self) -> bool {
        self.attached
    }

    /// Whether the stdin channel is available; false for a recovered handle.
    pub open spec fn has_input(&self) -> bool {
        self.input_open
    }

    /// The OS process id the handle knows, if any.
    pub open spec fn spec_pid(&self) -> Option<u32> {
        self.pid
    }

    /// Views the undrained commands as a sequence of lines.
    pub open spec fn pending_commands(&self) -> Seq<Seq<char>> {
        Seq::new(self.pending@.len() as nat, |i: int| self.pending@[i]@)
    }

    pub open spec fn wf(&self) -> bool {
        &&& self.console.wf()
        &&& (self.has_input() ==> self.is_attached())
        &&& (self.is_attached() ==> self.spec_pid() is Some)
    }

    /// A handle for a process the manager will spawn itself.
    pub fn new(config: ServerConfig, base_dir: String) -> (p: ServerProcess)
        ensures
            p.wf(),
            p.config == config,
            p.base_dir == base_dir,
            !p.is_attached(),
            !p.has_input(),
            p.spec_pid() is None,
            p.pending_commands() =~= Seq::<Seq<char>>::empty(),
            p.console.total() == 0,
            p.console.num_subs() == 0,
    {
        ServerProcess {
            config,
            base_dir,
            console: LineBroadcaster::new(CONSOLE_CAPACITY),
            attached: false,
            input_open: false,
            pid: None,
            pending: Vec::new(),
        }
    }

    /// A handle recovered from a bare process id: no pipes, no wait
    /// facility, and none will ever be regained.
    pub fn from_pid(config: ServerConfig, base_dir: String, pid: u32) -> (p: ServerProcess)
        ensures
            p.wf(),
            p.config == config,
            p.base_dir == base_dir,
            !p.is_attached(),
            !p.has_input(),
            p.spec_pid() == Some(pid),
            p.pending_commands() =~= Seq::<Seq<char>>::empty(),
            p.console.total() == 0,
            p.console.num_subs() == 0,
    {
        ServerProcess {
            config,
            base_dir,
            console: LineBroadcaster::new(CONSOLE_CAPACITY),
            attached: false,
            input_open: false,
            pid: Some(pid),
            pending: Vec::new(),
        }
    }

    /// The instance's working directory.
    pub fn server_dir(&self) -> (p: String)
        ensures
            p@ == self.base_dir@ + "/"@ + self.config.id@,
    {
        self.config.server_dir(self.base_dir.as_str())
    }

    /// Path of the liveness marker within the working directory.
    pub fn marker_path(&self) -> (p: String)
        ensures
            p@ == self.base_dir@ + "/"@ + self.config.id@ + "/server.pid"@,
    {
        let mut p = self.server_dir();
        p.append("/server.pid");
        p
    }

    /// Path of the executable artifact the instance runs.
    pub fn jar_path(&self) -> (p: String)
        ensures
            p@ == self.base_dir@ + "/"@ + self.config.id@ + "/server.jar"@,
    {
        let mut p = self.server_dir();
        p.append("/server.jar");
        p
    }

    /// What to spawn, given whether the shell found the executable present.
    /// Fails with `ExecutableMissing` exactly when it is absent.
    pub fn start_plan(&self, jar_exists: bool) -> (r: Result<StartPlan, ProcessError>)
        ensures
            r is Err <==> !jar_exists,
            r is Err ==> r->Err_0 == ProcessError::ExecutableMissing,
            r is Ok ==> {
                let plan = r->Ok_0;
                &&& plan.program@ == "java"@
                &&& plan.args@.len() == spec_jvm_args(self.config.memory_mb as nat).len()
                &&& (forall|i: int|
                    0 <= i < plan.args@.len() ==> #[trigger] plan.args@[i]@ == spec_jvm_args(
                        self.config.memory_mb as nat,
                    )[i])
                &&& plan.cwd@ == self.base_dir@ + "/"@ + self.config.id@
                &&& plan.eula_path@ == self.base_dir@ + "/"@ + self.config.id@ + "/eula.txt"@
                &&& plan.eula_contents@ == "eula=true\n"@
            },
    {
        if !jar_exists {
            return Err(ProcessError::ExecutableMissing);
        }
        let mut eula_path = self.server_dir();
        eula_path.append("/eula.txt");
        Ok(
            StartPlan {
                program: "java".to_owned(),
                args: jvm_args(self.config.memory_mb),
                cwd: self.server_dir(),
                eula_path,
                eula_contents: "eula=true\n".to_owned(),
            },
        )
    }

    /// Folds a successful spawn into the handle and yields the liveness
    /// marker the shell must persist: the new process id in decimal.
    pub fn attach_spawned(&mut self, pid: u32) -> (m: MarkerWrite)
        requires
            old(self).wf(),
        ensures
            final(self).wf(),
            final(self).is_attached(),
            final(self).has_input(),
            final(self).spec_pid() == Some(pid),
            final(self).config == old(self).config,
            final(self).base_dir == old(self).base_dir,
            final(self).console == old(self).console,
            final(self).pending_commands() == old(self).pending_commands(),
            m.path@ == old(self).base_dir@ + "/"@ + old(self).config.id@ + "/server.pid"@,
            m.contents@ == spec_dec(pid as nat),
    {
        self.attached = true;
        self.input_open = true;
        self.pid = Some(pid);
        MarkerWrite { path: self.marker_path(), contents: u64_to_dec(pid as u64) }
    }

    /// Accepts a command for delivery to the process's input. Fails with
    /// `NoInputChannel` exactly when no stdin channel is attached — the
    /// permanent condition of a recovered handle.
    pub fn send_command(&mut self, command: String) -> (r: Result<(), ProcessError>)
        requires
            old(self).wf(),
        ensures
            final(self).wf(),
            final(self).is_attached() == old(self).is_attached(),
            final(self).has_input() == old(self).has_input(),
            final(self).spec_pid() == old(self).spec_pid(),
            final(self).config == old(self).config,
            final(self).base_dir == old(self).base_dir,
            final(self).console == old(self).console,
            r is Ok <==> old(self).has_input(),
            r is Err ==> r->Err_0 == ProcessError::NoInputChannel
                && final(self).pending_commands() == old(self).pending_commands(),
            r is Ok ==> final(self).pending_commands() =~= old(self).pending_commands().push(command@),
    {
        if self.input_open {
            self.pending.push(command);
            Ok(())
        } else {
            Err(ProcessError::NoInputChannel)
        }
    }

    /// Requests a graceful shutdown: enqueues the documented shutdown
    /// command. Does not wait for exit.
    pub fn stop(&mut self) -> (r: Result<(), ProcessError>)
        requires
            old(self).wf(),
        ensures
            final(self).wf(),
            final(self).is_attached() == old(self).is_attached(),
            final(self).has_input() == old(self).has_input(),
            final(self).spec_pid() == old(self).spec_pid(),
            final(self).config == old(self).config,
            final(self).base_dir == old(self).base_dir,
            final(self).console == old(self).console,
            r is Ok <==> old(self).has_input(),
            r is Err ==> r->Err_0 == ProcessError::NoInputChannel
                && final(self).pending_commands() == old(self).pending_commands(),
            r is Ok ==> final(self).pending_commands() =~= old(self).pending_commands().push("stop"@),
    {
        self.send_command("stop".to_owned())
    }

    /// Hands the accepted commands to the shell's writer, oldest first,
    /// leaving the queue empty.
    pub fn take_pending(&mut self) -> (cmds: Vec<String>)
        requires
            old(self).wf(),
        ensures
            final(self).wf(),
            final(self).is_attached() == old(self).is_attached(),
            final(self).has_input() == old(self).has_input(),
            final(self).spec_pid() == old(self).spec_pid(),
            final(self).config == old(self).config,
            final(self).base_dir == old(self).base_dir,
            final(self).console == old(self).console,
            final(self).pending_commands() =~= Seq::<Seq<char>>::empty(),
            Seq::new(cmds@.len() as nat, |i: int| cmds@[i]@) == old(self).pending_commands(),
    {
        let mut cmds: Vec<String> = Vec::new();
        core::mem::swap(&mut cmds, &mut self.pending);
        proof {
            assert(Seq::new(cmds@.len() as nat, |i: int| cmds@[i]@) =~= old(
                self,
            ).pending_commands());
        }
        cmds
    }

    /// Hard termination. Detaches the handle whatever its mode: a spawned
    /// handle's own process id is signalled, a recovered handle falls back
    /// to the id recorded in the liveness marker (`marker_pid`, as the
    /// shell read it) — and the marker is removed in every case, even when
    /// there is nothing left to signal.
    pub fn force_stop(&mut self, marker_pid: Option<u32>) -> (plan: ForceStopPlan)
        requires
            old(self).wf(),
        ensures
            final(self).wf(),
            !final(self).is_attached(),
            !final(self).has_input(),
            final(self).spec_pid() is None,
            final(self).config == old(self).config,
            final(self).base_dir == old(self).base_dir,
            final(self).console == old(self).console,
            final(self).pending_commands() =~= Seq::<Seq<char>>::empty(),
            plan.kill_pid == if old(self).is_attached() {
                old(self).spec_pid()
            } else {
                marker_pid
            },
            plan.marker_path@ == old(self).base_dir@ + "/"@ + old(self).config.id@
                + "/server.pid"@,
    {
        let kill_pid = if self.attached {
            self.pid
        } else {
            marker_pid
        };
        self.attached = false;
        self.input_open = false;
        self.pid = None;
        self.pending = Vec::new();
        ForceStopPlan { kill_pid, marker_path: self.marker_path() }
    }

    /// Folds an observed exit into the handle and yields the path of the
    /// liveness marker, which is removed on every confirmed exit.
    pub fn observe_exit(&mut self) -> (marker_path: String)
        requires
            old(self).wf(),
        ensures
            final(self).wf(),
            !final(self).is_attached(),
            !final(self).has_input(),
            final(self).spec_pid() is None,
            final(self).config == old(self).config,
            final(self).base_dir == old(self).base_dir,
            final(self).console == old(self).console,
            final(self).pending_commands() =~= Seq::<Seq<char>>::empty(),
            marker_path@ == old(self).base_dir@ + "/"@ + old(self).config.id@ + "/server.pid"@,
    {
        self.attached = false;
        self.input_open = false;
        self.pid = None;
        self.pending = Vec::new();
        self.marker_path()
    }

    /// Liveness: a spawned handle is running as long as it is attached; a
    /// handle without a child falls back to the shell's side-effect-free
    /// signal probe of the marker's process id (`None` when there was no
    /// marker to probe).
    pub fn is_running(&self, probe_alive: Option<bool>) -> (r: bool)
        ensures
            r == (self.is_attached() || probe_alive == Some(true)),
    {
        if self.attached {
            true
        } else {
            match probe_alive {
                Some(alive) => alive,
                None => false,
            }
        }
    }

    /// Registers a console subscriber; it will only see lines produced
    /// from this moment on.
    pub fn subscribe(&mut self) -> (s: Subscription)
        requires
            old(self).wf(),
        ensures
            final(self).wf(),
            final(self).is_attached() == old(self).is_attached(),
            final(self).has_input() == old(self).has_input(),
            final(self).spec_pid() == old(self).spec_pid(),
            final(self).config == old(self).config,
            final(self).base_dir == old(self).base_dir,
            final(self).pending_commands() == old(self).pending_commands(),
            final(self).console.wf(),
            final(self).console.history() == old(self).console.history(),
            final(self).console.num_subs() == old(self).console.num_subs() + 1,
            s.id == old(self).console.num_subs(),
            final(self).console.cursor(s.id as int) == old(self).console.total(),
    {
        self.console.subscribe()
    }

    /// Accepts one line read from the process's output; stderr lines are
    /// tagged. The producer is never blocked: a full window drops its
    /// oldest line instead.
    pub fn push_output(&mut self, line: &str, from_stderr: bool)
        requires
            old(self).wf(),
            old(self).console.total() < u64::MAX,
        ensures
            final(self).wf(),
            final(self).is_attached() == old(self).is_attached(),
            final(self).has_input() == old(self).has_input(),
            final(self).spec_pid() == old(self).spec_pid(),
            final(self).config == old(self).config,
            final(self).base_dir == old(self).base_dir,
            final(self).pending_commands() == old(self).pending_commands(),
            final(self).console.history() == old(self).console.history().push(
                if from_stderr {
                    "[ERROR] "@ + line@
                } else {
                    line@
                },
            ),
            final(self).console.num_subs() == old(self).console.num_subs(),
            forall|i: int|
                0 <= i < old(self).console.num_subs() ==> final(self).console.cursor(i) == old(
                    self,
                ).console.cursor(i),
    {
        let tagged = if from_stderr {
            tag_stderr(line)
        } else {
            line.to_owned()
        };
        self.console.push_line(tagged);
    }

    /// One receive step for console subscriber `s`.
    pub fn poll_console(&mut self, s: &Subscription) -> (r: PollMsg)
        requires
            old(self).wf(),
            s.id < old(self).console.num_subs(),
        ensures
            final(self).wf(),
            final(self).is_attached() == old(self).is_attached(),
            final(self).has_input() == old(self).has_input(),
            final(self).spec_pid() == old(self).spec_pid(),
            final(self).config == old(self).config,
            final(self).base_dir == old(self).base_dir,
            final(self).pending_commands() == old(self).pending_commands(),
            final(self).console.history() == old(self).console.history(),
            final(self).console.num_subs() == old(self).console.num_subs(),
            final(self).console.cursor(s.id as int) == old(self).console.spec_next_cursor(
                old(self).console.cursor(s.id as int),
            ),
            match r {
                PollMsg::Line(l) => l@ == old(self).console.history()[old(self).console.cursor(
                    s.id as int,
                )],
                PollMsg::Lagged(n) => n == old(self).console.dropped_before() - old(
                    self,
                ).console.cursor(s.id as int),
                PollMsg::Empty => old(self).console.cursor(s.id as int) == old(
                    self,
                ).console.total(),
            },
    {
        self.console.poll(s)
    }
}

} // verus!
