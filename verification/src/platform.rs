//! Claiming the device away from Native Instruments' agent before the
//! USB interfaces are opened, per operating system.
//!
//! On macOS the claim finds the NI agent and the host applications that
//! hold the device, stops the agent through `launchctl` or suspends it,
//! suspends the applications, and kills the MIDI and audio servers once so
//! they let go of the device. The returned guard lists what must be resumed
//! when the device is released. Linux and Windows report that they are not
//! supported yet.
use vstd::prelude::*;
use crate::text::{dec_signed, push_dec_signed, str_equal};

verus! {

/// Why the device could not be claimed.
#[derive(Debug, Clone, PartialEq, Eq)]
pub enum ClaimError {
    /// The platform (named) has no claim backend yet.
    UnsupportedPlatform(&'static str),
    /// A claim step failed; the text says which.
    Command(String),
}

/// The user-facing text of a claim error.
pub open spec fn claim_error_text(e: ClaimError) -> Seq<char> {
    match e {
        ClaimError::UnsupportedPlatform(p) => "v0.1 only supports macOS; "@ + p@ + " lands in v0.2"@,
        ClaimError::Command(c) => "claim subcommand failed: "@ + c@,
    }
}

fn lit(s: &str) -> (r: String)
    ensures
        r@ == s@,
{
    s.to_string()
}

impl ClaimError {
    pub fn message(&self) -> (m: String)
        ensures
            m@ == claim_error_text(*self),
    {
        proof {
            reveal_strlit("v0.1 only supports macOS; ");
            reveal_strlit(" lands in v0.2");
            reveal_strlit("claim subcommand failed: ");
        }
        match self {
            ClaimError::UnsupportedPlatform(p) => {
                let mut m = lit("v0.1 only supports macOS; ");
                m.append(p);
                m.append(" lands in v0.2");
                m
            },
            ClaimError::Command(c) => {
                let mut m = lit("claim subcommand failed: ");
                m.append(c.as_str());
                m
            },
        }
    }
}

/// What a claim changed and its release must undo: whether the agent was
/// stopped through `launchctl` (and must be bootstrapped again), and the
/// pids that were suspended (and must be resumed), in order.
#[derive(Debug, Clone, PartialEq, Eq)]
pub struct Suspended {
    pub agent_was_bootable: bool,
    pub stopped_pids: Vec<i32>,
}

/// Held while the device is claimed; its restore steps are performed when
/// the device is released.
#[derive(Debug, Clone, PartialEq, Eq)]
pub struct ClaimGuard {
    pub suspended: Option<Suspended>,
}

/// One step of releasing a claim.
#[derive(Debug, Clone, Copy, PartialEq, Eq)]
pub enum RestoreStep {
    /// `SIGCONT` the pid.
    Resume(i32),
    /// `launchctl bootstrap` the NI agent again.
    Bootstrap,
}

/// The steps that undo a claim: resume every pid of `stopped` in order,
/// then bootstrap the agent if it was stopped through `launchctl`
/// (`bootable`).
pub open spec fn undo_spec(bootable: bool, stopped: Seq<i32>) -> Seq<RestoreStep> {
    stopped.map_values(|p: i32| RestoreStep::Resume(p)) + if bootable {
        seq![RestoreStep::Bootstrap]
    } else {
        seq![]
    }
}

/// The steps that undo `s` (see `undo_spec`); none for an empty guard.
pub open spec fn restore_spec(s: Option<Suspended>) -> Seq<RestoreStep> {
    match s {
        Some(st) => undo_spec(st.agent_was_bootable, st.stopped_pids@),
        None => seq![],
    }
}

impl ClaimGuard {
    /// A guard that undoes `s` on release.
    pub fn new(s: Suspended) -> (g: ClaimGuard)
        ensures
            g.suspended == Some(s),
    {
        ClaimGuard { suspended: Some(s) }
    }

    /// A guard with nothing to undo.
    pub fn none() -> (g: ClaimGuard)
        ensures
            g.suspended is None,
    {
        ClaimGuard { suspended: None }
    }

    /// The steps that release the claim.
    pub fn restore_steps(&self) -> (steps: Vec<RestoreStep>)
        ensures
            steps@ == restore_spec(self.suspended),
    {
        let mut out: Vec<RestoreStep> = Vec::new();
        match &self.suspended {
            Some(st) => {
                let mut i: usize = 0;
                while i < st.stopped_pids.len()
                    invariant
                        i <= st.stopped_pids@.len(),
                        out@ == st.stopped_pids@.take(i as int).map_values(
                            |p: i32| RestoreStep::Resume(p),
                        ),
                    decreases st.stopped_pids@.len() - i,
                {
                    out.push(RestoreStep::Resume(st.stopped_pids[i]));
                    assert(st.stopped_pids@.take(i + 1).map_values(|p: i32| RestoreStep::Resume(p))
                        =~= out@);
                    i = i + 1;
                }
                assert(st.stopped_pids@.take(st.stopped_pids@.len() as int) =~= st.stopped_pids@);
                if st.agent_was_bootable {
                    out.push(RestoreStep::Bootstrap);
                }
                assert(out@ =~= restore_spec(self.suspended));
            },
            None => {},
        }
        out
    }
}

/// A platform's way of claiming the device.
pub trait DeviceClaim {
    fn prepare(&self) -> Result<ClaimGuard, ClaimError>;
}

/// Linux: not supported yet.
pub struct LinuxClaim;

/// Windows: not supported yet.
pub struct WindowsClaim;

impl DeviceClaim for LinuxClaim {
    fn prepare(&self) -> (r: Result<ClaimGuard, ClaimError>)
        ensures
            r == Err::<ClaimGuard, ClaimError>(ClaimError::UnsupportedPlatform("linux")),
    {
        Err(ClaimError::UnsupportedPlatform("linux"))
    }
}

impl DeviceClaim for WindowsClaim {
    fn prepare(&self) -> (r: Result<ClaimGuard, ClaimError>)
        ensures
            r == Err::<ClaimGuard, ClaimError>(ClaimError::UnsupportedPlatform("windows")),
    {
        Err(ClaimError::UnsupportedPlatform("windows"))
    }
}

/// The launchd service of the NI agent.
pub const AGENT_SERVICE: &'static str = "com.native-instruments.NIHostIntegrationAgent";

/// Number of processes the macOS claim looks for: the NI agent, four host
/// applications to suspend, and two servers to kill.
pub const CLAIM_TARGETS: usize = 7;

/// The process name looked for at `stage`.
pub open spec fn target_name(stage: int) -> Seq<char> {
    if stage == 0 {
        "NIHostIntegrationAgent"@
    } else if stage == 1 {
        "NIHardwareAgent"@
    } else if stage == 2 {
        "Maschine 2"@
    } else if stage == 3 {
        "Maschine"@
    } else if stage == 4 {
        "Komplete Kontrol"@
    } else if stage == 5 {
        "MIDIServer"@
    } else {
        "usbaudiod"@
    }
}

fn target(stage: usize) -> (name: &'static str)
    requires
        stage < CLAIM_TARGETS,
    ensures
        name@ == target_name(stage as int),
{
    proof {
        reveal_strlit("NIHostIntegrationAgent");
        reveal_strlit("NIHardwareAgent");
        reveal_strlit("Maschine 2");
        reveal_strlit("Maschine");
        reveal_strlit("Komplete Kontrol");
        reveal_strlit("MIDIServer");
        reveal_strlit("usbaudiod");
    }
    if stage == 0 {
        "NIHostIntegrationAgent"
    } else if stage == 1 {
        "NIHardwareAgent"
    } else if stage == 2 {
        "Maschine 2"
    } else if stage == 3 {
        "Maschine"
    } else if stage == 4 {
        "Komplete Kontrol"
    } else if stage == 5 {
        "MIDIServer"
    } else {
        "usbaudiod"
    }
}

/// What the macOS claim waits for.
#[derive(Debug, Clone, Copy, PartialEq, Eq, Structural)]
pub enum Pending {
    /// The pid of the current target, if it runs.
    Find,
    /// Whether `launchctl bootout` of the agent (pid) succeeded.
    Bootout(i32),
    /// Whether `SIGSTOP` of the pid succeeded.
    Stop(i32),
    /// That the pid was sent `SIGKILL`.
    Kill,
    /// Nothing: the claim is over.
    Over,
}

/// A step the macOS claim asks its driver to perform.
#[derive(Debug, Clone, PartialEq, Eq)]
pub enum ClaimAction {
    /// Look up the pid of the process with exactly this name.
    Find(&'static str),
    /// `launchctl bootout gui/<uid>/<service>`.
    Bootout(&'static str),
    /// Send `SIGSTOP` to the pid.
    Stop(i32),
    /// Send `SIGKILL` to the pid.
    Kill(i32),
    /// The claim is complete; hold the guard while the device is open.
    Done(ClaimGuard),
    /// The claim failed: perform the steps to undo what it had done
    /// (resume the pids it suspended, bootstrap the agent it stopped), then
    /// report the error.
    Failed(ClaimError, Vec<RestoreStep>),
}

/// What the driver observed when performing the last step.
#[derive(Debug, Clone, PartialEq, Eq)]
pub enum ClaimEvent {
    /// The pid of the process looked for, if it runs.
    Found(Option<i32>),
    /// Whether `launchctl bootout` succeeded.
    BootedOut(bool),
    /// `SIGSTOP` succeeded.
    Stopped,
    /// `SIGSTOP` failed; the system's error text.
    StopFailed(String),
    /// `SIGKILL` was sent.
    Killed,
}

/// The claim of the device on macOS, driven one step at a time.
#[derive(Debug)]
pub struct MacOsClaim {
    pub stage: usize,
    pub pending: Pending,
    pub agent_was_bootable: bool,
    pub stopped_pids: Vec<i32>,
}

/// A claim step with its texts as characters.
pub enum Step {
    Find(Seq<char>),
    /// The launchd service to boot out.
    Bootout(Seq<char>),
    Stop(i32),
    Kill(i32),
    Done(bool, Seq<i32>),
    /// The error text and the steps that undo the claim so far.
    Failed(Seq<char>, Seq<RestoreStep>),
}

/// The state of a claim: stage, what it waits for, whether the agent left
/// through `launchctl`, and the pids suspended so far.
pub struct ClaimState {
    pub stage: int,
    pub pending: Pending,
    pub bootable: bool,
    pub stopped: Seq<i32>,
}

impl ClaimAction {
    pub open spec fn view(self) -> Step {
        match self {
            ClaimAction::Find(n) => Step::Find(n@),
            ClaimAction::Bootout(service) => Step::Bootout(service@),
            ClaimAction::Stop(p) => Step::Stop(p),
            ClaimAction::Kill(p) => Step::Kill(p),
            ClaimAction::Done(g) => match g.suspended {
                Some(s) => Step::Done(s.agent_was_bootable, s.stopped_pids@),
                None => Step::Done(false, seq![]),
            },
            ClaimAction::Failed(e, undo) => Step::Failed(claim_error_text(e), undo@),
        }
    }
}

impl MacOsClaim {
    pub open spec fn state(&self) -> ClaimState {
        ClaimState {
            stage: self.stage as int,
            pending: self.pending,
            bootable: self.agent_was_bootable,
            stopped: self.stopped_pids@,
        }
    }
}

/// Going on with the target at `stage`: look it up, or finish with what
/// was suspended once every target was handled.
pub open spec fn proceed(s: ClaimState, stage: int) -> (ClaimState, Step) {
    if stage < CLAIM_TARGETS {
        (
            ClaimState { stage, pending: Pending::Find, bootable: s.bootable, stopped: s.stopped },
            Step::Find(target_name(stage)),
        )
    } else {
        (
            ClaimState { stage, pending: Pending::Over, bootable: s.bootable, stopped: s.stopped },
            Step::Done(s.bootable, s.stopped),
        )
    }
}

/// The event a claim waiting for `p` accepts.
pub open spec fn accepts(p: Pending, ev: ClaimEvent) -> bool {
    match (p, ev) {
        (Pending::Find, ClaimEvent::Found(_)) => true,
        (Pending::Bootout(_), ClaimEvent::BootedOut(_)) => true,
        (Pending::Stop(_), ClaimEvent::Stopped) => true,
        (Pending::Stop(_), ClaimEvent::StopFailed(_)) => true,
        (Pending::Kill, ClaimEvent::Killed) => true,
        _ => false,
    }
}

/// The message of a failed `SIGSTOP`.
pub open spec fn stop_failure(pid: i32, err: Seq<char>) -> Seq<char> {
    "kill("@ + dec_signed(pid as int) + ", SIGSTOP) failed: "@ + err
}

/// One transition of the claim. A running agent is first asked to leave
/// through `launchctl`, and suspended when that fails; a running host
/// application is suspended; a running MIDI or audio server is killed. A
/// failed suspension ends the claim with an error, together with the steps
/// that resume every pid suspended so far and bootstrap the agent if it
/// was stopped through `launchctl`.
pub open spec fn claim_step(s: ClaimState, ev: ClaimEvent) -> (ClaimState, Step) {
    match ev {
        ClaimEvent::Found(None) => proceed(s, s.stage + 1),
        ClaimEvent::Found(Some(pid)) => if s.stage == 0 {
            (
                ClaimState { stage: s.stage, pending: Pending::Bootout(pid), bootable: s.bootable, stopped: s.stopped },
                Step::Bootout(AGENT_SERVICE@),
            )
        } else if s.stage < 5 {
            (
                ClaimState { stage: s.stage, pending: Pending::Stop(pid), bootable: s.bootable, stopped: s.stopped },
                Step::Stop(pid),
            )
        } else {
            (
                ClaimState { stage: s.stage, pending: Pending::Kill, bootable: s.bootable, stopped: s.stopped },
                Step::Kill(pid),
            )
        },
        ClaimEvent::BootedOut(ok) => {
            let pid = s.pending->Bootout_0;
            if ok {
                proceed(
                    ClaimState { stage: s.stage, pending: s.pending, bootable: true, stopped: s.stopped },
                    s.stage + 1,
                )
            } else {
                (
                    ClaimState { stage: s.stage, pending: Pending::Stop(pid), bootable: s.bootable, stopped: s.stopped },
                    Step::Stop(pid),
                )
            }
        },
        ClaimEvent::Stopped => proceed(
            ClaimState {
                stage: s.stage,
                pending: s.pending,
                bootable: s.bootable,
                stopped: s.stopped.push(s.pending->Stop_0),
            },
            s.stage + 1,
        ),
        ClaimEvent::StopFailed(e) => (
            ClaimState { stage: s.stage, pending: Pending::Over, bootable: s.bootable, stopped: s.stopped },
            Step::Failed(
                "claim subcommand failed: "@ + stop_failure(s.pending->Stop_0, e@),
                undo_spec(s.bootable, s.stopped),
            ),
        ),
        ClaimEvent::Killed => proceed(s, s.stage + 1),
    }
}

fn proceed_to(claim: &mut MacOsClaim, stage: usize) -> (a: ClaimAction)
    requires
        stage <= CLAIM_TARGETS,
    ensures
        (final(claim).state(), a.view()) == proceed(old(claim).state(), stage as int),
{
    claim.stage = stage;
    if stage < CLAIM_TARGETS {
        claim.pending = Pending::Find;
        ClaimAction::Find(target(stage))
    } else {
        claim.pending = Pending::Over;
        let guard = ClaimGuard::new(
            Suspended {
                agent_was_bootable: claim.agent_was_bootable,
                stopped_pids: claim.stopped_pids.clone(),
            },
        );
        ClaimAction::Done(guard)
    }
}

impl MacOsClaim {
    /// A claim about to look up the NI agent, and that first step.
    pub fn start() -> (r: (MacOsClaim, ClaimAction))
        ensures
            r.0.state() == (ClaimState {
                stage: 0,
                pending: Pending::Find,
                bootable: false,
                stopped: seq![],
            }),
            r.1.view() == Step::Find(target_name(0)),
    {
        let c = MacOsClaim {
            stage: 0,
            pending: Pending::Find,
            agent_was_bootable: false,
            stopped_pids: Vec::new(),
        };
        (c, ClaimAction::Find(target(0)))
    }

    /// The next step after the driver observed `ev` for the last one.
    pub fn step(&mut self, ev: ClaimEvent) -> (a: ClaimAction)
        requires
            old(self).stage < CLAIM_TARGETS,
            accepts(old(self).pending, ev),
        ensures
            (final(self).state(), a.view()) == claim_step(old(self).state(), ev),
            final(self).stage <= CLAIM_TARGETS,
    {
        match ev {
            ClaimEvent::Found(None) => proceed_to(self, self.stage + 1),
            ClaimEvent::Found(Some(pid)) => {
                if self.stage == 0 {
                    self.pending = Pending::Bootout(pid);
                    ClaimAction::Bootout(AGENT_SERVICE)
                } else if self.stage < 5 {
                    self.pending = Pending::Stop(pid);
                    ClaimAction::Stop(pid)
                } else {
                    self.pending = Pending::Kill;
                    ClaimAction::Kill(pid)
                }
            },
            ClaimEvent::BootedOut(ok) => {
                let pid = match self.pending {
                    Pending::Bootout(p) => p,
                    _ => 0,
                };
                if ok {
                    self.agent_was_bootable = true;
                    proceed_to(self, self.stage + 1)
                } else {
                    self.pending = Pending::Stop(pid);
                    ClaimAction::Stop(pid)
                }
            },
            ClaimEvent::Stopped => {
                let pid = match self.pending {
                    Pending::Stop(p) => p,
                    _ => 0,
                };
                self.stopped_pids.push(pid);
                proceed_to(self, self.stage + 1)
            },
            ClaimEvent::StopFailed(e) => {
                let pid = match self.pending {
                    Pending::Stop(p) => p,
                    _ => 0,
                };
                proof {
                    reveal_strlit("kill(");
                    reveal_strlit(", SIGSTOP) failed: ");
                    reveal_strlit("claim subcommand failed: ");
                }
                self.pending = Pending::Over;
                let mut m = lit("kill(");
                push_dec_signed(&mut m, pid as i64);
                m.append(", SIGSTOP) failed: ");
                m.append(e.as_str());
                let err = ClaimError::Command(m);
                let undo = ClaimGuard::new(
                    Suspended {
                        agent_was_bootable: self.agent_was_bootable,
                        stopped_pids: self.stopped_pids.clone(),
                    },
                ).restore_steps();
                assert(claim_error_text(err) =~= "claim subcommand failed: "@ + stop_failure(
                    pid,
                    e@,
                ));
                ClaimAction::Failed(err, undo)
            },
            ClaimEvent::Killed => proceed_to(self, self.stage + 1),
        }
    }
}

/// The claim backends.
#[derive(Debug, Clone, Copy, PartialEq, Eq, Structural)]
pub enum Backend {
    MacOs,
    Linux,
    Windows,
}

/// The claim backend of the operating system named `os` (as Rust names
/// target systems); none for other systems.
pub fn current(os: &str) -> (b: Option<Backend>)
    ensures
        b == if os@ == "macos"@ {
            Some(Backend::MacOs)
        } else if os@ == "linux"@ {
            Some(Backend::Linux)
        } else if os@ == "windows"@ {
            Some(Backend::Windows)
        } else {
            None::<Backend>
        },
{
    if str_equal(os, "macos") {
        Some(Backend::MacOs)
    } else if str_equal(os, "linux") {
        Some(Backend::Linux)
    } else if str_equal(os, "windows") {
        Some(Backend::Windows)
    } else {
        None
    }
}

} // verus!
