//! Supervision of script invocations: what to do with each child process as
//! things happen to it. Spawning, signalling and the clock belong to the caller.
use vstd::prelude::*;
use std::sync::Arc;
use crate::environment::{Arguments, Environments};

verus! {

/// Seconds between the graceful and the forceful termination of a script
/// that outlived its timeout.
pub const GRACE_SECS: u64 = 1;

/// One script to run: its path, the shared arguments and environment of its
/// event, and its timeout in seconds.
#[derive(Clone, Debug)]
pub struct ScriptSpec {
    pub path: String,
    pub args: Arc<Arguments>,
    pub env: Arc<Environments>,
    pub timeout: u64,
}

impl ScriptSpec {
    pub open spec fn wf(&self) -> bool {
        self.timeout > 0
    }

    pub fn new(path: String, args: Arc<Arguments>, env: Arc<Environments>, timeout: u64) -> (r:
        ScriptSpec)
        requires
            timeout > 0,
        ensures
            r.wf(),
            r.path@ == path@,
            r.args == args,
            r.env == env,
            r.timeout == timeout,
    {
        ScriptSpec { path, args, env, timeout }
    }
}

/// Where an invocation stands.
#[derive(Clone, Copy, Debug, PartialEq, Eq, Structural)]
pub enum Phase {
    Queued,
    Spawning,
    Running,
    /// Asked to terminate after its timeout, not yet gone.
    Terminating,
    Exited(i32),
    TimedOut,
    SpawnFailed,
}

/// What happened to an invocation.
#[derive(Clone, Copy, Debug, PartialEq, Eq, Structural)]
pub enum ProcessEvent {
    /// A worker took it from the queue.
    Start,
    Spawned,
    SpawnError,
    /// The clock, in whole seconds since the child was spawned.
    Tick(u64),
    /// The child ended with this status.
    Exit(i32),
}

/// What the caller has to do to the invocation's child process.
#[derive(Clone, Copy, Debug, PartialEq, Eq, Structural)]
pub enum Action {
    Nothing,
    Spawn,
    /// Send the graceful termination signal.
    Terminate,
    /// Send the forceful termination signal.
    Kill,
}

pub open spec fn is_terminal(p: Phase) -> bool {
    p is Exited || p is TimedOut || p is SpawnFailed
}

/// The next phase of an invocation with timeout `timeout`, and the action to take.
pub open spec fn step_spec(p: Phase, e: ProcessEvent, timeout: u64) -> (Phase, Action) {
    match (p, e) {
        (Phase::Queued, ProcessEvent::Start) => (Phase::Spawning, Action::Spawn),
        (Phase::Spawning, ProcessEvent::Spawned) => (Phase::Running, Action::Nothing),
        (Phase::Spawning, ProcessEvent::SpawnError) => (Phase::SpawnFailed, Action::Nothing),
        (Phase::Running, ProcessEvent::Exit(c)) => (Phase::Exited(c), Action::Nothing),
        (Phase::Running, ProcessEvent::Tick(t)) => if t >= timeout + GRACE_SECS {
            (Phase::TimedOut, Action::Kill)
        } else if t >= timeout {
            (Phase::Terminating, Action::Terminate)
        } else {
            (Phase::Running, Action::Nothing)
        },
        (Phase::Terminating, ProcessEvent::Exit(_)) => (Phase::TimedOut, Action::Nothing),
        (Phase::Terminating, ProcessEvent::Tick(t)) => if t >= timeout + GRACE_SECS {
            (Phase::TimedOut, Action::Kill)
        } else {
            (Phase::Terminating, Action::Nothing)
        },
        _ => (p, Action::Nothing),
    }
}

/// The next phase of an invocation with timeout `timeout`, and the action to take.
pub fn step(p: Phase, e: ProcessEvent, timeout: u64) -> (r: (Phase, Action))
    ensures
        r == step_spec(p, e, timeout),
{
    match (p, e) {
        (Phase::Queued, ProcessEvent::Start) => (Phase::Spawning, Action::Spawn),
        (Phase::Spawning, ProcessEvent::Spawned) => (Phase::Running, Action::Nothing),
        (Phase::Spawning, ProcessEvent::SpawnError) => (Phase::SpawnFailed, Action::Nothing),
        (Phase::Running, ProcessEvent::Exit(c)) => (Phase::Exited(c), Action::Nothing),
        (Phase::Running, ProcessEvent::Tick(t)) => if t >= GRACE_SECS && t - GRACE_SECS
            >= timeout {
            (Phase::TimedOut, Action::Kill)
        } else if t >= timeout {
            (Phase::Terminating, Action::Terminate)
        } else {
            (Phase::Running, Action::Nothing)
        },
        (Phase::Terminating, ProcessEvent::Exit(_)) => (Phase::TimedOut, Action::Nothing),
        (Phase::Terminating, ProcessEvent::Tick(t)) => if t >= GRACE_SECS && t - GRACE_SECS
            >= timeout {
            (Phase::TimedOut, Action::Kill)
        } else {
            (Phase::Terminating, Action::Nothing)
        },
        _ => (p, Action::Nothing),
    }
}

/// A child still alive `timeout + GRACE_SECS` seconds after its spawn is
/// killed and its invocation ends as timed out; once an invocation has
/// ended, nothing more is done to it.
pub proof fn lemma_timeout_bound(p: Phase, t: u64, timeout: u64, e: ProcessEvent)
    requires
        p is Running || p is Terminating,
        t >= timeout + GRACE_SECS,
    ensures
        step_spec(p, ProcessEvent::Tick(t), timeout) == (Phase::TimedOut, Action::Kill),
        is_terminal(step_spec(p, ProcessEvent::Tick(t), timeout).0),
        step_spec(Phase::TimedOut, e, timeout) == (Phase::TimedOut, Action::Nothing),
{
}

/// The queue of invocations, in the order they were added, with the phase of each.
pub struct Launcher {
    pub queue: Vec<ScriptSpec>,
    pub phases: Vec<Phase>,
}

impl Launcher {
    pub open spec fn wf(&self) -> bool {
        self.queue@.len() == self.phases@.len()
    }

    pub fn new() -> (r: Launcher)
        ensures
            r.wf(),
            r.queue@.len() == 0,
    {
        Launcher { queue: Vec::new(), phases: Vec::new() }
    }

    /// Queues an invocation; this always succeeds and never waits.
    pub fn add(&mut self, spec: ScriptSpec)
        requires
            old(self).wf(),
        ensures
            final(self).wf(),
            final(self).queue@ == old(self).queue@.push(spec),
            final(self).phases@ == old(self).phases@.push(Phase::Queued),
    {
        self.queue.push(spec);
        self.phases.push(Phase::Queued);
    }

    /// Applies event `e` to invocation `i` and says what to do to its child.
    /// No other invocation is touched, whatever becomes of this one.
    pub fn advance(&mut self, i: usize, e: ProcessEvent) -> (r: Action)
        requires
            old(self).wf(),
            i < old(self).queue@.len(),
        ensures
            final(self).wf(),
            final(self).queue@ == old(self).queue@,
            (final(self).phases@[i as int], r) == step_spec(
                old(self).phases@[i as int],
                e,
                old(self).queue@[i as int].timeout,
            ),
            forall|k: int|
                0 <= k < old(self).phases@.len() && k != i ==> final(self).phases@[k]
                    == old(self).phases@[k],
    {
        let (p, a) = step(self.phases[i], e, self.queue[i].timeout);
        self.phases.set(i, p);
        a
    }

    /// Whether every invocation has ended.
    pub fn all_done(&self) -> (r: bool)
        requires
            self.wf(),
        ensures
            r == forall|k: int| 0 <= k < self.phases@.len() ==> is_terminal(#[trigger] self.phases@[k]),
    {
        let mut k: usize = 0;
        while k < self.phases.len()
            invariant
                k <= self.phases@.len(),
                forall|j: int| 0 <= j < k ==> is_terminal(#[trigger] self.phases@[j]),
            decreases self.phases@.len() - k,
        {
            match self.phases[k] {
                Phase::Exited(_) | Phase::TimedOut | Phase::SpawnFailed => {},
                _ => {
                    return false;
                },
            }
            k = k + 1;
        }
        true
    }
}

} // verus!
