//! Decisions of the game-process supervisor: notify on the first line of
//! output, and respawn a silent launch of a marker-prefixed version.

use vstd::prelude::*;

verus! {

/// Retries allowed after the first launch of a silent marker-prefixed version.
pub const LAUNCH_RETRIES: u64 = 20;

/// Where the supervised launch stands.
#[derive(Clone, Copy, Debug, PartialEq, Eq, Structural)]
pub enum SupervisorState {
    Running,
    Done,
}

/// What the caller does next.
#[derive(Clone, Copy, Debug, PartialEq, Eq, Structural)]
pub enum SupervisorAction {
    /// Spawn the game process (in the instance directory).
    Spawn,
    /// Send the one-time "launched" notification, then keep reading.
    NotifyLaunched,
    /// Keep reading output.
    KeepReading,
    /// Stop: the launch is over.
    Finish,
}

/// A supervised launch.
#[derive(Clone, Copy, Debug, PartialEq, Eq, Structural)]
pub struct Supervisor {
    /// The version id carries the marker prefix.
    pub marked: bool,
    /// Launches so far, the running one included.
    pub attempts: u64,
    /// The running launch has printed a line.
    pub saw_output: bool,
    pub state: SupervisorState,
}

/// The supervisor before the first launch, and its first action.
pub open spec fn start_spec(marked: bool) -> (Supervisor, SupervisorAction) {
    (Supervisor { marked, attempts: 1, saw_output: false, state: SupervisorState::Running }, SupervisorAction::Spawn)
}

/// After a line of output: the first one of a launch notifies.
pub open spec fn line_spec(s: Supervisor) -> (Supervisor, SupervisorAction) {
    if s.state == SupervisorState::Done {
        (s, SupervisorAction::Finish)
    } else if !s.saw_output {
        (Supervisor { saw_output: true, ..s }, SupervisorAction::NotifyLaunched)
    } else {
        (s, SupervisorAction::KeepReading)
    }
}

/// After the process exits: a marked version that printed nothing is
/// spawned again while retries remain; anything else is final.
pub open spec fn exit_spec(s: Supervisor) -> (Supervisor, SupervisorAction) {
    if s.state == SupervisorState::Running && s.marked && !s.saw_output && s.attempts <= LAUNCH_RETRIES {
        (Supervisor { attempts: (s.attempts + 1) as u64, saw_output: false, ..s }, SupervisorAction::Spawn)
    } else {
        (Supervisor { state: SupervisorState::Done, ..s }, SupervisorAction::Finish)
    }
}

/// Launches a run performs from `s` when no launch ever prints anything.
pub open spec fn silent_launches(s: Supervisor) -> nat
    decreases LAUNCH_RETRIES + 1 - s.attempts,
{
    if exit_spec(s).1 == SupervisorAction::Spawn && s.attempts <= LAUNCH_RETRIES {
        1 + silent_launches(exit_spec(s).0)
    } else {
        1
    }
}

impl Supervisor {
    /// The attempt counter stays within the bound.
    pub open spec fn wf(&self) -> bool {
        1 <= self.attempts <= LAUNCH_RETRIES + 1
    }

    /// Starts supervising the launch of `version_id`; the first action is to spawn.
    pub fn start(version_id: &String) -> (r: (Supervisor, SupervisorAction))
        ensures
            r == start_spec(version_id@.len() > 0 && version_id@[0] == '_'),
            r.0.wf(),
    {
        let marked = crate::manifest::has_marker(version_id);
        (Supervisor { marked, attempts: 1, saw_output: false, state: SupervisorState::Running }, SupervisorAction::Spawn)
    }

    /// Takes in one line of output.
    pub fn on_line(&mut self) -> (r: SupervisorAction)
        requires
            old(self).wf(),
        ensures
            (*final(self), r) == line_spec(*old(self)),
            final(self).wf(),
    {
        if self.state == SupervisorState::Done {
            SupervisorAction::Finish
        } else if !self.saw_output {
            self.saw_output = true;
            SupervisorAction::NotifyLaunched
        } else {
            SupervisorAction::KeepReading
        }
    }

    /// Takes in the exit of the process.
    pub fn on_exit(&mut self) -> (r: SupervisorAction)
        requires
            old(self).wf(),
        ensures
            (*final(self), r) == exit_spec(*old(self)),
            final(self).wf(),
    {
        if self.state == SupervisorState::Running && self.marked && !self.saw_output && self.attempts <= LAUNCH_RETRIES {
            self.attempts = self.attempts + 1;
            self.saw_output = false;
            SupervisorAction::Spawn
        } else {
            self.state = SupervisorState::Done;
            SupervisorAction::Finish
        }
    }
}

proof fn lemma_silent_from(n: u64)
    requires
        1 <= n <= LAUNCH_RETRIES + 1,
    ensures
        silent_launches(
            Supervisor { marked: true, attempts: n, saw_output: false, state: SupervisorState::Running },
        ) == LAUNCH_RETRIES + 2 - n,
    decreases LAUNCH_RETRIES + 1 - n,
{
    if n <= LAUNCH_RETRIES {
        lemma_silent_from((n + 1) as u64);
    }
}

/// A marker-prefixed version whose launches never print a line is launched
/// once and retried exactly `LAUNCH_RETRIES` times before the supervisor
/// gives up; any other version that stays silent is launched once.
pub proof fn lemma_silent_launch_retries(marked: bool)
    ensures
        silent_launches(start_spec(marked).0) == if marked {
            LAUNCH_RETRIES + 1
        } else {
            1
        },
{
    if marked {
        lemma_silent_from(1);
    }
}

} // verus!
