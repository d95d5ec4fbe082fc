//! What the handles of a local server share: whether it takes traffic, and how it is shut down.

use vstd::prelude::*;

verus! {

/// Why a receiver was not handed out.
#[derive(Clone, Copy, Debug, PartialEq, Eq, Structural)]
pub enum HandleError {
    /// It has been taken and not put back.
    ReceiverTaken,
}

/// What a caller of `shutdown` waits for.
#[derive(Clone, Copy, Debug, PartialEq, Eq, Structural)]
pub enum Wait {
    /// That the server's tasks end; then `completed` is due.
    Tasks,
    /// That another caller reports the end of the tasks.
    Completion,
    /// Nothing: the tasks have ended.
    Nothing,
}

/// What to do to shut a server down.
#[derive(Clone, Copy, Debug, PartialEq, Eq, Structural)]
pub struct ShutdownPlan {
    /// Tell the server's tasks to end.
    pub signal: bool,
    pub wait: Wait,
}

/// The state that all handles of a server share.
#[derive(Clone, Copy, Debug, PartialEq, Eq, Structural)]
pub struct HandleState {
    /// Whether traffic is wanted.
    pub active: bool,
    /// Whether the server has been told to end.
    pub terminated: bool,
    /// Whether nobody waits for the server's tasks yet.
    pub tasks: bool,
    /// Whether the server's tasks have ended.
    pub completed: bool,
}

impl HandleState {
    /// The state of a server that has just been started.
    pub open spec fn started() -> HandleState {
        HandleState { active: false, terminated: false, tasks: true, completed: false }
    }

    /// The state once `shutdown` has been called, and what its caller is to do.
    pub open spec fn shut(self) -> (HandleState, ShutdownPlan) {
        (
            HandleState { terminated: true, tasks: false, ..self },
            ShutdownPlan {
                signal: !self.terminated,
                wait: if self.tasks {
                    Wait::Tasks
                } else if self.completed {
                    Wait::Nothing
                } else {
                    Wait::Completion
                },
            },
        )
    }

    /// The state once one of `owners` handles has been dropped, and whether the server's tasks
    /// are to be told to end.
    pub open spec fn dropped(self, owners: nat) -> (HandleState, bool) {
        if owners == 1 && !self.terminated {
            (HandleState { terminated: true, ..self }, true)
        } else {
            (self, false)
        }
    }

    pub(crate) fn new() -> (r: HandleState)
        ensures
            r == HandleState::started(),
    {
        HandleState { active: false, terminated: false, tasks: true, completed: false }
    }

    pub(crate) fn shutdown(&mut self) -> (r: ShutdownPlan)
        ensures
            (*final(self), r) == old(self).shut(),
    {
        let signal = !self.terminated;
        let wait = if self.tasks {
            Wait::Tasks
        } else if self.completed {
            Wait::Nothing
        } else {
            Wait::Completion
        };
        self.terminated = true;
        self.tasks = false;
        ShutdownPlan { signal, wait }
    }

    pub(crate) fn drop_handle(&mut self, owners: usize) -> (signal: bool)
        ensures
            (*final(self), signal) == old(self).dropped(owners as nat),
    {
        if owners == 1 && !self.terminated {
            self.terminated = true;
            true
        } else {
            false
        }
    }
}

/// Of all callers of `shutdown` one waits for the tasks, and the tasks are told to end once; a
/// caller that does not wait at all finds that they have ended.
pub proof fn shutdown_waits_for_the_tasks(state: HandleState)
    ensures
        ({
            let (once, first) = state.shut();
            let (twice, second) = once.shut();
            &&& first.wait == Wait::Nothing ==> state.completed
            &&& first.signal <==> !state.terminated
            &&& second.wait != Wait::Tasks
            &&& !second.signal
            &&& twice == once
            &&& state == HandleState::started() ==> first.wait == Wait::Tasks && second.wait
                == Wait::Completion && (HandleState { completed: true, ..twice }).shut().1.wait
                == Wait::Nothing
        }),
{
}

/// Dropping handles ends the server with the last of them, and not before.
pub proof fn last_handle_ends_the_server(state: HandleState, owners: nat)
    ensures
        owners == 1 ==> state.dropped(owners).0.terminated,
        owners == 1 ==> (state.dropped(owners).1 <==> !state.terminated),
        owners != 1 ==> state.dropped(owners) == (state, false),
{
}

} // verus!
