//! Supervision of the two pipeline tasks.
//!
//! The producer (serial reader) and the consumer (log writer) run
//! concurrently, sharing the delivery channel. Both loops are unbounded, so
//! either ends only on a fatal failure or outside cancellation; whichever
//! ends first, the other is aborted at once and the session is over. The
//! decisions live here; the application runs the tasks and performs the
//! aborts.

use vstd::prelude::*;

verus! {

/// One of the two concurrently running pipeline tasks.
#[derive(Clone, Copy, Debug, PartialEq, Eq, Structural)]
pub enum Task {
    /// Reads the device and decodes units.
    Producer,
    /// Drains the channel and persists events.
    Consumer,
}

/// The task that must be aborted when the given one ends.
pub open spec fn other_task(t: Task) -> Task {
    match t {
        Task::Producer => Task::Consumer,
        Task::Consumer => Task::Producer,
    }
}

/// The supervisor's lifecycle.
#[derive(Clone, Copy, Debug, PartialEq, Eq, Structural)]
pub enum SupervisorState {
    /// Both tasks are running.
    Running,
    /// The named task ended first; the other is being aborted.
    Ended(Task),
    /// The surviving task was aborted; the session is over.
    ShutdownComplete,
}

impl SupervisorState {
    /// A supervisor over two freshly started tasks.
    pub fn new() -> (s: SupervisorState)
        ensures
            s is Running,
    {
        SupervisorState::Running
    }

    /// The first task has terminated: record it and name the task the
    /// application must abort — always the other one.
    pub fn on_task_end(&mut self, ended: Task) -> (abort: Task)
        requires
            *old(self) is Running,
        ensures
            *final(self) == SupervisorState::Ended(ended),
            abort == other_task(ended),
            abort != ended,
    {
        *self = SupervisorState::Ended(ended);
        match ended {
            Task::Producer => Task::Consumer,
            Task::Consumer => Task::Producer,
        }
    }

    /// The surviving task has been aborted: the shutdown is complete.
    pub fn on_abort_done(&mut self)
        requires
            *old(self) is Ended,
        ensures
            *final(self) == SupervisorState::ShutdownComplete,
    {
        *self = SupervisorState::ShutdownComplete;
    }
}

} // verus!
