//! Workers that take commands for one native service after the other.
use vstd::prelude::*;

verus! {

/// What a worker wakes up for.
#[derive(Debug, Clone, Copy, PartialEq, Eq, Structural)]
pub enum WorkerEvent {
    /// The worker is to stop.
    Stop,
    Command,
    /// Nobody can send commands any more.
    Closed,
    Tick,
}

/// What a worker does then.
#[derive(Debug, Clone, Copy, PartialEq, Eq, Structural)]
pub enum WorkerAction {
    HandleCommand,
    HandleTick,
    /// Clean up and end; commands that wait are discarded.
    CleanUp,
}

/// What a worker does. Once it is to stop, nothing else counts.
pub fn worker_step(stopped: bool, event: WorkerEvent) -> (action: WorkerAction)
    ensures
        action == (if stopped || event == WorkerEvent::Stop || event == WorkerEvent::Closed {
            WorkerAction::CleanUp
        } else if event == WorkerEvent::Command {
            WorkerAction::HandleCommand
        } else {
            WorkerAction::HandleTick
        }),
{
    if stopped {
        return WorkerAction::CleanUp;
    }
    match event {
        WorkerEvent::Stop => WorkerAction::CleanUp,
        WorkerEvent::Closed => WorkerAction::CleanUp,
        WorkerEvent::Command => WorkerAction::HandleCommand,
        WorkerEvent::Tick => WorkerAction::HandleTick,
    }
}

} // verus!
