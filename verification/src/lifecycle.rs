//! The life of a container as the manager follows it: unknown until it is
//! created, then created, running or stopped, and removed for good.

use vstd::prelude::*;
use crate::records::{Container, ContainerRecord};
use crate::text::{contains_chars, occurs, to_chars};

verus! {

/// Where a container stands in its life.
#[derive(Clone, Copy, Debug, PartialEq, Eq, Structural)]
pub enum ContainerState {
    /// The runtime has no container of that name.
    Unknown,
    /// The container exists and was never started.
    Created,
    /// The container runs.
    Running,
    /// The container ran and was stopped.
    Stopped,
    /// The container was removed. Nothing follows.
    Removed,
}

/// What can be done to a container.
#[derive(Clone, Copy, Debug, PartialEq, Eq, Structural)]
pub enum Change {
    Create,
    Start,
    Stop,
    Remove,
}

/// The state that a change leads to; none where the change does not apply.
/// A container is created out of nothing only; it runs once started, is
/// stopped once a running container is stopped, and can be removed in every
/// state in which it exists.
pub open spec fn next_state(state: ContainerState, change: Change) -> Option<ContainerState> {
    match (state, change) {
        (ContainerState::Unknown, Change::Create) => Some(ContainerState::Created),
        (ContainerState::Created, Change::Start) => Some(ContainerState::Running),
        (ContainerState::Stopped, Change::Start) => Some(ContainerState::Running),
        (ContainerState::Running, Change::Stop) => Some(ContainerState::Stopped),
        (ContainerState::Created, Change::Remove) => Some(ContainerState::Removed),
        (ContainerState::Running, Change::Remove) => Some(ContainerState::Removed),
        (ContainerState::Stopped, Change::Remove) => Some(ContainerState::Removed),
        _ => None,
    }
}

/// The state that a change leads to.
pub fn apply(state: ContainerState, change: Change) -> (next: Option<ContainerState>)
    ensures
        next == next_state(state, change),
{
    match state {
        ContainerState::Unknown => match change {
            Change::Create => Some(ContainerState::Created),
            _ => None,
        },
        ContainerState::Created => match change {
            Change::Start => Some(ContainerState::Running),
            Change::Remove => Some(ContainerState::Removed),
            _ => None,
        },
        ContainerState::Running => match change {
            Change::Stop => Some(ContainerState::Stopped),
            Change::Remove => Some(ContainerState::Removed),
            _ => None,
        },
        ContainerState::Stopped => match change {
            Change::Start => Some(ContainerState::Running),
            Change::Remove => Some(ContainerState::Removed),
            _ => None,
        },
        ContainerState::Removed => None,
    }
}

/// The state that a listed container is in, going by its status: running
/// when the status mentions `Up`, created when it mentions `Created`, and
/// stopped otherwise.
pub open spec fn listed_state(record: ContainerRecord) -> ContainerState {
    if record.running() {
        ContainerState::Running
    } else if occurs(record.status, "Created"@) {
        ContainerState::Created
    } else {
        ContainerState::Stopped
    }
}

/// The state that a listed container is in.
pub fn state_of(container: &Container) -> (state: ContainerState)
    ensures
        state == listed_state(container@),
{
    if container.is_running() {
        ContainerState::Running
    } else {
        let status = to_chars(container.status.as_str());
        let mark = to_chars("Created");
        if contains_chars(&status, &mark) {
            ContainerState::Created
        } else {
            ContainerState::Stopped
        }
    }
}

/// What can be asked for on a listed container at a glance.
#[derive(Clone, Copy, Debug, PartialEq, Eq, Structural)]
pub struct QuickActions {
    pub start: bool,
    pub stop: bool,
    pub terminal: bool,
    pub remove: bool,
}

/// A running container can be stopped and entered, any other can be
/// started, and both can be removed.
pub open spec fn actions_offered(record: ContainerRecord) -> QuickActions {
    QuickActions {
        start: !record.running(),
        stop: record.running(),
        terminal: record.running(),
        remove: true,
    }
}

/// What can be asked for on a listed container.
pub fn quick_actions(container: &Container) -> (offered: QuickActions)
    ensures
        offered == actions_offered(container@),
{
    let running = container.is_running();
    QuickActions { start: !running, stop: running, terminal: running, remove: true }
}

/// A removed container stays removed, a container is created out of nothing
/// only, and every container that exists can be removed.
pub proof fn lemma_life_of_a_container(state: ContainerState, change: Change)
    ensures
        next_state(ContainerState::Removed, change) is None,
        next_state(state, Change::Create) is Some <==> state == ContainerState::Unknown,
        next_state(state, Change::Remove) is Some <==> (state == ContainerState::Created || state
            == ContainerState::Running || state == ContainerState::Stopped),
        next_state(state, change) != Some(ContainerState::Unknown),
        next_state(state, change) == Some(ContainerState::Running) ==> change == Change::Start,
        next_state(state, change) == Some(ContainerState::Stopped) ==> state
            == ContainerState::Running && change == Change::Stop,
{
}

} // verus!
