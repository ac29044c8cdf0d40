use vstd::prelude::*;
use crate::location::clone_text;

verus! {

/// Asks the interface daemon for a configured tunnel device.
#[derive(Debug)]
pub struct CreateInterfaceRequest {
    pub name: String,
    pub local_address: String,
    pub own_private_key: String,
    pub peer_pubkey: String,
    pub peer_endpoint: String,
    pub allowed_ips: String,
    pub dns: Option<String>,
    pub keepalive: Option<u16>,
}

impl Clone for CreateInterfaceRequest {
    fn clone(&self) -> (copy: Self)
        ensures
            copy == *self,
    {
        CreateInterfaceRequest {
            name: self.name.clone(),
            local_address: self.local_address.clone(),
            own_private_key: self.own_private_key.clone(),
            peer_pubkey: self.peer_pubkey.clone(),
            peer_endpoint: self.peer_endpoint.clone(),
            allowed_ips: self.allowed_ips.clone(),
            dns: clone_text(&self.dns),
            keepalive: self.keepalive,
        }
    }
}

/// Asks the interface daemon to tear a tunnel device down.
#[derive(Debug)]
pub struct RemoveInterfaceRequest {
    pub interface_name: String,
}

/// The daemon's answer to a `CreateInterfaceRequest`.
#[derive(Clone, Copy, Debug, PartialEq, Eq, Structural)]
pub enum CreateOutcome {
    /// The device exists now and is configured as asked.
    Created,
    /// A device of that name was there before the request.
    AlreadyExists,
    /// The request cannot be turned into a device configuration.
    InvalidConfiguration,
    /// The operating system refused or failed.
    OsFailure,
}

/// The daemon's answer to a `RemoveInterfaceRequest`.
#[derive(Clone, Copy, Debug, PartialEq, Eq, Structural)]
pub enum RemoveOutcome {
    /// The device and its routes are gone.
    Removed,
    /// No device of that name exists.
    NotFound,
    /// The operating system refused or failed.
    OsFailure,
}

/// What the protocol client hands back for one request.
#[derive(Debug)]
pub enum Reply<T> {
    /// The daemon answered.
    Answered(T),
    /// The daemon could not be reached; nothing was applied.
    Unreachable,
}

/// A request as the daemon receives it.
#[derive(Debug)]
pub enum DaemonRequest {
    Create(CreateInterfaceRequest),
    Remove(RemoveInterfaceRequest),
}

/// The daemon's answer to a request.
#[derive(Clone, Copy, Debug, PartialEq, Eq, Structural)]
pub enum DaemonReply {
    Create(CreateOutcome),
    Remove(RemoveOutcome),
}

/// What the daemon asks of the operating system.
#[derive(Debug)]
pub enum OsCall {
    /// Make a tunnel device of this name.
    CreateDevice(String),
    /// Give the device its address, key, peer, routes and DNS.
    Configure(CreateInterfaceRequest),
    /// Delete the device of this name with its routes.
    DeleteDevice(String),
}

/// What the operating system answers.
#[derive(Clone, Copy, Debug, PartialEq, Eq, Structural)]
pub enum OsAnswer {
    Done,
    /// A device of that name is there already.
    AlreadyExists,
    /// No device of that name is there.
    NoSuchDevice,
    /// What was asked cannot be applied as it is written.
    InvalidArgument,
    /// Permission was denied, or the call failed otherwise.
    Failed,
}

/// How far the daemon has come with a request that is not answered yet. The
/// daemon keeps nothing from one request to the next.
#[derive(Debug)]
pub enum Handling {
    /// The device is being made.
    Creating(CreateInterfaceRequest),
    /// The device was made and is being configured.
    Configuring(CreateInterfaceRequest),
    /// Configuring failed; the device that was made is being deleted, and the
    /// client will hear this outcome.
    Undoing(CreateOutcome),
    /// The device is being deleted on request.
    Removing,
}

/// What the daemon does next: ask the operating system and go on from
/// `then` with its answer, or answer the client.
#[derive(Debug)]
pub enum DaemonStep {
    Call { call: OsCall, then: Handling },
    Reply(DaemonReply),
}

/// The first step for a request: a device is made or deleted.
pub open spec fn first_step(request: DaemonRequest) -> DaemonStep {
    match request {
        DaemonRequest::Create(config) => DaemonStep::Call {
            call: OsCall::CreateDevice(config.name),
            then: Handling::Creating(config),
        },
        DaemonRequest::Remove(removal) => DaemonStep::Call {
            call: OsCall::DeleteDevice(removal.interface_name),
            then: Handling::Removing,
        },
    }
}

/// The outcome of a create whose device could not be made or configured.
pub open spec fn create_failure(answer: OsAnswer) -> CreateOutcome {
    match answer {
        OsAnswer::AlreadyExists => CreateOutcome::AlreadyExists,
        OsAnswer::InvalidArgument => CreateOutcome::InvalidConfiguration,
        _ => CreateOutcome::OsFailure,
    }
}

/// The outcome of a remove.
pub open spec fn remove_outcome(answer: OsAnswer) -> RemoveOutcome {
    match answer {
        OsAnswer::Done => RemoveOutcome::Removed,
        OsAnswer::NoSuchDevice => RemoveOutcome::NotFound,
        _ => RemoveOutcome::OsFailure,
    }
}

/// The step that follows an answer of the operating system. A device that
/// was made and cannot be configured is deleted again before the client
/// hears of the failure.
pub open spec fn next_step(handling: Handling, answer: OsAnswer) -> DaemonStep {
    match handling {
        Handling::Creating(config) => if answer == OsAnswer::Done {
            DaemonStep::Call {
                call: OsCall::Configure(config),
                then: Handling::Configuring(config),
            }
        } else {
            DaemonStep::Reply(DaemonReply::Create(create_failure(answer)))
        },
        Handling::Configuring(config) => if answer == OsAnswer::Done {
            DaemonStep::Reply(DaemonReply::Create(CreateOutcome::Created))
        } else {
            DaemonStep::Call {
                call: OsCall::DeleteDevice(config.name),
                then: Handling::Undoing(create_failure(answer)),
            }
        },
        Handling::Undoing(outcome) => DaemonStep::Reply(DaemonReply::Create(outcome)),
        Handling::Removing => DaemonStep::Reply(DaemonReply::Remove(remove_outcome(answer))),
    }
}

fn failure_of(answer: OsAnswer) -> (outcome: CreateOutcome)
    ensures
        outcome == create_failure(answer),
{
    match answer {
        OsAnswer::AlreadyExists => CreateOutcome::AlreadyExists,
        OsAnswer::InvalidArgument => CreateOutcome::InvalidConfiguration,
        _ => CreateOutcome::OsFailure,
    }
}

/// Takes a request up.
pub fn begin(request: DaemonRequest) -> (step: DaemonStep)
    ensures
        step == first_step(request),
{
    match request {
        DaemonRequest::Create(config) => {
            let name = config.name.clone();
            DaemonStep::Call { call: OsCall::CreateDevice(name), then: Handling::Creating(config) }
        },
        DaemonRequest::Remove(removal) => DaemonStep::Call {
            call: OsCall::DeleteDevice(removal.interface_name),
            then: Handling::Removing,
        },
    }
}

/// Goes on with a request once the operating system has answered.
pub fn resume(handling: Handling, answer: OsAnswer) -> (step: DaemonStep)
    ensures
        step == next_step(handling, answer),
{
    match handling {
        Handling::Creating(config) => {
            if answer == OsAnswer::Done {
                let copy = config.clone();
                DaemonStep::Call {
                    call: OsCall::Configure(copy),
                    then: Handling::Configuring(config),
                }
            } else {
                DaemonStep::Reply(DaemonReply::Create(failure_of(answer)))
            }
        },
        Handling::Configuring(config) => {
            if answer == OsAnswer::Done {
                DaemonStep::Reply(DaemonReply::Create(CreateOutcome::Created))
            } else {
                DaemonStep::Call {
                    call: OsCall::DeleteDevice(config.name),
                    then: Handling::Undoing(failure_of(answer)),
                }
            }
        },
        Handling::Undoing(outcome) => DaemonStep::Reply(DaemonReply::Create(outcome)),
        Handling::Removing => {
            let outcome = match answer {
                OsAnswer::Done => RemoveOutcome::Removed,
                OsAnswer::NoSuchDevice => RemoveOutcome::NotFound,
                _ => RemoveOutcome::OsFailure,
            };
            DaemonStep::Reply(DaemonReply::Remove(outcome))
        },
    }
}

/// What the protocol client makes of an exchange with the daemon: the
/// daemon's outcome where an answer to a create came back, `Unreachable`
/// where none came or the answer is to something else.
pub fn create_reply(answer: Option<DaemonReply>) -> (reply: Reply<CreateOutcome>)
    ensures
        reply == (match answer {
            Some(DaemonReply::Create(outcome)) => Reply::Answered(outcome),
            _ => Reply::Unreachable,
        }),
{
    match answer {
        Some(DaemonReply::Create(outcome)) => Reply::Answered(outcome),
        _ => Reply::Unreachable,
    }
}

/// What the protocol client makes of an exchange with the daemon: the
/// daemon's outcome where an answer to a remove came back, `Unreachable`
/// where none came or the answer is to something else.
pub fn remove_reply(answer: Option<DaemonReply>) -> (reply: Reply<RemoveOutcome>)
    ensures
        reply == (match answer {
            Some(DaemonReply::Remove(outcome)) => Reply::Answered(outcome),
            _ => Reply::Unreachable,
        }),
{
    match answer {
        Some(DaemonReply::Remove(outcome)) => Reply::Answered(outcome),
        _ => Reply::Unreachable,
    }
}

/// The daemon's answer to a remove, given what the operating system said to
/// the deletion of the device.
pub open spec fn remove_run(removal: RemoveInterfaceRequest, deleted: OsAnswer) -> DaemonStep {
    match first_step(DaemonRequest::Remove(removal)) {
        DaemonStep::Call { then, .. } => next_step(then, deleted),
        DaemonStep::Reply(reply) => DaemonStep::Reply(reply),
    }
}

/// Removing an interface that does not exist is answered with `NotFound`,
/// which is no success: the daemon says `Removed` only where the operating
/// system deleted the device.
pub proof fn lemma_remove_missing(removal: RemoveInterfaceRequest, deleted: OsAnswer)
    ensures
        first_step(DaemonRequest::Remove(removal)) == (DaemonStep::Call {
            call: OsCall::DeleteDevice(removal.interface_name),
            then: Handling::Removing,
        }),
        deleted == OsAnswer::NoSuchDevice ==> remove_run(removal, deleted) == DaemonStep::Reply(
            DaemonReply::Remove(RemoveOutcome::NotFound),
        ),
        remove_run(removal, deleted) == DaemonStep::Reply(
            DaemonReply::Remove(RemoveOutcome::Removed),
        ) <==> deleted == OsAnswer::Done,
{
}

/// A create is answered with `Created` only where the device was made and
/// configured. Where it was made and could not be configured, the daemon
/// deletes it before it answers, and the answer tells why: an existing device,
/// an invalid configuration, or a failure of the operating system.
pub proof fn lemma_create_all_or_nothing(
    config: CreateInterfaceRequest,
    made: OsAnswer,
    configured: OsAnswer,
    undone: OsAnswer,
)
    ensures
        first_step(DaemonRequest::Create(config)) == (DaemonStep::Call {
            call: OsCall::CreateDevice(config.name),
            then: Handling::Creating(config),
        }),
        made != OsAnswer::Done ==> next_step(Handling::Creating(config), made)
            == DaemonStep::Reply(DaemonReply::Create(create_failure(made))),
        made == OsAnswer::Done ==> next_step(Handling::Creating(config), made) == (
        DaemonStep::Call {
            call: OsCall::Configure(config),
            then: Handling::Configuring(config),
        }),
        next_step(Handling::Configuring(config), configured) == DaemonStep::Reply(
            DaemonReply::Create(CreateOutcome::Created),
        ) <==> configured == OsAnswer::Done,
        configured != OsAnswer::Done ==> next_step(Handling::Configuring(config), configured) == (
        DaemonStep::Call {
            call: OsCall::DeleteDevice(config.name),
            then: Handling::Undoing(create_failure(configured)),
        }) && next_step(Handling::Undoing(create_failure(configured)), undone)
            == DaemonStep::Reply(DaemonReply::Create(create_failure(configured))),
        create_failure(made) != CreateOutcome::Created,
{
}

} // verus!
