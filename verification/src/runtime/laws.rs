//! What holds of a runtime over several steps.
use tokio::task::Id;
use tokio_util::sync::CancellationToken;
use vstd::prelude::*;
use vstd::string::*;

use super::command::rejected;
use super::ending::{all_rejected, told_to_stop};
use super::entry::ServiceModel;
use super::task::{ServiceExit, TaskIdentity};
use super::turn::{RuntimeEvent, Turn};
use super::{
    are_launches_of, is_clone, is_duplicate, is_launch_of, name_keys, next_generation, refusal,
    taken_over, CommandOutcome, Completion, Launch, PendingReload, Reply, Runtime, StartFindings,
};
use crate::cancellation::{
    is_child, known_cancelled, law_cancelling_is_known, law_child_of_cancelled_is_cancelled,
};
use crate::permutation::{is_permutation, lemma_permutation_is_complete};
use crate::registry::error::Error;
use crate::registry::{
    law_listed_provider_is_runnable, law_tasks_start_by_priority, Registry, RunnableEntry,
};
use crate::service::{
    reply_or_unavailable, restart, RestartEvent, RestartStep, ServiceCommand, ServiceManagerError, ServiceSnapshot, ServiceStartPolicy, ServiceStatus,
    SnapshotView,
};
use crate::sorting::{bytes_le, is_sorted, key_le};
use crate::state::{gives_shutdown_token, gives_shutting_down, SharedState};

verus! {

/// A command never takes a service away, renames it or turns its counters back: the
/// generation grows by one where a new one is started and stays otherwise.
pub proof fn law_generations_only_grow<S: SharedState, L, R>(
    before: Runtime<S, R>,
    command: ServiceCommand<L, R>,
    after: Runtime<S, R>,
    outcome: CommandOutcome<S, L, R>,
    i: int,
)
    requires
        before.wf(),
        before.on_command(command, after, outcome),
        0 <= i < before.services().len(),
    ensures
        after.services().len() == before.services().len(),
        after.services()[i].name == before.services()[i].name,
        after.services()[i].position == before.services()[i].position,
        after.services()[i].reload_revision == before.services()[i].reload_revision,
        after.services()[i].generation == before.services()[i].generation || (outcome is Started
            && before.services()[i].is_idle() && after.services()[i].generation
            == before.services()[i].generation + 1),
{
    if !before.is_shutting_down() {
        match command {
            ServiceCommand::List { .. } => {},
            ServiceCommand::Start { name, reply } => {
                if before.knows(name@) {
                    assert(before.is_at(name@, before.place(name@)));
                }
            },
            ServiceCommand::Stop { name, reply } => {
                if before.knows(name@) {
                    assert(before.is_at(name@, before.place(name@)));
                }
            },
            ServiceCommand::Reload { .. } => {},
        }
    }
}

/// Every service that runs after the runnable providers have been taken over has a launch
/// of its own, with its name, its generation and its scope.
pub proof fn law_running_service_is_launched<S: SharedState, R>(
    launches: Seq<Launch<S>>,
    services: Seq<ServiceModel<S, R>>,
    state: S,
    i: int,
)
    requires
        are_launches_of(launches, services, state),
        0 <= i < services.len(),
        services[i].status is Running,
    ensures
        exists|k: int|
            0 <= k < launches.len() && #[trigger] is_launch_of(launches[k], services[i], state),
    decreases services.len(),
{
    if i == services.len() - 1 {
        assert(is_launch_of(launches[launches.len() - 1], services[i], state));
    } else if services.last().status is Running {
        law_running_service_is_launched(launches.drop_last(), services.drop_last(), state, i);
        let k = choose|k: int|
            0 <= k < launches.len() - 1 && #[trigger] is_launch_of(
                launches.drop_last()[k],
                services[i],
                state,
            );
        assert(is_launch_of(launches[k], services[i], state));
    } else {
        law_running_service_is_launched(launches, services.drop_last(), state, i);
    }
}

/// No command is lost: the one who sent it is answered at once, or is answered with the
/// generation that was started, or waits for the end of the live generation, or waits for
/// a reload.
pub proof fn law_no_command_is_lost<S: SharedState, L, R>(
    before: Runtime<S, R>,
    command: ServiceCommand<L, R>,
    after: Runtime<S, R>,
    outcome: CommandOutcome<S, L, R>,
)
    requires
        before.wf(),
        before.on_command(command, after, outcome),
    ensures
        match command {
            ServiceCommand::List { reply } => outcome matches CommandOutcome::List {
                reply: to,
                ..
            } && to == reply,
            ServiceCommand::Start { name, reply } => is_answered(name, reply, after, outcome),
            ServiceCommand::Stop { name, reply } => is_answered(name, reply, after, outcome),
            ServiceCommand::Reload { name, reply } => is_answered(name, reply, after, outcome),
        },
{
    if !before.is_shutting_down() {
        match command {
            ServiceCommand::Stop { name, reply } => {
                if before.knows(name@) {
                    let at = before.place(name@);
                    assert(before.is_at(name@, at));
                    if outcome is Waiting {
                        assert(after.is_at(name@, at));
                        assert(after.services()[at].stop_waiters.last() == reply);
                    }
                }
            },
            _ => {},
        }
    }
}

/// `reply` is answered by `outcome`, or will be: it waits last in the line of the service
/// called `name`, or for a reload.
pub open spec fn is_answered<S: SharedState, L, R>(
    name: String,
    reply: R,
    after: Runtime<S, R>,
    outcome: CommandOutcome<S, L, R>,
) -> bool {
    match outcome {
        CommandOutcome::List { .. } => false,
        CommandOutcome::Answer { reply: to, .. } => to == reply,
        CommandOutcome::Started { reply: to, .. } => to == reply,
        CommandOutcome::Waiting => exists|at: int| #[trigger]
            after.is_at(name@, at) && after.services()[at].stop_waiters.len() > 0
                && after.services()[at].stop_waiters.last() == reply,
        CommandOutcome::Reloading(pending) => pending.reply == reply,
    }
}

/// Once shutdown has begun, every command is refused and changes nothing, and no
/// generation can be started, whatever is found out about the service.
pub proof fn law_shutdown_refuses_everything<S: SharedState, L, R>(
    before: Runtime<S, R>,
    shut: Runtime<S, R>,
    command: ServiceCommand<L, R>,
    after: Runtime<S, R>,
    outcome: CommandOutcome<S, L, R>,
)
    requires
        before.shut_down(shut),
        shut.on_command(command, after, outcome),
    ensures
        after == shut,
        outcome == rejected::<S, L, R>(command, ServiceManagerError::ShuttingDown),
        forall|at: int, allow: bool, findings: StartFindings<S>|
            #[trigger] shut.refusal(at, allow, findings) == Some(
                "service runtime is shutting down"@,
            ),
{
}

/// Shutdown reaches every service: none is left running, and every scope that was live
/// is cancelled. Who waits for a service keeps waiting for its end.
pub proof fn law_shutdown_stops_every_service<S: SharedState, R>(
    before: Runtime<S, R>,
    after: Runtime<S, R>,
    i: int,
)
    requires
        before.shut_down(after),
        0 <= i < after.services().len(),
    ensures
        after.services()[i].status !is Running,
        after.services()[i].stop_waiters == before.services()[i].stop_waiters,
        after.services()[i].generation == before.services()[i].generation,
        after.services()[i].cancellation is Some <==> before.services()[i].cancellation is Some,
        after.services()[i].cancellation matches Some(scope) ==> known_cancelled(scope),
{
    assert(told_to_stop(before.services()[i], after.services()[i]));
    if let (Some(live), Some(scope)) = (
        before.services()[i].cancellation,
        after.services()[i].cancellation,
    ) {
        law_cancelling_is_known(live, scope, true);
    }
}

/// A generation that is started below a scope which is known to be cancelled runs in a
/// scope which is known to be cancelled: it sees at once that it has to stop.
pub proof fn law_late_generation_starts_cancelled<S: SharedState, R>(
    before: Runtime<S, R>,
    at: int,
    allow: bool,
    findings: StartFindings<S>,
    after: Runtime<S, R>,
    launch: Launch<S>,
    snapshot: SnapshotView,
)
    requires
        before.starts_generation(at, allow, findings, after, Ok((launch, snapshot))),
        known_cancelled(findings.parent),
    ensures
        known_cancelled(launch.cancellation),
{
    law_child_of_cancelled_is_cancelled(findings.parent, launch.cancellation);
}

/// Nobody who waits for the end of a generation is forgotten: each one is answered once,
/// in the order in which they came, and none is left waiting.
pub proof fn law_every_waiter_is_answered<S: SharedState, R>(
    before: Runtime<S, R>,
    exit: ServiceExit,
    after: Runtime<S, R>,
    completion: Completion<R>,
    at: int,
)
    requires
        before.wf(),
        before.on_exit(exit, after, completion),
        before.is_at(exit.name@, at),
        before.services()[at].generation == exit.generation,
    ensures
        completion.replies@.len() == before.services()[at].stop_waiters.len(),
        forall|k: int|
            0 <= k < completion.replies@.len() ==> (#[trigger] completion.replies@[k]).to
                == before.services()[at].stop_waiters[k],
        after.services()[at].stop_waiters.len() == 0,
        after.services()[at].is_idle(),
{
    before.lemma_place_is_unique(exit.name@, at);
}

/// The end of a generation that is not the current one changes nothing, answers nobody
/// and is an error.
pub proof fn law_stale_end_changes_nothing<S: SharedState, R>(
    before: Runtime<S, R>,
    exit: ServiceExit,
    after: Runtime<S, R>,
    completion: Completion<R>,
    at: int,
)
    requires
        before.wf(),
        before.on_exit(exit, after, completion),
        before.is_at(exit.name@, at),
        before.services()[at].generation != exit.generation,
    ensures
        after == before,
        completion.replies@.len() == 0,
        completion.result is Err,
{
    before.lemma_place_is_unique(exit.name@, at);
}

/// Stop, then start: when the live generation of a service is told to stop and has
/// ended without an error, a start that is not refused runs the next generation, and no
/// earlier one.
pub proof fn law_restart_runs_the_next_generation<S: SharedState, L, R>(
    running: Runtime<S, R>,
    name: String,
    reply: R,
    stopping: Runtime<S, R>,
    waiting: CommandOutcome<S, L, R>,
    exit: ServiceExit,
    stopped: Runtime<S, R>,
    completion: Completion<R>,
    again: R,
    restarted: Runtime<S, R>,
    outcome: CommandOutcome<S, L, R>,
    at: int,
)
    requires
        running.wf(),
        stopping.wf(),
        stopped.wf(),
        running.is_at(name@, at),
        running.services()[at].status is Running,
        running.on_stop(name, reply, stopping, waiting),
        exit.name@ == name@,
        exit.generation == running.services()[at].generation,
        exit.result is Ok,
        stopping.on_exit(exit, stopped, completion),
        stopped.on_start(name, again, restarted, outcome),
        outcome is Started,
    ensures
        waiting is Waiting,
        stopping.services()[at].status is Stopping,
        stopped.services()[at].status is Stopped,
        restarted.services()[at].status is Running,
        restarted.services()[at].generation == running.services()[at].generation + 1,
{
    running.lemma_place_is_unique(name@, at);
    assert(stopping.is_at(name@, at));
    stopping.lemma_place_is_unique(name@, at);
    assert(stopped.is_at(name@, at));
    stopped.lemma_place_is_unique(name@, at);
}

/// A service that is stopped answers a stop at once: asking twice is the same as once.
pub proof fn law_stop_is_idempotent<S: SharedState, L, R>(
    before: Runtime<S, R>,
    name: String,
    reply: R,
    after: Runtime<S, R>,
    outcome: CommandOutcome<S, L, R>,
    at: int,
)
    requires
        before.wf(),
        before.is_at(name@, at),
        before.services()[at].is_idle(),
        before.on_stop(name, reply, after, outcome),
    ensures
        after == before,
        outcome matches CommandOutcome::Answer { reply: to, result } && to == reply && result is Ok,
{
    before.lemma_place_is_unique(name@, at);
}

/// A completed targeted reload advances the revision of its service by one, whether or not
/// it succeeded, and leaves the live generation and the other services alone.
pub proof fn law_reload_advances_the_revision<S: SharedState, R>(
    before: Runtime<S, R>,
    pending: PendingReload<S, R>,
    result: Result<(), Error>,
    after: Runtime<S, R>,
    i: int,
)
    requires
        before.finishes_reload(pending, result, after),
        0 <= i < before.services().len(),
    ensures
        after.services().len() == before.services().len(),
        i != pending.at ==> after.services()[i] == before.services()[i],
        i == pending.at ==> {
            &&& after.services()[i].reload_revision == before.services()[i].reload_revision + 1
            &&& after.services()[i].last_reload_error is Some <==> result is Err
            &&& after.services()[i].name == before.services()[i].name
            &&& after.services()[i].generation == before.services()[i].generation
            &&& after.services()[i].status == before.services()[i].status
            &&& after.services()[i].cancellation == before.services()[i].cancellation
        },
{
}

/// A reload that was asked for is due until another one of the same service is completed:
/// no command comes between.
pub proof fn law_pending_reload_is_due<S: SharedState, L, R>(
    before: Runtime<S, R>,
    name: String,
    reply: R,
    pending: PendingReload<S, R>,
    command: ServiceCommand<L, R>,
    after: Runtime<S, R>,
    outcome: CommandOutcome<S, L, R>,
)
    requires
        before.wf(),
        before.knows(name@),
        before.is_reload_of(before.place(name@), name, reply, pending),
        before.on_command(command, after, outcome),
    ensures
        before.is_due(pending),
        after.is_due(pending),
{
    let at = before.place(name@);
    assert(before.is_at(name@, at));
    law_generations_only_grow(before, command, after, outcome, at);
}

/// Of two reloads that were asked for at the same moment only one can be completed: the
/// other is not due any more, so that no revision is counted twice or set back.
pub proof fn law_reload_is_completed_once<S: SharedState, R>(
    before: Runtime<S, R>,
    first: PendingReload<S, R>,
    result: Result<(), Error>,
    after: Runtime<S, R>,
    second: PendingReload<S, R>,
)
    requires
        before.finishes_reload(first, result, after),
        before.is_due(second),
        second.at == first.at,
    ensures
        !after.is_due(second),
{
}

/// A list has every service in it once, in strictly rising order of names.
pub proof fn law_list_is_sorted_by_name<S: SharedState, R>(
    runtime: Runtime<S, R>,
    order: Seq<usize>,
    i: int,
    j: int,
)
    requires
        runtime.wf(),
        is_permutation(order, runtime.services().len()),
        is_sorted(name_keys(runtime.services()), order),
        0 <= i < j < order.len(),
    ensures
        runtime.services()[order[i] as int].name@ != runtime.services()[order[j] as int].name@,
        key_le(
            (0u8, runtime.services()[order[i] as int].name),
            (0u8, runtime.services()[order[j] as int].name),
        ),
{
    runtime.lemma_names_differ(order[i] as int, order[j] as int);
    assert(name_keys(runtime.services())[order[i] as int] == (
        0u8,
        runtime.services()[order[i] as int].name,
    ));
}

/// Stopping one service is no business of the others: the services of other names are left
/// exactly as they were, and no scope of theirs is cancelled. The scope of a service that was
/// running is cancelled, and known to be.
pub proof fn law_stop_ends_its_own_scope_only<S: SharedState, L, R>(
    before: Runtime<S, R>,
    name: String,
    reply: R,
    after: Runtime<S, R>,
    outcome: CommandOutcome<S, L, R>,
    i: int,
)
    requires
        before.wf(),
        before.on_command(ServiceCommand::Stop { name, reply }, after, outcome),
        0 <= i < before.services().len(),
    ensures
        after.services().len() == before.services().len(),
        before.services()[i].name@ != name@ ==> after.services()[i] == before.services()[i],
        before.services()[i].name@ != name@ ==> after.services()[i].ended
            == before.services()[i].ended,
        before.services()[i].name@ == name@ && !before.is_shutting_down()
            && before.services()[i].status is Running ==> {
            &&& !before.services()[i].ended
            &&& after.services()[i].ended
            &&& after.services()[i].status is Stopping
            &&& after.services()[i].cancellation matches Some(scope)
            &&& known_cancelled(scope)
        },
        before.services()[i].name@ == name@ && (before.services()[i].status is Stopped
            || before.services()[i].status is Failed) ==> after == before,
{
    if !before.is_shutting_down() && before.knows(name@) {
        let at = before.place(name@);
        assert(before.is_at(name@, at));
        if before.services()[i].name@ == name@ {
            assert(before.is_at(name@, i));
            before.lemma_place_is_unique(name@, i);
            if before.services()[i].status is Running {
                before.lemma_services_are_valid(i);
                let live = before.services()[i].cancellation->Some_0;
                let scope = after.services()[i].cancellation->Some_0;
                law_cancelling_is_known(live, scope, true);
            }
        }
    } else if before.services()[i].name@ == name@ {
        assert(before.is_at(name@, i));
    }
}


/// Nothing but a stop ends a scope: a command after which the scope of a service is cancelled
/// by the runtime, and was not before, is a stop of that very service while it was running. The
/// scope of a service that runs after a command has not been cancelled by the runtime.
pub proof fn law_only_a_stop_ends_a_scope<S: SharedState, L, R>(
    before: Runtime<S, R>,
    command: ServiceCommand<L, R>,
    after: Runtime<S, R>,
    outcome: CommandOutcome<S, L, R>,
    i: int,
)
    requires
        before.wf(),
        after.wf(),
        before.on_command(command, after, outcome),
        0 <= i < before.services().len(),
    ensures
        after.services()[i].ended && !before.services()[i].ended ==> {
            &&& command matches ServiceCommand::Stop { name, .. }
            &&& name@ == before.services()[i].name@
            &&& before.services()[i].status is Running
        },
        after.services()[i].status is Running ==> !after.services()[i].ended,
        before.services()[i].status is Running && after.services()[i].status !is Running ==> (
        command matches ServiceCommand::Stop { name, .. } && name@ == before.services()[i].name@),
        before.services()[i].status is Running && after.services()[i].status is Running
            ==> after.services()[i] == before.services()[i],
{
    law_generations_only_grow(before, command, after, outcome, i);
    after.lemma_services_are_valid(i);
    before.lemma_services_are_valid(i);
    if !before.is_shutting_down() {
        match command {
            ServiceCommand::Start { name, .. } => {
                if before.knows(name@) {
                    assert(before.is_at(name@, before.place(name@)));
                }
            },
            ServiceCommand::Stop { name, .. } => {
                if before.knows(name@) {
                    assert(before.is_at(name@, before.place(name@)));
                }
            },
            _ => {},
        }
    }
}

/// A targeted reload ends no scope: after it the scope of every service is the one it was, and
/// has been cancelled by the runtime exactly if it had been before. The live generation goes on
/// as it was, and a service that was running is running.
pub proof fn law_reload_ends_no_scope<S: SharedState, R>(
    before: Runtime<S, R>,
    pending: PendingReload<S, R>,
    result: Result<(), Error>,
    after: Runtime<S, R>,
    i: int,
)
    requires
        before.finishes_reload(pending, result, after),
        0 <= i < before.services().len(),
    ensures
        after.services()[i].ended == before.services()[i].ended,
        after.services()[i].cancellation == before.services()[i].cancellation,
        after.services()[i].status == before.services()[i].status,
        after.services()[i].generation == before.services()[i].generation,
        after.services()[i].last_error == before.services()[i].last_error,
        after.services()[i].stop_waiters == before.services()[i].stop_waiters,
        after.is_shutting_down() == before.is_shutting_down(),
        after.state() == before.state(),
        i == pending.at && result is Ok ==> after.services()[i].last_reload_error is None,
        i == pending.at ==> (result matches Err(error) ==> after.services()[i].last_reload_error
            == Some(error.reload_error(before.services()[i].name).display())),
{
}

/// The end of a task ends no scope of another service, starts nothing and counts nothing: the
/// services of other names are left exactly as they were, and the one whose generation ended
/// keeps its counters and has no scope any more.
pub proof fn law_end_touches_its_service_only<S: SharedState, R>(
    before: Runtime<S, R>,
    exit: ServiceExit,
    after: Runtime<S, R>,
    completion: Completion<R>,
    i: int,
)
    requires
        before.wf(),
        before.on_exit(exit, after, completion),
        0 <= i < before.services().len(),
    ensures
        after.services().len() == before.services().len(),
        after.services()[i].generation == before.services()[i].generation,
        after.services()[i].reload_revision == before.services()[i].reload_revision,
        after.services()[i].last_reload_error == before.services()[i].last_reload_error,
        after.services()[i].name == before.services()[i].name,
        before.services()[i].name@ != exit.name@ ==> after.services()[i] == before.services()[i],
        before.services()[i].name@ == exit.name@ && before.services()[i].generation
            == exit.generation ==> {
            &&& after.services()[i].cancellation is None
            &&& !after.services()[i].ended
            &&& after.services()[i].status is Stopped <==> exit.result is Ok
            &&& after.services()[i].status is Failed <==> exit.result is Err
            &&& exit.result is Ok ==> after.services()[i].last_error is None
            &&& exit.result matches Err(error) ==> after.services()[i].last_error == Some(
                error.display(),
            )
        },
        after.is_shutting_down() == before.is_shutting_down(),
{
    if before.knows(exit.name@) {
        assert(before.is_at(exit.name@, before.place(exit.name@)));
    }
    if before.services()[i].name@ == exit.name@ {
        assert(before.is_at(exit.name@, i));
        before.lemma_place_is_unique(exit.name@, i);
    }
}

/// What those are told who waited for the end of a generation: after an end without an error
/// that the service is stopped, at the generation that they stopped; after a failure what it
/// was. A failure that is not recoverable brings the runtime down, a recoverable one does not.
pub proof fn law_waiters_learn_how_it_ended<S: SharedState, R>(
    before: Runtime<S, R>,
    exit: ServiceExit,
    after: Runtime<S, R>,
    completion: Completion<R>,
    at: int,
    k: int,
)
    requires
        before.wf(),
        before.on_exit(exit, after, completion),
        0 <= at < before.services().len(),
        before.services()[at].name@ == exit.name@,
        before.services()[at].generation == exit.generation,
        0 <= k < before.services()[at].stop_waiters.len(),
    ensures
        completion.replies@[k].to == before.services()[at].stop_waiters[k],
        exit.result is Ok ==> {
            &&& completion.replies@[k].result matches Ok(snapshot)
            &&& snapshot@.name == before.services()[at].name
            &&& snapshot@.status is Stopped
            &&& snapshot@.generation == exit.generation
            &&& snapshot@.last_error is None
            &&& snapshot@.reload_revision == before.services()[at].reload_revision
        },
        exit.result matches Err(error) ==> {
            &&& completion.replies@[k].result matches Err(failure)
            &&& failure matches ServiceManagerError::OperationFailed { name, message }
            &&& name@ == exit.name@
            &&& message@ == error.display()
        },
        exit.result is Ok ==> completion.result is Ok,
        exit.result matches Err(error) ==> (completion.result is Err <==> error !is Recoverable),
        exit.result matches Err(error) ==> (completion.result matches Err(fatal) ==> fatal
            == error),
{
    assert(before.is_at(exit.name@, at));
    before.lemma_place_is_unique(exit.name@, at);
    law_every_waiter_is_answered(before, exit, after, completion, at);
    assert(completion.replies@[k].to == before.services()[at].stop_waiters[k]);
}

/// A task that is lost fails the service whose live generation it ran, with the reason of the
/// loss, tells those who waited for it, and brings the runtime down. It touches no other
/// service and ends no scope.
pub proof fn law_lost_task_fails_its_service<S: SharedState, R>(
    before: Runtime<S, R>,
    id: Id,
    text: Seq<char>,
    after: Runtime<S, R>,
    completion: Completion<R>,
    identity: TaskIdentity,
    i: int,
)
    requires
        before.wf(),
        before.on_loss(id, text, after, completion),
        before.task(id) == Some(identity),
        0 <= i < before.services().len(),
    ensures
        completion.result matches Err(error) && error.says(text),
        after.task(id) is None,
        after.services().len() == before.services().len(),
        after.services()[i].ended == before.services()[i].ended,
        after.services()[i].cancellation == before.services()[i].cancellation,
        after.services()[i].generation == before.services()[i].generation,
        before.services()[i].name@ != identity.name@ || before.services()[i].generation
            != identity.generation ==> after.services()[i] == before.services()[i],
        before.services()[i].name@ == identity.name@ && before.services()[i].generation
            == identity.generation ==> {
            &&& after.services()[i].status is Failed
            &&& after.services()[i].last_error == Some(text)
            &&& after.services()[i].stop_waiters.len() == 0
            &&& completion.replies@.len() == before.services()[i].stop_waiters.len()
            &&& forall|k: int|
                0 <= k < completion.replies@.len() ==> {
                    &&& (#[trigger] completion.replies@[k]).to == before.services()[i].stop_waiters[k]
                    &&& completion.replies@[k].result is Err
                }
        },
{
    let live = before.services()[i].name@ == identity.name@ && before.services()[i].generation
        == identity.generation;
    if live {
        assert(before.is_at(identity.name@, i));
        assert(before.runs_live(id, i));
    }
    if exists|at: int| #[trigger] before.runs_live(id, at) {
        let at = choose|at: int| #[trigger] before.runs_live(id, at);
        assert(before.is_at(identity.name@, at));
        if before.services()[i].name@ == identity.name@ && i != at {
            before.lemma_names_differ(i, at);
        }
    }
}

/// A name that no service has is not found, whatever is asked of it, and nothing changes.
pub proof fn law_unknown_name_is_not_found<S: SharedState, L, R>(
    before: Runtime<S, R>,
    command: ServiceCommand<L, R>,
    name: String,
    reply: R,
    after: Runtime<S, R>,
    outcome: CommandOutcome<S, L, R>,
)
    requires
        !before.is_shutting_down(),
        before.on_command(command, after, outcome),
        command == (ServiceCommand::Start::<L, R> { name, reply }) || command == (
        ServiceCommand::Stop::<L, R> { name, reply }) || command == (ServiceCommand::Reload::<
            L,
            R,
        > { name, reply }),
        forall|i: int|
            0 <= i < before.services().len() ==> (#[trigger] before.services()[i]).name@ != name@,
    ensures
        after == before,
        outcome == (CommandOutcome::Answer::<S, L, R> {
            reply,
            result: Err(ServiceManagerError::NotFound(name)),
        }),
{
    assert(!before.knows(name@)) by {
        if before.knows(name@) {
            assert(before.is_at(name@, before.place(name@)));
        }
    }
}

/// A service that has a live generation is never started again: where it runs, the one who
/// asks is told of the generation that runs; where it is stopping, that it is busy; and where
/// its policy rules it out, that it is unavailable.
pub proof fn law_live_service_is_not_started_again<S: SharedState, L, R>(
    before: Runtime<S, R>,
    name: String,
    reply: R,
    after: Runtime<S, R>,
    outcome: CommandOutcome<S, L, R>,
    at: int,
    state: S,
)
    requires
        before.wf(),
        !before.is_shutting_down(),
        before.on_command(ServiceCommand::Start { name, reply }, after, outcome),
        0 <= at < before.services().len(),
        before.services()[at].name@ == name@,
        before.state() == Some(state),
        before.services()[at].status is Running || before.services()[at].status is Stopping,
    ensures
        after == before,
        outcome matches CommandOutcome::Answer { reply: to, .. } && to == reply,
        !before.services()[at].runnable.starts(&state, ServiceStartPolicy::Unavailable) ==> match (
            before.services()[at].status,
            outcome,
        ) {
            (ServiceStatus::Running, CommandOutcome::Answer { result, .. }) => {
                &&& result matches Ok(snapshot)
                &&& snapshot@.name == before.services()[at].name
                &&& snapshot@.status is Running
                &&& snapshot@.generation == before.services()[at].generation
                &&& snapshot@.reload_revision == before.services()[at].reload_revision
            },
            (_, CommandOutcome::Answer { result, .. }) => {
                &&& result matches Err(error)
                &&& error == (ServiceManagerError::Busy { name, status: ServiceStatus::Stopping })
            },
            _ => false,
        },
        (forall|policy: ServiceStartPolicy| #[trigger]
            before.services()[at].runnable.starts(&state, policy) ==> policy is Unavailable)
            ==> outcome == (CommandOutcome::Answer::<S, L, R> {
            reply,
            result: Err(ServiceManagerError::Unavailable(name)),
        }),
{
    assert(before.is_at(name@, at));
    before.lemma_place_is_unique(name@, at);
}

/// A service without a live generation is started: where neither its policy, nor the shutdown
/// of the process, nor the number of its generations rules it out, the next generation runs in
/// a scope of its own, and the one who asked is told so.
pub proof fn law_idle_service_is_started<S: SharedState, L, R>(
    before: Runtime<S, R>,
    name: String,
    reply: R,
    after: Runtime<S, R>,
    outcome: CommandOutcome<S, L, R>,
    at: int,
    state: S,
)
    requires
        before.wf(),
        !before.is_shutting_down(),
        before.on_command(ServiceCommand::Start { name, reply }, after, outcome),
        0 <= at < before.services().len(),
        before.services()[at].name@ == name@,
        before.state() == Some(state),
        before.services()[at].status is Stopped || before.services()[at].status is Failed,
        before.services()[at].generation < u64::MAX,
        !before.services()[at].runnable.starts(&state, ServiceStartPolicy::Unavailable),
        forall|copy: S| #[trigger]
            is_clone(state, copy) ==> !before.services()[at].runnable.starts(
                &copy,
                ServiceStartPolicy::Unavailable,
            ) && !gives_shutting_down(&copy, true),
    ensures
        outcome matches CommandOutcome::Started { reply: to, launch, snapshot } && {
            &&& to == reply
            &&& launch.identity.name == before.services()[at].name
            &&& launch.identity.generation == before.services()[at].generation + 1
            &&& launch.position == before.services()[at].position
            &&& is_clone(state, launch.state)
            &&& after.services()[at].cancellation == Some(launch.cancellation)
            &&& snapshot@.name == before.services()[at].name
            &&& snapshot@.status is Running
            &&& snapshot@.generation == before.services()[at].generation + 1
            &&& snapshot@.last_error is None
            &&& snapshot@.reload_revision == before.services()[at].reload_revision
            &&& snapshot@.last_reload_error == before.services()[at].last_reload_error
        },
        after.services()[at].status is Running,
        after.services()[at].generation == before.services()[at].generation + 1,
        after.services()[at].last_error is None,
        !after.services()[at].ended,
        forall|i: int|
            0 <= i < before.services().len() && i != at ==> (#[trigger] after.services()[i])
                == before.services()[i],
{
    assert(before.is_at(name@, at));
    before.lemma_place_is_unique(name@, at);
    let policy = choose|policy: ServiceStartPolicy| #[trigger]
        before.services()[at].runnable.starts(&state, policy) && before.on_fresh_start(
            at,
            name,
            reply,
            after,
            outcome,
        );
    let findings = choose|findings: StartFindings<S>| #[trigger]
        before.finds(at, false, findings) && match outcome {
            CommandOutcome::Started { reply: to, launch, snapshot } => to == reply
                && before.starts_generation(at, false, findings, after, Ok((launch, snapshot@))),
            CommandOutcome::Answer { reply: to, result } => {
                &&& to == reply
                &&& after == before
                &&& result matches Err(error)
                &&& error matches ServiceManagerError::OperationFailed { name: given, message }
                &&& given == name
                &&& before.refusal(at, false, findings) == Some(message@)
            },
            _ => false,
        };
    assert(is_clone(state, findings.state));
    assert(findings.start_policy !is Unavailable);
    assert(!findings.parent_cancelled);
}

/// While the process is shutting down no idle service is started: the one who asks is told
/// why, and nothing changes.
pub proof fn law_shutdown_of_the_process_starts_nothing<S: SharedState, L, R>(
    before: Runtime<S, R>,
    name: String,
    reply: R,
    after: Runtime<S, R>,
    outcome: CommandOutcome<S, L, R>,
    at: int,
    state: S,
)
    requires
        before.wf(),
        !before.is_shutting_down(),
        before.on_command(ServiceCommand::Start { name, reply }, after, outcome),
        0 <= at < before.services().len(),
        before.services()[at].name@ == name@,
        before.state() == Some(state),
        before.services()[at].status is Stopped || before.services()[at].status is Failed,
        !before.services()[at].runnable.starts(&state, ServiceStartPolicy::Unavailable),
        forall|copy: S| #[trigger] is_clone(state, copy) ==> !gives_shutting_down(&copy, false),
    ensures
        after == before,
        outcome matches CommandOutcome::Answer { reply: to, result: Err(error) } && {
            &&& to == reply
            &&& error matches ServiceManagerError::OperationFailed { name: given, message }
            &&& given == name
            &&& message@ == "service runtime is shutting down"@
        },
{
    assert(before.is_at(name@, at));
    before.lemma_place_is_unique(name@, at);
    let policy = choose|policy: ServiceStartPolicy| #[trigger]
        before.services()[at].runnable.starts(&state, policy) && before.on_fresh_start(
            at,
            name,
            reply,
            after,
            outcome,
        );
    let findings = choose|findings: StartFindings<S>| #[trigger]
        before.finds(at, false, findings) && match outcome {
            CommandOutcome::Started { reply: to, launch, snapshot } => to == reply
                && before.starts_generation(at, false, findings, after, Ok((launch, snapshot@))),
            CommandOutcome::Answer { reply: to, result } => {
                &&& to == reply
                &&& after == before
                &&& result matches Err(error)
                &&& error matches ServiceManagerError::OperationFailed { name: given, message }
                &&& given == name
                &&& before.refusal(at, false, findings) == Some(message@)
            },
            _ => false,
        };
    assert(is_clone(state, findings.state));
    assert(findings.parent_cancelled);
}

/// What rules a new generation out, and nothing else does: a shutdown of the runtime; a
/// shutdown of the process, unless it is the first generation; the policy; and a number of
/// generations that cannot be counted any further. The first of these that holds is told.
pub proof fn law_refusal_has_its_reason(
    name: Seq<char>,
    generation: u64,
    shutting_down: bool,
    allow: bool,
    parent_cancelled: bool,
    policy: ServiceStartPolicy,
)
    ensures
        refusal(name, generation, shutting_down, allow, parent_cancelled, policy) is None <==> {
            &&& !shutting_down
            &&& allow || !parent_cancelled
            &&& policy is Automatic || policy is Manual
            &&& generation < u64::MAX
        },
        shutting_down || (parent_cancelled && !allow) ==> refusal(
            name,
            generation,
            shutting_down,
            allow,
            parent_cancelled,
            policy,
        ) == Some("service runtime is shutting down"@),
        !shutting_down && (allow || !parent_cancelled) && policy is Unavailable ==> refusal(
            name,
            generation,
            shutting_down,
            allow,
            parent_cancelled,
            policy,
        ) == Some("runnable service '"@ + name + "' is unavailable on this runtime"@),
        !shutting_down && (allow || !parent_cancelled) && policy !is Unavailable && generation
            == u64::MAX ==> refusal(
            name,
            generation,
            shutting_down,
            allow,
            parent_cancelled,
            policy,
        ) == Some("service '"@ + name + "' generation overflow"@),
{
}

/// One who stops a service that has a live generation waits for its end, behind all who
/// waited before, and the generation is told to stop exactly once.
pub proof fn law_stop_waits_for_the_end<S: SharedState, L, R>(
    before: Runtime<S, R>,
    name: String,
    reply: R,
    after: Runtime<S, R>,
    outcome: CommandOutcome<S, L, R>,
    at: int,
)
    requires
        before.wf(),
        !before.is_shutting_down(),
        before.on_command(ServiceCommand::Stop { name, reply }, after, outcome),
        0 <= at < before.services().len(),
        before.services()[at].name@ == name@,
        before.services()[at].status is Running || before.services()[at].status is Stopping,
    ensures
        outcome is Waiting,
        after.services()[at].status is Stopping,
        after.services()[at].ended,
        after.services()[at].stop_waiters == before.services()[at].stop_waiters.push(reply),
        after.services()[at].generation == before.services()[at].generation,
        after.services()[at].last_error == before.services()[at].last_error,
        before.services()[at].status is Stopping ==> after.services()[at].cancellation
            == before.services()[at].cancellation,
{
    assert(before.is_at(name@, at));
    before.lemma_place_is_unique(name@, at);
    before.lemma_services_are_valid(at);
}

/// What one who stops an idle service is told: how it is, unchanged.
pub proof fn law_stop_of_an_idle_service_shows_it<S: SharedState, L, R>(
    before: Runtime<S, R>,
    name: String,
    reply: R,
    after: Runtime<S, R>,
    outcome: CommandOutcome<S, L, R>,
    at: int,
)
    requires
        before.wf(),
        !before.is_shutting_down(),
        before.on_command(ServiceCommand::Stop { name, reply }, after, outcome),
        0 <= at < before.services().len(),
        before.services()[at].name@ == name@,
        before.services()[at].status is Stopped || before.services()[at].status is Failed,
    ensures
        after == before,
        outcome matches CommandOutcome::Answer { reply: to, result: Ok(snapshot) } && {
            &&& to == reply
            &&& snapshot@.name == before.services()[at].name
            &&& snapshot@.status == before.services()[at].status
            &&& snapshot@.generation == before.services()[at].generation
            &&& snapshot@.last_error == before.services()[at].last_error
            &&& snapshot@.reload_revision == before.services()[at].reload_revision
            &&& snapshot@.last_reload_error == before.services()[at].last_reload_error
        },
{
    assert(before.is_at(name@, at));
    before.lemma_place_is_unique(name@, at);
}

/// Asking for a reload changes nothing by itself. A service that is stopping is busy, one
/// whose provider never shows the capability is not reloadable, and one that always does is to
/// be reloaded, as the next revision, whether it runs or not.
pub proof fn law_reload_is_asked_for<S: SharedState, L, R>(
    before: Runtime<S, R>,
    name: String,
    reply: R,
    after: Runtime<S, R>,
    outcome: CommandOutcome<S, L, R>,
    at: int,
    state: S,
)
    requires
        before.wf(),
        !before.is_shutting_down(),
        before.on_command(ServiceCommand::Reload { name, reply }, after, outcome),
        0 <= at < before.services().len(),
        before.services()[at].name@ == name@,
        before.state() == Some(state),
    ensures
        after == before,
        before.services()[at].status is Stopping ==> outcome == (CommandOutcome::Answer::<
            S,
            L,
            R,
        > {
            reply,
            result: Err(ServiceManagerError::Busy { name, status: ServiceStatus::Stopping }),
        }),
        before.services()[at].status !is Stopping
            && !before.services()[at].provider.answers_reloadable(true) ==> outcome == (
        CommandOutcome::Answer::<S, L, R> {
            reply,
            result: Err(ServiceManagerError::NotReloadable(name)),
        }),
        before.services()[at].status !is Stopping
            && !before.services()[at].provider.answers_reloadable(false)
            && before.services()[at].reload_revision < u64::MAX ==> {
            &&& outcome matches CommandOutcome::Reloading(pending)
            &&& pending.at == at
            &&& pending.service == before.services()[at].name
            &&& pending.position == before.services()[at].position
            &&& is_clone(state, pending.state)
            &&& pending.next_revision == before.services()[at].reload_revision + 1
            &&& pending.name == name
            &&& pending.reply == reply
        },
{
    assert(before.is_at(name@, at));
    before.lemma_place_is_unique(name@, at);
}

/// Every command that a shutdown finds in the channel is answered to its own sender with the
/// news of the shutdown, each once and in turn.
pub proof fn law_shutdown_answers_every_sender<S, L, R>(
    commands: Seq<ServiceCommand<L, R>>,
    outcomes: Seq<CommandOutcome<S, L, R>>,
    k: int,
)
    requires
        all_rejected(commands, outcomes),
        0 <= k < commands.len(),
    ensures
        outcomes.len() == commands.len(),
        match commands[k] {
            ServiceCommand::List { reply } => outcomes[k] matches CommandOutcome::List {
                reply: to,
                result,
            } && to == reply && result == Err::<Vec<ServiceSnapshot>, ServiceManagerError>(
                ServiceManagerError::ShuttingDown,
            ),
            ServiceCommand::Start { reply, .. } => outcomes[k] matches CommandOutcome::Answer {
                reply: to,
                result,
            } && to == reply && result == Err::<ServiceSnapshot, ServiceManagerError>(
                ServiceManagerError::ShuttingDown,
            ),
            ServiceCommand::Stop { reply, .. } => outcomes[k] matches CommandOutcome::Answer {
                reply: to,
                result,
            } && to == reply && result == Err::<ServiceSnapshot, ServiceManagerError>(
                ServiceManagerError::ShuttingDown,
            ),
            ServiceCommand::Reload { reply, .. } => outcomes[k] matches CommandOutcome::Answer {
                reply: to,
                result,
            } && to == reply && result == Err::<ServiceSnapshot, ServiceManagerError>(
                ServiceManagerError::ShuttingDown,
            ),
        },
{
    assert(outcomes[k] == rejected::<S, L, R>(commands[k], ServiceManagerError::ShuttingDown));
}

/// Shutdown tells every service to stop and changes nothing else of it: what runs is stopping,
/// what does not run stays as it is, and every scope there is has been cancelled by the runtime.
pub proof fn law_shutdown_only_stops<S: SharedState, R>(
    before: Runtime<S, R>,
    after: Runtime<S, R>,
    i: int,
)
    requires
        before.shut_down(after),
        0 <= i < before.services().len(),
    ensures
        after.is_shutting_down(),
        after.services().len() == before.services().len(),
        after.services()[i].name == before.services()[i].name,
        before.services()[i].status is Running ==> after.services()[i].status is Stopping,
        before.services()[i].status !is Running ==> after.services()[i].status
            == before.services()[i].status,
        after.services()[i].ended <==> after.services()[i].cancellation is Some,
        after.services()[i].reload_revision == before.services()[i].reload_revision,
        after.services()[i].last_error == before.services()[i].last_error,
        after.services()[i].last_reload_error == before.services()[i].last_reload_error,
        after.state() == before.state(),
{
    assert(told_to_stop(before.services()[i], after.services()[i]));
}

/// A list shows every service once, as it is, in strictly rising order of the names.
pub proof fn law_list_shows_every_service<S: SharedState, L, R>(
    before: Runtime<S, R>,
    reply: L,
    after: Runtime<S, R>,
    outcome: CommandOutcome<S, L, R>,
    at: int,
    i: int,
    j: int,
)
    requires
        before.wf(),
        before.services().len() <= usize::MAX,
        !before.is_shutting_down(),
        before.on_command(ServiceCommand::List { reply }, after, outcome),
        0 <= at < before.services().len(),
        0 <= i < j < before.services().len(),
    ensures
        after == before,
        outcome matches CommandOutcome::List { reply: to, result: Ok(snapshots) } && {
            &&& to == reply
            &&& snapshots@.len() == before.services().len()
            &&& snapshots@[i]@.name@ != snapshots@[j]@.name@
            &&& bytes_le(snapshots@[i]@.name.spec_bytes(), snapshots@[j]@.name.spec_bytes())
            &&& exists|k: int|
                0 <= k < snapshots@.len() && {
                    &&& (#[trigger] snapshots@[k])@.name == before.services()[at].name
                    &&& snapshots@[k]@.status == before.services()[at].status
                    &&& snapshots@[k]@.generation == before.services()[at].generation
                    &&& snapshots@[k]@.last_error == before.services()[at].last_error
                    &&& snapshots@[k]@.reload_revision == before.services()[at].reload_revision
                    &&& snapshots@[k]@.last_reload_error == before.services()[at].last_reload_error
                }
        },
{
    let snapshots = outcome->List_result->Ok_0;
    let services = before.services();
    let order = choose|order: Seq<usize>| #[trigger]
        is_permutation(order, services.len()) && is_sorted(name_keys(services), order)
            && before.observes_in(order, snapshots@);
    law_list_is_sorted_by_name(before, order, i, j);
    assert(services[order[i] as int].name == snapshots@[i]@.name);
    assert(services[order[j] as int].name == snapshots@[j]@.name);
    lemma_permutation_is_complete(order, services.len());
    assert(order.contains(at as usize));
    let k = order.index_of(at as usize);
    assert(snapshots@[k]@.name == services[at].name);
}

/// What becomes of a provider that is taken over: it keeps its name, its place and its
/// capability; where its policy is to start by itself it runs its first generation, in a scope
/// that nobody has ended; where it is not, it is stopped and has never run.
pub proof fn law_takeover_goes_by_the_policy<S: SharedState, R>(
    entry: RunnableEntry<S>,
    state: S,
    service: ServiceModel<S, R>,
)
    requires
        taken_over(entry, state, service),
    ensures
        service.name == entry.name,
        service.position == entry.position,
        service.provider == entry.provider,
        service.runnable == entry.runnable,
        service.last_error is None,
        service.reload_revision == 0,
        service.last_reload_error is None,
        service.stop_waiters.len() == 0,
        !service.ended,
        !entry.runnable.starts(&state, ServiceStartPolicy::Automatic) ==> {
            &&& service.status is Stopped
            &&& service.generation == 0
            &&& service.cancellation is None
        },
        !entry.runnable.starts(&state, ServiceStartPolicy::Manual) && !entry.runnable.starts(
            &state,
            ServiceStartPolicy::Unavailable,
        ) ==> {
            &&& service.status is Running
            &&& service.generation == 1
            &&& service.cancellation is Some
        },
        service.status is Running || service.status is Stopped,
{
}

/// Taking over goes through the whole list in its order: where it succeeds, the services are
/// those of the entries, one each and in that order, and the launches are those of the services
/// that run, in that order too.
pub proof fn law_takeover_keeps_the_order<S: SharedState, R>(
    before: Runtime<S, R>,
    entries: Seq<RunnableEntry<S>>,
    state: S,
    after: Runtime<S, R>,
    launches: Seq<Launch<S>>,
    count: usize,
    i: int,
    k: int,
    l: int,
)
    requires
        before.adopts(entries, state, after, launches, Ok(count)),
        0 <= i < entries.len(),
        0 <= k < l < launches.len(),
    ensures
        count == entries.len(),
        after.services().len() == entries.len(),
        after.services()[i].name == entries[i].name,
        after.services()[i].position == entries[i].position,
        after.state() == Some(state),
        exists|a: int, b: int|
            0 <= a < b < entries.len() && (#[trigger] entries[a]).name == launches[k].identity.name
                && entries[a].position == launches[k].position && (#[trigger] entries[b]).name
                == launches[l].identity.name && entries[b].position == launches[l].position
                && after.services()[a].cancellation == Some(launches[k].cancellation)
                && after.services()[b].cancellation == Some(launches[l].cancellation),
{
    let services = after.services();
    assert(services.take(count as int) == services);
    assert(taken_over(entries[i], state, services[i]));
    let places = lemma_launches_of(launches, services, state);
    let a = places[k];
    let b = places[l];
    assert(a < b);
    assert(taken_over(entries[a], state, services[a]));
    assert(taken_over(entries[b], state, services[b]));
    assert(is_launch_of(launches[k], services[a], state));
    assert(is_launch_of(launches[l], services[b], state));
}

/// Which services the launches are of.
proof fn lemma_launches_of<S: SharedState, R>(
    launches: Seq<Launch<S>>,
    services: Seq<ServiceModel<S, R>>,
    state: S,
) -> (places: Seq<int>)
    requires
        are_launches_of(launches, services, state),
    ensures
        places.len() == launches.len(),
        forall|k: int, l: int|
            0 <= k < l < places.len() ==> (#[trigger] places[k]) < (#[trigger] places[l]),
        forall|k: int|
            0 <= k < places.len() ==> 0 <= #[trigger] places[k] < services.len()
                && services[places[k]].status is Running && is_launch_of(
                launches[k],
                services[places[k]],
                state,
            ),
    decreases services.len(),
{
    if services.len() == 0 {
        Seq::empty()
    } else if services.last().status is Running {
        let earlier = lemma_launches_of(launches.drop_last(), services.drop_last(), state);
        let places = earlier.push(services.len() - 1);
        assert forall|k: int| 0 <= k < places.len() implies 0 <= #[trigger] places[k]
            < services.len() && services[places[k]].status is Running && is_launch_of(
            launches[k],
            services[places[k]],
            state,
        ) by {
            if k < earlier.len() {
                assert(places[k] == earlier[k]);
                assert(launches.drop_last()[k] == launches[k]);
                assert(services.drop_last()[earlier[k]] == services[earlier[k]]);
            }
        }
        assert forall|k: int, l: int| 0 <= k < l < places.len() implies (#[trigger] places[k]) < (
        #[trigger] places[l]) by {
            assert(places[k] == earlier[k]);
            if l < earlier.len() {
                assert(places[l] == earlier[l]);
            }
        }
        places
    } else {
        let places = lemma_launches_of(launches, services.drop_last(), state);
        assert forall|k: int| 0 <= k < places.len() implies 0 <= #[trigger] places[k]
            < services.len() && services[places[k]].status is Running && is_launch_of(
            launches[k],
            services[places[k]],
            state,
        ) by {
            assert(services.drop_last()[places[k]] == services[places[k]]);
        }
        places
    }
}

/// Names are identities: two entries of one name are refused before anything is started, and
/// a list without such a pair is never refused for its names.
pub proof fn law_same_name_twice_is_refused<S: SharedState, R>(
    before: Runtime<S, R>,
    entries: Seq<RunnableEntry<S>>,
    state: S,
    after: Runtime<S, R>,
    launches: Seq<Launch<S>>,
    result: Result<usize, Error>,
    i: int,
    j: int,
)
    requires
        before.adopts(entries, state, after, launches, result),
        0 <= i < j < entries.len(),
    ensures
        entries[i].name@ == entries[j].name@ ==> {
            &&& result is Err
            &&& launches.len() == 0
            &&& after == before
        },
        result is Ok ==> entries[i].name@ != entries[j].name@,
{
    if entries[i].name@ == entries[j].name@ {
        assert(is_duplicate(entries, j));
    }
}

/// Tasks start in the order of the start priorities: of two providers that are taken over and
/// started with the runtime, the one with the lower start priority is launched first, where one
/// that gives none counts as one that gives 100.
pub proof fn law_launches_go_by_priority<S: SharedState, R>(
    registry: Registry<S>,
    before: Runtime<S, R>,
    entries: Seq<RunnableEntry<S>>,
    state: S,
    after: Runtime<S, R>,
    launches: Seq<Launch<S>>,
    count: usize,
    k: int,
    l: int,
    first: u8,
    second: u8,
)
    requires
        registry.lists_runnables(entries),
        before.adopts(entries, state, after, launches, Ok(count)),
        0 <= k < launches.len(),
        0 <= l < launches.len(),
        forall|given: Option<u8>| #[trigger]
            registry.slots()[launches[k].position as int].provider.runs_at(given) ==> given == Some(
                first,
            ) || (given is None && first == 100),
        forall|given: Option<u8>| #[trigger]
            registry.slots()[launches[l].position as int].provider.runs_at(given) ==> given == Some(
                second,
            ) || (given is None && second == 100),
        first < second,
    ensures
        k < l,
{
    let services = after.services();
    assert(services.take(count as int) == services);
    let places = lemma_launches_of(launches, services, state);
    let a = places[k];
    let b = places[l];
    assert(taken_over(entries[a], state, services[a]));
    assert(taken_over(entries[b], state, services[b]));
    assert(is_launch_of(launches[k], services[a], state));
    assert(is_launch_of(launches[l], services[b], state));
    law_listed_provider_is_runnable(registry, entries, a);
    law_listed_provider_is_runnable(registry, entries, b);
    law_tasks_start_by_priority(registry, entries, a, b, first, second);
    if l < k {
        assert(places[l] < places[k]);
    }
}

/// A waiting runtime stops waiting for three reasons only: the shutdown of the process, without
/// an error; a closed channel, with one; and a task that ended with an error that is fatal. A
/// command never makes it leave, nor does the lack of tasks.
pub proof fn law_runtime_leaves_for_a_reason<S: SharedState, L, R>(
    before: Runtime<S, R>,
    event: RuntimeEvent<L, R>,
    after: Runtime<S, R>,
    turn: Turn<S, L, R>,
)
    requires
        before.on_event(event, after, turn),
    ensures
        event is Shutdown ==> (turn matches Turn::Leave { result, .. } && result is Ok)
            && after.is_shutting_down(),
        event matches RuntimeEvent::Command(Some(_)) ==> turn is Command,
        event matches RuntimeEvent::Command(None) ==> (turn matches Turn::Leave { result, .. }
            && result is Err) && after == before,
        event matches RuntimeEvent::Joined(None) ==> turn is Replies && after == before,
        event matches RuntimeEvent::Joined(Some(Err(_))) ==> turn is Leave,
        turn matches Turn::Leave { result, .. } ==> (result is Ok <==> event is Shutdown),
        !(event is Shutdown) ==> after.is_shutting_down() == before.is_shutting_down(),
{
    if let RuntimeEvent::Command(Some(command)) = event {
        lemma_command_is_no_shutdown(before, command, after, turn->Command_0);
    }
}

proof fn lemma_command_is_no_shutdown<S: SharedState, L, R>(
    before: Runtime<S, R>,
    command: ServiceCommand<L, R>,
    after: Runtime<S, R>,
    outcome: CommandOutcome<S, L, R>,
)
    requires
        before.on_command(command, after, outcome),
    ensures
        after.is_shutting_down() == before.is_shutting_down(),
        after.state() == before.state(),
        forall|id: Id| after.task(id) == before.task(id),
{
}

/// A generation that ends without an error, or with one that is recoverable, leaves the
/// runtime waiting; any other failure of it makes the runtime leave with that failure.
pub proof fn law_failure_decides_on_leaving<S: SharedState, L, R>(
    before: Runtime<S, R>,
    id: Id,
    exit: ServiceExit,
    after: Runtime<S, R>,
    turn: Turn<S, L, R>,
    at: int,
)
    requires
        before.wf(),
        before.on_event(RuntimeEvent::Joined(Some(Ok((id, exit)))), after, turn),
        0 <= at < before.services().len(),
        before.services()[at].name@ == exit.name@,
        before.services()[at].generation == exit.generation,
    ensures
        exit.result is Ok ==> turn is Replies,
        exit.result matches Err(error) ==> (turn is Replies <==> error is Recoverable),
        exit.result matches Err(error) ==> (turn matches Turn::Leave { result, .. } ==> result
            == Err::<(), Error>(error)),
        after.task(id) is None,
        after.services()[at].status is Stopped || after.services()[at].status is Failed,
        turn matches Turn::Replies(replies) ==> {
            &&& replies@.len() == before.services()[at].stop_waiters.len()
            &&& forall|k: int|
                0 <= k < replies@.len() ==> (#[trigger] replies@[k]).to
                    == before.services()[at].stop_waiters[k]
        },
        turn matches Turn::Leave { replies, .. } ==> {
            &&& replies@.len() == before.services()[at].stop_waiters.len()
            &&& forall|k: int|
                0 <= k < replies@.len() ==> (#[trigger] replies@[k]).to
                    == before.services()[at].stop_waiters[k]
        },
{
    let completion = choose|completion: Completion<R>| #[trigger]
        before.on_join(Ok((id, exit)), after, completion) && match turn {
            Turn::Command(_) => false,
            Turn::Replies(replies) => completion.result is Ok && completion.replies == replies,
            Turn::Leave { outcomes, replies, result } => completion.result == result
                && completion.replies == replies,
        };
    let middle = choose|middle: Runtime<S, R>| #[trigger]
        before.without_task(id, middle) && middle.on_exit(exit, after, completion);
    assert(before.is_at(exit.name@, at));
    before.lemma_place_is_unique(exit.name@, at);
    assert(middle.is_at(exit.name@, at));
    assert(middle.is_at(exit.name@, middle.place(exit.name@)));
    assert(before.is_at(exit.name@, middle.place(exit.name@)));
    before.lemma_place_is_unique(exit.name@, middle.place(exit.name@));
}

/// A snapshot shows the service as it is: each of its parts is that of the service, and what
/// it says of policy and reloading are answers of the service itself.
pub proof fn law_snapshot_shows_the_service<S: SharedState, R>(
    service: ServiceModel<S, R>,
    state: &S,
    snapshot: SnapshotView,
)
    requires
        service.observed(state, snapshot),
    ensures
        snapshot.name == service.name,
        snapshot.status == service.status,
        snapshot.generation == service.generation,
        snapshot.last_error == service.last_error,
        snapshot.reload_revision == service.reload_revision,
        snapshot.last_reload_error == service.last_reload_error,
        service.runnable.starts(state, snapshot.start_policy),
        service.provider.answers_reloadable(snapshot.reloadable),
{
}

/// A new generation is the next one of its service, in a scope of its own below that of the
/// process, and nothing else changes: neither the other services nor the history of this one.
/// Without one nothing changes at all.
pub proof fn law_new_generation_is_the_next_one<S: SharedState, R>(
    before: Runtime<S, R>,
    name: Seq<char>,
    allow: bool,
    after: Runtime<S, R>,
    result: Result<(Launch<S>, SnapshotView), Error>,
    at: int,
    state: S,
)
    requires
        before.wf(),
        before.on_generation(name, allow, after, result),
        before.state() == Some(state),
        0 <= at < before.services().len(),
        before.services()[at].name@ == name,
    ensures
        result is Err ==> after == before,
        result matches Ok((launch, snapshot)) ==> {
            &&& !before.is_shutting_down()
            &&& before.services()[at].generation < u64::MAX
            &&& launch.identity.name == before.services()[at].name
            &&& launch.identity.generation == before.services()[at].generation + 1
            &&& launch.position == before.services()[at].position
            &&& is_clone(state, launch.state)
            &&& exists|parent: CancellationToken| #[trigger]
                gives_shutdown_token(&launch.state, parent) && is_child(parent, launch.cancellation)
            &&& snapshot.generation == before.services()[at].generation + 1
            &&& snapshot.status is Running
            &&& after.services()[at].status is Running
            &&& after.services()[at].generation == before.services()[at].generation + 1
            &&& after.services()[at].cancellation == Some(launch.cancellation)
            &&& !after.services()[at].ended
            &&& after.services()[at].last_error is None
            &&& after.services()[at].reload_revision == before.services()[at].reload_revision
            &&& after.services()[at].last_reload_error == before.services()[at].last_reload_error
            &&& after.services()[at].stop_waiters == before.services()[at].stop_waiters
        },
        after.services().len() == before.services().len(),
        forall|i: int|
            0 <= i < before.services().len() && i != at ==> (#[trigger] after.services()[i])
                == before.services()[i],
        after.is_shutting_down() == before.is_shutting_down(),
        after.state() == before.state(),
{
    assert(before.is_at(name, at));
    before.lemma_place_is_unique(name, at);
    let findings = choose|findings: StartFindings<S>| #[trigger]
        before.finds(at, allow, findings) && before.starts_generation(
            at,
            allow,
            findings,
            after,
            result,
        );
    if let Ok((launch, snapshot)) = result {
        assert(gives_shutdown_token(&launch.state, findings.parent));
    }
}

/// No generation is started of a service that nobody has registered, and that is an error.
pub proof fn law_no_generation_without_a_service<S: SharedState, R>(
    before: Runtime<S, R>,
    name: Seq<char>,
    allow: bool,
    after: Runtime<S, R>,
    result: Result<(Launch<S>, SnapshotView), Error>,
)
    requires
        before.on_generation(name, allow, after, result),
        forall|i: int|
            0 <= i < before.services().len() ==> (#[trigger] before.services()[i]).name@ != name,
    ensures
        result is Err,
        after == before,
{
    assert(!before.knows(name)) by {
        if before.knows(name) {
            assert(before.is_at(name, before.place(name)));
        }
    }
}

/// Taking over succeeds where nothing stands against it: the names are unique, the runtime is
/// not shutting down, and no service is unavailable. That the process is shutting down is no
/// obstacle.
pub proof fn law_takeover_succeeds<S: SharedState, R>(
    before: Runtime<S, R>,
    entries: Seq<RunnableEntry<S>>,
    state: S,
    after: Runtime<S, R>,
    launches: Seq<Launch<S>>,
    result: Result<usize, Error>,
)
    requires
        before.adopts(entries, state, after, launches, result),
        !before.is_shutting_down(),
        forall|i: int, j: int|
            0 <= i < j < entries.len() ==> (#[trigger] entries[i]).name@ != (
            #[trigger] entries[j]).name@,
        forall|i: int, copy: S|
            #![trigger entries[i], is_clone(state, copy)]
            0 <= i < entries.len() && is_clone(state, copy) ==> !entries[i].runnable.starts(
                &copy,
                ServiceStartPolicy::Unavailable,
            ),
    ensures
        result matches Ok(count) && count == entries.len(),
{
    assert forall|k: int| !is_duplicate(entries, k) by {
        if is_duplicate(entries, k) {
            let i = choose|i: int|
                0 <= i < k && (#[trigger] entries[i]).name@ == entries[k].name@;
            assert(entries[i].name@ != entries[k].name@);
        }
    }
    if let Err(error) = result {
        let k = after.services().len() - 1;
        let findings = choose|findings: StartFindings<S>| #[trigger]
            after.finds(k, true, findings) && after.refuses(k, true, findings, error);
        assert(after.services()[k].generation == 0);
        assert(after.services()[k].runnable == entries[k].runnable);
        assert(is_clone(state, findings.state));
        assert(!entries[k].runnable.starts(&findings.state, ServiceStartPolicy::Unavailable));
        assert(findings.start_policy !is Unavailable);
        assert(false);
    }
}

/// A restart stops before it starts, and starts only what has been stopped: the start follows a
/// stop that succeeded, a stop that failed is the end of it, and what the start came to is the
/// result.
pub proof fn law_restart_starts_only_what_was_stopped(
    first: RestartStep,
    stopped: Result<ServiceSnapshot, ServiceManagerError>,
    second: RestartStep,
    started: Result<ServiceSnapshot, ServiceManagerError>,
    third: RestartStep,
)
    requires
        call_ensures(restart, (RestartEvent::Begin,), first),
        call_ensures(restart, (RestartEvent::Stopped(stopped),), second),
        call_ensures(restart, (RestartEvent::Started(started),), third),
    ensures
        first is Stop,
        second is Start <==> stopped is Ok,
        stopped is Err ==> second == RestartStep::Done(stopped),
        third == RestartStep::Done(started),
{
}

/// The end of a generation of a service that is not there is an error, and changes nothing.
pub proof fn law_end_of_an_unknown_service_is_an_error<S: SharedState, R>(
    before: Runtime<S, R>,
    exit: ServiceExit,
    after: Runtime<S, R>,
    completion: Completion<R>,
)
    requires
        before.on_exit(exit, after, completion),
        forall|i: int|
            0 <= i < before.services().len() ==> (#[trigger] before.services()[i]).name@
                != exit.name@,
    ensures
        after == before,
        completion.replies@.len() == 0,
        completion.result is Err,
{
    assert(!before.knows(exit.name@)) by {
        if before.knows(exit.name@) {
            assert(before.is_at(exit.name@, before.place(exit.name@)));
        }
    }
}

/// The loss of a task that runs no generation, or none that is known here, touches no service
/// and answers nobody; it is still an error.
pub proof fn law_loss_of_an_unknown_task_touches_nothing<S: SharedState, R>(
    before: Runtime<S, R>,
    id: Id,
    text: Seq<char>,
    after: Runtime<S, R>,
    completion: Completion<R>,
)
    requires
        before.on_loss(id, text, after, completion),
        before.task(id) is None,
    ensures
        after.services() == before.services(),
        completion.replies@.len() == 0,
        completion.result matches Err(error) && error.says(text),
        after.state() == before.state(),
        after.is_shutting_down() == before.is_shutting_down(),
        forall|other: Id| #[trigger] after.task(other) == before.task(other),
{
    assert forall|other: Id| #[trigger] after.task(other) == before.task(other) by {
        if other == id {
            assert(after.task(id) is None);
        }
    }
}

/// A takeover that fails on a service keeps what it has started: every service that runs has
/// its launch, the one that failed is stopped and has never run, and none behind it has been
/// taken over.
pub proof fn law_failed_takeover_keeps_what_runs<S: SharedState, R>(
    before: Runtime<S, R>,
    entries: Seq<RunnableEntry<S>>,
    state: S,
    after: Runtime<S, R>,
    launches: Seq<Launch<S>>,
    error: Error,
    i: int,
)
    requires
        before.adopts(entries, state, after, launches, Err(error)),
        forall|a: int, b: int|
            0 <= a < b < entries.len() ==> (#[trigger] entries[a]).name@ != (
            #[trigger] entries[b]).name@,
        0 <= i < after.services().len(),
    ensures
        after.services().len() <= entries.len(),
        after.services()[i].name == entries[i].name,
        i < after.services().len() - 1 && after.services()[i].status is Running ==> exists|k: int|
            0 <= k < launches.len() && (#[trigger] launches[k]).identity.name == entries[i].name
                && launches[k].position == entries[i].position
                && after.services()[i].cancellation == Some(launches[k].cancellation),
        i == after.services().len() - 1 ==> {
            &&& after.services()[i].status is Stopped
            &&& after.services()[i].generation == 0
            &&& after.services()[i].cancellation is None
        },
        after.state() == Some(state),
{
    assert forall|k: int| !is_duplicate(entries, k) by {
        if is_duplicate(entries, k) {
            let j = choose|j: int| 0 <= j < k && (#[trigger] entries[j]).name@ == entries[k].name@;
            assert(entries[j].name@ != entries[k].name@);
        }
    }
    let count = after.services().len() - 1;
    let first = after.services().take(count);
    if i < count {
        assert(taken_over(entries[i], state, after.services()[i]));
        if after.services()[i].status is Running {
            assert(first[i] == after.services()[i]);
            law_running_service_is_launched(launches, first, state, i);
            let k = choose|k: int|
                0 <= k < launches.len() && #[trigger] is_launch_of(launches[k], first[i], state);
            assert(launches[k].identity.name == entries[i].name);
        }
    }
}

/// One who asked for a targeted reload learns how it went: after a success they are shown the
/// service as it goes on, in the same generation, one revision further and without an error of
/// reloading; after a failure they are told which, under the name that they gave.
pub proof fn law_reload_is_answered<S: SharedState, R>(
    before: Runtime<S, R>,
    pending: PendingReload<S, R>,
    result: Result<(), Error>,
    after: Runtime<S, R>,
    reply: Reply<R>,
)
    requires
        before.finishes_reload(pending, result, after),
        before.answers_reload(pending, result, reply),
    ensures
        reply.to == pending.reply,
        reply.result is Ok <==> result is Ok,
        reply.result matches Ok(snapshot) ==> {
            &&& snapshot@.name == before.services()[pending.at as int].name
            &&& snapshot@.status == before.services()[pending.at as int].status
            &&& snapshot@.generation == before.services()[pending.at as int].generation
            &&& snapshot@.reload_revision == before.services()[pending.at as int].reload_revision
                + 1
            &&& snapshot@.last_reload_error is None
            &&& snapshot@.last_error == before.services()[pending.at as int].last_error
        },
        reply.result matches Err(failure) ==> {
            &&& failure matches ServiceManagerError::OperationFailed { name, message }
            &&& name == pending.name
            &&& after.services()[pending.at as int].last_reload_error == Some(message@)
        },
{
}

/// The end of a generation carries its name and number, and a plain failure as one of the
/// task of that name.
pub proof fn law_exit_carries_its_generation(
    identity: TaskIdentity,
    result: Result<(), Error>,
    exit: ServiceExit,
)
    requires
        call_ensures(TaskIdentity::exit, (identity, result), exit),
    ensures
        exit.name == identity.name,
        exit.generation == identity.generation,
        exit.result is Ok <==> result is Ok,
        result matches Err(Error::Other(source)) ==> exit.result == Err::<(), Error>(
            Error::Run { name: identity.name, source },
        ),
        result matches Err(error) ==> (exit.result matches Err(failure) && failure.failure()
            == error.failure() && (failure is Recoverable <==> error is Recoverable)),
{
}

/// Generations are numbered without a gap, and the number of one that cannot be counted any
/// further, or that the policy rules out, is never given.
pub proof fn law_generations_are_numbered_on(
    name: &str,
    generation: u64,
    policy: ServiceStartPolicy,
    result: Result<u64, Error>,
)
    requires
        call_ensures(next_generation, (name, generation, policy), result),
    ensures
        result matches Ok(next) ==> next == generation + 1 && policy !is Unavailable,
        policy !is Unavailable && generation < u64::MAX ==> result is Ok,
        policy is Unavailable || generation == u64::MAX ==> result is Err,
{
}

/// A reply that was lost means that the runtime is gone, and a reply that came is handed on as
/// it is.
pub proof fn law_lost_reply_means_no_runtime<T>(
    reply: Option<Result<T, ServiceManagerError>>,
    result: Result<T, ServiceManagerError>,
)
    requires
        call_ensures(reply_or_unavailable::<T>, (reply,), result),
    ensures
        reply matches Some(told) ==> result == told,
        reply is None ==> result == Err::<T, ServiceManagerError>(
            ServiceManagerError::RuntimeUnavailable,
        ),
{
}

} // verus!
