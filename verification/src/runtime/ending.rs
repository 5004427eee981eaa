//! The end of services: shutdown, and tasks that are over.
use tokio::task::{Id, JoinError};
use vstd::prelude::*;

use super::command::reject_command;
#[allow(unused_imports)]
use super::command::rejected;
#[allow(unused_imports)]
use super::entry::ServiceModel;
use super::task::{describe, task_of, ServiceExit};
#[allow(unused_imports)]
use super::task::{failed_task, failure_text};
use super::{CommandOutcome, Completion, Reply, Runtime};
#[allow(unused_imports)]
use crate::cancellation::cancels;
use crate::registry::error::Error;
#[allow(unused_imports)]
use crate::service::SnapshotView;
use crate::service::{ServiceCommand, ServiceManagerError, ServiceSnapshot, ServiceStatus};
#[allow(unused_imports)]
use crate::text::decimal_text;
use crate::text::{decimal, text3};

verus! {

/// Every command is answered with the news that the runtime is shutting down.
pub open spec fn all_rejected<S, L, R>(
    commands: Seq<ServiceCommand<L, R>>,
    outcomes: Seq<CommandOutcome<S, L, R>>,
) -> bool {
    &&& outcomes.len() == commands.len()
    &&& forall|k: int|
        0 <= k < outcomes.len() ==> #[trigger] outcomes[k] == rejected::<S, L, R>(
            commands[k],
            ServiceManagerError::ShuttingDown,
        )
}

/// `after` is the service `before` once it has been told to stop with all the others.
pub open spec fn told_to_stop<S: 'static, R>(
    before: ServiceModel<S, R>,
    after: ServiceModel<S, R>,
) -> bool {
    &&& after == ServiceModel {
        status: if before.status is Running {
            ServiceStatus::Stopping
        } else {
            before.status
        },
        cancellation: after.cancellation,
        ended: before.cancellation is Some,
        ..before
    }
    &&& match (before.cancellation, after.cancellation) {
        (Some(live), Some(cancelled)) => cancels(live, cancelled),
        (None, None) => true,
        _ => false,
    }
}

/// Those who waited are answered in turn, each with a copy of `snapshot`.
pub open spec fn all_told<R>(
    waiters: Seq<R>,
    snapshot: SnapshotView,
    replies: Seq<Reply<R>>,
) -> bool {
    &&& replies.len() == waiters.len()
    &&& forall|k: int|
        0 <= k < replies.len() ==> {
            &&& (#[trigger] replies[k]).to == waiters[k]
            &&& replies[k].result matches Ok(copy)
            &&& copy@ == snapshot
        }
}

/// Those who waited are answered in turn, each with the failure of the service `name`.
pub open spec fn all_failed<R>(
    waiters: Seq<R>,
    name: Seq<char>,
    text: Seq<char>,
    replies: Seq<Reply<R>>,
) -> bool {
    &&& replies.len() == waiters.len()
    &&& forall|k: int|
        0 <= k < replies.len() ==> is_failure_to(
            #[trigger] replies[k],
            waiters[k],
            name,
            text,
        )
}

/// `reply` tells `to` that an operation on the service `name` failed.
pub open spec fn is_failure_to<R>(
    reply: Reply<R>,
    to: R,
    name: Seq<char>,
    text: Seq<char>,
) -> bool {
    &&& reply.to == to
    &&& reply.result matches Err(error)
    &&& error matches ServiceManagerError::OperationFailed { name: given, message }
    &&& given@ == name
    &&& message@ == text
}

fn tell_all<R>(waiters: Vec<R>, snapshot: &ServiceSnapshot) -> (replies: Vec<Reply<R>>)
    ensures
        all_told(waiters@, snapshot@, replies@),
{
    let ghost all = waiters@;
    let mut waiters = waiters;
    let mut replies: Vec<Reply<R>> = Vec::new();
    while waiters.len() > 0
        invariant
            all.len() == replies@.len() + waiters@.len(),
            waiters@ == all.skip(replies@.len() as int),
            all_told(all.take(replies@.len() as int), snapshot@, replies@),
        decreases waiters.len(),
    {
        let to = waiters.remove(0);
        replies.push(Reply { to, result: Ok(snapshot.clone()) });
    }
    proof {
        assert(all.take(all.len() as int) == all);
    }
    replies
}

fn fail_all<R>(waiters: Vec<R>, name: &str, text: &String) -> (replies: Vec<Reply<R>>)
    ensures
        all_failed(waiters@, name@, text@, replies@),
{
    let ghost all = waiters@;
    let mut waiters = waiters;
    let mut replies: Vec<Reply<R>> = Vec::new();
    while waiters.len() > 0
        invariant
            all.len() == replies@.len() + waiters@.len(),
            waiters@ == all.skip(replies@.len() as int),
            all_failed(all.take(replies@.len() as int), name@, text@, replies@),
        decreases waiters.len(),
    {
        let to = waiters.remove(0);
        replies.push(
            Reply {
                to,
                result: Err(
                    ServiceManagerError::OperationFailed {
                        name: name.to_owned(),
                        message: text.clone(),
                    },
                ),
            },
        );
    }
    proof {
        assert(all.take(all.len() as int) == all);
    }
    replies
}

impl<S: 'static, R> Runtime<S, R> {
    /// `after` is `self` once shutdown has begun: every service has been told to stop.
    pub open spec fn shut_down(self, after: Self) -> bool {
        &&& after.is_shutting_down()
        &&& after.state() == self.state()
        &&& forall|id: Id| after.task(id) == self.task(id)
        &&& after.services().len() == self.services().len()
        &&& forall|i: int|
            0 <= i < after.services().len() ==> told_to_stop(
                self.services()[i],
                #[trigger] after.services()[i],
            )
    }

    /// Begins shutdown. `pending` are the commands that have not been carried out yet:
    /// each is refused. Every live generation is cancelled.
    pub fn begin_shutdown<L>(&mut self, pending: Vec<ServiceCommand<L, R>>) -> (outcomes: Vec<
        CommandOutcome<S, L, R>,
    >)
        requires
            old(self).wf(),
        ensures
            final(self).wf(),
            old(self).shut_down(*final(self)),
            all_rejected(pending@, outcomes@),
    {
        self.shutting_down = true;
        let ghost all = pending@;
        let mut pending = pending;
        let mut outcomes: Vec<CommandOutcome<S, L, R>> = Vec::new();
        while pending.len() > 0
            invariant
                all.len() == outcomes@.len() + pending@.len(),
                pending@ == all.skip(outcomes@.len() as int),
                all_rejected(all.take(outcomes@.len() as int), outcomes@),
            decreases pending.len(),
        {
            let command = pending.remove(0);
            outcomes.push(reject_command(command, ServiceManagerError::ShuttingDown));
        }
        proof {
            assert(all.take(all.len() as int) == all);
        }
        let ghost before = self.services();
        let mut i: usize = 0;
        while i < self.services.len()
            invariant
                old(self).wf(),
                before == old(self).services(),
                self.shutting_down,
                self.state == old(self).state,
                self.tasks == old(self).tasks,
                i <= self.services@.len(),
                self.services@.len() == before.len(),
                forall|j: int|
                    0 <= j < i ==> told_to_stop(before[j], #[trigger] self.services()[j]),
                forall|j: int| i <= j < before.len() ==> before[j] == #[trigger] self.services()[j],
            decreases self.services.len() - i,
        {
            let ghost middle = self.services();
            assert(self.services()[i as int] == self.services@[i as int]@);
            let service = &mut self.services[i];
            if service.status == ServiceStatus::Running {
                service.status = ServiceStatus::Stopping;
            }
            let live = service.cancellation.take();
            if let Some(scope) = live {
                service.cancellation = Some(scope.cancel());
            }
            proof {
                assert(self.services() == middle.update(i as int, self.services@[i as int]@));
            }
            i = i + 1;
        }
        proof {
            assert forall|j: int| 0 <= j < self.services().len() implies (
            #[trigger] self.services()[j]).wf() by {
                assert(before[j].wf());
            }
            assert forall|j: int, k: int| 0 <= j < k < self.services().len() implies (
            #[trigger] self.services()[j]).name@ != (#[trigger] self.services()[k]).name@ by {
                assert(before[j].name@ != before[k].name@);
            }
        }
        outcomes
    }

    /// The service after its live generation has ended without an error.
    pub open spec fn ended_well(service: ServiceModel<S, R>) -> ServiceModel<S, R> {
        ServiceModel {
            status: ServiceStatus::Stopped,
            cancellation: None,
            ended: false,
            last_error: None,
            stop_waiters: Seq::empty(),
            ..service
        }
    }

    /// The service after its live generation has ended with an error.
    pub open spec fn ended_badly(service: ServiceModel<S, R>, text: Seq<char>) -> ServiceModel<
        S,
        R,
    > {
        ServiceModel {
            status: ServiceStatus::Failed,
            cancellation: None,
            ended: false,
            last_error: Some(text),
            stop_waiters: Seq::empty(),
            ..service
        }
    }

    /// The end of a generation can lead to `completion` and leave `after`.
    pub open spec fn on_exit(
        self,
        exit: ServiceExit,
        after: Self,
        completion: Completion<R>,
    ) -> bool {
        let at = self.place(exit.name@);
        let service = self.services()[at];
        if !self.knows(exit.name@) {
            &&& after == self
            &&& completion.replies@.len() == 0
            &&& completion.result matches Err(error)
            &&& error.says(
                "completed runnable service '"@ + exit.name@ + "' is not registered"@,
            )
        } else if service.generation != exit.generation {
            &&& after == self
            &&& completion.replies@.len() == 0
            &&& completion.result matches Err(error)
            &&& error.says(
                "service '"@ + exit.name@ + "' completed stale generation "@
                + decimal_text(exit.generation as nat) + " while generation "@ + decimal_text(
                service.generation as nat,
            ) + " is current"@,
            )
        } else {
            match exit.result {
                Ok(_) => {
                    &&& self.with_service(at, Self::ended_well(service), after)
                    &&& completion.result is Ok
                    &&& self.state() matches Some(state)
                    &&& exists|snapshot: SnapshotView| #[trigger]
                        Self::ended_well(service).observed(&state, snapshot) && all_told(
                            service.stop_waiters,
                            snapshot,
                            completion.replies@,
                        )
                },
                Err(error) => {
                    &&& self.with_service(at, Self::ended_badly(service, error.display()), after)
                    &&& all_failed(
                        service.stop_waiters,
                        exit.name@,
                        error.display(),
                        completion.replies@,
                    )
                    &&& if error is Recoverable {
                        completion.result is Ok
                    } else {
                        completion.result == Err::<(), Error>(error)
                    }
                },
            }
        }
    }

    /// Takes note that a generation has ended, and answers those who waited for it. A
    /// recoverable failure is no error of the runtime.
    pub fn complete_service(&mut self, exit: ServiceExit) -> (completion: Completion<R>)
        requires
            old(self).wf(),
            old(self).state() is Some,
        ensures
            final(self).wf(),
            old(self).on_exit(exit, *final(self), completion),
    {
        let at: usize = match self.find(exit.name) {
            Some(at) => at,
            None => {
                return Completion {
                    replies: Vec::new(),
                    result: Err(
                        Error::other(
                            text3(
                                "completed runnable service '",
                                exit.name,
                                "' is not registered",
                            ),
                        ),
                    ),
                };
            },
        };
        let ghost before = self.services();
        proof {
            assert(self.is_at(exit.name@, self.place(exit.name@)));
            assert(self.place(exit.name@) == at);
            assert(self.services()[at as int] == self.services@[at as int]@);
        }
        let current: u64 = self.services[at].generation;
        if current != exit.generation {
            let mut text = text3("service '", exit.name, "' completed stale generation ");
            text.append(decimal(exit.generation).as_str());
            text.append(" while generation ");
            text.append(decimal(current).as_str());
            text.append(" is current");
            return Completion { replies: Vec::new(), result: Err(Error::other(text)) };
        }
        let service = &mut self.services[at];
        service.cancellation = None;
        let mut waiters: Vec<R> = Vec::new();
        std::mem::swap(&mut service.stop_waiters, &mut waiters);
        match exit.result {
            Ok(_) => {
                service.status = ServiceStatus::Stopped;
                service.last_error = None;
                let snapshot = match &self.state {
                    Some(state) => self.services[at].snapshot(state),
                    None => {
                        return Completion { replies: Vec::new(), result: Ok(()) };
                    },
                };
                proof {
                    assert(self.services() == before.update(at as int, self.services@[at as int]@));
                    assert(self.services()[at as int] == Self::ended_well(before[at as int]));
                }
                Completion { replies: tell_all(waiters, &snapshot), result: Ok(()) }
            },
            Err(error) => {
                let message = error.to_string();
                service.status = ServiceStatus::Failed;
                service.last_error = Some(message.clone());
                proof {
                    assert(self.services() == before.update(at as int, self.services@[at as int]@));
                    assert(self.services()[at as int] == Self::ended_badly(
                        before[at as int],
                        error.display(),
                    ));
                }
                let replies = fail_all(waiters, exit.name, &message);
                match error {
                    Error::Recoverable { name: _, source: _ } => Completion {
                        replies,
                        result: Ok(()),
                    },
                    fatal => Completion { replies, result: Err(fatal) },
                }
            },
        }
    }

    /// The service after the task of its live generation has been lost. Its scope stays
    /// as it is.
    pub open spec fn lost(service: ServiceModel<S, R>, text: Seq<char>) -> ServiceModel<S, R> {
        ServiceModel {
            status: ServiceStatus::Failed,
            last_error: Some(text),
            stop_waiters: Seq::empty(),
            ..service
        }
    }

    /// The task `id` ran the live generation of the service at `at`.
    pub open spec fn runs_live(self, id: Id, at: int) -> bool {
        &&& self.task(id) matches Some(identity)
        &&& self.is_at(identity.name@, at)
        &&& self.services()[at].generation == identity.generation
    }

    /// The loss of the task `id`, described by `text`, leads to `completion` and leaves `after`.
    pub open spec fn on_loss(
        self,
        id: Id,
        text: Seq<char>,
        after: Self,
        completion: Completion<R>,
    ) -> bool {
        &&& after.state() == self.state()
        &&& after.is_shutting_down() == self.is_shutting_down()
        &&& after.task(id) is None
        &&& forall|other: Id| other != id ==> #[trigger] after.task(other) == self.task(other)
        &&& completion.result matches Err(error)
        &&& error.says(
            text,
        )
        &&& if exists|at: int| #[trigger] self.runs_live(id, at) {
            let at = choose|at: int| #[trigger] self.runs_live(id, at);
            let service = self.services()[at];
            &&& after.services() == self.services().update(at, Self::lost(service, text))
            &&& all_failed(service.stop_waiters, service.name@, text, completion.replies@)
        } else {
            &&& after.services() == self.services()
            &&& completion.replies@.len() == 0
        }
    }

    /// Takes note that the task `id` did not run to completion, and answers those who
    /// waited for its generation.
    pub fn complete_lost_task(&mut self, id: Id, message: String) -> (completion: Completion<R>)
        requires
            old(self).wf(),
        ensures
            final(self).wf(),
            old(self).on_loss(id, message@, *final(self), completion),
    {
        let identity = match self.forget_task(&id) {
            Some(identity) => identity,
            None => {
                return Completion { replies: Vec::new(), result: Err(Error::other(message)) };
            },
        };
        let ghost middle = *self;
        let ghost before = self.services();
        let at: usize = match self.find(identity.name) {
            Some(at) => at,
            None => {
                proof {
                    assert forall|at: int| !#[trigger] old(self).runs_live(id, at) by {
                        assert(old(self).is_at(identity.name@, at) ==> self.is_at(
                            identity.name@,
                            at,
                        ));
                    }
                }
                return Completion { replies: Vec::new(), result: Err(Error::other(message)) };
            },
        };
        proof {
            assert(self.services()[at as int] == self.services@[at as int]@);
            assert(old(self).is_at(identity.name@, at as int));
            assert forall|other: int| #[trigger] old(self).runs_live(id, other) implies other
                == at by {
                assert(old(self).is_at(identity.name@, other));
            }
        }
        if self.services[at].generation != identity.generation {
            assert(!old(self).runs_live(id, at as int));
            return Completion { replies: Vec::new(), result: Err(Error::other(message)) };
        }
        assert(old(self).runs_live(id, at as int));
        let service = &mut self.services[at];
        service.status = ServiceStatus::Failed;
        service.last_error = Some(message.clone());
        let mut waiters: Vec<R> = Vec::new();
        std::mem::swap(&mut service.stop_waiters, &mut waiters);
        let replies = fail_all(waiters, identity.name, &message);
        proof {
            assert(self.services() == before.update(at as int, self.services@[at as int]@));
            assert(self.services()[at as int] == Self::lost(before[at as int], message@));
            assert forall|other: Id| other != id implies #[trigger] self.task(other) == old(self).task(
                other,
            ) by {
                assert(self.task(other) == middle.task(other));
            }
            let live = choose|live: int| #[trigger] old(self).runs_live(id, live);
            assert(live == at);
            assert(before[at as int].name@ == identity.name@);
        }
        Completion { replies, result: Err(Error::other(message)) }
    }

    /// The end of a task can lead to `completion` and leave `after`.
    pub open spec fn on_join(
        self,
        joined: Result<(Id, ServiceExit), JoinError>,
        after: Self,
        completion: Completion<R>,
    ) -> bool {
        match joined {
            Ok((id, exit)) => exists|middle: Self| #[trigger]
                self.without_task(id, middle) && middle.on_exit(exit, after, completion),
            Err(error) => self.on_loss(
                failed_task(error),
                failure_text(error),
                after,
                completion,
            ),
        }
    }

    /// Takes note that a task has ended: with the end of its generation, or without one
    /// because it panicked or was aborted.
    pub fn complete_join(&mut self, joined: Result<(Id, ServiceExit), JoinError>) -> (completion:
        Completion<R>)
        requires
            old(self).wf(),
            joined is Ok ==> old(self).state() is Some,
        ensures
            final(self).wf(),
            old(self).on_join(joined, *final(self), completion),
    {
        match joined {
            Ok((id, exit)) => {
                let _ = self.forget_task(&id);
                let ghost middle = *self;
                assert(old(self).without_task(id, middle));
                self.complete_service(exit)
            },
            Err(error) => {
                let id = task_of(&error);
                let message = describe(&error);
                self.complete_lost_task(id, message)
            },
        }
    }
}

} // verus!
