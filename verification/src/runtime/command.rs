//! Commands to the runtime, and what follows from them.
use vstd::prelude::*;

#[allow(unused_imports)]
use super::entry::ServiceModel;
#[allow(unused_imports)]
use super::{is_clone, StartFindings};
use super::{CommandOutcome, PendingReload, Reply, Runtime};
#[allow(unused_imports)]
use crate::cancellation::cancels;
use crate::registry::error::Error;
use crate::service::{ServiceCommand, ServiceManagerError, ServiceStartPolicy, ServiceStatus};
use crate::state::SharedState;

verus! {

/// What a refused command is answered.
pub open spec fn rejected<S, L, R>(
    command: ServiceCommand<L, R>,
    error: ServiceManagerError,
) -> CommandOutcome<S, L, R> {
    match command {
        ServiceCommand::List { reply } => CommandOutcome::List { reply, result: Err(error) },
        ServiceCommand::Start { name: _, reply } => CommandOutcome::Answer {
            reply,
            result: Err(error),
        },
        ServiceCommand::Stop { name: _, reply } => CommandOutcome::Answer {
            reply,
            result: Err(error),
        },
        ServiceCommand::Reload { name: _, reply } => CommandOutcome::Answer {
            reply,
            result: Err(error),
        },
    }
}

/// Answers a command with an error and does nothing else.
pub fn reject_command<S, L, R>(command: ServiceCommand<L, R>, error: ServiceManagerError) -> (outcome:
    CommandOutcome<S, L, R>)
    ensures
        outcome == rejected::<S, L, R>(command, error),
{
    match command {
        ServiceCommand::List { reply } => CommandOutcome::List { reply, result: Err(error) },
        ServiceCommand::Start { name: _, reply } => CommandOutcome::Answer {
            reply,
            result: Err(error),
        },
        ServiceCommand::Stop { name: _, reply } => CommandOutcome::Answer {
            reply,
            result: Err(error),
        },
        ServiceCommand::Reload { name: _, reply } => CommandOutcome::Answer {
            reply,
            result: Err(error),
        },
    }
}

impl<S: SharedState, R> Runtime<S, R> {
    /// A start command for `name` can lead to `outcome` and leave `after`.
    pub open spec fn on_start<L>(
        self,
        name: String,
        reply: R,
        after: Self,
        outcome: CommandOutcome<S, L, R>,
    ) -> bool {
        let at = self.place(name@);
        let service = self.services()[at];
        if !self.knows(name@) {
            after == self && outcome == (CommandOutcome::Answer::<S, L, R> {
                reply,
                result: Err(ServiceManagerError::NotFound(name)),
            })
        } else {
            &&& self.state() matches Some(state)
            &&& exists|policy: ServiceStartPolicy| #[trigger]
                service.runnable.starts(&state, policy) && if policy is Unavailable {
                    after == self && outcome == (CommandOutcome::Answer::<S, L, R> {
                        reply,
                        result: Err(ServiceManagerError::Unavailable(name)),
                    })
                } else if service.status is Running {
                    &&& after == self
                    &&& outcome matches CommandOutcome::Answer { reply: to, result: Ok(snapshot) }
                    &&& to == reply
                    &&& service.observed(&state, snapshot@)
                } else if service.status is Stopping {
                    after == self && outcome == (CommandOutcome::Answer::<S, L, R> {
                        reply,
                        result: Err(
                            ServiceManagerError::Busy { name, status: ServiceStatus::Stopping },
                        ),
                    })
                } else {
                    self.on_fresh_start(at, name, reply, after, outcome)
                }
        }
    }

    /// A start command for the idle service at `at` can lead to `outcome` and leave `after`.
    pub open spec fn on_fresh_start<L>(
        self,
        at: int,
        name: String,
        reply: R,
        after: Self,
        outcome: CommandOutcome<S, L, R>,
    ) -> bool {
        exists|findings: StartFindings<S>| #[trigger]
            self.finds(at, false, findings) && match outcome {
                CommandOutcome::Started { reply: to, launch, snapshot } => to == reply
                    && self.starts_generation(at, false, findings, after, Ok((launch, snapshot@))),
                CommandOutcome::Answer { reply: to, result } => {
                    &&& to == reply
                    &&& after == self
                    &&& result matches Err(error)
                    &&& error matches ServiceManagerError::OperationFailed { name: given, message }
                    &&& given == name
                    &&& self.refusal(at, false, findings) == Some(message@)
                },
                _ => false,
            }
    }
}

impl<S: 'static, R> Runtime<S, R> {
    /// A stop command for `name` can lead to `outcome` and leave `after`.
    pub open spec fn on_stop<L>(
        self,
        name: String,
        reply: R,
        after: Self,
        outcome: CommandOutcome<S, L, R>,
    ) -> bool {
        let at = self.place(name@);
        let service = self.services()[at];
        if !self.knows(name@) {
            after == self && outcome == (CommandOutcome::Answer::<S, L, R> {
                reply,
                result: Err(ServiceManagerError::NotFound(name)),
            })
        } else if service.status is Running {
            &&& outcome is Waiting
            &&& after.services()[at].cancellation matches Some(cancelled)
            &&& service.cancellation matches Some(live)
            &&& cancels(live, cancelled)
            &&& self.with_service(
                at,
                ServiceModel {
                    status: ServiceStatus::Stopping,
                    cancellation: Some(cancelled),
                    ended: true,
                    stop_waiters: service.stop_waiters.push(reply),
                    ..service
                },
                after,
            )
        } else if service.status is Stopping {
            &&& outcome is Waiting
            &&& self.with_service(
                at,
                ServiceModel { stop_waiters: service.stop_waiters.push(reply), ..service },
                after,
            )
        } else {
            &&& after == self
            &&& outcome matches CommandOutcome::Answer { reply: to, result: Ok(snapshot) }
            &&& to == reply
            &&& self.state() matches Some(state)
            &&& service.observed(&state, snapshot@)
        }
    }
}

impl<S: Clone + 'static, R> Runtime<S, R> {
    /// `pending` is a reload of the service at `at`, asked for under `name`.
    pub open spec fn is_reload_of(
        self,
        at: int,
        name: String,
        reply: R,
        pending: PendingReload<S, R>,
    ) -> bool {
        &&& pending.at == at
        &&& pending.service == self.services()[at].name
        &&& pending.position == self.services()[at].position
        &&& self.state() matches Some(state)
        &&& is_clone(state, pending.state)
        &&& pending.next_revision == self.services()[at].reload_revision + 1
        &&& pending.name == name
        &&& pending.reply == reply
    }

    /// A reload command for `name` can lead to `outcome`. It changes nothing until the
    /// provider has reloaded.
    pub open spec fn on_reload<L>(
        self,
        name: String,
        reply: R,
        outcome: CommandOutcome<S, L, R>,
    ) -> bool {
        let at = self.place(name@);
        let service = self.services()[at];
        if !self.knows(name@) {
            outcome == (CommandOutcome::Answer::<S, L, R> {
                reply,
                result: Err(ServiceManagerError::NotFound(name)),
            })
        } else if service.status is Stopping {
            outcome == (CommandOutcome::Answer::<S, L, R> {
                reply,
                result: Err(ServiceManagerError::Busy { name, status: ServiceStatus::Stopping }),
            })
        } else {
            ||| {
                &&& service.provider.answers_reloadable(false)
                &&& outcome == (CommandOutcome::Answer::<S, L, R> {
                    reply,
                    result: Err(ServiceManagerError::NotReloadable(name)),
                })
            }
            ||| {
                &&& service.provider.answers_reloadable(true)
                &&& service.reload_revision == u64::MAX
                &&& outcome matches CommandOutcome::Answer { reply: to, result: Err(error) }
                &&& to == reply
                &&& error matches ServiceManagerError::OperationFailed { name: given, message }
                &&& given == name
                &&& message@ == "reload revision overflow"@
            }
            ||| {
                &&& service.provider.answers_reloadable(true)
                &&& service.reload_revision < u64::MAX
                &&& outcome matches CommandOutcome::Reloading(pending)
                &&& self.is_reload_of(at, name, reply, pending)
            }
        }
    }
}

impl<S: SharedState, R> Runtime<S, R> {
    /// A command can lead to `outcome` and leave `after`. Once shutdown has begun, every
    /// command is refused and nothing changes.
    pub open spec fn on_command<L>(
        self,
        command: ServiceCommand<L, R>,
        after: Self,
        outcome: CommandOutcome<S, L, R>,
    ) -> bool {
        if self.is_shutting_down() {
            after == self && outcome == rejected::<S, L, R>(
                command,
                ServiceManagerError::ShuttingDown,
            )
        } else {
            match command {
                ServiceCommand::List { reply } => {
                    &&& after == self
                    &&& outcome matches CommandOutcome::List { reply: to, result: Ok(snapshots) }
                    &&& to == reply
                    &&& self.lists(snapshots@)
                },
                ServiceCommand::Start { name, reply } => self.on_start(name, reply, after, outcome),
                ServiceCommand::Stop { name, reply } => self.on_stop(name, reply, after, outcome),
                ServiceCommand::Reload { name, reply } => after == self && self.on_reload(
                    name,
                    reply,
                    outcome,
                ),
            }
        }
    }

    /// Carries a command out, as far as that is up to the runtime itself.
    pub fn handle_command<L>(&mut self, command: ServiceCommand<L, R>) -> (outcome: CommandOutcome<
        S,
        L,
        R,
    >)
        requires
            old(self).wf(),
            command is List && !old(self).is_shutting_down() ==> old(self).state() is Some,
        ensures
            final(self).wf(),
            old(self).on_command(command, *final(self), outcome),
    {
        if self.shutting_down {
            return reject_command(command, ServiceManagerError::ShuttingDown);
        }
        match command {
            ServiceCommand::List { reply } => CommandOutcome::List {
                reply,
                result: Ok(self.snapshots()),
            },
            ServiceCommand::Start { name, reply } => self.handle_start(name, reply),
            ServiceCommand::Stop { name, reply } => self.handle_stop(name, reply),
            ServiceCommand::Reload { name, reply } => self.handle_reload(name, reply),
        }
    }

    fn handle_start<L>(&mut self, name: String, reply: R) -> (outcome: CommandOutcome<S, L, R>)
        requires
            old(self).wf(),
        ensures
            final(self).wf(),
            old(self).on_start(name, reply, *final(self), outcome),
    {
        let at: usize = match self.find(name.as_str()) {
            Some(at) => at,
            None => {
                return CommandOutcome::Answer {
                    reply,
                    result: Err(ServiceManagerError::NotFound(name)),
                };
            },
        };
        proof {
            assert(self.is_at(name@, self.place(name@)));
            assert(self.place(name@) == at);
            assert(self.services()[at as int] == self.services@[at as int]@);
        }
        let status = self.services[at].status;
        let state = match &self.state {
            Some(state) => state,
            None => {
                return CommandOutcome::Answer {
                    reply,
                    result: Err(ServiceManagerError::RuntimeUnavailable),
                };
            },
        };
        let policy = self.services[at].runnable.start_policy(state);
        assert(self.services()[at as int].runnable.starts(state, policy));
        if policy == ServiceStartPolicy::Unavailable {
            return CommandOutcome::Answer {
                reply,
                result: Err(ServiceManagerError::Unavailable(name)),
            };
        }
        match status {
            ServiceStatus::Running => CommandOutcome::Answer {
                reply,
                result: Ok(self.services[at].snapshot(state)),
            },
            ServiceStatus::Stopping => CommandOutcome::Answer {
                reply,
                result: Err(ServiceManagerError::Busy { name, status }),
            },
            ServiceStatus::Stopped | ServiceStatus::Failed => {
                let started = self.start_generation(self.services[at].name, false);
                match started {
                    Ok((launch, snapshot)) => {
                        let outcome = CommandOutcome::Started { reply, launch, snapshot };
                        assert(old(self).on_fresh_start(at as int, name, reply, *self, outcome));
                        outcome
                    },
                    Err(error) => {
                        let message = error.to_string();
                        let outcome = CommandOutcome::Answer {
                            reply,
                            result: Err(ServiceManagerError::OperationFailed { name, message }),
                        };
                        assert(old(self).on_fresh_start(at as int, name, reply, *self, outcome));
                        outcome
                    },
                }
            },
        }
    }
}

impl<S: 'static, R> Runtime<S, R> {
    fn handle_stop<L>(&mut self, name: String, reply: R) -> (outcome: CommandOutcome<S, L, R>)
        requires
            old(self).wf(),
        ensures
            final(self).wf(),
            old(self).on_stop(name, reply, *final(self), outcome),
    {
        let at: usize = match self.find(name.as_str()) {
            Some(at) => at,
            None => {
                return CommandOutcome::Answer {
                    reply,
                    result: Err(ServiceManagerError::NotFound(name)),
                };
            },
        };
        let ghost before = self.services();
        proof {
            assert(self.is_at(name@, self.place(name@)));
            assert(self.place(name@) == at);
            assert(self.services()[at as int] == self.services@[at as int]@);
            assert(self.services()[at as int].wf());
        }
        match self.services[at].status {
            ServiceStatus::Running => {
                let service = &mut self.services[at];
                service.status = ServiceStatus::Stopping;
                service.stop_waiters.push(reply);
                let live = service.cancellation.take();
                if let Some(scope) = live {
                    service.cancellation = Some(scope.cancel());
                }
                proof {
                    assert(self.services() == before.update(at as int, self.services@[at as int]@));
                }
                CommandOutcome::Waiting
            },
            ServiceStatus::Stopping => {
                let service = &mut self.services[at];
                service.stop_waiters.push(reply);
                proof {
                    assert(self.services() == before.update(at as int, self.services@[at as int]@));
                }
                CommandOutcome::Waiting
            },
            ServiceStatus::Stopped | ServiceStatus::Failed => match &self.state {
                Some(state) => CommandOutcome::Answer {
                    reply,
                    result: Ok(self.services[at].snapshot(state)),
                },
                None => CommandOutcome::Answer {
                    reply,
                    result: Err(ServiceManagerError::RuntimeUnavailable),
                },
            },
        }
    }
}

impl<S: Clone + 'static, R> Runtime<S, R> {
    fn handle_reload<L>(&mut self, name: String, reply: R) -> (outcome: CommandOutcome<S, L, R>)
        requires
            old(self).wf(),
        ensures
            *final(self) == *old(self),
            old(self).on_reload(name, reply, outcome),
    {
        let at: usize = match self.find(name.as_str()) {
            Some(at) => at,
            None => {
                return CommandOutcome::Answer {
                    reply,
                    result: Err(ServiceManagerError::NotFound(name)),
                };
            },
        };
        proof {
            assert(self.is_at(name@, self.place(name@)));
            assert(self.place(name@) == at);
            assert(self.services()[at as int] == self.services@[at as int]@);
        }
        let status = self.services[at].status;
        if status == ServiceStatus::Stopping {
            return CommandOutcome::Answer {
                reply,
                result: Err(ServiceManagerError::Busy { name, status }),
            };
        }
        let state = match &self.state {
            Some(state) => state.clone(),
            None => {
                return CommandOutcome::Answer {
                    reply,
                    result: Err(ServiceManagerError::RuntimeUnavailable),
                };
            },
        };
        if !self.services[at].provider.is_reloadable() {
            return CommandOutcome::Answer {
                reply,
                result: Err(ServiceManagerError::NotReloadable(name)),
            };
        }
        let next_revision: u64 = match self.services[at].reload_revision.checked_add(1) {
            Some(revision) => revision,
            None => {
                let message = "reload revision overflow".to_owned();
                return CommandOutcome::Answer {
                    reply,
                    result: Err(ServiceManagerError::OperationFailed { name, message }),
                };
            },
        };
        CommandOutcome::Reloading(
            PendingReload {
                at,
                service: self.services[at].name,
                position: self.services[at].position,
                state,
                next_revision,
                name,
                reply,
            },
        )
    }
}

impl<S: 'static, R> Runtime<S, R> {
    /// The service after a targeted reload has been completed with `result`.
    pub open spec fn reloaded(
        self,
        pending: PendingReload<S, R>,
        result: Result<(), Error>,
    ) -> ServiceModel<S, R> {
        ServiceModel {
            reload_revision: pending.next_revision,
            last_reload_error: match result {
                Ok(_) => None,
                Err(error) => Some(error.reload_error(pending.service).display()),
            },
            ..self.services()[pending.at as int]
        }
    }

    /// `pending` is still what it was made for: a reload of the service at its place, and the
    /// next one to be completed there.
    pub open spec fn is_due(self, pending: PendingReload<S, R>) -> bool {
        &&& pending.at < self.services().len()
        &&& pending.service == self.services()[pending.at as int].name
        &&& pending.next_revision == self.services()[pending.at as int].reload_revision + 1
    }

    /// A targeted reload that ended with `result` leaves `after`.
    pub open spec fn finishes_reload(
        self,
        pending: PendingReload<S, R>,
        result: Result<(), Error>,
        after: Self,
    ) -> bool {
        &&& self.is_due(pending)
        &&& self.with_service(pending.at as int, self.reloaded(pending, result), after)
    }

    /// What the one is told who asked for a targeted reload that ended with `result`: how the
    /// service is after it, or what went wrong.
    pub open spec fn answers_reload(
        self,
        pending: PendingReload<S, R>,
        result: Result<(), Error>,
        reply: Reply<R>,
    ) -> bool {
        &&& reply.to == pending.reply
        &&& match (result, reply.result) {
            (Ok(_), Ok(snapshot)) => self.reloaded(pending, result).observed(
                &pending.state,
                snapshot@,
            ),
            (Err(error), Err(failure)) => {
                &&& failure matches ServiceManagerError::OperationFailed { name, message }
                &&& name == pending.name
                &&& message@ == error.reload_error(pending.service).display()
            },
            _ => false,
        }
    }

    /// Completes a targeted reload with what the provider came back with. The revision
    /// advances whether or not the reload succeeded.
    pub fn finish_reload(&mut self, pending: PendingReload<S, R>, result: Result<(), Error>) -> (reply:
        Reply<R>)
        requires
            old(self).wf(),
            old(self).is_due(pending),
        ensures
            final(self).wf(),
            old(self).finishes_reload(pending, result, *final(self)),
            old(self).answers_reload(pending, result, reply),
            reply.to == pending.reply,
            match (result, reply.result) {
                (Ok(_), Ok(snapshot)) => old(self).reloaded(pending, result).observed(
                    &pending.state,
                    snapshot@,
                ),
                (Err(error), Err(failure)) => {
                    &&& failure matches ServiceManagerError::OperationFailed { name, message }
                    &&& name == pending.name
                    &&& message@ == error.reload_error(pending.service).display()
                },
                _ => false,
            },
    {
        let ghost before = self.services();
        let PendingReload { at, service: service_name, position: _, state, next_revision, name, reply } =
            pending;
        assert(self.services()[at as int] == self.services@[at as int]@);
        assert(self.services()[at as int].wf());
        let service = &mut self.services[at];
        service.reload_revision = next_revision;
        match result {
            Ok(_) => {
                service.last_reload_error = None;
                let snapshot = service.snapshot(&state);
                proof {
                    assert(self.services() == before.update(at as int, self.services@[at as int]@));
                }
                Reply { to: reply, result: Ok(snapshot) }
            },
            Err(error) => {
                let message = error.into_reload(service_name).to_string();
                service.last_reload_error = Some(message.clone());
                proof {
                    assert(self.services() == before.update(at as int, self.services@[at as int]@));
                }
                Reply {
                    to: reply,
                    result: Err(ServiceManagerError::OperationFailed { name, message }),
                }
            },
        }
    }
}

} // verus!
