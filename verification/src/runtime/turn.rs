//! The turns of a running runtime: what happened, and what is to be done about it.
use tokio::task::{Id, JoinError};
use vstd::prelude::*;

#[allow(unused_imports)]
use super::ending::all_rejected;
use super::task::{task_of, ServiceExit};
#[allow(unused_imports)]
use super::task::failed_task;
use super::{CommandOutcome, Completion, Reply, Runtime};
use crate::registry::error::Error;
use crate::service::ServiceCommand;
use crate::state::SharedState;

verus! {

/// What a waiting runtime is woken by.
pub enum RuntimeEvent<L, R> {
    /// The shutdown scope has been cancelled. These commands were still in the channel.
    Shutdown(Vec<ServiceCommand<L, R>>),
    /// A command has come, or the channel is closed.
    Command(Option<ServiceCommand<L, R>>),
    /// A task has ended, or there is none left.
    Joined(Option<Result<(Id, ServiceExit), JoinError>>),
}

/// What is to be done after an event.
pub enum Turn<S, L, R> {
    /// Do what follows from the command, then wait on.
    Command(CommandOutcome<S, L, R>),
    /// Give these answers, then wait on.
    Replies(Vec<Reply<R>>),
    /// Give these answers, then stop waiting with this result.
    Leave {
        outcomes: Vec<CommandOutcome<S, L, R>>,
        replies: Vec<Reply<R>>,
        result: Result<(), Error>,
    },
}

impl<S: 'static, R> Runtime<S, R> {
    /// The end of a task can lead to `turn` and leave `after`.
    pub open spec fn on_ended<L>(
        self,
        joined: Result<(Id, ServiceExit), JoinError>,
        after: Self,
        turn: Turn<S, L, R>,
    ) -> bool {
        match turn {
            Turn::Command(_) => false,
            Turn::Replies(replies) => exists|completion: Completion<R>| #[trigger]
                self.on_join(joined, after, completion) && completion.result is Ok
                    && completion.replies == replies,
            Turn::Leave { outcomes, replies, result } => {
                &&& outcomes@.len() == 0
                &&& result is Err
                &&& exists|completion: Completion<R>| #[trigger]
                    self.on_join(joined, after, completion) && completion.result == result
                        && completion.replies == replies
            },
        }
    }
}

impl<S: SharedState, R> Runtime<S, R> {
    /// An event can lead to `turn` and leave `after`.
    pub open spec fn on_event<L>(
        self,
        event: RuntimeEvent<L, R>,
        after: Self,
        turn: Turn<S, L, R>,
    ) -> bool {
        match event {
            RuntimeEvent::Shutdown(pending) => {
                &&& self.shut_down(after)
                &&& turn matches Turn::Leave { outcomes, replies, result }
                &&& all_rejected(pending@, outcomes@)
                &&& replies@.len() == 0
                &&& result is Ok
            },
            RuntimeEvent::Command(Some(command)) => {
                &&& turn matches Turn::Command(outcome)
                &&& self.on_command(command, after, outcome)
            },
            RuntimeEvent::Command(None) => {
                &&& after == self
                &&& turn matches Turn::Leave { outcomes, replies, result }
                &&& outcomes@.len() == 0
                &&& replies@.len() == 0
                &&& result matches Err(error)
                &&& error.says(
                    "service manager command channel closed"@,
                )
            },
            RuntimeEvent::Joined(Some(joined)) => self.on_ended(joined, after, turn),
            RuntimeEvent::Joined(None) => {
                &&& after == self
                &&& turn matches Turn::Replies(replies)
                &&& replies@.len() == 0
            },
        }
    }

    /// The runtime is ready for the event: there is a state to answer it with.
    pub open spec fn expects<L>(self, event: RuntimeEvent<L, R>) -> bool {
        match event {
            RuntimeEvent::Shutdown(_) => true,
            RuntimeEvent::Command(Some(command)) => command is List && !self.is_shutting_down()
                ==> self.state() is Some,
            RuntimeEvent::Command(None) => true,
            RuntimeEvent::Joined(Some(joined)) => joined is Ok ==> self.state() is Some,
            RuntimeEvent::Joined(None) => true,
        }
    }

    /// One turn of waiting for process shutdown or a critical failure. A runtime
    /// without live generations keeps waiting, so that stopped services can be started
    /// again; it then listens for shutdown and commands only.
    pub fn wait_until_shutdown<L>(&mut self, event: RuntimeEvent<L, R>) -> (turn: Turn<S, L, R>)
        requires
            old(self).wf(),
            old(self).expects(event),
        ensures
            final(self).wf(),
            old(self).on_event(event, *final(self), turn),
    {
        match event {
            RuntimeEvent::Shutdown(pending) => {
                let outcomes = self.begin_shutdown(pending);
                Turn::Leave { outcomes, replies: Vec::new(), result: Ok(()) }
            },
            RuntimeEvent::Command(Some(command)) => Turn::Command(self.handle_command(command)),
            RuntimeEvent::Command(None) => Turn::Leave {
                outcomes: Vec::new(),
                replies: Vec::new(),
                result: Err(Error::msg("service manager command channel closed")),
            },
            RuntimeEvent::Joined(Some(joined)) => self.take_join(joined),
            RuntimeEvent::Joined(None) => Turn::Replies(Vec::new()),
        }
    }
}

impl<S: 'static, R> Runtime<S, R> {
    fn take_join<L>(&mut self, joined: Result<(Id, ServiceExit), JoinError>) -> (turn: Turn<S, L, R>)
        requires
            old(self).wf(),
            joined is Ok ==> old(self).state() is Some,
        ensures
            final(self).wf(),
            old(self).on_ended(joined, *final(self), turn),
    {
        let completion = self.complete_join(joined);
        assert(old(self).on_join(joined, *self, completion));
        let Completion { replies, result } = completion;
        match result {
            Ok(_) => Turn::Replies(replies),
            Err(error) => Turn::Leave { outcomes: Vec::new(), replies, result: Err(error) },
        }
    }

    /// One turn of waiting for the remaining tasks to finish on their own. `None` says
    /// that none is left.
    ///
    /// The shutdown scope has already cancelled every generation. Each service owns its
    /// graceful drain; no deadline is imposed here.
    pub fn drain<L>(&mut self, joined: Option<Result<(Id, ServiceExit), JoinError>>) -> (turn: Turn<
        S,
        L,
        R,
    >)
        requires
            old(self).wf(),
            joined matches Some(Ok(_)) ==> old(self).state() is Some,
        ensures
            final(self).wf(),
            match joined {
                Some(joined) => old(self).on_ended(joined, *final(self), turn),
                None => {
                    &&& *final(self) == *old(self)
                    &&& turn matches Turn::Leave { outcomes, replies, result }
                    &&& outcomes@.len() == 0
                    &&& replies@.len() == 0
                    &&& result is Ok
                },
            },
    {
        match joined {
            Some(joined) => self.take_join(joined),
            None => Turn::Leave { outcomes: Vec::new(), replies: Vec::new(), result: Ok(()) },
        }
    }

    /// Begins shutdown before the remaining tasks are aborted. `pending` are the
    /// commands that were still in the channel.
    pub fn abort_and_drain<L>(&mut self, pending: Vec<ServiceCommand<L, R>>) -> (outcomes: Vec<
        CommandOutcome<S, L, R>,
    >)
        requires
            old(self).wf(),
        ensures
            final(self).wf(),
            old(self).shut_down(*final(self)),
            all_rejected(pending@, outcomes@),
    {
        self.begin_shutdown(pending)
    }

    /// Forgets a task that has ended after it was told to abort, however it ended.
    pub fn discard_join(&mut self, joined: Result<(Id, ServiceExit), JoinError>)
        requires
            old(self).wf(),
        ensures
            final(self).wf(),
            old(self).without_task(
                match joined {
                    Ok((id, _)) => id,
                    Err(error) => failed_task(error),
                },
                *final(self),
            ),
    {
        let id = match joined {
            Ok((id, _)) => id,
            Err(error) => task_of(&error),
        };
        let _ = self.forget_task(&id);
    }
}

} // verus!
