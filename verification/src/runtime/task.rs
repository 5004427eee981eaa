//! The tasks that run service generations, and how they end.
use tokio::task::{Id, JoinError};
use vstd::prelude::*;

use crate::registry::error::Error;

verus! {

/// `tokio::task::Id`, an opaque identifier of a task.
#[verifier::external_type_specification]
#[verifier::external_body]
pub struct ExTaskId(Id);

/// `tokio::task::JoinError`, how a task ended that did not run to completion.
#[verifier::external_type_specification]
#[verifier::external_body]
pub struct ExJoinError(JoinError);

/// The task that a join error is about: what `JoinError::id` returns.
pub uninterp spec fn failed_task(error: JoinError) -> Id;

/// The text of a join error: what its `Display` writes.
pub uninterp spec fn failure_text(error: JoinError) -> Seq<char>;

/// Compares two task identifiers with `Id`'s `==`, which holds exactly for equal ones.
#[verifier::external_body]
pub(crate) fn same_task(a: &Id, b: &Id) -> (same: bool)
    ensures
        same == (*a == *b),
{
    a == b
}

/// Calls `JoinError::id`, which reads the identifier that the error was made with.
#[verifier::external_body]
pub(crate) fn task_of(error: &JoinError) -> (id: Id)
    ensures
        id == failed_task(*error),
{
    error.id()
}

/// Calls `to_string` on a `JoinError`. Its `Display` writes the identifier of the
/// task, whether it was cancelled or panicked, and the panic message where that is a
/// text: all of it fixed when the error was made.
#[verifier::external_body]
pub(crate) fn describe(error: &JoinError) -> (text: String)
    ensures
        text@ == failure_text(*error),
{
    error.to_string()
}

/// Which generation of which service a task runs.
#[derive(Clone, Copy)]
pub struct TaskIdentity {
    pub name: &'static str,
    pub generation: u64,
}

impl TaskIdentity {
    /// How this generation ended, given what its task came back with. An error is told
    /// apart as one of this service.
    pub fn exit(self, result: Result<(), Error>) -> (exit: ServiceExit)
        ensures
            exit.name == self.name,
            exit.generation == self.generation,
            match (result, exit.result) {
                (Ok(_), Ok(_)) => true,
                (Err(error), Err(failure)) => failure == error.run_error(self.name),
                _ => false,
            },
    {
        let result = match result {
            Ok(_) => Ok(()),
            Err(error) => Err(error.into_run(self.name)),
        };
        ServiceExit { name: self.name, generation: self.generation, result }
    }
}

/// The end of one generation of a service.
pub struct ServiceExit {
    pub name: &'static str,
    pub generation: u64,
    pub result: Result<(), Error>,
}

} // verus!
