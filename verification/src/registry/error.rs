//! Why a registry or a runtime operation failed.
use vstd::prelude::*;

use crate::text::{text3, text4};

verus! {

/// A failure, and what caused it.
///
/// An application builds one from an error of its own by writing down the text of that
/// error and of each error below it, so that the chain can still be walked.
#[derive(Debug)]
pub struct Failure {
    /// What went wrong.
    pub text: String,
    /// Why, from the nearest cause to the root.
    pub causes: Vec<String>,
}

impl Failure {
    /// A failure that no other one caused.
    pub fn new(text: String) -> (failure: Self)
        ensures
            failure.text == text,
            failure.causes@.len() == 0,
    {
        Failure { text, causes: Vec::new() }
    }
}

/// Why a registry or a runtime operation failed.
///
/// Providers hand back [`Error::Other`], most often through [`Error::msg`]. The
/// registry re-wraps it into the variant of the lifecycle stage at the call site,
/// so that logs and matches see where the failure happened. A provider that builds
/// a typed variant itself keeps it: the registry leaves it untouched.
///
/// The source is the underlying failure, with what caused it.
#[derive(Debug)]
pub enum Error {
    DuplicateProvider { type_label: &'static str },
    Boot { name: &'static str, source: Failure },
    Validate { name: &'static str, source: Failure },
    Reload { name: &'static str, source: Failure },
    Finalize { name: &'static str, source: Failure },
    /// Fatal runnable failure (default). The runtime tears the worker
    /// down so the supervisor can respawn cleanly.
    Run { name: &'static str, source: Failure },
    /// Recoverable runnable failure. The runtime logs and keeps the
    /// worker serving: for best-effort tasks where a transient or
    /// configuration-driven failure should not end the traffic.
    Recoverable { name: &'static str, source: Failure },
    Other(Failure),
}

impl Error {
    /// The text that stands for this error in logs and replies.
    pub open spec fn display(self) -> Seq<char> {
        match self {
            Error::DuplicateProvider { type_label } => "provider type '"@ + type_label@
                + "' is already registered"@,
            Error::Boot { name, source } => "provider '"@ + name@ + "' failed during boot: "@
                + source.text@,
            Error::Validate { name, source } => "provider '"@ + name@
                + "' failed during validate: "@ + source.text@,
            Error::Reload { name, source } => "reload of '"@ + name@ + "' failed: "@ + source.text@,
            Error::Finalize { name, source } => "finalize of '"@ + name@ + "' failed: "@ + source.text@,
            Error::Run { name, source } => "runnable '"@ + name@ + "' failed: "@ + source.text@,
            Error::Recoverable { name, source } => "runnable '"@ + name@
                + "' failed (recoverable): "@ + source.text@,
            Error::Other(source) => source.text@,
        }
    }

    /// The text of the error, with the stage and the provider where it has them.
    pub fn to_string(&self) -> (text: String)
        ensures
            text@ == self.display(),
    {
        match self {
            Error::DuplicateProvider { type_label } => text3(
                "provider type '",
                type_label,
                "' is already registered",
            ),
            Error::Boot { name, source } => text4(
                "provider '",
                name,
                "' failed during boot: ",
                source.text.as_str(),
            ),
            Error::Validate { name, source } => text4(
                "provider '",
                name,
                "' failed during validate: ",
                source.text.as_str(),
            ),
            Error::Reload { name, source } => text4(
                "reload of '",
                name,
                "' failed: ",
                source.text.as_str(),
            ),
            Error::Finalize { name, source } => text4(
                "finalize of '",
                name,
                "' failed: ",
                source.text.as_str(),
            ),
            Error::Run { name, source } => text4("runnable '", name, "' failed: ", source.text.as_str()),
            Error::Recoverable { name, source } => text4(
                "runnable '",
                name,
                "' failed (recoverable): ",
                source.text.as_str(),
            ),
            Error::Other(source) => source.text.clone(),
        }
    }

    /// This is a plain message with the given text.
    pub open spec fn says(self, text: Seq<char>) -> bool {
        self matches Error::Other(source) && source.text@ == text && source.causes@.len() == 0
    }

    /// The underlying failure, if there is one.
    pub open spec fn failure(self) -> Option<Failure> {
        match self {
            Error::DuplicateProvider { .. } => None,
            Error::Boot { name: _, source } => Some(source),
            Error::Validate { name: _, source } => Some(source),
            Error::Reload { name: _, source } => Some(source),
            Error::Finalize { name: _, source } => Some(source),
            Error::Run { name: _, source } => Some(source),
            Error::Recoverable { name: _, source } => Some(source),
            Error::Other(source) => Some(source),
        }
    }

    /// The underlying failure, to walk down to its root.
    pub fn source(&self) -> (source: Option<&Failure>)
        ensures
            match source {
                Some(source) => self.failure() == Some(*source),
                None => self.failure() is None,
            },
    {
        match self {
            Error::DuplicateProvider { .. } => None,
            Error::Boot { name: _, source } => Some(source),
            Error::Validate { name: _, source } => Some(source),
            Error::Reload { name: _, source } => Some(source),
            Error::Finalize { name: _, source } => Some(source),
            Error::Run { name: _, source } => Some(source),
            Error::Recoverable { name: _, source } => Some(source),
            Error::Other(source) => Some(source),
        }
    }

    /// Builds [`Error::Other`] from a text.
    pub fn other(text: String) -> (error: Self)
        ensures
            error.says(text@),
    {
        Error::Other(Failure::new(text))
    }

    /// Builds [`Error::Other`] from an arbitrary message.
    pub fn msg<T: Into<String>>(s: T) -> (error: Self)
        ensures
            error matches Error::Other(source) && call_ensures(T::into, (s,), source.text)
                && source.causes@.len() == 0,
    {
        Error::Other(Failure::new(s.into()))
    }

    /// Builds a recoverable runnable error from an arbitrary message.
    ///
    /// The runtime logs it and lets the worker keep serving instead of tearing it
    /// down. The provider name is filled in by [`Error::into_run`], so callers only
    /// supply the message.
    pub fn recoverable<T: Into<String>>(s: T) -> (error: Self)
        ensures
            error matches Error::Recoverable { name, source } && name@ == ""@ && call_ensures(
                T::into,
                (s,),
                source.text,
            ) && source.causes@.len() == 0,
    {
        Error::Recoverable { name: "", source: Failure::new(s.into()) }
    }

    /// The boot error that this one becomes for the provider `name`.
    pub open spec fn boot_error(self, name: &'static str) -> Error {
        match self {
            Error::Other(source) => Error::Boot { name, source },
            other => other,
        }
    }

    /// The validation error that this one becomes for the provider `name`.
    pub open spec fn validate_error(self, name: &'static str) -> Error {
        match self {
            Error::Other(source) => Error::Validate { name, source },
            other => other,
        }
    }

    /// The reload error that this one becomes for the provider `name`.
    pub open spec fn reload_error(self, name: &'static str) -> Error {
        match self {
            Error::Other(source) => Error::Reload { name, source },
            other => other,
        }
    }

    /// The finalization error that this one becomes for the provider `name`.
    pub open spec fn finalize_error(self, name: &'static str) -> Error {
        match self {
            Error::Other(source) => Error::Finalize { name, source },
            other => other,
        }
    }

    /// The run error that this one becomes for the provider `name`.
    pub open spec fn run_error(self, name: &'static str) -> Error {
        match self {
            Error::Other(source) => Error::Run { name, source },
            Error::Recoverable { name: given, source } if given@.len() == 0 => Error::Recoverable {
                name,
                source,
            },
            other => other,
        }
    }

    /// Re-wraps [`Error::Other`] as [`Error::Boot`]; any other error is left untouched.
    pub fn into_boot(self, name: &'static str) -> (error: Self)
        ensures
            error == self.boot_error(name),
    {
        match self {
            Error::Other(source) => Error::Boot { name, source },
            other => other,
        }
    }

    /// Re-wraps [`Error::Other`] as [`Error::Validate`]; any other error is left untouched.
    pub fn into_validate(self, name: &'static str) -> (error: Self)
        ensures
            error == self.validate_error(name),
    {
        match self {
            Error::Other(source) => Error::Validate { name, source },
            other => other,
        }
    }

    /// Re-wraps [`Error::Other`] as [`Error::Reload`]; any other error is left untouched.
    pub fn into_reload(self, name: &'static str) -> (error: Self)
        ensures
            error == self.reload_error(name),
    {
        match self {
            Error::Other(source) => Error::Reload { name, source },
            other => other,
        }
    }

    /// Re-wraps [`Error::Other`] as [`Error::Finalize`]; any other error is left untouched.
    pub fn into_finalize(self, name: &'static str) -> (error: Self)
        ensures
            error == self.finalize_error(name),
    {
        match self {
            Error::Other(source) => Error::Finalize { name, source },
            other => other,
        }
    }

    /// Re-wraps [`Error::Other`] as [`Error::Run`] and fills in the name of a
    /// [`Error::Recoverable`] that has none; any other error is left untouched.
    pub fn into_run(self, name: &'static str) -> (error: Self)
        ensures
            error == self.run_error(name),
    {
        match self {
            Error::Other(source) => Error::Run { name, source },
            Error::Recoverable { name: given, source } => {
                if given.is_empty() {
                    Error::Recoverable { name, source }
                } else {
                    Error::Recoverable { name: given, source }
                }
            },
            other => other,
        }
    }
}

/// The stage and the name that an error takes on do not touch its source: what can be
/// walked down to before can be walked down to after.
pub proof fn law_stage_keeps_the_source(error: Error, name: &'static str)
    ensures
        error.boot_error(name).failure() == error.failure(),
        error.validate_error(name).failure() == error.failure(),
        error.reload_error(name).failure() == error.failure(),
        error.finalize_error(name).failure() == error.failure(),
        error.run_error(name).failure() == error.failure(),
{
}

/// A plain error takes on the stage and the provider at which it came up, and an error that
/// has a stage of its own keeps it: it is handed on as it is.
pub proof fn law_stage_is_taken_on_once(error: Error, name: &'static str)
    ensures
        error matches Error::Other(source) ==> {
            &&& error.boot_error(name) == Error::Boot { name, source }
            &&& error.validate_error(name) == Error::Validate { name, source }
            &&& error.reload_error(name) == Error::Reload { name, source }
            &&& error.finalize_error(name) == Error::Finalize { name, source }
            &&& error.run_error(name) == Error::Run { name, source }
        },
        error !is Other ==> {
            &&& error.boot_error(name) == error
            &&& error.validate_error(name) == error
            &&& error.reload_error(name) == error
            &&& error.finalize_error(name) == error
        },
        error !is Other && error !is Recoverable ==> error.run_error(name) == error,
        error matches Error::Recoverable { name: given, source } ==> {
            &&& given@.len() == 0 ==> error.run_error(name) == Error::Recoverable { name, source }
            &&& given@.len() > 0 ==> error.run_error(name) == error
        },
{
}

/// A failure of a task is recoverable exactly if the task said so: naming the provider neither
/// makes it fatal nor saves it.
pub proof fn law_naming_decides_nothing(error: Error, name: &'static str)
    ensures
        error.run_error(name) is Recoverable <==> error is Recoverable,
        error.boot_error(name) is Recoverable <==> error is Recoverable,
        error.reload_error(name) is Recoverable <==> error is Recoverable,
{
}

/// The text of an error ends with that of the failure below it, behind the name of the
/// provider where it has one.
pub proof fn law_text_tells_the_failure(error: Error, name: &'static str, source: Failure)
    requires
        error == (Error::Boot { name, source }) || error == (Error::Validate { name, source })
            || error == (Error::Reload { name, source }) || error == (Error::Finalize {
            name,
            source,
        }) || error == (Error::Run { name, source }) || error == (Error::Recoverable {
            name,
            source,
        }),
    ensures
        exists|opening: Seq<char>, middle: Seq<char>|
            error.display() == #[trigger] (opening + name@ + middle + source.text@),
{
    match error {
        Error::Boot { .. } => {
            assert(error.display() == "provider '"@ + name@ + "' failed during boot: "@
                + source.text@);
        },
        Error::Validate { .. } => {
            assert(error.display() == "provider '"@ + name@ + "' failed during validate: "@
                + source.text@);
        },
        Error::Reload { .. } => {
            assert(error.display() == "reload of '"@ + name@ + "' failed: "@ + source.text@);
        },
        Error::Finalize { .. } => {
            assert(error.display() == "finalize of '"@ + name@ + "' failed: "@ + source.text@);
        },
        Error::Run { .. } => {
            assert(error.display() == "runnable '"@ + name@ + "' failed: "@ + source.text@);
        },
        _ => {
            assert(error.display() == "runnable '"@ + name@ + "' failed (recoverable): "@
                + source.text@);
        },
    }
}

} // verus!
