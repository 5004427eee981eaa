//! Cancellation scopes: the calls into `tokio_util`'s `CancellationToken`.
//!
//! A token is a shared handle, and any other holder of it can cancel it at any time.
//! What can be known of a token is therefore one-sided: that it has been cancelled,
//! which is never undone.
use tokio_util::sync::CancellationToken;
use vstd::prelude::*;

use crate::state::ShutdownKey;

verus! {

/// `tokio_util::sync::CancellationToken`, an opaque handle of a cancellation scope.
#[verifier::external_type_specification]
#[verifier::external_body]
pub struct ExCancellationToken(CancellationToken);

/// The scope of this handle is known to be cancelled, so that `is_cancelled` returns `true`
/// for it from now on. Where it is not known, nothing follows.
pub uninterp spec fn known_cancelled(token: CancellationToken) -> bool;

/// `after` is the handle `before` once its scope has been cancelled through it.
pub closed spec fn cancels(before: CancellationToken, after: CancellationToken) -> bool {
    call_ensures(cancel, (before,), after)
}

/// `child` is a scope below that of `parent`.
pub closed spec fn is_child(parent: CancellationToken, child: CancellationToken) -> bool {
    call_ensures(child_token, (&parent,), child)
}

/// `yes` is an answer that can be had when asking whether the scope is cancelled.
pub closed spec fn reports(token: CancellationToken, yes: bool) -> bool {
    call_ensures(is_cancelled, (&token,), yes)
}

/// Calls `CancellationToken::cancel`. The claim is that the scope is cancelled once
/// the call returns. It also cancels every scope below, which is left unsaid: those
/// handles are held elsewhere.
#[verifier::external_body]
fn cancel(token: CancellationToken) -> (cancelled: CancellationToken)
    ensures
        known_cancelled(cancelled),
{
    token.cancel();
    token
}

/// Calls `CancellationToken::child_token`. The claim is that a scope below one that
/// is cancelled starts out cancelled. That it will be cancelled whenever the parent
/// is cancelled later is left unsaid, as it lies in the future of both handles.
#[verifier::external_body]
pub(crate) fn child_token(parent: &CancellationToken) -> (child: CancellationToken)
    ensures
        known_cancelled(*parent) ==> known_cancelled(child),
{
    parent.child_token()
}

/// Calls `CancellationToken::is_cancelled`. The claim is that it returns `true` for a
/// scope that is known to be cancelled. It can also return `true` for another one.
#[verifier::external_body]
pub(crate) fn is_cancelled(token: &CancellationToken) -> (yes: bool)
    ensures
        known_cancelled(*token) ==> yes,
{
    token.is_cancelled()
}

/// Calls `CancellationToken::clone`, which gives another handle of the same scope.
#[verifier::external_body]
pub(crate) fn same_scope(token: &CancellationToken) -> (handle: CancellationToken)
    ensures
        handle == *token,
{
    token.clone()
}

/// Cancels the scope of the process. The key says on whose behalf.
pub(crate) fn cancel_shutdown(token: CancellationToken, _key: ShutdownKey) -> (after:
    CancellationToken)
    ensures
        cancels(token, after),
{
    let after = cancel(token);
    proof {
        lemma_calls();
    }
    after
}

/// A cancellation scope in the hands of its owner, who alone can end it: there is no other
/// way to cancel it here than [`Scope::cancel`], and that is remembered.
pub struct Scope {
    token: CancellationToken,
    ended: Ghost<bool>,
}

impl Scope {
    /// A handle of the scope.
    pub closed spec fn token(self) -> CancellationToken {
        self.token
    }

    /// The owner has cancelled the scope.
    pub closed spec fn is_ended(self) -> bool {
        self.ended@
    }

    /// Opens a scope below that of `parent`. The second part is a handle of it for those who
    /// have to see its end.
    pub(crate) fn below(parent: &CancellationToken) -> (opened: (Self, CancellationToken))
        ensures
            is_child(*parent, opened.0.token()),
            opened.1 == opened.0.token(),
            !opened.0.is_ended(),
    {
        let token = child_token(parent);
        let handle = same_scope(&token);
        proof {
            lemma_calls();
        }
        (Scope { token, ended: Ghost(false) }, handle)
    }

    /// Cancels the scope.
    pub(crate) fn cancel(self) -> (scope: Self)
        ensures
            cancels(self.token(), scope.token()),
            scope.is_ended(),
    {
        let Scope { token, ended: _ } = self;
        let token = cancel(token);
        proof {
            lemma_calls();
        }
        Scope { token, ended: Ghost(true) }
    }
}

/// What the calls above give stands in the relations that are named after them.
proof fn lemma_calls()
    ensures
        forall|before: CancellationToken, after: CancellationToken| #[trigger]
            call_ensures(cancel, (before,), after) ==> cancels(before, after),
        forall|parent: CancellationToken, child: CancellationToken| #[trigger]
            call_ensures(child_token, (&parent,), child) ==> is_child(parent, child),
        forall|token: CancellationToken, yes: bool| #[trigger]
            call_ensures(is_cancelled, (&token,), yes) ==> reports(token, yes),
{
}

/// What asking gives stands in the relation that is named after it.
pub(crate) proof fn lemma_asked()
    ensures
        forall|token: CancellationToken, yes: bool| #[trigger]
            call_ensures(is_cancelled, (&token,), yes) ==> reports(token, yes),
{
}

/// A scope that has been cancelled is known to be cancelled, and reports it.
pub proof fn law_cancelling_is_known(live: CancellationToken, scope: CancellationToken, yes: bool)
    requires
        cancels(live, scope),
    ensures
        known_cancelled(scope),
        reports(scope, yes) ==> yes,
{
    assert(call_ensures(cancel, (live,), scope));
}

/// A scope below one that is known to be cancelled is known to be cancelled.
pub proof fn law_child_of_cancelled_is_cancelled(
    parent: CancellationToken,
    child: CancellationToken,
)
    requires
        is_child(parent, child),
        known_cancelled(parent),
    ensures
        known_cancelled(child),
{
    assert(call_ensures(child_token, (&parent,), child));
}

} // verus!
