//! What the library asks of an application's state.
use tokio_util::sync::CancellationToken;
use vstd::prelude::*;

use crate::cancellation::{cancel_shutdown, is_cancelled};
#[allow(unused_imports)]
use crate::cancellation::{cancels, lemma_asked, reports};
use crate::events::ProcessEventBus;
use crate::registry::Registry;

verus! {

/// What cancelling the scope of the process takes. None can be had outside this module, so
/// that [`SharedState::initiate_shutdown`] is the only way to it.
pub struct ShutdownKey {
    sealed: (),
}

/// Shared application state passed to providers and runtime tasks.
///
/// Applications keep ownership of their real state. Put configuration handles, typed
/// services, caches, event buses, and domain state wherever they belong; this trait
/// only says how the runtime observes process shutdown.
///
/// The recommended shape is a cheap cloneable handle around a private inner value,
/// which keeps clones cheap.
pub trait SharedState: Clone + Send + Sync + 'static {
    /// A handle of the scope that is cancelled when the process shuts down.
    fn shutdown_token(&self) -> (token: CancellationToken);

    /// Cancels the shutdown scope.
    fn initiate_shutdown(&self)
        default_ensures
            exists|token: CancellationToken, after: CancellationToken|
                call_ensures(Self::shutdown_token, (self,), token) && #[trigger] cancels(token, after),
    {
        let token = self.shutdown_token();
        let ghost given = token;
        let after = cancel_shutdown(token, ShutdownKey { sealed: () });
        assert(call_ensures(Self::shutdown_token, (self,), given) && cancels(given, after));
    }

    /// Whether the shutdown scope has been cancelled.
    fn is_shutting_down(&self) -> (yes: bool)
        default_ensures
            exists|token: CancellationToken| #[trigger]
                call_ensures(Self::shutdown_token, (self,), token) && reports(token, yes),
    {
        let token = self.shutdown_token();
        let yes = is_cancelled(&token);
        proof {
            lemma_asked();
            assert(call_ensures(Self::shutdown_token, (self,), token));
        }
        yes
    }
}

/// `token` is a shutdown token that the state can give.
pub open spec fn gives_shutdown_token<S: SharedState>(state: &S, token: CancellationToken) -> bool {
    call_ensures(S::shutdown_token, (state,), token)
}

/// `yes` is an answer that the state can give when asked whether it is shutting down.
pub open spec fn gives_shutting_down<S: SharedState>(state: &S, yes: bool) -> bool {
    call_ensures(S::is_shutting_down, (state,), yes)
}

/// A state that owns a [`ProcessEventBus`]. Separate from [`SharedState`] for the same
/// reason as [`HasRegistry`].
///
/// Through the reference events are emitted, and subscribed to where somebody has
/// subscribed before; see [`ProcessEventBus::try_subscribe`].
pub trait HasEvents: SharedState {
    fn events(&self) -> &ProcessEventBus;
}

/// A state that owns a [`Registry`].
///
/// A trait of its own rather than a method of [`SharedState`], so that a state which
/// owns none has nothing to implement. Through the reference providers are resolved, and
/// lifecycle phases run on a [`Registry::snapshot`].
pub trait HasRegistry: SharedState {
    fn registry_ref(&self) -> &Registry<Self>;
}

} // verus!
