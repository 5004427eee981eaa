//! # continuo
//!
//! Agnostic service composition primitives for multi-service Rust applications.
//!
//! No application state, no configuration, no HTTP, no TLS, no DB dependency. Bring
//! your own state type, implement [`state::SharedState`] on it, and use
//! [`registry::Registry`] with the [`registry::Provider`] /
//! [`registry::Reloadable`] / [`registry::Runnable`] / [`registry::Finalizable`]
//! traits.
//!
//! The error model lives inside the [`registry`] module because it is a registry
//! concern: helper primitives have their own semantics and do not share it.
pub mod cancellation;
pub mod erasure;
pub mod events;
pub mod gate;
pub mod guard;
pub mod pairs;
pub mod permutation;
pub mod registry;
pub mod runtime;
pub mod service;
pub mod signal;
pub mod sorting;
pub mod span;
pub mod state;
pub mod text;

pub use events::{Event, ProcessEventBus, ShutdownInitiated};
pub use gate::{Gate, GateDrainOutcome, Permit};
pub use guard::{Guard, GuardGroup};
pub use registry::{
    Error, Failure, Finalizable, FinalizeFailure, FinalizeOutcome, Provider, ProviderOrder, Registry,
    ReloadFailure, ReloadOutcome, ReloadState, Reloadable, Runnable, ValidationFailure,
    ValidationOutcome,
};
pub use runtime::Runtime;
pub use service::{
    RunContext, ServiceManagerError, ServiceSnapshot, ServiceStartPolicy, ServiceStatus,
};
pub use state::{HasEvents, HasRegistry, SharedState};
