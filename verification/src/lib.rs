//! Span-context propagation core for an in-process tracing runtime.
//!
//! The crate tracks which named, nested unit of work (a *span*) is active
//! on each thread, keeps a shared registry of live spans with explicit
//! reference counting, and provides instrumentation wrappers that splice
//! span enter/exit pairs around every resume point of a suspendable
//! computation, so that context survives suspension and migration to a
//! different worker thread.

pub mod span;

pub mod stack;

pub mod registry;

pub mod dispatch;

pub mod resume;

pub mod instrument;

pub mod with_dispatch;

pub mod adapters;

pub mod context;

pub mod record;
