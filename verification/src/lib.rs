//! A small runtime core for applications built as a loop of model, update
//! and command.
//!
//! One state object consumes events. Every event moves the state and yields
//! a bag of deferred tasks. Every task runs somewhere else, yields one
//! follow-up event and wakes the driver, which then asks for the next drain.
//!
//! - [`task`]: deferred tasks.
//! - [`cmd`]: the bag of tasks that a transition returns.
//! - [`component`]: what a state machine has to offer.
//! - [`executor`]: what runs the tasks.
//! - [`feedback`]: the way back from a task to the application.
//! - [`model`]: what an application is in contracts.
//! - [`application`]: the orchestrator.
//! - [`laws`]: what holds of every application.

pub mod task;
pub mod cmd;
pub mod component;
pub mod executor;
pub mod feedback;
pub mod model;
pub mod application;
pub mod laws;
mod mailbox;
mod share;
