//! Staging of device kernels: fragments of device source are gathered per
//! project in a keyed store, assembled in the order of their identifiers into
//! one source unit, and handed to a toolchain whose outcome decides what a
//! build returns.
//!
//! Nothing here touches a file, a lock or a process. A caller runs a
//! [`session::Session`]: it is told what to do next, does it, and reports
//! what came of it.
//!
//! - [`text`]: white space, trimming, the order of identifiers.
//! - [`layout`]: the name of a project and the places of its files.
//! - [`identifier`]: the identifier of a contributed item.
//! - [`args`]: the arguments of a start.
//! - [`store`]: the fragment store.
//! - [`codec`]: the persisted form of the store.
//! - [`preamble`]: the fixed texts that open a source unit.
//! - [`reconstruct`]: the source unit of a store.
//! - [`scaffold`]: the skeleton of a project.
//! - [`builder`]: the build command and the meaning of its outcome.
//! - [`session`]: one invocation, step by step.
//! - [`protocol`]: what holds of every run of a session.
//! - [`contention`]: what holds when several invocations run at once.

pub mod text;
pub mod layout;
pub mod identifier;
pub mod args;
pub mod store;
pub mod codec;
pub mod preamble;
pub mod reconstruct;
pub mod scaffold;
pub mod builder;
pub mod session;
pub mod protocol;
pub mod contention;
