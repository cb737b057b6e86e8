//! Applies a declarative description of desired filesystem symbolic links to a
//! host environment.
//!
//! The library holds the link-application engine: the typed recipe model, the
//! privilege-elevation decision procedure, the per-link resolution and
//! validation algorithm, and the outcome taxonomy that unifies dry-run and
//! apply semantics. Filesystem probes and mutations are performed by the
//! caller, which drives a [`engine::Session`] by carrying out the actions it
//! requests and handing back the observed events.

pub mod model;
pub mod outcome;
pub mod policy;
pub mod text;
pub mod processor;
pub mod engine;
pub mod preflight;
