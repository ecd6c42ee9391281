//! Command dispatcher core: resolves a sequence of CLI arguments against a
//! set of namespaced runner directory trees, enumerates available options,
//! and builds the external process invocation for a resolved command.
//!
//! All filesystem and environment access is modelled as data: callers hand in
//! a point-in-time snapshot of the relevant directory entries and environment
//! variables, and every function here is a pure, verified computation over
//! that snapshot.

pub mod models;
pub mod filesystem;
pub mod environment;
pub mod order;
pub mod alias;
pub mod runner;
