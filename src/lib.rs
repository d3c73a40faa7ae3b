//! Fleet-wide deployment of a remote script.
//!
//! The library resolves the set of hosts to act on (from an inventory of
//! monitored endpoints or from one explicit `host:port` address), builds the
//! shell commands of the three-step deployment (fetch, authorize, execute),
//! drives that sequence fail-fast on each host through a [`deploy::RemoteExecutor`]
//! supplied by the caller, and aggregates per-host outcomes so that one host's
//! failure never stops the others.
pub mod address;
pub mod inventory;
pub mod shell;
pub mod deploy;
pub mod install;
pub mod orchestrate;
