//! Opens release pull requests across a set of repositories owned by one
//! account: for each repository it checks whether the head branch diverges
//! from the base branch, opens a pull request where one is missing, and
//! asks for reviews on each newly created pull request.
//!
//! The verified core is the orchestration logic: filtering the repositories
//! that changed, the per-repository pull-request state machine, and the
//! report lines the run emits. Network calls are performed by the binary
//! around this library, which feeds their outcomes back in as plain values.
pub mod compare;
pub mod config;
pub mod decimal;
pub mod messages;
pub mod pipeline;
pub mod title;

pub use config::Args;
pub use config::BranchPair;
pub use messages::RemoteError;
