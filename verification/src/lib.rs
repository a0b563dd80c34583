//! Audits identity and collaboration platforms for accounts that lack
//! two-factor authentication, and merges the per-platform findings into
//! one ordered report.
//!
//! The library holds the verified core: backend construction from
//! configuration values, the flagging predicates of each backend, the
//! paginated fetch protocol of the code-host backend, and the
//! orchestrator that collects concurrently produced outcomes into a
//! deterministic order and derives the process exit status.
//! Network transport, argument parsing and terminal output live outside
//! the library and hand it plain values.

pub mod aws;
pub mod github;
pub mod orchestrator;
pub mod report;
pub mod service;
pub mod slack;

pub use crate::aws::AWSServiceFactory;
pub use crate::github::GithubServiceFactory;
pub use crate::service::{
    Backend, CreateServiceResult, GetUsersError, GetUsersResult, Service, User,
};
pub use crate::slack::SlackServiceFactory;
