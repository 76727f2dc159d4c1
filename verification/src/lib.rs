//! Runtime control over test execution: dynamic skipping, named resources
//! that tests share or consume exclusively, and per-test timeouts.
//!
//! The crate holds the decisions: what a request for resources is, when
//! the registry can grant it, what a grant and a release do to the
//! registry, when a waiter has to go on sleeping, and when a test has run
//! out of time. Locks, threads and output belong to the caller.

pub mod base;
pub mod builder;
pub mod config;
pub mod default_return;
pub mod errors;
pub mod function;
pub mod helpers;
pub mod id;
pub mod invariants;
pub mod location;
pub mod lock;
pub mod macros;
pub mod manager;
pub mod notify;
pub mod plan;
pub mod set;
pub mod text;
pub mod timeout;
pub mod token;
pub mod utils;
pub mod vecset;

pub use base::{Holders, Resource};
pub use builder::ResourceBuilder;
pub use config::{Config, ConfigItem, ConfigIterator, ListIterator, TokenSet};
pub use default_return::DefaultReturn;
pub use errors::Error;
pub use function::Function;
pub use helpers::{may_signal, skipped_text, supervise, timeout_text, Completion, Verdict};
pub use id::{ResourceId, ResourceIdImpl, ResourceIdView};
pub use location::{Location, LocationView};
pub use lock::ResourceLockGuard;
pub use macros::etest;
pub use manager::{Reservation, ResourceManager};
pub use notify::{NotifyToken, ResourceManagerNotify};
pub use plan::{Plan, TestOptions};
pub use set::{Request, ResourceSet};
pub use timeout::Timeout;
pub use token::{Delimiter, Spacing, Span, Token};
pub use utils::{empty_args, err};
