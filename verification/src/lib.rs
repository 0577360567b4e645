//! Declarative management of a fleet of version-control repositories and of
//! worktree checkouts layered on a single repository.
//!
//! The crate holds the decision logic: planning which repositories to clone,
//! initialize or open, reconciling a repository's remotes against its declared
//! configuration, discovering unmanaged repositories under a root, and the
//! safety rules that gate destructive worktree operations. Everything that
//! touches the filesystem, the network or the version-control backend itself
//! stays outside and feeds this crate plain values.

pub mod cmd;
pub mod config;
pub mod reconcile;
pub mod remotediff;
pub mod scan;
pub mod strutil;
pub mod worktree;
