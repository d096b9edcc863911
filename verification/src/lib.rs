//! Keeps a local directory and a remote archive of it consistent: change
//! detection by a digest of file names and sizes, the names and commands of
//! the remote transfer, and the decisions of a push, a pull or a reconcile run.

pub mod config;
pub mod confirm;
pub mod digest;
pub mod invariance;
pub mod naming;
pub mod order;
pub mod runs;
pub mod sidecar;
pub mod sync;
pub mod transport;
