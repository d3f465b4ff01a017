//! Reading an SSH client configuration, choosing one of its hosts and judging
//! the outcome of an authentication probe against it.
//!
//! The configuration is line-oriented text. [`config::parse_hosts`] turns it
//! into the hosts it names, and [`config::parse`] says which hosts those are;
//! [`laws`] holds what is proved of every configuration. [`select`] finds the
//! host to probe; [`probe`] builds the command and judges its exit code.
//! Reading files, asking the user and running the command are left to the
//! caller.

pub mod chars;
pub mod config;
pub mod error;
mod home;
pub mod host;
pub mod laws;
pub mod line;
pub mod path;
pub mod probe;
pub mod select;

pub use config::{parse_for, parse_hosts, parse_ssh_config};
pub use error::Error;
pub use host::SshHost;
pub use probe::{exit_outcome, probe_command};
pub use select::{pick_host, selection, Selection};
