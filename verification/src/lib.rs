//! Offload cargo builds to a remote host.
//!
//! The library decides and the program around it acts. It reads the command line ([`cli`]) and the
//! layers of the configuration ([`config`]), gives each source tree its remote directory
//! ([`project_key`]), and says which commands to run and which lines to exchange with the remote
//! host ([`run`], [`transport`]) and on it ([`daemon`]). The lines are those of [`proto`], written in
//! [`json`]; what goes through a remote shell is quoted in [`shell`]. Nothing here opens a file, a
//! socket or a process.
pub mod cli;
pub mod config;
pub mod daemon;
pub mod json;
pub mod laws;
pub mod project_key;
pub mod proto;
pub mod run;
pub mod shell;
pub mod text;
pub mod transport;

pub use config::{Config, ConfigFile, ConfigSources};
pub use project_key::project_key_for;
pub use transport::ssh::SshTransport;
pub use transport::webtransport::WebTransportTransport;
pub use transport::{Transport, TransportOutcome};
