//! Orchestration core for launching several game clients and driving each one
//! through its login screens, one at a time, while sharing a single hosts-table
//! redirect and a single local listening port.
//!
//! Everything that touches the operating system (process creation, window
//! enumeration, synthetic input, sockets, the hosts file) is performed by the
//! caller; this crate decides what to do next and says so in its contracts.

pub mod ascii;
pub mod config;
pub mod errors;
pub mod hosts;
pub mod keys;
pub mod launch;
pub mod logging;
pub mod login;
pub mod login_bin;
pub mod proxy;
pub mod script;
pub mod text;
pub mod windows;

pub use config::{Character, Config, ConfigError, Region};
