//! Startup and connection-acceptance rules of a TLS-terminating server:
//! expansion of `@file` arguments, the configuration and its defaults, the
//! order of the startup steps, and the one-connection-at-a-time acceptor.

pub mod lines;
pub mod expand;
pub mod accept;
pub mod config;
pub mod startup;
