//! Discovery of listening TCP ports across local processes, SSH tunnels and Docker
//! containers: parsers for the system tools' listings, the reconciliation of their records,
//! and the state machine of an interactive session over them.

pub mod app;
pub mod config;
pub mod connection;
pub mod dev;
pub mod dispatch;
pub mod docker;
pub mod event;
pub mod local;
pub mod port;
pub mod preset;
pub mod ssh;
pub mod text;
