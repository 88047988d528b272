//! Verified core of the txio multi-chain terminal.

pub mod json;
pub mod text;
pub mod amounts;
pub mod network;
pub mod chains;
pub mod results;
pub mod rpc;
pub mod settings;
pub mod config;
pub mod commands;
