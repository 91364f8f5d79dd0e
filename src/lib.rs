//! Verified core of a two-identity chat relay and a turn-based game host.

pub mod config;
pub mod echo;
pub mod edit;
pub mod games;
pub mod locale;
pub mod manager;
pub mod press;
pub mod relay;
pub mod retry;
pub mod text;
pub mod transfer;
