//! Resource scheduling: quantities, providers and admission control.

pub mod any;
pub mod cli;
pub mod logged;
pub mod mock;
pub mod nvidia;
pub mod provider;
pub mod registry;
pub mod types;
