//! Persistence: the database schema and what its rows mean.

pub mod migration;
pub mod records;
pub mod rows;
