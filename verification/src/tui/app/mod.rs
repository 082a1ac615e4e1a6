//! The state of the front end and how messages change it.

pub mod actions;
pub mod cards;
pub mod events;
pub mod foreground;
pub mod keys;
pub mod mouse;
pub mod prompt;
pub mod requests;
pub mod responses;
pub mod rows;
pub mod session;
pub mod state;
pub mod tables;
pub mod targets;
pub mod update;
