//! What the library does, stated over what goes in and what comes out.

pub mod chain;
pub mod grouping;
pub mod tokens;
pub mod status;
pub mod upgrade;
pub mod devices;
pub mod schedules;
pub mod texts;
pub mod commands;
pub mod words;
pub mod stored;
pub mod daemon;
pub mod typing;
pub mod editing;
pub mod panes;
pub mod resources;
pub mod completing;
pub mod client;
pub mod screen;
pub mod scripts;
pub mod layout;
pub mod probing;
pub mod places;
pub mod answers;
pub mod inputs;
pub mod orders;
pub mod sessions;
pub mod notices;
