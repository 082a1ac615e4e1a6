//! Core of cue-shell: the command language, job resources, runtime state and
//! the terminal front end's state machine, with machine-checked contracts.

pub mod command;
pub mod command_spec;
pub mod cron;
pub mod duration;
pub mod job;
pub mod json;
pub mod laws;
pub mod mode;
pub mod order;
pub mod parser;
pub mod paths;
pub mod pipeline;
pub mod replacement;
pub mod resource;
pub mod ring_buffer;
pub mod runtime_env;
pub mod service;
pub mod storage;
pub mod text;
pub mod textmap;
pub mod tui;
pub mod upgrade;
pub mod word_expansion;
