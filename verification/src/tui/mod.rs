//! Terminal front end: state, layout and text of the panels.

pub mod app;
pub mod card_action;
pub mod cli;
pub mod clipboard;
pub mod completion;
pub mod display;
pub mod footer;
pub mod foreground;
pub mod geometry;
pub mod input_line;
pub mod ipc;
pub mod job_picker;
pub mod keys;
pub mod lines;
pub mod main_view;
pub mod message;
pub mod record_format;
pub mod run_loop;
pub mod script_summary;
pub mod sidebar;
pub mod status_bar;
pub mod status_view;
pub mod submission;
pub mod target_config;
pub mod target_settings;
pub mod terminal;
pub mod text_order;
