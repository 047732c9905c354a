//! Verified core of a terminal repository explorer: URL parsing, fuzzy search,
//! listing order, and the browser's state machine.
pub mod text;
pub mod sorting;
pub mod fuzzy;
pub mod providers;
pub mod github;
pub mod config;
pub mod theme;
pub mod input;
pub mod app;
pub mod app_filter;
pub mod app_actions;
pub mod app_msg;
pub mod app_complete;
pub mod app_keys;
pub mod app_browse;
pub mod app_panels;
pub mod tasks;
pub mod cli;
pub mod ui_logic;
pub mod view;
pub mod status;
pub mod laws;
pub mod laws_listing;
pub mod laws_input;
