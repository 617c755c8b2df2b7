//! Selection, layout and window-classification logic of a classic Alt+Tab
//! window switcher, with the operating-system calls left to the caller.

pub mod index;
pub mod keyboard;
pub mod index_set;
pub mod switch_windows;
pub mod layout;
pub mod text;
pub mod app_identity;
pub mod window_rules;
pub mod message;
pub mod switch_apps;
pub mod candidates;
pub mod args;
pub mod perf;
pub mod cache;
pub mod icons;
pub mod report;
