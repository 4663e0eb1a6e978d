//! The logic of a git diff pager: reading diffs, laying them out in rows, and
//! the viewer that shows them.
pub mod behaviour;
pub mod body;
pub mod cells;
pub mod config;
pub mod diff;
pub mod draw;
pub mod events;
pub mod footer;
pub mod geometry;
pub mod git;
pub mod help;
pub mod highlight;
pub mod keys;
pub mod laws;
pub mod list;
pub mod modal;
pub mod palette;
pub mod paths;
pub mod reading;
pub mod render;
pub mod rows;
pub mod search;
pub mod select;
pub mod session;
pub mod settled;
pub mod text;
pub mod themes;
pub mod tui;
