//! The core of a terminal diff viewer.

pub mod actions;
pub mod app;
pub mod builtin;
pub mod cells;
pub mod color;
pub mod config;
pub mod diff;
pub mod diff_laws;
pub mod document;
pub mod draw;
pub mod event_laws;
pub mod events;
pub mod footer;
pub mod frame;
pub mod frame_laws;
pub mod handle;
pub mod help;
pub mod keys;
pub mod layout;
pub mod mascot;
pub mod mouse;
pub mod outside;
pub mod overlay;
pub mod paint;
pub mod panels;
pub mod prompt;
pub mod rows;
pub mod scroll;
pub mod search;
pub mod select;
pub mod session;
pub mod stream;
pub mod text;
pub mod theme;
