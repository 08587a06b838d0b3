//! A pane-scrollback viewer for Zellij: source-pane selection, cursor and
//! viewport rules, the frame's text model and its ANSI encoding.

pub mod text;
pub mod viewer;
pub mod source_pane;
pub mod render;
pub mod term;
pub mod view;
pub mod motion;
pub mod search;
pub mod jump;
pub mod config;
pub mod plugin;
