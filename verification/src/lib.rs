//! A drop-down terminal applet: tabs of terminal panes, their layout, keyboard
//! input, colours and drawing, with everything that touches the desktop left to
//! the program around it.

pub mod action;
pub mod app;
pub mod config;
pub mod events;
pub mod frame;
pub mod grid;
pub mod keys;
pub mod laws;
pub mod layout;
pub mod message;
pub mod pane;
pub mod preferences;
pub mod state;
pub mod tab;
pub mod term_view;
pub mod terminal;
pub mod view;
