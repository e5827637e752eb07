//! What holds of the applet whatever happens to it.

pub mod bar;
pub mod behaviour;
pub mod causes;
pub mod history;
pub mod keyboard;
pub mod order;
pub mod panes;
pub mod screen;
pub mod settings;
pub mod shell;
pub mod sizes;
pub mod tabs;
pub mod terminals;
pub mod window;
