//! A borderless-widget window-chrome controller, modelled and verified.
//!
//! The library is the decision core of a desktop widget that strips the
//! native decorations from its top-level window, rounds its visible shape,
//! sanitizes the child surfaces that the embedded renderer creates, and
//! persists the window's geometry across restarts.  Everything that touches
//! the operating system (window handles, the state file, the tray, HTTP)
//! lives outside the library and only carries values computed here.

pub mod alert;
pub mod chrome;
pub mod codec;
pub mod controller;
pub mod geometry;
pub mod idle;
pub mod interact;
pub mod region;
pub mod style;
