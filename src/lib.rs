//! A terminal user-interface engine: an incremental decoder that turns raw
//! terminal input bytes into key and mouse events, a double-buffered grid of
//! styled cells with a minimal-diff flush, and a split-pane layout tree.
//! A small shooting game and two widgets are built on top of it.

pub mod cell;
pub mod escape;
pub mod input;
pub mod decoder;
pub mod screen;
pub mod widget;
pub mod frame;
pub mod entity;
pub mod game;
pub mod level;
pub mod menu;
pub mod panel;
