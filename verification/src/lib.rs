//! Terminal UI building blocks: colours, styles, cells and buffers, widget
//! configuration, and the conversions between this crate's graphics model and
//! the ratatui data model.

pub mod graphics;
pub mod text;
pub mod ratatui_types;
pub mod buffer;
pub mod compat;
pub mod widgets;
pub mod backend;
pub mod ui;
