//! The terminal screen: palette, renderer facing snapshot and byte driven model.
pub mod emulator;
pub mod model;
pub mod snapshot;
pub mod theme;
pub mod width;
