//! Driver core for a small serial character LCD (20 columns by 4 rows)
//! showing a clock readout.
//!
//! The crate is organised around three verified pieces: a binary command
//! encoder for the device's sentinel-framed wire protocol, a screen-buffer
//! model with a differential renderer that computes the minimal byte runs to
//! re-send when content changes, and a compositor that assembles oversized
//! "jumbo" digits out of a small library of custom character tiles. On top
//! of those sits the LCD driver, which turns one periodic tick into the exact
//! byte stream owed to the device.

pub mod clock;
pub mod color;
pub mod driver;
pub mod jumbo;
pub mod protocol;
pub mod screen;
pub mod state;
