//! Sysfs-based backlight brightness control.
//!
//! The kernel exposes backlight devices under a class directory; each device
//! directory holds three decimal text attributes: `max_brightness` (fixed),
//! `brightness` (the last requested value, writable) and `actual_brightness`
//! (the hardware's self-reported state). This crate holds the verified engine
//! behind a brightness command: device handles, the parsing and rendering of
//! the attribute text, brightness arithmetic with its upper clamp, percentage
//! conversion, action-string interpretation and change-event filtering.
//! The process edges (directory listing, file reads and writes, the change
//! socket, argument handling) live outside the library and exchange plain
//! values with it.

pub mod backlight;
pub mod decimal;
pub mod error;
pub mod interface;
pub mod monitor;
pub mod parser;
pub mod percentage;

pub use error::Error;
