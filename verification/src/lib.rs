//! Tracks the progress of a connect queue from the lines of a log.
//!
//! A line that reports a place in the queue becomes a sample ([`log_line`]); the samples of a
//! session are kept in order ([`state`]), plotted and handed to the estimate ([`chart`]), and told
//! in words ([`status`]). What the program does next is decided by [`tracker`]. [`mock`] plays a
//! queue that moves at random. Reading files, launching processes, drawing and floating-point
//! arithmetic are left to the program around the library.

pub mod calendar;
pub mod chart;
pub mod log_line;
pub mod mock;
pub mod position;
pub mod rng;
pub mod session;
pub mod state;
pub mod status;
pub mod text;
pub mod timestamp;
pub mod tracker;
