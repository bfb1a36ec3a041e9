//! A closed-loop temperature-to-duty controller core.
//!
//! A temperature sample is mapped through a piecewise-linear curve to a
//! desired cooling duty cycle; the controller moves the current duty toward
//! that target with rate-limited steps, suppresses changes too small to
//! matter, snaps exactly to the target after a quiet period, and quantizes
//! the fractional duty onto two integer hardware channels.
//!
//! All quantities are fixed-point: one degree Celsius or one duty percentage
//! point is [`units::SCALE`] micro-units.

pub mod commands;
pub mod controller;
pub mod curve;
pub mod errors;
pub mod quantize;
pub mod session;
pub mod shaper;
pub mod units;
