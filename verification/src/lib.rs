//! Core of an interactive ideal-gas demonstration.
//!
//! A draggable control point on a pressure-volume plot drives an analytic
//! gas state, a movable piston boundary, a box of simulated particles, and
//! four process curves.  All geometry lives on an integer screen grid;
//! derived physical quantities are exact rationals over that grid, so every
//! rule of the demonstration is stated and proved exactly.

pub mod boundary;
pub mod config;
pub mod curves;
pub mod numeric;
pub mod particles;
pub mod readout;
pub mod rng;
pub mod sim;
pub mod state;
pub mod work;

pub use config::Config;
pub use numeric::Frac;
pub use state::Point;
