//! Element sets of satellites, and the cases of the SGP4 model.
//!
//! The crate reads two-line element sets into exact decimal elements
//! ([`tle`], [`batch`], with [`decimal`], [`ascii`], [`lines`], [`text`] and
//! [`calendar`] beneath them), reads whole numbers from the fields of an
//! orbit mean-elements message ([`omm`]), and decides every case of the
//! SGP4 propagator ([`gp`], [`propagator`], [`near_earth`], [`deep_space`],
//! [`third_body`]).
//!
//! The crate works on integers alone. Numbers of the propagator are taken
//! and given as the 64 bits of their IEEE 754 format ([`binary64`]), and are
//! only ever compared here; the arithmetic of the model is left to the
//! caller.

pub mod ascii;
pub mod batch;
pub mod binary64;
pub mod calendar;
pub mod decimal;
pub mod deep_space;
pub mod gp;
pub mod lines;
pub mod model;
pub mod near_earth;
pub mod omm;
pub mod propagator;
pub mod text;
pub mod third_body;
pub mod tle;

pub use batch::parse_2les;
pub use batch::parse_3les;
pub use gp::Error;
pub use tle::Classification;
pub use tle::Elements;
