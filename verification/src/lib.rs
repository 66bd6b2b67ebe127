//! Smooth colour gradients between hexadecimal colours.
//!
//! A gradient is made in four stages, one module each:
//!
//! - [`codec`] reads `#RRGGBB` strings into 8-bit channels and writes them
//!   back in canonical form;
//! - [`hsl`] takes the decisions of the conversion from RGB to HSL that the
//!   channels alone settle: the sector of the hue, the sixth of the turn it
//!   is counted from, and the half of the lightness scale;
//! - [`gradient`] validates a request and spreads the samples across the
//!   segments between the control points;
//! - [`present`] lays out one sample as text for a terminal.
//!
//! HSL channels are fractional. The crate is generic in the channel type and
//! takes the blend of two channels as a function, so the arithmetic on them
//! is the caller's.

pub mod codec;
pub mod gradient;
pub mod hsl;
pub mod present;
