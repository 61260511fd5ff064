//! Driver layer for an 8-bit I/O expander reached over a two-wire serial bus,
//! together with a cyclic color-blend routine that drives a multi-color LED
//! wired to three expander output pins.
//!
//! The crate has three layers:
//! - [`codec`]: pure pin-index / pin-state encoding into the single byte that
//!   the expander's register takes;
//! - [`driver`]: the expander driver, one bus transaction per operation, on
//!   top of the [`bus`] collaborator traits;
//! - [`cycle`]: the cross-fade control loop, one step or one full pass at a
//!   time, with the sequence of attempted writes pinned down exactly.

pub mod bus;
pub mod codec;
pub mod cycle;
pub mod driver;
