//! Hardware-agnostic contracts for blocking I2C bus master operations.
//!
//! Slave addresses used by this API are 7-bit I2C addresses ranging from 0
//! to 127. Operations on 10-bit slave addresses are not supported.
//!
//! Each capability (read, write, write-then-read, and the lazy-source
//! variants) is an independent trait whose method contracts are stated over
//! a ghost sequence of observable bus events; see [`events`] for the event
//! model, [`i2c`] for the capability traits, [`source`] for the lazy byte
//! sources, and [`sim`] for a simulated bus that implements every
//! capability.

pub mod events;
pub mod i2c;
pub mod sim;
pub mod source;
