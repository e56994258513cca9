//! A verified driver for the OCTOSPI peripheral of STM32 microcontrollers.
//!
//! The driver decides; it does not touch the hardware. An operation of [`ospi::Ospi`] hands out a
//! [`sequence::Sequence`], which is performed action by action by whoever owns the hardware.

pub mod bits;
pub mod config;
pub mod edit;
pub mod enums;
mod fields;
pub mod gpio;
pub mod instance;
pub mod laws;
pub mod mode;
pub mod model;
pub mod order;
pub mod ospi;
mod pac;
pub mod plan;
pub mod register;
pub mod sequence;
pub mod startup;
pub mod step;
pub mod word;
