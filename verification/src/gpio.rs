//! Pins and DMA channels, as far as the driver hands them on.

use vstd::prelude::*;

verus! {

/// A pin in the role that it plays for the peripheral.
#[derive(Clone, Copy, PartialEq, Eq, Structural, Debug)]
pub struct Pin {
    /// Port and pin number: sixteen times the port, plus the pin
    pub pin_port: u8,
    /// Number of the alternate function that connects the pin to the peripheral
    pub af_num: u8,
}

/// How an output drives its pin.
#[derive(Clone, Copy, PartialEq, Eq, Structural, Debug)]
pub enum OutputType {
    /// Both levels are driven
    PushPull,
    /// Only the low level is driven
    OpenDrain,
}

/// Slew rate of an output.
#[derive(Clone, Copy, PartialEq, Eq, Structural, Debug)]
pub enum Speed {
    /// Low speed
    Low,
    /// Medium speed
    Medium,
    /// High speed
    High,
    /// Very high speed
    VeryHigh,
}

/// Resistor at a pin.
#[derive(Clone, Copy, PartialEq, Eq, Structural, Debug)]
pub enum Pull {
    /// No pull
    Floating,
    /// Pull up
    Up,
    /// Pull down
    Down,
}

/// Configuration of a pin in its alternate function.
#[derive(Clone, Copy, PartialEq, Eq, Structural, Debug)]
pub enum AfType {
    /// An input
    Input(Pull),
    /// An output without a pull
    Output(OutputType, Speed),
    /// An output with a pull
    OutputPull(OutputType, Speed, Pull),
}

/// A DMA channel, together with the request that starts its transfers.
#[derive(Clone, Copy, PartialEq, Eq, Structural, Debug)]
pub struct DmaChannel {
    /// Number of the channel
    pub channel: u8,
    /// Number of the request
    pub request: u8,
}

} // verus!
