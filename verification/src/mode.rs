//! Whether a driver moves data by itself or by DMA.

use vstd::prelude::*;

verus! {

/// Mode of a driver.
pub trait Mode: Sized {
    /// Whether a driver in this mode owns a DMA channel.
    spec fn uses_dma() -> bool;
}

/// Every operation blocks, and no DMA channel is owned.
#[derive(Clone, Copy, Debug)]
pub struct Blocking;

/// Operations may use DMA.
#[derive(Clone, Copy, Debug)]
pub struct Async;

impl Mode for Blocking {
    open spec fn uses_dma() -> bool {
        false
    }
}

impl Mode for Async {
    open spec fn uses_dma() -> bool {
        true
    }
}

} // verus!
