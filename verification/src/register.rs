//! The registers that the driver touches.

use vstd::prelude::*;

verus! {

/// A register, named as in the reference manual.
#[derive(Clone, Copy, PartialEq, Eq, Structural, Debug)]
pub enum Register {
    /// Control register
    Cr,
    /// Device configuration register 1
    Dcr1,
    /// Device configuration register 2
    Dcr2,
    /// Device configuration register 3
    Dcr3,
    /// Device configuration register 4
    Dcr4,
    /// Status register
    Sr,
    /// Flag clear register
    Fcr,
    /// Data length register
    Dlr,
    /// Address register
    Ar,
    /// Communication configuration register
    Ccr,
    /// Timing configuration register
    Tcr,
    /// Instruction register
    Ir,
    /// Alternate bytes register
    Abr,
    /// Communication configuration register for writes in memory mapped mode
    Wccr,
    /// Timing configuration register for writes in memory mapped mode
    Wtcr,
    /// Control register of the I/O manager
    ManagerCr,
    /// Configuration register of port 1 of the I/O manager
    ManagerP1cr,
    /// AHB2 clock enable in sleep mode register (RCC)
    RccAhb2smenr,
    /// AHB2 clock enable register 1 (RCC)
    RccAhb2enr1,
    /// AHB3 clock enable register (RCC)
    RccAhb3enr,
}

} // verus!
