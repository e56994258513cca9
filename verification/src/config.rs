//! Configuration of the driver and of a single transaction.

use vstd::prelude::*;

use crate::enums::{
    AddressSize, ChipSelectHighTime, DummyCycles, FIFOThresholdLevel, MemorySize, MemoryType,
    OspiWidth, WrapSize,
};

verus! {

/// OSPI driver config.
#[derive(Clone, Copy, PartialEq, Eq, Structural, Debug)]
pub struct Config {
    /// Fifo threshold used by the peripheral to generate the interrupt indicating data
    /// or space is available in the FIFO
    pub fifo_threshold: FIFOThresholdLevel,
    /// Indicates the type of external device connected
    pub memory_type: MemoryType,
    /// Defines the size of the external device connected to the OSPI corresponding
    /// to the number of address bits required to access the device
    pub device_size: MemorySize,
    /// Sets the minimum number of clock cycles that the chip select signal must be held high
    /// between commands
    pub chip_select_high_time: ChipSelectHighTime,
    /// Enables the free running clock
    pub free_running_clock: bool,
    /// Sets the clock level when the device is not selected
    pub clock_mode: bool,
    /// Indicates the wrap size corresponding to the external device configuration
    pub wrap_size: WrapSize,
    /// Specifies the prescaler factor used for generating the external clock based
    /// on the AHB clock
    pub clock_prescaler: u8,
    /// Allows the delay of 1/2 cycle the data sampling to account for external
    /// signal delays
    pub sample_shifting: bool,
    /// Allows hold to 1/4 cycle the data
    pub delay_hold_quarter_cycle: bool,
    /// Enables the transaction boundary feature and defines the boundary to release
    /// the chip select. Acceptable range 0 to 31
    pub chip_select_boundary: u8,
    /// Enables the delay block bypass so the sampling is not affected by the delay block
    pub delay_block_bypass: bool,
    /// Enables communication regulation feature. Chip select is released when the other
    /// OctoSpi requests access to the bus
    pub max_transfer: u8,
    /// Enables the refresh feature, chip select is released every refresh + 1 clock cycles
    pub refresh: u32,
}

impl Default for Config {
    /// A Micron device behind the smallest size, clocked without a prescaler, with the FIFO
    /// threshold at half of its 32 bytes.
    fn default() -> (config: Self)
        ensures
            config.fifo_threshold == FIFOThresholdLevel::_16Bytes,
            config.memory_type == MemoryType::Micron,
            config.device_size == MemorySize::Other(0),
            config.chip_select_high_time == ChipSelectHighTime::_5Cycle,
            !config.free_running_clock,
            !config.clock_mode,
            config.wrap_size == WrapSize::Disabled,
            config.clock_prescaler == 0,
            !config.sample_shifting,
            !config.delay_hold_quarter_cycle,
            config.chip_select_boundary == 0,
            config.delay_block_bypass,
            config.max_transfer == 0,
            config.refresh == 0,
    {
        Config {
            fifo_threshold: FIFOThresholdLevel::_16Bytes,
            memory_type: MemoryType::Micron,
            device_size: MemorySize::Other(0),
            chip_select_high_time: ChipSelectHighTime::_5Cycle,
            free_running_clock: false,
            clock_mode: false,
            wrap_size: WrapSize::Disabled,
            clock_prescaler: 0,
            sample_shifting: false,
            delay_hold_quarter_cycle: false,
            chip_select_boundary: 0,
            delay_block_bypass: true,
            max_transfer: 0,
            refresh: 0,
        }
    }
}

/// OSPI transfer configuration.
#[derive(Clone, Copy, PartialEq, Eq, Debug)]
pub struct TransferConfig {
    /// Instruction width (IMODE)
    pub iwidth: OspiWidth,
    /// Instruction Id
    pub instruction: Option<u32>,
    /// Number of Instruction Bytes
    pub isize: AddressSize,
    /// Instruction Double Transfer rate enable
    pub idtr: bool,
    /// Address width (ADMODE)
    pub adwidth: OspiWidth,
    /// Device memory address
    pub address: Option<u32>,
    /// Number of Address Bytes
    pub adsize: AddressSize,
    /// Address Double Transfer rate enable
    pub addtr: bool,
    /// Alternate bytes width (ABMODE)
    pub abwidth: OspiWidth,
    /// Alternate Bytes
    pub alternate_bytes: Option<u32>,
    /// Number of Alternate Bytes
    pub absize: AddressSize,
    /// Alternate Bytes Double Transfer rate enable
    pub abdtr: bool,
    /// Data width (DMODE)
    pub dwidth: OspiWidth,
    /// Data Double Transfer rate enable
    pub ddtr: bool,
    /// Number of dummy cycles (DCYC)
    pub dummy: DummyCycles,
}

impl Default for TransferConfig {
    /// A transaction without any phase.
    fn default() -> (transaction: Self)
        ensures
            transaction.iwidth == OspiWidth::NONE,
            transaction.instruction == None::<u32>,
            transaction.isize == AddressSize::_8Bit,
            !transaction.idtr,
            transaction.adwidth == OspiWidth::NONE,
            transaction.address == None::<u32>,
            transaction.adsize == AddressSize::_8Bit,
            !transaction.addtr,
            transaction.abwidth == OspiWidth::NONE,
            transaction.alternate_bytes == None::<u32>,
            transaction.absize == AddressSize::_8Bit,
            !transaction.abdtr,
            transaction.dwidth == OspiWidth::NONE,
            !transaction.ddtr,
            transaction.dummy == DummyCycles::_0,
    {
        TransferConfig {
            iwidth: OspiWidth::NONE,
            instruction: None,
            isize: AddressSize::_8Bit,
            idtr: false,
            adwidth: OspiWidth::NONE,
            address: None,
            adsize: AddressSize::_8Bit,
            addtr: false,
            abwidth: OspiWidth::NONE,
            alternate_bytes: None,
            absize: AddressSize::_8Bit,
            abdtr: false,
            dwidth: OspiWidth::NONE,
            ddtr: false,
            dummy: DummyCycles::_0,
        }
    }
}

/// Error used for Octospi implementation
#[derive(Clone, Copy, PartialEq, Eq, Structural, Debug)]
pub enum OspiError {
    /// Peripheral configuration is invalid
    InvalidConfiguration,
    /// Operation configuration is invalid
    InvalidCommand,
    /// Size zero buffer passed to instruction
    EmptyBuffer,
}

} // verus!
