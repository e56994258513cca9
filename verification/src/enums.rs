//! Settings of the peripheral and the codes that stand for them in its registers.
//!
//! Each setting converts into the bits of its register field with `u8::from`; the spec function
//! `code` of the same type says which bits those are.

use vstd::prelude::*;
use vstd::std_specs::convert::FromSpecImpl;

verus! {

/// Functional mode of the peripheral (FMODE).
#[derive(Clone, Copy, PartialEq, Eq, Structural, Debug)]
pub enum OspiMode {
    /// Data goes out through the data register
    IndirectWrite,
    /// Data comes in through the data register
    IndirectRead,
    /// The status of the external device is polled by the peripheral
    AutoPolling,
    /// The external device appears as memory
    MemoryMapped,
}

impl OspiMode {
    /// The code of the setting in its register field.
    pub open spec fn code(self) -> u8 {
        match self {
            OspiMode::IndirectWrite => 0,
            OspiMode::IndirectRead => 1,
            OspiMode::AutoPolling => 2,
            OspiMode::MemoryMapped => 3,
        }
    }
}

impl FromSpecImpl<OspiMode> for u8 {
    open spec fn obeys_from_spec() -> bool {
        true
    }

    open spec fn from_spec(setting: OspiMode) -> u8 {
        setting.code()
    }
}

impl From<OspiMode> for u8 {
    fn from(setting: OspiMode) -> (bits: u8) {
        match setting {
            OspiMode::IndirectWrite => 0,
            OspiMode::IndirectRead => 1,
            OspiMode::AutoPolling => 2,
            OspiMode::MemoryMapped => 3,
        }
    }
}

/// Number of lines that a phase of a transaction uses.
#[derive(Clone, Copy, PartialEq, Eq, Structural, Debug)]
pub enum OspiWidth {
    /// The phase is left out
    NONE,
    /// One line
    SING,
    /// Two lines
    DUAL,
    /// Four lines
    QUAD,
    /// Eight lines
    OCTO,
}

impl OspiWidth {
    /// The code of the setting in its register field.
    pub open spec fn code(self) -> u8 {
        match self {
            OspiWidth::NONE => 0,
            OspiWidth::SING => 1,
            OspiWidth::DUAL => 2,
            OspiWidth::QUAD => 3,
            OspiWidth::OCTO => 4,
        }
    }
}

impl FromSpecImpl<OspiWidth> for u8 {
    open spec fn obeys_from_spec() -> bool {
        true
    }

    open spec fn from_spec(setting: OspiWidth) -> u8 {
        setting.code()
    }
}

impl From<OspiWidth> for u8 {
    fn from(setting: OspiWidth) -> (bits: u8) {
        match setting {
            OspiWidth::NONE => 0,
            OspiWidth::SING => 1,
            OspiWidth::DUAL => 2,
            OspiWidth::QUAD => 3,
            OspiWidth::OCTO => 4,
        }
    }
}

/// Wrap size to which the external device is configured.
#[derive(Clone, Copy, PartialEq, Eq, Structural, Debug)]
pub enum WrapSize {
    /// No wrapped reads
    Disabled,
    /// Wrap at 16 bytes
    _16Bytes,
    /// Wrap at 32 bytes
    _32Bytes,
    /// Wrap at 64 bytes
    _64Bytes,
    /// Wrap at 128 bytes
    _128Bytes,
}

impl WrapSize {
    /// The code of the setting in its register field.
    pub open spec fn code(self) -> u8 {
        match self {
            WrapSize::Disabled => 0,
            WrapSize::_16Bytes => 2,
            WrapSize::_32Bytes => 3,
            WrapSize::_64Bytes => 4,
            WrapSize::_128Bytes => 5,
        }
    }
}

impl FromSpecImpl<WrapSize> for u8 {
    open spec fn obeys_from_spec() -> bool {
        true
    }

    open spec fn from_spec(setting: WrapSize) -> u8 {
        setting.code()
    }
}

impl From<WrapSize> for u8 {
    fn from(setting: WrapSize) -> (bits: u8) {
        match setting {
            WrapSize::Disabled => 0,
            WrapSize::_16Bytes => 2,
            WrapSize::_32Bytes => 3,
            WrapSize::_64Bytes => 4,
            WrapSize::_128Bytes => 5,
        }
    }
}

/// Type of the external device.
#[derive(Clone, Copy, PartialEq, Eq, Structural, Debug)]
pub enum MemoryType {
    /// Micron device
    Micron,
    /// Macronix device
    Macronix,
    /// Standard device
    Standard,
    /// Macronix RAM
    MacronixRam,
    /// Memory space of a HyperBus device
    HyperBusMemory,
    /// Register space of a HyperBus device
    HyperBusRegister,
}

impl MemoryType {
    /// The code of the setting in its register field.
    pub open spec fn code(self) -> u8 {
        match self {
            MemoryType::Micron => 0,
            MemoryType::Macronix => 1,
            MemoryType::Standard => 2,
            MemoryType::MacronixRam => 3,
            MemoryType::HyperBusMemory => 4,
            MemoryType::HyperBusRegister => 5,
        }
    }
}

impl FromSpecImpl<MemoryType> for u8 {
    open spec fn obeys_from_spec() -> bool {
        true
    }

    open spec fn from_spec(setting: MemoryType) -> u8 {
        setting.code()
    }
}

impl From<MemoryType> for u8 {
    fn from(setting: MemoryType) -> (bits: u8) {
        match setting {
            MemoryType::Micron => 0,
            MemoryType::Macronix => 1,
            MemoryType::Standard => 2,
            MemoryType::MacronixRam => 3,
            MemoryType::HyperBusMemory => 4,
            MemoryType::HyperBusRegister => 5,
        }
    }
}

/// Size of the external device.
#[derive(Clone, Copy, PartialEq, Eq, Structural, Debug)]
pub enum MemorySize {
    /// 1 KiB
    _1KiB,
    /// 2 KiB
    _2KiB,
    /// 4 KiB
    _4KiB,
    /// 8 KiB
    _8KiB,
    /// 16 KiB
    _16KiB,
    /// 32 KiB
    _32KiB,
    /// 64 KiB
    _64KiB,
    /// 128 KiB
    _128KiB,
    /// 256 KiB
    _256KiB,
    /// 512 KiB
    _512KiB,
    /// 1 MiB
    _1MiB,
    /// 2 MiB
    _2MiB,
    /// 4 MiB
    _4MiB,
    /// 8 MiB
    _8MiB,
    /// 16 MiB
    _16MiB,
    /// 32 MiB
    _32MiB,
    /// 64 MiB
    _64MiB,
    /// 128 MiB
    _128MiB,
    /// 256 MiB
    _256MiB,
    /// 512 MiB
    _512MiB,
    /// 1 GiB
    _1GiB,
    /// 2 GiB
    _2GiB,
    /// 4 GiB
    _4GiB,
    /// Any other size, as the raw field of the register
    Other(u8),
}

impl MemorySize {
    /// The code of the setting in its register field: one less than the number of address bits.
    pub open spec fn code(self) -> u8 {
        match self {
            MemorySize::_1KiB => 9,
            MemorySize::_2KiB => 10,
            MemorySize::_4KiB => 11,
            MemorySize::_8KiB => 12,
            MemorySize::_16KiB => 13,
            MemorySize::_32KiB => 14,
            MemorySize::_64KiB => 15,
            MemorySize::_128KiB => 16,
            MemorySize::_256KiB => 17,
            MemorySize::_512KiB => 18,
            MemorySize::_1MiB => 19,
            MemorySize::_2MiB => 20,
            MemorySize::_4MiB => 21,
            MemorySize::_8MiB => 22,
            MemorySize::_16MiB => 23,
            MemorySize::_32MiB => 24,
            MemorySize::_64MiB => 25,
            MemorySize::_128MiB => 26,
            MemorySize::_256MiB => 27,
            MemorySize::_512MiB => 28,
            MemorySize::_1GiB => 29,
            MemorySize::_2GiB => 30,
            MemorySize::_4GiB => 31,
            MemorySize::Other(bits) => bits,
        }
    }
}

impl FromSpecImpl<MemorySize> for u8 {
    open spec fn obeys_from_spec() -> bool {
        true
    }

    open spec fn from_spec(setting: MemorySize) -> u8 {
        setting.code()
    }
}

impl From<MemorySize> for u8 {
    fn from(setting: MemorySize) -> (bits: u8) {
        match setting {
            MemorySize::_1KiB => 9,
            MemorySize::_2KiB => 10,
            MemorySize::_4KiB => 11,
            MemorySize::_8KiB => 12,
            MemorySize::_16KiB => 13,
            MemorySize::_32KiB => 14,
            MemorySize::_64KiB => 15,
            MemorySize::_128KiB => 16,
            MemorySize::_256KiB => 17,
            MemorySize::_512KiB => 18,
            MemorySize::_1MiB => 19,
            MemorySize::_2MiB => 20,
            MemorySize::_4MiB => 21,
            MemorySize::_8MiB => 22,
            MemorySize::_16MiB => 23,
            MemorySize::_32MiB => 24,
            MemorySize::_64MiB => 25,
            MemorySize::_128MiB => 26,
            MemorySize::_256MiB => 27,
            MemorySize::_512MiB => 28,
            MemorySize::_1GiB => 29,
            MemorySize::_2GiB => 30,
            MemorySize::_4GiB => 31,
            MemorySize::Other(bits) => bits,
        }
    }
}

impl MemorySize {
    /// Number of bytes of the device, for the sizes that have a name.
    pub open spec fn bytes(self) -> Option<nat> {
        match self {
            MemorySize::_1KiB => Some(0x400),
            MemorySize::_2KiB => Some(0x800),
            MemorySize::_4KiB => Some(0x1000),
            MemorySize::_8KiB => Some(0x2000),
            MemorySize::_16KiB => Some(0x4000),
            MemorySize::_32KiB => Some(0x8000),
            MemorySize::_64KiB => Some(0x10000),
            MemorySize::_128KiB => Some(0x20000),
            MemorySize::_256KiB => Some(0x40000),
            MemorySize::_512KiB => Some(0x80000),
            MemorySize::_1MiB => Some(0x100000),
            MemorySize::_2MiB => Some(0x200000),
            MemorySize::_4MiB => Some(0x400000),
            MemorySize::_8MiB => Some(0x800000),
            MemorySize::_16MiB => Some(0x1000000),
            MemorySize::_32MiB => Some(0x2000000),
            MemorySize::_64MiB => Some(0x4000000),
            MemorySize::_128MiB => Some(0x8000000),
            MemorySize::_256MiB => Some(0x10000000),
            MemorySize::_512MiB => Some(0x20000000),
            MemorySize::_1GiB => Some(0x40000000),
            MemorySize::_2GiB => Some(0x80000000),
            MemorySize::_4GiB => Some(0x100000000),
            MemorySize::Other(_) => None,
        }
    }
}

/// Number of bits of the instruction, of the address or of the alternate bytes.
#[derive(Clone, Copy, PartialEq, Eq, Structural, Debug)]
pub enum AddressSize {
    /// 8 bits
    _8Bit,
    /// 16 bits
    _16Bit,
    /// 24 bits
    _24Bit,
    /// 32 bits
    _32Bit,
}

impl AddressSize {
    /// The code of the setting in its register field.
    pub open spec fn code(self) -> u8 {
        match self {
            AddressSize::_8Bit => 0,
            AddressSize::_16Bit => 1,
            AddressSize::_24Bit => 2,
            AddressSize::_32Bit => 3,
        }
    }
}

impl FromSpecImpl<AddressSize> for u8 {
    open spec fn obeys_from_spec() -> bool {
        true
    }

    open spec fn from_spec(setting: AddressSize) -> u8 {
        setting.code()
    }
}

impl From<AddressSize> for u8 {
    fn from(setting: AddressSize) -> (bits: u8) {
        match setting {
            AddressSize::_8Bit => 0,
            AddressSize::_16Bit => 1,
            AddressSize::_24Bit => 2,
            AddressSize::_32Bit => 3,
        }
    }
}

/// Clock cycles during which chip select stays high between commands.
#[derive(Clone, Copy, PartialEq, Eq, Structural, Debug)]
pub enum ChipSelectHighTime {
    /// 1 cycle
    _1Cycle,
    /// 2 cycles
    _2Cycle,
    /// 3 cycles
    _3Cycle,
    /// 4 cycles
    _4Cycle,
    /// 5 cycles
    _5Cycle,
    /// 6 cycles
    _6Cycle,
    /// 7 cycles
    _7Cycle,
    /// 8 cycles
    _8Cycle,
}

impl ChipSelectHighTime {
    /// The code of the setting in its register field.
    pub open spec fn code(self) -> u8 {
        match self {
            ChipSelectHighTime::_1Cycle => 0,
            ChipSelectHighTime::_2Cycle => 1,
            ChipSelectHighTime::_3Cycle => 2,
            ChipSelectHighTime::_4Cycle => 3,
            ChipSelectHighTime::_5Cycle => 4,
            ChipSelectHighTime::_6Cycle => 5,
            ChipSelectHighTime::_7Cycle => 6,
            ChipSelectHighTime::_8Cycle => 7,
        }
    }
}

impl FromSpecImpl<ChipSelectHighTime> for u8 {
    open spec fn obeys_from_spec() -> bool {
        true
    }

    open spec fn from_spec(setting: ChipSelectHighTime) -> u8 {
        setting.code()
    }
}

impl From<ChipSelectHighTime> for u8 {
    fn from(setting: ChipSelectHighTime) -> (bits: u8) {
        match setting {
            ChipSelectHighTime::_1Cycle => 0,
            ChipSelectHighTime::_2Cycle => 1,
            ChipSelectHighTime::_3Cycle => 2,
            ChipSelectHighTime::_4Cycle => 3,
            ChipSelectHighTime::_5Cycle => 4,
            ChipSelectHighTime::_6Cycle => 5,
            ChipSelectHighTime::_7Cycle => 6,
            ChipSelectHighTime::_8Cycle => 7,
        }
    }
}

/// Number of bytes in the FIFO that raises the threshold flag.
#[derive(Clone, Copy, PartialEq, Eq, Structural, Debug)]
pub enum FIFOThresholdLevel {
    /// 1 byte
    _1Bytes,
    /// 2 bytes
    _2Bytes,
    /// 3 bytes
    _3Bytes,
    /// 4 bytes
    _4Bytes,
    /// 5 bytes
    _5Bytes,
    /// 6 bytes
    _6Bytes,
    /// 7 bytes
    _7Bytes,
    /// 8 bytes
    _8Bytes,
    /// 9 bytes
    _9Bytes,
    /// 10 bytes
    _10Bytes,
    /// 11 bytes
    _11Bytes,
    /// 12 bytes
    _12Bytes,
    /// 13 bytes
    _13Bytes,
    /// 14 bytes
    _14Bytes,
    /// 15 bytes
    _15Bytes,
    /// 16 bytes
    _16Bytes,
    /// 17 bytes
    _17Bytes,
    /// 18 bytes
    _18Bytes,
    /// 19 bytes
    _19Bytes,
    /// 20 bytes
    _20Bytes,
    /// 21 bytes
    _21Bytes,
    /// 22 bytes
    _22Bytes,
    /// 23 bytes
    _23Bytes,
    /// 24 bytes
    _24Bytes,
    /// 25 bytes
    _25Bytes,
    /// 26 bytes
    _26Bytes,
    /// 27 bytes
    _27Bytes,
    /// 28 bytes
    _28Bytes,
    /// 29 bytes
    _29Bytes,
    /// 30 bytes
    _30Bytes,
    /// 31 bytes
    _31Bytes,
    /// 32 bytes
    _32Bytes,
}

impl FIFOThresholdLevel {
    /// The code of the setting in its register field.
    pub open spec fn code(self) -> u8 {
        match self {
            FIFOThresholdLevel::_1Bytes => 0,
            FIFOThresholdLevel::_2Bytes => 1,
            FIFOThresholdLevel::_3Bytes => 2,
            FIFOThresholdLevel::_4Bytes => 3,
            FIFOThresholdLevel::_5Bytes => 4,
            FIFOThresholdLevel::_6Bytes => 5,
            FIFOThresholdLevel::_7Bytes => 6,
            FIFOThresholdLevel::_8Bytes => 7,
            FIFOThresholdLevel::_9Bytes => 8,
            FIFOThresholdLevel::_10Bytes => 9,
            FIFOThresholdLevel::_11Bytes => 10,
            FIFOThresholdLevel::_12Bytes => 11,
            FIFOThresholdLevel::_13Bytes => 12,
            FIFOThresholdLevel::_14Bytes => 13,
            FIFOThresholdLevel::_15Bytes => 14,
            FIFOThresholdLevel::_16Bytes => 15,
            FIFOThresholdLevel::_17Bytes => 16,
            FIFOThresholdLevel::_18Bytes => 17,
            FIFOThresholdLevel::_19Bytes => 18,
            FIFOThresholdLevel::_20Bytes => 19,
            FIFOThresholdLevel::_21Bytes => 20,
            FIFOThresholdLevel::_22Bytes => 21,
            FIFOThresholdLevel::_23Bytes => 22,
            FIFOThresholdLevel::_24Bytes => 23,
            FIFOThresholdLevel::_25Bytes => 24,
            FIFOThresholdLevel::_26Bytes => 25,
            FIFOThresholdLevel::_27Bytes => 26,
            FIFOThresholdLevel::_28Bytes => 27,
            FIFOThresholdLevel::_29Bytes => 28,
            FIFOThresholdLevel::_30Bytes => 29,
            FIFOThresholdLevel::_31Bytes => 30,
            FIFOThresholdLevel::_32Bytes => 31,
        }
    }
}

impl FromSpecImpl<FIFOThresholdLevel> for u8 {
    open spec fn obeys_from_spec() -> bool {
        true
    }

    open spec fn from_spec(setting: FIFOThresholdLevel) -> u8 {
        setting.code()
    }
}

impl From<FIFOThresholdLevel> for u8 {
    fn from(setting: FIFOThresholdLevel) -> (bits: u8) {
        match setting {
            FIFOThresholdLevel::_1Bytes => 0,
            FIFOThresholdLevel::_2Bytes => 1,
            FIFOThresholdLevel::_3Bytes => 2,
            FIFOThresholdLevel::_4Bytes => 3,
            FIFOThresholdLevel::_5Bytes => 4,
            FIFOThresholdLevel::_6Bytes => 5,
            FIFOThresholdLevel::_7Bytes => 6,
            FIFOThresholdLevel::_8Bytes => 7,
            FIFOThresholdLevel::_9Bytes => 8,
            FIFOThresholdLevel::_10Bytes => 9,
            FIFOThresholdLevel::_11Bytes => 10,
            FIFOThresholdLevel::_12Bytes => 11,
            FIFOThresholdLevel::_13Bytes => 12,
            FIFOThresholdLevel::_14Bytes => 13,
            FIFOThresholdLevel::_15Bytes => 14,
            FIFOThresholdLevel::_16Bytes => 15,
            FIFOThresholdLevel::_17Bytes => 16,
            FIFOThresholdLevel::_18Bytes => 17,
            FIFOThresholdLevel::_19Bytes => 18,
            FIFOThresholdLevel::_20Bytes => 19,
            FIFOThresholdLevel::_21Bytes => 20,
            FIFOThresholdLevel::_22Bytes => 21,
            FIFOThresholdLevel::_23Bytes => 22,
            FIFOThresholdLevel::_24Bytes => 23,
            FIFOThresholdLevel::_25Bytes => 24,
            FIFOThresholdLevel::_26Bytes => 25,
            FIFOThresholdLevel::_27Bytes => 26,
            FIFOThresholdLevel::_28Bytes => 27,
            FIFOThresholdLevel::_29Bytes => 28,
            FIFOThresholdLevel::_30Bytes => 29,
            FIFOThresholdLevel::_31Bytes => 30,
            FIFOThresholdLevel::_32Bytes => 31,
        }
    }
}

/// Number of dummy cycles between the address and the data.
#[derive(Clone, Copy, PartialEq, Eq, Structural, Debug)]
pub enum DummyCycles {
    /// 0 cycles
    _0,
    /// 1 cycle
    _1,
    /// 2 cycles
    _2,
    /// 3 cycles
    _3,
    /// 4 cycles
    _4,
    /// 5 cycles
    _5,
    /// 6 cycles
    _6,
    /// 7 cycles
    _7,
    /// 8 cycles
    _8,
    /// 9 cycles
    _9,
    /// 10 cycles
    _10,
    /// 11 cycles
    _11,
    /// 12 cycles
    _12,
    /// 13 cycles
    _13,
    /// 14 cycles
    _14,
    /// 15 cycles
    _15,
    /// 16 cycles
    _16,
    /// 17 cycles
    _17,
    /// 18 cycles
    _18,
    /// 19 cycles
    _19,
    /// 20 cycles
    _20,
    /// 21 cycles
    _21,
    /// 22 cycles
    _22,
    /// 23 cycles
    _23,
    /// 24 cycles
    _24,
    /// 25 cycles
    _25,
    /// 26 cycles
    _26,
    /// 27 cycles
    _27,
    /// 28 cycles
    _28,
    /// 29 cycles
    _29,
    /// 30 cycles
    _30,
    /// 31 cycles
    _31,
}

impl DummyCycles {
    /// The code of the setting in its register field.
    pub open spec fn code(self) -> u8 {
        match self {
            DummyCycles::_0 => 0,
            DummyCycles::_1 => 1,
            DummyCycles::_2 => 2,
            DummyCycles::_3 => 3,
            DummyCycles::_4 => 4,
            DummyCycles::_5 => 5,
            DummyCycles::_6 => 6,
            DummyCycles::_7 => 7,
            DummyCycles::_8 => 8,
            DummyCycles::_9 => 9,
            DummyCycles::_10 => 10,
            DummyCycles::_11 => 11,
            DummyCycles::_12 => 12,
            DummyCycles::_13 => 13,
            DummyCycles::_14 => 14,
            DummyCycles::_15 => 15,
            DummyCycles::_16 => 16,
            DummyCycles::_17 => 17,
            DummyCycles::_18 => 18,
            DummyCycles::_19 => 19,
            DummyCycles::_20 => 20,
            DummyCycles::_21 => 21,
            DummyCycles::_22 => 22,
            DummyCycles::_23 => 23,
            DummyCycles::_24 => 24,
            DummyCycles::_25 => 25,
            DummyCycles::_26 => 26,
            DummyCycles::_27 => 27,
            DummyCycles::_28 => 28,
            DummyCycles::_29 => 29,
            DummyCycles::_30 => 30,
            DummyCycles::_31 => 31,
        }
    }
}

impl FromSpecImpl<DummyCycles> for u8 {
    open spec fn obeys_from_spec() -> bool {
        true
    }

    open spec fn from_spec(setting: DummyCycles) -> u8 {
        setting.code()
    }
}

impl From<DummyCycles> for u8 {
    fn from(setting: DummyCycles) -> (bits: u8) {
        match setting {
            DummyCycles::_0 => 0,
            DummyCycles::_1 => 1,
            DummyCycles::_2 => 2,
            DummyCycles::_3 => 3,
            DummyCycles::_4 => 4,
            DummyCycles::_5 => 5,
            DummyCycles::_6 => 6,
            DummyCycles::_7 => 7,
            DummyCycles::_8 => 8,
            DummyCycles::_9 => 9,
            DummyCycles::_10 => 10,
            DummyCycles::_11 => 11,
            DummyCycles::_12 => 12,
            DummyCycles::_13 => 13,
            DummyCycles::_14 => 14,
            DummyCycles::_15 => 15,
            DummyCycles::_16 => 16,
            DummyCycles::_17 => 17,
            DummyCycles::_18 => 18,
            DummyCycles::_19 => 19,
            DummyCycles::_20 => 20,
            DummyCycles::_21 => 21,
            DummyCycles::_22 => 22,
            DummyCycles::_23 => 23,
            DummyCycles::_24 => 24,
            DummyCycles::_25 => 25,
            DummyCycles::_26 => 26,
            DummyCycles::_27 => 27,
            DummyCycles::_28 => 28,
            DummyCycles::_29 => 29,
            DummyCycles::_30 => 30,
            DummyCycles::_31 => 31,
        }
    }
}

impl OspiWidth {
    /// Number of data lines that the width stands for.
    pub open spec fn lines(self) -> nat {
        match self {
            OspiWidth::NONE => 0,
            OspiWidth::SING => 1,
            OspiWidth::DUAL => 2,
            OspiWidth::QUAD => 4,
            OspiWidth::OCTO => 8,
        }
    }
}

/// The codes of the widths are ordered as the numbers of lines: the larger code needs more lines.
pub proof fn law_width_codes_order_lines(a: OspiWidth, b: OspiWidth)
    ensures
        a.code() <= b.code() <==> a.lines() <= b.lines(),
{
}

/// A named device size holds as many bytes as its code says: two to the power of the number of
/// address bits, which is one more than the code.
pub proof fn law_memory_size_code(size: MemorySize)
    ensures
        size.bytes() matches Some(bytes) ==> bytes == vstd::arithmetic::power2::pow2(
            (size.code() + 1) as nat,
        ),
{
    vstd::arithmetic::power2::lemma2_to64();
}

/// The code of a threshold is one less than its number of bytes.
pub proof fn law_threshold_code(setting: FIFOThresholdLevel)
    ensures
        setting.code() + 1 == match setting {
            FIFOThresholdLevel::_1Bytes => 1int,
            FIFOThresholdLevel::_2Bytes => 2,
            FIFOThresholdLevel::_3Bytes => 3,
            FIFOThresholdLevel::_4Bytes => 4,
            FIFOThresholdLevel::_5Bytes => 5,
            FIFOThresholdLevel::_6Bytes => 6,
            FIFOThresholdLevel::_7Bytes => 7,
            FIFOThresholdLevel::_8Bytes => 8,
            FIFOThresholdLevel::_9Bytes => 9,
            FIFOThresholdLevel::_10Bytes => 10,
            FIFOThresholdLevel::_11Bytes => 11,
            FIFOThresholdLevel::_12Bytes => 12,
            FIFOThresholdLevel::_13Bytes => 13,
            FIFOThresholdLevel::_14Bytes => 14,
            FIFOThresholdLevel::_15Bytes => 15,
            FIFOThresholdLevel::_16Bytes => 16,
            FIFOThresholdLevel::_17Bytes => 17,
            FIFOThresholdLevel::_18Bytes => 18,
            FIFOThresholdLevel::_19Bytes => 19,
            FIFOThresholdLevel::_20Bytes => 20,
            FIFOThresholdLevel::_21Bytes => 21,
            FIFOThresholdLevel::_22Bytes => 22,
            FIFOThresholdLevel::_23Bytes => 23,
            FIFOThresholdLevel::_24Bytes => 24,
            FIFOThresholdLevel::_25Bytes => 25,
            FIFOThresholdLevel::_26Bytes => 26,
            FIFOThresholdLevel::_27Bytes => 27,
            FIFOThresholdLevel::_28Bytes => 28,
            FIFOThresholdLevel::_29Bytes => 29,
            FIFOThresholdLevel::_30Bytes => 30,
            FIFOThresholdLevel::_31Bytes => 31,
            FIFOThresholdLevel::_32Bytes => 32,
        },
{
}

/// The code of a number of dummy cycles is the number.
pub proof fn law_dummy_cycles_code(setting: DummyCycles)
    ensures
        setting.code() == match setting {
            DummyCycles::_0 => 0int,
            DummyCycles::_1 => 1,
            DummyCycles::_2 => 2,
            DummyCycles::_3 => 3,
            DummyCycles::_4 => 4,
            DummyCycles::_5 => 5,
            DummyCycles::_6 => 6,
            DummyCycles::_7 => 7,
            DummyCycles::_8 => 8,
            DummyCycles::_9 => 9,
            DummyCycles::_10 => 10,
            DummyCycles::_11 => 11,
            DummyCycles::_12 => 12,
            DummyCycles::_13 => 13,
            DummyCycles::_14 => 14,
            DummyCycles::_15 => 15,
            DummyCycles::_16 => 16,
            DummyCycles::_17 => 17,
            DummyCycles::_18 => 18,
            DummyCycles::_19 => 19,
            DummyCycles::_20 => 20,
            DummyCycles::_21 => 21,
            DummyCycles::_22 => 22,
            DummyCycles::_23 => 23,
            DummyCycles::_24 => 24,
            DummyCycles::_25 => 25,
            DummyCycles::_26 => 26,
            DummyCycles::_27 => 27,
            DummyCycles::_28 => 28,
            DummyCycles::_29 => 29,
            DummyCycles::_30 => 30,
            DummyCycles::_31 => 31,
        },
{
}

/// The code of a chip select high time is one less than its number of cycles.
pub proof fn law_chip_select_high_time_code(setting: ChipSelectHighTime)
    ensures
        setting.code() + 1 == match setting {
            ChipSelectHighTime::_1Cycle => 1int,
            ChipSelectHighTime::_2Cycle => 2,
            ChipSelectHighTime::_3Cycle => 3,
            ChipSelectHighTime::_4Cycle => 4,
            ChipSelectHighTime::_5Cycle => 5,
            ChipSelectHighTime::_6Cycle => 6,
            ChipSelectHighTime::_7Cycle => 7,
            ChipSelectHighTime::_8Cycle => 8,
        },
{
}

/// The code of a size is one less than its number of bytes.
pub proof fn law_address_size_code(setting: AddressSize)
    ensures
        8 * (setting.code() + 1) == match setting {
            AddressSize::_8Bit => 8int,
            AddressSize::_16Bit => 16,
            AddressSize::_24Bit => 24,
            AddressSize::_32Bit => 32,
        },
{
}

/// A wrap size of two to some power has a code that is less by two than the power.
pub proof fn law_wrap_size_code(setting: WrapSize)
    ensures
        setting == WrapSize::Disabled <==> setting.code() == 0,
        setting != WrapSize::Disabled ==> vstd::arithmetic::power2::pow2(
            (setting.code() + 2) as nat,
        ) == match setting {
            WrapSize::Disabled => 0int,
            WrapSize::_16Bytes => 16,
            WrapSize::_32Bytes => 32,
            WrapSize::_64Bytes => 64,
            WrapSize::_128Bytes => 128,
        },
{
    vstd::arithmetic::power2::lemma2_to64();
}

} // verus!
