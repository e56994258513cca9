//! Codes of the settings, held against the peripheral access crate.

use ospi::config::{Config, OspiError, TransferConfig};
use ospi::enums::{
    AddressSize, ChipSelectHighTime, DummyCycles, FIFOThresholdLevel, MemorySize, MemoryType,
    OspiMode, OspiWidth, WrapSize,
};
use ospi::word::{Word, WordSize};
use stm32_metapac::octospi::vals;

#[test]
fn widths_have_the_codes_of_the_access_crate() {
    assert_eq!(u8::from(OspiWidth::NONE), vals::PhaseMode::NONE.to_bits());
    assert_eq!(u8::from(OspiWidth::SING), vals::PhaseMode::ONE_LINE.to_bits());
    assert_eq!(u8::from(OspiWidth::DUAL), vals::PhaseMode::TWO_LINES.to_bits());
    assert_eq!(u8::from(OspiWidth::QUAD), vals::PhaseMode::FOUR_LINES.to_bits());
    assert_eq!(u8::from(OspiWidth::OCTO), vals::PhaseMode::EIGHT_LINES.to_bits());
}

#[test]
fn sizes_have_the_codes_of_the_access_crate() {
    assert_eq!(u8::from(AddressSize::_8Bit), vals::SizeInBits::_8BIT.to_bits());
    assert_eq!(u8::from(AddressSize::_16Bit), vals::SizeInBits::_16BIT.to_bits());
    assert_eq!(u8::from(AddressSize::_24Bit), vals::SizeInBits::_24BIT.to_bits());
    assert_eq!(u8::from(AddressSize::_32Bit), vals::SizeInBits::_32BIT.to_bits());
}

#[test]
fn modes_have_the_codes_of_the_access_crate() {
    assert_eq!(u8::from(OspiMode::IndirectWrite), vals::FunctionalMode::INDIRECT_WRITE.to_bits());
    assert_eq!(u8::from(OspiMode::IndirectRead), vals::FunctionalMode::INDIRECT_READ.to_bits());
    assert_eq!(u8::from(OspiMode::AutoPolling), vals::FunctionalMode::AUTO_STATUS_POLLING.to_bits());
    assert_eq!(u8::from(OspiMode::MemoryMapped), vals::FunctionalMode::MEMORY_MAPPED.to_bits());
}

#[test]
fn memory_types_have_the_codes_of_the_access_crate() {
    assert_eq!(u8::from(MemoryType::Micron), vals::MemType::MICRON.to_bits());
    assert_eq!(u8::from(MemoryType::Macronix), vals::MemType::MACRONIX.to_bits());
    assert_eq!(u8::from(MemoryType::Standard), vals::MemType::B_STANDARD.to_bits());
    assert_eq!(u8::from(MemoryType::MacronixRam), vals::MemType::MACRONIX_RAM.to_bits());
    assert_eq!(u8::from(MemoryType::HyperBusMemory), vals::MemType::HYPER_BUS_MEMORY.to_bits());
    assert_eq!(u8::from(MemoryType::HyperBusRegister), vals::MemType::HYPER_BUS_REGISTER.to_bits());
}

#[test]
fn thresholds_and_times_count_from_one() {
    assert_eq!(u8::from(FIFOThresholdLevel::_1Bytes), vals::Threshold::NEED_ONE_BYTE.to_bits());
    assert_eq!(u8::from(FIFOThresholdLevel::_2Bytes), vals::Threshold::NEED_TWO_BYTES.to_bits());
    assert_eq!(u8::from(FIFOThresholdLevel::_16Bytes), 15);
    assert_eq!(
        u8::from(FIFOThresholdLevel::_32Bytes),
        vals::Threshold::NEED_THIRTY_TWO_BYTES.to_bits()
    );
    assert_eq!(u8::from(ChipSelectHighTime::_1Cycle), 0);
    assert_eq!(u8::from(ChipSelectHighTime::_5Cycle), 4);
    assert_eq!(u8::from(ChipSelectHighTime::_8Cycle), 7);
    assert_eq!(u8::from(DummyCycles::_0), 0);
    assert_eq!(u8::from(DummyCycles::_31), 31);
    assert_eq!(u8::from(WrapSize::Disabled), 0);
    assert_eq!(u8::from(WrapSize::_16Bytes), 2);
    assert_eq!(u8::from(WrapSize::_128Bytes), 5);
}

#[test]
fn a_device_has_two_to_the_code_plus_one_bytes() {
    assert_eq!(1u64 << (u8::from(MemorySize::_1KiB) + 1), 1024);
    assert_eq!(1u64 << (u8::from(MemorySize::_512KiB) + 1), 512 * 1024);
    assert_eq!(1u64 << (u8::from(MemorySize::_8MiB) + 1), 8 * 1024 * 1024);
    assert_eq!(1u64 << (u8::from(MemorySize::_4GiB) + 1), 4 * 1024 * 1024 * 1024);
    assert_eq!(u8::from(MemorySize::Other(13)), 13);
}

#[test]
fn wider_means_a_larger_code() {
    let widths = [OspiWidth::NONE, OspiWidth::SING, OspiWidth::DUAL, OspiWidth::QUAD, OspiWidth::OCTO];
    for pair in widths.windows(2) {
        assert!(u8::from(pair[0]) < u8::from(pair[1]));
    }
}

#[test]
fn default_configuration() {
    let config = Config::default();
    assert_eq!(config.fifo_threshold, FIFOThresholdLevel::_16Bytes);
    assert_eq!(config.memory_type, MemoryType::Micron);
    assert_eq!(config.device_size, MemorySize::Other(0));
    assert_eq!(config.chip_select_high_time, ChipSelectHighTime::_5Cycle);
    assert!(!config.free_running_clock);
    assert!(!config.clock_mode);
    assert_eq!(config.wrap_size, WrapSize::Disabled);
    assert_eq!(config.clock_prescaler, 0);
    assert!(!config.sample_shifting);
    assert!(!config.delay_hold_quarter_cycle);
    assert_eq!(config.chip_select_boundary, 0);
    assert!(config.delay_block_bypass);
    assert_eq!(config.max_transfer, 0);
    assert_eq!(config.refresh, 0);
}

#[test]
fn default_transaction() {
    let transaction = TransferConfig::default();
    assert_eq!(transaction.iwidth, OspiWidth::NONE);
    assert_eq!(transaction.instruction, None);
    assert_eq!(transaction.isize, AddressSize::_8Bit);
    assert!(!transaction.idtr);
    assert_eq!(transaction.adwidth, OspiWidth::NONE);
    assert_eq!(transaction.address, None);
    assert_eq!(transaction.adsize, AddressSize::_8Bit);
    assert!(!transaction.addtr);
    assert_eq!(transaction.abwidth, OspiWidth::NONE);
    assert_eq!(transaction.alternate_bytes, None);
    assert_eq!(transaction.absize, AddressSize::_8Bit);
    assert!(!transaction.abdtr);
    assert_eq!(transaction.dwidth, OspiWidth::NONE);
    assert!(!transaction.ddtr);
    assert_eq!(transaction.dummy, DummyCycles::_0);
}

#[test]
fn words_know_their_size() {
    assert_eq!(<u8 as Word>::size(), WordSize::OneByte);
    assert_eq!(<u16 as Word>::size(), WordSize::TwoBytes);
    assert_eq!(<u32 as Word>::size(), WordSize::FourBytes);
}

#[test]
fn errors_are_told_apart() {
    assert_ne!(OspiError::InvalidCommand, OspiError::EmptyBuffer);
    assert_ne!(OspiError::InvalidConfiguration, OspiError::InvalidCommand);
}
