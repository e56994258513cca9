//! Changes to registers, held against the peripheral access crate.

use ospi::config::{Config, TransferConfig};
use ospi::edit::{Edit, Route};
use ospi::enums::{
    AddressSize, ChipSelectHighTime, DummyCycles, FIFOThresholdLevel, MemorySize, MemoryType,
    OspiMode, OspiWidth, WrapSize,
};
use ospi::instance::ManagerClock;
use ospi::register::Register;
use stm32_metapac::octospi::{regs, vals};
use stm32_metapac::{octospim, rcc};

const VALUES: [u32; 5] = [0, 0xffff_ffff, 0xa5a5_a5a5, 0x5a5a_5a5a, 0x1234_5678];

fn command() -> TransferConfig {
    TransferConfig {
        iwidth: OspiWidth::OCTO,
        instruction: Some(0xee11),
        isize: AddressSize::_16Bit,
        idtr: true,
        adwidth: OspiWidth::QUAD,
        address: Some(0x1000),
        adsize: AddressSize::_32Bit,
        addtr: false,
        abwidth: OspiWidth::DUAL,
        alternate_bytes: Some(0xab),
        absize: AddressSize::_24Bit,
        abdtr: true,
        dwidth: OspiWidth::SING,
        ddtr: true,
        dummy: DummyCycles::_20,
    }
}

fn config() -> Config {
    Config {
        fifo_threshold: FIFOThresholdLevel::_4Bytes,
        memory_type: MemoryType::HyperBusMemory,
        device_size: MemorySize::_16MiB,
        chip_select_high_time: ChipSelectHighTime::_6Cycle,
        free_running_clock: true,
        clock_mode: true,
        wrap_size: WrapSize::_64Bytes,
        clock_prescaler: 200,
        sample_shifting: true,
        delay_hold_quarter_cycle: true,
        chip_select_boundary: 29,
        delay_block_bypass: false,
        max_transfer: 77,
        refresh: 0xdead_beef,
    }
}

#[test]
fn control_register_edits_match_the_access_crate() {
    for v in VALUES {
        for on in [false, true] {
            let mut w = regs::Cr(v);
            w.set_en(on);
            assert_eq!(Edit::Enable(on).apply(v), w.0);
            let mut w = regs::Cr(v);
            w.set_dmaen(on);
            assert_eq!(Edit::Dma(on).apply(v), w.0);
            let mut w = regs::Cr(v);
            w.set_dmm(on);
            assert_eq!(Edit::DualMemory(on).apply(v), w.0);
        }
        let mut w = regs::Cr(v);
        w.set_fmode(vals::FunctionalMode::MEMORY_MAPPED);
        w.set_tcen(false);
        assert_eq!(Edit::MemoryMapped.apply(v), w.0);
        let mut w = regs::Cr(v);
        w.set_fmode(vals::FunctionalMode::INDIRECT_WRITE);
        w.set_abort(true);
        w.set_dmaen(false);
        w.set_en(false);
        assert_eq!(Edit::Abort.apply(v), w.0);
        let mut w = regs::Cr(v);
        w.set_fthres(vals::Threshold::NEED_THIRTY_TWO_BYTES);
        assert_eq!(Edit::FifoThreshold(FIFOThresholdLevel::_32Bytes).apply(v), w.0);
        let mut w = regs::Cr(v);
        w.set_fmode(vals::FunctionalMode::INDIRECT_READ);
        assert_eq!(Edit::Mode(OspiMode::IndirectRead).apply(v), w.0);
        let mut w = regs::Cr(v);
        w.set_fmode(vals::FunctionalMode::AUTO_STATUS_POLLING);
        assert_eq!(Edit::Mode(OspiMode::AutoPolling).apply(v), w.0);
    }
}

#[test]
fn control_register_edits_have_these_values() {
    assert_eq!(Edit::Enable(true).apply(0), 0x0000_0001);
    assert_eq!(Edit::Enable(false).apply(0xffff_ffff), 0xffff_fffe);
    assert_eq!(Edit::Dma(true).apply(0), 0x0000_0004);
    assert_eq!(Edit::Dma(false).apply(0xffff_ffff), 0xffff_fffb);
    assert_eq!(Edit::DualMemory(true).apply(0), 0x0000_0040);
    assert_eq!(Edit::Mode(OspiMode::IndirectWrite).apply(0xffff_ffff), 0xcfff_ffff);
    assert_eq!(Edit::Mode(OspiMode::IndirectRead).apply(0), 0x1000_0000);
    assert_eq!(Edit::MemoryMapped.apply(0x0000_0008), 0x3000_0000);
    assert_eq!(Edit::Abort.apply(0x3000_0005), 0x0000_0002);
    assert_eq!(Edit::FifoThreshold(FIFOThresholdLevel::_16Bytes).apply(0), 0x0000_0f00);
}

#[test]
fn device_register_edits_match_the_access_crate() {
    let c = config();
    for v in VALUES {
        let mut w = regs::Dcr1(v);
        w.set_devsize(23);
        w.set_mtyp(vals::MemType::HYPER_BUS_MEMORY);
        w.set_csht(5);
        w.set_dlybyp(false);
        w.set_frck(false);
        w.set_ckmode(true);
        assert_eq!(Edit::Device(c).apply(v), w.0);
        for on in [false, true] {
            let mut w = regs::Dcr1(v);
            w.set_frck(on);
            assert_eq!(Edit::FreeRunningClock(on).apply(v), w.0);
        }
        let mut w = regs::Dcr2(v);
        w.set_wrapsize(4);
        assert_eq!(Edit::Wrap(c.wrap_size).apply(v), w.0);
        let mut w = regs::Dcr2(v);
        w.set_prescaler(200);
        assert_eq!(Edit::Prescaler(200).apply(v), w.0);
        let mut w = regs::Dcr3(v);
        w.set_csbound(29);
        assert_eq!(Edit::Boundary(29, None).apply(v), w.0);
        w.set_maxtran(77);
        assert_eq!(Edit::Boundary(29, Some(77)).apply(v), w.0);
        let mut w = regs::Dcr4(v);
        w.set_refresh(0xdead_beef);
        assert_eq!(Edit::Refresh(0xdead_beef).apply(v), w.0);
    }
}

#[test]
fn device_register_edits_have_these_values() {
    assert_eq!(Edit::Device(Config::default()).apply(0), 0x0000_0408);
    assert_eq!(Edit::Device(config()).apply(0), 0x0417_0501);
    assert_eq!(Edit::Device(config()).apply(0xffff_ffff), 0xfcf7_c5f5);
    assert_eq!(Edit::FreeRunningClock(true).apply(0), 0x0000_0002);
    assert_eq!(Edit::Wrap(WrapSize::_128Bytes).apply(0), 0x0005_0000);
    assert_eq!(Edit::Prescaler(0xff).apply(0), 0x0000_00ff);
    assert_eq!(Edit::Boundary(31, Some(0x12)).apply(0), 0x001f_0012);
    assert_eq!(Edit::Boundary(31, None).apply(0x12), 0x001f_0012);
    assert_eq!(Edit::Refresh(7).apply(0xffff_ffff), 7);
}

#[test]
fn numbers_too_large_for_their_field_are_cut_off() {
    let c = Config { device_size: MemorySize::Other(0xff), ..Config::default() };
    assert_eq!(Edit::Device(c).apply(0), 0x001f_0408);
    assert_eq!(Edit::Boundary(0xff, None).apply(0), 0x001f_0000);
}

#[test]
fn timing_register_edits_match_the_access_crate() {
    for v in VALUES {
        for shift in [false, true] {
            for hold in [false, true] {
                let mut w = regs::Tcr(v);
                w.set_sshift(match shift {
                    true => vals::SampleShift::HALF_CYCLE,
                    false => vals::SampleShift::NONE,
                });
                w.set_dhqc(hold);
                assert_eq!(Edit::Sampling(shift, hold).apply(v), w.0);
            }
        }
        let mut w = regs::Tcr(v);
        w.set_dcyc(20);
        assert_eq!(Edit::Dummy(DummyCycles::_20).apply(v), w.0);
        let mut w = regs::Wtcr(v);
        w.set_dcyc(31);
        assert_eq!(Edit::WriteDummy(DummyCycles::_31).apply(v), w.0);
    }
    assert_eq!(Edit::Sampling(true, false).apply(0), 0x4000_0000);
    assert_eq!(Edit::Sampling(false, true).apply(0), 0x1000_0000);
    assert_eq!(Edit::Dummy(DummyCycles::_8).apply(0xffff_ffff), 0xffff_ffe8);
    assert_eq!(Edit::WriteDummy(DummyCycles::_3).apply(0), 3);
}

#[test]
fn communication_register_edits_match_the_access_crate() {
    let c = command();
    for v in VALUES {
        let mut w = regs::Ccr(v);
        w.set_abmode(vals::PhaseMode::TWO_LINES);
        w.set_abdtr(true);
        w.set_absize(vals::SizeInBits::_24BIT);
        assert_eq!(Edit::AlternateBytes(c).apply(v), w.0);
        let mut w = regs::Ccr(v);
        w.set_imode(vals::PhaseMode::EIGHT_LINES);
        w.set_idtr(true);
        w.set_isize(vals::SizeInBits::_16BIT);
        w.set_admode(vals::PhaseMode::FOUR_LINES);
        w.set_addtr(false);
        w.set_adsize(vals::SizeInBits::_32BIT);
        w.set_dmode(vals::PhaseMode::ONE_LINE);
        w.set_ddtr(true);
        w.set_abmode(vals::PhaseMode::TWO_LINES);
        assert_eq!(Edit::Phases(c).apply(v), w.0);
        let mut w = regs::Ccr(v);
        w.set_dqse(false);
        w.set_sioo(true);
        assert_eq!(Edit::SendInstructionOnce.apply(v), w.0);
        let mut w = regs::Wccr(v);
        w.set_imode(vals::PhaseMode::EIGHT_LINES);
        w.set_idtr(true);
        w.set_isize(vals::SizeInBits::_16BIT);
        w.set_admode(vals::PhaseMode::FOUR_LINES);
        w.set_addtr(false);
        w.set_adsize(vals::SizeInBits::_32BIT);
        w.set_dmode(vals::PhaseMode::ONE_LINE);
        w.set_ddtr(true);
        w.set_abmode(vals::PhaseMode::TWO_LINES);
        w.set_dqse(true);
        assert_eq!(Edit::WritePhases(c).apply(v), w.0);
    }
}

#[test]
fn communication_register_edits_have_these_values() {
    assert_eq!(Edit::Phases(command()).apply(0), 0x0902_331c);
    assert_eq!(Edit::AlternateBytes(command()).apply(0), 0x002a_0000);
    assert_eq!(Edit::SendInstructionOnce.apply(0x2000_0000), 0x8000_0000);
    assert_eq!(Edit::WritePhases(command()).apply(0), 0x2902_331c);
}

#[test]
fn the_double_rate_of_the_address_is_its_own() {
    let mut c = command();
    c.idtr = false;
    c.addtr = true;
    assert_eq!(Edit::Phases(c).apply(0) & 0x0808, 0x0800);
    assert_eq!(Edit::WritePhases(c).apply(0) & 0x0808, 0x0800);
    c.idtr = true;
    c.addtr = false;
    assert_eq!(Edit::Phases(c).apply(0xffff_ffff) & 0x0808, 0x0008);
    assert_eq!(Edit::WritePhases(c).apply(0xffff_ffff) & 0x0808, 0x0008);
}

#[test]
fn manager_edits_match_the_access_crate() {
    for v in VALUES {
        let mut w = octospim::regs::Cr(v);
        w.set_muxen(false);
        w.set_req2ack_time(0xff);
        assert_eq!(Edit::ManagerArbitration.apply(v), w.0);
        let mut w = octospim::regs::P1cr(v);
        w.set_clksrc(false);
        w.set_dqssrc(false);
        w.set_ncssrc(false);
        w.set_clken(false);
        w.set_dqsen(false);
        w.set_ncsen(false);
        w.set_iolsrc(0);
        w.set_iohsrc(0);
        assert_eq!(Edit::PortClear.apply(v), w.0);
        let mut w = rcc::regs::Ahb2enr1(v);
        w.set_octospimen(true);
        assert_eq!(Edit::EnableManager(ManagerClock::Ahb2).apply(v), w.0);
        assert_eq!(Edit::EnableManager(ManagerClock::Ahb2Sleep).apply(v), v | 0x0010_0000);
        assert_eq!(Edit::EnableManager(ManagerClock::Ahb3).apply(v), v | 0x0020_0000);
    }
    assert_eq!(Edit::ManagerArbitration.apply(1), 0x00ff_0000);
    assert_eq!(Edit::PortClear.apply(0xffff_ffff), 0xf9f9_fccc);
    assert_eq!(Edit::EnableManager(ManagerClock::Ahb2).apply(0), 0x0020_0000);
}

fn routed(index: u8, dqs: bool, width: OspiWidth, dual_quad: bool, v: u32) -> u32 {
    let mut w = octospim::regs::P1cr(v);
    let octospi_src = if index == 1 { false } else { true };
    w.set_ncsen(true);
    w.set_ncssrc(octospi_src);
    w.set_clken(true);
    w.set_clksrc(octospi_src);
    if dqs {
        w.set_dqsen(true);
        w.set_dqssrc(octospi_src);
    }
    if index == 1 {
        w.set_iolen(true);
        w.set_iolsrc(0);
        if let OspiWidth::OCTO = width {
            w.set_iohen(true);
            w.set_iohsrc(0b01);
        } else if dual_quad {
            w.set_iohen(true);
            w.set_iohsrc(0b00);
        } else {
            w.set_iohen(false);
            w.set_iohsrc(0b00);
        }
    } else {
        w.set_iolen(true);
        w.set_iolsrc(0b10);
        if let OspiWidth::OCTO = width {
            w.set_iohen(true);
            w.set_iohsrc(0b11);
        } else if dual_quad {
            w.set_iohen(true);
            w.set_iohsrc(0b10);
        } else {
            w.set_iohen(false);
            w.set_iohsrc(0b00);
        }
    }
    w.0
}

#[test]
fn port_routes_match_the_access_crate() {
    for v in VALUES {
        for index in [1, 2] {
            for dqs in [false, true] {
                for width in [OspiWidth::SING, OspiWidth::DUAL, OspiWidth::QUAD, OspiWidth::OCTO] {
                    for dual_quad in [false, true] {
                        let route = Route { index, dqs, width, dual_quad };
                        let expected = routed(index, dqs, width, dual_quad, v);
                        assert_eq!(Edit::PortRoute(route).apply(v), expected);
                    }
                }
            }
        }
    }
}

#[test]
fn port_routes_have_these_values() {
    let quad = Route { index: 1, dqs: false, width: OspiWidth::QUAD, dual_quad: false };
    assert_eq!(Edit::PortRoute(quad).apply(0), 0x0001_0101);
    let octo = Route { index: 2, dqs: true, width: OspiWidth::OCTO, dual_quad: false };
    assert_eq!(Edit::PortRoute(octo).apply(0), 0x0705_0333);
    let dual = Route { index: 2, dqs: false, width: OspiWidth::QUAD, dual_quad: true };
    assert_eq!(Edit::PortRoute(dual).apply(0), 0x0505_0303);
}

#[test]
fn every_edit_knows_its_register() {
    assert_eq!(Edit::Enable(true).register(), Register::Cr);
    assert_eq!(Edit::MemoryMapped.register(), Register::Cr);
    assert_eq!(Edit::Abort.register(), Register::Cr);
    assert_eq!(Edit::Device(config()).register(), Register::Dcr1);
    assert_eq!(Edit::FreeRunningClock(true).register(), Register::Dcr1);
    assert_eq!(Edit::Prescaler(0).register(), Register::Dcr2);
    assert_eq!(Edit::Boundary(0, None).register(), Register::Dcr3);
    assert_eq!(Edit::Refresh(0).register(), Register::Dcr4);
    assert_eq!(Edit::Dummy(DummyCycles::_0).register(), Register::Tcr);
    assert_eq!(Edit::Phases(command()).register(), Register::Ccr);
    assert_eq!(Edit::WritePhases(command()).register(), Register::Wccr);
    assert_eq!(Edit::WriteDummy(DummyCycles::_0).register(), Register::Wtcr);
    assert_eq!(Edit::EnableManager(ManagerClock::Ahb2Sleep).register(), Register::RccAhb2smenr);
    assert_eq!(Edit::EnableManager(ManagerClock::Ahb2).register(), Register::RccAhb2enr1);
    assert_eq!(Edit::EnableManager(ManagerClock::Ahb3).register(), Register::RccAhb3enr);
    assert_eq!(Edit::PortClear.register(), Register::ManagerP1cr);
}
