//! Changes to a register: the fields that a read-modify-write overwrites, and with what.

use vstd::prelude::*;

use crate::bits::{with_field, with_flag};
use crate::config::{Config, TransferConfig};
use crate::enums::{DummyCycles, FIFOThresholdLevel, OspiMode, OspiWidth, WrapSize};
use crate::instance::ManagerClock;
use crate::pac;
use crate::register::Register;

verus! {

/// How port 1 of the I/O manager is wired to an instance of the peripheral.
#[derive(Clone, Copy, PartialEq, Eq, Structural, Debug)]
pub struct Route {
    /// Number of the instance
    pub index: u8,
    /// Whether the data strobe is connected
    pub dqs: bool,
    /// Number of lines of the driver
    pub width: OspiWidth,
    /// Whether two quad devices share the port
    pub dual_quad: bool,
}

impl Route {
    /// Whether the signals come from the second instance.
    pub open spec fn source(self) -> bool {
        self.index != 1
    }

    /// The source of the low four lines: the low lines of the instance.
    pub open spec fn low_source(self) -> u8 {
        if self.index == 1 {
            0b00
        } else {
            0b10
        }
    }

    /// Whether the high four lines are in use: with eight lines, or with two quad devices.
    pub open spec fn high_enabled(self) -> bool {
        self.width == OspiWidth::OCTO || self.dual_quad
    }

    /// The source of the high four lines: the high lines of the instance for eight lines, its low
    /// lines for two quad devices, and nothing otherwise.
    pub open spec fn high_source(self) -> u8 {
        if self.width == OspiWidth::OCTO {
            if self.index == 1 {
                0b01
            } else {
                0b11
            }
        } else if self.dual_quad {
            self.low_source()
        } else {
            0b00
        }
    }

    /// P1CR once the route is set up, out of its value before.
    pub open spec fn applied(self, p1cr: u32) -> u32 {
        // NCSEN, NCSSRC
        let selected = with_flag(with_flag(p1cr, 8, true), 9, self.source());
        // CLKEN, CLKSRC
        let clocked = with_flag(with_flag(selected, 0, true), 1, self.source());
        // DQSEN, DQSSRC
        let strobed = if self.dqs {
            with_flag(with_flag(clocked, 4, true), 5, self.source())
        } else {
            clocked
        };
        // IOLEN, IOLSRC
        let low = with_field(with_flag(strobed, 16, true), 17, 2, self.low_source() as u32);
        // IOHEN, IOHSRC
        with_field(
            with_flag(low, 24, self.high_enabled()),
            25,
            2,
            self.high_source() as u32,
        )
    }

    /// Sets up the route in P1CR.
    fn apply(&self, p1cr: u32) -> (r: u32)
        ensures
            r == self.applied(p1cr),
    {
        let octospi_src = if self.index == 1 { false } else { true };
        let mut w: u32 = pac::p1cr_with_ncsen(p1cr, true);
        w = pac::p1cr_with_ncssrc(w, octospi_src);
        w = pac::p1cr_with_clken(w, true);
        w = pac::p1cr_with_clksrc(w, octospi_src);
        if self.dqs {
            w = pac::p1cr_with_dqsen(w, true);
            w = pac::p1cr_with_dqssrc(w, octospi_src);
        }
        // IOL and IOH follow the number of the instance; IOH is in use in octo and dual quad mode.
        w = pac::p1cr_with_iolen(w, true);
        if self.index == 1 {
            w = pac::p1cr_with_iolsrc(w, 0b00);
            match self.width {
                OspiWidth::OCTO => {
                    w = pac::p1cr_with_iohen(w, true);
                    w = pac::p1cr_with_iohsrc(w, 0b01);
                },
                _ => {
                    w = pac::p1cr_with_iohen(w, self.dual_quad);
                    w = pac::p1cr_with_iohsrc(w, 0b00);
                },
            }
        } else {
            w = pac::p1cr_with_iolsrc(w, 0b10);
            match self.width {
                OspiWidth::OCTO => {
                    w = pac::p1cr_with_iohen(w, true);
                    w = pac::p1cr_with_iohsrc(w, 0b11);
                },
                _ => {
                    w = pac::p1cr_with_iohen(w, self.dual_quad);
                    w = pac::p1cr_with_iohsrc(w, if self.dual_quad { 0b10 } else { 0b00 });
                },
            }
        }
        w
    }
}

/// DCR1 once it describes the external device.
pub open spec fn device(v: u32, config: Config) -> u32 {
    let v = with_field(v, 16, 5, config.device_size.code() as u32);  // DEVSIZE
    let v = with_field(v, 24, 3, config.memory_type.code() as u32);  // MTYP
    let v = with_field(v, 8, 6, config.chip_select_high_time.code() as u32);  // CSHT
    let v = with_flag(v, 3, config.delay_block_bypass);  // DLYBYP
    let v = with_flag(v, 1, false);  // FRCK
    with_flag(v, 0, config.clock_mode)  // CKMODE
}

/// CCR once it describes the alternate bytes phase.
pub open spec fn alternate_bytes(v: u32, command: TransferConfig) -> u32 {
    let v = with_field(v, 16, 3, command.abwidth.code() as u32);  // ABMODE
    let v = with_flag(v, 19, command.abdtr);  // ABDTR
    with_field(v, 20, 2, command.absize.code() as u32)  // ABSIZE
}

/// CCR once it describes the instruction, address and data phases and says on how many lines the
/// alternate bytes go.
pub open spec fn phases(v: u32, command: TransferConfig) -> u32 {
    let v = with_field(v, 0, 3, command.iwidth.code() as u32);  // IMODE
    let v = with_flag(v, 3, command.idtr);  // IDTR
    let v = with_field(v, 4, 2, command.isize.code() as u32);  // ISIZE
    let v = with_field(v, 8, 3, command.adwidth.code() as u32);  // ADMODE
    let v = with_flag(v, 11, command.addtr);  // ADDTR
    let v = with_field(v, 12, 2, command.adsize.code() as u32);  // ADSIZE
    let v = with_field(v, 24, 3, command.dwidth.code() as u32);  // DMODE
    let v = with_flag(v, 27, command.ddtr);  // DDTR
    with_field(v, 16, 3, command.abwidth.code() as u32)  // ABMODE
}

/// WCCR once it describes the phases of writes. Its fields lie where those of CCR do.
pub open spec fn write_phases(v: u32, command: TransferConfig) -> u32 {
    with_flag(phases(v, command), 29, true)  // DQSE
}

/// P1CR once nothing is connected to the port.
pub open spec fn port_cleared(v: u32) -> u32 {
    let v = with_flag(v, 1, false);  // CLKSRC
    let v = with_flag(v, 5, false);  // DQSSRC
    let v = with_flag(v, 9, false);  // NCSSRC
    let v = with_flag(v, 0, false);  // CLKEN
    let v = with_flag(v, 4, false);  // DQSEN
    let v = with_flag(v, 8, false);  // NCSEN
    let v = with_field(v, 17, 2, 0);  // IOLSRC
    with_field(v, 25, 2, 0)  // IOHSRC
}

/// Describes the external device in DCR1.
fn set_device(value: u32, config: &Config) -> (r: u32)
    ensures
        r == device(value, *config),
{
    let w: u32 = pac::dcr1_with_devsize(value, u8::from(config.device_size));
    let w: u32 = pac::dcr1_with_mtyp(w, u8::from(config.memory_type));
    let w: u32 = pac::dcr1_with_csht(w, u8::from(config.chip_select_high_time));
    let w: u32 = pac::dcr1_with_dlybyp(w, config.delay_block_bypass);
    let w: u32 = pac::dcr1_with_frck(w, false);
    pac::dcr1_with_ckmode(w, config.clock_mode)
}

/// Describes the alternate bytes phase in CCR.
fn set_alternate_bytes(value: u32, command: &TransferConfig) -> (r: u32)
    ensures
        r == alternate_bytes(value, *command),
{
    let w: u32 = pac::ccr_with_abmode(value, u8::from(command.abwidth));
    let w: u32 = pac::ccr_with_abdtr(w, command.abdtr);
    pac::ccr_with_absize(w, u8::from(command.absize))
}

/// Describes the instruction, address and data phases and the width of the alternate bytes in CCR.
/// A command without alternate bytes has to take back those of an earlier one.
fn set_phases(value: u32, command: &TransferConfig) -> (r: u32)
    ensures
        r == phases(value, *command),
{
    let w: u32 = pac::ccr_with_imode(value, u8::from(command.iwidth));
    let w: u32 = pac::ccr_with_idtr(w, command.idtr);
    let w: u32 = pac::ccr_with_isize(w, u8::from(command.isize));
    let w: u32 = pac::ccr_with_admode(w, u8::from(command.adwidth));
    let w: u32 = pac::ccr_with_addtr(w, command.addtr);
    let w: u32 = pac::ccr_with_adsize(w, u8::from(command.adsize));
    let w: u32 = pac::ccr_with_dmode(w, u8::from(command.dwidth));
    let w: u32 = pac::ccr_with_ddtr(w, command.ddtr);
    pac::ccr_with_abmode(w, u8::from(command.abwidth))
}

/// Describes the phases of writes in WCCR.
fn set_write_phases(value: u32, command: &TransferConfig) -> (r: u32)
    ensures
        r == write_phases(value, *command),
{
    let w: u32 = pac::wccr_with_imode(value, u8::from(command.iwidth));
    let w: u32 = pac::wccr_with_idtr(w, command.idtr);
    let w: u32 = pac::wccr_with_isize(w, u8::from(command.isize));
    let w: u32 = pac::wccr_with_admode(w, u8::from(command.adwidth));
    let w: u32 = pac::wccr_with_addtr(w, command.addtr);
    let w: u32 = pac::wccr_with_adsize(w, u8::from(command.adsize));
    let w: u32 = pac::wccr_with_dmode(w, u8::from(command.dwidth));
    let w: u32 = pac::wccr_with_ddtr(w, command.ddtr);
    let w: u32 = pac::wccr_with_abmode(w, u8::from(command.abwidth));
    pac::wccr_with_dqse(w, true)
}

/// Disconnects the port in P1CR.
fn clear_port(value: u32) -> (r: u32)
    ensures
        r == port_cleared(value),
{
    let w: u32 = pac::p1cr_with_clksrc(value, false);
    let w: u32 = pac::p1cr_with_dqssrc(w, false);
    let w: u32 = pac::p1cr_with_ncssrc(w, false);
    let w: u32 = pac::p1cr_with_clken(w, false);
    let w: u32 = pac::p1cr_with_dqsen(w, false);
    let w: u32 = pac::p1cr_with_ncsen(w, false);
    let w: u32 = pac::p1cr_with_iolsrc(w, 0);
    pac::p1cr_with_iohsrc(w, 0)
}

/// A change to one register.
#[derive(Clone, Copy, PartialEq, Eq, Debug)]
pub enum Edit {
    /// CR: enables or disables the peripheral
    Enable(bool),
    /// CR: enables or disables DMA requests
    Dma(bool),
    /// CR: selects the functional mode
    Mode(OspiMode),
    /// CR: selects the memory mapped mode, without the timeout counter
    MemoryMapped,
    /// CR: aborts what is going on, disables DMA and the peripheral, and returns to indirect mode
    Abort,
    /// CR: sets the FIFO threshold
    FifoThreshold(FIFOThresholdLevel),
    /// CR: sets or clears the dual-memory configuration
    DualMemory(bool),
    /// DCR1: describes the external device, with the free running clock off
    Device(Config),
    /// DCR1: switches the free running clock
    FreeRunningClock(bool),
    /// DCR2: sets the wrap size
    Wrap(WrapSize),
    /// DCR2: sets the clock prescaler
    Prescaler(u8),
    /// DCR3: sets the chip select boundary and, where the chip has it, the maximum transfer
    Boundary(u8, Option<u8>),
    /// DCR4: sets the refresh period
    Refresh(u32),
    /// TCR: sets the sample shift and the delay hold quarter cycle
    Sampling(bool, bool),
    /// TCR: sets the number of dummy cycles
    Dummy(DummyCycles),
    /// CCR: describes the alternate bytes phase
    AlternateBytes(TransferConfig),
    /// CCR: describes the instruction, address and data phases and the width of the alternate bytes
    Phases(TransferConfig),
    /// CCR: disables the data strobe and sends the instruction only once
    SendInstructionOnce,
    /// WCCR: describes the phases of writes in memory mapped mode, with the data strobe enabled
    WritePhases(TransferConfig),
    /// WTCR: sets the number of dummy cycles of writes in memory mapped mode
    WriteDummy(DummyCycles),
    /// RCC: sets the clock enable bit of the I/O manager, on STM32L4+ only the one for the sleep
    /// mode
    EnableManager(ManagerClock),
    /// I/O manager CR: no multiplexing, longest request to acknowledge time
    ManagerArbitration,
    /// I/O manager P1CR: disconnects port 1
    PortClear,
    /// I/O manager P1CR: connects port 1
    PortRoute(Route),
}

impl Edit {
    /// The register that the change is made to.
    pub open spec fn target(self) -> Register {
        match self {
            Edit::Enable(_) => Register::Cr,
            Edit::Dma(_) => Register::Cr,
            Edit::Mode(_) => Register::Cr,
            Edit::MemoryMapped => Register::Cr,
            Edit::Abort => Register::Cr,
            Edit::FifoThreshold(_) => Register::Cr,
            Edit::DualMemory(_) => Register::Cr,
            Edit::Device(_) => Register::Dcr1,
            Edit::FreeRunningClock(_) => Register::Dcr1,
            Edit::Wrap(_) => Register::Dcr2,
            Edit::Prescaler(_) => Register::Dcr2,
            Edit::Boundary(_, _) => Register::Dcr3,
            Edit::Refresh(_) => Register::Dcr4,
            Edit::Sampling(_, _) => Register::Tcr,
            Edit::Dummy(_) => Register::Tcr,
            Edit::AlternateBytes(_) => Register::Ccr,
            Edit::Phases(_) => Register::Ccr,
            Edit::SendInstructionOnce => Register::Ccr,
            Edit::WritePhases(_) => Register::Wccr,
            Edit::WriteDummy(_) => Register::Wtcr,
            Edit::EnableManager(ManagerClock::Ahb2Sleep) => Register::RccAhb2smenr,
            Edit::EnableManager(ManagerClock::Ahb2) => Register::RccAhb2enr1,
            Edit::EnableManager(ManagerClock::Ahb3) => Register::RccAhb3enr,
            Edit::ManagerArbitration => Register::ManagerCr,
            Edit::PortClear => Register::ManagerP1cr,
            Edit::PortRoute(_) => Register::ManagerP1cr,
        }
    }

    /// The value of the register after the change, out of its value before.
    pub open spec fn applied(self, v: u32) -> u32 {
        match self {
            // EN
            Edit::Enable(on) => with_flag(v, 0, on),
            // DMAEN
            Edit::Dma(on) => with_flag(v, 2, on),
            // FMODE
            Edit::Mode(mode) => with_field(v, 28, 2, mode.code() as u32),
            // FMODE, TCEN
            Edit::MemoryMapped => with_flag(with_field(v, 28, 2, 3), 3, false),
            // FMODE, ABORT, DMAEN, EN
            Edit::Abort => with_flag(
                with_flag(with_flag(with_field(v, 28, 2, 0), 1, true), 2, false),
                0,
                false,
            ),
            // FTHRES
            Edit::FifoThreshold(level) => with_field(v, 8, 5, level.code() as u32),
            // DMM
            Edit::DualMemory(on) => with_flag(v, 6, on),
            Edit::Device(config) => device(v, config),
            // FRCK
            Edit::FreeRunningClock(on) => with_flag(v, 1, on),
            // WRAPSIZE
            Edit::Wrap(size) => with_field(v, 16, 3, size.code() as u32),
            // PRESCALER
            Edit::Prescaler(prescaler) => with_field(v, 0, 8, prescaler as u32),
            // CSBOUND, MAXTRAN
            Edit::Boundary(csbound, maxtran) => {
                let v = with_field(v, 16, 5, csbound as u32);
                match maxtran {
                    Some(maxtran) => with_field(v, 0, 8, maxtran as u32),
                    None => v,
                }
            },
            // REFRESH
            Edit::Refresh(refresh) => refresh,
            // SSHIFT, DHQC
            Edit::Sampling(shift, hold) => with_flag(with_flag(v, 30, shift), 28, hold),
            // DCYC
            Edit::Dummy(cycles) => with_field(v, 0, 5, cycles.code() as u32),
            Edit::AlternateBytes(command) => alternate_bytes(v, command),
            Edit::Phases(command) => phases(v, command),
            // DQSE, SIOO
            Edit::SendInstructionOnce => with_flag(with_flag(v, 29, false), 31, true),
            Edit::WritePhases(command) => write_phases(v, command),
            // DCYC
            Edit::WriteDummy(cycles) => with_field(v, 0, 5, cycles.code() as u32),
            // OCTOSPIMSMEN
            Edit::EnableManager(ManagerClock::Ahb2Sleep) => with_flag(v, 20, true),
            // OCTOSPIMEN
            Edit::EnableManager(ManagerClock::Ahb2) => with_flag(v, 21, true),
            // IOMNGREN
            Edit::EnableManager(ManagerClock::Ahb3) => with_flag(v, 21, true),
            // MUXEN, REQ2ACK_TIME
            Edit::ManagerArbitration => with_field(with_flag(v, 0, false), 16, 8, 0xff),
            Edit::PortClear => port_cleared(v),
            Edit::PortRoute(route) => route.applied(v),
        }
    }

    /// The register that the change is made to.
    pub fn register(&self) -> (r: Register)
        ensures
            r == self.target(),
    {
        match self {
            Edit::Enable(_) => Register::Cr,
            Edit::Dma(_) => Register::Cr,
            Edit::Mode(_) => Register::Cr,
            Edit::MemoryMapped => Register::Cr,
            Edit::Abort => Register::Cr,
            Edit::FifoThreshold(_) => Register::Cr,
            Edit::DualMemory(_) => Register::Cr,
            Edit::Device(_) => Register::Dcr1,
            Edit::FreeRunningClock(_) => Register::Dcr1,
            Edit::Wrap(_) => Register::Dcr2,
            Edit::Prescaler(_) => Register::Dcr2,
            Edit::Boundary(_, _) => Register::Dcr3,
            Edit::Refresh(_) => Register::Dcr4,
            Edit::Sampling(_, _) => Register::Tcr,
            Edit::Dummy(_) => Register::Tcr,
            Edit::AlternateBytes(_) => Register::Ccr,
            Edit::Phases(_) => Register::Ccr,
            Edit::SendInstructionOnce => Register::Ccr,
            Edit::WritePhases(_) => Register::Wccr,
            Edit::WriteDummy(_) => Register::Wtcr,
            Edit::EnableManager(clock) => match clock {
                ManagerClock::Ahb2Sleep => Register::RccAhb2smenr,
                ManagerClock::Ahb2 => Register::RccAhb2enr1,
                ManagerClock::Ahb3 => Register::RccAhb3enr,
            },
            Edit::ManagerArbitration => Register::ManagerCr,
            Edit::PortClear => Register::ManagerP1cr,
            Edit::PortRoute(_) => Register::ManagerP1cr,
        }
    }

    /// Makes the change: the value that goes back into the register, given the one read from it.
    pub fn apply(&self, value: u32) -> (r: u32)
        ensures
            r == self.applied(value),
    {
        match self {
            Edit::Enable(on) => pac::cr_with_en(value, *on),
            Edit::Dma(on) => pac::cr_with_dmaen(value, *on),
            Edit::Mode(mode) => pac::cr_with_fmode(value, u8::from(*mode)),
            Edit::MemoryMapped => {
                let w: u32 = pac::cr_with_fmode(value, u8::from(OspiMode::MemoryMapped));
                pac::cr_with_tcen(w, false)
            },
            Edit::Abort => {
                let w: u32 = pac::cr_with_fmode(value, u8::from(OspiMode::IndirectWrite));
                let w: u32 = pac::cr_with_abort(w, true);
                let w: u32 = pac::cr_with_dmaen(w, false);
                pac::cr_with_en(w, false)
            },
            Edit::FifoThreshold(level) => pac::cr_with_fthres(value, u8::from(*level)),
            Edit::DualMemory(on) => pac::cr_with_dmm(value, *on),
            Edit::Device(config) => set_device(value, config),
            Edit::FreeRunningClock(on) => pac::dcr1_with_frck(value, *on),
            Edit::Wrap(size) => pac::dcr2_with_wrapsize(value, u8::from(*size)),
            Edit::Prescaler(prescaler) => pac::dcr2_with_prescaler(value, *prescaler),
            Edit::Boundary(csbound, maxtran) => {
                let w: u32 = pac::dcr3_with_csbound(value, *csbound);
                match maxtran {
                    Some(maxtran) => pac::dcr3_with_maxtran(w, *maxtran),
                    None => w,
                }
            },
            Edit::Refresh(refresh) => pac::dcr4_with_refresh(value, *refresh),
            Edit::Sampling(shift, hold) => {
                let w: u32 = pac::tcr_with_sshift(value, if *shift { 1 } else { 0 });
                pac::tcr_with_dhqc(w, *hold)
            },
            Edit::Dummy(cycles) => pac::tcr_with_dcyc(value, u8::from(*cycles)),
            Edit::AlternateBytes(command) => set_alternate_bytes(value, command),
            Edit::Phases(command) => set_phases(value, command),
            Edit::SendInstructionOnce => {
                let w: u32 = pac::ccr_with_dqse(value, false);
                pac::ccr_with_sioo(w, true)
            },
            Edit::WritePhases(command) => set_write_phases(value, command),
            Edit::WriteDummy(cycles) => pac::wtcr_with_dcyc(value, u8::from(*cycles)),
            Edit::EnableManager(clock) => match clock {
                ManagerClock::Ahb2Sleep => set_bit(value, 20),
                ManagerClock::Ahb2 => pac::ahb2enr1_with_octospimen(value, true),
                ManagerClock::Ahb3 => set_bit(value, 21),
            },
            Edit::ManagerArbitration => {
                let w: u32 = pac::manager_cr_with_muxen(value, false);
                pac::manager_cr_with_req2ack_time(w, 0xff)
            },
            Edit::PortClear => clear_port(value),
            Edit::PortRoute(route) => route.apply(value),
        }
    }
}

/// Sets one bit of a clock register. The access crate defines these registers only when it is
/// built for a chip that has them.
fn set_bit(value: u32, shift: u32) -> (r: u32)
    requires
        shift < 32,
    ensures
        r == with_flag(value, shift, true),
{
    proof {
        reveal(with_field);
        assert((value & !((((1u32 << 1u32) - 1) as u32) << shift)) | ((1u32 & (((1u32 << 1u32)
            - 1) as u32)) << shift) == value | (1u32 << shift)) by (bit_vector)
            requires
                shift < 32,
        ;
    }
    value | (1u32 << shift)
}

} // verus!
