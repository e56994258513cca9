//! The fields of registers after the changes that the driver makes.

use vstd::prelude::*;

use crate::bits::{field, flag, group_fields, lemma_ones, ones, with_field, with_flag};
use crate::config::{Config, TransferConfig};
use crate::edit::{alternate_bytes, phases, port_cleared, write_phases, Edit, Route};
use crate::enums::{DummyCycles, FIFOThresholdLevel, OspiMode};
use crate::laws::{holds_phases, holds_route};
use crate::model::settled;

verus! {

/// The fields of the device registers.
pub(crate) proof fn lemma_device_fields(dcr1: u32, dcr2: u32, dcr3: u32, cr: u32, config: Config)
    ensures
        ({
            let dcr1 = Edit::Device(config).applied(dcr1);
            let dcr2 = Edit::Wrap(config.wrap_size).applied(dcr2);
            let cr = settled(Edit::FifoThreshold(config.fifo_threshold).applied(cr));
            let dcr3_all = Edit::Boundary(
                config.chip_select_boundary,
                Some(config.max_transfer),
            ).applied(dcr3);
            let dcr3_one = Edit::Boundary(config.chip_select_boundary, None).applied(dcr3);
            &&& field(dcr1, 16, 5) == config.device_size.code() as u32 & ones(5)
            &&& field(dcr1, 24, 3) == config.memory_type.code()
            &&& field(dcr1, 8, 6) == config.chip_select_high_time.code()
            &&& flag(dcr1, 3) == config.delay_block_bypass
            &&& flag(dcr1, 0) == config.clock_mode
            &&& !flag(dcr1, 1)
            &&& field(dcr2, 16, 3) == config.wrap_size.code()
            &&& field(dcr3_all, 16, 5) == config.chip_select_boundary as u32 & ones(5)
            &&& field(dcr3_all, 0, 8) == config.max_transfer
            &&& field(dcr3_one, 16, 5) == config.chip_select_boundary as u32 & ones(5)
            &&& field(cr, 8, 5) == config.fifo_threshold.code()
        }),
{
    broadcast use group_fields;

    lemma_ones();
}

/// The fields of the control register that enabling the peripheral keeps.
pub(crate) proof fn lemma_enabled_cr(cr: u32)
    ensures
        ({
            let v = settled(with_flag(cr, 0, true));
            &&& flag(v, 0)
            &&& flag(v, 2) == flag(cr, 2)
            &&& flag(v, 6) == flag(cr, 6)
            &&& field(v, 8, 5) == field(cr, 8, 5)
            &&& field(v, 28, 2) == field(cr, 28, 2)
        }),
{
    broadcast use group_fields;

    lemma_ones();
}

/// The fields of the control register that the dual-memory configuration keeps.
pub(crate) proof fn lemma_dual_cr(cr: u32, on: bool)
    ensures
        flag(settled(with_flag(cr, 6, on)), 6) == on,
        field(settled(with_flag(cr, 6, on)), 8, 5) == field(cr, 8, 5),
{
    broadcast use group_fields;

    lemma_ones();
}

/// The fields of the device registers that the free running clock and the prescaler keep.
pub(crate) proof fn lemma_clock_fields(dcr1: u32, on: bool, dcr2: u32, prescaler: u8)
    ensures
        ({
            let v = with_flag(dcr1, 1, on);
            &&& flag(v, 1) == on
            &&& flag(v, 0) == flag(dcr1, 0)
            &&& flag(v, 3) == flag(dcr1, 3)
            &&& field(v, 8, 6) == field(dcr1, 8, 6)
            &&& field(v, 16, 5) == field(dcr1, 16, 5)
            &&& field(v, 24, 3) == field(dcr1, 24, 3)
        }),
        field(with_field(dcr2, 0, 8, prescaler as u32), 0, 8) == prescaler,
        field(with_field(dcr2, 0, 8, prescaler as u32), 16, 3) == field(dcr2, 16, 3),
{
    broadcast use group_fields;

    lemma_ones();
}

/// The fields of the control register once DMA is disabled and the FIFO threshold is set.
pub(crate) proof fn lemma_disabled_dma_cr(cr: u32, config: Config)
    ensures
        ({
            let v = settled(with_flag(cr, 2, false));
            let v = settled(Edit::FifoThreshold(config.fifo_threshold).applied(v));
            &&& !flag(v, 2)
            &&& flag(v, 6) == flag(cr, 6)
            &&& field(v, 28, 2) == field(cr, 28, 2)
        }),
{
    broadcast use group_fields;

    lemma_ones();
}

/// The fields of the control register of the I/O manager.
pub(crate) proof fn lemma_arbitration_fields(cr: u32)
    ensures
        !flag(Edit::ManagerArbitration.applied(cr), 0),
        field(Edit::ManagerArbitration.applied(cr), 16, 8) == 0xff,
{
    broadcast use group_fields;

    lemma_ones();
}

/// The fields of the timing register.
pub(crate) proof fn lemma_sampling_fields(tcr: u32, shift: bool, hold: bool)
    ensures
        ({
            let v = Edit::Sampling(shift, hold).applied(tcr);
            &&& flag(v, 30) == shift
            &&& flag(v, 28) == hold
            &&& field(v, 0, 5) == field(tcr, 0, 5)
        }),
{
    broadcast use group_fields;

    lemma_ones();
}

/// The fields of the port register.
pub(crate) proof fn lemma_route_fields(p1cr: u32, route: Route)
    ensures
        holds_route(route.applied(port_cleared(p1cr)), route),
{
    broadcast use group_fields;

    lemma_ones();
}

/// The fields of the communication register once eight of them are written.
pub(crate) proof fn lemma_written_phases(
    ccr: u32,
    imode: u32,
    idtr: bool,
    isize: u32,
    admode: u32,
    addtr: bool,
    adsize: u32,
    dmode: u32,
    ddtr: bool,
)
    requires
        imode <= 7,
        isize <= 3,
        admode <= 7,
        adsize <= 3,
        dmode <= 7,
    ensures
        ({
            let v = with_flag(with_field(ccr, 0, 3, imode), 3, idtr);
            let v = with_field(with_field(v, 4, 2, isize), 8, 3, admode);
            let v = with_field(with_flag(v, 11, addtr), 12, 2, adsize);
            let v = with_flag(with_field(v, 24, 3, dmode), 27, ddtr);
            &&& field(v, 0, 3) == imode
            &&& flag(v, 3) == idtr
            &&& field(v, 4, 2) == isize
            &&& field(v, 8, 3) == admode
            &&& flag(v, 11) == addtr
            &&& field(v, 12, 2) == adsize
            &&& field(v, 24, 3) == dmode
            &&& flag(v, 27) == ddtr
            &&& flag(v, 19) == flag(ccr, 19)
            &&& field(v, 20, 2) == field(ccr, 20, 2)
            &&& flag(v, 29) == flag(ccr, 29)
            &&& flag(v, 31) == flag(ccr, 31)
        }),
{
    broadcast use group_fields;

    lemma_ones();
}

/// The fields of the communication register.
pub(crate) proof fn lemma_phase_fields(ccr: u32, command: TransferConfig)
    ensures
        holds_phases(phases(ccr, command), command),
        flag(phases(ccr, command), 19) == flag(ccr, 19),
        field(phases(ccr, command), 20, 2) == field(ccr, 20, 2),
        flag(phases(ccr, command), 29) == flag(ccr, 29),
        flag(phases(ccr, command), 31) == flag(ccr, 31),
{
    let abmode = command.abwidth.code() as u32;
    lemma_written_phases(
        ccr,
        command.iwidth.code() as u32,
        command.idtr,
        command.isize.code() as u32,
        command.adwidth.code() as u32,
        command.addtr,
        command.adsize.code() as u32,
        command.dwidth.code() as u32,
        command.ddtr,
    );
    let v = with_flag(with_field(ccr, 0, 3, command.iwidth.code() as u32), 3, command.idtr);
    let v = with_field(
        with_field(v, 4, 2, command.isize.code() as u32),
        8,
        3,
        command.adwidth.code() as u32,
    );
    let v = with_field(with_flag(v, 11, command.addtr), 12, 2, command.adsize.code() as u32);
    let v = with_flag(with_field(v, 24, 3, command.dwidth.code() as u32), 27, command.ddtr);
    assert(phases(ccr, command) == with_field(v, 16, 3, abmode));
    lemma_alternate_width(v, abmode);
}

/// The fields of the communication register that the width of the alternate bytes keeps.
pub(crate) proof fn lemma_alternate_width(v: u32, abmode: u32)
    requires
        abmode <= 7,
    ensures
        ({
            let w = with_field(v, 16, 3, abmode);
            &&& field(w, 0, 3) == field(v, 0, 3)
            &&& flag(w, 3) == flag(v, 3)
            &&& field(w, 4, 2) == field(v, 4, 2)
            &&& field(w, 8, 3) == field(v, 8, 3)
            &&& flag(w, 11) == flag(v, 11)
            &&& field(w, 12, 2) == field(v, 12, 2)
            &&& field(w, 16, 3) == abmode
            &&& flag(w, 19) == flag(v, 19)
            &&& field(w, 20, 2) == field(v, 20, 2)
            &&& field(w, 24, 3) == field(v, 24, 3)
            &&& flag(w, 27) == flag(v, 27)
            &&& flag(w, 29) == flag(v, 29)
            &&& flag(w, 31) == flag(v, 31)
        }),
{
    broadcast use group_fields;

    lemma_ones();
}

/// The fields of the communication register that describe the alternate bytes, but for their width.
pub(crate) proof fn lemma_alternate_fields(ccr: u32, command: TransferConfig)
    ensures
        flag(alternate_bytes(ccr, command), 19) == command.abdtr,
        field(alternate_bytes(ccr, command), 20, 2) == command.absize.code(),
        flag(alternate_bytes(ccr, command), 29) == flag(ccr, 29),
        flag(alternate_bytes(ccr, command), 31) == flag(ccr, 31),
{
    broadcast use group_fields;

    lemma_ones();
}

/// The control register of a transfer that uses no DMA.
pub(crate) proof fn lemma_transfer_cr(cr: u32, mode: OspiMode)
    ensures
        ({
            let v = settled(with_field(settled(with_flag(cr, 2, false)), 28, 2, 0));
            let v = settled(with_field(v, 28, 2, mode.code() as u32));
            &&& field(v, 28, 2) == mode.code()
            &&& !flag(v, 2)
        }),
{
    broadcast use group_fields;

    lemma_ones();
}

/// The flag clear register, once written, clears the transfer complete flag and no other.
pub(crate) proof fn lemma_clear_complete()
    ensures
        with_flag(0, 1, true) == 2,
{
    reveal(with_field);
    assert((0u32 & !((((1u32 << 1u32) - 1) as u32) << 1u32)) | ((1u32 & (((1u32 << 1u32)
        - 1) as u32)) << 1u32) == 2) by (bit_vector);
}

/// The control register of a transfer by DMA.
pub(crate) proof fn lemma_dma_cr(cr: u32, mode: OspiMode)
    ensures
        ({
            let v = settled(with_field(cr, 28, 2, 0));
            let v = settled(with_field(v, 28, 2, mode.code() as u32));
            let v = settled(with_flag(settled(with_flag(v, 2, true)), 2, false));
            &&& field(v, 28, 2) == mode.code()
            &&& !flag(v, 2)
        }),
{
    broadcast use group_fields;

    lemma_ones();
}

/// The fields of the communication register for writes.
pub(crate) proof fn lemma_write_phase_fields(wccr: u32, command: TransferConfig)
    ensures
        holds_phases(write_phases(wccr, command), command),
        flag(write_phases(wccr, command), 29),
{
    lemma_phase_fields(wccr, command);
    lemma_strobed_fields(phases(wccr, command));
}

/// The fields of the communication register that the strobe keeps.
pub(crate) proof fn lemma_strobed_fields(v: u32)
    ensures
        ({
            let w = with_flag(v, 29, true);
            &&& field(w, 0, 3) == field(v, 0, 3)
            &&& flag(w, 3) == flag(v, 3)
            &&& field(w, 4, 2) == field(v, 4, 2)
            &&& field(w, 8, 3) == field(v, 8, 3)
            &&& flag(w, 11) == flag(v, 11)
            &&& field(w, 12, 2) == field(v, 12, 2)
            &&& field(w, 24, 3) == field(v, 24, 3)
            &&& flag(w, 27) == flag(v, 27)
            &&& field(w, 16, 3) == field(v, 16, 3)
            &&& flag(w, 29)
        }),
{
    broadcast use group_fields;

    lemma_ones();
}

/// The fields of the communication register that sending the instruction once keeps.
pub(crate) proof fn lemma_once_fields(v: u32)
    ensures
        ({
            let w = with_flag(with_flag(v, 29, false), 31, true);
            &&& field(w, 0, 3) == field(v, 0, 3)
            &&& flag(w, 3) == flag(v, 3)
            &&& field(w, 4, 2) == field(v, 4, 2)
            &&& field(w, 8, 3) == field(v, 8, 3)
            &&& flag(w, 11) == flag(v, 11)
            &&& field(w, 12, 2) == field(v, 12, 2)
            &&& field(w, 16, 3) == field(v, 16, 3)
            &&& flag(w, 19) == flag(v, 19)
            &&& field(w, 20, 2) == field(v, 20, 2)
            &&& field(w, 24, 3) == field(v, 24, 3)
            &&& flag(w, 27) == flag(v, 27)
            &&& !flag(w, 29)
            &&& flag(w, 31)
        }),
{
    broadcast use group_fields;

    lemma_ones();
}

/// The control register in memory mapped mode.
pub(crate) proof fn lemma_mapped_fields(cr: u32, wtcr: u32, cycles: DummyCycles)
    ensures
        field(settled(Edit::MemoryMapped.applied(cr)), 28, 2) == 3,
        !flag(settled(Edit::MemoryMapped.applied(cr)), 3),
        field(Edit::WriteDummy(cycles).applied(wtcr), 0, 5) == cycles.code(),
{
    broadcast use group_fields;

    lemma_ones();
}

/// The control register once the memory mapped mode is left.
pub(crate) proof fn lemma_left_fields(cr: u32)
    ensures
        ({
            let aborted = Edit::Abort.applied(cr);
            let enabled = Edit::Enable(true).applied(settled(aborted));
            let v = settled(enabled);
            &&& flag(aborted, 1)
            &&& !flag(enabled, 1)
            &&& field(v, 28, 2) == 0
            &&& flag(v, 0)
            &&& !flag(v, 1)
            &&& !flag(v, 2)
            &&& flag(v, 6) == flag(cr, 6)
            &&& field(v, 8, 5) == field(cr, 8, 5)
        }),
{
    broadcast use group_fields;

    lemma_ones();
}

/// DMA is disabled once its flag is cleared.
pub(crate) proof fn lemma_dma_off(cr: u32)
    ensures
        !flag(settled(with_flag(cr, 2, false)), 2),
{
    broadcast use group_fields;

    lemma_ones();
}

/// The DMA flag that other changes of the control register keep.
pub(crate) proof fn lemma_dma_kept(cr: u32, level: FIFOThresholdLevel)
    ensures
        flag(settled(with_flag(cr, 0, true)), 2) == flag(cr, 2),
        flag(settled(Edit::FifoThreshold(level).applied(cr)), 2) == flag(cr, 2),
{
    broadcast use group_fields;

    lemma_ones();
}

/// The fields of the control register that a change of mode keeps.
pub(crate) proof fn lemma_mode_keeps(cr: u32, mode: u32)
    ensures
        ({
            let v = settled(with_field(cr, 28, 2, mode));
            let w = settled(with_flag(with_field(cr, 28, 2, mode), 3, false));
            &&& flag(v, 6) == flag(cr, 6)
            &&& field(v, 8, 5) == field(cr, 8, 5)
            &&& flag(w, 6) == flag(cr, 6)
            &&& field(w, 8, 5) == field(cr, 8, 5)
        }),
{
    broadcast use group_fields;

}

} // verus!
