//! What the operations of the driver achieve.

use vstd::prelude::*;

use crate::bits::{field, flag, group_fields, lemma_ones, ones, with_field, with_flag};
use crate::config::{Config, OspiError, TransferConfig};
use crate::edit::{alternate_bytes, phases, port_cleared, Edit, Route};
use crate::enums::{OspiMode, OspiWidth};
use crate::fields::{
    lemma_alternate_fields, lemma_arbitration_fields, lemma_clear_complete, lemma_clock_fields,
    lemma_device_fields, lemma_disabled_dma_cr, lemma_dma_cr, lemma_dma_kept, lemma_dma_off,
    lemma_dual_cr, lemma_enabled_cr, lemma_left_fields, lemma_mapped_fields, lemma_mode_keeps,
    lemma_once_fields, lemma_phase_fields, lemma_route_fields, lemma_sampling_fields,
    lemma_transfer_cr, lemma_write_phase_fields,
};
use crate::gpio::{DmaChannel, Pin};
use crate::instance::{ChipFeatures, Instance};
use crate::mode::Mode;
use crate::model::{
    carried_out, group_execute, law_new_sequence_performs_its_steps, lemma_execute_five,
    lemma_execute_four, settled, Model,
};
use crate::ospi::Ospi;
use crate::plan::{
    address_steps, alternate_bytes_steps, blocking_command_steps, blocking_read_steps,
    blocking_write_steps, clear_complete, command_outcome, command_steps, data_length,
    device_steps, disable_memory_mapped_steps, dma_read_steps, dma_write_steps,
    enable_memory_mapped_steps, enable_steps, finish_dma_steps, instruction_steps, manager_steps,
    phase_steps, release_steps, set_config_steps, start_steps, too_wide, transfer_outcome,
    with_command, Pins,
};
use crate::register::Register;
use crate::sequence::Sequence;
use crate::step::{Completion, Condition, Direction, Step};
use crate::word::Word;

verus! {

/// The registers that describe the external device hold a configuration. Numbers that are too
/// large for their field are cut off.
pub open spec fn holds_device(
    registers: Map<Register, u32>,
    chip: ChipFeatures,
    config: Config,
) -> bool {
    let dcr1 = registers[Register::Dcr1];
    let dcr2 = registers[Register::Dcr2];
    let dcr3 = registers[Register::Dcr3];
    // DEVSIZE
    &&& field(dcr1, 16, 5) == config.device_size.code() as u32 & ones(5)
    // MTYP
    &&& field(dcr1, 24, 3) == config.memory_type.code()
    // CSHT
    &&& field(dcr1, 8, 6) == config.chip_select_high_time.code()
    // DLYBYP
    &&& flag(dcr1, 3) == config.delay_block_bypass
    // CKMODE
    &&& flag(dcr1, 0) == config.clock_mode
    // WRAPSIZE
    &&& field(dcr2, 16, 3) == config.wrap_size.code()
    // CSBOUND
    &&& field(dcr3, 16, 5) == config.chip_select_boundary as u32 & ones(5)
    // MAXTRAN
    &&& chip.max_transfer ==> field(dcr3, 0, 8) == config.max_transfer
    &&& registers[Register::Dcr4] == config.refresh
    // FTHRES
    &&& field(registers[Register::Cr], 8, 5) == config.fifo_threshold.code()
}

/// The registers hold a whole configuration, and the peripheral is enabled.
pub open spec fn holds_config(
    registers: Map<Register, u32>,
    chip: ChipFeatures,
    config: Config,
) -> bool {
    &&& holds_device(registers, chip, config)
    // PRESCALER
    &&& field(registers[Register::Dcr2], 0, 8) == config.clock_prescaler
    // SSHIFT
    &&& flag(registers[Register::Tcr], 30) == config.sample_shifting
    // DHQC
    &&& flag(registers[Register::Tcr], 28) == config.delay_hold_quarter_cycle
    // FRCK
    &&& flag(registers[Register::Dcr1], 1) == config.free_running_clock
    // EN
    &&& flag(registers[Register::Cr], 0)
}

/// Port 1 of the I/O manager is wired as a route says.
pub open spec fn holds_route(p1cr: u32, route: Route) -> bool {
    // NCSEN
    &&& flag(p1cr, 8)
    // NCSSRC
    &&& flag(p1cr, 9) == route.source()
    // CLKEN
    &&& flag(p1cr, 0)
    // CLKSRC
    &&& flag(p1cr, 1) == route.source()
    // DQSEN
    &&& flag(p1cr, 4) == route.dqs
    // DQSSRC
    &&& flag(p1cr, 5) == (route.dqs && route.source())
    // IOLEN
    &&& flag(p1cr, 16)
    // IOLSRC
    &&& field(p1cr, 17, 2) == route.low_source()
    // IOHEN
    &&& flag(p1cr, 24) == route.high_enabled()
    // IOHSRC
    &&& field(p1cr, 25, 2) == route.high_source()
}

/// The communication register holds the phases of a command, with the width of the alternate bytes.
pub open spec fn holds_phases(ccr: u32, command: TransferConfig) -> bool {
    // IMODE
    &&& field(ccr, 0, 3) == command.iwidth.code()
    // IDTR
    &&& flag(ccr, 3) == command.idtr
    // ISIZE
    &&& field(ccr, 4, 2) == command.isize.code()
    // ADMODE
    &&& field(ccr, 8, 3) == command.adwidth.code()
    // ADDTR
    &&& flag(ccr, 11) == command.addtr
    // ADSIZE
    &&& field(ccr, 12, 2) == command.adsize.code()
    // DMODE
    &&& field(ccr, 24, 3) == command.dwidth.code()
    // DDTR
    &&& flag(ccr, 27) == command.ddtr
    // ABMODE
    &&& field(ccr, 16, 3) == command.abwidth.code()
}

/// The registers hold a command. The width of each phase, that of the alternate bytes too, is the
/// one of the command in any case. Where the command has no instruction or no address, the register
/// for it holds what it held before; where it has no alternate bytes, so does the register for
/// them, and their size and rate are as before.
pub open spec fn holds_command(
    before: Map<Register, u32>,
    registers: Map<Register, u32>,
    command: TransferConfig,
    data_len: Option<usize>,
) -> bool {
    let ccr = registers[Register::Ccr];
    &&& holds_phases(ccr, command)
    // DCYC
    &&& field(registers[Register::Tcr], 0, 5) == command.dummy.code()
    // DL: the number of words less one, as far as the register goes
    &&& match data_len {
        Some(len) => len > 0 ==> registers[Register::Dlr] == (len - 1) % 0x1_0000_0000,
        None => registers[Register::Dlr] == 0,
    }
    &&& match command.alternate_bytes {
        Some(bytes) => {
            &&& registers[Register::Abr] == bytes
            // ABDTR
            &&& flag(ccr, 19) == command.abdtr
            // ABSIZE
            &&& field(ccr, 20, 2) == command.absize.code()
        },
        None => {
            &&& registers[Register::Abr] == before[Register::Abr]
            // ABDTR
            &&& flag(ccr, 19) == flag(before[Register::Ccr], 19)
            // ABSIZE
            &&& field(ccr, 20, 2) == field(before[Register::Ccr], 20, 2)
        },
    }
    &&& registers[Register::Ir] == match command.instruction {
        Some(instruction) => instruction,
        None => before[Register::Ir],
    }
    &&& registers[Register::Ar] == match command.address {
        Some(address) => address,
        None => before[Register::Ar],
    }
}

/// Registers that no command touches.
pub open spec fn outside_command(register: Register) -> bool {
    &&& register != Register::Cr
    &&& register != Register::Ccr
    &&& register != Register::Tcr
    &&& register != Register::Dlr
    &&& register != Register::Abr
    &&& register != Register::Ir
    &&& register != Register::Ar
}

/// Registers that no configuration touches.
pub open spec fn outside_config(register: Register) -> bool {
    &&& register != Register::Cr
    &&& register != Register::Dcr1
    &&& register != Register::Dcr2
    &&& register != Register::Dcr3
    &&& register != Register::Dcr4
    &&& register != Register::Tcr
}

/// What describing the device leaves in the registers.
pub(crate) proof fn lemma_device_registers<W: Word>(
    model: Model<W>,
    chip: ChipFeatures,
    config: Config,
)
    ensures
        ({
            let before = model.registers;
            let registers = model.execute(device_steps(chip, config)).registers;
            let max_transfer = if chip.max_transfer {
                Some(config.max_transfer)
            } else {
                None
            };
            &&& registers[Register::Dcr1] == Edit::Device(config).applied(before[Register::Dcr1])
            &&& registers[Register::Dcr2] == Edit::Wrap(config.wrap_size).applied(
                before[Register::Dcr2],
            )
            &&& registers[Register::Dcr3] == Edit::Boundary(
                config.chip_select_boundary,
                max_transfer,
            ).applied(before[Register::Dcr3])
            &&& registers[Register::Dcr4] == config.refresh
            &&& registers[Register::Cr] == settled(
                Edit::FifoThreshold(config.fifo_threshold).applied(before[Register::Cr]),
            )
            &&& registers[Register::Tcr] == before[Register::Tcr]
            &&& forall|register: Register| #[trigger]
                outside_config(register) ==> registers[register] == before[register]
        }),
{
    reveal_with_fuel(Model::execute, 6);
}

/// What enabling the peripheral leaves in the registers.
proof fn lemma_enable_registers<W: Word>(model: Model<W>, config: Config)
    ensures
        ({
            let before = model.registers;
            let registers = model.execute(enable_steps(config)).registers;
            &&& registers[Register::Tcr] == Edit::Sampling(
                config.sample_shifting,
                config.delay_hold_quarter_cycle,
            ).applied(before[Register::Tcr])
            &&& registers[Register::Cr] == settled(with_flag(before[Register::Cr], 0, true))
            &&& registers[Register::Dcr1] == if config.free_running_clock {
                with_flag(before[Register::Dcr1], 1, true)
            } else {
                before[Register::Dcr1]
            }
            &&& forall|register: Register|
                register != Register::Tcr && register != Register::Cr && register
                    != Register::Dcr1 ==> #[trigger] registers[register] == before[register]
        }),
{
    broadcast use group_execute;

    reveal_with_fuel(Model::execute, 3);
}

/// What connecting the I/O manager leaves in the registers.
pub(crate) proof fn lemma_manager_registers<W: Word>(
    model: Model<W>,
    chip: ChipFeatures,
    route: Route,
)
    ensures
        ({
            let before = model.registers;
            let registers = model.execute(manager_steps(chip, route)).registers;
            match chip.manager {
                Some(clock) => {
                    let gate = Edit::EnableManager(clock);
                    &&& registers[gate.target()] == gate.applied(before[gate.target()])
                    &&& registers[Register::ManagerCr] == Edit::ManagerArbitration.applied(
                        before[Register::ManagerCr],
                    )
                    &&& registers[Register::ManagerP1cr] == route.applied(
                        port_cleared(before[Register::ManagerP1cr]),
                    )
                },
                None => registers == before,
            }
        }),
{
    reveal_with_fuel(Model::execute, 6);
}

/// What the alternate bytes of a command leave in the registers.
proof fn lemma_alternate_registers<W: Word>(model: Model<W>, command: TransferConfig)
    ensures
        model.execute(alternate_bytes_steps(command)).registers == match command.alternate_bytes {
            Some(bytes) => model.registers.insert(Register::Abr, bytes).insert(
                Register::Ccr,
                alternate_bytes(model.registers[Register::Ccr], command),
            ),
            None => model.registers,
        },
{
    reveal_with_fuel(Model::execute, 3);
}

/// What the phases of a command leave in the registers.
proof fn lemma_phase_registers<W: Word>(
    model: Model<W>,
    command: TransferConfig,
    data_len: Option<usize>,
)
    ensures
        model.execute(phase_steps(command, data_len)).registers == model.registers.insert(
            Register::Tcr,
            with_field(model.registers[Register::Tcr], 0, 5, command.dummy.code() as u32),
        ).insert(Register::Dlr, data_length(data_len)).insert(
            Register::Ccr,
            phases(model.registers[Register::Ccr], command),
        ),
{
    reveal_with_fuel(Model::execute, 4);
}

/// What the instruction and the address of a command leave in the registers.
proof fn lemma_final_registers<W: Word>(model: Model<W>, command: TransferConfig)
    ensures
        ({
            let instructed = match command.instruction {
                Some(instruction) => model.registers.insert(Register::Ir, instruction),
                None => model.registers,
            };
            model.execute(instruction_steps(command)).execute(address_steps(command)).registers
                == match command.address {
                Some(address) => instructed.insert(Register::Ar, address),
                None => instructed,
            }
        }),
{
    reveal_with_fuel(Model::execute, 2);
}

/// What a command leaves in the registers.
proof fn lemma_command_registers<W: Word>(
    model: Model<W>,
    width: OspiWidth,
    command: TransferConfig,
    data_len: Option<usize>,
)
    requires
        !too_wide(width, command),
    ensures
        ({
            let before = model.registers;
            let registers = model.execute(command_steps(width, command, data_len)).registers;
            &&& registers[Register::Cr] == settled(with_field(before[Register::Cr], 28, 2, 0))
            &&& registers[Register::Tcr] == with_field(
                before[Register::Tcr],
                0,
                5,
                command.dummy.code() as u32,
            )
            &&& registers[Register::Dlr] == data_length(data_len)
            &&& registers[Register::Ccr] == phases(
                match command.alternate_bytes {
                    Some(_) => alternate_bytes(before[Register::Ccr], command),
                    None => before[Register::Ccr],
                },
                command,
            )
            &&& registers[Register::Abr] == match command.alternate_bytes {
                Some(bytes) => bytes,
                None => before[Register::Abr],
            }
            &&& registers[Register::Ir] == match command.instruction {
                Some(instruction) => instruction,
                None => before[Register::Ir],
            }
            &&& registers[Register::Ar] == match command.address {
                Some(address) => address,
                None => before[Register::Ar],
            }
            &&& forall|register: Register| #[trigger]
                outside_command(register) ==> registers[register] == before[register]
        }),
{
    let chosen = model.execute(seq![Step::Modify(Edit::Mode(OspiMode::IndirectWrite))]);
    let with_alternate = chosen.execute(alternate_bytes_steps(command));
    let phased = with_alternate.execute(phase_steps(command, data_len));
    assert(model.execute(command_steps(width, command, data_len)) == phased.execute(
        instruction_steps(command),
    ).execute(address_steps(command))) by {
        broadcast use group_execute;

    }
    assert(chosen == model.effect(Step::Modify(Edit::Mode(OspiMode::IndirectWrite)))) by {
        reveal_with_fuel(Model::execute, 2);
    }
    lemma_alternate_registers(chosen, command);
    lemma_phase_registers(with_alternate, command, data_len);
    lemma_final_registers(phased, command);
}

/// Setting a configuration brings all of it into the registers, whatever they held before, leaves
/// the peripheral enabled and DMA disabled, and keeps the functional mode, the dual-memory
/// configuration, the dummy cycles and every other register.
pub proof fn law_set_config_takes_effect<W: Word>(
    model: Model<W>,
    chip: ChipFeatures,
    config: Config,
)
    ensures
        ({
            let before = model.registers;
            let registers = model.execute(set_config_steps(chip, config)).registers;
            &&& holds_config(registers, chip, config)
            &&& !flag(registers[Register::Cr], 2)
            &&& field(registers[Register::Cr], 28, 2) == field(before[Register::Cr], 28, 2)
            &&& flag(registers[Register::Cr], 6) == flag(before[Register::Cr], 6)
            &&& field(registers[Register::Tcr], 0, 5) == field(before[Register::Tcr], 0, 5)
            &&& forall|register: Register| #[trigger]
                outside_config(register) ==> registers[register] == before[register]
        }),
{
    let started = model.execute(seq![Step::Wait(Condition::Idle), Step::Modify(Edit::Dma(false))]);
    let described = started.execute(device_steps(chip, config));
    let clocked = described.execute(
        seq![
            Step::Wait(Condition::Idle),
            Step::Modify(Edit::Prescaler(config.clock_prescaler)),
        ],
    );
    let done = clocked.execute(enable_steps(config));
    assert(done == model.execute(set_config_steps(chip, config))) by {
        broadcast use group_execute;

    }
    reveal_with_fuel(Model::execute, 3);
    lemma_device_registers(started, chip, config);
    lemma_enable_registers(clocked, config);
    lemma_device_fields(
        started.registers[Register::Dcr1],
        started.registers[Register::Dcr2],
        started.registers[Register::Dcr3],
        started.registers[Register::Cr],
        config,
    );
    lemma_disabled_dma_cr(model.registers[Register::Cr], config);
    lemma_enabled_cr(clocked.registers[Register::Cr]);
    lemma_clock_fields(
        described.registers[Register::Dcr1],
        true,
        described.registers[Register::Dcr2],
        config.clock_prescaler,
    );
    lemma_sampling_fields(
        clocked.registers[Register::Tcr],
        config.sample_shifting,
        config.delay_hold_quarter_cycle,
    );
}

/// Starting the peripheral brings the configuration into the registers, whatever the reset has
/// left in them, leaves the peripheral enabled, and sets the dual-memory configuration for two quad
/// devices and for them only. On a chip with an I/O manager the clock enable bit of the manager is
/// set, on STM32L4+ the one for the sleep mode only, and port 1 is wired to the instance.
pub proof fn law_start_takes_effect<W: Word>(
    model: Model<W>,
    chip: ChipFeatures,
    route: Route,
    config: Config,
)
    ensures
        ({
            let registers = model.execute(start_steps(chip, route, config)).registers;
            &&& holds_config(registers, chip, config)
            &&& flag(registers[Register::Cr], 6) == route.dual_quad
            &&& chip.manager matches Some(clock) ==> {
                let gate = Edit::EnableManager(clock);
                &&& registers[gate.target()] == gate.applied(model.registers[gate.target()])
                &&& holds_route(registers[Register::ManagerP1cr], route)
                &&& !flag(registers[Register::ManagerCr], 0)
                &&& field(registers[Register::ManagerCr], 16, 8) == 0xff
            }
            &&& chip.manager is None ==> {
                &&& registers[Register::ManagerP1cr] == model.registers[Register::ManagerP1cr]
                &&& registers[Register::ManagerCr] == model.registers[Register::ManagerCr]
            }
        }),
{
    let connected = model.execute(manager_steps(chip, route));
    let started = connected.execute(seq![Step::EnableClock, Step::Wait(Condition::Idle)]);
    let described = started.execute(device_steps(chip, config));
    let clocked = described.execute(
        seq![
            Step::Wait(Condition::Idle),
            Step::Modify(Edit::Prescaler(config.clock_prescaler)),
            Step::Modify(Edit::DualMemory(route.dual_quad)),
        ],
    );
    let done = clocked.execute(enable_steps(config));
    assert(done == model.execute(start_steps(chip, route, config))) by {
        broadcast use group_execute;

    }
    lemma_manager_registers(model, chip, route);
    lemma_route_fields(model.registers[Register::ManagerP1cr], route);
    reveal_with_fuel(Model::execute, 4);
    lemma_device_registers(started, chip, config);
    lemma_enable_registers(clocked, config);
    lemma_device_fields(
        started.registers[Register::Dcr1],
        started.registers[Register::Dcr2],
        started.registers[Register::Dcr3],
        started.registers[Register::Cr],
        config,
    );
    lemma_dual_cr(described.registers[Register::Cr], route.dual_quad);
    lemma_enabled_cr(clocked.registers[Register::Cr]);
    lemma_clock_fields(
        described.registers[Register::Dcr1],
        true,
        described.registers[Register::Dcr2],
        config.clock_prescaler,
    );
    lemma_sampling_fields(
        clocked.registers[Register::Tcr],
        config.sample_shifting,
        config.delay_hold_quarter_cycle,
    );
    assert(outside_config(Register::ManagerP1cr) && outside_config(Register::ManagerCr));
    assert(outside_config(Register::RccAhb2smenr) && outside_config(Register::RccAhb2enr1)
        && outside_config(Register::RccAhb3enr));
    lemma_arbitration_fields(model.registers[Register::ManagerCr]);
}

/// The two instances never drive the same lines of a port from the same source.
pub proof fn law_instances_have_their_own_sources(first: Route, second: Route)
    requires
        first.index == 1,
        second.index != 1,
    ensures
        first.source() != second.source(),
        first.low_source() != second.low_source(),
        first.high_enabled() && second.high_enabled() ==> first.high_source()
            != second.high_source(),
{
}

/// The data length register counts from zero, as far as it goes.
proof fn lemma_data_length(len: usize)
    requires
        len > 0,
    ensures
        data_length(Some(len)) == (len - 1) % 0x1_0000_0000,
{
    let rest = (len - 1) as u64;
    assert(rest as u32 == rest % 0x1_0000_0000) by (bit_vector);
}

/// A valid command, once prepared, is in the registers, in indirect write mode; the rest of the
/// control and timing registers and every other register is as before.
pub proof fn law_command_takes_effect<W: Word>(
    model: Model<W>,
    width: OspiWidth,
    command: TransferConfig,
    data_len: Option<usize>,
)
    requires
        command_outcome(width, command) is Ok,
    ensures
        ({
            let before = model.registers;
            let registers = model.execute(command_steps(width, command, data_len)).registers;
            &&& holds_command(before, registers, command, data_len)
            &&& registers[Register::Cr] == settled(with_field(before[Register::Cr], 28, 2, 0))
            &&& registers[Register::Tcr] == with_field(
                before[Register::Tcr],
                0,
                5,
                command.dummy.code() as u32,
            )
            &&& flag(registers[Register::Ccr], 29) == flag(before[Register::Ccr], 29)
            &&& flag(registers[Register::Ccr], 31) == flag(before[Register::Ccr], 31)
            &&& forall|register: Register| #[trigger]
                outside_command(register) ==> registers[register] == before[register]
        }),
{
    let ccr = model.registers[Register::Ccr];
    lemma_command_registers(model, width, command, data_len);
    if let Some(len) = data_len {
        if len > 0 {
            lemma_data_length(len);
        }
    }
    lemma_ones();
    match command.alternate_bytes {
        Some(_) => {
            lemma_alternate_fields(ccr, command);
            lemma_phase_fields(alternate_bytes(ccr, command), command);
        },
        None => {
            lemma_phase_fields(ccr, command);
        },
    }
    broadcast use group_fields;

}

/// Of two commands prepared or performed one after the other, the second of them valid, the second
/// says how every phase goes; in particular, nothing is left of an alternate bytes phase of the
/// first.
pub proof fn law_last_command_sets_every_phase<W: Word>(
    model: Model<W>,
    width: OspiWidth,
    first: TransferConfig,
    first_len: Option<usize>,
    second: TransferConfig,
    second_len: Option<usize>,
)
    requires
        command_outcome(width, second) is Ok,
    ensures
        holds_phases(
            model.execute(
                command_steps(width, first, first_len) + command_steps(width, second, second_len),
            ).registers[Register::Ccr],
            second,
        ),
        holds_phases(
            model.execute(
                blocking_command_steps(width, first) + blocking_command_steps(width, second),
            ).registers[Register::Ccr],
            second,
        ),
{
    broadcast use group_execute;

    law_command_takes_effect(
        model.execute(command_steps(width, first, first_len)),
        width,
        second,
        second_len,
    );
    law_blocking_command_takes_effect(
        model.execute(blocking_command_steps(width, first)),
        width,
        second,
    );
}

/// A driver with more lines accepts every command that one with fewer lines accepts, and prepares
/// it in the same way. Neither the configuration nor the registers nor the length of the data
/// count.
pub proof fn law_wider_driver_accepts_more(
    narrow: OspiWidth,
    wide: OspiWidth,
    command: TransferConfig,
    data_len: Option<usize>,
    len: usize,
)
    requires
        narrow.code() <= wide.code(),
        command_outcome(narrow, command) is Ok,
    ensures
        command_outcome(wide, command) is Ok,
        command_steps(wide, command, data_len) == command_steps(narrow, command, data_len),
        blocking_command_steps(wide, command) == blocking_command_steps(narrow, command),
        transfer_outcome(wide, len as nat, command) == transfer_outcome(
            narrow,
            len as nat,
            command,
        ),
        blocking_read_steps(wide, len, command) == blocking_read_steps(narrow, len, command),
        blocking_write_steps(wide, len, command) == blocking_write_steps(narrow, len, command),
{
}

/// A command that is too wide for the driver is refused before anything is touched.
pub proof fn law_wide_command_touches_nothing<W: Word>(
    model: Model<W>,
    width: OspiWidth,
    command: TransferConfig,
    data_len: Option<usize>,
)
    requires
        too_wide(width, command),
    ensures
        command_outcome(width, command) == Err::<(), OspiError>(OspiError::InvalidCommand),
        model.execute(command_steps(width, command, data_len)) == model,
{
}

/// Whether a step may set off a transaction: it writes the instruction or the address.
pub open spec fn sets_off(step: Step) -> bool {
    match step {
        Step::Write(register, _) => register == Register::Ir || register == Register::Ar,
        Step::Trigger => true,
        _ => false,
    }
}

/// A refused command never writes the instruction or the address register, so it sets off no
/// transaction.
pub proof fn law_refused_command_sets_nothing_off<W: Word>(
    model: Model<W>,
    width: OspiWidth,
    command: TransferConfig,
    data_len: Option<usize>,
)
    requires
        command_outcome(width, command) is Err,
    ensures
        forall|i: int|
            0 <= i < command_steps(width, command, data_len).len() ==> !sets_off(
                #[trigger] command_steps(width, command, data_len)[i],
            ),
        model.execute(command_steps(width, command, data_len)).registers[Register::Ir]
            == model.registers[Register::Ir],
        model.execute(command_steps(width, command, data_len)).registers[Register::Ar]
            == model.registers[Register::Ar],
{
    if !too_wide(width, command) {
        lemma_command_registers(model, width, command, data_len);
    }
}

/// A valid command stays within the data lines that the driver has connected.
pub proof fn law_valid_command_uses_connected_lines<T: Instance, M: Mode>(
    driver: Ospi<T, M>,
    command: TransferConfig,
)
    requires
        driver.wf(),
        command_outcome(driver.width_spec(), command) is Ok,
    ensures
        driver.pins_spec().cover(command.iwidth.lines()),
        driver.pins_spec().cover(command.adwidth.lines()),
        driver.pins_spec().cover(command.abwidth.lines()),
        driver.pins_spec().cover(command.dwidth.lines()),
{
}

/// A command between other steps acts on what the steps before it have left.
proof fn lemma_with_command<W: Word>(
    model: Model<W>,
    before: Seq<Step>,
    width: OspiWidth,
    command: TransferConfig,
    data_len: Option<usize>,
    rest: Seq<Step>,
)
    requires
        command_outcome(width, command) is Ok,
    ensures
        model.execute(with_command(before, width, command, data_len, rest)) == model.execute(
            before,
        ).execute(command_steps(width, command, data_len)).execute(rest),
{
    broadcast use group_execute;

}

/// A valid command without data is in the registers when it is done, and the transfer complete
/// flag has been cleared.
pub proof fn law_blocking_command_takes_effect<W: Word>(
    model: Model<W>,
    width: OspiWidth,
    command: TransferConfig,
)
    requires
        command_outcome(width, command) is Ok,
    ensures
        ({
            let registers = model.execute(blocking_command_steps(width, command)).registers;
            &&& holds_command(model.registers, registers, command, None)
            &&& field(registers[Register::Cr], 28, 2) == 0
            &&& registers[Register::Fcr] == 2
        }),
{
    let waited = model.execute(seq![Step::Wait(Condition::Idle)]);
    lemma_with_command(
        model,
        seq![Step::Wait(Condition::Idle)],
        width,
        command,
        None,
        seq![Step::Wait(Condition::Complete), clear_complete()],
    );
    reveal_with_fuel(Model::execute, 3);
    law_command_takes_effect(waited, width, command, None);
    lemma_clear_complete();
    lemma_ones();
    broadcast use group_fields;

}

/// Reading back and writing back is harmless: a transaction is set off by its address if it has an
/// address phase and by its instruction if it has none, and with the values of the command.
pub proof fn law_read_is_set_off_by_address_or_instruction<W: Word>(
    model: Model<W>,
    before: Seq<Step>,
    width: OspiWidth,
    command: TransferConfig,
    data_len: Option<usize>,
)
    requires
        command_outcome(width, command) is Ok,
    ensures
        ({
            let prepared = model.execute(
                with_command(
                    before,
                    width,
                    command,
                    data_len,
                    seq![Step::Capture, Step::Modify(Edit::Mode(OspiMode::IndirectRead))],
                ),
            );
            let address = prepared.registers[Register::Ar];
            let instruction = prepared.registers[Register::Ir];
            &&& field(prepared.registers[Register::Cr], 28, 2) == 1
            &&& command.address is Some ==> command.address == Some(address)
            &&& command.instruction is Some ==> command.instruction == Some(instruction)
            &&& prepared.effect(Step::Trigger) == if command.adwidth == OspiWidth::NONE {
                prepared.written(Register::Ir, instruction)
            } else {
                prepared.written(Register::Ar, address)
            }
        }),
{
    let rest = seq![Step::Capture, Step::Modify(Edit::Mode(OspiMode::IndirectRead))];
    let begun = model.execute(before);
    let commanded = begun.execute(command_steps(width, command, data_len));
    lemma_with_command(model, before, width, command, data_len, rest);
    reveal_with_fuel(Model::execute, 3);
    law_command_takes_effect(begun, width, command, data_len);
    lemma_ones();
    broadcast use group_fields;

}

/// What the steps of a read leave, from the command on to the trigger.
proof fn lemma_read_begun<W: Word>(model: Model<W>)
    ensures
        ({
            let begun = model.execute(
                seq![
                    Step::Capture,
                    Step::Modify(Edit::Mode(OspiMode::IndirectRead)),
                    Step::Trigger,
                ],
            );
            &&& begun.registers[Register::Cr] == settled(
                with_field(model.registers[Register::Cr], 28, 2, 1),
            )
            &&& begun.registers[Register::Ar] == model.registers[Register::Ar]
            &&& begun.registers[Register::Ir] == model.registers[Register::Ir]
            &&& begun.registers[Register::Ccr] == model.registers[Register::Ccr]
            &&& begun.registers[Register::Tcr] == model.registers[Register::Tcr]
            &&& begun.registers[Register::Dlr] == model.registers[Register::Dlr]
            &&& begun.registers[Register::Abr] == model.registers[Register::Abr]
            &&& begun.buffer == model.buffer
            &&& begun.incoming == model.incoming
            &&& begun.received == model.received
            &&& begun.outgoing == model.outgoing
        }),
{
    reveal_with_fuel(Model::execute, 4);
}

/// Steps of a command move no data.
proof fn lemma_command_moves_nothing<W: Word>(
    model: Model<W>,
    width: OspiWidth,
    command: TransferConfig,
    data_len: Option<usize>,
)
    ensures
        ({
            let after = model.execute(command_steps(width, command, data_len));
            &&& after.buffer == model.buffer
            &&& after.incoming == model.incoming
            &&& after.received == model.received
            &&& after.outgoing == model.outgoing
        }),
{
    let steps = command_steps(width, command, data_len);
    lemma_still(model, steps);
}

/// Whether a step moves data.
pub open spec fn moves(step: Step) -> bool {
    step == Step::Receive || step == Step::Send || step is StartDma
}

/// Whether a step leaves the data alone.
pub open spec fn still(step: Step) -> bool {
    !moves(step)
}

proof fn lemma_still<W: Word>(model: Model<W>, steps: Seq<Step>)
    requires
        forall|i: int| 0 <= i < steps.len() ==> still(#[trigger] steps[i]),
    ensures
        model.execute(steps).buffer == model.buffer,
        model.execute(steps).incoming == model.incoming,
        model.execute(steps).received == model.received,
        model.execute(steps).outgoing == model.outgoing,
    decreases steps.len(),
{
    if steps.len() > 0 {
        assert forall|i: int| 0 <= i < steps.drop_last().len() implies still(
            #[trigger] steps.drop_last()[i],
        ) by {
            assert(steps.drop_last()[i] == steps[i]);
        }
        lemma_still(model, steps.drop_last());
        assert(still(steps[steps.len() - 1]));
    }
}

/// Whether a command is in the registers depends on those registers only that hold it.
proof fn lemma_same_command(
    before: Map<Register, u32>,
    registers: Map<Register, u32>,
    other_before: Map<Register, u32>,
    other: Map<Register, u32>,
    command: TransferConfig,
    data_len: Option<usize>,
)
    requires
        holds_command(before, registers, command, data_len),
        forall|register: Register| #[trigger]
            holds_part(register) ==> other[register] == registers[register]
                && other_before[register] == before[register],
    ensures
        holds_command(other_before, other, command, data_len),
{
    assert(holds_part(Register::Ccr) && holds_part(Register::Tcr) && holds_part(Register::Dlr));
    assert(holds_part(Register::Abr) && holds_part(Register::Ir) && holds_part(Register::Ar));
}

/// Registers that hold a part of a command.
pub open spec fn holds_part(register: Register) -> bool {
    ||| register == Register::Ccr
    ||| register == Register::Tcr
    ||| register == Register::Dlr
    ||| register == Register::Abr
    ||| register == Register::Ir
    ||| register == Register::Ar
}

/// A valid read fills the buffer with the words that the device hands out, in their order, sends
/// nothing, and leaves the peripheral in indirect read mode with DMA disabled and with the command
/// in its registers. The device is taken to hand out a word for each word of the buffer, although
/// the data length register, which counts bytes, holds the number of words less one.
pub proof fn law_blocking_read_fills_the_buffer<W: Word>(
    model: Model<W>,
    width: OspiWidth,
    command: TransferConfig,
)
    requires
        0 < model.buffer.len() <= usize::MAX,
        command_outcome(width, command) is Ok,
    ensures
        ({
            let len = model.buffer.len() as usize;
            let after = model.execute(blocking_read_steps(width, len, command));
            &&& after.buffer == Seq::new(
                model.buffer.len(),
                |i: int| model.incoming[model.received + i],
            )
            &&& after.received == model.received + model.buffer.len()
            &&& after.outgoing == model.outgoing
            &&& holds_command(model.registers, after.registers, command, Some(len))
            &&& field(after.registers[Register::Cr], 28, 2) == 1
            &&& !flag(after.registers[Register::Cr], 2)
            &&& after.registers[Register::Fcr] == 2
        }),
{
    let len = model.buffer.len() as usize;
    let before = seq![Step::Wait(Condition::Idle), Step::Modify(Edit::Dma(false))];
    let head = seq![
        Step::Capture,
        Step::Modify(Edit::Mode(OspiMode::IndirectRead)),
        Step::Trigger,
    ];
    let tail = seq![Step::Receive, Step::Wait(Condition::Complete), clear_complete()];
    let rest = seq![
        Step::Capture,
        Step::Modify(Edit::Mode(OspiMode::IndirectRead)),
        Step::Trigger,
        Step::Receive,
        Step::Wait(Condition::Complete),
        clear_complete(),
    ];
    let readied = model.execute(before);
    let commanded = readied.execute(command_steps(width, command, Some(len)));
    let begun = commanded.execute(head);
    let done = begun.execute(tail);
    assert(rest =~= head + tail);
    lemma_with_command(model, before, width, command, Some(len), rest);
    assert(done == model.execute(blocking_read_steps(width, len, command))) by {
        broadcast use group_execute;

    }
    lemma_read_begun(commanded);
    lemma_command_moves_nothing(readied, width, command, Some(len));
    assert(readied == model.effect(Step::Modify(Edit::Dma(false)))) by {
        reveal_with_fuel(Model::execute, 3);
    }
    assert(done == begun.effect(Step::Receive).effect(clear_complete())) by {
        reveal_with_fuel(Model::execute, 4);
    }
    law_command_takes_effect(readied, width, command, Some(len));
    lemma_same_command(
        readied.registers,
        commanded.registers,
        model.registers,
        done.registers,
        command,
        Some(len),
    );
    lemma_transfer_cr(model.registers[Register::Cr], OspiMode::IndirectRead);
    lemma_clear_complete();
}

/// A valid write sends the words of the buffer, in their order, changes none of them, receives
/// nothing, and leaves the peripheral in indirect write mode with DMA disabled and with the
/// command in its registers. The device is taken to accept every word of the buffer, although the
/// data length register, which counts bytes, holds the number of words less one.
pub proof fn law_blocking_write_sends_the_buffer<W: Word>(
    model: Model<W>,
    width: OspiWidth,
    command: TransferConfig,
)
    requires
        0 < model.buffer.len() <= usize::MAX,
        command_outcome(width, command) is Ok,
    ensures
        ({
            let len = model.buffer.len() as usize;
            let after = model.execute(blocking_write_steps(width, len, command));
            &&& after.outgoing == model.outgoing + model.buffer
            &&& after.buffer == model.buffer
            &&& after.received == model.received
            &&& holds_command(model.registers, after.registers, command, Some(len))
            &&& field(after.registers[Register::Cr], 28, 2) == 0
            &&& !flag(after.registers[Register::Cr], 2)
            &&& after.registers[Register::Fcr] == 2
        }),
{
    let len = model.buffer.len() as usize;
    let before = seq![Step::Wait(Condition::Idle), Step::Modify(Edit::Dma(false))];
    let rest = seq![
        Step::Modify(Edit::Mode(OspiMode::IndirectWrite)),
        Step::Send,
        Step::Wait(Condition::Complete),
        clear_complete(),
    ];
    let readied = model.execute(before);
    let commanded = readied.execute(command_steps(width, command, Some(len)));
    let done = commanded.execute(rest);
    lemma_with_command(model, before, width, command, Some(len), rest);
    lemma_command_moves_nothing(readied, width, command, Some(len));
    assert(readied == model.effect(Step::Modify(Edit::Dma(false)))) by {
        reveal_with_fuel(Model::execute, 3);
    }
    lemma_execute_four(commanded, rest[0], rest[1], rest[2], rest[3]);
    law_command_takes_effect(readied, width, command, Some(len));
    lemma_same_command(
        readied.registers,
        commanded.registers,
        model.registers,
        done.registers,
        command,
        Some(len),
    );
    lemma_transfer_cr(model.registers[Register::Cr], OspiMode::IndirectWrite);
    lemma_clear_complete();
}

/// A valid read that has come to its end, however long the device made it wait on the way, has
/// filled the buffer with the words that the device has handed out, in their order, and has sent
/// nothing. As above, the device hands out words whatever the data length register holds.
pub proof fn law_completed_read_has_filled_the_buffer<W: Word>(
    sequence: Sequence,
    model: Model<W>,
    status: Seq<u32>,
    width: OspiWidth,
    command: TransferConfig,
)
    requires
        0 < model.buffer.len() <= usize::MAX,
        command_outcome(width, command) is Ok,
        sequence.is_new(
            blocking_read_steps(width, model.buffer.len() as usize, command),
            transfer_outcome(width, model.buffer.len(), command),
        ),
    ensures
        ({
            let steps = sequence.steps_spec();
            let run = carried_out(sequence, model).drive(steps, status);
            &&& sequence.outcome_spec() is Ok
            &&& run.completed(steps) ==> {
                &&& run.model.buffer == Seq::new(
                    model.buffer.len(),
                    |i: int| model.incoming[model.received + i],
                )
                &&& run.model.received == model.received + model.buffer.len()
                &&& run.model.outgoing == model.outgoing
            }
        }),
{
    let len = model.buffer.len() as usize;
    let started = carried_out(sequence, model).model;
    law_new_sequence_performs_its_steps(
        sequence,
        blocking_read_steps(width, len, command),
        transfer_outcome(width, model.buffer.len(), command),
        model,
        status,
        Seq::empty(),
    );
    law_blocking_read_fills_the_buffer(started, width, command);
}

/// A valid write that has come to its end, however long the device made it wait on the way, has
/// sent the words of the buffer, in their order, and has neither changed the buffer nor received
/// anything. As above, the device accepts words whatever the data length register holds.
pub proof fn law_completed_write_has_sent_the_buffer<W: Word>(
    sequence: Sequence,
    model: Model<W>,
    status: Seq<u32>,
    width: OspiWidth,
    command: TransferConfig,
)
    requires
        0 < model.buffer.len() <= usize::MAX,
        command_outcome(width, command) is Ok,
        sequence.is_new(
            blocking_write_steps(width, model.buffer.len() as usize, command),
            transfer_outcome(width, model.buffer.len(), command),
        ),
    ensures
        ({
            let steps = sequence.steps_spec();
            let run = carried_out(sequence, model).drive(steps, status);
            &&& sequence.outcome_spec() is Ok
            &&& run.completed(steps) ==> {
                &&& run.model.outgoing == model.outgoing + model.buffer
                &&& run.model.buffer == model.buffer
                &&& run.model.received == model.received
            }
        }),
{
    let len = model.buffer.len() as usize;
    let started = carried_out(sequence, model).model;
    law_new_sequence_performs_its_steps(
        sequence,
        blocking_write_steps(width, len, command),
        transfer_outcome(width, model.buffer.len(), command),
        model,
        status,
        Seq::empty(),
    );
    law_blocking_write_sends_the_buffer(started, width, command);
}

/// What the end of a DMA transfer leaves.
proof fn lemma_dma_moved<W: Word>(
    model: Model<W>,
    channel: DmaChannel,
    direction: Direction,
    completion: Completion,
)
    ensures
        model.execute(
            seq![
                Step::StartDma(channel, direction),
                Step::Modify(Edit::Dma(true)),
                Step::FinishDma(completion),
            ] + finish_dma_steps(),
        ) == model.effect(Step::StartDma(channel, direction)).effect(
            Step::Modify(Edit::Dma(true)),
        ).effect(clear_complete()).effect(Step::Modify(Edit::Dma(false))),
{
    broadcast use group_execute;

    reveal_with_fuel(Model::execute, 4);
}

/// A valid read by DMA, whichever way its end is waited for, fills the buffer with the words that
/// the device hands out, in their order, sends nothing, and leaves the peripheral in indirect read
/// mode with DMA disabled again and with the command in its registers. The channel is taken to move
/// the whole buffer, although the data length register, which counts bytes, holds the number of
/// words less one.
pub proof fn law_dma_read_fills_the_buffer<W: Word>(
    model: Model<W>,
    width: OspiWidth,
    channel: DmaChannel,
    completion: Completion,
    command: TransferConfig,
)
    requires
        0 < model.buffer.len() <= usize::MAX,
        command_outcome(width, command) is Ok,
    ensures
        ({
            let len = model.buffer.len() as usize;
            let after = model.execute(dma_read_steps(width, channel, completion, len, command));
            let registers = after.registers;
            &&& after.buffer == Seq::new(
                model.buffer.len(),
                |i: int| model.incoming[model.received + i],
            )
            &&& after.received == model.received + model.buffer.len()
            &&& after.outgoing == model.outgoing
            &&& holds_command(model.registers, registers, command, Some(len))
            &&& field(registers[Register::Cr], 28, 2) == 1
            &&& !flag(registers[Register::Cr], 2)
            &&& registers[Register::Fcr] == 2
        }),
{
    let len = model.buffer.len() as usize;
    let before = seq![Step::Wait(Condition::Idle)];
    let head = seq![
        Step::Capture,
        Step::Modify(Edit::Mode(OspiMode::IndirectRead)),
        Step::Trigger,
    ];
    let tail = seq![
        Step::StartDma(channel, Direction::Receive),
        Step::Modify(Edit::Dma(true)),
        Step::FinishDma(completion),
    ] + finish_dma_steps();
    let rest = seq![
        Step::Capture,
        Step::Modify(Edit::Mode(OspiMode::IndirectRead)),
        Step::Trigger,
        Step::StartDma(channel, Direction::Receive),
        Step::Modify(Edit::Dma(true)),
        Step::FinishDma(completion),
    ] + finish_dma_steps();
    let commanded = model.execute(command_steps(width, command, Some(len)));
    let begun = commanded.execute(head);
    assert(rest =~= head + tail);
    lemma_with_command(model, before, width, command, Some(len), rest);
    assert(model.execute(before) == model) by {
        reveal_with_fuel(Model::execute, 2);
    }
    assert(commanded.execute(rest) == begun.execute(tail)) by {
        broadcast use group_execute;

    }
    lemma_read_begun(commanded);
    lemma_command_moves_nothing(model, width, command, Some(len));
    lemma_dma_moved(begun, channel, Direction::Receive, completion);
    law_command_takes_effect(model, width, command, Some(len));
    lemma_dma_cr(model.registers[Register::Cr], OspiMode::IndirectRead);
    lemma_clear_complete();
}

/// A valid write by DMA, whichever way its end is waited for, sends the words of the buffer, in
/// their order, changes none of them, receives nothing, and leaves the peripheral in indirect write
/// mode with DMA disabled again and with the command in its registers. The channel is taken to move
/// the whole buffer, although the data length register, which counts bytes, holds the number of
/// words less one.
pub proof fn law_dma_write_sends_the_buffer<W: Word>(
    model: Model<W>,
    width: OspiWidth,
    channel: DmaChannel,
    completion: Completion,
    command: TransferConfig,
)
    requires
        0 < model.buffer.len() <= usize::MAX,
        command_outcome(width, command) is Ok,
    ensures
        ({
            let len = model.buffer.len() as usize;
            let after = model.execute(dma_write_steps(width, channel, completion, len, command));
            let registers = after.registers;
            &&& after.outgoing == model.outgoing + model.buffer
            &&& after.buffer == model.buffer
            &&& after.received == model.received
            &&& holds_command(model.registers, registers, command, Some(len))
            &&& field(registers[Register::Cr], 28, 2) == 0
            &&& !flag(registers[Register::Cr], 2)
            &&& registers[Register::Fcr] == 2
        }),
{
    let len = model.buffer.len() as usize;
    let before = seq![Step::Wait(Condition::Idle)];
    let head = seq![Step::Modify(Edit::Mode(OspiMode::IndirectWrite))];
    let tail = seq![
        Step::StartDma(channel, Direction::Send),
        Step::Modify(Edit::Dma(true)),
        Step::FinishDma(completion),
    ] + finish_dma_steps();
    let rest = seq![
        Step::Modify(Edit::Mode(OspiMode::IndirectWrite)),
        Step::StartDma(channel, Direction::Send),
        Step::Modify(Edit::Dma(true)),
        Step::FinishDma(completion),
    ] + finish_dma_steps();
    let commanded = model.execute(command_steps(width, command, Some(len)));
    let begun = commanded.execute(head);
    assert(rest =~= head + tail);
    lemma_with_command(model, before, width, command, Some(len), rest);
    assert(model.execute(before) == model) by {
        reveal_with_fuel(Model::execute, 2);
    }
    assert(begun == commanded.effect(head[0])) by {
        reveal_with_fuel(Model::execute, 2);
    }
    assert(commanded.execute(rest) == begun.execute(tail)) by {
        broadcast use group_execute;

    }
    lemma_command_moves_nothing(model, width, command, Some(len));
    lemma_dma_moved(begun, channel, Direction::Send, completion);
    law_command_takes_effect(model, width, command, Some(len));
    lemma_dma_cr(model.registers[Register::Cr], OspiMode::IndirectWrite);
    lemma_clear_complete();
}

/// A valid read by DMA, blocking or asynchronous, that has come to its end, however long the device
/// made it wait on the way, has filled the buffer with the words that the device has handed
/// out, in their order, and has sent nothing.
pub proof fn law_completed_dma_read_has_filled_the_buffer<W: Word>(
    sequence: Sequence,
    model: Model<W>,
    status: Seq<u32>,
    width: OspiWidth,
    channel: DmaChannel,
    completion: Completion,
    command: TransferConfig,
)
    requires
        0 < model.buffer.len() <= usize::MAX,
        command_outcome(width, command) is Ok,
        sequence.is_new(
            dma_read_steps(width, channel, completion, model.buffer.len() as usize, command),
            transfer_outcome(width, model.buffer.len(), command),
        ),
    ensures
        ({
            let steps = sequence.steps_spec();
            let run = carried_out(sequence, model).drive(steps, status);
            &&& sequence.outcome_spec() is Ok
            &&& run.completed(steps) ==> {
                &&& run.model.buffer == Seq::new(
                    model.buffer.len(),
                    |i: int| model.incoming[model.received + i],
                )
                &&& run.model.received == model.received + model.buffer.len()
                &&& run.model.outgoing == model.outgoing
            }
        }),
{
    let len = model.buffer.len() as usize;
    let started = carried_out(sequence, model).model;
    law_new_sequence_performs_its_steps(
        sequence,
        dma_read_steps(width, channel, completion, len, command),
        transfer_outcome(width, model.buffer.len(), command),
        model,
        status,
        Seq::empty(),
    );
    law_dma_read_fills_the_buffer(started, width, channel, completion, command);
}

/// A valid write by DMA, blocking or asynchronous, that has come to its end, however long the
/// device made it wait on the way, has sent the words of the buffer, in their order, and has
/// neither changed the buffer nor received anything.
pub proof fn law_completed_dma_write_has_sent_the_buffer<W: Word>(
    sequence: Sequence,
    model: Model<W>,
    status: Seq<u32>,
    width: OspiWidth,
    channel: DmaChannel,
    completion: Completion,
    command: TransferConfig,
)
    requires
        0 < model.buffer.len() <= usize::MAX,
        command_outcome(width, command) is Ok,
        sequence.is_new(
            dma_write_steps(width, channel, completion, model.buffer.len() as usize, command),
            transfer_outcome(width, model.buffer.len(), command),
        ),
    ensures
        ({
            let steps = sequence.steps_spec();
            let run = carried_out(sequence, model).drive(steps, status);
            &&& sequence.outcome_spec() is Ok
            &&& run.completed(steps) ==> {
                &&& run.model.outgoing == model.outgoing + model.buffer
                &&& run.model.buffer == model.buffer
                &&& run.model.received == model.received
            }
        }),
{
    let len = model.buffer.len() as usize;
    let started = carried_out(sequence, model).model;
    law_new_sequence_performs_its_steps(
        sequence,
        dma_write_steps(width, channel, completion, len, command),
        transfer_outcome(width, model.buffer.len(), command),
        model,
        status,
        Seq::empty(),
    );
    law_dma_write_sends_the_buffer(started, width, channel, completion, command);
}

/// A blocking and an asynchronous transfer by DMA have the same steps, but for the way in which
/// the end of the transfer is waited for.
pub proof fn law_blocking_and_async_transfers_agree(
    width: OspiWidth,
    channel: DmaChannel,
    len: usize,
    command: TransferConfig,
)
    ensures
        same_but_completion(
            dma_read_steps(width, channel, Completion::Blocking, len, command),
            dma_read_steps(width, channel, Completion::Async, len, command),
        ),
        same_but_completion(
            dma_write_steps(width, channel, Completion::Blocking, len, command),
            dma_write_steps(width, channel, Completion::Async, len, command),
        ),
{
}

/// Two lists of steps that differ only in how the end of a DMA transfer is waited for.
pub open spec fn same_but_completion(blocking: Seq<Step>, asynchronous: Seq<Step>) -> bool {
    &&& blocking.len() == asynchronous.len()
    &&& forall|i: int|
        0 <= i < blocking.len() ==> {
            ||| #[trigger] blocking[i] == asynchronous[i]
            ||| blocking[i] == Step::FinishDma(Completion::Blocking) && asynchronous[i]
                == Step::FinishDma(Completion::Async)
        }
}

/// Entering the memory mapped mode with a valid read command selects the mode, without the timeout
/// counter, with the read command in the registers for reads, its instruction sent only once and
/// the data strobe off, and with the write command in the registers for writes, the data strobe
/// on.
pub proof fn law_memory_mapped_mode_is_entered<W: Word>(
    model: Model<W>,
    width: OspiWidth,
    read_config: TransferConfig,
    write_config: TransferConfig,
)
    requires
        command_outcome(width, read_config) is Ok,
    ensures
        ({
            let registers = model.execute(
                enable_memory_mapped_steps(width, read_config, write_config),
            ).registers;
            let ccr = registers[Register::Ccr];
            let wccr = registers[Register::Wccr];
            &&& field(registers[Register::Cr], 28, 2) == 3
            &&& !flag(registers[Register::Cr], 3)
            &&& holds_command(model.registers, registers, read_config, None)
            &&& !flag(ccr, 29)
            &&& flag(ccr, 31)
            &&& holds_phases(wccr, write_config)
            &&& flag(wccr, 29)
            &&& field(registers[Register::Wtcr], 0, 5) == write_config.dummy.code()
        }),
{
    let rest = seq![
        Step::Wait(Condition::Idle),
        Step::Modify(Edit::SendInstructionOnce),
        Step::Modify(Edit::WritePhases(write_config)),
        Step::Modify(Edit::WriteDummy(write_config.dummy)),
        Step::Modify(Edit::MemoryMapped),
    ];
    let commanded = model.execute(command_steps(width, read_config, None));
    let done = commanded.execute(rest);
    lemma_with_command(model, Seq::empty(), width, read_config, None, rest);
    assert(model.execute(Seq::empty()) == model);
    lemma_execute_five(commanded, rest[0], rest[1], rest[2], rest[3], rest[4]);
    law_command_takes_effect(model, width, read_config, None);
    assert(done.registers[Register::Ccr] == Edit::SendInstructionOnce.applied(
        commanded.registers[Register::Ccr],
    ));
    lemma_once_command(
        model.registers,
        commanded.registers,
        done.registers,
        read_config,
    );
    assert(outside_command(Register::Wccr) && outside_command(Register::Wtcr));
    lemma_write_phase_fields(model.registers[Register::Wccr], write_config);
    lemma_mapped_fields(
        commanded.registers[Register::Cr],
        model.registers[Register::Wtcr],
        write_config.dummy,
    );
}

/// Sending the instruction once keeps the command in the registers.
proof fn lemma_once_command(
    before: Map<Register, u32>,
    registers: Map<Register, u32>,
    other: Map<Register, u32>,
    command: TransferConfig,
)
    requires
        holds_command(before, registers, command, None),
        other[Register::Ccr] == Edit::SendInstructionOnce.applied(registers[Register::Ccr]),
        other[Register::Tcr] == registers[Register::Tcr],
        other[Register::Dlr] == registers[Register::Dlr],
        other[Register::Abr] == registers[Register::Abr],
        other[Register::Ir] == registers[Register::Ir],
        other[Register::Ar] == registers[Register::Ar],
    ensures
        holds_command(before, other, command, None),
        !flag(other[Register::Ccr], 29),
        flag(other[Register::Ccr], 31),
{
    lemma_once_fields(registers[Register::Ccr]);
}

/// Leaving the memory mapped mode, or any other, requests an abort, once and before anything else,
/// returns to indirect write mode, disables DMA, clears the transfer complete flag and leaves the
/// peripheral enabled; the configuration stays.
pub proof fn law_memory_mapped_mode_is_left<W: Word>(model: Model<W>)
    ensures
        ({
            let before = model.registers;
            let steps = disable_memory_mapped_steps();
            let registers = model.execute(steps).registers;
            // The values that the first and the last step write to the control register
            let aborted = Edit::Abort.applied(before[Register::Cr]);
            let enabled = Edit::Enable(true).applied(settled(aborted));
            &&& steps[0] == Step::Modify(Edit::Abort)
            &&& flag(aborted, 1)
            &&& steps.last() == Step::Modify(Edit::Enable(true))
            &&& !flag(enabled, 1)
            &&& registers[Register::Cr] == settled(enabled)
            &&& !flag(registers[Register::Cr], 1)
            &&& field(registers[Register::Cr], 28, 2) == 0
            &&& flag(registers[Register::Cr], 0)
            &&& !flag(registers[Register::Cr], 2)
            &&& flag(registers[Register::Cr], 6) == flag(before[Register::Cr], 6)
            &&& field(registers[Register::Cr], 8, 5) == field(before[Register::Cr], 8, 5)
            &&& registers[Register::Fcr] == 2
            &&& forall|bit: u32|
                3 <= bit < 28 || bit == 30 || bit == 31 ==> #[trigger] flag(
                    registers[Register::Cr],
                    bit,
                ) == flag(before[Register::Cr], bit)
            &&& forall|register: Register|
                register != Register::Cr && register != Register::Fcr
                    ==> #[trigger] registers[register] == before[register]
        }),
{
    reveal_with_fuel(Model::execute, 4);
    lemma_left_fields(model.registers[Register::Cr]);
    lemma_clear_complete();
    broadcast use group_fields;

}

/// The free running clock is only ever switched on right after the peripheral is enabled.
pub proof fn law_free_running_clock_follows_enable(
    chip: ChipFeatures,
    route: Route,
    config: Config,
)
    ensures
        clock_follows_enable(set_config_steps(chip, config)),
        clock_follows_enable(start_steps(chip, route, config)),
{
}

/// Every step that switches the free running clock on comes right after one that enables the
/// peripheral.
pub open spec fn clock_follows_enable(steps: Seq<Step>) -> bool {
    forall|i: int|
        0 <= i < steps.len() && #[trigger] steps[i] == Step::Modify(Edit::FreeRunningClock(true))
            ==> i > 0 && steps[i - 1] == Step::Modify(Edit::Enable(true))
}

/// The clock enable bit of the I/O manager is set, and then the peripheral disabled, before any
/// register of the manager is written. On STM32L4+ that is the bit for the sleep mode, and the bit
/// for the run mode is left as it is.
pub proof fn law_manager_clock_bit_is_set_before_manager_is_used(
    chip: ChipFeatures,
    route: Route,
    config: Config,
)
    ensures
        forall|i: int|
            0 <= i < start_steps(chip, route, config).len() && uses_manager(
                #[trigger] start_steps(chip, route, config)[i],
            ) ==> {
                &&& i >= 2
                &&& chip.manager matches Some(clock) && start_steps(chip, route, config)[0]
                    == Step::Modify(Edit::EnableManager(clock))
                &&& start_steps(chip, route, config)[1] == Step::Modify(Edit::Enable(false))
            },
{
}

/// Whether a step writes a register of the I/O manager.
pub open spec fn uses_manager(step: Step) -> bool {
    match step {
        Step::Modify(edit) => edit.target() == Register::ManagerCr || edit.target()
            == Register::ManagerP1cr,
        Step::Write(register, _) => register == Register::ManagerCr || register
            == Register::ManagerP1cr,
        _ => false,
    }
}

/// While a configuration is being set, from the second step on, DMA is disabled.
pub proof fn law_dma_is_disabled_while_configuring<W: Word>(
    model: Model<W>,
    chip: ChipFeatures,
    config: Config,
    done: int,
)
    requires
        2 <= done <= set_config_steps(chip, config).len(),
    ensures
        !flag(
            model.execute(set_config_steps(chip, config).take(done)).registers[Register::Cr],
            2,
        ),
    decreases done,
{
    let steps = set_config_steps(chip, config);
    if done == 2 {
        assert(steps.take(2) =~= seq![
            Step::Wait(Condition::Idle),
            Step::Modify(Edit::Dma(false)),
        ]);
        reveal_with_fuel(Model::execute, 3);
        lemma_dma_off(model.registers[Register::Cr]);
    } else {
        law_dma_is_disabled_while_configuring(model, chip, config, done - 1);
        assert(steps.take(done).drop_last() =~= steps.take(done - 1));
        let before = model.execute(steps.take(done - 1));
        let cr = before.registers[Register::Cr];
        assert(steps.take(done).last() == steps[done - 1]);
        lemma_dma_kept(cr, config.fifo_threshold);
    }
}

/// Giving the driver up disconnects just the pins that it has, and disables the clock last.
pub proof fn law_release_disconnects_the_pins(pins: Pins, pin: Pin)
    ensures
        release_steps(pins).contains(Step::DisconnectPin(pin)) <==> has_pin(pins, pin),
        release_steps(pins).last() == Step::DisableClock,
{
    broadcast use vstd::seq_lib::group_seq_properties;

}

/// Whether a pin is one of some pins.
pub open spec fn has_pin(pins: Pins, pin: Pin) -> bool {
    ||| pins.sck == Some(pin)
    ||| pins.d0 == Some(pin)
    ||| pins.d1 == Some(pin)
    ||| pins.d2 == Some(pin)
    ||| pins.d3 == Some(pin)
    ||| pins.d4 == Some(pin)
    ||| pins.d5 == Some(pin)
    ||| pins.d6 == Some(pin)
    ||| pins.d7 == Some(pin)
    ||| pins.nss == Some(pin)
    ||| pins.dqs == Some(pin)
}

/// Of two configurations set one after the other, the second is the one in the registers.
pub proof fn law_last_config_counts<W: Word>(
    model: Model<W>,
    chip: ChipFeatures,
    first: Config,
    second: Config,
)
    ensures
        holds_config(
            model.execute(set_config_steps(chip, first) + set_config_steps(chip, second)).registers,
            chip,
            second,
        ),
{
    broadcast use group_execute;

    law_set_config_takes_effect(model.execute(set_config_steps(chip, first)), chip, second);
}

/// Entering the memory mapped mode and leaving it again ends in indirect write mode, with the
/// peripheral enabled, DMA disabled and the configuration as it was.
pub proof fn law_leaving_memory_mapped_mode_undoes_entering<W: Word>(
    model: Model<W>,
    width: OspiWidth,
    read_config: TransferConfig,
    write_config: TransferConfig,
)
    ensures
        ({
            let before = model.registers;
            let registers = model.execute(
                enable_memory_mapped_steps(width, read_config, write_config)
                    + disable_memory_mapped_steps(),
            ).registers;
            &&& field(registers[Register::Cr], 28, 2) == 0
            &&& flag(registers[Register::Cr], 0)
            &&& !flag(registers[Register::Cr], 2)
            &&& flag(registers[Register::Cr], 6) == flag(before[Register::Cr], 6)
            &&& field(registers[Register::Cr], 8, 5) == field(before[Register::Cr], 8, 5)
            &&& registers[Register::Dcr1] == before[Register::Dcr1]
            &&& registers[Register::Dcr2] == before[Register::Dcr2]
            &&& registers[Register::Dcr3] == before[Register::Dcr3]
            &&& registers[Register::Dcr4] == before[Register::Dcr4]
        }),
{
    let entering = enable_memory_mapped_steps(width, read_config, write_config);
    let entered = model.execute(entering);
    assert(model.execute(entering + disable_memory_mapped_steps()) == entered.execute(
        disable_memory_mapped_steps(),
    )) by {
        broadcast use group_execute;

    }
    law_memory_mapped_mode_is_left(entered);
    lemma_entering_keeps_config(model, entering, entering.len() as int);
    assert(entering.take(entering.len() as int) =~= entering);
}

/// Whether a step keeps the configuration: it touches no device register, and of the control
/// register only the functional mode and the timeout counter.
spec fn keeps_config(step: Step) -> bool {
    match step {
        Step::Modify(Edit::Mode(_)) => true,
        Step::Modify(Edit::MemoryMapped) => true,
        Step::Modify(edit) => outside_device(edit.target()),
        Step::Write(register, _) => outside_device(register),
        Step::Wait(_) => true,
        _ => false,
    }
}

spec fn outside_device(register: Register) -> bool {
    &&& register != Register::Cr
    &&& register != Register::Dcr1
    &&& register != Register::Dcr2
    &&& register != Register::Dcr3
    &&& register != Register::Dcr4
}

proof fn lemma_entering_keeps_config<W: Word>(model: Model<W>, steps: Seq<Step>, count: int)
    requires
        0 <= count <= steps.len(),
        forall|i: int| 0 <= i < steps.len() ==> keeps_config(#[trigger] steps[i]),
    ensures
        ({
            let before = model.registers;
            let registers = model.execute(steps.take(count)).registers;
            &&& flag(registers[Register::Cr], 6) == flag(before[Register::Cr], 6)
            &&& field(registers[Register::Cr], 8, 5) == field(before[Register::Cr], 8, 5)
            &&& registers[Register::Dcr1] == before[Register::Dcr1]
            &&& registers[Register::Dcr2] == before[Register::Dcr2]
            &&& registers[Register::Dcr3] == before[Register::Dcr3]
            &&& registers[Register::Dcr4] == before[Register::Dcr4]
        }),
    decreases count,
{
    if count > 0 {
        lemma_entering_keeps_config(model, steps, count - 1);
        assert(steps.take(count).drop_last() =~= steps.take(count - 1));
        let step = steps[count - 1];
        assert(keeps_config(step));
        let cr = model.execute(steps.take(count - 1)).registers[Register::Cr];
        match step {
            Step::Modify(Edit::Mode(mode)) => lemma_mode_keeps(cr, mode.code() as u32),
            Step::Modify(Edit::MemoryMapped) => lemma_mode_keeps(cr, 3),
            _ => {},
        }
    }
}

/// Whether a step accesses registers as they can be accessed: the status register is never
/// written, and the flag clear register never read.
pub open spec fn accessible(step: Step) -> bool {
    match step {
        Step::Modify(edit) => edit.target() != Register::Sr && edit.target() != Register::Fcr,
        Step::Write(register, _) => register != Register::Sr,
        _ => true,
    }
}

/// Whether all steps access registers as they can be accessed.
pub open spec fn all_accessible(steps: Seq<Step>) -> bool {
    forall|i: int| 0 <= i < steps.len() ==> accessible(#[trigger] steps[i])
}

broadcast proof fn lemma_accessible_add(first: Seq<Step>, second: Seq<Step>)
    requires
        all_accessible(first),
        all_accessible(second),
    ensures
        #[trigger] all_accessible(first + second),
{
}

proof fn lemma_accessible_command(
    before: Seq<Step>,
    width: OspiWidth,
    command: TransferConfig,
    data_len: Option<usize>,
    rest: Seq<Step>,
)
    requires
        all_accessible(before),
        all_accessible(rest),
    ensures
        all_accessible(with_command(before, width, command, data_len, rest)),
{
    broadcast use lemma_accessible_add;

    assert(all_accessible(alternate_bytes_steps(command)));
    assert(all_accessible(phase_steps(command, data_len)));
    assert(all_accessible(instruction_steps(command)));
    assert(all_accessible(address_steps(command)));
    assert(all_accessible(seq![Step::Modify(Edit::Mode(OspiMode::IndirectWrite))]));
    assert(all_accessible(command_steps(width, command, data_len)));
}

proof fn lemma_accessible_config(chip: ChipFeatures, route: Route, config: Config)
    ensures
        all_accessible(start_steps(chip, route, config)),
        all_accessible(set_config_steps(chip, config)),
{
    broadcast use lemma_accessible_add;

    assert(all_accessible(manager_steps(chip, route)));
    assert(all_accessible(device_steps(chip, config)));
    assert(all_accessible(enable_steps(config)));
    assert(all_accessible(seq![Step::Wait(Condition::Idle), Step::Modify(Edit::Dma(false))]));
    assert(all_accessible(seq![Step::EnableClock, Step::Wait(Condition::Idle)]));
    assert(all_accessible(
        seq![
            Step::Wait(Condition::Idle),
            Step::Modify(Edit::Prescaler(config.clock_prescaler)),
        ],
    ));
    assert(all_accessible(
        seq![
            Step::Wait(Condition::Idle),
            Step::Modify(Edit::Prescaler(config.clock_prescaler)),
            Step::Modify(Edit::DualMemory(route.dual_quad)),
        ],
    ));
}

/// No operation writes the status register or reads the flag clear register.
pub proof fn law_operations_respect_the_registers(
    chip: ChipFeatures,
    route: Route,
    config: Config,
    width: OspiWidth,
    channel: DmaChannel,
    completion: Completion,
    len: usize,
    command: TransferConfig,
    write_config: TransferConfig,
    pins: Pins,
)
    ensures
        all_accessible(start_steps(chip, route, config)),
        all_accessible(set_config_steps(chip, config)),
        all_accessible(blocking_command_steps(width, command)),
        all_accessible(blocking_read_steps(width, len, command)),
        all_accessible(blocking_write_steps(width, len, command)),
        all_accessible(dma_read_steps(width, channel, completion, len, command)),
        all_accessible(dma_write_steps(width, channel, completion, len, command)),
        all_accessible(enable_memory_mapped_steps(width, command, write_config)),
        all_accessible(disable_memory_mapped_steps()),
        all_accessible(release_steps(pins)),
{
    lemma_accessible_config(chip, route, config);
    let idle = seq![Step::Wait(Condition::Idle)];
    let quiet = seq![Step::Wait(Condition::Idle), Step::Modify(Edit::Dma(false))];
    lemma_accessible_command(
        idle,
        width,
        command,
        None,
        seq![Step::Wait(Condition::Complete), clear_complete()],
    );
    lemma_accessible_command(
        quiet,
        width,
        command,
        Some(len),
        seq![
            Step::Capture,
            Step::Modify(Edit::Mode(OspiMode::IndirectRead)),
            Step::Trigger,
            Step::Receive,
            Step::Wait(Condition::Complete),
            clear_complete(),
        ],
    );
    lemma_accessible_command(
        quiet,
        width,
        command,
        Some(len),
        seq![
            Step::Modify(Edit::Mode(OspiMode::IndirectWrite)),
            Step::Send,
            Step::Wait(Condition::Complete),
            clear_complete(),
        ],
    );
    lemma_accessible_command(
        idle,
        width,
        command,
        Some(len),
        seq![
            Step::Capture,
            Step::Modify(Edit::Mode(OspiMode::IndirectRead)),
            Step::Trigger,
            Step::StartDma(channel, Direction::Receive),
            Step::Modify(Edit::Dma(true)),
            Step::FinishDma(completion),
        ] + finish_dma_steps(),
    );
    lemma_accessible_command(
        idle,
        width,
        command,
        Some(len),
        seq![
            Step::Modify(Edit::Mode(OspiMode::IndirectWrite)),
            Step::StartDma(channel, Direction::Send),
            Step::Modify(Edit::Dma(true)),
            Step::FinishDma(completion),
        ] + finish_dma_steps(),
    );
    lemma_accessible_command(
        Seq::empty(),
        width,
        command,
        None,
        seq![
            Step::Wait(Condition::Idle),
            Step::Modify(Edit::SendInstructionOnce),
            Step::Modify(Edit::WritePhases(write_config)),
            Step::Modify(Edit::WriteDummy(write_config.dummy)),
            Step::Modify(Edit::MemoryMapped),
        ],
    );
}

/// Whether some steps neither set off a transaction nor move any data.
pub open spec fn inert(steps: Seq<Step>) -> bool {
    forall|i: int|
        0 <= i < steps.len() ==> {
            let step = #[trigger] steps[i];
            &&& !sets_off(step)
            &&& still(step)
        }
}

proof fn lemma_refused_command_is_inert(
    before: Seq<Step>,
    width: OspiWidth,
    command: TransferConfig,
    data_len: Option<usize>,
    rest: Seq<Step>,
)
    requires
        inert(before),
        command_outcome(width, command) is Err,
    ensures
        inert(with_command(before, width, command, data_len, rest)),
{
}

/// An operation that is refused, for its buffer or for its command, neither sets off a transaction
/// nor moves any data; with an empty buffer it does nothing at all.
pub proof fn law_refused_operation_moves_nothing(
    width: OspiWidth,
    channel: DmaChannel,
    completion: Completion,
    len: usize,
    command: TransferConfig,
    write_config: TransferConfig,
)
    ensures
        command_outcome(width, command) is Err ==> {
            &&& inert(blocking_command_steps(width, command))
            &&& inert(enable_memory_mapped_steps(width, command, write_config))
        },
        transfer_outcome(width, len as nat, command) is Err ==> {
            &&& inert(blocking_read_steps(width, len, command))
            &&& inert(blocking_write_steps(width, len, command))
            &&& inert(dma_read_steps(width, channel, completion, len, command))
            &&& inert(dma_write_steps(width, channel, completion, len, command))
        },
        len == 0 ==> {
            &&& transfer_outcome(width, len as nat, command) == Err::<(), OspiError>(
                OspiError::EmptyBuffer,
            )
            &&& blocking_read_steps(width, len, command).len() == 0
            &&& blocking_write_steps(width, len, command).len() == 0
            &&& dma_read_steps(width, channel, completion, len, command).len() == 0
            &&& dma_write_steps(width, channel, completion, len, command).len() == 0
        },
{
    if command_outcome(width, command) is Err {
        let idle = seq![Step::Wait(Condition::Idle)];
        let quiet = seq![Step::Wait(Condition::Idle), Step::Modify(Edit::Dma(false))];
        assert forall|rest: Seq<Step>, data_len: Option<usize>| inert(
            #[trigger] with_command(idle, width, command, data_len, rest),
        ) by {
            lemma_refused_command_is_inert(idle, width, command, data_len, rest);
        }
        assert forall|rest: Seq<Step>, data_len: Option<usize>| inert(
            #[trigger] with_command(quiet, width, command, data_len, rest),
        ) by {
            lemma_refused_command_is_inert(quiet, width, command, data_len, rest);
        }
        assert forall|rest: Seq<Step>, data_len: Option<usize>| inert(
            #[trigger] with_command(Seq::empty(), width, command, data_len, rest),
        ) by {
            lemma_refused_command_is_inert(Seq::empty(), width, command, data_len, rest);
        }
    }
}

} // verus!
