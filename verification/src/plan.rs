//! The steps of every operation of the driver.

use vstd::prelude::*;

use crate::bits::with_flag;
use crate::config::{Config, OspiError, TransferConfig};
use crate::edit::{Edit, Route};
use crate::enums::{OspiMode, OspiWidth};
use crate::gpio::{AfType, DmaChannel, OutputType, Pin, Pull, Speed};
use crate::instance::ChipFeatures;
use crate::register::Register;
use crate::step::{Completion, Condition, Direction, Step};

verus! {

/// Clears the transfer complete flag.
pub open spec fn clear_complete() -> Step {
    Step::Write(Register::Fcr, with_flag(0, 1, true))
}

/// Whether a command needs more lines than the driver has.
pub open spec fn too_wide(width: OspiWidth, command: TransferConfig) -> bool {
    ||| command.iwidth.code() > width.code()
    ||| command.adwidth.code() > width.code()
    ||| command.abwidth.code() > width.code()
    ||| command.dwidth.code() > width.code()
}

/// The data length register for a transfer of `data_len` words, or of none. The register counts
/// bytes, less one, but what goes into it is the number of words, less one: with words of two or
/// four bytes the peripheral is asked for fewer bytes than the buffer holds.
pub open spec fn data_length(data_len: Option<usize>) -> u32 {
    match data_len {
        Some(len) => (len - 1) as u32,
        None => 0,
    }
}

/// The steps that prepare the alternate bytes of a command, if it has any.
pub open spec fn alternate_bytes_steps(command: TransferConfig) -> Seq<Step> {
    match command.alternate_bytes {
        Some(bytes) => seq![
            Step::Write(Register::Abr, bytes),
            Step::Modify(Edit::AlternateBytes(command)),
        ],
        None => Seq::empty(),
    }
}

/// The steps that prepare the phases of a command.
pub open spec fn phase_steps(command: TransferConfig, data_len: Option<usize>) -> Seq<Step> {
    seq![
        Step::Modify(Edit::Dummy(command.dummy)),
        Step::Write(Register::Dlr, data_length(data_len)),
        Step::Modify(Edit::Phases(command)),
    ]
}

/// The step that writes the instruction of a command, if it has one.
pub open spec fn instruction_steps(command: TransferConfig) -> Seq<Step> {
    match command.instruction {
        Some(instruction) => seq![Step::Write(Register::Ir, instruction)],
        None => Seq::empty(),
    }
}

/// The step that writes the address of a command, if it has one.
pub open spec fn address_steps(command: TransferConfig) -> Seq<Step> {
    match command.address {
        Some(address) => seq![Step::Write(Register::Ar, address)],
        None => Seq::empty(),
    }
}

/// The steps that prepare a command. A command that is too wide leaves the peripheral alone; the
/// instruction and the address come last, because they set off the transaction.
pub open spec fn command_steps(
    width: OspiWidth,
    command: TransferConfig,
    data_len: Option<usize>,
) -> Seq<Step> {
    if too_wide(width, command) {
        Seq::empty()
    } else {
        seq![Step::Modify(Edit::Mode(OspiMode::IndirectWrite))] + alternate_bytes_steps(command)
            + phase_steps(command, data_len) + instruction_steps(command) + address_steps(command)
    }
}

/// A command is valid if it fits the lines of the driver and has an instruction or an address.
pub open spec fn command_outcome(width: OspiWidth, command: TransferConfig) -> Result<
    (),
    OspiError,
> {
    if too_wide(width, command) || (command.instruction is None && command.address is None) {
        Err(OspiError::InvalidCommand)
    } else {
        Ok(())
    }
}

/// A command between `before` and `rest`; an invalid command ends the operation.
pub open spec fn with_command(
    before: Seq<Step>,
    width: OspiWidth,
    command: TransferConfig,
    data_len: Option<usize>,
    rest: Seq<Step>,
) -> Seq<Step> {
    before + command_steps(width, command, data_len) + (if command_outcome(width, command) is Ok {
        rest
    } else {
        Seq::empty()
    })
}

/// The steps that end a DMA transfer.
pub open spec fn finish_dma_steps() -> Seq<Step> {
    seq![
        Step::Wait(Condition::Complete),
        clear_complete(),
        Step::Modify(Edit::Dma(false)),
    ]
}

/// The steps of a command without data.
pub open spec fn blocking_command_steps(width: OspiWidth, command: TransferConfig) -> Seq<Step> {
    with_command(
        seq![Step::Wait(Condition::Idle)],
        width,
        command,
        None,
        seq![Step::Wait(Condition::Complete), clear_complete()],
    )
}

/// The outcome of a transfer of `len` words.
pub open spec fn transfer_outcome(
    width: OspiWidth,
    len: nat,
    command: TransferConfig,
) -> Result<(), OspiError> {
    if len == 0 {
        Err(OspiError::EmptyBuffer)
    } else {
        command_outcome(width, command)
    }
}

/// The steps of a read, word by word.
pub open spec fn blocking_read_steps(
    width: OspiWidth,
    len: usize,
    command: TransferConfig,
) -> Seq<Step> {
    if len == 0 {
        Seq::empty()
    } else {
        with_command(
            seq![Step::Wait(Condition::Idle), Step::Modify(Edit::Dma(false))],
            width,
            command,
            Some(len),
            seq![
                Step::Capture,
                Step::Modify(Edit::Mode(OspiMode::IndirectRead)),
                Step::Trigger,
                Step::Receive,
                Step::Wait(Condition::Complete),
                clear_complete(),
            ],
        )
    }
}

/// The steps of a write, word by word.
pub open spec fn blocking_write_steps(
    width: OspiWidth,
    len: usize,
    command: TransferConfig,
) -> Seq<Step> {
    if len == 0 {
        Seq::empty()
    } else {
        with_command(
            seq![Step::Wait(Condition::Idle), Step::Modify(Edit::Dma(false))],
            width,
            command,
            Some(len),
            seq![
                Step::Modify(Edit::Mode(OspiMode::IndirectWrite)),
                Step::Send,
                Step::Wait(Condition::Complete),
                clear_complete(),
            ],
        )
    }
}

/// The steps of a read by DMA.
pub open spec fn dma_read_steps(
    width: OspiWidth,
    channel: DmaChannel,
    completion: Completion,
    len: usize,
    command: TransferConfig,
) -> Seq<Step> {
    if len == 0 {
        Seq::empty()
    } else {
        with_command(
            seq![Step::Wait(Condition::Idle)],
            width,
            command,
            Some(len),
            seq![
                Step::Capture,
                Step::Modify(Edit::Mode(OspiMode::IndirectRead)),
                Step::Trigger,
                Step::StartDma(channel, Direction::Receive),
                Step::Modify(Edit::Dma(true)),
                Step::FinishDma(completion),
            ] + finish_dma_steps(),
        )
    }
}

/// The steps of a write by DMA.
pub open spec fn dma_write_steps(
    width: OspiWidth,
    channel: DmaChannel,
    completion: Completion,
    len: usize,
    command: TransferConfig,
) -> Seq<Step> {
    if len == 0 {
        Seq::empty()
    } else {
        with_command(
            seq![Step::Wait(Condition::Idle)],
            width,
            command,
            Some(len),
            seq![
                Step::Modify(Edit::Mode(OspiMode::IndirectWrite)),
                Step::StartDma(channel, Direction::Send),
                Step::Modify(Edit::Dma(true)),
                Step::FinishDma(completion),
            ] + finish_dma_steps(),
        )
    }
}

/// The steps that enter the memory mapped mode.
pub open spec fn enable_memory_mapped_steps(
    width: OspiWidth,
    read_config: TransferConfig,
    write_config: TransferConfig,
) -> Seq<Step> {
    with_command(
        Seq::empty(),
        width,
        read_config,
        None,
        seq![
            Step::Wait(Condition::Idle),
            Step::Modify(Edit::SendInstructionOnce),
            Step::Modify(Edit::WritePhases(write_config)),
            Step::Modify(Edit::WriteDummy(write_config.dummy)),
            Step::Modify(Edit::MemoryMapped),
        ],
    )
}

/// The steps that leave the memory mapped mode.
pub open spec fn disable_memory_mapped_steps() -> Seq<Step> {
    seq![Step::Modify(Edit::Abort), clear_complete(), Step::Modify(Edit::Enable(true))]
}

/// The steps that describe the external device.
pub open spec fn device_steps(chip: ChipFeatures, config: Config) -> Seq<Step> {
    seq![
        Step::Modify(Edit::Device(config)),
        Step::Modify(Edit::Wrap(config.wrap_size)),
        Step::Modify(
            Edit::Boundary(
                config.chip_select_boundary,
                if chip.max_transfer {
                    Some(config.max_transfer)
                } else {
                    None
                },
            ),
        ),
        Step::Modify(Edit::Refresh(config.refresh)),
        Step::Modify(Edit::FifoThreshold(config.fifo_threshold)),
    ]
}

/// The steps that enable the peripheral and then, if it is wanted, the free running clock, which
/// needs the peripheral to be enabled.
pub open spec fn enable_steps(config: Config) -> Seq<Step> {
    seq![
        Step::Modify(Edit::Sampling(config.sample_shifting, config.delay_hold_quarter_cycle)),
        Step::Modify(Edit::Enable(true)),
    ] + (if config.free_running_clock {
        seq![Step::Modify(Edit::FreeRunningClock(true))]
    } else {
        Seq::empty()
    })
}

/// The steps that set a new configuration.
pub open spec fn set_config_steps(chip: ChipFeatures, config: Config) -> Seq<Step> {
    seq![Step::Wait(Condition::Idle), Step::Modify(Edit::Dma(false))] + device_steps(chip, config)
        + seq![
        Step::Wait(Condition::Idle),
        Step::Modify(Edit::Prescaler(config.clock_prescaler)),
    ] + enable_steps(config)
}

/// The steps that connect the peripheral to port 1 of the I/O manager, if the chip has one.
pub open spec fn manager_steps(chip: ChipFeatures, route: Route) -> Seq<Step> {
    match chip.manager {
        Some(clock) => seq![
            Step::Modify(Edit::EnableManager(clock)),
            Step::Modify(Edit::Enable(false)),
            Step::Modify(Edit::ManagerArbitration),
            Step::Modify(Edit::PortClear),
            Step::Modify(Edit::PortRoute(route)),
        ],
        None => Seq::empty(),
    }
}

/// The steps that start the peripheral up.
pub open spec fn start_steps(chip: ChipFeatures, route: Route, config: Config) -> Seq<Step> {
    manager_steps(chip, route) + seq![Step::EnableClock, Step::Wait(Condition::Idle)]
        + device_steps(chip, config) + seq![
        Step::Wait(Condition::Idle),
        Step::Modify(Edit::Prescaler(config.clock_prescaler)),
        Step::Modify(Edit::DualMemory(route.dual_quad)),
    ] + enable_steps(config)
}

/// A line that the driver drives.
pub open spec fn output() -> AfType {
    AfType::Output(OutputType::PushPull, Speed::VeryHigh)
}

/// A line that only the external device drives.
pub open spec fn input() -> AfType {
    AfType::Input(Pull::Floating)
}

/// The chip select line, which stays high while nobody drives it.
pub open spec fn select() -> AfType {
    AfType::OutputPull(OutputType::PushPull, Speed::VeryHigh, Pull::Up)
}

/// The pins of a driver.
#[derive(Clone, Copy, PartialEq, Eq, Debug)]
pub struct Pins {
    /// Clock
    pub sck: Option<Pin>,
    /// Data line 0
    pub d0: Option<Pin>,
    /// Data line 1
    pub d1: Option<Pin>,
    /// Data line 2
    pub d2: Option<Pin>,
    /// Data line 3
    pub d3: Option<Pin>,
    /// Data line 4
    pub d4: Option<Pin>,
    /// Data line 5
    pub d5: Option<Pin>,
    /// Data line 6
    pub d6: Option<Pin>,
    /// Data line 7
    pub d7: Option<Pin>,
    /// Chip select
    pub nss: Option<Pin>,
    /// Data strobe
    pub dqs: Option<Pin>,
}

impl Pins {
    /// The pin of a data line.
    pub open spec fn data(self, line: nat) -> Option<Pin> {
        if line == 0 {
            self.d0
        } else if line == 1 {
            self.d1
        } else if line == 2 {
            self.d2
        } else if line == 3 {
            self.d3
        } else if line == 4 {
            self.d4
        } else if line == 5 {
            self.d5
        } else if line == 6 {
            self.d6
        } else if line == 7 {
            self.d7
        } else {
            None
        }
    }

    /// Whether the first `lines` data lines are connected.
    pub open spec fn cover(self, lines: nat) -> bool {
        forall|line: nat| line < lines ==> (#[trigger] self.data(line)) is Some
    }
}

/// The step that connects a pin, if there is one.
pub open spec fn connect(pin: Option<Pin>, af_type: AfType) -> Seq<Step> {
    match pin {
        Some(pin) => seq![Step::ConnectPin(pin, af_type)],
        None => Seq::empty(),
    }
}

/// The steps that connect the pins of a driver: the data lines, the clock and the chip select. Data
/// line 1 may be one that only the external device drives.
pub open spec fn connection_steps(pins: Pins, listening: bool) -> Seq<Step> {
    connect(pins.d0, output()) + connect(
        pins.d1,
        if listening {
            input()
        } else {
            output()
        },
    ) + connect(pins.d2, output()) + connect(pins.d3, output()) + connect(pins.d4, output())
        + connect(pins.d5, output()) + connect(pins.d6, output()) + connect(pins.d7, output())
        + connect(pins.sck, output()) + connect(pins.nss, select())
}

/// The step that disconnects a pin, if there is one.
pub open spec fn disconnect(pin: Option<Pin>) -> Seq<Step> {
    match pin {
        Some(pin) => seq![Step::DisconnectPin(pin)],
        None => Seq::empty(),
    }
}

/// The steps that give everything back: every pin, then the clock.
pub open spec fn release_steps(pins: Pins) -> Seq<Step> {
    disconnect(pins.sck) + disconnect(pins.d0) + disconnect(pins.d1) + disconnect(pins.d2)
        + disconnect(pins.d3) + disconnect(pins.d4) + disconnect(pins.d5) + disconnect(pins.d6)
        + disconnect(pins.d7) + disconnect(pins.nss) + disconnect(pins.dqs) + seq![
        Step::DisableClock,
    ]
}

} // verus!
