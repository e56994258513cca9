//! OCTOSPI Serial Peripheral Interface
//!
//! The driver decides what is done to the peripheral and in which order; it does not touch the
//! hardware itself. Each operation hands out a [`Sequence`] of steps and keeps what it has to
//! remember. Carrying out the sequence, action by action, performs the operation, and the outcome
//! of the sequence is its result.

use vstd::prelude::*;

use crate::config::{Config, OspiError, TransferConfig};
use crate::edit::{Edit, Route};
use crate::enums::{OspiMode, OspiWidth};
use crate::gpio::{AfType, DmaChannel, OutputType, Pin, Pull, Speed};
use crate::instance::{ChipFeatures, Instance};
use crate::mode::{Async, Blocking, Mode};
use crate::pac;
use crate::plan::{
    address_steps, alternate_bytes_steps, blocking_command_steps, blocking_read_steps,
    blocking_write_steps, clear_complete, command_outcome, command_steps, connection_steps,
    device_steps,
    disable_memory_mapped_steps, disconnect, dma_read_steps, dma_write_steps,
    enable_memory_mapped_steps, enable_steps, finish_dma_steps, input, instruction_steps,
    manager_steps, output, phase_steps, release_steps, select, set_config_steps, start_steps,
    transfer_outcome, Pins,
};
use crate::register::Register;
use crate::sequence::Sequence;
use crate::step::{Completion, Condition, Direction, Step};
use crate::word::Word;

verus! {

/// OSPI driver.
#[allow(dead_code)]
pub struct Ospi<T: Instance, M: Mode> {
    peri: T,
    pins: Pins,
    dma: Option<DmaChannel>,
    mode: M,
    config: Config,
    width: OspiWidth,
}

/// Clears the transfer complete flag.
fn push_clear_complete(steps: &mut Vec<Step>)
    ensures
        final(steps)@ == old(steps)@.push(clear_complete()),
{
    steps.push(Step::Write(Register::Fcr, pac::fcr_with_ctcf(0, true)));
}

/// Ends a DMA transfer: waits for its end, clears the flag and disables DMA.
fn finish_dma(steps: &mut Vec<Step>)
    ensures
        final(steps)@ == old(steps)@ + finish_dma_steps(),
{
    steps.push(Step::Wait(Condition::Complete));
    push_clear_complete(steps);
    steps.push(Step::Modify(Edit::Dma(false)));
    assert(steps@ =~= old(steps)@ + finish_dma_steps());
}

/// Connects the peripheral to port 1 of the I/O manager, if the chip has one.
fn connect_manager(steps: &mut Vec<Step>, chip: ChipFeatures, route: Route)
    ensures
        final(steps)@ == old(steps)@ + manager_steps(chip, route),
{
    if let Some(clock) = chip.manager {
        // The clock of the manager has to run before its registers are written. On STM32L4+ only
        // the bit for the sleep mode is set.
        steps.push(Step::Modify(Edit::EnableManager(clock)));
        // Disable the peripheral first
        steps.push(Step::Modify(Edit::Enable(false)));
        steps.push(Step::Modify(Edit::ManagerArbitration));
        steps.push(Step::Modify(Edit::PortClear));
        steps.push(Step::Modify(Edit::PortRoute(route)));
    }
    assert(steps@ =~= old(steps)@ + manager_steps(chip, route));
}

/// Describes the external device.
fn describe_device(steps: &mut Vec<Step>, chip: ChipFeatures, config: &Config)
    ensures
        final(steps)@ == old(steps)@ + device_steps(chip, *config),
{
    steps.push(Step::Modify(Edit::Device(*config)));
    steps.push(Step::Modify(Edit::Wrap(config.wrap_size)));
    let max_transfer = if chip.max_transfer {
        Some(config.max_transfer)
    } else {
        None
    };
    steps.push(Step::Modify(Edit::Boundary(config.chip_select_boundary, max_transfer)));
    steps.push(Step::Modify(Edit::Refresh(config.refresh)));
    steps.push(Step::Modify(Edit::FifoThreshold(config.fifo_threshold)));
    assert(steps@ =~= old(steps)@ + device_steps(chip, *config));
}

/// Enables the peripheral, and then the free running clock if it is wanted.
fn enable(steps: &mut Vec<Step>, config: &Config)
    ensures
        final(steps)@ == old(steps)@ + enable_steps(*config),
{
    steps.push(
        Step::Modify(Edit::Sampling(config.sample_shifting, config.delay_hold_quarter_cycle)),
    );
    steps.push(Step::Modify(Edit::Enable(true)));
    if config.free_running_clock {
        steps.push(Step::Modify(Edit::FreeRunningClock(true)));
    }
    assert(steps@ =~= old(steps)@ + enable_steps(*config));
}

/// Prepares the alternate bytes of a command, if it has any.
fn configure_alternate_bytes(steps: &mut Vec<Step>, command: &TransferConfig)
    ensures
        final(steps)@ == old(steps)@ + alternate_bytes_steps(*command),
{
    if let Some(bytes) = command.alternate_bytes {
        steps.push(Step::Write(Register::Abr, pac::abr_with_alternate(0, bytes)));
        steps.push(Step::Modify(Edit::AlternateBytes(*command)));
    }
    assert(steps@ =~= old(steps)@ + alternate_bytes_steps(*command));
}

/// Prepares the phases of a command.
fn configure_phases(steps: &mut Vec<Step>, command: &TransferConfig, data_len: Option<usize>)
    requires
        data_len != Some(0usize),
    ensures
        final(steps)@ == old(steps)@ + phase_steps(*command, data_len),
{
    steps.push(Step::Modify(Edit::Dummy(command.dummy)));
    let length: u32 = match data_len {
        Some(len) => (len - 1) as u32,
        None => 0,
    };
    steps.push(Step::Write(Register::Dlr, pac::dlr_with_dl(0, length)));
    steps.push(Step::Modify(Edit::Phases(*command)));
    assert(steps@ =~= old(steps)@ + phase_steps(*command, data_len));
}

/// Writes the instruction of a command, if it has one.
fn write_instruction(steps: &mut Vec<Step>, command: &TransferConfig)
    ensures
        final(steps)@ == old(steps)@ + instruction_steps(*command),
{
    if let Some(instruction) = command.instruction {
        steps.push(Step::Write(Register::Ir, pac::ir_with_instruction(0, instruction)));
    }
    assert(steps@ =~= old(steps)@ + instruction_steps(*command));
}

/// Writes the address of a command, if it has one.
fn write_address(steps: &mut Vec<Step>, command: &TransferConfig)
    ensures
        final(steps)@ == old(steps)@ + address_steps(*command),
{
    if let Some(address) = command.address {
        steps.push(Step::Write(Register::Ar, pac::ar_with_address(0, address)));
    }
    assert(steps@ =~= old(steps)@ + address_steps(*command));
}

/// Connects a pin.
fn new_pin(steps: &mut Vec<Step>, pin: Pin, af_type: AfType) -> (r: Option<Pin>)
    ensures
        r == Some(pin),
        final(steps)@ == old(steps)@.push(Step::ConnectPin(pin, af_type)),
{
    steps.push(Step::ConnectPin(pin, af_type));
    Some(pin)
}

/// Connects a line that the driver drives.
fn new_output(steps: &mut Vec<Step>, pin: Pin) -> (r: Option<Pin>)
    ensures
        r == Some(pin),
        final(steps)@ == old(steps)@.push(Step::ConnectPin(pin, output())),
{
    new_pin(steps, pin, AfType::Output(OutputType::PushPull, Speed::VeryHigh))
}

/// Connects a line that only the external device drives.
fn new_input(steps: &mut Vec<Step>, pin: Pin) -> (r: Option<Pin>)
    ensures
        r == Some(pin),
        final(steps)@ == old(steps)@.push(Step::ConnectPin(pin, input())),
{
    new_pin(steps, pin, AfType::Input(Pull::Floating))
}

/// Connects the chip select line.
fn new_select(steps: &mut Vec<Step>, pin: Pin) -> (r: Option<Pin>)
    ensures
        r == Some(pin),
        final(steps)@ == old(steps)@.push(Step::ConnectPin(pin, select())),
{
    new_pin(steps, pin, AfType::OutputPull(OutputType::PushPull, Speed::VeryHigh, Pull::Up))
}

/// Disconnects a pin, if there is one.
fn set_as_disconnected(steps: &mut Vec<Step>, pin: Option<Pin>)
    ensures
        final(steps)@ == old(steps)@ + disconnect(pin),
{
    if let Some(pin) = pin {
        steps.push(Step::DisconnectPin(pin));
    }
    assert(steps@ =~= old(steps)@ + disconnect(pin));
}

impl<T: Instance, M: Mode> Ospi<T, M> {
    /// The instance that the driver owns.
    pub closed spec fn peri_spec(&self) -> T {
        self.peri
    }

    /// The mode of the driver.
    pub closed spec fn mode_spec(&self) -> M {
        self.mode
    }

    /// The pins of the driver.
    pub closed spec fn pins_spec(&self) -> Pins {
        self.pins
    }

    /// The DMA channel of the driver.
    pub closed spec fn dma_spec(&self) -> Option<DmaChannel> {
        self.dma
    }

    /// The configuration of the driver.
    pub closed spec fn config_spec(&self) -> Config {
        self.config
    }

    /// The number of lines that the driver has.
    pub closed spec fn width_spec(&self) -> OspiWidth {
        self.width
    }

    /// What holds of every driver that a constructor makes, and stays so: it has a DMA channel if
    /// its mode uses one, and as many of its data lines are connected as its width says.
    pub open spec fn wf(&self) -> bool {
        &&& M::uses_dma() ==> self.dma_spec() is Some
        &&& self.pins_spec().cover(self.width_spec().lines())
    }

    #[verifier::type_invariant]
    closed spec fn inv(&self) -> bool {
        M::uses_dma() ==> self.dma is Some
    }

    /// Nothing but the configuration is different.
    pub open spec fn same_hardware(&self, other: &Self) -> bool {
        &&& self.peri_spec() == other.peri_spec()
        &&& self.mode_spec() == other.mode_spec()
        &&& self.pins_spec() == other.pins_spec()
        &&& self.dma_spec() == other.dma_spec()
        &&& self.width_spec() == other.width_spec()
    }

    /// Enter memory mode.
    /// The Input `read_config` is used to configure the read operation in memory mode
    pub fn enable_memory_mapped_mode(
        &mut self,
        read_config: TransferConfig,
        write_config: TransferConfig,
    ) -> (sequence: Sequence)
        ensures
            *final(self) == *old(self),
            sequence.is_new(
                enable_memory_mapped_steps(old(self).width_spec(), read_config, write_config),
                command_outcome(old(self).width_spec(), read_config),
            ),
    {
        let mut steps: Vec<Step> = Vec::new();
        // Use configure command to set read config
        let outcome = self.configure_command(&mut steps, &read_config, None);
        if outcome.is_ok() {
            steps.push(Step::Wait(Condition::Idle));
            steps.push(Step::Modify(Edit::SendInstructionOnce));
            // There are separate registers for write configurations in memory mapped mode
            steps.push(Step::Modify(Edit::WritePhases(write_config)));
            steps.push(Step::Modify(Edit::WriteDummy(write_config.dummy)));
            // Enable memory mapped mode
            steps.push(Step::Modify(Edit::MemoryMapped));
        }
        assert(steps@ =~= enable_memory_mapped_steps(self.width, read_config, write_config));
        Sequence::new(steps, outcome)
    }

    /// Quit from memory mapped mode
    pub fn disable_memory_mapped_mode(&mut self) -> (sequence: Sequence)
        ensures
            *final(self) == *old(self),
            sequence.is_new(disable_memory_mapped_steps(), Ok(())),
    {
        let mut steps: Vec<Step> = Vec::new();
        steps.push(Step::Modify(Edit::Abort));
        // Clear transfer complete flag
        push_clear_complete(&mut steps);
        // Re-enable ospi
        steps.push(Step::Modify(Edit::Enable(true)));
        assert(steps@ =~= disable_memory_mapped_steps());
        Sequence::new(steps, Ok(()))
    }

    /// Starts the peripheral up, once its pins are connected by the steps given.
    fn new_inner(
        steps: Vec<Step>,
        peri: T,
        pins: Pins,
        dma: Option<DmaChannel>,
        mode: M,
        config: Config,
        width: OspiWidth,
        dual_quad: bool,
    ) -> (r: (Self, Sequence))
        requires
            M::uses_dma() ==> dma is Some,
        ensures
            r.0.wf() <==> pins.cover(width.lines()),
            r.0.peri_spec() == peri,
            r.0.mode_spec() == mode,
            r.0.pins_spec() == pins,
            r.0.dma_spec() == dma,
            r.0.config_spec() == config,
            r.0.width_spec() == width,
            r.1.is_new(
                steps@ + start_steps(
                    T::chip_spec(),
                    (Route {
                        index: T::index_spec(),
                        dqs: pins.dqs is Some,
                        width,
                        dual_quad,
                    }),
                    config,
                ),
                Ok(()),
            ),
    {
        let ghost connected = steps@;
        let mut steps: Vec<Step> = steps;
        let chip = T::chip();
        let route = Route { index: T::index(), dqs: pins.dqs.is_some(), width, dual_quad };
        connect_manager(&mut steps, chip, route);
        let ghost managed = manager_steps(chip, route);
        // System configuration
        steps.push(Step::EnableClock);
        steps.push(Step::Wait(Condition::Idle));
        let ghost reset = managed + seq![Step::EnableClock, Step::Wait(Condition::Idle)];
        assert(steps@ =~= connected + reset);
        // Device configuration
        describe_device(&mut steps, chip, &config);
        let ghost described = reset + device_steps(chip, config);
        assert(steps@ =~= connected + described);
        // Wait for busy flag to clear
        steps.push(Step::Wait(Condition::Idle));
        steps.push(Step::Modify(Edit::Prescaler(config.clock_prescaler)));
        steps.push(Step::Modify(Edit::DualMemory(dual_quad)));
        let ghost clocked = described + seq![
            Step::Wait(Condition::Idle),
            Step::Modify(Edit::Prescaler(config.clock_prescaler)),
            Step::Modify(Edit::DualMemory(dual_quad)),
        ];
        assert(steps@ =~= connected + clocked);
        enable(&mut steps, &config);
        assert(steps@ =~= connected + (clocked + enable_steps(config)));
        let driver = Ospi { peri, pins, dma, mode, config, width };
        (driver, Sequence::new(steps, Ok(())))
    }

    /// Configures the peripheral for the requested command: appends the steps for it, and says
    /// whether the command is valid. Whoever sets off a transaction with it appends what follows.
    pub fn configure_command(
        &self,
        steps: &mut Vec<Step>,
        command: &TransferConfig,
        data_len: Option<usize>,
    ) -> (outcome: Result<(), OspiError>)
        requires
            data_len != Some(0usize),
        ensures
            final(steps)@ == old(steps)@ + command_steps(self.width_spec(), *command, data_len),
            outcome == command_outcome(self.width_spec(), *command),
    {
        // Check that transaction doesn't use more than hardware initialized pins
        let lines: u8 = u8::from(self.width);
        if u8::from(command.iwidth) > lines || u8::from(command.adwidth) > lines || u8::from(
            command.abwidth,
        ) > lines || u8::from(command.dwidth) > lines {
            assert(steps@ =~= old(steps)@ + command_steps(self.width, *command, data_len));
            return Err(OspiError::InvalidCommand);
        }
        steps.push(Step::Modify(Edit::Mode(OspiMode::IndirectWrite)));
        let ghost chosen = seq![Step::Modify(Edit::Mode(OspiMode::IndirectWrite))];
        assert(steps@ =~= old(steps)@ + chosen);
        // Configure alternate bytes
        configure_alternate_bytes(steps, command);
        let ghost alternated = chosen + alternate_bytes_steps(*command);
        assert(steps@ =~= old(steps)@ + alternated);
        // Configure dummy cycles, data and instruction/address/data modes
        configure_phases(steps, command, data_len);
        let ghost phased = alternated + phase_steps(*command, data_len);
        assert(steps@ =~= old(steps)@ + phased);
        // Set information required to initiate transaction
        write_instruction(steps, command);
        let ghost instructed = phased + instruction_steps(*command);
        assert(steps@ =~= old(steps)@ + instructed);
        write_address(steps, command);
        assert(steps@ =~= old(steps)@ + (instructed + address_steps(*command)));
        if command.instruction.is_none() && command.address.is_none() {
            // The only single phase transaction supported is instruction only
            Err(OspiError::InvalidCommand)
        } else {
            Ok(())
        }
    }

    /// Function used to control or configure the target device without data transfer
    pub fn blocking_command(&mut self, command: &TransferConfig) -> (sequence: Sequence)
        ensures
            *final(self) == *old(self),
            sequence.is_new(
                blocking_command_steps(old(self).width_spec(), *command),
                command_outcome(old(self).width_spec(), *command),
            ),
    {
        let mut steps: Vec<Step> = Vec::new();
        // Wait for peripheral to be free
        steps.push(Step::Wait(Condition::Idle));
        let outcome = self.configure_command(&mut steps, command, None);
        if outcome.is_ok() {
            // Transaction initiated by setting final configuration, i.e the instruction register
            steps.push(Step::Wait(Condition::Complete));
            push_clear_complete(&mut steps);
        }
        assert(steps@ =~= blocking_command_steps(self.width, *command));
        Sequence::new(steps, outcome)
    }

    /// Blocking read, word by word
    pub fn blocking_read<W: Word>(&mut self, buf: &[W], transaction: TransferConfig) -> (sequence:
        Sequence)
        ensures
            *final(self) == *old(self),
            sequence.is_new(
                blocking_read_steps(old(self).width_spec(), buf@.len() as usize, transaction),
                transfer_outcome(old(self).width_spec(), buf@.len(), transaction),
            ),
    {
        let mut steps: Vec<Step> = Vec::new();
        let len: usize = buf.len();
        if len == 0 {
            return Sequence::new(steps, Err(OspiError::EmptyBuffer));
        }
        // Wait for peripheral to be free
        steps.push(Step::Wait(Condition::Idle));
        // Ensure DMA is not enabled for this transaction
        steps.push(Step::Modify(Edit::Dma(false)));
        let outcome = self.configure_command(&mut steps, &transaction, Some(len));
        if outcome.is_ok() {
            // The transaction begins when the instruction or the address is set
            steps.push(Step::Capture);
            steps.push(Step::Modify(Edit::Mode(OspiMode::IndirectRead)));
            steps.push(Step::Trigger);
            steps.push(Step::Receive);
            steps.push(Step::Wait(Condition::Complete));
            push_clear_complete(&mut steps);
        }
        assert(steps@ =~= blocking_read_steps(self.width, len, transaction));
        Sequence::new(steps, outcome)
    }

    /// Blocking write, word by word
    pub fn blocking_write<W: Word>(&mut self, buf: &[W], transaction: TransferConfig) -> (sequence:
        Sequence)
        ensures
            *final(self) == *old(self),
            sequence.is_new(
                blocking_write_steps(old(self).width_spec(), buf@.len() as usize, transaction),
                transfer_outcome(old(self).width_spec(), buf@.len(), transaction),
            ),
    {
        let mut steps: Vec<Step> = Vec::new();
        let len: usize = buf.len();
        if len == 0 {
            return Sequence::new(steps, Err(OspiError::EmptyBuffer));
        }
        // Wait for peripheral to be free
        steps.push(Step::Wait(Condition::Idle));
        steps.push(Step::Modify(Edit::Dma(false)));
        let outcome = self.configure_command(&mut steps, &transaction, Some(len));
        if outcome.is_ok() {
            steps.push(Step::Modify(Edit::Mode(OspiMode::IndirectWrite)));
            steps.push(Step::Send);
            steps.push(Step::Wait(Condition::Complete));
            push_clear_complete(&mut steps);
        }
        assert(steps@ =~= blocking_write_steps(self.width, len, transaction));
        Sequence::new(steps, outcome)
    }

    /// Set new bus configuration
    pub fn set_config(&mut self, config: &Config) -> (sequence: Sequence)
        ensures
            final(self).same_hardware(old(self)),
            old(self).wf() ==> final(self).wf(),
            final(self).config_spec() == *config,
            sequence.is_new(set_config_steps(T::chip_spec(), *config), Ok(())),
    {
        proof {
            use_type_invariant(&*self);
        }
        let mut steps: Vec<Step> = Vec::new();
        let chip = T::chip();
        // Wait for busy flag to clear
        steps.push(Step::Wait(Condition::Idle));
        // Disable DMA channel while configuring the peripheral
        steps.push(Step::Modify(Edit::Dma(false)));
        // Device configuration
        describe_device(&mut steps, chip, config);
        // Wait for busy flag to clear
        steps.push(Step::Wait(Condition::Idle));
        steps.push(Step::Modify(Edit::Prescaler(config.clock_prescaler)));
        enable(&mut steps, config);
        assert(steps@ =~= set_config_steps(chip, *config));
        self.config = *config;
        Sequence::new(steps, Ok(()))
    }

    /// Get current configuration
    pub fn get_config(&self) -> (config: Config)
        ensures
            config == self.config_spec(),
    {
        self.config
    }

    /// Gives the driver up: disconnects its pins and disables the clock of the peripheral.
    pub fn release(self) -> (sequence: Sequence)
        ensures
            sequence.is_new(release_steps(self.pins_spec()), Ok(())),
    {
        let mut steps: Vec<Step> = Vec::new();
        set_as_disconnected(&mut steps, self.pins.sck);
        set_as_disconnected(&mut steps, self.pins.d0);
        set_as_disconnected(&mut steps, self.pins.d1);
        set_as_disconnected(&mut steps, self.pins.d2);
        set_as_disconnected(&mut steps, self.pins.d3);
        set_as_disconnected(&mut steps, self.pins.d4);
        set_as_disconnected(&mut steps, self.pins.d5);
        set_as_disconnected(&mut steps, self.pins.d6);
        set_as_disconnected(&mut steps, self.pins.d7);
        set_as_disconnected(&mut steps, self.pins.nss);
        set_as_disconnected(&mut steps, self.pins.dqs);
        steps.push(Step::DisableClock);
        assert(steps@ =~= release_steps(self.pins));
        Sequence::new(steps, Ok(()))
    }
}

impl<T: Instance> Ospi<T, Blocking> {
    /// Create new blocking OSPI driver for a single spi external chip
    pub fn new_blocking_singlespi(
        peri: T,
        sck: Pin,
        d0: Pin,
        d1: Pin,
        nss: Pin,
        config: Config,
    ) -> (r: (Self, Sequence))
        ensures
            r.0.wf(),
            r.0.peri_spec() == peri,
            r.0.pins_spec() == (Pins {
                sck: Some(sck),
                d0: Some(d0),
                d1: Some(d1),
                d2: None,
                d3: None,
                d4: None,
                d5: None,
                d6: None,
                d7: None,
                nss: Some(nss),
                dqs: None,
            }),
            r.0.dma_spec() == None::<DmaChannel>,
            r.0.config_spec() == config,
            r.0.width_spec() == OspiWidth::SING,
            r.1.steps_spec() == connection_steps(r.0.pins_spec(), true) + start_steps(
                T::chip_spec(),
                (Route {
                    index: T::index_spec(),
                    dqs: false,
                    width: OspiWidth::SING,
                    dual_quad: false,
                }),
                config,
            ),
            r.1.is_new(
                seq![
                    Step::ConnectPin(d0, output()),
                    Step::ConnectPin(d1, input()),
                    Step::ConnectPin(sck, output()),
                    Step::ConnectPin(nss, select()),
                ] + start_steps(
                    T::chip_spec(),
                    (Route {
                        index: T::index_spec(),
                        dqs: false,
                        width: OspiWidth::SING,
                        dual_quad: false,
                    }),
                    config,
                ),
                Ok(()),
            ),
    {
        let mut steps: Vec<Step> = Vec::new();
        let line0 = new_output(&mut steps, d0);
        let line1 = new_input(&mut steps, d1);
        let clock = new_output(&mut steps, sck);
        let chip_select = new_select(&mut steps, nss);
        let pins = Pins {
            sck: clock,
            d0: line0,
            d1: line1,
            d2: None,
            d3: None,
            d4: None,
            d5: None,
            d6: None,
            d7: None,
            nss: chip_select,
            dqs: None,
        };
        assert(steps@ =~= seq![
            Step::ConnectPin(d0, output()),
            Step::ConnectPin(d1, input()),
            Step::ConnectPin(sck, output()),
            Step::ConnectPin(nss, select()),
        ]);
        assert(steps@ =~= connection_steps(pins, true));
        Self::new_inner(
            steps,
            peri,
            pins,
            None,
            Blocking,
            config,
            OspiWidth::SING,
            false,
        )
    }

    /// Create new blocking OSPI driver for a dualspi external chip
    pub fn new_blocking_dualspi(
        peri: T,
        sck: Pin,
        d0: Pin,
        d1: Pin,
        nss: Pin,
        config: Config,
    ) -> (r: (Self, Sequence))
        ensures
            r.0.wf(),
            r.0.peri_spec() == peri,
            r.0.pins_spec() == (Pins {
                sck: Some(sck),
                d0: Some(d0),
                d1: Some(d1),
                d2: None,
                d3: None,
                d4: None,
                d5: None,
                d6: None,
                d7: None,
                nss: Some(nss),
                dqs: None,
            }),
            r.0.dma_spec() == None::<DmaChannel>,
            r.0.config_spec() == config,
            r.0.width_spec() == OspiWidth::DUAL,
            r.1.steps_spec() == connection_steps(r.0.pins_spec(), false) + start_steps(
                T::chip_spec(),
                (Route {
                    index: T::index_spec(),
                    dqs: false,
                    width: OspiWidth::DUAL,
                    dual_quad: false,
                }),
                config,
            ),
            r.1.is_new(
                seq![
                    Step::ConnectPin(d0, output()),
                    Step::ConnectPin(d1, output()),
                    Step::ConnectPin(sck, output()),
                    Step::ConnectPin(nss, select()),
                ] + start_steps(
                    T::chip_spec(),
                    (Route {
                        index: T::index_spec(),
                        dqs: false,
                        width: OspiWidth::DUAL,
                        dual_quad: false,
                    }),
                    config,
                ),
                Ok(()),
            ),
    {
        let mut steps: Vec<Step> = Vec::new();
        let line0 = new_output(&mut steps, d0);
        let line1 = new_output(&mut steps, d1);
        let clock = new_output(&mut steps, sck);
        let chip_select = new_select(&mut steps, nss);
        let pins = Pins {
            sck: clock,
            d0: line0,
            d1: line1,
            d2: None,
            d3: None,
            d4: None,
            d5: None,
            d6: None,
            d7: None,
            nss: chip_select,
            dqs: None,
        };
        assert(steps@ =~= seq![
            Step::ConnectPin(d0, output()),
            Step::ConnectPin(d1, output()),
            Step::ConnectPin(sck, output()),
            Step::ConnectPin(nss, select()),
        ]);
        assert(steps@ =~= connection_steps(pins, false));
        Self::new_inner(
            steps,
            peri,
            pins,
            None,
            Blocking,
            config,
            OspiWidth::DUAL,
            false,
        )
    }

    /// Create new blocking OSPI driver for a quadspi external chip
    pub fn new_blocking_quadspi(
        peri: T,
        sck: Pin,
        d0: Pin,
        d1: Pin,
        d2: Pin,
        d3: Pin,
        nss: Pin,
        config: Config,
    ) -> (r: (Self, Sequence))
        ensures
            r.0.wf(),
            r.0.peri_spec() == peri,
            r.0.pins_spec() == (Pins {
                sck: Some(sck),
                d0: Some(d0),
                d1: Some(d1),
                d2: Some(d2),
                d3: Some(d3),
                d4: None,
                d5: None,
                d6: None,
                d7: None,
                nss: Some(nss),
                dqs: None,
            }),
            r.0.dma_spec() == None::<DmaChannel>,
            r.0.config_spec() == config,
            r.0.width_spec() == OspiWidth::QUAD,
            r.1.steps_spec() == connection_steps(r.0.pins_spec(), false) + start_steps(
                T::chip_spec(),
                (Route {
                    index: T::index_spec(),
                    dqs: false,
                    width: OspiWidth::QUAD,
                    dual_quad: false,
                }),
                config,
            ),
            r.1.is_new(
                seq![
                    Step::ConnectPin(d0, output()),
                    Step::ConnectPin(d1, output()),
                    Step::ConnectPin(d2, output()),
                    Step::ConnectPin(d3, output()),
                    Step::ConnectPin(sck, output()),
                    Step::ConnectPin(nss, select()),
                ] + start_steps(
                    T::chip_spec(),
                    (Route {
                        index: T::index_spec(),
                        dqs: false,
                        width: OspiWidth::QUAD,
                        dual_quad: false,
                    }),
                    config,
                ),
                Ok(()),
            ),
    {
        let mut steps: Vec<Step> = Vec::new();
        let line0 = new_output(&mut steps, d0);
        let line1 = new_output(&mut steps, d1);
        let line2 = new_output(&mut steps, d2);
        let line3 = new_output(&mut steps, d3);
        let clock = new_output(&mut steps, sck);
        let chip_select = new_select(&mut steps, nss);
        let pins = Pins {
            sck: clock,
            d0: line0,
            d1: line1,
            d2: line2,
            d3: line3,
            d4: None,
            d5: None,
            d6: None,
            d7: None,
            nss: chip_select,
            dqs: None,
        };
        assert(steps@ =~= seq![
            Step::ConnectPin(d0, output()),
            Step::ConnectPin(d1, output()),
            Step::ConnectPin(d2, output()),
            Step::ConnectPin(d3, output()),
            Step::ConnectPin(sck, output()),
            Step::ConnectPin(nss, select()),
        ]);
        assert(steps@ =~= connection_steps(pins, false));
        Self::new_inner(
            steps,
            peri,
            pins,
            None,
            Blocking,
            config,
            OspiWidth::QUAD,
            false,
        )
    }

    /// Create new blocking OSPI driver for two quadspi external chips
    pub fn new_blocking_dualquadspi(
        peri: T,
        sck: Pin,
        d0: Pin,
        d1: Pin,
        d2: Pin,
        d3: Pin,
        d4: Pin,
        d5: Pin,
        d6: Pin,
        d7: Pin,
        nss: Pin,
        config: Config,
    ) -> (r: (Self, Sequence))
        ensures
            r.0.wf(),
            r.0.peri_spec() == peri,
            r.0.pins_spec() == (Pins {
                sck: Some(sck),
                d0: Some(d0),
                d1: Some(d1),
                d2: Some(d2),
                d3: Some(d3),
                d4: Some(d4),
                d5: Some(d5),
                d6: Some(d6),
                d7: Some(d7),
                nss: Some(nss),
                dqs: None,
            }),
            r.0.dma_spec() == None::<DmaChannel>,
            r.0.config_spec() == config,
            r.0.width_spec() == OspiWidth::QUAD,
            r.1.steps_spec() == connection_steps(r.0.pins_spec(), false) + start_steps(
                T::chip_spec(),
                (Route {
                    index: T::index_spec(),
                    dqs: false,
                    width: OspiWidth::QUAD,
                    dual_quad: true,
                }),
                config,
            ),
            r.1.is_new(
                seq![
                    Step::ConnectPin(d0, output()),
                    Step::ConnectPin(d1, output()),
                    Step::ConnectPin(d2, output()),
                    Step::ConnectPin(d3, output()),
                    Step::ConnectPin(d4, output()),
                    Step::ConnectPin(d5, output()),
                    Step::ConnectPin(d6, output()),
                    Step::ConnectPin(d7, output()),
                    Step::ConnectPin(sck, output()),
                    Step::ConnectPin(nss, select()),
                ] + start_steps(
                    T::chip_spec(),
                    (Route {
                        index: T::index_spec(),
                        dqs: false,
                        width: OspiWidth::QUAD,
                        dual_quad: true,
                    }),
                    config,
                ),
                Ok(()),
            ),
    {
        let mut steps: Vec<Step> = Vec::new();
        let line0 = new_output(&mut steps, d0);
        let line1 = new_output(&mut steps, d1);
        let line2 = new_output(&mut steps, d2);
        let line3 = new_output(&mut steps, d3);
        let line4 = new_output(&mut steps, d4);
        let line5 = new_output(&mut steps, d5);
        let line6 = new_output(&mut steps, d6);
        let line7 = new_output(&mut steps, d7);
        let clock = new_output(&mut steps, sck);
        let chip_select = new_select(&mut steps, nss);
        let pins = Pins {
            sck: clock,
            d0: line0,
            d1: line1,
            d2: line2,
            d3: line3,
            d4: line4,
            d5: line5,
            d6: line6,
            d7: line7,
            nss: chip_select,
            dqs: None,
        };
        assert(steps@ =~= seq![
            Step::ConnectPin(d0, output()),
            Step::ConnectPin(d1, output()),
            Step::ConnectPin(d2, output()),
            Step::ConnectPin(d3, output()),
            Step::ConnectPin(d4, output()),
            Step::ConnectPin(d5, output()),
            Step::ConnectPin(d6, output()),
            Step::ConnectPin(d7, output()),
            Step::ConnectPin(sck, output()),
            Step::ConnectPin(nss, select()),
        ]);
        assert(steps@ =~= connection_steps(pins, false));
        Self::new_inner(
            steps,
            peri,
            pins,
            None,
            Blocking,
            config,
            OspiWidth::QUAD,
            true,
        )
    }

    /// Create new blocking OSPI driver for octospi external chips
    pub fn new_blocking_octospi(
        peri: T,
        sck: Pin,
        d0: Pin,
        d1: Pin,
        d2: Pin,
        d3: Pin,
        d4: Pin,
        d5: Pin,
        d6: Pin,
        d7: Pin,
        nss: Pin,
        config: Config,
    ) -> (r: (Self, Sequence))
        ensures
            r.0.wf(),
            r.0.peri_spec() == peri,
            r.0.pins_spec() == (Pins {
                sck: Some(sck),
                d0: Some(d0),
                d1: Some(d1),
                d2: Some(d2),
                d3: Some(d3),
                d4: Some(d4),
                d5: Some(d5),
                d6: Some(d6),
                d7: Some(d7),
                nss: Some(nss),
                dqs: None,
            }),
            r.0.dma_spec() == None::<DmaChannel>,
            r.0.config_spec() == config,
            r.0.width_spec() == OspiWidth::OCTO,
            r.1.steps_spec() == connection_steps(r.0.pins_spec(), false) + start_steps(
                T::chip_spec(),
                (Route {
                    index: T::index_spec(),
                    dqs: false,
                    width: OspiWidth::OCTO,
                    dual_quad: false,
                }),
                config,
            ),
            r.1.is_new(
                seq![
                    Step::ConnectPin(d0, output()),
                    Step::ConnectPin(d1, output()),
                    Step::ConnectPin(d2, output()),
                    Step::ConnectPin(d3, output()),
                    Step::ConnectPin(d4, output()),
                    Step::ConnectPin(d5, output()),
                    Step::ConnectPin(d6, output()),
                    Step::ConnectPin(d7, output()),
                    Step::ConnectPin(sck, output()),
                    Step::ConnectPin(nss, select()),
                ] + start_steps(
                    T::chip_spec(),
                    (Route {
                        index: T::index_spec(),
                        dqs: false,
                        width: OspiWidth::OCTO,
                        dual_quad: false,
                    }),
                    config,
                ),
                Ok(()),
            ),
    {
        let mut steps: Vec<Step> = Vec::new();
        let line0 = new_output(&mut steps, d0);
        let line1 = new_output(&mut steps, d1);
        let line2 = new_output(&mut steps, d2);
        let line3 = new_output(&mut steps, d3);
        let line4 = new_output(&mut steps, d4);
        let line5 = new_output(&mut steps, d5);
        let line6 = new_output(&mut steps, d6);
        let line7 = new_output(&mut steps, d7);
        let clock = new_output(&mut steps, sck);
        let chip_select = new_select(&mut steps, nss);
        let pins = Pins {
            sck: clock,
            d0: line0,
            d1: line1,
            d2: line2,
            d3: line3,
            d4: line4,
            d5: line5,
            d6: line6,
            d7: line7,
            nss: chip_select,
            dqs: None,
        };
        assert(steps@ =~= seq![
            Step::ConnectPin(d0, output()),
            Step::ConnectPin(d1, output()),
            Step::ConnectPin(d2, output()),
            Step::ConnectPin(d3, output()),
            Step::ConnectPin(d4, output()),
            Step::ConnectPin(d5, output()),
            Step::ConnectPin(d6, output()),
            Step::ConnectPin(d7, output()),
            Step::ConnectPin(sck, output()),
            Step::ConnectPin(nss, select()),
        ]);
        assert(steps@ =~= connection_steps(pins, false));
        Self::new_inner(
            steps,
            peri,
            pins,
            None,
            Blocking,
            config,
            OspiWidth::OCTO,
            false,
        )
    }
}

impl<T: Instance> Ospi<T, Async> {
    /// Create new OSPI driver that can use DMA for a single spi external chip
    pub fn new_singlespi(
        peri: T,
        sck: Pin,
        d0: Pin,
        d1: Pin,
        nss: Pin,
        dma: DmaChannel,
        config: Config,
    ) -> (r: (Self, Sequence))
        ensures
            r.0.wf(),
            r.0.peri_spec() == peri,
            r.0.pins_spec() == (Pins {
                sck: Some(sck),
                d0: Some(d0),
                d1: Some(d1),
                d2: None,
                d3: None,
                d4: None,
                d5: None,
                d6: None,
                d7: None,
                nss: Some(nss),
                dqs: None,
            }),
            r.0.dma_spec() == Some(dma),
            r.0.config_spec() == config,
            r.0.width_spec() == OspiWidth::SING,
            r.1.steps_spec() == connection_steps(r.0.pins_spec(), true) + start_steps(
                T::chip_spec(),
                (Route {
                    index: T::index_spec(),
                    dqs: false,
                    width: OspiWidth::SING,
                    dual_quad: false,
                }),
                config,
            ),
            r.1.is_new(
                seq![
                    Step::ConnectPin(d0, output()),
                    Step::ConnectPin(d1, input()),
                    Step::ConnectPin(sck, output()),
                    Step::ConnectPin(nss, select()),
                ] + start_steps(
                    T::chip_spec(),
                    (Route {
                        index: T::index_spec(),
                        dqs: false,
                        width: OspiWidth::SING,
                        dual_quad: false,
                    }),
                    config,
                ),
                Ok(()),
            ),
    {
        let mut steps: Vec<Step> = Vec::new();
        let line0 = new_output(&mut steps, d0);
        let line1 = new_input(&mut steps, d1);
        let clock = new_output(&mut steps, sck);
        let chip_select = new_select(&mut steps, nss);
        let pins = Pins {
            sck: clock,
            d0: line0,
            d1: line1,
            d2: None,
            d3: None,
            d4: None,
            d5: None,
            d6: None,
            d7: None,
            nss: chip_select,
            dqs: None,
        };
        assert(steps@ =~= seq![
            Step::ConnectPin(d0, output()),
            Step::ConnectPin(d1, input()),
            Step::ConnectPin(sck, output()),
            Step::ConnectPin(nss, select()),
        ]);
        assert(steps@ =~= connection_steps(pins, true));
        Self::new_inner(
            steps,
            peri,
            pins,
            Some(dma),
            Async,
            config,
            OspiWidth::SING,
            false,
        )
    }

    /// Create new OSPI driver that can use DMA for a dualspi external chip
    pub fn new_dualspi(
        peri: T,
        sck: Pin,
        d0: Pin,
        d1: Pin,
        nss: Pin,
        dma: DmaChannel,
        config: Config,
    ) -> (r: (Self, Sequence))
        ensures
            r.0.wf(),
            r.0.peri_spec() == peri,
            r.0.pins_spec() == (Pins {
                sck: Some(sck),
                d0: Some(d0),
                d1: Some(d1),
                d2: None,
                d3: None,
                d4: None,
                d5: None,
                d6: None,
                d7: None,
                nss: Some(nss),
                dqs: None,
            }),
            r.0.dma_spec() == Some(dma),
            r.0.config_spec() == config,
            r.0.width_spec() == OspiWidth::DUAL,
            r.1.steps_spec() == connection_steps(r.0.pins_spec(), false) + start_steps(
                T::chip_spec(),
                (Route {
                    index: T::index_spec(),
                    dqs: false,
                    width: OspiWidth::DUAL,
                    dual_quad: false,
                }),
                config,
            ),
            r.1.is_new(
                seq![
                    Step::ConnectPin(d0, output()),
                    Step::ConnectPin(d1, output()),
                    Step::ConnectPin(sck, output()),
                    Step::ConnectPin(nss, select()),
                ] + start_steps(
                    T::chip_spec(),
                    (Route {
                        index: T::index_spec(),
                        dqs: false,
                        width: OspiWidth::DUAL,
                        dual_quad: false,
                    }),
                    config,
                ),
                Ok(()),
            ),
    {
        let mut steps: Vec<Step> = Vec::new();
        let line0 = new_output(&mut steps, d0);
        let line1 = new_output(&mut steps, d1);
        let clock = new_output(&mut steps, sck);
        let chip_select = new_select(&mut steps, nss);
        let pins = Pins {
            sck: clock,
            d0: line0,
            d1: line1,
            d2: None,
            d3: None,
            d4: None,
            d5: None,
            d6: None,
            d7: None,
            nss: chip_select,
            dqs: None,
        };
        assert(steps@ =~= seq![
            Step::ConnectPin(d0, output()),
            Step::ConnectPin(d1, output()),
            Step::ConnectPin(sck, output()),
            Step::ConnectPin(nss, select()),
        ]);
        assert(steps@ =~= connection_steps(pins, false));
        Self::new_inner(
            steps,
            peri,
            pins,
            Some(dma),
            Async,
            config,
            OspiWidth::DUAL,
            false,
        )
    }

    /// Create new OSPI driver that can use DMA for a quadspi external chip
    pub fn new_quadspi(
        peri: T,
        sck: Pin,
        d0: Pin,
        d1: Pin,
        d2: Pin,
        d3: Pin,
        nss: Pin,
        dma: DmaChannel,
        config: Config,
    ) -> (r: (Self, Sequence))
        ensures
            r.0.wf(),
            r.0.peri_spec() == peri,
            r.0.pins_spec() == (Pins {
                sck: Some(sck),
                d0: Some(d0),
                d1: Some(d1),
                d2: Some(d2),
                d3: Some(d3),
                d4: None,
                d5: None,
                d6: None,
                d7: None,
                nss: Some(nss),
                dqs: None,
            }),
            r.0.dma_spec() == Some(dma),
            r.0.config_spec() == config,
            r.0.width_spec() == OspiWidth::QUAD,
            r.1.steps_spec() == connection_steps(r.0.pins_spec(), false) + start_steps(
                T::chip_spec(),
                (Route {
                    index: T::index_spec(),
                    dqs: false,
                    width: OspiWidth::QUAD,
                    dual_quad: false,
                }),
                config,
            ),
            r.1.is_new(
                seq![
                    Step::ConnectPin(d0, output()),
                    Step::ConnectPin(d1, output()),
                    Step::ConnectPin(d2, output()),
                    Step::ConnectPin(d3, output()),
                    Step::ConnectPin(sck, output()),
                    Step::ConnectPin(nss, select()),
                ] + start_steps(
                    T::chip_spec(),
                    (Route {
                        index: T::index_spec(),
                        dqs: false,
                        width: OspiWidth::QUAD,
                        dual_quad: false,
                    }),
                    config,
                ),
                Ok(()),
            ),
    {
        let mut steps: Vec<Step> = Vec::new();
        let line0 = new_output(&mut steps, d0);
        let line1 = new_output(&mut steps, d1);
        let line2 = new_output(&mut steps, d2);
        let line3 = new_output(&mut steps, d3);
        let clock = new_output(&mut steps, sck);
        let chip_select = new_select(&mut steps, nss);
        let pins = Pins {
            sck: clock,
            d0: line0,
            d1: line1,
            d2: line2,
            d3: line3,
            d4: None,
            d5: None,
            d6: None,
            d7: None,
            nss: chip_select,
            dqs: None,
        };
        assert(steps@ =~= seq![
            Step::ConnectPin(d0, output()),
            Step::ConnectPin(d1, output()),
            Step::ConnectPin(d2, output()),
            Step::ConnectPin(d3, output()),
            Step::ConnectPin(sck, output()),
            Step::ConnectPin(nss, select()),
        ]);
        assert(steps@ =~= connection_steps(pins, false));
        Self::new_inner(
            steps,
            peri,
            pins,
            Some(dma),
            Async,
            config,
            OspiWidth::QUAD,
            false,
        )
    }

    /// Create new OSPI driver that can use DMA for two quadspi external chips
    pub fn new_dualquadspi(
        peri: T,
        sck: Pin,
        d0: Pin,
        d1: Pin,
        d2: Pin,
        d3: Pin,
        d4: Pin,
        d5: Pin,
        d6: Pin,
        d7: Pin,
        nss: Pin,
        dma: DmaChannel,
        config: Config,
    ) -> (r: (Self, Sequence))
        ensures
            r.0.wf(),
            r.0.peri_spec() == peri,
            r.0.pins_spec() == (Pins {
                sck: Some(sck),
                d0: Some(d0),
                d1: Some(d1),
                d2: Some(d2),
                d3: Some(d3),
                d4: Some(d4),
                d5: Some(d5),
                d6: Some(d6),
                d7: Some(d7),
                nss: Some(nss),
                dqs: None,
            }),
            r.0.dma_spec() == Some(dma),
            r.0.config_spec() == config,
            r.0.width_spec() == OspiWidth::QUAD,
            r.1.steps_spec() == connection_steps(r.0.pins_spec(), false) + start_steps(
                T::chip_spec(),
                (Route {
                    index: T::index_spec(),
                    dqs: false,
                    width: OspiWidth::QUAD,
                    dual_quad: true,
                }),
                config,
            ),
            r.1.is_new(
                seq![
                    Step::ConnectPin(d0, output()),
                    Step::ConnectPin(d1, output()),
                    Step::ConnectPin(d2, output()),
                    Step::ConnectPin(d3, output()),
                    Step::ConnectPin(d4, output()),
                    Step::ConnectPin(d5, output()),
                    Step::ConnectPin(d6, output()),
                    Step::ConnectPin(d7, output()),
                    Step::ConnectPin(sck, output()),
                    Step::ConnectPin(nss, select()),
                ] + start_steps(
                    T::chip_spec(),
                    (Route {
                        index: T::index_spec(),
                        dqs: false,
                        width: OspiWidth::QUAD,
                        dual_quad: true,
                    }),
                    config,
                ),
                Ok(()),
            ),
    {
        let mut steps: Vec<Step> = Vec::new();
        let line0 = new_output(&mut steps, d0);
        let line1 = new_output(&mut steps, d1);
        let line2 = new_output(&mut steps, d2);
        let line3 = new_output(&mut steps, d3);
        let line4 = new_output(&mut steps, d4);
        let line5 = new_output(&mut steps, d5);
        let line6 = new_output(&mut steps, d6);
        let line7 = new_output(&mut steps, d7);
        let clock = new_output(&mut steps, sck);
        let chip_select = new_select(&mut steps, nss);
        let pins = Pins {
            sck: clock,
            d0: line0,
            d1: line1,
            d2: line2,
            d3: line3,
            d4: line4,
            d5: line5,
            d6: line6,
            d7: line7,
            nss: chip_select,
            dqs: None,
        };
        assert(steps@ =~= seq![
            Step::ConnectPin(d0, output()),
            Step::ConnectPin(d1, output()),
            Step::ConnectPin(d2, output()),
            Step::ConnectPin(d3, output()),
            Step::ConnectPin(d4, output()),
            Step::ConnectPin(d5, output()),
            Step::ConnectPin(d6, output()),
            Step::ConnectPin(d7, output()),
            Step::ConnectPin(sck, output()),
            Step::ConnectPin(nss, select()),
        ]);
        assert(steps@ =~= connection_steps(pins, false));
        Self::new_inner(
            steps,
            peri,
            pins,
            Some(dma),
            Async,
            config,
            OspiWidth::QUAD,
            true,
        )
    }

    /// Create new OSPI driver that can use DMA for octospi external chips
    pub fn new_octospi(
        peri: T,
        sck: Pin,
        d0: Pin,
        d1: Pin,
        d2: Pin,
        d3: Pin,
        d4: Pin,
        d5: Pin,
        d6: Pin,
        d7: Pin,
        nss: Pin,
        dma: DmaChannel,
        config: Config,
    ) -> (r: (Self, Sequence))
        ensures
            r.0.wf(),
            r.0.peri_spec() == peri,
            r.0.pins_spec() == (Pins {
                sck: Some(sck),
                d0: Some(d0),
                d1: Some(d1),
                d2: Some(d2),
                d3: Some(d3),
                d4: Some(d4),
                d5: Some(d5),
                d6: Some(d6),
                d7: Some(d7),
                nss: Some(nss),
                dqs: None,
            }),
            r.0.dma_spec() == Some(dma),
            r.0.config_spec() == config,
            r.0.width_spec() == OspiWidth::OCTO,
            r.1.steps_spec() == connection_steps(r.0.pins_spec(), false) + start_steps(
                T::chip_spec(),
                (Route {
                    index: T::index_spec(),
                    dqs: false,
                    width: OspiWidth::OCTO,
                    dual_quad: false,
                }),
                config,
            ),
            r.1.is_new(
                seq![
                    Step::ConnectPin(d0, output()),
                    Step::ConnectPin(d1, output()),
                    Step::ConnectPin(d2, output()),
                    Step::ConnectPin(d3, output()),
                    Step::ConnectPin(d4, output()),
                    Step::ConnectPin(d5, output()),
                    Step::ConnectPin(d6, output()),
                    Step::ConnectPin(d7, output()),
                    Step::ConnectPin(sck, output()),
                    Step::ConnectPin(nss, select()),
                ] + start_steps(
                    T::chip_spec(),
                    (Route {
                        index: T::index_spec(),
                        dqs: false,
                        width: OspiWidth::OCTO,
                        dual_quad: false,
                    }),
                    config,
                ),
                Ok(()),
            ),
    {
        let mut steps: Vec<Step> = Vec::new();
        let line0 = new_output(&mut steps, d0);
        let line1 = new_output(&mut steps, d1);
        let line2 = new_output(&mut steps, d2);
        let line3 = new_output(&mut steps, d3);
        let line4 = new_output(&mut steps, d4);
        let line5 = new_output(&mut steps, d5);
        let line6 = new_output(&mut steps, d6);
        let line7 = new_output(&mut steps, d7);
        let clock = new_output(&mut steps, sck);
        let chip_select = new_select(&mut steps, nss);
        let pins = Pins {
            sck: clock,
            d0: line0,
            d1: line1,
            d2: line2,
            d3: line3,
            d4: line4,
            d5: line5,
            d6: line6,
            d7: line7,
            nss: chip_select,
            dqs: None,
        };
        assert(steps@ =~= seq![
            Step::ConnectPin(d0, output()),
            Step::ConnectPin(d1, output()),
            Step::ConnectPin(d2, output()),
            Step::ConnectPin(d3, output()),
            Step::ConnectPin(d4, output()),
            Step::ConnectPin(d5, output()),
            Step::ConnectPin(d6, output()),
            Step::ConnectPin(d7, output()),
            Step::ConnectPin(sck, output()),
            Step::ConnectPin(nss, select()),
        ]);
        assert(steps@ =~= connection_steps(pins, false));
        Self::new_inner(
            steps,
            peri,
            pins,
            Some(dma),
            Async,
            config,
            OspiWidth::OCTO,
            false,
        )
    }

    /// The steps of a read by DMA.
    fn read_by_dma(&self, len: usize, transaction: TransferConfig, completion: Completion) -> (
    sequence: Sequence)
        ensures
            self.dma_spec() is Some,
            sequence.is_new(
                dma_read_steps(
                    self.width_spec(),
                    self.dma_spec()->0,
                    completion,
                    len,
                    transaction,
                ),
                transfer_outcome(self.width_spec(), len as nat, transaction),
            ),
    {
        proof {
            use_type_invariant(self);
        }
        let mut steps: Vec<Step> = Vec::new();
        if len == 0 {
            return Sequence::new(steps, Err(OspiError::EmptyBuffer));
        }
        // Wait for peripheral to be free
        steps.push(Step::Wait(Condition::Idle));
        let outcome = self.configure_command(&mut steps, &transaction, Some(len));
        let channel = self.dma.unwrap();
        if outcome.is_ok() {
            // The transaction begins when the instruction or the address is set
            steps.push(Step::Capture);
            steps.push(Step::Modify(Edit::Mode(OspiMode::IndirectRead)));
            steps.push(Step::Trigger);
            steps.push(Step::StartDma(channel, Direction::Receive));
            steps.push(Step::Modify(Edit::Dma(true)));
            steps.push(Step::FinishDma(completion));
            finish_dma(&mut steps);
        }
        assert(steps@ =~= dma_read_steps(self.width, channel, completion, len, transaction));
        Sequence::new(steps, outcome)
    }

    /// The steps of a write by DMA.
    fn write_by_dma(&self, len: usize, transaction: TransferConfig, completion: Completion) -> (
    sequence: Sequence)
        ensures
            self.dma_spec() is Some,
            sequence.is_new(
                dma_write_steps(
                    self.width_spec(),
                    self.dma_spec()->0,
                    completion,
                    len,
                    transaction,
                ),
                transfer_outcome(self.width_spec(), len as nat, transaction),
            ),
    {
        proof {
            use_type_invariant(self);
        }
        let mut steps: Vec<Step> = Vec::new();
        if len == 0 {
            return Sequence::new(steps, Err(OspiError::EmptyBuffer));
        }
        // Wait for peripheral to be free
        steps.push(Step::Wait(Condition::Idle));
        let outcome = self.configure_command(&mut steps, &transaction, Some(len));
        let channel = self.dma.unwrap();
        if outcome.is_ok() {
            steps.push(Step::Modify(Edit::Mode(OspiMode::IndirectWrite)));
            steps.push(Step::StartDma(channel, Direction::Send));
            steps.push(Step::Modify(Edit::Dma(true)));
            steps.push(Step::FinishDma(completion));
            finish_dma(&mut steps);
        }
        assert(steps@ =~= dma_write_steps(self.width, channel, completion, len, transaction));
        Sequence::new(steps, outcome)
    }

    /// Blocking read with DMA transfer
    pub fn blocking_read_dma<W: Word>(&mut self, buf: &[W], transaction: TransferConfig) -> (
    sequence: Sequence)
        ensures
            *final(self) == *old(self),
            old(self).dma_spec() is Some,
            sequence.is_new(
                dma_read_steps(
                    old(self).width_spec(),
                    old(self).dma_spec()->0,
                    Completion::Blocking,
                    buf@.len() as usize,
                    transaction,
                ),
                transfer_outcome(old(self).width_spec(), buf@.len(), transaction),
            ),
    {
        self.read_by_dma(buf.len(), transaction, Completion::Blocking)
    }

    /// Blocking write with DMA transfer
    pub fn blocking_write_dma<W: Word>(&mut self, buf: &[W], transaction: TransferConfig) -> (
    sequence: Sequence)
        ensures
            *final(self) == *old(self),
            old(self).dma_spec() is Some,
            sequence.is_new(
                dma_write_steps(
                    old(self).width_spec(),
                    old(self).dma_spec()->0,
                    Completion::Blocking,
                    buf@.len() as usize,
                    transaction,
                ),
                transfer_outcome(old(self).width_spec(), buf@.len(), transaction),
            ),
    {
        self.write_by_dma(buf.len(), transaction, Completion::Blocking)
    }

    /// Asynchronous read from external device
    pub fn read<W: Word>(&mut self, buf: &[W], transaction: TransferConfig) -> (sequence: Sequence)
        ensures
            *final(self) == *old(self),
            old(self).dma_spec() is Some,
            sequence.is_new(
                dma_read_steps(
                    old(self).width_spec(),
                    old(self).dma_spec()->0,
                    Completion::Async,
                    buf@.len() as usize,
                    transaction,
                ),
                transfer_outcome(old(self).width_spec(), buf@.len(), transaction),
            ),
    {
        self.read_by_dma(buf.len(), transaction, Completion::Async)
    }

    /// Asynchronous write to external device
    pub fn write<W: Word>(&mut self, buf: &[W], transaction: TransferConfig) -> (sequence: Sequence)
        ensures
            *final(self) == *old(self),
            old(self).dma_spec() is Some,
            sequence.is_new(
                dma_write_steps(
                    old(self).width_spec(),
                    old(self).dma_spec()->0,
                    Completion::Async,
                    buf@.len() as usize,
                    transaction,
                ),
                transfer_outcome(old(self).width_spec(), buf@.len(), transaction),
            ),
    {
        self.write_by_dma(buf.len(), transaction, Completion::Async)
    }
}

} // verus!
