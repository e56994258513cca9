//! Operations of the driver, carried out on a simulated device.

use ospi::config::{Config, OspiError, TransferConfig};
use ospi::edit::{Edit, Route};
use ospi::enums::{
    AddressSize, ChipSelectHighTime, DummyCycles, FIFOThresholdLevel, MemorySize, MemoryType,
    OspiMode, OspiWidth, WrapSize,
};
use ospi::gpio::{AfType, DmaChannel, OutputType, Pin, Pull, Speed};
use ospi::instance::{
    Chip, Instance, ManagerClock, Octospi1, Octospi2, Stm32h7, Stm32l4, Stm32l5h5, Stm32u5,
    Stm32u535,
};
use ospi::mode::{Async, Blocking};
use ospi::ospi::Ospi;
use ospi::register::Register;
use ospi::sequence::Sequence;
use ospi::step::{Action, Completion, Condition, Direction, Reply, Step};
use ospi::word::{Word, WordSize};

const IDLE: u32 = 0;
const BUSY: u32 = 1 << 5;
const TCF: u32 = 1 << 1;
const FTF: u32 = 1 << 2;

/// What was done to the device, other than reading registers.
#[derive(Debug, PartialEq)]
enum Done<W> {
    Connect(Pin, AfType),
    Disconnect(Pin),
    EnableClock,
    DisableClock,
    Write(Register, u32),
    ReadData(WordSize),
    WriteData(W),
    StartDma(DmaChannel, Direction),
    FinishDma(Completion),
}

/// Registers that keep what is written to them, but for the abort request, a status register that
/// follows a script and then stays ready, and DMA that moves the buffer at once.
struct Device<W> {
    registers: Vec<(Register, u32)>,
    status: Vec<u32>,
    polls: usize,
    incoming: Vec<W>,
    received: usize,
    sent: Vec<W>,
    log: Vec<Done<W>>,
}

impl<W: Word> Device<W> {
    fn new(incoming: Vec<W>) -> Self {
        Device {
            registers: vec![],
            status: vec![],
            polls: 0,
            incoming,
            received: 0,
            sent: vec![],
            log: vec![],
        }
    }

    fn get(&self, register: Register) -> u32 {
        for (r, v) in self.registers.iter() {
            if *r == register {
                return *v;
            }
        }
        0
    }

    fn set(&mut self, register: Register, value: u32) {
        let value = if register == Register::Cr { value & !2 } else { value };
        for (r, v) in self.registers.iter_mut() {
            if *r == register {
                *v = value;
                return;
            }
        }
        self.registers.push((register, value));
    }

    fn read(&mut self, register: Register) -> u32 {
        if register == Register::Sr {
            let value = if self.polls < self.status.len() { self.status[self.polls] } else { TCF | FTF };
            self.polls += 1;
            value
        } else {
            self.get(register)
        }
    }

    fn run(&mut self, mut sequence: Sequence, buffer: &mut [W]) -> Result<(), OspiError> {
        for _ in 0..10_000 {
            match sequence.action(buffer) {
                Action::Read(register) => {
                    let value = self.read(register);
                    sequence.advance(buffer, Reply::Value(value));
                }
                Action::Write(register, value) => {
                    self.set(register, value);
                    self.log.push(Done::Write(register, value));
                    sequence.advance(buffer, Reply::Done);
                }
                Action::ReadData(size) => {
                    let word = self.incoming[self.received];
                    self.received += 1;
                    self.log.push(Done::ReadData(size));
                    sequence.advance(buffer, Reply::Data(word));
                }
                Action::WriteData(word) => {
                    self.sent.push(word);
                    self.log.push(Done::WriteData(word));
                    sequence.advance(buffer, Reply::Done);
                }
                Action::ConnectPin(pin, af_type) => {
                    self.log.push(Done::Connect(pin, af_type));
                    sequence.advance(buffer, Reply::Done);
                }
                Action::DisconnectPin(pin) => {
                    self.log.push(Done::Disconnect(pin));
                    sequence.advance(buffer, Reply::Done);
                }
                Action::EnableClock => {
                    self.log.push(Done::EnableClock);
                    sequence.advance(buffer, Reply::Done);
                }
                Action::DisableClock => {
                    self.log.push(Done::DisableClock);
                    sequence.advance(buffer, Reply::Done);
                }
                Action::StartDma(channel, direction) => {
                    match direction {
                        Direction::Receive => {
                            for word in buffer.iter_mut() {
                                *word = self.incoming[self.received];
                                self.received += 1;
                            }
                        }
                        Direction::Send => self.sent.extend_from_slice(buffer),
                    }
                    self.log.push(Done::StartDma(channel, direction));
                    sequence.advance(buffer, Reply::Done);
                }
                Action::FinishDma(completion) => {
                    self.log.push(Done::FinishDma(completion));
                    sequence.advance(buffer, Reply::Done);
                }
                Action::Nothing => sequence.advance(buffer, Reply::Done),
                Action::Finish(outcome) => return outcome,
            }
        }
        panic!("the sequence does not come to an end")
    }
}

fn pin(n: u8) -> Pin {
    Pin { pin_port: n, af_num: 10 }
}

const DMA: DmaChannel = DmaChannel { channel: 3, request: 40 };
const OUTPUT: AfType = AfType::Output(OutputType::PushPull, Speed::VeryHigh);
const INPUT: AfType = AfType::Input(Pull::Floating);
const SELECT: AfType = AfType::OutputPull(OutputType::PushPull, Speed::VeryHigh, Pull::Up);

fn u5_1() -> Octospi1<Stm32u5> {
    Octospi1 { chip: Stm32u5 }
}

fn single() -> Ospi<Octospi1<Stm32u5>, Blocking> {
    Ospi::new_blocking_singlespi(u5_1(), pin(1), pin(2), pin(3), pin(4), Config::default()).0
}

fn octo() -> Ospi<Octospi1<Stm32u5>, Async> {
    Ospi::new_octospi(
        u5_1(), pin(0), pin(1), pin(2), pin(3), pin(4), pin(5), pin(6), pin(7), pin(8), pin(9), DMA,
        Config::default(),
    )
    .0
}

fn read_id() -> TransferConfig {
    TransferConfig {
        iwidth: OspiWidth::SING,
        instruction: Some(0x9f),
        dwidth: OspiWidth::SING,
        ..Default::default()
    }
}

fn read_at(address: u32) -> TransferConfig {
    TransferConfig {
        iwidth: OspiWidth::SING,
        instruction: Some(0x03),
        adwidth: OspiWidth::SING,
        address: Some(address),
        adsize: AddressSize::_24Bit,
        dwidth: OspiWidth::SING,
        dummy: DummyCycles::_8,
        ..Default::default()
    }
}

#[test]
fn a_command_is_prepared_in_this_order() {
    let mut driver = single();
    let command = TransferConfig {
        alternate_bytes: Some(0x5a),
        abwidth: OspiWidth::SING,
        ..read_at(0x1234)
    };
    let sequence = driver.blocking_command(&command);
    assert_eq!(sequence.outcome(), Ok(()));
    assert_eq!(
        *sequence.steps(),
        vec![
            Step::Wait(Condition::Idle),
            Step::Modify(Edit::Mode(OspiMode::IndirectWrite)),
            Step::Write(Register::Abr, 0x5a),
            Step::Modify(Edit::AlternateBytes(command)),
            Step::Modify(Edit::Dummy(DummyCycles::_8)),
            Step::Write(Register::Dlr, 0),
            Step::Modify(Edit::Phases(command)),
            Step::Write(Register::Ir, 0x03),
            Step::Write(Register::Ar, 0x1234),
            Step::Wait(Condition::Complete),
            Step::Write(Register::Fcr, 2),
        ]
    );
}

#[test]
fn a_command_ends_up_in_the_registers() {
    let mut device: Device<u8> = Device::new(vec![]);
    device.set(Register::Cr, 0x3000_0f01);
    let mut driver = single();
    let sequence = driver.blocking_command(&read_at(0x00ab_cdef));
    assert_eq!(device.run(sequence, &mut []), Ok(()));
    assert_eq!(device.get(Register::Cr), 0x0000_0f01);
    assert_eq!(device.get(Register::Ccr), 0x0100_2101);
    assert_eq!(device.get(Register::Tcr), 8);
    assert_eq!(device.get(Register::Dlr), 0);
    assert_eq!(device.get(Register::Ir), 0x03);
    assert_eq!(device.get(Register::Ar), 0x00ab_cdef);
    assert_eq!(device.get(Register::Fcr), 2);
}

#[test]
fn a_command_without_alternate_bytes_keeps_their_value_size_and_rate() {
    let mut device: Device<u8> = Device::new(vec![]);
    device.set(Register::Ccr, 0x003f_0000);
    device.set(Register::Abr, 77);
    let mut driver = single();
    let sequence = driver.blocking_command(&read_id());
    assert_eq!(device.run(sequence, &mut []), Ok(()));
    assert_eq!(device.get(Register::Ccr), 0x0138_0001);
    assert_eq!(device.get(Register::Abr), 77);
}

#[test]
fn a_command_takes_back_the_alternate_bytes_phase_of_an_earlier_one() {
    let mut device: Device<u8> = Device::new(vec![]);
    let mut driver = single();
    let with_alternate = TransferConfig {
        alternate_bytes: Some(0x5a),
        abwidth: OspiWidth::SING,
        absize: AddressSize::_16Bit,
        ..read_id()
    };
    let sequence = driver.blocking_command(&with_alternate);
    assert_eq!(device.run(sequence, &mut []), Ok(()));
    assert_eq!(device.get(Register::Ccr), 0x0111_0001);
    assert_eq!(device.get(Register::Abr), 0x5a);
    let sequence = driver.blocking_command(&read_id());
    assert_eq!(device.run(sequence, &mut []), Ok(()));
    assert_eq!(device.get(Register::Ccr), 0x0110_0001);
}

#[test]
fn a_command_with_an_address_only_is_accepted() {
    let mut driver = single();
    let command = TransferConfig {
        adwidth: OspiWidth::SING,
        address: Some(8),
        ..Default::default()
    };
    let sequence = driver.blocking_command(&command);
    assert_eq!(sequence.outcome(), Ok(()));
    assert!(sequence.steps().contains(&Step::Write(Register::Ar, 8)));
}

#[test]
fn a_command_without_instruction_and_address_is_refused_after_its_preparation() {
    let mut device: Device<u8> = Device::new(vec![]);
    let mut driver = single();
    let command = TransferConfig { dwidth: OspiWidth::SING, ..Default::default() };
    let sequence = driver.blocking_command(&command);
    assert_eq!(device.run(sequence, &mut []), Err(OspiError::InvalidCommand));
    assert_eq!(
        device.log,
        vec![
            Done::Write(Register::Cr, 0),
            Done::Write(Register::Tcr, 0),
            Done::Write(Register::Dlr, 0),
            Done::Write(Register::Ccr, 0x0100_0000),
        ]
    );
}

#[test]
fn a_command_that_is_too_wide_is_refused_before_anything_is_written() {
    let mut driver = single();
    for phase in 0..4 {
        let mut command = read_at(0);
        match phase {
            0 => command.iwidth = OspiWidth::DUAL,
            1 => command.adwidth = OspiWidth::QUAD,
            2 => command.abwidth = OspiWidth::OCTO,
            _ => command.dwidth = OspiWidth::DUAL,
        }
        let sequence = driver.blocking_command(&command);
        assert_eq!(sequence.outcome(), Err(OspiError::InvalidCommand));
        assert_eq!(*sequence.steps(), vec![Step::Wait(Condition::Idle)]);
        let sequence = driver.enable_memory_mapped_mode(command, read_at(0));
        assert_eq!(sequence.outcome(), Err(OspiError::InvalidCommand));
        assert_eq!(*sequence.steps(), vec![]);
        let sequence = driver.blocking_read(&[0u8; 4], command);
        assert_eq!(sequence.outcome(), Err(OspiError::InvalidCommand));
        assert_eq!(
            *sequence.steps(),
            vec![Step::Wait(Condition::Idle), Step::Modify(Edit::Dma(false))]
        );
    }
}

#[test]
fn an_octo_command_fits_an_octo_driver_only() {
    let command = TransferConfig { dwidth: OspiWidth::OCTO, ..read_at(0) };
    assert_eq!(octo().blocking_command(&command).outcome(), Ok(()));
    let (mut dual_quad, _) = Ospi::<Octospi1<Stm32u5>, Blocking>::new_blocking_dualquadspi(
        u5_1(), pin(0), pin(1), pin(2), pin(3), pin(4), pin(5), pin(6), pin(7), pin(8), pin(9),
        Config::default(),
    );
    assert_eq!(dual_quad.blocking_command(&command).outcome(), Err(OspiError::InvalidCommand));
}

#[test]
fn a_command_is_appended_to_the_steps_before_it() {
    let driver = single();
    let mut steps = vec![Step::Wait(Condition::Idle)];
    assert_eq!(driver.configure_command(&mut steps, &read_id(), Some(4)), Ok(()));
    assert_eq!(
        steps,
        vec![
            Step::Wait(Condition::Idle),
            Step::Modify(Edit::Mode(OspiMode::IndirectWrite)),
            Step::Modify(Edit::Dummy(DummyCycles::_0)),
            Step::Write(Register::Dlr, 3),
            Step::Modify(Edit::Phases(read_id())),
            Step::Write(Register::Ir, 0x9f),
        ]
    );
    let wide = TransferConfig { dwidth: OspiWidth::QUAD, ..read_id() };
    let mut steps = vec![];
    assert_eq!(
        driver.configure_command(&mut steps, &wide, None),
        Err(OspiError::InvalidCommand)
    );
    assert_eq!(steps, vec![]);
}

#[test]
fn a_wider_driver_accepts_what_a_narrower_one_accepts() {
    for width in [OspiWidth::NONE, OspiWidth::SING, OspiWidth::DUAL, OspiWidth::QUAD] {
        let command = TransferConfig { abwidth: width, dwidth: width, ..read_at(0) };
        let narrow = single().blocking_command(&command);
        let wide = octo().blocking_command(&command);
        assert_eq!(wide.outcome(), Ok(()));
        if narrow.outcome() == Ok(()) {
            assert_eq!(narrow.steps(), wide.steps());
        }
    }
}

#[test]
fn a_read_fills_the_buffer_in_order() {
    let mut device: Device<u16> = Device::new(vec![11, 22, 33, 44]);
    device.set(Register::Cr, 0x0000_0f05);
    let mut driver = single();
    let mut buffer = [0u16; 3];
    let sequence = driver.blocking_read(&buffer, read_at(0x20));
    assert_eq!(device.run(sequence, &mut buffer), Ok(()));
    assert_eq!(buffer, [11, 22, 33]);
    assert_eq!(device.received, 3);
    assert_eq!(device.get(Register::Cr), 0x1000_0f01);
    assert_eq!(device.get(Register::Dlr), 2);
    let tail = device.log.len() - 5;
    assert_eq!(
        device.log[tail..],
        [
            Done::Write(Register::Ar, 0x20),
            Done::ReadData(WordSize::TwoBytes),
            Done::ReadData(WordSize::TwoBytes),
            Done::ReadData(WordSize::TwoBytes),
            Done::Write(Register::Fcr, 2),
        ]
    );
}

#[test]
fn a_read_without_address_phase_is_set_off_by_its_instruction() {
    let mut device: Device<u8> = Device::new(vec![0xc2]);
    let mut driver = single();
    let mut buffer = [0u8; 1];
    let sequence = driver.blocking_read(&buffer, read_id());
    assert_eq!(device.run(sequence, &mut buffer), Ok(()));
    assert_eq!(buffer, [0xc2]);
    let tail = device.log.len() - 4;
    assert_eq!(
        device.log[tail..],
        [
            Done::Write(Register::Cr, 0x1000_0000),
            Done::Write(Register::Ir, 0x9f),
            Done::ReadData(WordSize::OneByte),
            Done::Write(Register::Fcr, 2),
        ]
    );
}

#[test]
fn what_sets_a_read_off_is_read_from_the_hardware() {
    let mut driver = single();
    let mut sequence = driver.blocking_read(&[0u8; 1], read_at(0x20));
    let mut buffer = [0u8; 1];
    let mut writes = vec![];
    for _ in 0..1000 {
        match sequence.action(&buffer) {
            Action::Read(Register::Sr) => sequence.advance(&mut buffer, Reply::Value(TCF | FTF)),
            Action::Read(Register::Ar) => sequence.advance(&mut buffer, Reply::Value(0x777)),
            Action::Read(Register::Ir) => sequence.advance(&mut buffer, Reply::Value(0x888)),
            Action::Read(_) => sequence.advance(&mut buffer, Reply::Value(0)),
            Action::Write(register, value) => {
                writes.push((register, value));
                sequence.advance(&mut buffer, Reply::Done);
            }
            Action::ReadData(_) => break,
            _ => sequence.advance(&mut buffer, Reply::Done),
        }
    }
    assert_eq!(writes[writes.len() - 1], (Register::Ir, 0x888));
    assert_eq!(sequence.progress().address, 0x777);
}

#[test]
fn a_write_sends_the_buffer_in_order() {
    let mut device: Device<u32> = Device::new(vec![]);
    device.set(Register::Cr, 0x1000_0004);
    let mut driver = single();
    let mut buffer = [7u32, 8, 9];
    let sequence = driver.blocking_write(&buffer, read_at(0x40));
    assert_eq!(device.run(sequence, &mut buffer), Ok(()));
    assert_eq!(buffer, [7, 8, 9]);
    assert_eq!(device.get(Register::Cr), 0);
    assert_eq!(device.get(Register::Dlr), 2);
    let tail = device.log.len() - 6;
    assert_eq!(
        device.log[tail..],
        [
            Done::Write(Register::Ar, 0x40),
            Done::Write(Register::Cr, 0),
            Done::WriteData(7),
            Done::WriteData(8),
            Done::WriteData(9),
            Done::Write(Register::Fcr, 2),
        ]
    );
}

#[test]
fn a_write_does_not_need_its_buffer_to_be_mutable() {
    let mut driver = single();
    let buffer = [1u8, 2];
    let mut sequence = driver.blocking_write(&buffer, read_id());
    let mut sent = vec![];
    for _ in 0..1000 {
        match sequence.action(&buffer) {
            Action::Read(Register::Sr) => sequence.advance_shared(&buffer, Reply::Value(TCF | FTF)),
            Action::Read(_) => sequence.advance_shared(&buffer, Reply::Value(0)),
            Action::WriteData(word) => {
                sent.push(word);
                sequence.advance_shared(&buffer, Reply::Done);
            }
            Action::Finish(outcome) => {
                assert_eq!(outcome, Ok(()));
                break;
            }
            _ => sequence.advance_shared(&buffer, Reply::Done),
        }
    }
    assert_eq!(sent, vec![1, 2]);
}

#[test]
fn an_empty_buffer_is_refused_before_anything_is_done() {
    let empty: [u8; 0] = [];
    let mut driver = octo();
    for sequence in [
        driver.blocking_read(&empty, read_at(0)),
        driver.blocking_write(&empty, read_at(0)),
        driver.blocking_read_dma(&empty, read_at(0)),
        driver.blocking_write_dma(&empty, read_at(0)),
        driver.read(&empty, read_at(0)),
        driver.write(&empty, read_at(0)),
    ] {
        assert_eq!(sequence.outcome(), Err(OspiError::EmptyBuffer));
        assert_eq!(*sequence.steps(), vec![]);
        assert_eq!(sequence.action(&empty), Action::Finish(Err(OspiError::EmptyBuffer)));
    }
}

#[test]
fn waiting_goes_on_while_the_peripheral_is_busy() {
    let mut device: Device<u8> = Device::new(vec![]);
    device.status = vec![BUSY, BUSY | TCF, BUSY, IDLE, IDLE, FTF, BUSY, TCF];
    let mut driver = single();
    let sequence = driver.blocking_command(&read_id());
    assert_eq!(device.run(sequence, &mut []), Ok(()));
    assert_eq!(device.polls, 8);
}

#[test]
fn a_word_is_received_once_the_fifo_has_data_or_the_transfer_is_complete() {
    let mut device: Device<u8> = Device::new(vec![1, 2]);
    let mut driver = single();
    let mut buffer = [0u8; 2];
    let sequence = driver.blocking_read(&buffer, read_id());
    // Idle; then the first word, with complete and data polled in turn, so that data only counts
    // in the second poll of a pair; then the second word at once; then the end.
    device.status = vec![IDLE, FTF, IDLE, IDLE, FTF, TCF, TCF];
    assert_eq!(device.run(sequence, &mut buffer), Ok(()));
    assert_eq!(buffer, [1, 2]);
    assert_eq!(device.polls, 7);
}

#[test]
fn a_word_is_sent_once_the_fifo_has_room() {
    let mut device: Device<u8> = Device::new(vec![]);
    device.status = vec![IDLE, TCF, TCF, FTF, FTF, TCF];
    let mut driver = single();
    let mut buffer = [5u8, 6];
    let sequence = driver.blocking_write(&buffer, read_id());
    assert_eq!(device.run(sequence, &mut buffer), Ok(()));
    assert_eq!(device.polls, 6);
}

#[test]
fn a_slow_device_gets_and_gives_the_same_as_a_fast_one() {
    let mut driver = single();
    for waits in 0..40 {
        // Anything but what is waited for, in changing order, before the device becomes ready.
        let status: Vec<u32> = (0..waits).map(|i| [BUSY, BUSY | FTF, IDLE, TCF | BUSY, FTF][i % 5]).collect();
        let mut fast: Device<u16> = Device::new(vec![11, 22, 33, 44]);
        let mut slow: Device<u16> = Device::new(vec![11, 22, 33, 44]);
        slow.status = status.clone();
        let mut buffers = [[0u16; 3]; 2];
        let sequence = driver.blocking_read(&buffers[0], read_at(0x20));
        assert_eq!(fast.run(sequence, &mut buffers[0]), Ok(()));
        let sequence = driver.blocking_read(&buffers[1], read_at(0x20));
        assert_eq!(slow.run(sequence, &mut buffers[1]), Ok(()));
        assert_eq!(buffers, [[11, 22, 33], [11, 22, 33]]);
        assert_eq!(fast.log, slow.log);
        assert_eq!((fast.received, slow.received), (3, 3));

        let mut fast: Device<u16> = Device::new(vec![]);
        let mut slow: Device<u16> = Device::new(vec![]);
        slow.status = status;
        let sequence = driver.blocking_write(&buffers[0], read_at(0x20));
        assert_eq!(fast.run(sequence, &mut buffers[0]), Ok(()));
        let sequence = driver.blocking_write(&buffers[1], read_at(0x20));
        assert_eq!(slow.run(sequence, &mut buffers[1]), Ok(()));
        assert_eq!(buffers, [[11, 22, 33], [11, 22, 33]]);
        assert_eq!(fast.log, slow.log);
        assert!(slow.log.contains(&Done::WriteData(33)));
    }
}

#[test]
fn a_reply_that_answers_nothing_changes_nothing() {
    let mut driver = single();
    let mut buffer = [0u8; 1];
    let mut sequence = driver.blocking_read(&buffer, read_id());
    let before = sequence.progress();
    sequence.advance(&mut buffer, Reply::Done);
    sequence.advance(&mut buffer, Reply::Data(9));
    assert_eq!(sequence.progress(), before);
    assert_eq!(buffer, [0]);
    sequence.advance(&mut buffer, Reply::Value(0));
    assert_eq!(sequence.progress().position, 1);
    sequence.advance(&mut buffer, Reply::Done);
    assert_eq!(sequence.progress().position, 1);
    assert_eq!(sequence.action(&buffer), Action::Read(Register::Cr));
    sequence.advance(&mut buffer, Reply::Value(0xff));
    assert_eq!(sequence.action(&buffer), Action::Write(Register::Cr, 0xfb));
}

#[test]
fn a_dma_read_runs_in_this_order() {
    let mut driver = octo();
    let command = read_at(4);
    let sequence = driver.blocking_read_dma(&[0u8; 16], command);
    assert_eq!(sequence.outcome(), Ok(()));
    assert_eq!(
        *sequence.steps(),
        vec![
            Step::Wait(Condition::Idle),
            Step::Modify(Edit::Mode(OspiMode::IndirectWrite)),
            Step::Modify(Edit::Dummy(DummyCycles::_8)),
            Step::Write(Register::Dlr, 15),
            Step::Modify(Edit::Phases(command)),
            Step::Write(Register::Ir, 3),
            Step::Write(Register::Ar, 4),
            Step::Capture,
            Step::Modify(Edit::Mode(OspiMode::IndirectRead)),
            Step::Trigger,
            Step::StartDma(DMA, Direction::Receive),
            Step::Modify(Edit::Dma(true)),
            Step::FinishDma(Completion::Blocking),
            Step::Wait(Condition::Complete),
            Step::Write(Register::Fcr, 2),
            Step::Modify(Edit::Dma(false)),
        ]
    );
}

#[test]
fn a_dma_write_enables_dma_while_it_runs_and_disables_it_afterwards() {
    let mut device: Device<u8> = Device::new(vec![]);
    let mut driver = octo();
    let mut buffer = [1u8, 2];
    let sequence = driver.blocking_write_dma(&buffer, read_at(4));
    assert_eq!(device.run(sequence, &mut buffer), Ok(()));
    let tail = device.log.len() - 6;
    assert_eq!(
        device.log[tail..],
        [
            Done::Write(Register::Cr, 0),
            Done::StartDma(DMA, Direction::Send),
            Done::Write(Register::Cr, 4),
            Done::FinishDma(Completion::Blocking),
            Done::Write(Register::Fcr, 2),
            Done::Write(Register::Cr, 0),
        ]
    );
}

#[test]
fn dma_transfers_move_the_whole_buffer() {
    let mut driver = octo();
    for asynchronous in [false, true] {
        let mut device: Device<u32> = Device::new(vec![5, 6, 7, 8]);
        device.status = vec![BUSY, IDLE, IDLE, IDLE, TCF];
        let mut buffer = [0u32; 3];
        let sequence = if asynchronous {
            driver.read(&buffer, read_at(4))
        } else {
            driver.blocking_read_dma(&buffer, read_at(4))
        };
        assert_eq!(device.run(sequence, &mut buffer), Ok(()));
        assert_eq!(buffer, [5, 6, 7]);
        assert_eq!(device.received, 3);
        assert_eq!(device.sent, vec![]);
        assert_eq!(device.polls, 5);
        assert_eq!(device.get(Register::Cr), 0x1000_0000);
        let sequence = if asynchronous {
            driver.write(&buffer, read_at(4))
        } else {
            driver.blocking_write_dma(&buffer, read_at(4))
        };
        assert_eq!(device.run(sequence, &mut buffer), Ok(()));
        assert_eq!(device.sent, vec![5, 6, 7]);
        assert_eq!(buffer, [5, 6, 7]);
        assert_eq!(device.received, 3);
        assert_eq!(device.get(Register::Cr), 0);
    }
}

#[test]
fn blocking_and_asynchronous_transfers_differ_in_one_step() {
    let mut driver = octo();
    let buffer = [0u32; 5];
    for (blocking, asynchronous) in [
        (driver.blocking_read_dma(&buffer, read_at(1)), driver.read(&buffer, read_at(1))),
        (driver.blocking_write_dma(&buffer, read_at(1)), driver.write(&buffer, read_at(1))),
    ] {
        assert_eq!(blocking.steps().len(), asynchronous.steps().len());
        let mut differences = 0;
        for (b, a) in blocking.steps().iter().zip(asynchronous.steps().iter()) {
            if b != a {
                differences += 1;
                assert_eq!(*b, Step::FinishDma(Completion::Blocking));
                assert_eq!(*a, Step::FinishDma(Completion::Async));
            }
        }
        assert_eq!(differences, 1);
    }
}

#[test]
fn memory_mapped_mode_is_entered_and_left() {
    let mut device: Device<u8> = Device::new(vec![]);
    device.set(Register::Cr, 0x0000_0f0d);
    device.set(Register::Ccr, 0x2000_0000);
    let mut driver = octo();
    let write = TransferConfig {
        iwidth: OspiWidth::QUAD,
        adwidth: OspiWidth::OCTO,
        adsize: AddressSize::_32Bit,
        addtr: true,
        dwidth: OspiWidth::OCTO,
        dummy: DummyCycles::_5,
        ..Default::default()
    };
    let sequence = driver.enable_memory_mapped_mode(read_at(0), write);
    assert_eq!(device.run(sequence, &mut []), Ok(()));
    assert_eq!(device.get(Register::Cr), 0x3000_0f05);
    assert_eq!(device.get(Register::Ccr), 0x8100_2101);
    assert_eq!(device.get(Register::Wccr), 0x2400_3c03);
    assert_eq!(device.get(Register::Wtcr), 5);
    assert_eq!(device.get(Register::Ir), 3);
    let sequence = driver.disable_memory_mapped_mode();
    assert_eq!(device.run(sequence, &mut []), Ok(()));
    assert_eq!(device.get(Register::Cr), 0x0000_0f01);
    let tail = device.log.len() - 3;
    assert_eq!(
        device.log[tail..],
        [
            Done::Write(Register::Cr, 0x0000_0f02),
            Done::Write(Register::Fcr, 2),
            Done::Write(Register::Cr, 0x0000_0f01),
        ]
    );
}

fn fancy() -> Config {
    Config {
        fifo_threshold: FIFOThresholdLevel::_4Bytes,
        memory_type: MemoryType::Macronix,
        device_size: MemorySize::_16MiB,
        chip_select_high_time: ChipSelectHighTime::_2Cycle,
        free_running_clock: true,
        clock_mode: true,
        wrap_size: WrapSize::_32Bytes,
        clock_prescaler: 7,
        sample_shifting: true,
        delay_hold_quarter_cycle: false,
        chip_select_boundary: 3,
        delay_block_bypass: false,
        max_transfer: 9,
        refresh: 100,
    }
}

#[test]
fn a_configuration_is_set_and_given_back() {
    let mut device: Device<u8> = Device::new(vec![]);
    device.set(Register::Cr, 0x1000_0044);
    device.set(Register::Tcr, 0x1000_0003);
    let mut driver = single();
    assert_eq!(driver.get_config(), Config::default());
    let sequence = driver.set_config(&fancy());
    assert_eq!(driver.get_config(), fancy());
    assert_eq!(device.run(sequence, &mut []), Ok(()));
    assert_eq!(device.get(Register::Dcr1), 0x0117_0103);
    assert_eq!(device.get(Register::Dcr2), 0x0003_0007);
    assert_eq!(device.get(Register::Dcr3), 0x0003_0009);
    assert_eq!(device.get(Register::Dcr4), 100);
    assert_eq!(device.get(Register::Tcr), 0x4000_0003);
    assert_eq!(device.get(Register::Cr), 0x1000_0341);
    // The free running clock follows the enable bit.
    let tail = device.log.len() - 2;
    assert_eq!(
        device.log[tail..],
        [Done::Write(Register::Cr, 0x1000_0341), Done::Write(Register::Dcr1, 0x0117_0103)]
    );
}

#[test]
fn the_last_configuration_counts() {
    let mut twice: Device<u8> = Device::new(vec![]);
    let mut once: Device<u8> = Device::new(vec![]);
    let mut driver = single();
    let sequence = driver.set_config(&fancy());
    assert_eq!(twice.run(sequence, &mut []), Ok(()));
    let sequence = driver.set_config(&Config::default());
    assert_eq!(twice.run(sequence, &mut []), Ok(()));
    let sequence = driver.set_config(&Config::default());
    assert_eq!(once.run(sequence, &mut []), Ok(()));
    for register in [
        Register::Cr, Register::Dcr1, Register::Dcr2, Register::Dcr3, Register::Dcr4, Register::Tcr,
    ] {
        assert_eq!(twice.get(register), once.get(register));
    }
}

#[test]
fn a_configuration_is_set_with_dma_disabled() {
    let mut driver = single();
    let sequence = driver.set_config(&fancy());
    assert_eq!(
        *sequence.steps(),
        vec![
            Step::Wait(Condition::Idle),
            Step::Modify(Edit::Dma(false)),
            Step::Modify(Edit::Device(fancy())),
            Step::Modify(Edit::Wrap(WrapSize::_32Bytes)),
            Step::Modify(Edit::Boundary(3, Some(9))),
            Step::Modify(Edit::Refresh(100)),
            Step::Modify(Edit::FifoThreshold(FIFOThresholdLevel::_4Bytes)),
            Step::Wait(Condition::Idle),
            Step::Modify(Edit::Prescaler(7)),
            Step::Modify(Edit::Sampling(true, false)),
            Step::Modify(Edit::Enable(true)),
            Step::Modify(Edit::FreeRunningClock(true)),
        ]
    );
}

#[test]
fn a_chip_without_the_field_leaves_the_maximum_transfer_alone() {
    let (mut driver, start) = Ospi::<Octospi1<Stm32l5h5>, Blocking>::new_blocking_dualspi(
        Octospi1 { chip: Stm32l5h5 }, pin(1), pin(2), pin(3), pin(4), fancy(),
    );
    assert!(start.steps().contains(&Step::Modify(Edit::Boundary(3, None))));
    assert_eq!(start.steps()[4], Step::EnableClock);
    assert!(driver.set_config(&fancy()).steps().contains(&Step::Modify(Edit::Boundary(3, None))));
}

#[test]
fn a_chip_without_a_manager_may_have_the_maximum_transfer() {
    let (_driver, start) = Ospi::<Octospi1<Stm32u535>, Blocking>::new_blocking_dualspi(
        Octospi1 { chip: Stm32u535 }, pin(1), pin(2), pin(3), pin(4), fancy(),
    );
    assert_eq!(start.steps()[4], Step::EnableClock);
    assert!(start.steps().contains(&Step::Modify(Edit::Boundary(3, Some(9)))));
}

#[test]
fn a_single_line_driver_starts_in_this_order() {
    let (driver, sequence) = Ospi::<Octospi1<Stm32u5>, Blocking>::new_blocking_singlespi(
        u5_1(), pin(1), pin(2), pin(3), pin(4), Config::default(),
    );
    assert_eq!(driver.get_config(), Config::default());
    assert_eq!(sequence.outcome(), Ok(()));
    let config = Config::default();
    let route = Route { index: 1, dqs: false, width: OspiWidth::SING, dual_quad: false };
    assert_eq!(
        *sequence.steps(),
        vec![
            Step::ConnectPin(pin(2), OUTPUT),
            Step::ConnectPin(pin(3), INPUT),
            Step::ConnectPin(pin(1), OUTPUT),
            Step::ConnectPin(pin(4), SELECT),
            Step::Modify(Edit::EnableManager(ManagerClock::Ahb2)),
            Step::Modify(Edit::Enable(false)),
            Step::Modify(Edit::ManagerArbitration),
            Step::Modify(Edit::PortClear),
            Step::Modify(Edit::PortRoute(route)),
            Step::EnableClock,
            Step::Wait(Condition::Idle),
            Step::Modify(Edit::Device(config)),
            Step::Modify(Edit::Wrap(WrapSize::Disabled)),
            Step::Modify(Edit::Boundary(0, Some(0))),
            Step::Modify(Edit::Refresh(0)),
            Step::Modify(Edit::FifoThreshold(FIFOThresholdLevel::_16Bytes)),
            Step::Wait(Condition::Idle),
            Step::Modify(Edit::Prescaler(0)),
            Step::Modify(Edit::DualMemory(false)),
            Step::Modify(Edit::Sampling(false, false)),
            Step::Modify(Edit::Enable(true)),
        ]
    );
}

#[test]
fn two_quad_devices_share_the_second_instance() {
    let mut device: Device<u8> = Device::new(vec![]);
    let (_driver, sequence) = Ospi::<Octospi2<Stm32h7>, Async>::new_dualquadspi(
        Octospi2 { chip: Stm32h7 }, pin(0), pin(1), pin(2), pin(3), pin(4), pin(5), pin(6), pin(7),
        pin(8), pin(9), DMA, Config::default(),
    );
    assert_eq!(device.run(sequence, &mut []), Ok(()));
    assert_eq!(device.get(Register::RccAhb3enr), 0x0020_0000);
    assert_eq!(device.get(Register::ManagerCr), 0x00ff_0000);
    assert_eq!(device.get(Register::ManagerP1cr), 0x0505_0303);
    assert_eq!(device.get(Register::Cr), 0x0000_0f41);
    assert_eq!(device.get(Register::Dcr1), 0x0000_0408);
    assert_eq!(device.log[0], Done::Connect(pin(1), OUTPUT));
    assert_eq!(device.log[7], Done::Connect(pin(8), OUTPUT));
    assert_eq!(device.log[8], Done::Connect(pin(0), OUTPUT));
    assert_eq!(device.log[9], Done::Connect(pin(9), SELECT));
}

#[test]
fn every_constructor_connects_its_pins() {
    let c = Config::default();
    let p: Vec<Pin> = (0u8..10).map(pin).collect();
    let sequences = [
        (4, Ospi::<Octospi1<Stm32l4>, Blocking>::new_blocking_singlespi(Octospi1 { chip: Stm32l4 }, p[8], p[0], p[1], p[9], c).1),
        (4, Ospi::<Octospi1<Stm32l4>, Blocking>::new_blocking_dualspi(Octospi1 { chip: Stm32l4 }, p[8], p[0], p[1], p[9], c).1),
        (6, Ospi::<Octospi1<Stm32l4>, Blocking>::new_blocking_quadspi(Octospi1 { chip: Stm32l4 }, p[8], p[0], p[1], p[2], p[3], p[9], c).1),
        (10, Ospi::<Octospi1<Stm32l4>, Blocking>::new_blocking_dualquadspi(Octospi1 { chip: Stm32l4 }, p[8], p[0], p[1], p[2], p[3], p[4], p[5], p[6], p[7], p[9], c).1),
        (10, Ospi::<Octospi1<Stm32l4>, Blocking>::new_blocking_octospi(Octospi1 { chip: Stm32l4 }, p[8], p[0], p[1], p[2], p[3], p[4], p[5], p[6], p[7], p[9], c).1),
        (4, Ospi::<Octospi1<Stm32l4>, Async>::new_singlespi(Octospi1 { chip: Stm32l4 }, p[8], p[0], p[1], p[9], DMA, c).1),
        (4, Ospi::<Octospi1<Stm32l4>, Async>::new_dualspi(Octospi1 { chip: Stm32l4 }, p[8], p[0], p[1], p[9], DMA, c).1),
        (6, Ospi::<Octospi1<Stm32l4>, Async>::new_quadspi(Octospi1 { chip: Stm32l4 }, p[8], p[0], p[1], p[2], p[3], p[9], DMA, c).1),
        (10, Ospi::<Octospi1<Stm32l4>, Async>::new_dualquadspi(Octospi1 { chip: Stm32l4 }, p[8], p[0], p[1], p[2], p[3], p[4], p[5], p[6], p[7], p[9], DMA, c).1),
        (10, Ospi::<Octospi1<Stm32l4>, Async>::new_octospi(Octospi1 { chip: Stm32l4 }, p[8], p[0], p[1], p[2], p[3], p[4], p[5], p[6], p[7], p[9], DMA, c).1),
    ];
    for (i, (count, sequence)) in sequences.iter().enumerate() {
        let steps = sequence.steps();
        for line in 0..count - 2 {
            let af_type = if i % 5 == 0 && line == 1 { INPUT } else { OUTPUT };
            assert_eq!(steps[line], Step::ConnectPin(p[line], af_type));
        }
        assert_eq!(steps[count - 2], Step::ConnectPin(p[8], OUTPUT));
        assert_eq!(steps[count - 1], Step::ConnectPin(p[9], SELECT));
        assert_eq!(steps[*count], Step::Modify(Edit::EnableManager(ManagerClock::Ahb2Sleep)));
        let dual_quad = i % 5 == 3;
        assert!(steps.contains(&Step::Modify(Edit::DualMemory(dual_quad))));
        let width = [OspiWidth::SING, OspiWidth::DUAL, OspiWidth::QUAD, OspiWidth::QUAD, OspiWidth::OCTO][i % 5];
        let route = Route { index: 1, dqs: false, width, dual_quad };
        assert!(steps.contains(&Step::Modify(Edit::PortRoute(route))));
    }
}

#[test]
fn a_released_driver_gives_its_pins_back() {
    let mut device: Device<u8> = Device::new(vec![]);
    assert_eq!(device.run(single().release(), &mut []), Ok(()));
    assert_eq!(
        device.log,
        vec![
            Done::Disconnect(pin(1)),
            Done::Disconnect(pin(2)),
            Done::Disconnect(pin(3)),
            Done::Disconnect(pin(4)),
            Done::DisableClock,
        ]
    );
    let mut device: Device<u8> = Device::new(vec![]);
    assert_eq!(device.run(octo().release(), &mut []), Ok(()));
    assert_eq!(device.log.len(), 11);
    assert_eq!(device.log[10], Done::DisableClock);
}

#[test]
fn instances_and_chips_describe_themselves() {
    assert_eq!(<Octospi1<Stm32u5> as Instance>::index(), 1);
    assert_eq!(<Octospi2<Stm32u5> as Instance>::index(), 2);
    assert_eq!(<Octospi2<Stm32h7> as Instance>::chip(), <Stm32h7 as Chip>::features());
    assert_eq!(<Stm32l4 as Chip>::features().manager, Some(ManagerClock::Ahb2Sleep));
    assert_eq!(<Stm32u5 as Chip>::features().manager, Some(ManagerClock::Ahb2));
    assert_eq!(<Stm32h7 as Chip>::features().manager, Some(ManagerClock::Ahb3));
    assert_eq!(<Stm32l5h5 as Chip>::features().manager, None);
    assert!(<Stm32u5 as Chip>::features().max_transfer);
    assert_eq!(<Stm32u535 as Chip>::features().manager, None);
    assert!(<Stm32u535 as Chip>::features().max_transfer);
    assert!(!<Stm32l5h5 as Chip>::features().max_transfer);
}
