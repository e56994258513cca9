//! Steps: what an operation of the driver has done to the hardware, in order.
//!
//! An operation is a list of steps. A step is carried out as one or more actions, each of which is
//! a single access to the hardware, and each of which is answered by a reply. `action_of` says
//! which action a step asks for at some stage, and `after` says where the reply leads.

use vstd::prelude::*;

use crate::bits::{field, flag};
use crate::config::OspiError;
use crate::edit::Edit;
use crate::gpio::{AfType, DmaChannel, Pin};
use crate::register::Register;
use crate::word::{Word, WordSize};

verus! {

/// What the status register is polled for.
#[derive(Clone, Copy, PartialEq, Eq, Structural, Debug)]
pub enum Condition {
    /// The peripheral is not busy
    Idle,
    /// The transfer complete flag is set
    Complete,
}

/// Direction of a DMA transfer.
#[derive(Clone, Copy, PartialEq, Eq, Structural, Debug)]
pub enum Direction {
    /// From the data register into the buffer
    Receive,
    /// From the buffer into the data register
    Send,
}

/// How the end of a DMA transfer is waited for.
#[derive(Clone, Copy, PartialEq, Eq, Structural, Debug)]
pub enum Completion {
    /// By polling the channel
    Blocking,
    /// By suspending the task
    Async,
}

/// One step of an operation.
#[derive(Clone, Copy, PartialEq, Eq, Debug)]
pub enum Step {
    /// Connect a pin to the peripheral
    ConnectPin(Pin, AfType),
    /// Disconnect a pin
    DisconnectPin(Pin),
    /// Enable the clock of the peripheral and reset it
    EnableClock,
    /// Disable the clock of the peripheral
    DisableClock,
    /// Poll the status register until it meets the condition
    Wait(Condition),
    /// Read a register, change some of its fields and write it back
    Modify(Edit),
    /// Write a register
    Write(Register, u32),
    /// Read back the address and the instruction
    Capture,
    /// Write back the address or, if the transaction has no address phase, the instruction
    Trigger,
    /// Receive the words of the buffer, each once the FIFO has data or the transfer is complete
    Receive,
    /// Send the words of the buffer, each once the FIFO has room
    Send,
    /// Start a DMA transfer of the whole buffer
    StartDma(DmaChannel, Direction),
    /// Wait for the end of the DMA transfer
    FinishDma(Completion),
}

/// A single access to the hardware.
#[derive(PartialEq, Eq, Debug)]
pub enum Action<W> {
    /// Connect a pin to the peripheral; answered by `Done`
    ConnectPin(Pin, AfType),
    /// Disconnect a pin; answered by `Done`
    DisconnectPin(Pin),
    /// Enable the clock of the peripheral and reset it; answered by `Done`
    EnableClock,
    /// Disable the clock of the peripheral; answered by `Done`
    DisableClock,
    /// Read a register; answered by `Value`
    Read(Register),
    /// Write a register; answered by `Done`
    Write(Register, u32),
    /// Read the data register with an access of the given size; answered by `Data`
    ReadData(WordSize),
    /// Write the data register with an access of the size of the word; answered by `Done`
    WriteData(W),
    /// Start a DMA transfer of the whole buffer; answered by `Done`
    StartDma(DmaChannel, Direction),
    /// Wait for the end of the DMA transfer; answered by `Done`
    FinishDma(Completion),
    /// Do nothing; answered by `Done`
    Nothing,
    /// The operation has come to its end, with this outcome
    Finish(Result<(), OspiError>),
}

/// The answer to an action.
#[derive(PartialEq, Eq, Debug)]
pub enum Reply<W> {
    /// The action has been carried out
    Done,
    /// The register that was read held this value
    Value(u32),
    /// The data register held this word
    Data(W),
}

/// Stage of a step, or of one word of a step that moves several.
#[derive(Clone, Copy, PartialEq, Eq, Structural, Debug)]
pub enum Stage {
    /// Nothing has been done yet
    First,
    /// The first of two reads has been done
    Second,
    /// The FIFO is ready for the word
    Ready,
    /// The value to be written has been worked out
    WriteBack(Register, u32),
}

/// How far an operation has come.
#[derive(Clone, Copy, PartialEq, Eq, Structural, Debug)]
pub struct Progress {
    /// Number of steps that are done
    pub position: usize,
    /// Number of words that the current step has moved
    pub word: usize,
    /// Stage of the current step or word
    pub stage: Stage,
    /// The address that was read back last
    pub address: u32,
    /// The instruction that was read back last
    pub instruction: u32,
}

impl Progress {
    /// At the beginning of the step that follows.
    pub open spec fn next_step(self) -> Progress {
        Progress { position: (self.position + 1) as usize, word: 0, stage: Stage::First, ..self }
    }

    /// At the beginning of the word that follows or, after the last of `len` words, of the step
    /// that follows.
    pub open spec fn next_word(self, len: nat) -> Progress {
        if self.word + 1 < len {
            Progress { word: (self.word + 1) as usize, stage: Stage::First, ..self }
        } else {
            self.next_step()
        }
    }

    /// At another stage of the same step.
    pub open spec fn at(self, stage: Stage) -> Progress {
        Progress { stage, ..self }
    }
}

/// Whether the status register meets a condition.
pub open spec fn met(condition: Condition, sr: u32) -> bool {
    match condition {
        Condition::Idle => !flag(sr, 5),
        Condition::Complete => flag(sr, 1),
    }
}

/// The action that a step asks for, given how far it has come and the buffer of the operation.
pub open spec fn action_of<W: Word>(step: Step, progress: Progress, buffer: Seq<W>) -> Action<W> {
    match step {
        Step::ConnectPin(pin, af_type) => Action::ConnectPin(pin, af_type),
        Step::DisconnectPin(pin) => Action::DisconnectPin(pin),
        Step::EnableClock => Action::EnableClock,
        Step::DisableClock => Action::DisableClock,
        Step::Wait(_) => Action::Read(Register::Sr),
        Step::Modify(edit) => match progress.stage {
            Stage::WriteBack(register, value) => Action::Write(register, value),
            _ => Action::Read(edit.target()),
        },
        Step::Write(register, value) => Action::Write(register, value),
        Step::Capture => match progress.stage {
            Stage::Second => Action::Read(Register::Ir),
            _ => Action::Read(Register::Ar),
        },
        Step::Trigger => match progress.stage {
            Stage::WriteBack(register, value) => Action::Write(register, value),
            _ => Action::Read(Register::Ccr),
        },
        Step::Receive => if progress.word >= buffer.len() {
            Action::Nothing
        } else {
            match progress.stage {
                Stage::Ready => Action::ReadData(W::size_spec()),
                _ => Action::Read(Register::Sr),
            }
        },
        Step::Send => if progress.word >= buffer.len() {
            Action::Nothing
        } else {
            match progress.stage {
                Stage::Ready => Action::WriteData(buffer[progress.word as int]),
                _ => Action::Read(Register::Sr),
            }
        },
        Step::StartDma(channel, direction) => Action::StartDma(channel, direction),
        Step::FinishDma(completion) => Action::FinishDma(completion),
    }
}

/// How far a step has come, and what the buffer holds, once its action has been answered. A reply
/// that does not answer the action changes nothing.
pub open spec fn after<W: Word>(
    step: Step,
    progress: Progress,
    buffer: Seq<W>,
    reply: Reply<W>,
) -> (Progress, Seq<W>) {
    match (step, reply) {
        (Step::Wait(condition), Reply::Value(sr)) => if met(condition, sr) {
            (progress.next_step(), buffer)
        } else {
            (progress, buffer)
        },
        (Step::Modify(edit), _) => match (progress.stage, reply) {
            (Stage::WriteBack(_, _), Reply::Done) => (progress.next_step(), buffer),
            (Stage::WriteBack(_, _), _) => (progress, buffer),
            (_, Reply::Value(value)) => (
                progress.at(Stage::WriteBack(edit.target(), edit.applied(value))),
                buffer,
            ),
            (_, _) => (progress, buffer),
        },
        (Step::Capture, Reply::Value(value)) => match progress.stage {
            Stage::Second => (Progress { instruction: value, ..progress }.next_step(), buffer),
            _ => (Progress { address: value, ..progress }.at(Stage::Second), buffer),
        },
        (Step::Trigger, _) => match (progress.stage, reply) {
            (Stage::WriteBack(_, _), Reply::Done) => (progress.next_step(), buffer),
            (Stage::WriteBack(_, _), _) => (progress, buffer),
            (_, Reply::Value(ccr)) => if field(ccr, 8, 3) == 0 {
                (progress.at(Stage::WriteBack(Register::Ir, progress.instruction)), buffer)
            } else {
                (progress.at(Stage::WriteBack(Register::Ar, progress.address)), buffer)
            },
            (_, _) => (progress, buffer),
        },
        (Step::Receive, _) => if progress.word >= buffer.len() {
            match reply {
                Reply::Done => (progress.next_step(), buffer),
                _ => (progress, buffer),
            }
        } else {
            match (progress.stage, reply) {
                (Stage::Ready, Reply::Data(word)) => (
                    progress.next_word(buffer.len()),
                    buffer.update(progress.word as int, word),
                ),
                (Stage::Ready, _) => (progress, buffer),
                (Stage::Second, Reply::Value(sr)) => (
                    progress.at(if flag(sr, 2) { Stage::Ready } else { Stage::First }),
                    buffer,
                ),
                (_, Reply::Value(sr)) => (
                    progress.at(if flag(sr, 1) { Stage::Ready } else { Stage::Second }),
                    buffer,
                ),
                (_, _) => (progress, buffer),
            }
        },
        (Step::Send, _) => if progress.word >= buffer.len() {
            match reply {
                Reply::Done => (progress.next_step(), buffer),
                _ => (progress, buffer),
            }
        } else {
            match (progress.stage, reply) {
                (Stage::Ready, Reply::Done) => (progress.next_word(buffer.len()), buffer),
                (Stage::Ready, _) => (progress, buffer),
                (_, Reply::Value(sr)) => if flag(sr, 2) {
                    (progress.at(Stage::Ready), buffer)
                } else {
                    (progress, buffer)
                },
                (_, _) => (progress, buffer),
            }
        },
        (Step::Wait(_), _) => (progress, buffer),
        (Step::Capture, _) => (progress, buffer),
        (_, Reply::Done) => (progress.next_step(), buffer),
        (_, _) => (progress, buffer),
    }
}

} // verus!
