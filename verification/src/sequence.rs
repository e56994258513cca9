//! An operation on its way: its steps, how far it has come, and its outcome.

use vstd::prelude::*;

use crate::config::OspiError;
use crate::edit::Edit;
use crate::pac;
use crate::register::Register;
use crate::step::{action_of, after, met, Action, Condition, Progress, Reply, Stage, Step};
use crate::word::Word;

verus! {

/// An operation of the driver, to be carried out action by action.
///
/// Whoever owns the hardware asks for the `action`, carries it out, hands the answer to `advance`,
/// and goes on until the action is `Finish`.
pub struct Sequence {
    steps: Vec<Step>,
    outcome: Result<(), OspiError>,
    progress: Progress,
}

impl Sequence {
    /// The steps of the operation.
    pub closed spec fn steps_spec(&self) -> Seq<Step> {
        self.steps@
    }

    /// What the operation returns once its steps are done.
    pub closed spec fn outcome_spec(&self) -> Result<(), OspiError> {
        self.outcome
    }

    /// How far the operation has come.
    pub closed spec fn progress_spec(&self) -> Progress {
        self.progress
    }

    /// An operation that has not begun.
    pub open spec fn is_new(&self, steps: Seq<Step>, outcome: Result<(), OspiError>) -> bool {
        &&& self.steps_spec() == steps
        &&& self.outcome_spec() == outcome
        &&& self.progress_spec() == beginning()
    }

    /// An operation of the given steps and outcome, none of it done.
    pub fn new(steps: Vec<Step>, outcome: Result<(), OspiError>) -> (sequence: Self)
        ensures
            sequence.is_new(steps@, outcome),
    {
        Sequence {
            steps,
            outcome,
            progress: Progress {
                position: 0,
                word: 0,
                stage: Stage::First,
                address: 0,
                instruction: 0,
            },
        }
    }

    /// The steps of the operation.
    pub fn steps(&self) -> (steps: &Vec<Step>)
        ensures
            steps@ == self.steps_spec(),
    {
        &self.steps
    }

    /// What the operation returns once its steps are done.
    pub fn outcome(&self) -> (outcome: Result<(), OspiError>)
        ensures
            outcome == self.outcome_spec(),
    {
        self.outcome
    }

    /// How far the operation has come.
    pub fn progress(&self) -> (progress: Progress)
        ensures
            progress == self.progress_spec(),
    {
        self.progress
    }

    /// The action that comes next.
    pub open spec fn next_action<W: Word>(&self, buffer: Seq<W>) -> Action<W> {
        let progress = self.progress_spec();
        if progress.position < self.steps_spec().len() {
            action_of(self.steps_spec()[progress.position as int], progress, buffer)
        } else {
            Action::Finish(self.outcome_spec())
        }
    }

    /// How far the operation has come, and what the buffer holds, after a reply.
    pub open spec fn advanced<W: Word>(&self, buffer: Seq<W>, reply: Reply<W>) -> (
        Progress,
        Seq<W>,
    ) {
        let progress = self.progress_spec();
        if progress.position < self.steps_spec().len() {
            after(self.steps_spec()[progress.position as int], progress, buffer, reply)
        } else {
            (progress, buffer)
        }
    }

    /// Says what has to be done to the hardware now. `buffer` is the buffer of the operation.
    pub fn action<W: Word>(&self, buffer: &[W]) -> (action: Action<W>)
        ensures
            action == self.next_action(buffer@),
    {
        let progress = self.progress;
        if progress.position >= self.steps.len() {
            return Action::Finish(self.outcome);
        }
        match self.steps[progress.position] {
            Step::ConnectPin(pin, af_type) => Action::ConnectPin(pin, af_type),
            Step::DisconnectPin(pin) => Action::DisconnectPin(pin),
            Step::EnableClock => Action::EnableClock,
            Step::DisableClock => Action::DisableClock,
            Step::Wait(_) => Action::Read(Register::Sr),
            Step::Modify(edit) => match progress.stage {
                Stage::WriteBack(register, value) => Action::Write(register, value),
                _ => Action::Read(edit.register()),
            },
            Step::Write(register, value) => Action::Write(register, value),
            Step::Capture => match progress.stage {
                Stage::Second => Action::Read(Register::Ir),
                _ => Action::Read(Register::Ar),
            },
            Step::Trigger => match progress.stage {
                Stage::WriteBack(register, value) => Action::Write(register, value),
                _ => Action::Read(Register::Ccr),
            },
            Step::Receive => {
                if progress.word >= buffer.len() {
                    Action::Nothing
                } else {
                    match progress.stage {
                        Stage::Ready => Action::ReadData(W::size()),
                        _ => Action::Read(Register::Sr),
                    }
                }
            },
            Step::Send => {
                if progress.word >= buffer.len() {
                    Action::Nothing
                } else {
                    match progress.stage {
                        Stage::Ready => Action::WriteData(buffer[progress.word]),
                        _ => Action::Read(Register::Sr),
                    }
                }
            },
            Step::StartDma(channel, direction) => Action::StartDma(channel, direction),
            Step::FinishDma(completion) => Action::FinishDma(completion),
        }
    }

    /// Takes the answer to the action that came last.
    pub fn advance<W: Word>(&mut self, buffer: &mut [W], reply: Reply<W>)
        ensures
            final(self).steps_spec() == old(self).steps_spec(),
            final(self).outcome_spec() == old(self).outcome_spec(),
            (final(self).progress_spec(), final(buffer)@) == old(self).advanced(
                old(buffer)@,
                reply,
            ),
    {
        let index: usize = self.progress.word;
        if let Some(word) = self.take(buffer.len(), reply) {
            buffer[index] = word;
        }
    }

    /// Takes the answer to the action that came last, for an operation that stores nothing in its
    /// buffer: a word that is received is dropped.
    pub fn advance_shared<W: Word>(&mut self, buffer: &[W], reply: Reply<W>)
        ensures
            final(self).steps_spec() == old(self).steps_spec(),
            final(self).outcome_spec() == old(self).outcome_spec(),
            final(self).progress_spec() == old(self).advanced(buffer@, reply).0,
    {
        let _ = self.take(buffer.len(), reply);
    }

    /// Takes an answer, with a buffer of `len` words, and gives back the word that has to be
    /// stored at the current place in the buffer.
    fn take<W: Word>(&mut self, len: usize, reply: Reply<W>) -> (stored: Option<W>)
        ensures
            final(self).steps == old(self).steps,
            final(self).outcome == old(self).outcome,
            stored is Some ==> old(self).progress.word < len,
            forall|buffer: Seq<W>|
                buffer.len() == len ==> #[trigger] old(self).advanced(buffer, reply) == (
                    final(self).progress,
                    match stored {
                        Some(word) => buffer.update(old(self).progress.word as int, word),
                        None => buffer,
                    },
                ),
    {
        if self.progress.position >= self.steps.len() {
            return None;
        }
        let step = self.steps[self.progress.position];
        match step {
            Step::Wait(condition) => {
                if let Reply::Value(sr) = reply {
                    self.poll(condition, sr);
                }
                None
            },
            Step::Modify(edit) => {
                self.modify(&edit, reply);
                None
            },
            Step::Capture => {
                if let Reply::Value(value) = reply {
                    self.capture(value);
                }
                None
            },
            Step::Trigger => {
                self.trigger(reply);
                None
            },
            Step::Receive => self.receive(len, reply),
            Step::Send => {
                self.send(len, reply);
                None
            },
            _ => {
                if let Reply::Done = reply {
                    self.next_step();
                }
                None
            },
        }
    }

    /// Goes on to the step that follows.
    fn next_step(&mut self)
        requires
            old(self).progress.position < old(self).steps.len(),
        ensures
            final(self).steps == old(self).steps,
            final(self).outcome == old(self).outcome,
            final(self).progress == old(self).progress.next_step(),
    {
        self.progress.position = self.progress.position + 1;
        self.progress.word = 0;
        self.progress.stage = Stage::First;
    }

    /// Goes on to the word that follows, of `len` words.
    fn next_word(&mut self, len: usize)
        requires
            old(self).progress.position < old(self).steps.len(),
            old(self).progress.word < len,
        ensures
            final(self).steps == old(self).steps,
            final(self).outcome == old(self).outcome,
            final(self).progress == old(self).progress.next_word(len as nat),
    {
        if self.progress.word + 1 < len {
            self.progress.word = self.progress.word + 1;
            self.progress.stage = Stage::First;
        } else {
            self.next_step();
        }
    }

    /// Takes the status register while waiting for a condition.
    fn poll(&mut self, condition: Condition, sr: u32)
        requires
            old(self).progress.position < old(self).steps.len(),
        ensures
            final(self).steps == old(self).steps,
            final(self).outcome == old(self).outcome,
            final(self).progress == if met(condition, sr) {
                old(self).progress.next_step()
            } else {
                old(self).progress
            },
    {
        let done = match condition {
            Condition::Idle => !pac::sr_busy(sr),
            Condition::Complete => pac::sr_tcf(sr),
        };
        if done {
            self.next_step();
        }
    }

    /// Takes a reply while changing a register.
    fn modify<W: Word>(&mut self, edit: &Edit, reply: Reply<W>)
        requires
            old(self).progress.position < old(self).steps.len(),
        ensures
            final(self).steps == old(self).steps,
            final(self).outcome == old(self).outcome,
            forall|buffer: Seq<W>|
                (final(self).progress, buffer) == #[trigger] after(
                    Step::Modify(*edit),
                    old(self).progress,
                    buffer,
                    reply,
                ),
    {
        match self.progress.stage {
            Stage::WriteBack(_, _) => {
                if let Reply::Done = reply {
                    self.next_step();
                }
            },
            _ => {
                if let Reply::Value(value) = reply {
                    self.progress.stage = Stage::WriteBack(edit.register(), edit.apply(value));
                }
            },
        }
    }

    /// Takes the address or the instruction that is being read back.
    fn capture(&mut self, value: u32)
        requires
            old(self).progress.position < old(self).steps.len(),
        ensures
            final(self).steps == old(self).steps,
            final(self).outcome == old(self).outcome,
            final(self).progress == if old(self).progress.stage == Stage::Second {
                (Progress { instruction: value, ..old(self).progress }).next_step()
            } else {
                (Progress { address: value, ..old(self).progress }).at(Stage::Second)
            },
    {
        match self.progress.stage {
            Stage::Second => {
                self.progress.instruction = pac::ir_instruction(value);
                self.next_step();
            },
            _ => {
                self.progress.address = pac::ar_address(value);
                self.progress.stage = Stage::Second;
            },
        }
    }

    /// Takes a reply while setting off the transaction.
    fn trigger<W: Word>(&mut self, reply: Reply<W>)
        requires
            old(self).progress.position < old(self).steps.len(),
        ensures
            final(self).steps == old(self).steps,
            final(self).outcome == old(self).outcome,
            forall|buffer: Seq<W>|
                (final(self).progress, buffer) == #[trigger] after(
                    Step::Trigger,
                    old(self).progress,
                    buffer,
                    reply,
                ),
    {
        match self.progress.stage {
            Stage::WriteBack(_, _) => {
                if let Reply::Done = reply {
                    self.next_step();
                }
            },
            _ => {
                if let Reply::Value(ccr) = reply {
                    self.progress.stage = if pac::ccr_admode(ccr) == 0 {
                        Stage::WriteBack(
                            Register::Ir,
                            pac::ir_with_instruction(0, self.progress.instruction),
                        )
                    } else {
                        Stage::WriteBack(
                            Register::Ar,
                            pac::ar_with_address(0, self.progress.address),
                        )
                    };
                }
            },
        }
    }

    /// Takes a reply while receiving the `len` words of the buffer, and gives back the word that
    /// has to be stored.
    fn receive<W: Word>(&mut self, len: usize, reply: Reply<W>) -> (stored: Option<W>)
        requires
            old(self).progress.position < old(self).steps.len(),
        ensures
            final(self).steps == old(self).steps,
            final(self).outcome == old(self).outcome,
            stored is Some ==> old(self).progress.word < len,
            forall|buffer: Seq<W>|
                buffer.len() == len ==> #[trigger] after(
                    Step::Receive,
                    old(self).progress,
                    buffer,
                    reply,
                ) == (
                    final(self).progress,
                    match stored {
                        Some(word) => buffer.update(old(self).progress.word as int, word),
                        None => buffer,
                    },
                ),
    {
        if self.progress.word >= len {
            if let Reply::Done = reply {
                self.next_step();
            }
            return None;
        }
        match (self.progress.stage, reply) {
            (Stage::Ready, Reply::Data(word)) => {
                self.next_word(len);
                return Some(word);
            },
            (Stage::Ready, _) => {},
            (Stage::Second, Reply::Value(sr)) => {
                self.progress.stage = if pac::sr_ftf(sr) { Stage::Ready } else { Stage::First };
            },
            (_, Reply::Value(sr)) => {
                self.progress.stage = if pac::sr_tcf(sr) { Stage::Ready } else { Stage::Second };
            },
            (_, _) => {},
        }
        None
    }

    /// Takes a reply while sending the `len` words of the buffer.
    fn send<W: Word>(&mut self, len: usize, reply: Reply<W>)
        requires
            old(self).progress.position < old(self).steps.len(),
        ensures
            final(self).steps == old(self).steps,
            final(self).outcome == old(self).outcome,
            forall|buffer: Seq<W>|
                buffer.len() == len ==> (final(self).progress, buffer) == #[trigger] after(
                    Step::Send,
                    old(self).progress,
                    buffer,
                    reply,
                ),
    {
        if self.progress.word >= len {
            if let Reply::Done = reply {
                self.next_step();
            }
        } else {
            match (self.progress.stage, reply) {
                (Stage::Ready, Reply::Done) => self.next_word(len),
                (Stage::Ready, _) => {},
                (_, Reply::Value(sr)) => {
                    if pac::sr_ftf(sr) {
                        self.progress.stage = Stage::Ready;
                    }
                },
                (_, _) => {},
            }
        }
    }
}

/// The progress of an operation of which nothing is done.
pub open spec fn beginning() -> Progress {
    Progress { position: 0, word: 0, stage: Stage::First, address: 0, instruction: 0 }
}

} // verus!
