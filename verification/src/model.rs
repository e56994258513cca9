//! What a list of steps does to a device, and why carrying out its actions does just that.
//!
//! What is taken for granted of the device:
//!
//! - Its registers keep what is written to them until the peripheral is reset, but for the abort
//!   request in the control register, which is always read as 0. The flag clear register, which
//!   nobody reads, counts as holding what was written to it last.
//! - Its data register hands out one word after another and takes every word that is written to it,
//!   whatever data length the peripheral was given.
//! - A DMA transfer moves the whole buffer, in its order, by way of the data register. It has done
//!   so when its end has been waited for; here it does so at once when it is started, because
//!   nothing looks at the words in between.
//! - The status register cannot be written and is up to the device: it may say anything at any
//!   time, so an operation may have to poll it for as long as the device likes.

use vstd::prelude::*;

use crate::bits::{field, flag, with_flag};
use crate::config::OspiError;
use crate::register::Register;
use crate::sequence::Sequence;
use crate::step::{
    action_of, after, met, Action, Condition, Direction, Progress, Reply, Stage, Step,
};
use crate::word::Word;

verus! {

/// What the control register holds after a value is written to it: an abort request in it is not
/// kept.
pub open spec fn settled(cr: u32) -> u32 {
    with_flag(cr, 1, false)
}

/// What a register holds after a value is written to it.
pub open spec fn held(register: Register, value: u32) -> u32 {
    if register == Register::Cr {
        settled(value)
    } else {
        value
    }
}

/// A device, the buffer of the operation, and what the operation has read back.
#[verifier::ext_equal]
pub struct Model<W> {
    /// What the registers hold, other than the status register
    pub registers: Map<Register, u32>,
    /// What the registers of the peripheral hold after a reset
    pub reset: Map<Register, u32>,
    /// The address that was read back last
    pub address: u32,
    /// The instruction that was read back last
    pub instruction: u32,
    /// The buffer of the operation
    pub buffer: Seq<W>,
    /// The words that the data register hands out
    pub incoming: Seq<W>,
    /// How many of them it has handed out
    pub received: nat,
    /// The words that were written to the data register
    pub outgoing: Seq<W>,
}

impl<W: Word> Model<W> {
    /// The device after a write to a register.
    pub open spec fn written(self, register: Register, value: u32) -> Self {
        if register == Register::Sr {
            self
        } else {
            Model { registers: self.registers.insert(register, held(register, value)), ..self }
        }
    }

    /// The device after the peripheral is reset. The I/O manager and the clock registers are not
    /// part of the peripheral.
    pub open spec fn restarted(self) -> Self {
        Model {
            registers: self.registers.insert(Register::Cr, self.reset[Register::Cr]).insert(
                Register::Dcr1,
                self.reset[Register::Dcr1],
            ).insert(Register::Dcr2, self.reset[Register::Dcr2]).insert(
                Register::Dcr3,
                self.reset[Register::Dcr3],
            ).insert(Register::Dcr4, self.reset[Register::Dcr4]).insert(
                Register::Dlr,
                self.reset[Register::Dlr],
            ).insert(Register::Ar, self.reset[Register::Ar]).insert(
                Register::Ccr,
                self.reset[Register::Ccr],
            ).insert(Register::Tcr, self.reset[Register::Tcr]).insert(
                Register::Ir,
                self.reset[Register::Ir],
            ).insert(Register::Abr, self.reset[Register::Abr]).insert(
                Register::Wccr,
                self.reset[Register::Wccr],
            ).insert(Register::Wtcr, self.reset[Register::Wtcr]),
            ..self
        }
    }

    /// The device and the buffer once some words of the buffer are received.
    pub open spec fn with_received(self, words: nat) -> Self {
        Model {
            buffer: Seq::new(
                self.buffer.len(),
                |i: int|
                    if i < words {
                        self.incoming[self.received + i]
                    } else {
                        self.buffer[i]
                    },
            ),
            received: self.received + words,
            ..self
        }
    }

    /// The device once some words of the buffer are sent.
    pub open spec fn with_sent(self, words: nat) -> Self {
        Model { outgoing: self.outgoing + self.buffer.take(words as int), ..self }
    }

    /// The device and the buffer once all words of the buffer are received.
    pub open spec fn filled(self) -> Self {
        Model {
            buffer: Seq::new(self.buffer.len(), |i: int| self.incoming[self.received + i]),
            received: self.received + self.buffer.len(),
            ..self
        }
    }

    /// The device once all words of the buffer are sent.
    pub open spec fn emptied(self) -> Self {
        Model { outgoing: self.outgoing + self.buffer, ..self }
    }

    /// The register that sets off a transaction, and what goes into it: the address, or the
    /// instruction if there is no address phase.
    pub open spec fn setting_off(self) -> (Register, u32) {
        if field(self.registers[Register::Ccr], 8, 3) == 0 {
            (Register::Ir, self.instruction)
        } else {
            (Register::Ar, self.address)
        }
    }

    /// The device and the buffer once a step is done.
    pub open spec fn effect(self, step: Step) -> Self {
        match step {
            Step::EnableClock => self.restarted(),
            Step::Modify(edit) => self.written(
                edit.target(),
                edit.applied(self.registers[edit.target()]),
            ),
            Step::Write(register, value) => self.written(register, value),
            Step::Capture => Model {
                address: self.registers[Register::Ar],
                instruction: self.registers[Register::Ir],
                ..self
            },
            Step::Trigger => self.written(self.setting_off().0, self.setting_off().1),
            Step::Receive => self.filled(),
            Step::Send => self.emptied(),
            Step::StartDma(_, Direction::Receive) => self.filled(),
            Step::StartDma(_, Direction::Send) => self.emptied(),
            _ => self,
        }
    }

    /// The device and the buffer once some steps are done, one after the other.
    pub open spec fn execute(self, steps: Seq<Step>) -> Self
        decreases steps.len(),
    {
        if steps.len() == 0 {
            self
        } else {
            self.execute(steps.drop_last()).effect(steps.last())
        }
    }

    /// The answer of the device to an action, and the device after it, if the status register
    /// reads `status` at that time.
    pub open spec fn respond(self, action: Action<W>, status: u32) -> (Reply<W>, Self) {
        match action {
            Action::EnableClock => (Reply::Done, self.restarted()),
            Action::Read(Register::Sr) => (Reply::Value(status), self),
            Action::Read(register) => (Reply::Value(self.registers[register]), self),
            Action::Write(register, value) => (Reply::Done, self.written(register, value)),
            Action::ReadData(_) => (
                Reply::Data(self.incoming[self.received as int]),
                Model { received: self.received + 1, ..self },
            ),
            Action::WriteData(word) => (
                Reply::Done,
                Model { outgoing: self.outgoing.push(word), ..self },
            ),
            Action::StartDma(_, Direction::Receive) => (Reply::Done, self.filled()),
            Action::StartDma(_, Direction::Send) => (Reply::Done, self.emptied()),
            _ => (Reply::Done, self),
        }
    }
}

/// An operation and the device that it is carried out on.
#[verifier::ext_equal]
pub struct Run<W> {
    /// How far the operation has come
    pub progress: Progress,
    /// The device
    pub model: Model<W>,
}

/// The status of a peripheral that is idle, whose transfer is complete and whose FIFO is ready.
pub open spec fn ready(status: u32) -> bool {
    !flag(status, 5) && flag(status, 1) && flag(status, 2)
}

impl<W: Word> Run<W> {
    /// Carries out one action, while the status register reads `status`, and takes the answer.
    pub open spec fn round(self, steps: Seq<Step>, status: u32) -> Self {
        if self.progress.position < steps.len() {
            let step = steps[self.progress.position as int];
            let action = action_of(step, self.progress, self.model.buffer);
            let (reply, model) = self.model.respond(action, status);
            let (progress, buffer) = after(step, self.progress, model.buffer, reply);
            Run {
                progress,
                model: Model {
                    buffer,
                    address: progress.address,
                    instruction: progress.instruction,
                    ..model
                },
            }
        } else {
            self
        }
    }

    /// Carries out one action after the other, as many as there are values in `status`, which says
    /// what the status register reads at the time of each of them.
    pub open spec fn drive(self, steps: Seq<Step>, status: Seq<u32>) -> Self
        decreases status.len(),
    {
        if status.len() == 0 {
            self
        } else {
            self.drive(steps, status.drop_last()).round(steps, status.last())
        }
    }

    /// Whether all steps are done.
    pub open spec fn completed(self, steps: Seq<Step>) -> bool {
        self.progress.position >= steps.len()
    }

    /// Whether the run is somewhere in a step, on a device that was `reached` when the step began.
    /// Words that were received are in the buffer, words that were sent have left it, and nothing
    /// else is different.
    pub open spec fn amid(self, step: Step, reached: Model<W>) -> bool {
        let word = self.progress.word as nat;
        let stage = self.progress.stage;
        let len = reached.buffer.len();
        &&& self.progress.address == self.model.address
        &&& self.progress.instruction == self.model.instruction
        &&& match step {
            Step::Modify(edit) => {
                let target = edit.target();
                &&& word == 0
                &&& self.model == reached
                &&& stage == Stage::First || stage == Stage::WriteBack(
                    target,
                    edit.applied(reached.registers[target]),
                )
            },
            Step::Capture => {
                &&& word == 0
                &&& stage == Stage::First && self.model == reached || stage == Stage::Second
                    && self.model == (Model { address: reached.registers[Register::Ar], ..reached })
            },
            Step::Trigger => {
                let (register, value) = reached.setting_off();
                &&& word == 0
                &&& self.model == reached
                &&& stage == Stage::First || stage == Stage::WriteBack(register, value)
            },
            Step::Receive => {
                &&& word < len || word == 0
                &&& self.model == reached.with_received(word)
                &&& stage == Stage::First || stage == Stage::Second || stage == Stage::Ready
            },
            Step::Send => {
                &&& word < len || word == 0
                &&& self.model == reached.with_sent(word)
                &&& stage == Stage::First || stage == Stage::Ready
            },
            _ => {
                &&& word == 0
                &&& self.model == reached
                &&& stage == Stage::First
            },
        }
    }

    /// Whether the run has carried out a part of an operation that began on `model`: the steps
    /// before its position are done, the step at its position is under way, and no later one has
    /// begun.
    pub open spec fn on_the_way(self, model: Model<W>, steps: Seq<Step>) -> bool {
        let position = self.progress.position as int;
        if position < steps.len() {
            self.amid(steps[position], model.execute(steps.take(position)))
        } else {
            self == begin(steps.len(), model.execute(steps))
        }
    }
}

/// At the beginning of the step at `position`, on a device.
pub open spec fn begin<W: Word>(position: nat, model: Model<W>) -> Run<W> {
    Run {
        progress: Progress {
            position: position as usize,
            word: 0,
            stage: Stage::First,
            address: model.address,
            instruction: model.instruction,
        },
        model,
    }
}

/// A sequence that is carried out on a device.
pub open spec fn carried_out<W: Word>(sequence: Sequence, model: Model<W>) -> Run<W> {
    Run {
        progress: sequence.progress_spec(),
        model: Model {
            address: sequence.progress_spec().address,
            instruction: sequence.progress_spec().instruction,
            ..model
        },
    }
}

/// The number of actions that the rest of a step takes on a device that is ready all the time,
/// with a buffer of `len` words.
pub open spec fn rounds_of_rest(step: Step, progress: Progress, len: nat) -> nat {
    match step {
        Step::Modify(_) | Step::Trigger => if progress.stage is WriteBack {
            1
        } else {
            2
        },
        Step::Capture => if progress.stage is Second {
            1
        } else {
            2
        },
        Step::Receive | Step::Send => if progress.word >= len {
            1
        } else if progress.stage is Ready {
            (2 * (len - progress.word) - 1) as nat
        } else {
            2 * (len - progress.word) as nat
        },
        _ => 1,
    }
}

/// The number of actions that the steps from `position` on take on a device that is ready all the
/// time.
pub open spec fn rounds_from(steps: Seq<Step>, position: nat, len: nat) -> nat
    decreases steps.len() - position,
{
    if position < steps.len() {
        rounds_of_step(steps[position as int], len) + rounds_from(steps, position + 1, len)
    } else {
        0
    }
}

/// The number of actions that a step takes on a device that is ready all the time.
pub open spec fn rounds_of_step(step: Step, len: nat) -> nat {
    match step {
        Step::Modify(_) | Step::Capture | Step::Trigger => 2,
        Step::Receive | Step::Send => if len == 0 {
            1
        } else {
            2 * len
        },
        _ => 1,
    }
}

/// Doing nothing changes nothing.
pub broadcast proof fn lemma_execute_empty<W: Word>(model: Model<W>)
    ensures
        #[trigger] model.execute(Seq::<Step>::empty()) == model,
{
}

/// The last step acts on what the steps before it have left.
pub broadcast proof fn lemma_execute_push<W: Word>(model: Model<W>, steps: Seq<Step>, step: Step)
    ensures
        #[trigger] model.execute(steps.push(step)) == model.execute(steps).effect(step),
{
    assert(steps.push(step).drop_last() =~= steps);
}

/// Later steps act on what earlier steps have left.
pub broadcast proof fn lemma_execute_add<W: Word>(
    model: Model<W>,
    first: Seq<Step>,
    second: Seq<Step>,
)
    ensures
        #[trigger] model.execute(first + second) == model.execute(first).execute(second),
    decreases second.len(),
{
    if second.len() == 0 {
        assert(first + second =~= first);
    } else {
        lemma_execute_add(model, first, second.drop_last());
        assert((first + second).drop_last() =~= first + second.drop_last());
    }
}

/// How lists of steps are evaluated.
pub broadcast group group_execute {
    lemma_execute_empty,
    lemma_execute_push,
    lemma_execute_add,
}

/// Four steps, one after the other.
pub proof fn lemma_execute_four<W: Word>(model: Model<W>, a: Step, b: Step, c: Step, d: Step)
    ensures
        model.execute(seq![a, b, c, d]) == model.effect(a).effect(b).effect(c).effect(d),
{
    broadcast use group_execute;

    assert(seq![a, b, c, d] =~= Seq::empty().push(a).push(b).push(c).push(d));
}

/// Five steps, one after the other.
pub proof fn lemma_execute_five<W: Word>(
    model: Model<W>,
    a: Step,
    b: Step,
    c: Step,
    d: Step,
    e: Step,
)
    ensures
        model.execute(seq![a, b, c, d, e]) == model.effect(a).effect(b).effect(c).effect(d).effect(
            e,
        ),
{
    broadcast use group_execute;

    assert(seq![a, b, c, d, e] =~= Seq::empty().push(a).push(b).push(c).push(d).push(e));
}

/// Steps do not change the length of the buffer.
proof fn lemma_execute_keeps_length<W: Word>(model: Model<W>, steps: Seq<Step>)
    ensures
        model.execute(steps).buffer.len() == model.buffer.len(),
    decreases steps.len(),
{
    if steps.len() > 0 {
        lemma_execute_keeps_length(model, steps.drop_last());
    }
}

/// The beginning of a step is a part of the way.
proof fn lemma_begin_is_on_the_way<W: Word>(model: Model<W>, steps: Seq<Step>, position: nat)
    requires
        position <= steps.len() <= usize::MAX,
    ensures
        begin(position, model.execute(steps.take(position as int))).on_the_way(model, steps),
{
    let reached = model.execute(steps.take(position as int));
    if position < steps.len() {
        assert(reached.with_received(0) =~= reached);
        assert(reached.with_sent(0) =~= reached);
    } else {
        assert(steps.take(position as int) =~= steps);
    }
}

/// A round of a step that moves no words.
proof fn lemma_round_of_step<W: Word>(run: Run<W>, steps: Seq<Step>, reached: Model<W>, status: u32)
    requires
        run.progress.position < steps.len() <= usize::MAX,
        run.amid(steps[run.progress.position as int], reached),
        !(steps[run.progress.position as int] is Receive),
        !(steps[run.progress.position as int] is Send),
    ensures
        ({
            let position = run.progress.position as nat;
            let step = steps[position as int];
            let next = run.round(steps, status);
            let len = reached.buffer.len();
            ||| next == begin(position + 1, reached.effect(step))
            ||| {
                &&& next.progress.position == position
                &&& next.amid(step, reached)
                &&& ready(status) ==> rounds_of_rest(step, next.progress, len) < rounds_of_rest(
                    step,
                    run.progress,
                    len,
                )
            }
        }),
{
}

/// A round of a step that receives words.
proof fn lemma_round_of_receive<W: Word>(
    run: Run<W>,
    steps: Seq<Step>,
    reached: Model<W>,
    status: u32,
)
    requires
        run.progress.position < steps.len() <= usize::MAX,
        reached.buffer.len() <= usize::MAX,
        run.amid(steps[run.progress.position as int], reached),
        steps[run.progress.position as int] is Receive,
    ensures
        ({
            let position = run.progress.position as nat;
            let step = steps[position as int];
            let next = run.round(steps, status);
            let len = reached.buffer.len();
            ||| next == begin(position + 1, reached.effect(step))
            ||| {
                &&& next.progress.position == position
                &&& next.amid(step, reached)
                &&& ready(status) ==> rounds_of_rest(step, next.progress, len) < rounds_of_rest(
                    step,
                    run.progress,
                    len,
                )
            }
        }),
{
    let word = run.progress.word as nat;
    let len = reached.buffer.len();
    let next = run.round(steps, status);
    if len == 0 {
        assert(reached.with_received(0) =~= reached.effect(Step::Receive));
    } else if run.progress.stage is Ready {
        assert(next.model =~= reached.with_received(word + 1));
        if word + 1 == len {
            assert(reached.with_received(len) =~= reached.effect(Step::Receive));
        }
    } else {
        assert(next.model == run.model);
    }
}

/// A round of a step that sends words.
proof fn lemma_round_of_send<W: Word>(run: Run<W>, steps: Seq<Step>, reached: Model<W>, status: u32)
    requires
        run.progress.position < steps.len() <= usize::MAX,
        reached.buffer.len() <= usize::MAX,
        run.amid(steps[run.progress.position as int], reached),
        steps[run.progress.position as int] is Send,
    ensures
        ({
            let position = run.progress.position as nat;
            let step = steps[position as int];
            let next = run.round(steps, status);
            let len = reached.buffer.len();
            ||| next == begin(position + 1, reached.effect(step))
            ||| {
                &&& next.progress.position == position
                &&& next.amid(step, reached)
                &&& ready(status) ==> rounds_of_rest(step, next.progress, len) < rounds_of_rest(
                    step,
                    run.progress,
                    len,
                )
            }
        }),
{
    let word = run.progress.word as nat;
    let len = reached.buffer.len();
    let next = run.round(steps, status);
    if len == 0 {
        assert(reached.with_sent(0) =~= reached.effect(Step::Send));
    } else if run.progress.stage is Ready {
        assert(reached.buffer.take(word as int).push(reached.buffer[word as int])
            =~= reached.buffer.take((word + 1) as int));
        assert(next.model =~= reached.with_sent(word + 1));
        if word + 1 == len {
            assert(reached.with_sent(len) =~= reached.effect(Step::Send));
        }
    } else {
        assert(next.model == run.model);
    }
}

/// The number of actions that the rest of a run takes on a device that is ready all the time.
spec fn rounds_left<W: Word>(run: Run<W>, steps: Seq<Step>, len: nat) -> nat {
    let position = run.progress.position as nat;
    if position < steps.len() {
        rounds_of_rest(steps[position as int], run.progress, len) + rounds_from(
            steps,
            position + 1,
            len,
        )
    } else {
        0
    }
}

/// A round of a run on its way leads to a run on its way and, on a device that is ready, nearer to
/// the end.
proof fn lemma_round<W: Word>(run: Run<W>, model: Model<W>, steps: Seq<Step>, status: u32)
    requires
        steps.len() <= usize::MAX,
        model.buffer.len() <= usize::MAX,
        run.on_the_way(model, steps),
    ensures
        run.round(steps, status).on_the_way(model, steps),
        ready(status) && !run.completed(steps) ==> rounds_left(
            run.round(steps, status),
            steps,
            model.buffer.len(),
        ) < rounds_left(run, steps, model.buffer.len()),
{
    let position = run.progress.position as nat;
    if position < steps.len() {
        let step = steps[position as int];
        let reached = model.execute(steps.take(position as int));
        lemma_execute_keeps_length(model, steps.take(position as int));
        if step is Receive {
            lemma_round_of_receive(run, steps, reached, status);
        } else if step is Send {
            lemma_round_of_send(run, steps, reached, status);
        } else {
            lemma_round_of_step(run, steps, reached, status);
        }
        assert(steps.take((position + 1) as int).drop_last() =~= steps.take(position as int));
        assert(model.execute(steps.take((position + 1) as int)) == reached.effect(step));
        lemma_begin_is_on_the_way(model, steps, position + 1);
    }
}

/// An operation that is carried out on a device, however long the device makes it wait, does its
/// steps in their order and nothing else: at any time the steps before its position have had their
/// effect, and at most the one at its position has begun.
pub proof fn law_run_keeps_to_its_steps<W: Word>(
    model: Model<W>,
    steps: Seq<Step>,
    status: Seq<u32>,
)
    requires
        steps.len() <= usize::MAX,
        model.buffer.len() <= usize::MAX,
    ensures
        begin(0, model).drive(steps, status).on_the_way(model, steps),
    decreases status.len(),
{
    if status.len() == 0 {
        assert(steps.take(0) =~= Seq::<Step>::empty());
        lemma_begin_is_on_the_way(model, steps, 0);
    } else {
        law_run_keeps_to_its_steps(model, steps, status.drop_last());
        lemma_round(
            begin(0, model).drive(steps, status.drop_last()),
            model,
            steps,
            status.last(),
        );
    }
}

/// An operation that has come to its end, however long the device made it wait on the way, has had
/// the effect of its steps on the device and the buffer.
pub proof fn law_completed_run_has_the_effect_of_its_steps<W: Word>(
    model: Model<W>,
    steps: Seq<Step>,
    status: Seq<u32>,
)
    requires
        steps.len() <= usize::MAX,
        model.buffer.len() <= usize::MAX,
    ensures
        ({
            let run = begin(0, model).drive(steps, status);
            run.completed(steps) ==> run == begin(steps.len(), model.execute(steps))
        }),
{
    law_run_keeps_to_its_steps(model, steps, status);
}

/// An operation comes to its end once the device has become ready, whatever it was before: after as
/// many actions on a ready device as the operation has without any waiting, if not earlier.
pub proof fn law_ready_device_completes_the_run<W: Word>(
    model: Model<W>,
    steps: Seq<Step>,
    waiting: Seq<u32>,
    afterwards: Seq<u32>,
)
    requires
        steps.len() <= usize::MAX,
        model.buffer.len() <= usize::MAX,
        forall|i: int| 0 <= i < afterwards.len() ==> ready(#[trigger] afterwards[i]),
        afterwards.len() >= rounds_from(steps, 0, model.buffer.len()),
    ensures
        begin(0, model).drive(steps, waiting + afterwards) == begin(
            steps.len(),
            model.execute(steps),
        ),
{
    lemma_ready_rounds(model, steps, waiting, afterwards);
    law_run_keeps_to_its_steps(model, steps, waiting + afterwards);
    let run = begin(0, model).drive(steps, waiting + afterwards);
    if !run.completed(steps) {
        assert(rounds_left(run, steps, model.buffer.len()) > 0);
    }
}

/// The rest of a run takes no more actions than all of it.
proof fn lemma_rounds_left<W: Word>(run: Run<W>, model: Model<W>, steps: Seq<Step>)
    requires
        run.on_the_way(model, steps),
    ensures
        rounds_left(run, steps, model.buffer.len()) <= rounds_from(steps, 0, model.buffer.len()),
{
    let position = run.progress.position as nat;
    if position < steps.len() {
        lemma_execute_keeps_length(model, steps.take(position as int));
        lemma_rounds_from(steps, 0, position, model.buffer.len());
    }
}

proof fn lemma_rounds_from(steps: Seq<Step>, first: nat, position: nat, len: nat)
    requires
        first <= position,
    ensures
        rounds_from(steps, position, len) <= rounds_from(steps, first, len),
    decreases position - first,
{
    if first < position {
        lemma_rounds_from(steps, first + 1, position, len);
    }
}

/// On a ready device the end comes nearer with every action.
proof fn lemma_ready_rounds<W: Word>(
    model: Model<W>,
    steps: Seq<Step>,
    waiting: Seq<u32>,
    afterwards: Seq<u32>,
)
    requires
        steps.len() <= usize::MAX,
        model.buffer.len() <= usize::MAX,
        forall|i: int| 0 <= i < afterwards.len() ==> ready(#[trigger] afterwards[i]),
    ensures
        ({
            let run = begin(0, model).drive(steps, waiting + afterwards);
            let len = model.buffer.len();
            run.completed(steps) || rounds_left(run, steps, len) + afterwards.len() <= rounds_from(
                steps,
                0,
                len,
            )
        }),
    decreases afterwards.len(),
{
    if afterwards.len() == 0 {
        assert(waiting + afterwards =~= waiting);
        law_run_keeps_to_its_steps(model, steps, waiting);
        lemma_rounds_left(begin(0, model).drive(steps, waiting), model, steps);
    } else {
        let earlier = afterwards.drop_last();
        assert forall|i: int| 0 <= i < earlier.len() implies ready(#[trigger] earlier[i]) by {
            assert(earlier[i] == afterwards[i]);
        }
        lemma_ready_rounds(model, steps, waiting, earlier);
        assert((waiting + afterwards).drop_last() =~= waiting + earlier);
        assert(ready(afterwards[afterwards.len() - 1]));
        law_run_keeps_to_its_steps(model, steps, waiting + earlier);
        lemma_round(
            begin(0, model).drive(steps, waiting + earlier),
            model,
            steps,
            afterwards.last(),
        );
    }
}

/// A round is what the owner of the hardware does with a sequence: it asks for the action, has the
/// device answer it, and hands the answer back, with the buffer as DMA may have left it.
pub proof fn law_round_is_action_and_advance<W: Word>(
    sequence: Sequence,
    model: Model<W>,
    status: u32,
)
    ensures
        ({
            let run = Run { progress: sequence.progress_spec(), model };
            let next = run.round(sequence.steps_spec(), status);
            let (reply, answered) = model.respond(sequence.next_action(model.buffer), status);
            &&& (next.progress, next.model.buffer) == sequence.advanced(answered.buffer, reply)
            &&& sequence.progress_spec().position < sequence.steps_spec().len() ==> {
                &&& next.model.registers == answered.registers
                &&& next.model.incoming == answered.incoming
                &&& next.model.received == answered.received
                &&& next.model.outgoing == answered.outgoing
            }
        }),
{
}

/// A new sequence that is carried out on a device, however long the device makes it wait, has the
/// effect of its steps once it has come to its end, and it comes to its end once the device stays
/// ready.
pub proof fn law_new_sequence_performs_its_steps<W: Word>(
    sequence: Sequence,
    steps: Seq<Step>,
    outcome: Result<(), OspiError>,
    model: Model<W>,
    status: Seq<u32>,
    afterwards: Seq<u32>,
)
    requires
        sequence.is_new(steps, outcome),
        steps.len() <= usize::MAX,
        model.buffer.len() <= usize::MAX,
    ensures
        ({
            let start = carried_out(sequence, model);
            let run = start.drive(steps, status);
            &&& start == begin(0, start.model)
            &&& run.completed(steps) ==> run == begin(steps.len(), start.model.execute(steps))
            &&& afterwards.len() >= rounds_from(steps, 0, model.buffer.len()) && (forall|i: int|
                0 <= i < afterwards.len() ==> ready(#[trigger] afterwards[i])) ==> start.drive(
                steps,
                status + afterwards,
            ).completed(steps)
        }),
{
    let started = carried_out(sequence, model).model;
    law_completed_run_has_the_effect_of_its_steps(started, steps, status);
    if afterwards.len() >= rounds_from(steps, 0, model.buffer.len()) && (forall|i: int|
        0 <= i < afterwards.len() ==> ready(#[trigger] afterwards[i])) {
        law_ready_device_completes_the_run(started, steps, status, afterwards);
    }
}

/// A sequence whose steps are all done asks for nothing more than to return its outcome, and stays
/// where it is.
pub proof fn law_finished_sequence_returns_its_outcome<W: Word>(
    sequence: Sequence,
    buffer: Seq<W>,
    reply: Reply<W>,
)
    requires
        sequence.progress_spec().position >= sequence.steps_spec().len(),
    ensures
        sequence.next_action(buffer) == Action::<W>::Finish(sequence.outcome_spec()),
        sequence.advanced(buffer, reply) == (sequence.progress_spec(), buffer),
{
}

/// A step that waits for the status register goes on if and only if the condition is met; as long
/// as it is not, nothing changes and the register is read again.
pub proof fn law_wait_ends_when_the_condition_is_met<W: Word>(
    condition: Condition,
    progress: Progress,
    buffer: Seq<W>,
    sr: u32,
)
    ensures
        action_of(Step::Wait(condition), progress, buffer) == Action::<W>::Read(Register::Sr),
        after(Step::Wait(condition), progress, buffer, Reply::Value(sr)) == if met(condition, sr) {
            (progress.next_step(), buffer)
        } else {
            (progress, buffer)
        },
{
}

/// While a word is waited for, nothing happens: a device that reports neither the end of the
/// transfer nor data in the FIFO is polled over and over, and a device that reports no room in the
/// FIFO likewise.
pub proof fn law_unready_device_is_polled_again<W: Word>(
    run: Run<W>,
    steps: Seq<Step>,
    first: u32,
    second: u32,
)
    requires
        run.progress.position < steps.len(),
        run.progress.word < run.model.buffer.len(),
        run.progress.stage == Stage::First,
        run.progress.address == run.model.address,
        run.progress.instruction == run.model.instruction,
    ensures
        steps[run.progress.position as int] == Step::Receive && !flag(first, 1) && !flag(second, 2)
            ==> run.round(steps, first).round(steps, second) == run,
        steps[run.progress.position as int] == Step::Send && !flag(first, 2) ==> run.round(
            steps,
            first,
        ) == run,
{
}

} // verus!
