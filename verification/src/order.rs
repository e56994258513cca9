//! In which order the operations do what they do, and what holds meanwhile.
//!
//! The laws here speak of single steps of an operation and of the device at the time of each of
//! them: what is in its registers when a transaction is set off, which bits never change, what is
//! waited for and when.

use vstd::prelude::*;

use crate::bits::{field, flag, group_fields, lemma_ones, with_field, with_flag};
use crate::config::{OspiError, TransferConfig};
use crate::edit::{alternate_bytes, phases, write_phases, Edit};
use crate::enums::{OspiMode, OspiWidth};
use crate::fields::lemma_clear_complete;
use crate::gpio::{AfType, DmaChannel, OutputType, Pin, Pull, Speed};
use crate::laws::{
    has_pin, holds_phases, law_command_takes_effect, law_memory_mapped_mode_is_entered, moves,
    sets_off,
};
use crate::model::{group_execute, settled, Model, Run};
use crate::plan::{
    address_steps, alternate_bytes_steps, blocking_command_steps, blocking_read_steps,
    blocking_write_steps, clear_complete, command_outcome, command_steps, dma_read_steps,
    dma_write_steps, enable_memory_mapped_steps, connect, connection_steps, finish_dma_steps,
    instruction_steps, phase_steps, release_steps, too_wide, transfer_outcome, with_command, Pins,
};
use crate::register::Register;
use crate::step::{
    action_of, after, Action, Completion, Condition, Direction, Progress, Reply, Stage, Step,
};
use crate::word::Word;

verus! {

/// The device when the first `count` of some steps are done.
pub open spec fn at<W: Word>(model: Model<W>, steps: Seq<Step>, count: int) -> Model<W> {
    model.execute(steps.take(count))
}

/// The register that a step writes on a device, and the value that it writes.
pub open spec fn writes<W: Word>(model: Model<W>, step: Step) -> Option<(Register, u32)> {
    match step {
        Step::Modify(edit) => Some(
            (edit.target(), edit.applied(model.registers[edit.target()])),
        ),
        Step::Write(register, value) => Some((register, value)),
        Step::Trigger => if field(model.registers[Register::Ccr], 8, 3) == 0 {
            Some((Register::Ir, model.instruction))
        } else {
            Some((Register::Ar, model.address))
        },
        _ => None,
    }
}

/// Whether a step is about the pins or the clock of the peripheral.
pub open spec fn on_board(step: Step) -> bool {
    match step {
        Step::ConnectPin(_, _) => true,
        Step::DisconnectPin(_) => true,
        Step::EnableClock => true,
        Step::DisableClock => true,
        _ => false,
    }
}

/// A step that is said to write a register does so before it is left, once and with that value,
/// and nothing else is written meanwhile.
pub proof fn law_step_writes_what_is_said<W: Word>(
    run: Run<W>,
    steps: Seq<Step>,
    origin: Model<W>,
    status: u32,
)
    requires
        run.progress.position < steps.len() <= usize::MAX,
        origin.buffer.len() <= usize::MAX,
        run.amid(steps[run.progress.position as int], origin),
    ensures
        ({
            let step = steps[run.progress.position as int];
            let action = action_of(step, run.progress, run.model.buffer);
            let next = run.round(steps, status);
            &&& action matches Action::Write(register, value) ==> {
                &&& writes(origin, step) == Some((register, value))
                &&& next.progress.position == run.progress.position + 1
            }
            &&& writes(origin, step) is Some && next.progress.position != run.progress.position
                ==> action is Write
        }),
{
}

/// A register changes only where a step writes it, and then it holds what was written, but for an
/// abort request; or where the peripheral is reset.
pub proof fn law_only_writes_change_registers<W: Word>(model: Model<W>, step: Step)
    ensures
        step != Step::EnableClock ==> model.effect(step).registers == match writes(model, step) {
            Some((register, value)) => if register == Register::Sr {
                model.registers
            } else if register == Register::Cr {
                model.registers.insert(register, with_flag(value, 1, false))
            } else {
                model.registers.insert(register, value)
            },
            None => model.registers,
        },
{
}

/// Waiting for the peripheral to be idle lasts as long as BUSY, bit 5 of the status register, is
/// set; waiting for the end of a transfer lasts until TCF, bit 1, is set. Meanwhile nothing but the
/// status register is accessed and nothing changes.
pub proof fn law_wait_lasts_as_long_as_the_flag_says<W: Word>(
    run: Run<W>,
    steps: Seq<Step>,
    origin: Model<W>,
    status: u32,
)
    requires
        run.progress.position < steps.len() <= usize::MAX,
        run.amid(steps[run.progress.position as int], origin),
    ensures
        ({
            let step = steps[run.progress.position as int];
            let next = run.round(steps, status);
            step is Wait ==> {
                &&& action_of(step, run.progress, run.model.buffer) == Action::<W>::Read(
                    Register::Sr,
                )
                &&& next.model == run.model
                &&& step == Step::Wait(Condition::Idle) && flag(status, 5) ==> next == run
                &&& step == Step::Wait(Condition::Idle) && !flag(status, 5)
                    ==> next.progress.position == run.progress.position + 1
                &&& step == Step::Wait(Condition::Complete) && !flag(status, 1) ==> next == run
                &&& step == Step::Wait(Condition::Complete) && flag(status, 1)
                    ==> next.progress.position == run.progress.position + 1
            }
        }),
{
}

/// The data register is read only right after a poll of TCF, bit 1 of the status register, or of
/// FTF, bit 2, has found the flag set, the two being polled in turn; it is written only right after
/// a poll of FTF has found the flag set. The access has the size of a word.
pub proof fn law_word_waits_for_the_fifo<W: Word>(
    run: Run<W>,
    steps: Seq<Step>,
    origin: Model<W>,
    status: u32,
)
    requires
        run.progress.position < steps.len() <= usize::MAX,
        origin.buffer.len() <= usize::MAX,
        run.amid(steps[run.progress.position as int], origin),
        run.progress.word < origin.buffer.len(),
    ensures
        ({
            let step = steps[run.progress.position as int];
            let action = action_of(step, run.progress, run.model.buffer);
            let next = run.round(steps, status);
            let stage = run.progress.stage;
            &&& step == Step::Receive && stage == Stage::Ready ==> {
                &&& action == Action::<W>::ReadData(W::size_spec())
                &&& next.progress.stage == Stage::First
            }
            &&& step == Step::Receive && stage != Stage::Ready ==> {
                &&& action == Action::<W>::Read(Register::Sr)
                &&& next.model == run.model
                &&& next.progress == run.progress.at(
                    if stage == Stage::First && flag(status, 1) || stage == Stage::Second && flag(
                        status,
                        2,
                    ) {
                        Stage::Ready
                    } else if stage == Stage::First {
                        Stage::Second
                    } else {
                        Stage::First
                    },
                )
            }
            &&& step == Step::Send && stage == Stage::Ready ==> {
                &&& action == Action::WriteData(origin.buffer[run.progress.word as int])
                &&& next.progress.stage == Stage::First
            }
            &&& step == Step::Send && stage != Stage::Ready ==> {
                &&& action == Action::<W>::Read(Register::Sr)
                &&& next.model == run.model
                &&& next.progress == run.progress.at(
                    if flag(status, 2) {
                        Stage::Ready
                    } else {
                        Stage::First
                    },
                )
            }
        }),
{
}

/// Pins, the clock and DMA are each asked for once, as the step says.
pub proof fn law_pins_clock_and_dma_are_asked_for_once<W: Word>(
    run: Run<W>,
    steps: Seq<Step>,
    origin: Model<W>,
    status: u32,
)
    requires
        run.progress.position < steps.len() <= usize::MAX,
        run.amid(steps[run.progress.position as int], origin),
    ensures
        ({
            let step = steps[run.progress.position as int];
            let action = action_of(step, run.progress, run.model.buffer);
            let next = run.round(steps, status);
            &&& on_board(step) || step is StartDma || step is FinishDma ==> next.progress.position
                == run.progress.position + 1
            &&& step matches Step::ConnectPin(pin, kind) ==> action == Action::<W>::ConnectPin(
                pin,
                kind,
            )
            &&& step matches Step::DisconnectPin(pin) ==> action == Action::<W>::DisconnectPin(pin)
            &&& step is EnableClock ==> action == Action::<W>::EnableClock
            &&& step is DisableClock ==> action == Action::<W>::DisableClock
            &&& step matches Step::StartDma(channel, direction) ==> action == Action::<
                W,
            >::StartDma(channel, direction)
            &&& step matches Step::FinishDma(completion) ==> action == Action::<W>::FinishDma(
                completion,
            )
        }),
{
}

/// A reply that does not answer the action changes nothing: a register that is read is answered by
/// its value, the data register by a word, and everything else by the report that it is done.
pub proof fn law_wrong_reply_changes_nothing<W: Word>(
    step: Step,
    progress: Progress,
    buffer: Seq<W>,
    reply: Reply<W>,
)
    requires
        match action_of(step, progress, buffer) {
            Action::Read(_) => !(reply is Value),
            Action::ReadData(_) => !(reply is Data),
            _ => !(reply is Done),
        },
    ensures
        after(step, progress, buffer, reply) == (progress, buffer),
{
}

/// Whether a phase of some width fits on some number of lines.
pub open spec fn fits(phase: OspiWidth, lines: nat) -> bool {
    match phase {
        OspiWidth::NONE => true,
        OspiWidth::SING => lines >= 1,
        OspiWidth::DUAL => lines >= 2,
        OspiWidth::QUAD => lines >= 4,
        OspiWidth::OCTO => lines >= 8,
    }
}

/// A command is accepted if and only if it has an instruction or an address and each of its phases
/// fits on the lines that the driver has; otherwise it is refused as invalid. A transfer is refused
/// for its buffer if and only if that is empty, and else for its command.
pub proof fn law_command_is_accepted_if_it_fits(
    width: OspiWidth,
    command: TransferConfig,
    len: nat,
    lines: nat,
)
    requires
        lines == match width {
            OspiWidth::NONE => 0nat,
            OspiWidth::SING => 1,
            OspiWidth::DUAL => 2,
            OspiWidth::QUAD => 4,
            OspiWidth::OCTO => 8,
        },
    ensures
        lines == width.lines(),
        command_outcome(width, command) == if (command.instruction is Some || command.address
            is Some) && fits(command.iwidth, lines) && fits(command.adwidth, lines) && fits(
            command.abwidth,
            lines,
        ) && fits(command.dwidth, lines) {
            Ok::<(), OspiError>(())
        } else {
            Err::<(), OspiError>(OspiError::InvalidCommand)
        },
        len == 0 ==> transfer_outcome(width, len, command) == Err::<(), OspiError>(
            OspiError::EmptyBuffer,
        ),
        len > 0 ==> transfer_outcome(width, len, command) == command_outcome(width, command),
{
}

/// One step more.
pub(crate) proof fn lemma_at_next<W: Word>(model: Model<W>, steps: Seq<Step>, count: int)
    requires
        0 <= count < steps.len(),
    ensures
        at(model, steps, count + 1) == at(model, steps, count).effect(steps[count]),
{
    assert(steps.take(count + 1).drop_last() =~= steps.take(count));
}

/// No step at all.
pub(crate) proof fn lemma_at_start<W: Word>(model: Model<W>, steps: Seq<Step>)
    ensures
        at(model, steps, 0) == model,
{
    assert(steps.take(0) =~= Seq::<Step>::empty());
}

/// Every step.
pub(crate) proof fn lemma_at_end<W: Word>(model: Model<W>, steps: Seq<Step>)
    ensures
        at(model, steps, steps.len() as int) == model.execute(steps),
{
    assert(steps.take(steps.len() as int) =~= steps);
}

/// Within the first of two lists of steps.
pub(crate) proof fn lemma_at_first<W: Word>(
    model: Model<W>,
    first: Seq<Step>,
    second: Seq<Step>,
    count: int,
)
    requires
        0 <= count <= first.len(),
    ensures
        at(model, first + second, count) == at(model, first, count),
{
    assert((first + second).take(count) =~= first.take(count));
}

/// Within the second of two lists of steps.
pub(crate) proof fn lemma_at_second<W: Word>(
    model: Model<W>,
    first: Seq<Step>,
    second: Seq<Step>,
    count: int,
)
    requires
        0 <= count <= second.len(),
    ensures
        at(model, first + second, first.len() + count) == at(model.execute(first), second, count),
{
    broadcast use group_execute;

    assert((first + second).take(first.len() + count) =~= first + second.take(count));
}

/// What commands and transfers leave as it is: of the control register everything but the
/// functional mode (bits 28 and 29), DMAEN (bit 2) and the abort request (bit 1); of the timing
/// register everything but the dummy cycles; of the communication register the reserved bits, DQSE
/// and SIOO; and every register that holds no part of a command.
pub open spec fn kept_by_commands(
    before: Map<Register, u32>,
    registers: Map<Register, u32>,
) -> bool {
    &&& forall|bit: u32|
        bit < 32 && bit != 1 && bit != 2 && bit != 28 && bit != 29 ==> #[trigger] flag(
            registers[Register::Cr],
            bit,
        ) == flag(before[Register::Cr], bit)
    &&& forall|bit: u32|
        5 <= bit < 32 ==> #[trigger] flag(registers[Register::Tcr], bit) == flag(
            before[Register::Tcr],
            bit,
        )
    &&& forall|bit: u32|
        bit == 6 || bit == 7 || bit == 14 || bit == 15 || bit == 22 || bit == 23 || 28 <= bit < 32
            ==> #[trigger] flag(registers[Register::Ccr], bit) == flag(before[Register::Ccr], bit)
    &&& forall|register: Register|
        register != Register::Cr && register != Register::Tcr && register != Register::Ccr
            && register != Register::Dlr && register != Register::Abr && register != Register::Ir
            && register != Register::Ar && register != Register::Fcr
            ==> #[trigger] registers[register] == before[register]
}

/// Whether some steps leave, all the time, what commands and transfers leave as it is, and leave
/// the pins and the clock alone.
pub open spec fn changes_little<W: Word>(model: Model<W>, steps: Seq<Step>) -> bool {
    &&& forall|count: int|
        0 <= count <= steps.len() ==> kept_by_commands(
            model.registers,
            (#[trigger] at(model, steps, count)).registers,
        )
    &&& forall|i: int| 0 <= i < steps.len() ==> !on_board(#[trigger] steps[i])
}

spec fn mild(step: Step) -> bool {
    match step {
        Step::Modify(edit) => match edit {
            Edit::Mode(_) => true,
            Edit::Dma(_) => true,
            Edit::Dummy(_) => true,
            Edit::AlternateBytes(_) => true,
            Edit::Phases(_) => true,
            _ => false,
        },
        Step::Write(register, _) => {
            ||| register == Register::Dlr
            ||| register == Register::Abr
            ||| register == Register::Ir
            ||| register == Register::Ar
            ||| register == Register::Fcr
        },
        _ => !on_board(step),
    }
}

spec fn all_mild(steps: Seq<Step>) -> bool {
    forall|i: int| 0 <= i < steps.len() ==> mild(#[trigger] steps[i])
}

#[verifier::rlimit(30)]
proof fn lemma_phases_keep(v: u32, command: TransferConfig, bit: u32)
    requires
        bit == 6 || bit == 7 || bit == 14 || bit == 15 || bit == 22 || bit == 23 || 28 <= bit < 32,
    ensures
        flag(phases(v, command), bit) == flag(v, bit),
{
    broadcast use group_fields;

}

proof fn lemma_alternate_bytes_keep(v: u32, command: TransferConfig, bit: u32)
    requires
        bit == 6 || bit == 7 || bit == 14 || bit == 15 || bit == 22 || bit == 23 || 28 <= bit < 32,
    ensures
        flag(alternate_bytes(v, command), bit) == flag(v, bit),
{
    broadcast use group_fields;

}

proof fn lemma_mild_keeps<W: Word>(model: Model<W>, step: Step)
    requires
        mild(step),
    ensures
        kept_by_commands(model.registers, model.effect(step).registers),
{
    let before = model.registers;
    let registers = model.effect(step).registers;
    assert forall|bit: u32|
        bit < 32 && bit != 1 && bit != 2 && bit != 28 && bit != 29 implies #[trigger] flag(
        registers[Register::Cr],
        bit,
    ) == flag(before[Register::Cr], bit) by {
        broadcast use group_fields;

    }
    assert forall|bit: u32| 5 <= bit < 32 implies #[trigger] flag(registers[Register::Tcr], bit)
        == flag(before[Register::Tcr], bit) by {
        broadcast use group_fields;

    }
    assert forall|bit: u32|
        bit == 6 || bit == 7 || bit == 14 || bit == 15 || bit == 22 || bit == 23 || 28 <= bit
            < 32 implies #[trigger] flag(registers[Register::Ccr], bit) == flag(
        before[Register::Ccr],
        bit,
    ) by {
        match step {
            Step::Modify(Edit::Phases(command)) => {
                lemma_phases_keep(before[Register::Ccr], command, bit);
            },
            Step::Modify(Edit::AlternateBytes(command)) => {
                lemma_alternate_bytes_keep(before[Register::Ccr], command, bit);
            },
            _ => {},
        }
    }
}

proof fn lemma_all_mild_keep<W: Word>(model: Model<W>, steps: Seq<Step>, count: int)
    requires
        all_mild(steps),
        0 <= count <= steps.len(),
    ensures
        kept_by_commands(model.registers, at(model, steps, count).registers),
    decreases count,
{
    if count == 0 {
        lemma_at_start(model, steps);
    } else {
        lemma_all_mild_keep(model, steps, count - 1);
        lemma_at_next(model, steps, count - 1);
        assert(mild(steps[count - 1]));
        lemma_mild_keeps(at(model, steps, count - 1), steps[count - 1]);
    }
}

proof fn lemma_changes_little<W: Word>(model: Model<W>, steps: Seq<Step>)
    requires
        all_mild(steps),
    ensures
        changes_little(model, steps),
{
    assert forall|count: int| 0 <= count <= steps.len() implies kept_by_commands(
        model.registers,
        (#[trigger] at(model, steps, count)).registers,
    ) by {
        lemma_all_mild_keep(model, steps, count);
    }
    assert forall|i: int| 0 <= i < steps.len() implies !on_board(#[trigger] steps[i]) by {
        assert(mild(steps[i]));
    }
}

proof fn lemma_mild_command(
    before: Seq<Step>,
    width: OspiWidth,
    command: TransferConfig,
    data_len: Option<usize>,
    rest: Seq<Step>,
)
    requires
        all_mild(before),
        all_mild(rest),
    ensures
        all_mild(command_steps(width, command, data_len)),
        all_mild(with_command(before, width, command, data_len, rest)),
{
    let steps = command_steps(width, command, data_len);
    assert forall|i: int| 0 <= i < steps.len() implies mild(#[trigger] steps[i]) by {}
}

/// A command or a transfer, valid or refused, changes at no time anything in the control register
/// but the functional mode and DMAEN: the enable bit, the FIFO threshold and the dual-memory bit
/// are always what they were, and so are all registers that hold no part of a command. It leaves
/// the pins and the clock alone.
pub proof fn law_commands_and_transfers_change_little<W: Word>(
    model: Model<W>,
    width: OspiWidth,
    channel: DmaChannel,
    completion: Completion,
    len: usize,
    command: TransferConfig,
    data_len: Option<usize>,
)
    ensures
        changes_little(model, command_steps(width, command, data_len)),
        changes_little(model, blocking_command_steps(width, command)),
        changes_little(model, blocking_read_steps(width, len, command)),
        changes_little(model, blocking_write_steps(width, len, command)),
        changes_little(model, dma_read_steps(width, channel, completion, len, command)),
        changes_little(model, dma_write_steps(width, channel, completion, len, command)),
{
    let idle = seq![Step::Wait(Condition::Idle)];
    let quiet = seq![Step::Wait(Condition::Idle), Step::Modify(Edit::Dma(false))];
    lemma_mild_command(
        idle,
        width,
        command,
        data_len,
        seq![Step::Wait(Condition::Complete), clear_complete()],
    );
    lemma_mild_command(
        idle,
        width,
        command,
        None,
        seq![Step::Wait(Condition::Complete), clear_complete()],
    );
    lemma_mild_command(quiet, width, command, Some(len), read_rest());
    lemma_mild_command(quiet, width, command, Some(len), write_rest());
    lemma_mild_command(idle, width, command, Some(len), dma_read_rest(channel, completion));
    lemma_mild_command(idle, width, command, Some(len), dma_write_rest(channel, completion));
    lemma_changes_little(model, command_steps(width, command, data_len));
    lemma_changes_little(model, blocking_command_steps(width, command));
    lemma_changes_little(model, blocking_read_steps(width, len, command));
    lemma_changes_little(model, blocking_write_steps(width, len, command));
    lemma_changes_little(model, dma_read_steps(width, channel, completion, len, command));
    lemma_changes_little(model, dma_write_steps(width, channel, completion, len, command));
}

// What follows the command in each transfer.
spec fn read_rest() -> Seq<Step> {
    seq![
        Step::Capture,
        Step::Modify(Edit::Mode(OspiMode::IndirectRead)),
        Step::Trigger,
        Step::Receive,
        Step::Wait(Condition::Complete),
        clear_complete(),
    ]
}

spec fn write_rest() -> Seq<Step> {
    seq![
        Step::Modify(Edit::Mode(OspiMode::IndirectWrite)),
        Step::Send,
        Step::Wait(Condition::Complete),
        clear_complete(),
    ]
}

spec fn dma_read_rest(channel: DmaChannel, completion: Completion) -> Seq<Step> {
    seq![
        Step::Capture,
        Step::Modify(Edit::Mode(OspiMode::IndirectRead)),
        Step::Trigger,
        Step::StartDma(channel, Direction::Receive),
        Step::Modify(Edit::Dma(true)),
        Step::FinishDma(completion),
    ] + finish_dma_steps()
}

spec fn dma_write_rest(channel: DmaChannel, completion: Completion) -> Seq<Step> {
    seq![
        Step::Modify(Edit::Mode(OspiMode::IndirectWrite)),
        Step::StartDma(channel, Direction::Send),
        Step::Modify(Edit::Dma(true)),
        Step::FinishDma(completion),
    ] + finish_dma_steps()
}

/// The registers hold everything of a command but its instruction and its address, the writing of
/// which sets off the transaction: the widths, sizes and rates of its phases, its alternate bytes,
/// its dummy cycles and its number of words, less one.
pub open spec fn loaded(
    before: Map<Register, u32>,
    registers: Map<Register, u32>,
    command: TransferConfig,
    data_len: Option<usize>,
) -> bool {
    let ccr = registers[Register::Ccr];
    &&& holds_phases(ccr, command)
    &&& field(registers[Register::Tcr], 0, 5) == command.dummy.code()
    &&& match data_len {
        Some(len) => len > 0 ==> registers[Register::Dlr] == (len - 1) % 0x1_0000_0000,
        None => registers[Register::Dlr] == 0,
    }
    &&& match command.alternate_bytes {
        Some(bytes) => {
            &&& registers[Register::Abr] == bytes
            &&& flag(ccr, 19) == command.abdtr
            &&& field(ccr, 20, 2) == command.absize.code()
        },
        None => {
            &&& registers[Register::Abr] == before[Register::Abr]
            &&& flag(ccr, 19) == flag(before[Register::Ccr], 19)
            &&& field(ccr, 20, 2) == field(before[Register::Ccr], 20, 2)
        },
    }
}

/// Whether every step that may set off a transaction does so when the command is in the registers.
pub open spec fn set_off_when_loaded<W: Word>(
    model: Model<W>,
    steps: Seq<Step>,
    command: TransferConfig,
    data_len: Option<usize>,
) -> bool {
    forall|i: int|
        0 <= i < steps.len() && sets_off(#[trigger] steps[i]) ==> loaded(
            model.registers,
            at(model, steps, i).registers,
            command,
            data_len,
        )
}

/// Registers that are equal where `loaded` looks.
spec fn same_load(one: Map<Register, u32>, other: Map<Register, u32>) -> bool {
    &&& one[Register::Ccr] == other[Register::Ccr]
    &&& one[Register::Tcr] == other[Register::Tcr]
    &&& one[Register::Dlr] == other[Register::Dlr]
    &&& one[Register::Abr] == other[Register::Abr]
}

/// Whether a step leaves the registers where `loaded` looks as they are.
spec fn light(step: Step) -> bool {
    match step {
        Step::Modify(edit) => match edit {
            Edit::Mode(_) => true,
            Edit::Dma(_) => true,
            _ => false,
        },
        Step::Write(register, _) => {
            ||| register == Register::Ir
            ||| register == Register::Ar
            ||| register == Register::Fcr
        },
        _ => !on_board(step),
    }
}

proof fn lemma_light<W: Word>(model: Model<W>, steps: Seq<Step>, count: int)
    requires
        0 <= count <= steps.len(),
        forall|i: int| 0 <= i < count ==> light(#[trigger] steps[i]),
    ensures
        same_load(at(model, steps, count).registers, model.registers),
    decreases count,
{
    if count == 0 {
        lemma_at_start(model, steps);
    } else {
        lemma_light(model, steps, count - 1);
        lemma_at_next(model, steps, count - 1);
        assert(light(steps[count - 1]));
    }
}

// A command up to where it sets off its transaction.
spec fn loading_steps(command: TransferConfig, data_len: Option<usize>) -> Seq<Step> {
    seq![Step::Modify(Edit::Mode(OspiMode::IndirectWrite))] + alternate_bytes_steps(command)
        + phase_steps(command, data_len)
}

// The rest of it.
spec fn launching_steps(command: TransferConfig) -> Seq<Step> {
    instruction_steps(command) + address_steps(command)
}

proof fn lemma_command_parts(width: OspiWidth, command: TransferConfig, data_len: Option<usize>)
    requires
        command_outcome(width, command) is Ok,
    ensures
        command_steps(width, command, data_len) == loading_steps(command, data_len)
            + launching_steps(command),
        forall|i: int|
            0 <= i < loading_steps(command, data_len).len() ==> !sets_off(
                #[trigger] loading_steps(command, data_len)[i],
            ),
        forall|i: int|
            0 <= i < launching_steps(command).len() ==> light(
                #[trigger] launching_steps(command)[i],
            ),
{
    assert(command_steps(width, command, data_len) =~= loading_steps(command, data_len)
        + launching_steps(command));
}

/// Within a command, a transaction is set off when the command is loaded.
proof fn lemma_command_set_off<W: Word>(
    model: Model<W>,
    width: OspiWidth,
    command: TransferConfig,
    data_len: Option<usize>,
    i: int,
)
    requires
        command_outcome(width, command) is Ok,
        0 <= i < command_steps(width, command, data_len).len(),
        sets_off(command_steps(width, command, data_len)[i]),
    ensures
        loaded(
            model.registers,
            at(model, command_steps(width, command, data_len), i).registers,
            command,
            data_len,
        ),
{
    let loading = loading_steps(command, data_len);
    let launching = launching_steps(command);
    let x = model.execute(loading);
    lemma_command_parts(width, command, data_len);
    if i < loading.len() {
        assert(!sets_off(loading[i]));
    } else {
        lemma_at_second(model, loading, launching, i - loading.len());
        lemma_light(x, launching, i - loading.len());
        lemma_light(x, launching, launching.len() as int);
        lemma_at_end(x, launching);
        assert(model.execute(loading + launching) == x.execute(launching)) by {
            broadcast use group_execute;

        }
        law_command_takes_effect(model, width, command, data_len);
    }
}

proof fn lemma_set_off<W: Word>(
    model: Model<W>,
    before: Seq<Step>,
    width: OspiWidth,
    command: TransferConfig,
    data_len: Option<usize>,
    rest: Seq<Step>,
)
    requires
        command_outcome(width, command) is Ok,
        forall|i: int|
            0 <= i < before.len() ==> light(#[trigger] before[i]) && !sets_off(before[i]),
        forall|i: int, j: int|
            0 <= i < j < rest.len() && sets_off(#[trigger] rest[j]) ==> light(#[trigger] rest[i]),
    ensures
        set_off_when_loaded(
            model,
            with_command(before, width, command, data_len, rest),
            command,
            data_len,
        ),
{
    let middle = command_steps(width, command, data_len);
    let steps = with_command(before, width, command, data_len, rest);
    let readied = model.execute(before);
    let commanded = readied.execute(middle);
    lemma_light(model, before, before.len() as int);
    lemma_at_end(model, before);
    assert(steps =~= before + (middle + rest));
    assert forall|i: int| 0 <= i < steps.len() && sets_off(#[trigger] steps[i]) implies loaded(
        model.registers,
        at(model, steps, i).registers,
        command,
        data_len,
    ) by {
        if i >= before.len() {
            let j = i - before.len();
            lemma_at_second(model, before, middle + rest, j);
            if j < middle.len() {
                lemma_at_first(readied, middle, rest, j);
                lemma_command_set_off(readied, width, command, data_len, j);
            } else {
                let k = j - middle.len();
                assert(steps[i] == rest[k]);
                lemma_at_second(readied, middle, rest, k);
                lemma_light(commanded, rest, k);
                law_command_takes_effect(readied, width, command, data_len);
            }
        } else {
            assert(steps[i] == before[i]);
        }
    }
}

/// A transaction is never set off by half a command: whenever the instruction or the address is
/// written, everything else of the command is in the registers.
pub proof fn law_transaction_is_set_off_by_a_whole_command<W: Word>(
    model: Model<W>,
    width: OspiWidth,
    channel: DmaChannel,
    completion: Completion,
    len: usize,
    command: TransferConfig,
    data_len: Option<usize>,
    write_config: TransferConfig,
)
    requires
        command_outcome(width, command) is Ok,
        len > 0,
    ensures
        set_off_when_loaded(model, command_steps(width, command, data_len), command, data_len),
        set_off_when_loaded(model, blocking_command_steps(width, command), command, None),
        set_off_when_loaded(model, blocking_read_steps(width, len, command), command, Some(len)),
        set_off_when_loaded(model, blocking_write_steps(width, len, command), command, Some(len)),
        set_off_when_loaded(
            model,
            dma_read_steps(width, channel, completion, len, command),
            command,
            Some(len),
        ),
        set_off_when_loaded(
            model,
            dma_write_steps(width, channel, completion, len, command),
            command,
            Some(len),
        ),
        set_off_when_loaded(
            model,
            enable_memory_mapped_steps(width, command, write_config),
            command,
            None,
        ),
{
    let idle = seq![Step::Wait(Condition::Idle)];
    let quiet = seq![Step::Wait(Condition::Idle), Step::Modify(Edit::Dma(false))];
    assert(set_off_when_loaded(
        model,
        command_steps(width, command, data_len),
        command,
        data_len,
    )) by {
        lemma_set_off(model, Seq::empty(), width, command, data_len, Seq::empty());
        assert(with_command(Seq::empty(), width, command, data_len, Seq::empty())
            =~= command_steps(width, command, data_len));
    }
    lemma_set_off(
        model,
        idle,
        width,
        command,
        None,
        seq![Step::Wait(Condition::Complete), clear_complete()],
    );
    lemma_set_off(model, quiet, width, command, Some(len), read_rest());
    lemma_set_off(model, quiet, width, command, Some(len), write_rest());
    lemma_set_off(model, idle, width, command, Some(len), dma_read_rest(channel, completion));
    lemma_set_off(model, idle, width, command, Some(len), dma_write_rest(channel, completion));
    lemma_set_off(model, Seq::empty(), width, command, None, mapped_rest(write_config));
}

spec fn mapped_rest(write_config: TransferConfig) -> Seq<Step> {
    seq![
        Step::Wait(Condition::Idle),
        Step::Modify(Edit::SendInstructionOnce),
        Step::Modify(Edit::WritePhases(write_config)),
        Step::Modify(Edit::WriteDummy(write_config.dummy)),
        Step::Modify(Edit::MemoryMapped),
    ]
}

/// Whether a command stays in the registers, once a transaction may be set off by it, until the
/// operation is over, and is launched in indirect write mode; only the trigger of a read, which has
/// a law of its own, comes in another mode.
pub open spec fn stays_loaded<W: Word>(
    model: Model<W>,
    steps: Seq<Step>,
    command: TransferConfig,
    data_len: Option<usize>,
) -> bool {
    &&& forall|i: int, count: int|
        0 <= i <= count <= steps.len() && i < steps.len() && sets_off(#[trigger] steps[i])
            ==> loaded(
            model.registers,
            (#[trigger] at(model, steps, count)).registers,
            command,
            data_len,
        )
    &&& forall|i: int|
        0 <= i < steps.len() && sets_off(#[trigger] steps[i]) && steps[i] != Step::Trigger
            ==> field(at(model, steps, i).registers[Register::Cr], 28, 2) == 0
}

proof fn lemma_light_between<W: Word>(
    model: Model<W>,
    steps: Seq<Step>,
    from: int,
    count: int,
)
    requires
        0 <= from <= count <= steps.len(),
        forall|i: int| from <= i < count ==> light(#[trigger] steps[i]),
    ensures
        same_load(at(model, steps, count).registers, at(model, steps, from).registers),
    decreases count - from,
{
    if from < count {
        lemma_light_between(model, steps, from, count - 1);
        lemma_at_next(model, steps, count - 1);
        assert(light(steps[count - 1]));
    }
}

/// Within a command, a transaction is set off in indirect write mode.
proof fn lemma_launch_mode<W: Word>(
    model: Model<W>,
    width: OspiWidth,
    command: TransferConfig,
    data_len: Option<usize>,
    i: int,
)
    requires
        command_outcome(width, command) is Ok,
        0 <= i <= launching_steps(command).len(),
    ensures
        field(
            at(
                model,
                command_steps(width, command, data_len),
                loading_steps(command, data_len).len() + i,
            ).registers[Register::Cr],
            28,
            2,
        ) == 0,
    decreases launching_steps(command).len() - i,
{
    let steps = command_steps(width, command, data_len);
    let launching = launching_steps(command);
    let start = loading_steps(command, data_len).len();
    lemma_command_parts(width, command, data_len);
    if i == launching.len() {
        lemma_at_end(model, steps);
        law_command_takes_effect(model, width, command, data_len);
        lemma_transfer_modes(model.registers[Register::Cr]);
    } else {
        lemma_launch_mode(model, width, command, data_len, i + 1);
        lemma_at_next(model, steps, start + i);
        assert(steps[start + i] == launching[i]);
    }
}

proof fn lemma_stays_loaded<W: Word>(
    model: Model<W>,
    before: Seq<Step>,
    width: OspiWidth,
    command: TransferConfig,
    data_len: Option<usize>,
    rest: Seq<Step>,
)
    requires
        command_outcome(width, command) is Ok,
        forall|i: int|
            0 <= i < before.len() ==> light(#[trigger] before[i]) && !sets_off(before[i]),
        forall|i: int|
            0 <= i < rest.len() ==> light(#[trigger] rest[i]) && (sets_off(rest[i]) ==> rest[i]
                == Step::Trigger),
    ensures
        stays_loaded(
            model,
            with_command(before, width, command, data_len, rest),
            command,
            data_len,
        ),
{
    let loading = loading_steps(command, data_len);
    let launching = launching_steps(command);
    let middle = command_steps(width, command, data_len);
    let steps = with_command(before, width, command, data_len, rest);
    let start = before.len() + loading.len();
    let readied = model.execute(before);
    lemma_command_parts(width, command, data_len);
    lemma_set_off(model, before, width, command, data_len, rest);
    assert(steps =~= before + loading + launching + rest);
    assert(steps =~= before + (middle + rest));
    assert forall|i: int| start <= i < steps.len() implies light(#[trigger] steps[i]) by {
        if i < start + launching.len() {
            assert(steps[i] == launching[i - start]);
        } else {
            assert(steps[i] == rest[i - start - launching.len()]);
        }
    }
    assert forall|i: int| 0 <= i < steps.len() && sets_off(#[trigger] steps[i]) implies i >= start by {
        if i < before.len() {
            assert(steps[i] == before[i]);
        } else if i < start {
            assert(steps[i] == loading[i - before.len()]);
        }
    }
    assert forall|i: int, count: int|
        0 <= i <= count <= steps.len() && i < steps.len() && sets_off(
            #[trigger] steps[i],
        ) implies loaded(
        model.registers,
        (#[trigger] at(model, steps, count)).registers,
        command,
        data_len,
    ) by {
        lemma_light_between(model, steps, i, count);
        assert(loaded(model.registers, at(model, steps, i).registers, command, data_len));
    }
    assert forall|i: int|
        0 <= i < steps.len() && sets_off(#[trigger] steps[i]) && steps[i]
            != Step::Trigger implies field(at(model, steps, i).registers[Register::Cr], 28, 2) == 0 by {
        let j = i - before.len();
        if i >= start + launching.len() {
            assert(steps[i] == rest[i - start - launching.len()]);
        } else {
            lemma_at_second(model, before, middle + rest, j);
            lemma_at_first(readied, middle, rest, j);
            lemma_launch_mode(readied, width, command, data_len, i - start);
        }
    }
}

/// A command is launched in indirect write mode, and once it is launched it stays in the registers,
/// as it is, until the operation is over.
pub proof fn law_command_stays_until_the_operation_is_over<W: Word>(
    model: Model<W>,
    width: OspiWidth,
    channel: DmaChannel,
    completion: Completion,
    len: usize,
    command: TransferConfig,
    data_len: Option<usize>,
)
    requires
        command_outcome(width, command) is Ok,
        len > 0,
    ensures
        stays_loaded(model, command_steps(width, command, data_len), command, data_len),
        stays_loaded(model, blocking_command_steps(width, command), command, None),
        stays_loaded(model, blocking_read_steps(width, len, command), command, Some(len)),
        stays_loaded(model, blocking_write_steps(width, len, command), command, Some(len)),
        stays_loaded(
            model,
            dma_read_steps(width, channel, completion, len, command),
            command,
            Some(len),
        ),
        stays_loaded(
            model,
            dma_write_steps(width, channel, completion, len, command),
            command,
            Some(len),
        ),
{
    let idle = seq![Step::Wait(Condition::Idle)];
    let quiet = seq![Step::Wait(Condition::Idle), Step::Modify(Edit::Dma(false))];
    let none = Seq::<Step>::empty();
    assert(stays_loaded(model, command_steps(width, command, data_len), command, data_len)) by {
        lemma_stays_loaded(model, none, width, command, data_len, none);
        assert(with_command(none, width, command, data_len, none) =~= command_steps(
            width,
            command,
            data_len,
        ));
    }
    assert(stays_loaded(model, blocking_command_steps(width, command), command, None)) by {
        lemma_stays_loaded(
            model,
            idle,
            width,
            command,
            None,
            seq![Step::Wait(Condition::Complete), clear_complete()],
        );
    }
    assert(stays_loaded(model, blocking_read_steps(width, len, command), command, Some(len))) by {
        lemma_stays_loaded(model, quiet, width, command, Some(len), read_rest());
    }
    assert(stays_loaded(model, blocking_write_steps(width, len, command), command, Some(len))) by {
        lemma_stays_loaded(model, quiet, width, command, Some(len), write_rest());
    }
    assert(stays_loaded(
        model,
        dma_read_steps(width, channel, completion, len, command),
        command,
        Some(len),
    )) by {
        let rest = dma_read_rest(channel, completion);
        lemma_stays_loaded(model, idle, width, command, Some(len), rest);
    }
    assert(stays_loaded(
        model,
        dma_write_steps(width, channel, completion, len, command),
        command,
        Some(len),
    )) by {
        let rest = dma_write_rest(channel, completion);
        lemma_stays_loaded(model, idle, width, command, Some(len), rest);
    }
}

/// Whether the instruction and the address of a command, as far as it has them, are written once
/// each and in this order, no other instruction or address is written, and nothing is set off a
/// second time but by one trigger at the end.
pub open spec fn launches_in_order(steps: Seq<Step>, command: TransferConfig) -> bool {
    &&& forall|i: int|
        0 <= i < steps.len() ==> (#[trigger] steps[i] matches Step::Write(register, value) ==> (
        register == Register::Ir ==> command.instruction == Some(value)))
    &&& forall|i: int|
        0 <= i < steps.len() ==> (#[trigger] steps[i] matches Step::Write(register, value) ==> (
        register == Register::Ar ==> command.address == Some(value)))
    &&& command.instruction matches Some(value) ==> exists|i: int|
        0 <= i < steps.len() && #[trigger] steps[i] == Step::Write(Register::Ir, value)
    &&& command.address matches Some(value) ==> exists|i: int|
        0 <= i < steps.len() && #[trigger] steps[i] == Step::Write(Register::Ar, value)
    &&& forall|i: int, j: int|
        0 <= i < j < steps.len() && sets_off(#[trigger] steps[i]) && sets_off(#[trigger] steps[j])
            ==> {
            ||| steps[i] != Step::Trigger && steps[j] == Step::Trigger
            ||| {
                &&& steps[i] matches Step::Write(register, _) && register == Register::Ir
                &&& steps[j] matches Step::Write(register, _) && register == Register::Ar
            }
        }
}

/// Whether an operation waits for the peripheral to be idle before it does anything, and never
/// again.
pub open spec fn begins_when_idle(steps: Seq<Step>) -> bool {
    &&& steps.len() > 0
    &&& steps[0] == Step::Wait(Condition::Idle)
    &&& forall|i: int| 0 < i < steps.len() ==> #[trigger] steps[i] != Step::Wait(Condition::Idle)
}

/// Whether an operation waits for the end of its transfer once, when all is set off and moved, and
/// then clears the flag for it, and no other flag.
pub open spec fn ends_when_complete(steps: Seq<Step>, end: int) -> bool {
    &&& 0 < end && end + 1 < steps.len()
    &&& steps[end] == Step::Wait(Condition::Complete)
    &&& steps[end + 1] == Step::Write(Register::Fcr, 2)
    &&& forall|i: int|
        0 <= i < steps.len() && i != end ==> #[trigger] steps[i] != Step::Wait(Condition::Complete)
    &&& forall|i: int|
        0 <= i < steps.len() && (sets_off(#[trigger] steps[i]) || moves(steps[i])
            || steps[i] is FinishDma) ==> i < end
    &&& forall|i: int|
        0 <= i < steps.len() && i != end + 1 ==> {
            &&& #[trigger] steps[i] matches Step::Write(register, _) ==> register != Register::Fcr
            &&& steps[i] matches Step::Modify(edit) ==> edit.target() != Register::Fcr
        }
}

/// Whether a read begins with some step and moves its data with another: in indirect read mode, the
/// address, or the instruction if there is no address phase, is written with the value of the
/// command; that is the last time that anything is set off, and the data moves afterwards and in
/// the same mode.
pub open spec fn read_begins<W: Word>(
    model: Model<W>,
    steps: Seq<Step>,
    command: TransferConfig,
    beginning: int,
    moving: int,
) -> bool {
    let begun = at(model, steps, beginning);
    &&& 0 <= beginning < moving < steps.len()
    &&& field(begun.registers[Register::Cr], 28, 2) == 1
    &&& field(at(model, steps, moving).registers[Register::Cr], 28, 2) == 1
    &&& command.adwidth != OspiWidth::NONE ==> {
        &&& writes(begun, steps[beginning]) matches Some((register, value)) && register
            == Register::Ar && (command.address matches Some(address) ==> value == address)
    }
    &&& command.adwidth == OspiWidth::NONE ==> {
        &&& writes(begun, steps[beginning]) matches Some((register, value)) && register
            == Register::Ir && (command.instruction matches Some(instruction) ==> value
            == instruction)
    }
    &&& forall|i: int| 0 <= i < steps.len() && sets_off(#[trigger] steps[i]) ==> i <= beginning
    &&& forall|i: int| 0 <= i < steps.len() && moves(#[trigger] steps[i]) ==> i == moving
}

/// Whether a write moves its data with some step: when its transaction is set off, in indirect
/// write mode.
pub open spec fn write_moves<W: Word>(model: Model<W>, steps: Seq<Step>, moving: int) -> bool {
    &&& 0 <= moving < steps.len()
    &&& field(at(model, steps, moving).registers[Register::Cr], 28, 2) == 0
    &&& forall|i: int|
        0 <= i < steps.len() && sets_off(#[trigger] steps[i]) ==> i < moving && steps[i]
            != Step::Trigger
    &&& forall|i: int| 0 <= i < steps.len() && moves(#[trigger] steps[i]) ==> i == moving
}

/// Whether the end of a DMA transfer is waited for with some step, once, in the way that is asked
/// for, after the transfer is started and with DMAEN set, in some functional mode. DMAEN is left
/// alone until the transfer is started.
pub open spec fn dma_ends<W: Word>(
    model: Model<W>,
    steps: Seq<Step>,
    completion: Completion,
    mode: u32,
    moving: int,
    finishing: int,
) -> bool {
    let registers = at(model, steps, finishing).registers;
    &&& moving < finishing < steps.len()
    &&& flag(at(model, steps, moving).registers[Register::Cr], 2) == flag(
        model.registers[Register::Cr],
        2,
    )
    &&& steps[finishing] == Step::FinishDma(completion)
    &&& flag(registers[Register::Cr], 2)
    &&& field(registers[Register::Cr], 28, 2) == mode
    &&& forall|i: int|
        0 <= i < steps.len() && (#[trigger] steps[i]) is FinishDma ==> i == finishing
}

// What a command is followed by as far as the waits and the order go.
spec fn silent(step: Step) -> bool {
    &&& !sets_off(step)
    &&& !moves(step)
    &&& !(step is FinishDma)
    &&& !(step is Wait)
    &&& (step matches Step::Write(register, _) ==> register != Register::Fcr)
    &&& (step matches Step::Modify(edit) ==> edit.target() != Register::Fcr)
}

proof fn lemma_loading_is_silent(command: TransferConfig, data_len: Option<usize>)
    ensures
        forall|i: int|
            0 <= i < loading_steps(command, data_len).len() ==> silent(
                #[trigger] loading_steps(command, data_len)[i],
            ),
{
}

/// The order of a command among other steps.
proof fn lemma_in_order(
    before: Seq<Step>,
    width: OspiWidth,
    command: TransferConfig,
    data_len: Option<usize>,
    rest: Seq<Step>,
    trigger: int,
)
    requires
        command_outcome(width, command) is Ok,
        forall|i: int| 0 <= i < before.len() ==> !sets_off(#[trigger] before[i]),
        forall|i: int| 0 <= i < rest.len() && i != trigger ==> !sets_off(#[trigger] rest[i]),
        0 <= trigger < rest.len() ==> rest[trigger] == Step::Trigger,
    ensures
        launches_in_order(with_command(before, width, command, data_len, rest), command),
        trigger < 0 ==> !with_command(before, width, command, data_len, rest).contains(
            Step::Trigger,
        ),
{
    let loading = loading_steps(command, data_len);
    let launching = launching_steps(command);
    let steps = with_command(before, width, command, data_len, rest);
    let start = before.len() + loading.len();
    lemma_command_parts(width, command, data_len);
    lemma_loading_is_silent(command, data_len);
    assert(steps =~= before + loading + launching + rest);
    assert forall|i: int| 0 <= i < steps.len() && sets_off(#[trigger] steps[i]) implies {
        &&& start <= i
        &&& i < start + launching.len() ==> steps[i] == launching[i - start]
        &&& i >= start + launching.len() ==> i == start + launching.len() + trigger && steps[i]
            == Step::Trigger
    } by {
        if i < before.len() {
            assert(steps[i] == before[i]);
        } else if i < start {
            assert(steps[i] == loading[i - before.len()]);
        } else if i >= start + launching.len() {
            assert(steps[i] == rest[i - start - launching.len()]);
        }
    }
    if let Some(instruction) = command.instruction {
        assert(steps[start as int] == launching[0]);
    }
    if let Some(address) = command.address {
        let k = launching.len() - 1;
        assert(steps[start + k] == launching[k]);
    }
}

proof fn lemma_launch_plain(
    width: OspiWidth,
    command: TransferConfig,
    data_len: Option<usize>,
    write_config: TransferConfig,
)
    requires
        command_outcome(width, command) is Ok,
    ensures
        launches_in_order(command_steps(width, command, data_len), command),
        !command_steps(width, command, data_len).contains(Step::Trigger),
        launches_in_order(enable_memory_mapped_steps(width, command, write_config), command),
        !enable_memory_mapped_steps(width, command, write_config).contains(Step::Trigger),
{
    lemma_in_order(Seq::empty(), width, command, data_len, Seq::empty(), -1);
    assert(with_command(Seq::empty(), width, command, data_len, Seq::empty()) =~= command_steps(
        width,
        command,
        data_len,
    ));
    lemma_in_order(Seq::empty(), width, command, None, mapped_rest(write_config), -1);
}

proof fn lemma_launch_command(width: OspiWidth, command: TransferConfig)
    requires
        command_outcome(width, command) is Ok,
    ensures
        launches_in_order(blocking_command_steps(width, command), command),
        !blocking_command_steps(width, command).contains(Step::Trigger),
{
    let idle = seq![Step::Wait(Condition::Idle)];
    let rest = seq![Step::Wait(Condition::Complete), clear_complete()];
    lemma_in_order(idle, width, command, None, rest, -1);
}

proof fn lemma_launch_words(width: OspiWidth, len: usize, command: TransferConfig)
    requires
        command_outcome(width, command) is Ok,
        len > 0,
    ensures
        launches_in_order(blocking_read_steps(width, len, command), command),
        launches_in_order(blocking_write_steps(width, len, command), command),
{
    let quiet = seq![Step::Wait(Condition::Idle), Step::Modify(Edit::Dma(false))];
    lemma_in_order(quiet, width, command, Some(len), read_rest(), 2);
    lemma_in_order(quiet, width, command, Some(len), write_rest(), -1);
}

proof fn lemma_launch_dma(
    width: OspiWidth,
    channel: DmaChannel,
    completion: Completion,
    len: usize,
    command: TransferConfig,
)
    requires
        command_outcome(width, command) is Ok,
        len > 0,
    ensures
        launches_in_order(dma_read_steps(width, channel, completion, len, command), command),
        launches_in_order(dma_write_steps(width, channel, completion, len, command), command),
{
    let idle = seq![Step::Wait(Condition::Idle)];
    lemma_in_order(idle, width, command, Some(len), dma_read_rest(channel, completion), 2);
    lemma_in_order(idle, width, command, Some(len), dma_write_rest(channel, completion), -1);
}

/// Valid commands and transfers write the instruction and the address of the command once each and
/// in this order, and no others; only a read sets off a transaction once more.
pub proof fn law_command_is_launched_in_order(
    width: OspiWidth,
    channel: DmaChannel,
    completion: Completion,
    len: usize,
    command: TransferConfig,
    data_len: Option<usize>,
    write_config: TransferConfig,
)
    requires
        command_outcome(width, command) is Ok,
        len > 0,
    ensures
        launches_in_order(command_steps(width, command, data_len), command),
        launches_in_order(blocking_command_steps(width, command), command),
        launches_in_order(blocking_read_steps(width, len, command), command),
        launches_in_order(blocking_write_steps(width, len, command), command),
        launches_in_order(dma_read_steps(width, channel, completion, len, command), command),
        launches_in_order(dma_write_steps(width, channel, completion, len, command), command),
        launches_in_order(enable_memory_mapped_steps(width, command, write_config), command),
        !command_steps(width, command, data_len).contains(Step::Trigger),
        !blocking_command_steps(width, command).contains(Step::Trigger),
        !enable_memory_mapped_steps(width, command, write_config).contains(Step::Trigger),
{
    lemma_launch_plain(width, command, data_len, write_config);
    lemma_launch_command(width, command);
    lemma_launch_words(width, len, command);
    lemma_launch_dma(width, channel, completion, len, command);
}

/// Where a step of an operation comes from.
proof fn lemma_parts(
    before: Seq<Step>,
    width: OspiWidth,
    command: TransferConfig,
    data_len: Option<usize>,
    rest: Seq<Step>,
    i: int,
)
    requires
        command_outcome(width, command) is Ok,
        0 <= i < with_command(before, width, command, data_len, rest).len(),
    ensures
        ({
            let steps = with_command(before, width, command, data_len, rest);
            let start = before.len() as int + command_steps(width, command, data_len).len();
            let step = steps[i];
            &&& steps.len() == start + rest.len()
            &&& i < before.len() ==> step == before[i]
            &&& before.len() <= i < start ==> {
                ||| silent(step)
                ||| step matches Step::Write(register, _) && (register == Register::Ir || register
                    == Register::Ar)
            }
            &&& start <= i ==> step == rest[i - start]
        }),
{
    let loading = loading_steps(command, data_len);
    let launching = launching_steps(command);
    lemma_command_parts(width, command, data_len);
    lemma_loading_is_silent(command, data_len);
    let middle = command_steps(width, command, data_len);
    if before.len() <= i < before.len() + middle.len() {
        let j = i - before.len();
        assert(with_command(before, width, command, data_len, rest)[i] == middle[j]);
        if j < loading.len() {
            assert(middle[j] == loading[j]);
        } else {
            assert(middle[j] == launching[j - loading.len()]);
        }
    }
}

/// The waits of an operation with a command.
proof fn lemma_waits(
    before: Seq<Step>,
    width: OspiWidth,
    command: TransferConfig,
    data_len: Option<usize>,
    rest: Seq<Step>,
    wait: int,
)
    requires
        command_outcome(width, command) is Ok,
        before.len() > 0,
        before[0] == Step::Wait(Condition::Idle),
        forall|i: int| 0 < i < before.len() ==> silent(#[trigger] before[i]),
        0 <= wait && wait + 1 < rest.len(),
        rest[wait] == Step::Wait(Condition::Complete),
        rest[wait + 1] == clear_complete(),
        forall|i: int| 0 <= i < wait ==> !((#[trigger] rest[i]) is Wait),
        forall|i: int| wait + 1 < i < rest.len() ==> silent(#[trigger] rest[i]),
        forall|i: int|
            0 <= i < wait ==> {
                &&& #[trigger] rest[i] matches Step::Write(register, _) ==> register
                    != Register::Fcr
                &&& rest[i] matches Step::Modify(edit) ==> edit.target() != Register::Fcr
            },
    ensures
        begins_when_idle(with_command(before, width, command, data_len, rest)),
        ends_when_complete(
            with_command(before, width, command, data_len, rest),
            before.len() + command_steps(width, command, data_len).len() + wait,
        ),
{
    let steps = with_command(before, width, command, data_len, rest);
    let end = before.len() + command_steps(width, command, data_len).len() + wait;
    lemma_clear_complete();
    lemma_parts(before, width, command, data_len, rest, 0);
    lemma_parts(before, width, command, data_len, rest, end);
    lemma_parts(before, width, command, data_len, rest, end + 1);
    assert forall|i: int| 0 < i < steps.len() implies #[trigger] steps[i] != Step::Wait(
        Condition::Idle,
    ) by {
        lemma_parts(before, width, command, data_len, rest, i);
    }
    assert forall|i: int| 0 <= i < steps.len() && i != end implies #[trigger] steps[i]
        != Step::Wait(Condition::Complete) by {
        lemma_parts(before, width, command, data_len, rest, i);
    }
    assert forall|i: int|
        0 <= i < steps.len() && (sets_off(#[trigger] steps[i]) || moves(steps[i])
            || steps[i] is FinishDma) implies i < end by {
        lemma_parts(before, width, command, data_len, rest, i);
    }
    assert forall|i: int| 0 <= i < steps.len() && i != end + 1 implies {
        &&& #[trigger] steps[i] matches Step::Write(register, _) ==> register != Register::Fcr
        &&& steps[i] matches Step::Modify(edit) ==> edit.target() != Register::Fcr
    } by {
        lemma_parts(before, width, command, data_len, rest, i);
    }
}

/// A valid command or transfer does nothing before the peripheral is idle, and ends by waiting for
/// the transfer to be complete, when all is set off and moved, and by clearing the flag for it. A
/// command moves no data.
pub proof fn law_operation_waits_for_the_peripheral(
    width: OspiWidth,
    channel: DmaChannel,
    completion: Completion,
    len: usize,
    command: TransferConfig,
)
    requires
        command_outcome(width, command) is Ok,
        len > 0,
    ensures
        begins_when_idle(blocking_command_steps(width, command)),
        begins_when_idle(blocking_read_steps(width, len, command)),
        begins_when_idle(blocking_write_steps(width, len, command)),
        begins_when_idle(dma_read_steps(width, channel, completion, len, command)),
        begins_when_idle(dma_write_steps(width, channel, completion, len, command)),
        exists|end: int| ends_when_complete(blocking_command_steps(width, command), end),
        exists|end: int| ends_when_complete(blocking_read_steps(width, len, command), end),
        exists|end: int| ends_when_complete(blocking_write_steps(width, len, command), end),
        exists|end: int|
            ends_when_complete(dma_read_steps(width, channel, completion, len, command), end),
        exists|end: int|
            ends_when_complete(dma_write_steps(width, channel, completion, len, command), end),
        forall|i: int|
            0 <= i < blocking_command_steps(width, command).len() ==> !moves(
                #[trigger] blocking_command_steps(width, command)[i],
            ) && !(blocking_command_steps(width, command)[i] is FinishDma),
{
    let idle = seq![Step::Wait(Condition::Idle)];
    let quiet = seq![Step::Wait(Condition::Idle), Step::Modify(Edit::Dma(false))];
    let command_rest = seq![Step::Wait(Condition::Complete), clear_complete()];
    let length = command_steps(width, command, Some(len)).len() as int;
    let short = command_steps(width, command, None).len() as int;
    let read = blocking_read_steps(width, len, command);
    let write = blocking_write_steps(width, len, command);
    let dma_read = dma_read_steps(width, channel, completion, len, command);
    let dma_write = dma_write_steps(width, channel, completion, len, command);
    assert(begins_when_idle(blocking_command_steps(width, command)) && ends_when_complete(
        blocking_command_steps(width, command),
        short + 1,
    )) by {
        lemma_waits(idle, width, command, None, command_rest, 0);
    }
    assert(begins_when_idle(read) && ends_when_complete(read, length + 6)) by {
        lemma_waits(quiet, width, command, Some(len), read_rest(), 4);
    }
    assert(begins_when_idle(write) && ends_when_complete(write, length + 4)) by {
        lemma_waits(quiet, width, command, Some(len), write_rest(), 2);
    }
    assert(begins_when_idle(dma_read) && ends_when_complete(dma_read, length + 7)) by {
        lemma_waits(idle, width, command, Some(len), dma_read_rest(channel, completion), 6);
    }
    assert(begins_when_idle(dma_write) && ends_when_complete(dma_write, length + 5)) by {
        lemma_waits(idle, width, command, Some(len), dma_write_rest(channel, completion), 4);
    }
    assert forall|i: int| 0 <= i < blocking_command_steps(width, command).len() implies !moves(
        #[trigger] blocking_command_steps(width, command)[i],
    ) && !(blocking_command_steps(width, command)[i] is FinishDma) by {
        lemma_parts(idle, width, command, None, command_rest, i);
    }
}

/// The device within what follows a command.
proof fn lemma_at_rest<W: Word>(
    model: Model<W>,
    before: Seq<Step>,
    width: OspiWidth,
    command: TransferConfig,
    data_len: Option<usize>,
    rest: Seq<Step>,
    count: int,
)
    requires
        command_outcome(width, command) is Ok,
        0 <= count <= rest.len(),
    ensures
        at(
            model,
            with_command(before, width, command, data_len, rest),
            before.len() + command_steps(width, command, data_len).len() + count,
        ) == at(
            model.execute(before).execute(command_steps(width, command, data_len)),
            rest,
            count,
        ),
{
    let middle = command_steps(width, command, data_len);
    assert(model.execute(before + middle) == model.execute(before).execute(middle)) by {
        broadcast use group_execute;

    }
    lemma_at_second(model, before + middle, rest, count);
}

/// How the control register goes through a transfer.
proof fn lemma_transfer_modes(cr: u32)
    ensures
        ({
            let v = settled(with_field(cr, 28, 2, 0));
            let read = settled(with_field(v, 28, 2, 1));
            let write = settled(with_field(v, 28, 2, 0));
            &&& field(v, 28, 2) == 0
            &&& field(read, 28, 2) == 1
            &&& field(write, 28, 2) == 0
            &&& flag(v, 2) == flag(cr, 2)
            &&& flag(read, 2) == flag(cr, 2)
            &&& flag(write, 2) == flag(cr, 2)
            &&& flag(settled(with_flag(read, 2, true)), 2)
            &&& field(settled(with_flag(read, 2, true)), 28, 2) == 1
            &&& flag(settled(with_flag(write, 2, true)), 2)
            &&& field(settled(with_flag(write, 2, true)), 28, 2) == 0
        }),
{
    broadcast use group_fields;

    lemma_ones();
}

/// How a read goes on from its command.
proof fn lemma_read_rest<W: Word>(
    model: Model<W>,
    before: Seq<Step>,
    width: OspiWidth,
    command: TransferConfig,
    len: usize,
    rest: Seq<Step>,
)
    requires
        command_outcome(width, command) is Ok,
        rest.len() > 3,
        rest[0] == Step::Capture,
        rest[1] == Step::Modify(Edit::Mode(OspiMode::IndirectRead)),
        rest[2] == Step::Trigger,
        moves(rest[3]),
        forall|i: int| 3 < i < rest.len() ==> !sets_off(#[trigger] rest[i]) && !moves(rest[i]),
        forall|i: int|
            0 <= i < before.len() ==> !sets_off(#[trigger] before[i]) && !moves(before[i]),
    ensures
        ({
            let steps = with_command(before, width, command, Some(len), rest);
            let start = before.len() as int + command_steps(width, command, Some(len)).len();
            let readied = model.execute(before);
            let moving = at(model, steps, start + 3).registers;
            &&& read_begins(model, steps, command, start + 2, start + 3)
            &&& moving[Register::Cr] == settled(
                with_field(settled(with_field(readied.registers[Register::Cr], 28, 2, 0)), 28, 2, 1),
            )
        }),
{
    let middle = command_steps(width, command, Some(len));
    let steps = with_command(before, width, command, Some(len), rest);
    let start = before.len() as int + middle.len();
    let readied = model.execute(before);
    let commanded = readied.execute(middle);
    law_command_takes_effect(readied, width, command, Some(len));
    lemma_transfer_modes(readied.registers[Register::Cr]);
    lemma_at_start(commanded, rest);
    lemma_at_next(commanded, rest, 0);
    lemma_at_next(commanded, rest, 1);
    lemma_at_next(commanded, rest, 2);
    lemma_at_rest(model, before, width, command, Some(len), rest, 2);
    lemma_at_rest(model, before, width, command, Some(len), rest, 3);
    lemma_parts(before, width, command, Some(len), rest, start + 2);
    assert forall|i: int| 0 <= i < steps.len() && sets_off(#[trigger] steps[i]) implies i <= start
        + 2 by {
        lemma_parts(before, width, command, Some(len), rest, i);
    }
    assert forall|i: int| 0 <= i < steps.len() && moves(#[trigger] steps[i]) implies i == start
        + 3 by {
        lemma_parts(before, width, command, Some(len), rest, i);
    }
}

/// A valid read begins in indirect read mode, when its address, or its instruction if it has no
/// address phase, is written once more; only then its data moves, once. Word by word that happens
/// with DMA disabled; by DMA it happens on the given channel, DMA is enabled while the end of the
/// transfer is waited for, and it is waited for in the way that is asked for.
pub proof fn law_read_begins_before_its_data_moves<W: Word>(
    model: Model<W>,
    width: OspiWidth,
    channel: DmaChannel,
    completion: Completion,
    len: usize,
    command: TransferConfig,
)
    requires
        command_outcome(width, command) is Ok,
        len > 0,
    ensures
        ({
            let steps = blocking_read_steps(width, len, command);
            exists|beginning: int, moving: int|
                {
                    &&& #[trigger] read_begins(model, steps, command, beginning, moving)
                    &&& steps[moving] == Step::Receive
                    &&& !flag(at(model, steps, moving).registers[Register::Cr], 2)
                }
        }),
        ({
            let steps = dma_read_steps(width, channel, completion, len, command);
            exists|beginning: int, moving: int, finishing: int|
                {
                    &&& #[trigger] read_begins(model, steps, command, beginning, moving)
                    &&& steps[moving] == Step::StartDma(channel, Direction::Receive)
                    &&& #[trigger] dma_ends(model, steps, completion, 1, moving, finishing)
                }
        }),
{
    let length = command_steps(width, command, Some(len)).len() as int;
    lemma_word_read(model, width, len, command);
    lemma_dma_read(model, width, channel, completion, len, command);
    assert(read_begins(
        model,
        blocking_read_steps(width, len, command),
        command,
        length + 4,
        length + 5,
    ));
    assert(dma_ends(
        model,
        dma_read_steps(width, channel, completion, len, command),
        completion,
        1,
        length + 4,
        length + 6,
    ));
    assert(read_begins(
        model,
        dma_read_steps(width, channel, completion, len, command),
        command,
        length + 3,
        length + 4,
    ));
}

proof fn lemma_word_read<W: Word>(
    model: Model<W>,
    width: OspiWidth,
    len: usize,
    command: TransferConfig,
)
    requires
        command_outcome(width, command) is Ok,
        len > 0,
    ensures
        ({
            let steps = blocking_read_steps(width, len, command);
            let length = command_steps(width, command, Some(len)).len() as int;
            &&& read_begins(model, steps, command, length + 4, length + 5)
            &&& steps[length + 5] == Step::Receive
            &&& !flag(at(model, steps, length + 5).registers[Register::Cr], 2)
        }),
{
    let quiet = seq![Step::Wait(Condition::Idle), Step::Modify(Edit::Dma(false))];
    let length = command_steps(width, command, Some(len)).len() as int;
    lemma_read_rest(model, quiet, width, command, len, read_rest());
    lemma_parts(quiet, width, command, Some(len), read_rest(), length + 5);
    lemma_transfer_modes(model.execute(quiet).registers[Register::Cr]);
    lemma_quieted(model);
}

proof fn lemma_idled<W: Word>(model: Model<W>)
    ensures
        model.execute(seq![Step::Wait(Condition::Idle)]) == model,
{
    reveal_with_fuel(Model::execute, 2);
}

proof fn lemma_quieted<W: Word>(model: Model<W>)
    ensures
        !flag(
            model.execute(
                seq![Step::Wait(Condition::Idle), Step::Modify(Edit::Dma(false))],
            ).registers[Register::Cr],
            2,
        ),
{
    reveal_with_fuel(Model::execute, 3);
    lemma_quiet_cr(model.registers[Register::Cr]);
}

#[verifier::rlimit(30)]
proof fn lemma_dma_read<W: Word>(
    model: Model<W>,
    width: OspiWidth,
    channel: DmaChannel,
    completion: Completion,
    len: usize,
    command: TransferConfig,
)
    requires
        command_outcome(width, command) is Ok,
        len > 0,
    ensures
        ({
            let steps = dma_read_steps(width, channel, completion, len, command);
            let length = command_steps(width, command, Some(len)).len() as int;
            &&& read_begins(model, steps, command, length + 3, length + 4)
            &&& steps[length + 4] == Step::StartDma(channel, Direction::Receive)
            &&& dma_ends(model, steps, completion, 1, length + 4, length + 6)
        }),
{
    let idle = seq![Step::Wait(Condition::Idle)];
    let length = command_steps(width, command, Some(len)).len() as int;
    let rest = dma_read_rest(channel, completion);
    let steps = dma_read_steps(width, channel, completion, len, command);
    let commanded = model.execute(idle).execute(command_steps(width, command, Some(len)));
    lemma_read_rest(model, idle, width, command, len, rest);
    lemma_idled(model);
    lemma_transfer_modes(model.execute(idle).registers[Register::Cr]);
    lemma_at_rest(model, idle, width, command, Some(len), rest, 3);
    lemma_at_rest(model, idle, width, command, Some(len), rest, 5);
    lemma_at_next(commanded, rest, 3);
    lemma_at_next(commanded, rest, 4);
    lemma_parts(idle, width, command, Some(len), rest, length + 4);
    lemma_parts(idle, width, command, Some(len), rest, length + 6);
    assert forall|i: int| 0 <= i < steps.len() && (#[trigger] steps[i]) is FinishDma implies i
        == length + 6 by {
        lemma_parts(idle, width, command, Some(len), rest, i);
    }
}

proof fn lemma_quiet_cr(cr: u32)
    ensures
        !flag(settled(with_flag(cr, 2, false)), 2),
{
    broadcast use group_fields;

    lemma_ones();
}

/// A valid write moves its data, once, when its transaction is set off, in indirect write mode.
/// Word by word that happens with DMA disabled; by DMA it happens on the given channel, DMA is enabled
/// while the end of the transfer is waited for, and it is waited for in the way that is asked for.
pub proof fn law_write_is_set_off_before_its_data_moves<W: Word>(
    model: Model<W>,
    width: OspiWidth,
    channel: DmaChannel,
    completion: Completion,
    len: usize,
    command: TransferConfig,
)
    requires
        command_outcome(width, command) is Ok,
        len > 0,
    ensures
        ({
            let steps = blocking_write_steps(width, len, command);
            exists|moving: int|
                {
                    &&& #[trigger] write_moves(model, steps, moving)
                    &&& steps[moving] == Step::Send
                    &&& !flag(at(model, steps, moving).registers[Register::Cr], 2)
                }
        }),
        ({
            let steps = dma_write_steps(width, channel, completion, len, command);
            exists|moving: int, finishing: int|
                {
                    &&& #[trigger] write_moves(model, steps, moving)
                    &&& steps[moving] == Step::StartDma(channel, Direction::Send)
                    &&& #[trigger] dma_ends(model, steps, completion, 0, moving, finishing)
                }
        }),
{
    let idle = seq![Step::Wait(Condition::Idle)];
    let quiet = seq![Step::Wait(Condition::Idle), Step::Modify(Edit::Dma(false))];
    let middle = command_steps(width, command, Some(len));
    let length = middle.len() as int;
    assert(write_moves(model, blocking_write_steps(width, len, command), length + 3) && !flag(
        at(model, blocking_write_steps(width, len, command), length + 3).registers[Register::Cr],
        2,
    ) && blocking_write_steps(width, len, command)[length + 3] == Step::Send) by {
        let rest = write_rest();
        let steps = blocking_write_steps(width, len, command);
        let readied = model.execute(quiet);
        lemma_write_rest(model, quiet, width, command, len, rest);
        lemma_parts(quiet, width, command, Some(len), rest, length + 3);
        lemma_transfer_modes(readied.registers[Register::Cr]);
        lemma_quieted(model);
    }
    let rest = dma_write_rest(channel, completion);
    let steps = dma_write_steps(width, channel, completion, len, command);
    let commanded = model.execute(idle).execute(middle);
    lemma_write_rest(model, idle, width, command, len, rest);
    lemma_idled(model);
    lemma_transfer_modes(model.execute(idle).registers[Register::Cr]);
    lemma_at_rest(model, idle, width, command, Some(len), rest, 1);
    lemma_at_rest(model, idle, width, command, Some(len), rest, 3);
    lemma_at_next(commanded, rest, 1);
    lemma_at_next(commanded, rest, 2);
    lemma_parts(idle, width, command, Some(len), rest, length + 2);
    lemma_parts(idle, width, command, Some(len), rest, length + 4);
    assert forall|i: int| 0 <= i < steps.len() && (#[trigger] steps[i]) is FinishDma implies i
        == length + 4 by {
        lemma_parts(idle, width, command, Some(len), rest, i);
    }
    assert(dma_ends(model, steps, completion, 0, length + 2, length + 4));
    assert(write_moves(model, steps, length + 2));
}

/// How a write goes on from its command.
proof fn lemma_write_rest<W: Word>(
    model: Model<W>,
    before: Seq<Step>,
    width: OspiWidth,
    command: TransferConfig,
    len: usize,
    rest: Seq<Step>,
)
    requires
        command_outcome(width, command) is Ok,
        rest.len() > 1,
        rest[0] == Step::Modify(Edit::Mode(OspiMode::IndirectWrite)),
        moves(rest[1]),
        forall|i: int| 1 < i < rest.len() ==> !sets_off(#[trigger] rest[i]) && !moves(rest[i]),
        forall|i: int|
            0 <= i < before.len() ==> !sets_off(#[trigger] before[i]) && !moves(before[i]),
    ensures
        ({
            let steps = with_command(before, width, command, Some(len), rest);
            let start = before.len() as int + command_steps(width, command, Some(len)).len();
            let readied = model.execute(before);
            let moving = at(model, steps, start + 1).registers;
            &&& write_moves(model, steps, start + 1)
            &&& moving[Register::Cr] == settled(
                with_field(settled(with_field(readied.registers[Register::Cr], 28, 2, 0)), 28, 2, 0),
            )
        }),
{
    let middle = command_steps(width, command, Some(len));
    let steps = with_command(before, width, command, Some(len), rest);
    let start = before.len() as int + middle.len();
    let readied = model.execute(before);
    let commanded = readied.execute(middle);
    law_command_takes_effect(readied, width, command, Some(len));
    lemma_transfer_modes(readied.registers[Register::Cr]);
    lemma_at_start(commanded, rest);
    lemma_at_next(commanded, rest, 0);
    lemma_at_rest(model, before, width, command, Some(len), rest, 1);
    assert forall|i: int| 0 <= i < steps.len() && sets_off(#[trigger] steps[i]) implies i < start
        + 1 && steps[i] != Step::Trigger by {
        lemma_parts(before, width, command, Some(len), rest, i);
    }
    assert forall|i: int| 0 <= i < steps.len() && moves(#[trigger] steps[i]) implies i == start
        + 1 by {
        lemma_parts(before, width, command, Some(len), rest, i);
    }
}

/// Whether a step is one of those that a refused operation never comes to: it sets off a
/// transaction, moves data, waits for the end of something, clears a flag, or is about the pins or
/// the clock.
pub open spec fn of_a_transaction(step: Step) -> bool {
    ||| sets_off(step)
    ||| moves(step)
    ||| step is FinishDma
    ||| step == Step::Wait(Condition::Complete)
    ||| step matches Step::Write(register, _) && register == Register::Fcr
    ||| on_board(step)
}

/// Whether some steps stop short of a transaction. They wait for nothing but, at their beginning,
/// for the peripheral to be idle.
pub open spec fn stops_short(steps: Seq<Step>) -> bool {
    &&& forall|i: int| 0 <= i < steps.len() ==> !of_a_transaction(#[trigger] steps[i])
    &&& forall|i: int| 0 <= i < steps.len() && (#[trigger] steps[i]) is Wait ==> i == 0
}

/// Whether some steps change no register but, in the control register, DMAEN and the abort request.
pub open spec fn changes_dma_only<W: Word>(model: Model<W>, steps: Seq<Step>) -> bool {
    forall|count: int|
        0 <= count <= steps.len() ==> {
            let registers = (#[trigger] at(model, steps, count)).registers;
            &&& forall|register: Register|
                register != Register::Cr ==> #[trigger] registers[register]
                    == model.registers[register]
            &&& forall|bit: u32|
                bit < 32 && bit != 1 && bit != 2 ==> #[trigger] flag(registers[Register::Cr], bit)
                    == flag(model.registers[Register::Cr], bit)
        }
}

proof fn lemma_stops_short(
    before: Seq<Step>,
    width: OspiWidth,
    command: TransferConfig,
    data_len: Option<usize>,
    rest: Seq<Step>,
)
    requires
        command_outcome(width, command) is Err,
        stops_short(before),
    ensures
        stops_short(with_command(before, width, command, data_len, rest)),
{
    let steps = with_command(before, width, command, data_len, rest);
    let middle = command_steps(width, command, data_len);
    lemma_loading_is_silent(command, data_len);
    assert(middle.len() > 0 ==> middle =~= loading_steps(command, data_len));
    assert(steps =~= before + middle);
    assert forall|i: int| 0 <= i < steps.len() implies !of_a_transaction(#[trigger] steps[i]) && (
    steps[i] is Wait ==> i == 0) by {
        if i >= before.len() {
            assert(silent(middle[i - before.len()]));
            lemma_middle_is_on_no_board(command, data_len, i - before.len());
        } else {
            assert(steps[i] == before[i]);
        }
    }
}

proof fn lemma_middle_is_on_no_board(command: TransferConfig, data_len: Option<usize>, i: int)
    requires
        0 <= i < loading_steps(command, data_len).len(),
    ensures
        !on_board(loading_steps(command, data_len)[i]),
{
}

proof fn lemma_dma_only<W: Word>(model: Model<W>, steps: Seq<Step>)
    requires
        forall|i: int|
            0 <= i < steps.len() ==> (#[trigger] steps[i]) is Wait || steps[i] == Step::Modify(
                Edit::Dma(false),
            ),
    ensures
        changes_dma_only(model, steps),
{
    assert forall|count: int| 0 <= count <= steps.len() implies {
        let registers = (#[trigger] at(model, steps, count)).registers;
        &&& forall|register: Register|
            register != Register::Cr ==> #[trigger] registers[register]
                == model.registers[register]
        &&& forall|bit: u32|
            bit < 32 && bit != 1 && bit != 2 ==> #[trigger] flag(registers[Register::Cr], bit)
                == flag(model.registers[Register::Cr], bit)
    } by {
        lemma_dma_only_so_far(model, steps, count);
    }
}

proof fn lemma_dma_only_so_far<W: Word>(model: Model<W>, steps: Seq<Step>, count: int)
    requires
        0 <= count <= steps.len(),
        forall|i: int|
            0 <= i < steps.len() ==> (#[trigger] steps[i]) is Wait || steps[i] == Step::Modify(
                Edit::Dma(false),
            ),
    ensures
        ({
            let registers = at(model, steps, count).registers;
            &&& forall|register: Register|
                register != Register::Cr ==> #[trigger] registers[register]
                    == model.registers[register]
            &&& forall|bit: u32|
                bit < 32 && bit != 1 && bit != 2 ==> #[trigger] flag(registers[Register::Cr], bit)
                    == flag(model.registers[Register::Cr], bit)
        }),
    decreases count,
{
    if count == 0 {
        lemma_at_start(model, steps);
    } else {
        lemma_dma_only_so_far(model, steps, count - 1);
        lemma_at_next(model, steps, count - 1);
        assert(steps[count - 1] is Wait || steps[count - 1] == Step::Modify(Edit::Dma(false)));
        let earlier = at(model, steps, count - 1).registers;
        let registers = at(model, steps, count).registers;
        assert forall|bit: u32| bit < 32 && bit != 1 && bit != 2 implies #[trigger] flag(
            registers[Register::Cr],
            bit,
        ) == flag(model.registers[Register::Cr], bit) by {
            broadcast use group_fields;

            assert(flag(earlier[Register::Cr], bit) == flag(model.registers[Register::Cr], bit));
        }
        assert forall|register: Register| register != Register::Cr implies #[trigger]
            registers[register] == model.registers[register] by {
            assert(earlier[register] == model.registers[register]);
        }
    }
}

/// A refused command or transfer stops short of a transaction, and so does entering the memory
/// mapped mode with a refused command. If it is refused because a phase does not fit on the lines
/// of the driver, not even the rest of the command gets into the registers.
pub proof fn law_refused_operation_stops_short<W: Word>(
    model: Model<W>,
    width: OspiWidth,
    channel: DmaChannel,
    completion: Completion,
    len: usize,
    command: TransferConfig,
    data_len: Option<usize>,
    write_config: TransferConfig,
)
    requires
        command_outcome(width, command) is Err,
    ensures
        stops_short(command_steps(width, command, data_len)),
        stops_short(blocking_command_steps(width, command)),
        stops_short(blocking_read_steps(width, len, command)),
        stops_short(blocking_write_steps(width, len, command)),
        stops_short(dma_read_steps(width, channel, completion, len, command)),
        stops_short(dma_write_steps(width, channel, completion, len, command)),
        stops_short(enable_memory_mapped_steps(width, command, write_config)),
        changes_little(model, enable_memory_mapped_steps(width, command, write_config)),
        !fits(command.iwidth, width.lines()) || !fits(command.adwidth, width.lines()) || !fits(
            command.abwidth,
            width.lines(),
        ) || !fits(command.dwidth, width.lines()) ==> {
            &&& command_steps(width, command, data_len).len() == 0
            &&& changes_dma_only(model, blocking_command_steps(width, command))
            &&& changes_dma_only(model, blocking_read_steps(width, len, command))
            &&& changes_dma_only(model, blocking_write_steps(width, len, command))
            &&& changes_dma_only(
                model,
                dma_read_steps(width, channel, completion, len, command),
            )
            &&& changes_dma_only(
                model,
                dma_write_steps(width, channel, completion, len, command),
            )
            &&& enable_memory_mapped_steps(width, command, write_config).len() == 0
        },
{
    let idle = seq![Step::Wait(Condition::Idle)];
    let quiet = seq![Step::Wait(Condition::Idle), Step::Modify(Edit::Dma(false))];
    let none = Seq::<Step>::empty();
    lemma_stops_short(none, width, command, data_len, none);
    assert(with_command(none, width, command, data_len, none) =~= command_steps(
        width,
        command,
        data_len,
    ));
    lemma_stops_short(
        idle,
        width,
        command,
        None,
        seq![Step::Wait(Condition::Complete), clear_complete()],
    );
    lemma_stops_short(quiet, width, command, Some(len), read_rest());
    lemma_stops_short(quiet, width, command, Some(len), write_rest());
    lemma_stops_short(idle, width, command, Some(len), dma_read_rest(channel, completion));
    lemma_stops_short(idle, width, command, Some(len), dma_write_rest(channel, completion));
    lemma_stops_short(none, width, command, None, mapped_rest(write_config));
    lemma_mild_command(none, width, command, None, none);
    assert(enable_memory_mapped_steps(width, command, write_config) =~= with_command(
        none,
        width,
        command,
        None,
        none,
    ));
    lemma_changes_little(model, enable_memory_mapped_steps(width, command, write_config));
    if !fits(command.iwidth, width.lines()) || !fits(command.adwidth, width.lines()) || !fits(
        command.abwidth,
        width.lines(),
    ) || !fits(command.dwidth, width.lines()) {
        lemma_dma_only(model, blocking_command_steps(width, command));
        lemma_dma_only(model, blocking_read_steps(width, len, command));
        lemma_dma_only(model, blocking_write_steps(width, len, command));
        lemma_dma_only(model, dma_read_steps(width, channel, completion, len, command));
        lemma_dma_only(model, dma_write_steps(width, channel, completion, len, command));
    }
}

/// What entering the memory mapped mode leaves as it is.
pub open spec fn kept_by_mapping(
    before: Map<Register, u32>,
    registers: Map<Register, u32>,
) -> bool {
    &&& forall|bit: u32|
        bit < 32 && bit != 1 && bit != 3 && bit != 28 && bit != 29 ==> #[trigger] flag(
            registers[Register::Cr],
            bit,
        ) == flag(before[Register::Cr], bit)
    &&& forall|bit: u32|
        5 <= bit < 32 ==> #[trigger] flag(registers[Register::Tcr], bit) == flag(
            before[Register::Tcr],
            bit,
        )
    &&& forall|bit: u32|
        5 <= bit < 32 ==> #[trigger] flag(registers[Register::Wtcr], bit) == flag(
            before[Register::Wtcr],
            bit,
        )
    &&& forall|bit: u32|
        bit == 6 || bit == 7 || bit == 14 || bit == 15 || bit == 22 || bit == 23 || bit == 28 || bit
            == 30 ==> #[trigger] flag(registers[Register::Ccr], bit) == flag(
            before[Register::Ccr],
            bit,
        )
    &&& forall|bit: u32|
        bit == 6 || bit == 7 || bit == 14 || bit == 15 || 19 <= bit <= 23 || bit == 28 || bit == 30
            || bit == 31 ==> #[trigger] flag(registers[Register::Wccr], bit) == flag(
            before[Register::Wccr],
            bit,
        )
    &&& forall|register: Register|
        register != Register::Cr && register != Register::Tcr && register != Register::Wtcr
            && register != Register::Ccr && register != Register::Wccr && register != Register::Dlr
            && register != Register::Abr && register != Register::Ir && register != Register::Ar
            ==> #[trigger] registers[register] == before[register]
}

spec fn mapping(step: Step) -> bool {
    ||| mild(step) && (step matches Step::Write(register, _) ==> register != Register::Fcr) && (
    step matches Step::Modify(edit) ==> !(edit is Dma))
    ||| step == Step::Modify(Edit::SendInstructionOnce)
    ||| step matches Step::Modify(edit) && (edit is WritePhases || edit is WriteDummy)
    ||| step == Step::Modify(Edit::MemoryMapped)
}

proof fn lemma_write_phases_keep(v: u32, command: TransferConfig, bit: u32)
    requires
        bit == 6 || bit == 7 || bit == 14 || bit == 15 || 19 <= bit <= 23 || bit == 28 || bit == 30
            || bit == 31,
    ensures
        flag(write_phases(v, command), bit) == flag(v, bit),
{
    broadcast use group_fields;

}

proof fn lemma_mapping_keeps<W: Word>(model: Model<W>, step: Step)
    requires
        mapping(step),
    ensures
        kept_by_mapping(model.registers, model.effect(step).registers),
{
    let before = model.registers;
    let registers = model.effect(step).registers;
    if mild(step) {
        lemma_mild_keeps(model, step);
        assert forall|bit: u32|
            bit < 32 && bit != 1 && bit != 3 && bit != 28 && bit != 29 implies #[trigger] flag(
            registers[Register::Cr],
            bit,
        ) == flag(before[Register::Cr], bit) by {
            broadcast use group_fields;

        }
    } else {
        assert forall|bit: u32|
            bit == 6 || bit == 7 || bit == 14 || bit == 15 || 19 <= bit <= 23 || bit == 28 || bit
                == 30 || bit == 31 implies #[trigger] flag(registers[Register::Wccr], bit) == flag(
            before[Register::Wccr],
            bit,
        ) by {
            match step {
                Step::Modify(Edit::WritePhases(command)) => {
                    lemma_write_phases_keep(before[Register::Wccr], command, bit);
                },
                _ => {},
            }
        }
        lemma_mapping_keeps_others(model, step);
    }
}

proof fn lemma_mapping_keeps_others<W: Word>(model: Model<W>, step: Step)
    requires
        mapping(step),
        !mild(step),
    ensures
        ({
            let before = model.registers;
            let registers = model.effect(step).registers;
            &&& forall|bit: u32|
                bit < 32 && bit != 1 && bit != 3 && bit != 28 && bit != 29 ==> #[trigger] flag(
                    registers[Register::Cr],
                    bit,
                ) == flag(before[Register::Cr], bit)
            &&& forall|bit: u32|
                5 <= bit < 32 ==> #[trigger] flag(registers[Register::Wtcr], bit) == flag(
                    before[Register::Wtcr],
                    bit,
                )
            &&& forall|bit: u32|
                bit < 32 && bit != 29 && bit != 31 ==> #[trigger] flag(
                    registers[Register::Ccr],
                    bit,
                ) == flag(before[Register::Ccr], bit)
        }),
{
    broadcast use group_fields;

}

proof fn lemma_mapping_so_far<W: Word>(model: Model<W>, steps: Seq<Step>, count: int)
    requires
        forall|i: int| 0 <= i < steps.len() ==> mapping(#[trigger] steps[i]),
        0 <= count <= steps.len(),
    ensures
        kept_by_mapping(model.registers, at(model, steps, count).registers),
    decreases count,
{
    if count == 0 {
        lemma_at_start(model, steps);
    } else {
        lemma_mapping_so_far(model, steps, count - 1);
        lemma_at_next(model, steps, count - 1);
        assert(mapping(steps[count - 1]));
        lemma_mapping_keeps(at(model, steps, count - 1), steps[count - 1]);
    }
}

proof fn lemma_command_is_mapping(width: OspiWidth, command: TransferConfig)
    ensures
        forall|i: int|
            0 <= i < command_steps(width, command, None).len() ==> mapping(
                #[trigger] command_steps(width, command, None)[i],
            ),
{
}

/// Entering the memory mapped mode, with a valid command or a refused one, changes at no time
/// anything but the command for reads, the command for writes, the functional mode and the timeout
/// counter.
pub proof fn law_entering_memory_mapped_mode_changes_little<W: Word>(
    model: Model<W>,
    width: OspiWidth,
    read_config: TransferConfig,
    write_config: TransferConfig,
    count: int,
)
    requires
        0 <= count <= enable_memory_mapped_steps(width, read_config, write_config).len(),
    ensures
        kept_by_mapping(
            model.registers,
            at(
                model,
                enable_memory_mapped_steps(width, read_config, write_config),
                count,
            ).registers,
        ),
{
    let steps = enable_memory_mapped_steps(width, read_config, write_config);
    let middle = command_steps(width, read_config, None);
    lemma_command_is_mapping(width, read_config);
    assert forall|i: int| 0 <= i < steps.len() implies mapping(#[trigger] steps[i]) by {
        if i < middle.len() {
            assert(steps[i] == middle[i]);
        } else {
            assert(steps[i] == mapped_rest(write_config)[i - middle.len()]);
        }
    }
    lemma_mapping_so_far(model, steps, count);
}

/// Entering the memory mapped mode with a valid command waits once, for the peripheral to be idle
/// again after the command; only then the command for writes is set up; and the mode is switched by
/// the very last step, when both commands are in the registers. Until then the mode is indirect
/// write. No data moves, and no flag is cleared.
pub proof fn law_memory_mapped_mode_is_entered_last<W: Word>(
    model: Model<W>,
    width: OspiWidth,
    read_config: TransferConfig,
    write_config: TransferConfig,
)
    requires
        command_outcome(width, read_config) is Ok,
    ensures
        ({
            let steps = enable_memory_mapped_steps(width, read_config, write_config);
            let last = at(model, steps, steps.len() - 1).registers;
            &&& exists|wait: int| #[trigger] maps_after(steps, wait)
            &&& forall|count: int|
                0 < count < steps.len() ==> field(
                    (#[trigger] at(model, steps, count)).registers[Register::Cr],
                    28,
                    2,
                ) == 0
            &&& loaded(model.registers, last, read_config, None)
            &&& !flag(last[Register::Ccr], 29)
            &&& flag(last[Register::Ccr], 31)
            &&& holds_phases(last[Register::Wccr], write_config)
            &&& flag(last[Register::Wccr], 29)
            &&& field(last[Register::Wtcr], 0, 5) == write_config.dummy.code()
            &&& field(model.execute(steps).registers[Register::Cr], 28, 2) == 3
        }),
{
    let steps = enable_memory_mapped_steps(width, read_config, write_config);
    let middle = command_steps(width, read_config, None);
    let rest = mapped_rest(write_config);
    let none = Seq::<Step>::empty();
    let length = middle.len() as int;
    let wait = length;
    assert forall|i: int| 0 <= i < steps.len() implies {
        &&& i < length ==> (silent(#[trigger] steps[i]) || (steps[i] matches Step::Write(
            register,
            _,
        ) && (register == Register::Ir || register == Register::Ar)))
        &&& i >= length ==> steps[i] == rest[i - length]
    } by {
        lemma_parts(none, width, read_config, None, rest, i);
    }
    lemma_command_is_mapping(width, read_config);
    assert forall|i: int| 0 <= i < length implies mapping(#[trigger] steps[i]) by {
        assert(steps[i] == middle[i]);
    }
    assert(maps_after(steps, wait)) by {
        assert forall|i: int|
            0 <= i < steps.len() && (#[trigger] steps[i] matches Step::Modify(edit) && (
            edit.target() == Register::Wccr || edit.target() == Register::Wtcr)) implies i > wait by {
            if i < length {
                assert(steps[i] == middle[i]);
                lemma_command_writes(width, read_config, i);
            }
        }
        assert forall|i: int| 0 <= i < steps.len() implies !on_board(#[trigger] steps[i]) by {
            if i < length {
                assert(mapping(steps[i]));
            }
        }
    }
    lemma_mapped_states(model, width, read_config, write_config);
}

proof fn lemma_command_writes(width: OspiWidth, command: TransferConfig, i: int)
    requires
        0 <= i < command_steps(width, command, None).len(),
    ensures
        command_steps(width, command, None)[i] matches Step::Modify(edit) ==> edit.target()
            == Register::Cr || edit.target() == Register::Tcr || edit.target() == Register::Ccr,
        command_steps(width, command, None)[i] matches Step::Modify(edit) ==> (edit.target()
            == Register::Cr ==> i == 0),
        !too_wide(width, command) ==> command_steps(width, command, None)[0] == Step::Modify(
            Edit::Mode(OspiMode::IndirectWrite),
        ),
{
}

/// Whether the one wait among some steps, for the peripheral to be idle, comes after everything
/// that sets off a transaction and before the registers for writes are set up, and no data moves,
/// no flag is cleared, and the pins and the clock are left alone.
pub open spec fn maps_after(steps: Seq<Step>, wait: int) -> bool {
    &&& 0 <= wait < steps.len()
    &&& steps[wait] == Step::Wait(Condition::Idle)
    &&& forall|i: int| 0 <= i < steps.len() && (#[trigger] steps[i]) is Wait ==> i == wait
    &&& forall|i: int| 0 <= i < steps.len() && sets_off(#[trigger] steps[i]) ==> i < wait
    &&& forall|i: int|
        0 <= i < steps.len() && (#[trigger] steps[i] matches Step::Modify(edit) && (edit.target()
            == Register::Wccr || edit.target() == Register::Wtcr)) ==> i > wait
    &&& forall|i: int|
        0 <= i < steps.len() ==> {
            &&& !moves(#[trigger] steps[i])
            &&& !(steps[i] is FinishDma)
            &&& !on_board(steps[i])
            &&& steps[i] matches Step::Write(register, _) ==> register != Register::Fcr
        }
}

/// The mode stays while a command is loaded and launched.
proof fn lemma_command_mode<W: Word>(
    model: Model<W>,
    width: OspiWidth,
    command: TransferConfig,
    count: int,
)
    requires
        command_outcome(width, command) is Ok,
        0 < count <= command_steps(width, command, None).len(),
    ensures
        field(
            at(model, command_steps(width, command, None), count).registers[Register::Cr],
            28,
            2,
        ) == 0,
    decreases count,
{
    let steps = command_steps(width, command, None);
    lemma_at_next(model, steps, count - 1);
    lemma_command_writes(width, command, count - 1);
    if count == 1 {
        lemma_at_start(model, steps);
        lemma_transfer_modes(model.registers[Register::Cr]);
    } else {
        lemma_command_mode(model, width, command, count - 1);
        lemma_command_is_mapping(width, command);
        assert(mapping(steps[count - 1]));
    }
}

proof fn lemma_mapped_states<W: Word>(
    model: Model<W>,
    width: OspiWidth,
    read_config: TransferConfig,
    write_config: TransferConfig,
)
    requires
        command_outcome(width, read_config) is Ok,
    ensures
        ({
            let steps = enable_memory_mapped_steps(width, read_config, write_config);
            let last = at(model, steps, steps.len() - 1).registers;
            &&& forall|count: int|
                0 < count < steps.len() ==> field(
                    (#[trigger] at(model, steps, count)).registers[Register::Cr],
                    28,
                    2,
                ) == 0
            &&& loaded(model.registers, last, read_config, None)
            &&& !flag(last[Register::Ccr], 29)
            &&& flag(last[Register::Ccr], 31)
            &&& holds_phases(last[Register::Wccr], write_config)
            &&& flag(last[Register::Wccr], 29)
            &&& field(last[Register::Wtcr], 0, 5) == write_config.dummy.code()
            &&& field(model.execute(steps).registers[Register::Cr], 28, 2) == 3
        }),
{
    let steps = enable_memory_mapped_steps(width, read_config, write_config);
    let middle = command_steps(width, read_config, None);
    let rest = mapped_rest(write_config);
    let length = middle.len() as int;
    let commanded = model.execute(middle);
    assert(steps =~= middle + rest);
    law_memory_mapped_mode_is_entered(model, width, read_config, write_config);
    law_command_takes_effect(model, width, read_config, None);
    lemma_transfer_modes(model.registers[Register::Cr]);
    lemma_at_start(commanded, rest);
    lemma_at_next(commanded, rest, 0);
    lemma_at_next(commanded, rest, 1);
    lemma_at_next(commanded, rest, 2);
    lemma_at_next(commanded, rest, 3);
    lemma_at_next(commanded, rest, 4);
    lemma_at_end(model, steps);
    lemma_at_second(model, middle, rest, 4);
    lemma_at_second(model, middle, rest, 5);
    assert forall|count: int| 0 < count < steps.len() implies field(
        (#[trigger] at(model, steps, count)).registers[Register::Cr],
        28,
        2,
    ) == 0 by {
        if count <= length {
            lemma_at_first(model, middle, rest, count);
            lemma_command_mode(model, width, read_config, count);
        } else {
            lemma_at_second(model, middle, rest, count - length);
            assert(count - length == 1 || count - length == 2 || count - length == 3 || count
                - length == 4);
        }
    }
}

/// Giving a driver up disconnects its pins, each with a step of its own, and then disables the
/// clock, and does nothing else.
pub proof fn law_release_does_nothing_else(pins: Pins)
    ensures
        ({
            let steps = release_steps(pins);
            let pin = |pin: Option<Pin>| if pin is Some { 1int } else { 0int };
            &&& steps.len() == pin(pins.sck) + pin(pins.d0) + pin(pins.d1) + pin(pins.d2) + pin(
                pins.d3,
            ) + pin(pins.d4) + pin(pins.d5) + pin(pins.d6) + pin(pins.d7) + pin(pins.nss) + pin(
                pins.dqs,
            ) + 1
            &&& steps.last() == Step::DisableClock
            &&& forall|i: int|
                0 <= i < steps.len() - 1 ==> (#[trigger] steps[i] matches Step::DisconnectPin(pin)
                    && has_pin(pins, pin))
        }),
{
}

/// The pins of a driver are connected once each, and nothing else is done with them: the clock and
/// the data lines are driven without a pull, and as fast as it goes, the chip select likewise but
/// pulled up, and data line 1 is only listened to if the device drives it alone.
pub proof fn law_pins_are_connected_once(pins: Pins, listening: bool)
    ensures
        ({
            let steps = connection_steps(pins, listening);
            let pin = |pin: Option<Pin>| if pin is Some { 1int } else { 0int };
            let driven = AfType::Output(OutputType::PushPull, Speed::VeryHigh);
            &&& steps.len() == pin(pins.d0) + pin(pins.d1) + pin(pins.d2) + pin(pins.d3) + pin(
                pins.d4,
            ) + pin(pins.d5) + pin(pins.d6) + pin(pins.d7) + pin(pins.sck) + pin(pins.nss)
            &&& forall|i: int| 0 <= i < steps.len() ==> (#[trigger] steps[i]) is ConnectPin
            &&& forall|line: nat|
                line != 1 ==> (#[trigger] pins.data(line) matches Some(pin) ==> steps.contains(
                    Step::ConnectPin(pin, driven),
                ))
            &&& pins.d1 matches Some(pin) ==> steps.contains(
                Step::ConnectPin(
                    pin,
                    if listening {
                        AfType::Input(Pull::Floating)
                    } else {
                        driven
                    },
                ),
            )
            &&& pins.sck matches Some(pin) ==> steps.contains(Step::ConnectPin(pin, driven))
            &&& pins.nss matches Some(pin) ==> steps.contains(
                Step::ConnectPin(
                    pin,
                    AfType::OutputPull(OutputType::PushPull, Speed::VeryHigh, Pull::Up),
                ),
            )
        }),
{
    let driven = AfType::Output(OutputType::PushPull, Speed::VeryHigh);
    let pulled = AfType::OutputPull(OutputType::PushPull, Speed::VeryHigh, Pull::Up);
    let heard = if listening {
        AfType::Input(Pull::Floating)
    } else {
        driven
    };
    let parts = pin_parts(pins, listening);
    lemma_joined_pins(pins, listening);
    lemma_pin_count(parts);
    lemma_pin_lens(pins, listening);
    lemma_pin_joined(parts, 0);
    lemma_pin_joined(parts, 1);
    lemma_pin_joined(parts, 2);
    lemma_pin_joined(parts, 3);
    lemma_pin_joined(parts, 4);
    lemma_pin_joined(parts, 5);
    lemma_pin_joined(parts, 6);
    lemma_pin_joined(parts, 7);
    lemma_pin_joined(parts, 8);
    lemma_pin_joined(parts, 9);
}

/// The pins, in their order, each with the way in which it is connected.
spec fn pin_parts(pins: Pins, listening: bool) -> Seq<(Option<Pin>, AfType)> {
    let driven = AfType::Output(OutputType::PushPull, Speed::VeryHigh);
    let pulled = AfType::OutputPull(OutputType::PushPull, Speed::VeryHigh, Pull::Up);
    let heard = if listening {
        AfType::Input(Pull::Floating)
    } else {
        driven
    };
    seq![
        (pins.d0, driven),
        (pins.d1, heard),
        (pins.d2, driven),
        (pins.d3, driven),
        (pins.d4, driven),
        (pins.d5, driven),
        (pins.d6, driven),
        (pins.d7, driven),
        (pins.sck, driven),
        (pins.nss, pulled),
    ]
}

spec fn joined(parts: Seq<(Option<Pin>, AfType)>) -> Seq<Step>
    decreases parts.len(),
{
    if parts.len() == 0 {
        Seq::empty()
    } else {
        joined(parts.drop_last()) + connect(parts.last().0, parts.last().1)
    }
}

spec fn pin_count(parts: Seq<(Option<Pin>, AfType)>) -> int
    decreases parts.len(),
{
    if parts.len() == 0 {
        0
    } else {
        pin_count(parts.drop_last()) + (if parts.last().0 is Some {
            1int
        } else {
            0int
        })
    }
}

proof fn lemma_pin_count(parts: Seq<(Option<Pin>, AfType)>)
    ensures
        joined(parts).len() == pin_count(parts),
        forall|i: int| 0 <= i < joined(parts).len() ==> (#[trigger] joined(parts)[i]) is ConnectPin,
    decreases parts.len(),
{
    if parts.len() > 0 {
        lemma_pin_count(parts.drop_last());
    }
}

proof fn lemma_pin_joined(parts: Seq<(Option<Pin>, AfType)>, n: int)
    requires
        0 <= n < parts.len(),
    ensures
        parts[n].0 matches Some(pin) ==> joined(parts).contains(
            Step::ConnectPin(pin, parts[n].1),
        ),
    decreases parts.len(),
{
    if let Some(pin) = parts[n].0 {
        let step = Step::ConnectPin(pin, parts[n].1);
        let earlier = joined(parts.drop_last());
        if n == parts.len() - 1 {
            assert(joined(parts)[earlier.len() as int] == step);
        } else {
            lemma_pin_joined(parts.drop_last(), n);
            let i = choose|i: int| 0 <= i < earlier.len() && earlier[i] == step;
            assert(joined(parts)[i] == step);
        }
    }
}

proof fn lemma_joined_pins(pins: Pins, listening: bool)
    ensures
        connection_steps(pins, listening) == joined(pin_parts(pins, listening)),
{
    reveal_with_fuel(joined, 11);
    assert(connection_steps(pins, listening) =~= joined(pin_parts(pins, listening)));
}

proof fn lemma_pin_lens(pins: Pins, listening: bool)
    ensures
        ({
            let pin = |pin: Option<Pin>| if pin is Some { 1int } else { 0int };
            pin_count(pin_parts(pins, listening)) == pin(pins.d0) + pin(pins.d1) + pin(pins.d2)
                + pin(pins.d3) + pin(pins.d4) + pin(pins.d5) + pin(pins.d6) + pin(pins.d7) + pin(
                pins.sck,
            ) + pin(pins.nss)
        }),
{
    reveal_with_fuel(pin_count, 11);
}

} // verus!
