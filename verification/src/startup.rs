//! In which order the peripheral is started and configured, and what holds meanwhile.

use vstd::prelude::*;

use crate::bits::{field, flag, group_fields, lemma_ones, with_field, with_flag};
use crate::config::Config;
use crate::edit::{port_cleared, Edit, Route};
use crate::enums::OspiWidth;
use crate::fields::{lemma_clock_fields, lemma_device_fields, lemma_sampling_fields};
use crate::instance::{ChipFeatures, ManagerClock};
use crate::laws::{holds_device, lemma_device_registers, lemma_manager_registers, moves, sets_off};
use crate::model::{group_execute, settled, Model};
use crate::order::{at, lemma_at_end, lemma_at_first, lemma_at_next, lemma_at_second, on_board};
use crate::plan::{device_steps, enable_steps, manager_steps, set_config_steps, start_steps};
use crate::register::Register;
use crate::step::{Condition, Step};
use crate::word::Word;

verus! {

/// Whether a register belongs to the I/O manager or to the clock control.
pub open spec fn outside_peripheral(register: Register) -> bool {
    ||| register == Register::ManagerCr
    ||| register == Register::ManagerP1cr
    ||| register == Register::RccAhb2smenr
    ||| register == Register::RccAhb2enr1
    ||| register == Register::RccAhb3enr
}

/// Whether a register is one of those that a configuration is written to.
pub open spec fn configurable(register: Register) -> bool {
    ||| register == Register::Cr
    ||| register == Register::Dcr1
    ||| register == Register::Dcr2
    ||| register == Register::Dcr3
    ||| register == Register::Dcr4
    ||| register == Register::Tcr
}

/// Whether the clock of the peripheral is enabled, and the peripheral reset, by just one step, and
/// everything else is where it belongs: before it come the I/O manager and its clock, and the
/// peripheral is disabled at most; after it the peripheral is waited for at once, and only then
/// configured and enabled. No transaction is set off, no data moves, and no pin is touched.
pub open spec fn clocks_at(steps: Seq<Step>, clock: int) -> bool {
    &&& 0 <= clock && clock + 1 < steps.len()
    &&& steps[clock] == Step::EnableClock
    &&& steps[clock + 1] == Step::Wait(Condition::Idle)
    &&& forall|i: int| 0 <= i < steps.len() && i != clock ==> !on_board(#[trigger] steps[i])
    &&& forall|i: int|
        0 <= i < clock ==> (#[trigger] steps[i] matches Step::Modify(edit) && (
        outside_peripheral(edit.target()) || edit == Edit::Enable(false)))
    &&& forall|i: int|
        clock < i < steps.len() ==> (#[trigger] steps[i] == Step::Wait(Condition::Idle) || (
        steps[i] matches Step::Modify(edit) && configurable(edit.target()) && edit
            != Edit::Enable(false)))
    &&& forall|i: int|
        0 <= i < steps.len() ==> !sets_off(#[trigger] steps[i]) && !moves(steps[i])
}

/// Starting the peripheral enables its clock and resets it exactly once, and configures and enables
/// it afterwards, whatever the chip, the route and the configuration.
pub proof fn law_peripheral_is_clocked_before_it_is_configured(
    chip: ChipFeatures,
    route: Route,
    config: Config,
)
    ensures
        exists|clock: int| clocks_at(start_steps(chip, route, config), clock),
{
    assert(clocks_at(
        start_steps(chip, route, config),
        manager_steps(chip, route).len() as int,
    )) by {
        lemma_clocked(chip, route, config);
    }
}

proof fn lemma_clocked(chip: ChipFeatures, route: Route, config: Config)
    ensures
        clocks_at(start_steps(chip, route, config), manager_steps(chip, route).len() as int),
{
    let manager = manager_steps(chip, route);
    let tail = configuring_steps(chip, config, Some(route.dual_quad));
    let steps = start_steps(chip, route, config);
    let clock = manager.len() as int;
    lemma_start_parts(chip, route, config);
    lemma_tail(chip, config, Some(route.dual_quad));
    assert forall|i: int| 0 <= i < clock implies (#[trigger] steps[i] matches Step::Modify(edit) && (
    outside_peripheral(edit.target()) || edit == Edit::Enable(false))) by {
        assert(steps[i] == manager[i]);
    }
    assert forall|i: int| clock + 1 < i < steps.len() implies configuring(
        chip,
        Some(route.dual_quad),
        #[trigger] steps[i],
    ) by {
        assert(steps[i] == tail[i - clock - 2]);
    }
}

// How a configuration is written: the end of starting up, and of setting a configuration.
spec fn configuring_steps(chip: ChipFeatures, config: Config, dual: Option<bool>) -> Seq<Step> {
    device_steps(chip, config) + middle_steps(config, dual) + enable_steps(config)
}

spec fn middle_steps(config: Config, dual: Option<bool>) -> Seq<Step> {
    match dual {
        Some(on) => seq![
            Step::Wait(Condition::Idle),
            Step::Modify(Edit::Prescaler(config.clock_prescaler)),
            Step::Modify(Edit::DualMemory(on)),
        ],
        None => seq![
            Step::Wait(Condition::Idle),
            Step::Modify(Edit::Prescaler(config.clock_prescaler)),
        ],
    }
}

proof fn lemma_start_parts(chip: ChipFeatures, route: Route, config: Config)
    ensures
        start_steps(chip, route, config) == manager_steps(chip, route) + seq![
            Step::EnableClock,
            Step::Wait(Condition::Idle),
        ] + configuring_steps(chip, config, Some(route.dual_quad)),
{
    assert(start_steps(chip, route, config) =~= manager_steps(chip, route) + seq![
        Step::EnableClock,
        Step::Wait(Condition::Idle),
    ] + configuring_steps(chip, config, Some(route.dual_quad)));
}

proof fn lemma_set_config_parts(chip: ChipFeatures, config: Config)
    ensures
        set_config_steps(chip, config) == seq![
            Step::Wait(Condition::Idle),
            Step::Modify(Edit::Dma(false)),
        ] + configuring_steps(chip, config, None),
{
    assert(set_config_steps(chip, config) =~= seq![
        Step::Wait(Condition::Idle),
        Step::Modify(Edit::Dma(false)),
    ] + configuring_steps(chip, config, None));
}

spec fn configuring(chip: ChipFeatures, dual: Option<bool>, step: Step) -> bool {
    match step {
        Step::Wait(condition) => condition == Condition::Idle,
        Step::Modify(edit) => match edit {
            Edit::Device(_) => true,
            Edit::Wrap(_) => true,
            Edit::Boundary(_, max_transfer) => max_transfer is Some ==> chip.max_transfer,
            Edit::Refresh(_) => true,
            Edit::FifoThreshold(_) => true,
            Edit::Prescaler(_) => true,
            Edit::Sampling(_, _) => true,
            Edit::Enable(on) => on,
            Edit::FreeRunningClock(on) => on,
            Edit::DualMemory(_) => dual is Some,
            Edit::Dma(on) => dual is None && !on,
            _ => false,
        },
        _ => false,
    }
}

proof fn lemma_tail(chip: ChipFeatures, config: Config, dual: Option<bool>)
    ensures
        ({
            let steps = configuring_steps(chip, config, dual);
            let middle = middle_steps(config, dual).len() as int;
            &&& steps.len() == 7 + middle + (if config.free_running_clock {
                1int
            } else {
                0int
            })
            &&& steps[5] == Step::Wait(Condition::Idle)
            &&& steps[5 + middle + 1] == Step::Modify(Edit::Enable(true))
            &&& forall|i: int| 0 <= i < steps.len() ==> configuring(chip, dual, #[trigger] steps[i])
            &&& forall|i: int|
                0 <= i < steps.len() && #[trigger] steps[i] == Step::Modify(Edit::Enable(true)) ==> i
                    == 6 + middle
            &&& forall|i: int|
                0 <= i < steps.len() && (#[trigger] steps[i] matches Step::Modify(edit)
                    && edit is Prescaler) ==> i == 6
            &&& forall|i: int|
                0 <= i < steps.len() && (#[trigger] steps[i] matches Step::Modify(edit)
                    && edit is FreeRunningClock) ==> i == 7 + middle && config.free_running_clock
        }),
{
}

/// Whether a bit of a register may change when the peripheral is configured: it belongs to a field
/// of the configuration, or is the enable bit or the abort request, or, in the control register, it
/// is the dual-memory bit while the peripheral starts and DMAEN otherwise.
pub open spec fn config_bit(
    chip: ChipFeatures,
    starting: bool,
    register: Register,
    bit: u32,
) -> bool {
    match register {
        Register::Cr => bit == 0 || bit == 1 || 8 <= bit <= 12 || (if starting {
            bit == 6
        } else {
            bit == 2
        }),
        Register::Dcr1 => bit == 0 || bit == 1 || bit == 3 || 8 <= bit <= 13 || 16 <= bit <= 20
            || 24 <= bit <= 26,
        Register::Dcr2 => bit <= 7 || 16 <= bit <= 18,
        Register::Dcr3 => chip.max_transfer && bit <= 7 || 16 <= bit <= 20,
        Register::Dcr4 => true,
        Register::Tcr => bit == 28 || bit == 30,
        _ => false,
    }
}

/// What configuring the peripheral leaves as it is.
pub open spec fn kept_by_config(
    chip: ChipFeatures,
    starting: bool,
    before: Map<Register, u32>,
    registers: Map<Register, u32>,
) -> bool {
    &&& forall|register: Register, bit: u32|
        bit < 32 && !config_bit(chip, starting, register, bit) ==> #[trigger] flag(
            registers[register],
            bit,
        ) == flag(before[register], bit)
    &&& forall|register: Register|
        !configurable(register) ==> #[trigger] registers[register] == before[register]
    &&& flag(before[Register::Cr], 0) ==> flag(registers[Register::Cr], 0)
}

proof fn lemma_configuring_keeps<W: Word>(
    chip: ChipFeatures,
    dual: Option<bool>,
    model: Model<W>,
    step: Step,
)
    requires
        configuring(chip, dual, step),
    ensures
        kept_by_config(chip, dual is Some, model.registers, model.effect(step).registers),
{
    let before = model.registers;
    let registers = model.effect(step).registers;
    assert forall|register: Register, bit: u32|
        bit < 32 && !config_bit(chip, dual is Some, register, bit) implies #[trigger] flag(
        registers[register],
        bit,
    ) == flag(before[register], bit) by {
        broadcast use group_fields;

    }
    assert(flag(before[Register::Cr], 0) ==> flag(registers[Register::Cr], 0)) by {
        broadcast use group_fields;

        lemma_ones();
    }
}

proof fn lemma_configuring_so_far<W: Word>(
    chip: ChipFeatures,
    dual: Option<bool>,
    model: Model<W>,
    steps: Seq<Step>,
    from: int,
    count: int,
)
    requires
        0 <= from <= count <= steps.len(),
        forall|i: int| from <= i < steps.len() ==> configuring(chip, dual, #[trigger] steps[i]),
    ensures
        kept_by_config(
            chip,
            dual is Some,
            at(model, steps, from).registers,
            at(model, steps, count).registers,
        ),
    decreases count - from,
{
    if from < count {
        lemma_configuring_so_far(chip, dual, model, steps, from, count - 1);
        lemma_at_next(model, steps, count - 1);
        let earlier = at(model, steps, count - 1);
        assert(configuring(chip, dual, steps[count - 1]));
        lemma_configuring_keeps(chip, dual, earlier, steps[count - 1]);
        let before = at(model, steps, from).registers;
        let registers = at(model, steps, count).registers;
        assert forall|register: Register, bit: u32|
            bit < 32 && !config_bit(chip, dual is Some, register, bit) implies #[trigger] flag(
            registers[register],
            bit,
        ) == flag(before[register], bit) by {
            assert(flag(earlier.registers[register], bit) == flag(before[register], bit));
        }
        assert forall|register: Register| !configurable(register) implies #[trigger]
            registers[register] == before[register] by {
            assert(earlier.registers[register] == before[register]);
        }
    }
}

/// Setting a configuration begins when the peripheral is idle, sets off no transaction, moves no
/// data, does not reset the peripheral, and changes at no time anything but the configuration and
/// DMAEN; a peripheral that is enabled stays so all the time.
pub proof fn law_set_config_changes_little<W: Word>(
    model: Model<W>,
    chip: ChipFeatures,
    config: Config,
    count: int,
)
    requires
        0 <= count <= set_config_steps(chip, config).len(),
    ensures
        ({
            let steps = set_config_steps(chip, config);
            &&& steps[0] == Step::Wait(Condition::Idle)
            &&& forall|i: int|
                0 <= i < steps.len() ==> (#[trigger] steps[i] == Step::Wait(Condition::Idle)
                    || steps[i] is Modify)
            &&& kept_by_config(chip, false, model.registers, at(model, steps, count).registers)
        }),
{
    let steps = set_config_steps(chip, config);
    let tail = configuring_steps(chip, config, None);
    lemma_set_config_parts(chip, config);
    lemma_tail(chip, config, None);
    assert forall|i: int| 0 <= i < steps.len() implies configuring(
        chip,
        None,
        #[trigger] steps[i],
    ) by {
        if i >= 2 {
            assert(steps[i] == tail[i - 2]);
        }
    }
    assert(at(model, steps, 0) == model) by {
        assert(steps.take(0) =~= Seq::<Step>::empty());
    }
    lemma_configuring_so_far(chip, None, model, steps, 0, count);
}

/// Starting the peripheral resets it and changes nothing afterwards but the configuration and the
/// dual-memory bit: everything else is as the reset has left it.
pub proof fn law_start_changes_little_after_the_reset<W: Word>(
    model: Model<W>,
    chip: ChipFeatures,
    route: Route,
    config: Config,
    clock: int,
    count: int,
)
    requires
        clocks_at(start_steps(chip, route, config), clock),
        clock < count <= start_steps(chip, route, config).len(),
    ensures
        ({
            let steps = start_steps(chip, route, config);
            let reset = at(model, steps, clock + 1).registers;
            &&& reset[Register::Cr] == model.reset[Register::Cr]
            &&& reset[Register::Dcr1] == model.reset[Register::Dcr1]
            &&& reset[Register::Dcr2] == model.reset[Register::Dcr2]
            &&& reset[Register::Dcr3] == model.reset[Register::Dcr3]
            &&& reset[Register::Dcr4] == model.reset[Register::Dcr4]
            &&& reset[Register::Dlr] == model.reset[Register::Dlr]
            &&& reset[Register::Ar] == model.reset[Register::Ar]
            &&& reset[Register::Ccr] == model.reset[Register::Ccr]
            &&& reset[Register::Tcr] == model.reset[Register::Tcr]
            &&& reset[Register::Ir] == model.reset[Register::Ir]
            &&& reset[Register::Abr] == model.reset[Register::Abr]
            &&& reset[Register::Wccr] == model.reset[Register::Wccr]
            &&& reset[Register::Wtcr] == model.reset[Register::Wtcr]
            &&& kept_by_config(chip, true, reset, at(model, steps, count).registers)
        }),
{
    let steps = start_steps(chip, route, config);
    let tail = configuring_steps(chip, config, Some(route.dual_quad));
    lemma_clocked(chip, route, config);
    lemma_start_parts(chip, route, config);
    lemma_tail(chip, config, Some(route.dual_quad));
    assert(clock == manager_steps(chip, route).len()) by {
        assert(on_board(steps[manager_steps(chip, route).len() as int]));
    }
    assert forall|i: int| clock + 1 <= i < steps.len() implies configuring(
        chip,
        Some(route.dual_quad),
        #[trigger] steps[i],
    ) by {
        if i > clock + 1 {
            assert(steps[i] == tail[i - clock - 2]);
        }
    }
    lemma_at_next(model, steps, clock);
    lemma_reset_kept(model, steps, clock);
    lemma_configuring_so_far(chip, Some(route.dual_quad), model, steps, clock + 1, count);
}

/// No step changes what a reset leaves.
proof fn lemma_reset_kept<W: Word>(model: Model<W>, steps: Seq<Step>, count: int)
    requires
        0 <= count <= steps.len(),
    ensures
        at(model, steps, count).reset == model.reset,
    decreases count,
{
    if count == 0 {
        assert(steps.take(0) =~= Seq::<Step>::empty());
    } else {
        lemma_reset_kept(model, steps, count - 1);
        lemma_at_next(model, steps, count - 1);
    }
}

/// Whether a configuration is written in the right order, from some step on: the prescaler changes
/// only right after the peripheral was waited for; the peripheral is enabled only when all of the
/// configuration is in the registers, with the free running clock still off; and the free running
/// clock is switched on only if it is asked for, and only when the peripheral is enabled.
pub open spec fn configures_in_order<W: Word>(
    model: Model<W>,
    steps: Seq<Step>,
    chip: ChipFeatures,
    config: Config,
    dual: Option<bool>,
    from: int,
) -> bool {
    forall|i: int|
        from <= i < steps.len() ==> {
            let now = (#[trigger] at(model, steps, i)).registers;
            let then = at(model, steps, i + 1).registers;
            &&& field(then[Register::Dcr2], 0, 8) != field(now[Register::Dcr2], 0, 8) ==> i > 0
                && steps[i - 1] == Step::Wait(Condition::Idle)
            &&& flag(then[Register::Cr], 0) && !flag(now[Register::Cr], 0) ==> {
                &&& holds_device(now, chip, config)
                &&& field(now[Register::Dcr2], 0, 8) == config.clock_prescaler
                &&& flag(now[Register::Tcr], 30) == config.sample_shifting
                &&& flag(now[Register::Tcr], 28) == config.delay_hold_quarter_cycle
                &&& !flag(now[Register::Dcr1], 1)
                &&& dual matches Some(on) ==> flag(now[Register::Cr], 6) == on
            }
            &&& flag(then[Register::Dcr1], 1) && !flag(now[Register::Dcr1], 1) ==> flag(
                now[Register::Cr],
                0,
            ) && config.free_running_clock
        }
}

/// A step that neither sets the prescaler nor enables anything.
proof fn lemma_plain_step<W: Word>(
    chip: ChipFeatures,
    dual: Option<bool>,
    model: Model<W>,
    step: Step,
)
    requires
        configuring(chip, dual, step),
        step matches Step::Modify(edit) ==> !(edit is Prescaler) && !(edit is Enable) && !(
        edit is FreeRunningClock),
    ensures
        ({
            let now = model.registers;
            let then = model.effect(step).registers;
            &&& field(then[Register::Dcr2], 0, 8) == field(now[Register::Dcr2], 0, 8)
            &&& flag(then[Register::Cr], 0) == flag(now[Register::Cr], 0)
            &&& flag(then[Register::Dcr1], 1) ==> flag(now[Register::Dcr1], 1)
        }),
{
    broadcast use group_fields;

    lemma_ones();
}

/// The registers when the configuration is complete and the peripheral about to be enabled.
proof fn lemma_about_to_be_enabled<W: Word>(
    model: Model<W>,
    chip: ChipFeatures,
    config: Config,
    dual: Option<bool>,
)
    ensures
        ({
            let steps = configuring_steps(chip, config, dual);
            let count = 6 + middle_steps(config, dual).len();
            let now = at(model, steps, count as int).registers;
            &&& holds_device(now, chip, config)
            &&& field(now[Register::Dcr2], 0, 8) == config.clock_prescaler
            &&& flag(now[Register::Tcr], 30) == config.sample_shifting
            &&& flag(now[Register::Tcr], 28) == config.delay_hold_quarter_cycle
            &&& !flag(now[Register::Dcr1], 1)
            &&& dual matches Some(on) ==> flag(now[Register::Cr], 6) == on
        }),
{
    let device = device_steps(chip, config);
    let middle = middle_steps(config, dual);
    let enable = enable_steps(config);
    let described = model.execute(device);
    let clocked = described.execute(middle);
    assert(model.execute(device + middle) == clocked) by {
        broadcast use group_execute;

    }
    assert(configuring_steps(chip, config, dual) =~= (device + middle) + enable);
    lemma_at_second(model, device + middle, enable, 1);
    lemma_at_next(clocked, enable, 0);
    assert(at(clocked, enable, 0) == clocked) by {
        assert(enable.take(0) =~= Seq::<Step>::empty());
    }
    lemma_middle(described, config, dual);
    lemma_device_registers(model, chip, config);
    lemma_device_fields(
        model.registers[Register::Dcr1],
        model.registers[Register::Dcr2],
        model.registers[Register::Dcr3],
        model.registers[Register::Cr],
        config,
    );
    lemma_clock_fields(
        described.registers[Register::Dcr1],
        true,
        described.registers[Register::Dcr2],
        config.clock_prescaler,
    );
    lemma_sampling_fields(
        clocked.registers[Register::Tcr],
        config.sample_shifting,
        config.delay_hold_quarter_cycle,
    );
}

proof fn lemma_middle<W: Word>(model: Model<W>, config: Config, dual: Option<bool>)
    ensures
        ({
            let before = model.registers;
            let registers = model.execute(middle_steps(config, dual)).registers;
            &&& registers[Register::Dcr1] == before[Register::Dcr1]
            &&& registers[Register::Dcr2] == with_field(
                before[Register::Dcr2],
                0,
                8,
                config.clock_prescaler as u32,
            )
            &&& registers[Register::Dcr3] == before[Register::Dcr3]
            &&& registers[Register::Dcr4] == before[Register::Dcr4]
            &&& registers[Register::Tcr] == before[Register::Tcr]
            &&& field(registers[Register::Cr], 8, 5) == field(before[Register::Cr], 8, 5)
            &&& dual matches Some(on) ==> flag(registers[Register::Cr], 6) == on
        }),
{
    reveal_with_fuel(Model::execute, 4);
    broadcast use group_fields;

    lemma_ones();
}

/// The order in which a configuration is written, after some other steps.
proof fn lemma_in_order<W: Word>(
    model: Model<W>,
    before: Seq<Step>,
    chip: ChipFeatures,
    config: Config,
    dual: Option<bool>,
)
    ensures
        configures_in_order(
            model,
            before + configuring_steps(chip, config, dual),
            chip,
            config,
            dual,
            before.len() as int,
        ),
{
    let tail = configuring_steps(chip, config, dual);
    let steps = before + tail;
    let from = before.len() as int;
    let begun = model.execute(before);
    let enabling = 6 + middle_steps(config, dual).len();
    lemma_tail(chip, config, dual);
    assert forall|i: int| from <= i < steps.len() implies {
        let now = (#[trigger] at(model, steps, i)).registers;
        let then = at(model, steps, i + 1).registers;
        &&& field(then[Register::Dcr2], 0, 8) != field(now[Register::Dcr2], 0, 8) ==> i > 0
            && steps[i - 1] == Step::Wait(Condition::Idle)
        &&& flag(then[Register::Cr], 0) && !flag(now[Register::Cr], 0) ==> {
            &&& holds_device(now, chip, config)
            &&& field(now[Register::Dcr2], 0, 8) == config.clock_prescaler
            &&& flag(now[Register::Tcr], 30) == config.sample_shifting
            &&& flag(now[Register::Tcr], 28) == config.delay_hold_quarter_cycle
            &&& !flag(now[Register::Dcr1], 1)
            &&& dual matches Some(on) ==> flag(now[Register::Cr], 6) == on
        }
        &&& flag(then[Register::Dcr1], 1) && !flag(now[Register::Dcr1], 1) ==> flag(
            now[Register::Cr],
            0,
        ) && config.free_running_clock
    } by {
        let j = i - from;
        let step = tail[j];
        assert(steps[i] == step);
        assert(configuring(chip, dual, step));
        lemma_at_next(model, steps, i);
        lemma_at_second(model, before, tail, j);
        if step == Step::Modify(Edit::Enable(true)) {
            lemma_about_to_be_enabled(begun, chip, config, dual);
        } else if step matches Step::Modify(edit) && edit is Prescaler {
            assert(steps[i - 1] == tail[5]);
            lemma_other_register(at(model, steps, i), step);
        } else if step matches Step::Modify(edit) && edit is FreeRunningClock {
            lemma_at_next(begun, tail, j - 1);
            assert(tail[j - 1] == Step::Modify(Edit::Enable(true)));
            lemma_enabled(at(begun, tail, j - 1).registers[Register::Cr]);
            lemma_other_register(at(model, steps, i), step);
        } else {
            lemma_plain_step(chip, dual, at(model, steps, i), step);
        }
    }
}

proof fn lemma_enabled(cr: u32)
    ensures
        flag(settled(with_flag(cr, 0, true)), 0),
{
    broadcast use group_fields;

    lemma_ones();
}

proof fn lemma_other_register<W: Word>(model: Model<W>, step: Step)
    ensures
        step matches Step::Modify(edit) ==> (edit is Prescaler ==> {
            &&& model.effect(step).registers[Register::Cr] == model.registers[Register::Cr]
            &&& model.effect(step).registers[Register::Dcr1] == model.registers[Register::Dcr1]
        }),
        step matches Step::Modify(edit) ==> (edit is FreeRunningClock ==> {
            &&& model.effect(step).registers[Register::Cr] == model.registers[Register::Cr]
            &&& model.effect(step).registers[Register::Dcr2] == model.registers[Register::Dcr2]
        }),
{
}

/// A configuration is written in the right order, when the peripheral starts and when a new one is
/// set.
pub proof fn law_configuration_is_written_in_order<W: Word>(
    model: Model<W>,
    chip: ChipFeatures,
    route: Route,
    config: Config,
    clock: int,
)
    requires
        clocks_at(start_steps(chip, route, config), clock),
    ensures
        configures_in_order(model, set_config_steps(chip, config), chip, config, None, 2),
        configures_in_order(
            model,
            start_steps(chip, route, config),
            chip,
            config,
            Some(route.dual_quad),
            clock + 2,
        ),
{
    let steps = start_steps(chip, route, config);
    lemma_set_config_parts(chip, config);
    lemma_start_parts(chip, route, config);
    lemma_clocked(chip, route, config);
    assert(clock == manager_steps(chip, route).len()) by {
        assert(on_board(steps[manager_steps(chip, route).len() as int]));
    }
    lemma_in_order(
        model,
        seq![Step::Wait(Condition::Idle), Step::Modify(Edit::Dma(false))],
        chip,
        config,
        None,
    );
    lemma_in_order(
        model,
        manager_steps(chip, route) + seq![Step::EnableClock, Step::Wait(Condition::Idle)],
        chip,
        config,
        Some(route.dual_quad),
    );
}

/// Whether the clock enable bit of the I/O manager is set, where the chip family has it.
pub open spec fn manager_clocked(registers: Map<Register, u32>, clock: ManagerClock) -> bool {
    match clock {
        ManagerClock::Ahb2Sleep => flag(registers[Register::RccAhb2smenr], 20),
        ManagerClock::Ahb2 => flag(registers[Register::RccAhb2enr1], 21),
        ManagerClock::Ahb3 => flag(registers[Register::RccAhb3enr], 21),
    }
}

/// The I/O manager is set up with the peripheral disabled and with its own clock enable bit set.
/// Nothing else of the clock control and nothing else of the manager changes. Every signal of the
/// port comes from the instance that the driver owns, low lines from low lines; the high lines come
/// from the high lines for eight lines, from the low lines once more for two quad devices, and are
/// switched off otherwise. Without a manager none of these registers changes.
pub proof fn law_manager_is_set_up_for_the_instance<W: Word>(
    model: Model<W>,
    chip: ChipFeatures,
    route: Route,
    config: Config,
)
    ensures
        ({
            let steps = start_steps(chip, route, config);
            let before = model.registers;
            let registers = model.execute(steps).registers;
            let p1cr = registers[Register::ManagerP1cr];
            let second = route.index != 1;
            &&& chip.manager is None ==> forall|register: Register| #[trigger]
                outside_peripheral(register) ==> registers[register] == before[register]
            &&& chip.manager matches Some(clock) ==> {
                &&& forall|i: int|
                    0 <= i < steps.len() && (#[trigger] steps[i] matches Step::Modify(edit) && (
                    edit.target() == Register::ManagerCr || edit.target()
                        == Register::ManagerP1cr)) ==> {
                        let now = at(model, steps, i).registers;
                        !flag(now[Register::Cr], 0) && manager_clocked(now, clock)
                    }
                &&& manager_clocked(registers, clock)
                &&& forall|bit: u32|
                    bit < 32 && !(clock == ManagerClock::Ahb2Sleep && bit == 20)
                        ==> #[trigger] flag(registers[Register::RccAhb2smenr], bit) == flag(
                        before[Register::RccAhb2smenr],
                        bit,
                    )
                &&& forall|bit: u32|
                    bit < 32 && !(clock == ManagerClock::Ahb2 && bit == 21) ==> #[trigger] flag(
                        registers[Register::RccAhb2enr1],
                        bit,
                    ) == flag(before[Register::RccAhb2enr1], bit)
                &&& forall|bit: u32|
                    bit < 32 && !(clock == ManagerClock::Ahb3 && bit == 21) ==> #[trigger] flag(
                        registers[Register::RccAhb3enr],
                        bit,
                    ) == flag(before[Register::RccAhb3enr], bit)
                &&& !flag(registers[Register::ManagerCr], 0)
                &&& field(registers[Register::ManagerCr], 16, 8) == 0xff
                &&& forall|bit: u32|
                    1 <= bit < 16 || 24 <= bit < 32 ==> #[trigger] flag(
                        registers[Register::ManagerCr],
                        bit,
                    ) == flag(before[Register::ManagerCr], bit)
                &&& flag(p1cr, 0) && flag(p1cr, 8) && flag(p1cr, 16)
                &&& flag(p1cr, 1) == second
                &&& flag(p1cr, 9) == second
                &&& flag(p1cr, 4) == route.dqs
                &&& flag(p1cr, 5) == (route.dqs && second)
                &&& field(p1cr, 17, 2) == if second {
                    2u32
                } else {
                    0u32
                }
                &&& flag(p1cr, 24) == (route.width == OspiWidth::OCTO || route.dual_quad)
                &&& field(p1cr, 25, 2) == (if route.width == OspiWidth::OCTO {
                    1int
                } else {
                    0int
                }) + (if second && (route.width == OspiWidth::OCTO || route.dual_quad) {
                    2int
                } else {
                    0int
                })
                &&& forall|bit: u32|
                    bit == 2 || bit == 3 || bit == 6 || bit == 7 || 10 <= bit < 16 || 19 <= bit < 24
                        || 27 <= bit < 32 ==> #[trigger] flag(p1cr, bit) == flag(
                        before[Register::ManagerP1cr],
                        bit,
                    )
            }
        }),
{
    let manager = manager_steps(chip, route);
    let tail = seq![Step::EnableClock, Step::Wait(Condition::Idle)] + configuring_steps(
        chip,
        config,
        Some(route.dual_quad),
    );
    let steps = start_steps(chip, route, config);
    let connected = model.execute(manager).registers;
    let registers = model.execute(steps).registers;
    let clock = manager.len() as int;
    lemma_start_parts(chip, route, config);
    lemma_clocked(chip, route, config);
    assert(steps =~= manager + tail);
    lemma_at_second(model, manager, tail, 0);
    assert(at(model.execute(manager), tail, 0) == model.execute(manager)) by {
        assert(tail.take(0) =~= Seq::<Step>::empty());
    }
    lemma_at_next(model, steps, clock);
    lemma_at_end(model, steps);
    law_start_changes_little_after_the_reset(
        model,
        chip,
        route,
        config,
        clock,
        steps.len() as int,
    );
    assert forall|register: Register| #[trigger] outside_peripheral(register) implies
        registers[register] == connected[register] by {
        assert(!configurable(register));
    }
    assert(outside_peripheral(Register::ManagerCr) && outside_peripheral(Register::ManagerP1cr)
        && outside_peripheral(Register::RccAhb2smenr) && outside_peripheral(Register::RccAhb2enr1)
        && outside_peripheral(Register::RccAhb3enr));
    lemma_manager_registers(model, chip, route);
    if let Some(gate) = chip.manager {
        lemma_manager_rest(model, chip, route, gate);
        lemma_manager_bits(
            model.registers[Register::ManagerCr],
            model.registers[Register::ManagerP1cr],
            route,
        );
        assert forall|i: int|
            0 <= i < steps.len() && (#[trigger] steps[i] matches Step::Modify(edit) && (
            edit.target() == Register::ManagerCr || edit.target()
                == Register::ManagerP1cr)) implies {
            let now = at(model, steps, i).registers;
            !flag(now[Register::Cr], 0) && manager_clocked(now, gate)
        } by {
            if i < clock {
                assert(steps[i] == manager[i]);
                lemma_at_first(model, manager, tail, i);
                lemma_manager_meanwhile(model, chip, route, gate, i);
            }
        }
    } else {
        assert(manager =~= Seq::<Step>::empty());
    }
}

/// The clock control once the manager is set up.
proof fn lemma_manager_rest<W: Word>(
    model: Model<W>,
    chip: ChipFeatures,
    route: Route,
    clock: ManagerClock,
)
    requires
        chip.manager == Some(clock),
    ensures
        ({
            let before = model.registers;
            let registers = model.execute(manager_steps(chip, route)).registers;
            &&& manager_clocked(registers, clock)
            &&& forall|bit: u32|
                bit < 32 && !(clock == ManagerClock::Ahb2Sleep && bit == 20) ==> #[trigger] flag(
                    registers[Register::RccAhb2smenr],
                    bit,
                ) == flag(before[Register::RccAhb2smenr], bit)
            &&& forall|bit: u32|
                bit < 32 && !(clock == ManagerClock::Ahb2 && bit == 21) ==> #[trigger] flag(
                    registers[Register::RccAhb2enr1],
                    bit,
                ) == flag(before[Register::RccAhb2enr1], bit)
            &&& forall|bit: u32|
                bit < 32 && !(clock == ManagerClock::Ahb3 && bit == 21) ==> #[trigger] flag(
                    registers[Register::RccAhb3enr],
                    bit,
                ) == flag(before[Register::RccAhb3enr], bit)
        }),
{
    reveal_with_fuel(Model::execute, 6);
    broadcast use group_fields;

    lemma_ones();
}

proof fn lemma_manager_bits(cr: u32, p1cr: u32, route: Route)
    ensures
        ({
            let cr_after = Edit::ManagerArbitration.applied(cr);
            let after = route.applied(port_cleared(p1cr));
            let second = route.index != 1;
            &&& !flag(cr_after, 0)
            &&& field(cr_after, 16, 8) == 0xff
            &&& forall|bit: u32|
                1 <= bit < 16 || 24 <= bit < 32 ==> #[trigger] flag(cr_after, bit) == flag(cr, bit)
            &&& flag(after, 0) && flag(after, 8) && flag(after, 16)
            &&& flag(after, 1) == second
            &&& flag(after, 9) == second
            &&& flag(after, 4) == route.dqs
            &&& flag(after, 5) == (route.dqs && second)
            &&& field(after, 17, 2) == if second {
                2u32
            } else {
                0u32
            }
            &&& flag(after, 24) == (route.width == OspiWidth::OCTO || route.dual_quad)
            &&& field(after, 25, 2) == (if route.width == OspiWidth::OCTO {
                1int
            } else {
                0int
            }) + (if second && (route.width == OspiWidth::OCTO || route.dual_quad) {
                2int
            } else {
                0int
            })
            &&& forall|bit: u32|
                bit == 2 || bit == 3 || bit == 6 || bit == 7 || 10 <= bit < 16 || 19 <= bit < 24
                    || 27 <= bit < 32 ==> #[trigger] flag(after, bit) == flag(p1cr, bit)
        }),
{
    let after = route.applied(port_cleared(p1cr));
    crate::fields::lemma_route_fields(p1cr, route);
    crate::fields::lemma_arbitration_fields(cr);
    assert forall|bit: u32|
        bit == 2 || bit == 3 || bit == 6 || bit == 7 || 10 <= bit < 16 || 19 <= bit < 24 || 27
            <= bit < 32 implies #[trigger] flag(after, bit) == flag(p1cr, bit) by {
        broadcast use group_fields;

    }
    assert forall|bit: u32| 1 <= bit < 16 || 24 <= bit < 32 implies #[trigger] flag(
        Edit::ManagerArbitration.applied(cr),
        bit,
    ) == flag(cr, bit) by {
        broadcast use group_fields;

    }
}

/// While the registers of the manager are written.
proof fn lemma_manager_meanwhile<W: Word>(
    model: Model<W>,
    chip: ChipFeatures,
    route: Route,
    clock: ManagerClock,
    i: int,
)
    requires
        chip.manager == Some(clock),
        2 <= i < manager_steps(chip, route).len(),
    ensures
        ({
            let now = at(model, manager_steps(chip, route), i).registers;
            !flag(now[Register::Cr], 0) && manager_clocked(now, clock)
        }),
{
    let steps = manager_steps(chip, route);
    assert(at(model, steps, 0) == model) by {
        assert(steps.take(0) =~= Seq::<Step>::empty());
    }
    lemma_at_next(model, steps, 0);
    lemma_at_next(model, steps, 1);
    lemma_at_next(model, steps, 2);
    lemma_at_next(model, steps, 3);
    broadcast use group_fields;

    lemma_ones();
}

} // verus!
