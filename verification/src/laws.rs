//! What holds of every machine, every program and every answer of the float
//! unit.

use vstd::prelude::*;
use crate::alias::Alias;
use crate::driver::{labelled, line_label, line_outcome, running, tick};
use crate::error::Error;
use crate::execute::perform;
use crate::instruction::{InstructionSet, StationeersInstructionSet};
use crate::model::{
    clip, device_name, device_names, factory_names, register_name, register_names, Machine, Word,
};
use crate::opcode::{mnemonic, Opcode, Test};
use crate::text::{lemma_numeral, lemma_numeral_injective, numeral};
use crate::unit::{Completion, Pending};
use crate::value::{Value, ONE_BITS};

verus! {

/// A new machine has two registers more than it has numbered ones, and the
/// names `ra` and `sp` stand for the last two.
pub proof fn lemma_fresh_registers(
    ndevices: nat,
    nregisters: nat,
    stack_size: nat,
    instr_per_tick: usize,
)
    requires
        nregisters + 2 <= usize::MAX,
    ensures
        ({
            let m = Machine::fresh(ndevices, nregisters, stack_size, instr_per_tick);
            &&& m.registers.len() == nregisters + 2
            &&& m.alias("ra"@) == Ok::<Alias, Error>(Alias::Register(m.ra_index() as usize, true))
            &&& m.alias("sp"@) == Ok::<Alias, Error>(Alias::Register(m.sp_index() as usize, true))
            &&& m.ra() == (Value { bits: 0 })
            &&& m.sp() == (Value { bits: 0 })
        }),
{
    reveal_strlit("ra");
    reveal_strlit("sp");
    assert("ra"@[1] != "sp"@[1]);
}

/// Whether a name is the factory name of one of the first `n` device slots.
pub open spec fn names_device(name: Seq<char>, n: nat) -> bool {
    exists|i: nat| i < n && name == #[trigger] device_name(i)
}

/// Whether a name is the factory name of one of the first `n` registers.
pub open spec fn names_register(name: Seq<char>, n: nat) -> bool {
    exists|i: nat| i < n && name == #[trigger] register_name(i)
}

proof fn lemma_name_shapes(i: nat, j: nat)
    ensures
        device_name(i) != register_name(j),
        device_name(i) != "ra"@,
        device_name(i) != "sp"@,
        register_name(j) != "ra"@,
        register_name(j) != "sp"@,
        device_name(i) == device_name(j) ==> i == j,
        register_name(i) == register_name(j) ==> i == j,
{
    reveal_strlit("d");
    reveal_strlit("r");
    reveal_strlit("ra");
    reveal_strlit("sp");
    lemma_numeral(i);
    lemma_numeral(j);
    assert(device_name(i)[0] == 'd');
    assert(register_name(j)[0] == 'r');
    assert(register_name(j)[1] == numeral(j)[0]);
    assert("ra"@[1] == 'a');
    if device_name(i) == device_name(j) {
        assert(numeral(i) =~= device_name(i).skip(1));
        assert(numeral(j) =~= device_name(j).skip(1));
        lemma_numeral_injective(i, j);
    }
    if register_name(i) == register_name(j) {
        assert(numeral(i) =~= register_name(i).skip(1));
        assert(numeral(j) =~= register_name(j).skip(1));
        lemma_numeral_injective(i, j);
    }
}

proof fn lemma_device_names(n: nat, name: Seq<char>)
    requires
        n <= usize::MAX,
    ensures
        device_names(n).contains_key(name) <==> names_device(name, n),
        forall|i: nat|
            i < n ==> device_names(n).contains_key(#[trigger] device_name(i)) && device_names(
                n,
            )[device_name(i)] == Alias::Device(i as usize, true),
    decreases n,
{
    if n > 0 {
        let last = (n - 1) as nat;
        lemma_device_names(last, name);
        if names_device(name, last) {
            let i = choose|i: nat| i < last && name == #[trigger] device_name(i);
            assert(i < n && name == device_name(i));
        }
        if names_device(name, n) && name != device_name(last) {
            let i = choose|i: nat| i < n && name == #[trigger] device_name(i);
            assert(i < last && name == device_name(i));
        }
        assert(names_device(device_name(last), n));
        assert forall|i: nat| i < n implies device_names(n).contains_key(
            #[trigger] device_name(i),
        ) && device_names(n)[device_name(i)] == Alias::Device(i as usize, true) by {
            if i < last {
                lemma_name_shapes(i, last);
            }
        }
    }
}

proof fn lemma_register_names(base: Map<Seq<char>, Alias>, n: nat, name: Seq<char>)
    requires
        n <= usize::MAX,
    ensures
        register_names(base, n).contains_key(name) <==> base.contains_key(name) || names_register(
            name,
            n,
        ),
        !names_register(name, n) && base.contains_key(name) ==> register_names(base, n)[name]
            == base[name],
        forall|i: nat|
            i < n ==> register_names(base, n).contains_key(#[trigger] register_name(i))
                && register_names(base, n)[register_name(i)] == Alias::Register(i as usize, true),
    decreases n,
{
    if n > 0 {
        let last = (n - 1) as nat;
        lemma_register_names(base, last, name);
        if names_register(name, last) {
            let i = choose|i: nat| i < last && name == #[trigger] register_name(i);
            assert(i < n && name == register_name(i));
        }
        if names_register(name, n) && name != register_name(last) {
            let i = choose|i: nat| i < n && name == #[trigger] register_name(i);
            assert(i < last && name == register_name(i));
        }
        assert(names_register(register_name(last), n));
        assert forall|i: nat| i < n implies register_names(base, n).contains_key(
            #[trigger] register_name(i),
        ) && register_names(base, n)[register_name(i)] == Alias::Register(i as usize, true) by {
            if i < last {
                lemma_name_shapes(i, last);
            }
        }
    }
}

/// The names of a new machine are `d0`, `d1`, .. for its device slots,
/// `r0`, `r1`, .. for its numbered registers, `ra` and `sp`, each for the
/// slot of its number, and no others.
pub proof fn lemma_factory_names(ndevices: nat, nregisters: nat, name: Seq<char>)
    requires
        nregisters + 2 <= usize::MAX,
        ndevices <= usize::MAX,
    ensures
        factory_names(ndevices, nregisters).contains_key(name) <==> names_device(name, ndevices)
            || names_register(name, nregisters) || name == "ra"@ || name == "sp"@,
        forall|i: nat|
            i < ndevices ==> factory_names(ndevices, nregisters).contains_key(
                #[trigger] device_name(i),
            ) && factory_names(ndevices, nregisters)[device_name(i)] == Alias::Device(
                i as usize,
                true,
            ),
        forall|i: nat|
            i < nregisters ==> factory_names(ndevices, nregisters).contains_key(
                #[trigger] register_name(i),
            ) && factory_names(ndevices, nregisters)[register_name(i)] == Alias::Register(
                i as usize,
                true,
            ),
{
    let devices = device_names(ndevices);
    let numbered = register_names(devices, nregisters);
    lemma_device_names(ndevices, name);
    lemma_register_names(devices, nregisters, name);
    assert forall|i: nat| i < ndevices implies factory_names(ndevices, nregisters).contains_key(
        #[trigger] device_name(i),
    ) && factory_names(ndevices, nregisters)[device_name(i)] == Alias::Device(i as usize, true) by {
        lemma_name_shapes(i, 0);
        lemma_register_names(devices, nregisters, device_name(i));
        if names_register(device_name(i), nregisters) {
            let j = choose|j: nat| j < nregisters && device_name(i) == #[trigger] register_name(j);
            lemma_name_shapes(i, j);
        }
    }
    assert forall|i: nat| i < nregisters implies factory_names(ndevices, nregisters).contains_key(
        #[trigger] register_name(i),
    ) && factory_names(ndevices, nregisters)[register_name(i)] == Alias::Register(
        i as usize,
        true,
    ) by {
        lemma_name_shapes(0, i);
    }
}

/// No instruction changes how many registers, device slots or stack cells
/// the machine has, and none takes `ra` and `sp` from their places.
pub proof fn lemma_perform_keeps_shape(op: Opcode, args: Seq<Word>, m: Machine)
    requires
        m.registers.len() >= 2,
    ensures
        perform(op, args, m).1.registers.len() == m.registers.len(),
        perform(op, args, m).1.devices.len() == m.devices.len(),
        perform(op, args, m).1.stack.len() == m.stack.len(),
        perform(op, args, m).1.ra_index() == m.ra_index(),
        perform(op, args, m).1.sp_index() == m.sp_index(),
{
    match op {
        Opcode::Jump { .. } => {},
        Opcode::Branch { .. } => {},
        Opcode::Flag(_) => {},
        Opcode::Select => {},
        Opcode::Unary(_) => {},
        Opcode::Binary(_) => {},
        Opcode::Random => {},
        Opcode::Logic(_) => {},
        Opcode::Peek => {},
        Opcode::Pop => {},
        Opcode::Push => {},
        Opcode::Alias => {},
        Opcode::Define => {},
        Opcode::Move => {},
        Opcode::Halt => {},
        Opcode::Sleep => {},
        Opcode::Load => {},
        Opcode::Store => {},
        Opcode::LoadBatch => {},
        Opcode::StoreBatch => {},
        Opcode::LoadReagent => {},
        Opcode::LoadSlot => {},
    }
}

/// No completion changes how many registers, device slots or stack cells the
/// machine has.
pub proof fn lemma_completion_keeps_shape(completion: Completion, m: Machine, answer: Value)
    requires
        m.registers.len() >= 2,
    ensures
        completion.outcome(m, answer).1.registers.len() == m.registers.len(),
        completion.outcome(m, answer).1.devices.len() == m.devices.len(),
        completion.outcome(m, answer).1.stack.len() == m.stack.len(),
{
}

/// A tick of the game's instructions, however it ends, leaves the machine
/// with as many registers, device slots and stack cells as it had.
pub proof fn lemma_tick_keeps_shape(lines: Seq<Seq<Word>>, m: Machine)
    requires
        m.registers.len() >= 2,
    ensures
        ({
            let after = tick(&StationeersInstructionSet {  }, lines, m).1;
            &&& after.registers.len() == m.registers.len()
            &&& after.devices.len() == m.devices.len()
            &&& after.stack.len() == m.stack.len()
        }),
    decreases m.instr_per_tick - m.instr_counter,
{
    let set = StationeersInstructionSet {  };
    if running(m, lines.len()) {
        let fetched = m.at_line((m.next_line + 1) as usize);
        let line = lines[m.next_line as int];
        let (r, after) = line_outcome(&set, line, fetched);
        if !(line.len() == 0 || (line.len() == 1 && line[0].text.len() == 0)) && line_label(line)
            is None {
            match mnemonic(line[0].text) {
                Some(op) => {
                    lemma_perform_keeps_shape(op, line.skip(1), fetched);
                },
                None => {},
            }
        }
        if r is Ok && r->Ok_0 is None {
            let counted = Machine {
                instr_counter: (m.instr_counter + 1) as usize,
                instr_per_tick: m.instr_per_tick,
                ..after
            };
            lemma_tick_keeps_shape(lines, counted);
        }
    }
}

/// The label pass changes the label table and nothing else, and a name that
/// none of the first `n` lines declares stands for what it stood for
/// before.
pub proof fn lemma_labels_kept(m: Machine, lines: Seq<Seq<Word>>, n: nat, name: Seq<char>)
    requires
        n <= lines.len(),
        forall|j: int| 0 <= j < n ==> line_label(#[trigger] lines[j]) != Some(name),
    ensures
        labelled(m, lines, n) == (Machine { labels: labelled(m, lines, n).labels, ..m }),
        labelled(m, lines, n).labels.contains_key(name) <==> m.labels.contains_key(name),
        m.labels.contains_key(name) ==> labelled(m, lines, n).labels[name] == m.labels[name],
    decreases n,
{
    if n > 0 {
        lemma_labels_kept(m, lines, (n - 1) as nat, name);
        assert(line_label(lines[n - 1]) != Some(name));
    }
}

/// After the label pass over the first `n` lines, a label stands for the
/// last of these lines that declares it.
pub proof fn lemma_label_bound(m: Machine, lines: Seq<Seq<Word>>, n: nat, i: int, name: Seq<char>)
    requires
        0 <= i < n <= lines.len() <= usize::MAX,
        line_label(lines[i]) == Some(name),
        forall|j: int| i < j < n ==> line_label(#[trigger] lines[j]) != Some(name),
    ensures
        labelled(m, lines, n).labels.contains_key(name),
        labelled(m, lines, n).labels[name] == i,
    decreases n,
{
    if i < n - 1 {
        assert(line_label(lines[n - 1]) != Some(name));
        lemma_label_bound(m, lines, (n - 1) as nat, i, name);
    }
}

/// The order of the numbers: nothing is less than itself, less goes on
/// through a chain, and of two numbers one is less or they are equal in
/// order. What is not a number stands in no order.
pub proof fn lemma_order(a: Value, b: Value, c: Value)
    ensures
        !a.less(a),
        a.less(b) && b.less(c) ==> a.less(c),
        a.less(b) ==> a.at_most(b) && !b.at_most(a),
        !a.is_nan() && !b.is_nan() ==> a.less(b) || b.less(a) || (a.at_most(b) && b.at_most(a)),
        a.is_nan() || b.is_nan() ==> !a.less(b) && !a.at_most(b) && !b.less(a) && !b.at_most(a),
        a.truthy() <==> (Value { bits: 0 }).less(a),
{
}

/// A tick that does not fail leaves the count of instructions within the
/// quantum and the quantum as it was. Where it ends with the machine neither
/// halted nor behind the last line, and with no instruction waiting, the
/// quantum is used up: the count equals it.
pub proof fn lemma_tick_quantum<I: InstructionSet>(set: &I, lines: Seq<Seq<Word>>, m: Machine)
    requires
        m.instr_counter <= m.instr_per_tick,
    ensures
        ({
            let (r, after) = tick(set, lines, m);
            r is Ok ==> {
                &&& after.instr_per_tick == m.instr_per_tick
                &&& m.instr_counter <= after.instr_counter <= after.instr_per_tick
                &&& (r == Ok::<Option<Pending>, Error>(None) && !after.halt && after.next_line
                    < lines.len() ==> after.instr_counter == after.instr_per_tick)
            }
        }),
    decreases m.instr_per_tick - m.instr_counter,
{
    if running(m, lines.len()) {
        let fetched = m.at_line((m.next_line + 1) as usize);
        let (r, after) = line_outcome(set, lines[m.next_line as int], fetched);
        if r is Ok {
            let counted = Machine {
                instr_counter: (m.instr_counter + 1) as usize,
                instr_per_tick: m.instr_per_tick,
                ..after
            };
            if r->Ok_0 is None {
                lemma_tick_quantum(set, lines, counted);
            }
        }
    }
}

/// After `alias name target` the name stands for what the target stood for,
/// as a name that a program defined.
pub proof fn lemma_alias_binds(args: Seq<Word>, m: Machine)
    requires
        perform(Opcode::Alias, args, m).0 is Ok,
    ensures
        ({
            let after = perform(Opcode::Alias, args, m).1;
            let target = m.alias(args[1].text)->Ok_0;
            &&& m.alias(args[1].text) is Ok
            &&& after.alias(args[0].text) == Ok::<Alias, Error>(target.user())
            &&& after.alias(args[0].text)->Ok_0.slot() == target.slot()
            &&& after.alias(args[0].text)->Ok_0 is Register <==> target is Register
            &&& match after.alias(args[0].text)->Ok_0 {
                Alias::Device(_, factory) => !factory,
                Alias::Register(_, factory) => !factory,
            }
        }),
{
}

/// A pop right behind a push takes the value that was pushed, and leaves the
/// stack pointer where the float unit puts it: on its place before the push,
/// if that is what the float unit makes of one more and one less.
pub proof fn lemma_push_pop(m: Machine, v: Value, up: Value, down: Value, dest: Alias)
    requires
        m.wf(),
        Completion::Push(v).outcome(m, up).0 is Ok,
    ensures
        ({
            let pushed = Completion::Push(v).outcome(m, up).1;
            let (r, popped) = Completion::Pop(dest).outcome(pushed, down);
            &&& pushed.peek() == Ok::<Value, Error>(v)
            &&& pushed.pop(down).sp() == down
            &&& (down == m.sp() ==> pushed.pop(down).registers == m.registers)
            &&& (m.writable(dest) is Ok ==> r is Ok && popped.registers[dest.slot() as int] == v)
        }),
{
    let pushed = Completion::Push(v).outcome(m, up).1;
    assert(pushed == m.push(up, v));
    assert(pushed.sp() == up);
    assert(pushed.cell(up) == m.cell(up));
    if down == m.sp() {
        assert(pushed.pop(down).registers =~= m.registers);
    }
}

/// `jal` leaves the line behind itself in `ra` and goes to its target. Up to
/// `2^24` lines, the line can be read back from `ra` as it is.
pub proof fn lemma_jump_links(args: Seq<Word>, m: Machine)
    requires
        m.wf(),
        perform(Opcode::Jump { relative: false, link: true }, args, m).0 is Ok,
    ensures
        ({
            let after = perform(Opcode::Jump { relative: false, link: true }, args, m).1;
            &&& m.line(args[0]) is Ok
            &&& after.next_line == m.line(args[0])->Ok_0
            &&& after.ra() == Value::nearest(m.next_line as nat)
            &&& (m.next_line <= 0x100_0000 ==> after.ra().index() == m.next_line)
        }),
{
    if m.next_line <= 0x100_0000 {
        Value::lemma_nearest_exact(m.next_line as nat);
    }
}

/// `jr k` on line `i` goes to line `i + k`: the program counter stands
/// behind the `jr` when it runs, and moves on by `k - 1`.
pub proof fn lemma_jump_relative(args: Seq<Word>, m: Machine, i: usize)
    requires
        i < usize::MAX,
        perform(Opcode::Jump { relative: true, link: false }, args, m.at_line((i + 1) as usize)).0
            is Ok,
    ensures
        ({
            let fetched = m.at_line((i + 1) as usize);
            let after = perform(Opcode::Jump { relative: true, link: false }, args, fetched).1;
            &&& fetched.line(args[0]) is Ok
            &&& after.next_line == clip(i + fetched.line(args[0])->Ok_0)
            &&& after.registers == m.registers
        }),
{
}

/// A selection on a test leaves exactly `0.0` or `1.0` in its register:
/// at once where the core decides the test, and whatever the float unit
/// answers where the float unit does.
pub proof fn lemma_flag_is_boolean(test: Test, args: Seq<Word>, m: Machine, answer: Value)
    requires
        m.wf(),
        perform(Opcode::Flag(test), args, m).0 is Ok,
    ensures
        ({
            let (r, after) = perform(Opcode::Flag(test), args, m);
            let dest = m.register(args[0].text)->Ok_0;
            &&& m.register(args[0].text) is Ok
            &&& dest.slot() < m.registers.len()
            &&& match r->Ok_0 {
                None => after.registers[dest.slot() as int].bits == 0 || after.registers[dest.slot() as int].bits
                    == ONE_BITS,
                Some(pending) => {
                    let (done, last) = pending.completion.outcome(after, answer);
                    &&& done is Ok
                    &&& (last.registers[dest.slot() as int].bits == 0
                        || last.registers[dest.slot() as int].bits == ONE_BITS)
                },
            }
        }),
{
    let dest = m.register(args[0].text)->Ok_0;
    assert(m.aliases.contains_key(args[0].text));
    assert(m.holds(dest));
}

/// Every line of the program, run on whatever machine, leaves the program
/// counter behind itself or further on.
pub open spec fn forward<I: InstructionSet>(set: &I, lines: Seq<Seq<Word>>) -> bool {
    forall|m: Machine, i: int|
        0 <= i < lines.len() && i < usize::MAX ==> (#[trigger] line_outcome(
            set,
            lines[i],
            m.at_line((i + 1) as usize),
        )).1.next_line > i
}

/// A tick on a program that only moves forward runs no more instructions
/// than there are lines from the program counter to the end.
pub proof fn lemma_forward_terminates<I: InstructionSet>(
    set: &I,
    lines: Seq<Seq<Word>>,
    m: Machine,
)
    requires
        forward(set, lines),
        lines.len() <= usize::MAX,
        m.instr_counter <= m.instr_per_tick,
    ensures
        ({
            let (r, after) = tick(set, lines, m);
            r is Ok ==> after.instr_counter - m.instr_counter <= (if m.next_line < lines.len() {
                lines.len() - m.next_line
            } else {
                0
            }) && after.next_line >= m.next_line
        }),
    decreases m.instr_per_tick - m.instr_counter,
{
    if running(m, lines.len()) {
        let fetched = m.at_line((m.next_line + 1) as usize);
        let (r, after) = line_outcome(set, lines[m.next_line as int], fetched);
        assert(after.next_line > m.next_line);
        if r is Ok {
            let counted = Machine {
                instr_counter: (m.instr_counter + 1) as usize,
                instr_per_tick: m.instr_per_tick,
                ..after
            };
            if r->Ok_0 is None {
                lemma_forward_terminates(set, lines, counted);
            }
        }
    }
}

/// The line holds no jump and no branch: it is empty, declares a label,
/// names no instruction, or names one of the others.
pub open spec fn straight(line: Seq<Word>) -> bool {
    line.len() > 0 && line_label(line) is None ==> match mnemonic(line[0].text) {
        Some(Opcode::Jump { .. }) => false,
        Some(Opcode::Branch { .. }) => false,
        _ => true,
    }
}

/// A line without a jump or a branch leaves the program counter where the
/// driver put it, and what it may leave for the float unit moves it
/// neither.
pub proof fn lemma_straight_keeps_line(line: Seq<Word>, m: Machine, answer: Value)
    requires
        straight(line),
    ensures
        ({
            let set = StationeersInstructionSet {  };
            let (r, after) = line_outcome(&set, line, m);
            &&& after.next_line == m.next_line
            &&& match r {
                Ok(Some(pending)) => pending.completion.outcome(after, answer).1.next_line == m.next_line,
                _ => true,
            }
        }),
{
    let set = StationeersInstructionSet {  };
    if line.len() > 0 && line_label(line) is None {
        match mnemonic(line[0].text) {
            Some(op) => {
                let (r, after) = perform(op, line.skip(1), m);
                assert(after.next_line == m.next_line);
            },
            None => {},
        }
    }
}

/// A program without jumps and branches only moves forward.
pub proof fn lemma_straight_is_forward(lines: Seq<Seq<Word>>)
    requires
        forall|i: int| 0 <= i < lines.len() ==> straight(#[trigger] lines[i]),
    ensures
        forward(&StationeersInstructionSet {  }, lines),
{
    let set = StationeersInstructionSet {  };
    assert forall|m: Machine, i: int| 0 <= i < lines.len() && i < usize::MAX implies (
    #[trigger] line_outcome(&set, lines[i], m.at_line((i + 1) as usize))).1.next_line > i by {
        lemma_straight_keeps_line(lines[i], m.at_line((i + 1) as usize), Value { bits: 0 });
    }
}

} // verus!
