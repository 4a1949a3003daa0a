//! The state of an integrated circuit and the primitives that instructions
//! are made of.

use vstd::prelude::*;
use crate::alias::Alias;
use crate::device::{Device, DeviceType};
use crate::error::Error;
use crate::lexer::Token;
use crate::model::{device_names, factory_names, lists, register_names, DeviceModel, Machine};
use crate::table::SymbolTable;
use crate::text::numbered;
use crate::value::Value;

verus! {

/// The machine: registers, device slots, symbol tables, stack, program
/// counter, the count of instructions run in this tick, and the halt flag.
pub struct ICState {
    devices: Vec<Device>,
    registers: Vec<Value>,
    aliases: SymbolTable<Alias>,
    definitions: SymbolTable<Value>,
    labels: SymbolTable<usize>,
    stack: Vec<Value>,
    instr_per_tick: usize,
    instr_counter: usize,
    next_line: usize,
    halt: bool,
}

/// Every alias of the table points below the given bounds.
spec fn fits(table: Map<Seq<char>, Alias>, ndevices: nat, nregisters: nat) -> bool {
    forall|name: Seq<char>|
        (#[trigger] table.contains_key(name)) ==> match table[name] {
            Alias::Device(i, _) => i < ndevices,
            Alias::Register(i, _) => i < nregisters,
        }
}

fn zeros(n: usize) -> (r: Vec<Value>)
    ensures
        r@ == Seq::new(n as nat, |i: int| Value { bits: 0 }),
{
    let mut cells: Vec<Value> = Vec::new();
    while cells.len() < n
        invariant
            cells@.len() <= n,
            forall|i: int| 0 <= i < cells@.len() ==> cells@[i] == (Value { bits: 0 }),
        decreases n - cells@.len(),
    {
        cells.push(Value::zero());
    }
    assert(cells@ =~= Seq::new(n as nat, |i: int| Value { bits: 0 }));
    cells
}

impl View for ICState {
    type V = Machine;

    closed spec fn view(&self) -> Machine {
        Machine {
            devices: Seq::new(self.devices@.len(), |i: int| self.devices@[i]@),
            registers: self.registers@,
            aliases: self.aliases@,
            definitions: self.definitions@,
            labels: self.labels@,
            stack: self.stack@,
            instr_per_tick: self.instr_per_tick,
            instr_counter: self.instr_counter,
            next_line: self.next_line,
            halt: self.halt,
        }
    }
}

impl ICState {
    /// The tables are in order and the state they stand for is well formed.
    pub closed spec fn wf(&self) -> bool {
        &&& self.aliases.wf()
        &&& self.definitions.wf()
        &&& self.labels.wf()
        &&& forall|i: int| 0 <= i < self.devices@.len() ==> (#[trigger] self.devices@[i]).wf()
        &&& self.registers@.len() >= 2
        &&& fits(self.aliases@, self.devices@.len(), self.registers@.len())
    }

    /// What is well formed as a machine is so as a model.
    pub proof fn lemma_wf(&self)
        requires
            self.wf(),
        ensures
            self@.wf(),
    {
        assert forall|name: Seq<char>| #[trigger] self@.aliases.contains_key(name) implies self@.holds(
            self@.aliases[name],
        ) by {
            assert(self.aliases@.contains_key(name));
        }
    }

    /// A machine with `ndevices` empty device slots, `nregisters` numbered
    /// registers besides `ra` and `sp`, a stack of `stack_size` cells, and a
    /// quantum of `instr_per_tick` instructions. Everything is zero.
    pub fn new(ndevices: usize, nregisters: usize, stack_size: usize, instr_per_tick: usize) -> (r:
        Self)
        requires
            nregisters + 2 <= usize::MAX,
        ensures
            r.wf(),
            r@ == Machine::fresh(
                ndevices as nat,
                nregisters as nat,
                stack_size as nat,
                instr_per_tick,
            ),
    {
        let mut devices: Vec<Device> = Vec::new();
        while devices.len() < ndevices
            invariant
                devices@.len() <= ndevices,
                forall|i: int| 0 <= i < devices@.len() ==> (#[trigger] devices@[i]) is Unset,
            decreases ndevices - devices@.len(),
        {
            devices.push(Device::Unset);
        }
        let mut aliases: SymbolTable<Alias> = SymbolTable::new();
        let mut d: usize = 0;
        while d < ndevices
            invariant
                d <= ndevices,
                aliases.wf(),
                aliases@ == device_names(d as nat),
                fits(aliases@, ndevices as nat, (nregisters + 2) as nat),
            decreases ndevices - d,
        {
            let name = numbered("d", d);
            aliases.insert(name.as_str(), Alias::Device(d, true));
            d = d + 1;
        }
        let mut i: usize = 0;
        while i < nregisters
            invariant
                i <= nregisters,
                nregisters + 2 <= usize::MAX,
                aliases.wf(),
                aliases@ == register_names(device_names(ndevices as nat), i as nat),
                fits(aliases@, ndevices as nat, (nregisters + 2) as nat),
            decreases nregisters - i,
        {
            let name = numbered("r", i);
            aliases.insert(name.as_str(), Alias::Register(i, true));
            i = i + 1;
        }
        aliases.insert("ra", Alias::Register(nregisters, true));
        aliases.insert("sp", Alias::Register(nregisters + 1, true));
        let r = ICState {
            devices,
            registers: zeros(nregisters + 2),
            aliases,
            definitions: SymbolTable::new(),
            labels: SymbolTable::new(),
            stack: zeros(stack_size),
            instr_per_tick,
            instr_counter: 0,
            next_line: 0,
            halt: false,
        };
        proof {
            let fresh = Machine::fresh(
                ndevices as nat,
                nregisters as nat,
                stack_size as nat,
                instr_per_tick,
            );
            assert(r@.devices =~= fresh.devices);
            assert(r@.aliases == factory_names(ndevices as nat, nregisters as nat));
            assert(r@ == fresh);
        }
        r
    }

    /// The quantum: how many instructions one tick may run.
    pub fn instr_per_tick(&self) -> (r: usize)
        ensures
            r == self@.instr_per_tick,
    {
        self.instr_per_tick
    }

    /// How many instructions ran in this tick.
    pub fn instr_counter(&self) -> (r: usize)
        ensures
            r == self@.instr_counter,
    {
        self.instr_counter
    }

    /// The line that is fetched next.
    pub fn next_line(&self) -> (r: usize)
        ensures
            r == self@.next_line,
    {
        self.next_line
    }

    /// Whether the machine has halted.
    pub fn halt(&self) -> (r: bool)
        ensures
            r == self@.halt,
    {
        self.halt
    }

    /// Sets the quantum.
    pub fn set_instr_per_tick(&mut self, n: usize)
        requires
            old(self).wf(),
        ensures
            final(self).wf(),
            final(self)@ == (Machine { instr_per_tick: n, ..old(self)@ }),
    {
        self.instr_per_tick = n;
    }

    /// Sets the count of instructions run in this tick; a new tick starts
    /// at 0.
    pub fn set_instr_counter(&mut self, n: usize)
        requires
            old(self).wf(),
        ensures
            final(self).wf(),
            final(self)@ == (Machine { instr_counter: n, ..old(self)@ }),
    {
        self.instr_counter = n;
    }

    /// Sets the line that is fetched next.
    pub fn set_next_line(&mut self, line: usize)
        requires
            old(self).wf(),
        ensures
            final(self).wf(),
            final(self)@ == old(self)@.at_line(line),
    {
        self.next_line = line;
    }

    /// Sets or clears the halt flag.
    pub fn set_halt(&mut self, halt: bool)
        requires
            old(self).wf(),
        ensures
            final(self).wf(),
            final(self)@ == (Machine { halt, ..old(self)@ }),
    {
        self.halt = halt;
    }

    /// The return address.
    pub fn get_ra(&self) -> (r: Value)
        requires
            self.wf(),
        ensures
            r == self@.ra(),
    {
        self.registers[self.registers.len() - 2]
    }

    /// Sets the return address.
    pub fn set_ra(&mut self, v: Value)
        requires
            old(self).wf(),
        ensures
            final(self).wf(),
            final(self)@ == old(self)@.with_registers(
                old(self)@.registers.update(old(self)@.ra_index(), v),
            ),
    {
        let i: usize = self.registers.len() - 2;
        self.registers.set(i, v);
        assert(self@.devices =~= old(self)@.devices);
    }

    /// The stack pointer.
    pub fn get_sp(&self) -> (r: Value)
        requires
            self.wf(),
        ensures
            r == self@.sp(),
    {
        self.registers[self.registers.len() - 1]
    }

    /// Sets the stack pointer.
    pub fn set_sp(&mut self, v: Value)
        requires
            old(self).wf(),
        ensures
            final(self).wf(),
            final(self)@ == old(self)@.with_registers(
                old(self)@.registers.update(old(self)@.sp_index(), v),
            ),
    {
        let i: usize = self.registers.len() - 1;
        self.registers.set(i, v);
        assert(self@.devices =~= old(self)@.devices);
    }

    /// Carries out a branch instruction: with `save`, `ra` takes the line
    /// behind the branch; where `f` holds, the next line becomes `l`, or
    /// moves by `l - 1` if the branch is `relative`.
    pub fn branch_helper(&mut self, l: usize, f: bool, relative: bool, save: bool)
        requires
            old(self).wf(),
        ensures
            final(self).wf(),
            final(self)@ == old(self)@.branch(l, f, relative, save),
    {
        if save {
            let line = Value::from_index(self.next_line);
            self.set_ra(line);
        }
        if f {
            if relative {
                let moved: usize = if l == 0 {
                    if self.next_line == 0 {
                        0
                    } else {
                        self.next_line - 1
                    }
                } else if self.next_line > usize::MAX - (l - 1) {
                    usize::MAX
                } else {
                    self.next_line + (l - 1)
                };
                self.next_line = moved;
            } else {
                self.next_line = l;
            }
        }
    }

    /// The value of the register behind an alias.
    pub fn get_register(&self, r: Alias) -> (v: Result<Value, Error>)
        requires
            self.wf(),
        ensures
            v == self@.read(r),
    {
        match r {
            Alias::Register(i, _) => {
                if i < self.registers.len() {
                    Ok(self.registers[i])
                } else {
                    Err(Error::RegisterRange)
                }
            },
            Alias::Device(_, _) => Err(Error::NotARegister),
        }
    }

    /// Writes `v` to the register behind an alias.
    pub fn set_register(&mut self, r: Alias, v: Value) -> (done: Result<(), Error>)
        requires
            old(self).wf(),
        ensures
            final(self).wf(),
            done == old(self)@.writable(r),
            final(self)@ == old(self)@.write(r, v),
    {
        match r {
            Alias::Register(i, _) => {
                if i < self.registers.len() {
                    self.registers.set(i, v);
                    assert(self@.devices =~= old(self)@.devices);
                    Ok(())
                } else {
                    Err(Error::RegisterRange)
                }
            },
            Alias::Device(_, _) => Err(Error::NotARegister),
        }
    }

    /// The slot behind a device alias.
    pub fn get_device(&self, d: Alias) -> (r: Result<&Device, Error>)
        requires
            self.wf(),
        ensures
            match r {
                Ok(device) => device.wf() && self@.slot(d) == Ok::<Option<DeviceModel>, Error>(
                    device@,
                ),
                Err(e) => self@.slot(d) == Err::<Option<DeviceModel>, Error>(e),
            },
    {
        match d {
            Alias::Device(i, _) => {
                if i < self.devices.len() {
                    Ok(&self.devices[i])
                } else {
                    Err(Error::DeviceRange)
                }
            },
            Alias::Register(_, _) => Err(Error::NotADevice),
        }
    }

    /// Whether the slot behind a device alias holds a device.
    pub fn is_device_set(&self, d: Alias) -> (r: Result<bool, Error>)
        requires
            self.wf(),
        ensures
            r == self@.device_set(d),
    {
        match self.get_device(d) {
            Ok(device) => Ok(
                match device {
                    Device::Installed(_) => true,
                    Device::Unset => false,
                },
            ),
            Err(e) => Err(e),
        }
    }

    /// Binds the name `t` to what `a` points at, as a name that a program
    /// defined. An alias that points outside the machine is refused.
    pub fn add_alias(&mut self, t: &str, a: Alias) -> (done: Result<(), Error>)
        requires
            old(self).wf(),
        ensures
            final(self).wf(),
            done == (match a {
                Alias::Device(_, _) => if old(self)@.holds(a) {
                    Ok::<(), Error>(())
                } else {
                    Err(Error::DeviceRange)
                },
                Alias::Register(_, _) => if old(self)@.holds(a) {
                    Ok::<(), Error>(())
                } else {
                    Err(Error::RegisterRange)
                },
            }),
            final(self)@ == (if old(self)@.holds(a) {
                old(self)@.with_alias(t@, a)
            } else {
                old(self)@
            }),
    {
        let marked = match a {
            Alias::Device(d, _) => {
                if d >= self.devices.len() {
                    return Err(Error::DeviceRange);
                }
                Alias::Device(d, false)
            },
            Alias::Register(r, _) => {
                if r >= self.registers.len() {
                    return Err(Error::RegisterRange);
                }
                Alias::Register(r, false)
            },
        };
        self.aliases.insert(t, marked);
        Ok(())
    }

    /// Binds the name `t` to the constant `n`.
    pub fn add_definition(&mut self, t: &str, n: Value)
        requires
            old(self).wf(),
        ensures
            final(self).wf(),
            final(self)@ == old(self)@.with_definition(t@, n),
    {
        self.definitions.insert(t, n);
    }

    /// Binds the label `t` to line `n`.
    pub fn add_label(&mut self, t: &str, n: usize)
        requires
            old(self).wf(),
        ensures
            final(self).wf(),
            final(self)@ == old(self)@.with_label(t@, n),
    {
        self.labels.insert(t, n);
    }

    /// What the token names in the alias table.
    pub fn try_alias(&self, token: &str) -> (r: Result<Alias, Error>)
        requires
            self.wf(),
        ensures
            r == self@.alias(token@),
    {
        match self.aliases.get(token) {
            Some(a) => Ok(a),
            None => Err(Error::NotAnAlias),
        }
    }

    /// The device that the token names.
    pub fn try_device(&self, token: &str) -> (r: Result<Alias, Error>)
        requires
            self.wf(),
        ensures
            r == self@.device(token@),
    {
        match self.aliases.get(token) {
            Some(Alias::Device(i, f)) => Ok(Alias::Device(i, f)),
            _ => Err(Error::NotADevice),
        }
    }

    /// The register that the token names.
    pub fn try_register(&self, token: &str) -> (r: Result<Alias, Error>)
        requires
            self.wf(),
        ensures
            r == self@.register(token@),
    {
        match self.aliases.get(token) {
            Some(Alias::Register(i, f)) => Ok(Alias::Register(i, f)),
            _ => Err(Error::NotARegister),
        }
    }

    /// The number that the token stands for: the value of the register it
    /// names, else the number it writes, else the constant it names.
    pub fn try_number(&self, token: &Token) -> (r: Result<Value, Error>)
        requires
            self.wf(),
        ensures
            r == self@.number(token@),
    {
        if let Some(Alias::Register(i, _)) = self.aliases.get(token.text.as_str()) {
            Ok(self.registers[i])
        } else if let Some(n) = token.number {
            Ok(n)
        } else if let Some(n) = self.definitions.get(token.text.as_str()) {
            Ok(n)
        } else {
            Err(Error::NotANumber)
        }
    }

    /// The line that the token stands for: the whole part of the register it
    /// names or of the number it writes, else the line of the label it
    /// names.
    pub fn try_line_number(&self, token: &Token) -> (r: Result<usize, Error>)
        requires
            self.wf(),
        ensures
            r == self@.line(token@),
    {
        if let Some(Alias::Register(i, _)) = self.aliases.get(token.text.as_str()) {
            Ok(self.registers[i].to_index())
        } else if let Some(n) = token.number {
            Ok(n.to_index())
        } else if let Some(n) = self.labels.get(token.text.as_str()) {
            Ok(n)
        } else {
            Err(Error::NotALineNumber)
        }
    }

    /// Puts the device `dt` into the slot behind `a`.
    pub fn try_set_device(&mut self, a: Alias, dt: DeviceType) -> (done: Result<(), Error>)
        requires
            old(self).wf(),
            dt.wf(),
        ensures
            final(self).wf(),
            done == (match old(self)@.slot(a) {
                Ok(_) => Ok::<(), Error>(()),
                Err(e) => Err(e),
            }),
            final(self)@ == old(self)@.with_device(a, dt@),
    {
        match a {
            Alias::Device(i, _) => {
                if i < self.devices.len() {
                    self.devices.set(i, Device::Installed(dt));
                    assert(self@.devices =~= old(self)@.devices.update(i as int, Some(dt@)));
                    Ok(())
                } else {
                    Err(Error::DeviceRange)
                }
            },
            Alias::Register(_, _) => Err(Error::NotADevice),
        }
    }

    /// The value of parameter `p` of the device behind `a`.
    pub fn try_get_device_param(&self, a: Alias, p: &str) -> (r: Result<Value, Error>)
        requires
            self.wf(),
        ensures
            r == self@.load(a, p@),
    {
        match self.get_device(a) {
            Ok(Device::Installed(dt)) => Ok(dt.get_param(p)),
            Ok(Device::Unset) => Err(Error::DeviceUnset),
            Err(e) => Err(e),
        }
    }

    /// Stores `v` as parameter `p` of the device behind `a`.
    pub fn try_set_device_param(&mut self, a: Alias, p: &str, v: Value) -> (done: Result<
        (),
        Error,
    >)
        requires
            old(self).wf(),
        ensures
            final(self).wf(),
            done == old(self)@.storable(a),
            final(self)@ == old(self)@.store(a, p@, v),
    {
        match a {
            Alias::Device(i, _) => {
                if i < self.devices.len() {
                    let mut slot = Device::Unset;
                    std::mem::swap(&mut slot, &mut self.devices[i]);
                    match slot {
                        Device::Installed(mut dt) => {
                            dt.set_param(p, v);
                            self.devices.set(i, Device::Installed(dt));
                            assert(self@.devices =~= old(self)@.devices.update(
                                i as int,
                                Some(dt@),
                            ));
                            Ok(())
                        },
                        Device::Unset => {
                            assert(self@.devices =~= old(self)@.devices);
                            Err(Error::DeviceUnset)
                        },
                    }
                } else {
                    Err(Error::DeviceRange)
                }
            },
            Alias::Register(_, _) => Err(Error::NotADevice),
        }
    }

    /// The values of all registers, `ra` and `sp` last.
    pub fn registers(&self) -> (r: Vec<Value>)
        requires
            self.wf(),
        ensures
            r@ == self@.registers,
    {
        let mut values: Vec<Value> = Vec::new();
        let mut i: usize = 0;
        while i < self.registers.len()
            invariant
                i <= self.registers@.len(),
                values@ =~= self.registers@.take(i as int),
            decreases self.registers@.len() - i,
        {
            values.push(self.registers[i]);
            i = i + 1;
        }
        assert(self.registers@.take(i as int) =~= self.registers@);
        values
    }

    /// The aliases that a program defined, in the order of their first
    /// definition.
    pub fn user_aliases(&self) -> (r: Vec<(String, Alias)>)
        requires
            self.wf(),
        ensures
            lists(r@, self@.programmed()),
    {
        let all = self.aliases.entries();
        let mut chosen: Vec<(String, Alias)> = Vec::new();
        let ghost mut from: Seq<int> = Seq::empty();
        let mut i: usize = 0;
        while i < all.len()
            invariant
                self.wf(),
                i <= all@.len(),
                all@.len() == self.aliases.keys().len(),
                forall|j: int|
                    0 <= j < all@.len() ==> (#[trigger] all@[j]).0@ == self.aliases.keys()[j]
                        && all@[j].1 == self.aliases.bound()[j],
                from.len() == chosen@.len(),
                forall|k: int|
                    0 <= k < from.len() ==> 0 <= (#[trigger] from[k]) < i && chosen@[k].0@
                        == self.aliases.keys()[from[k]] && chosen@[k].1 == self.aliases.bound()[from[k]]
                        && chosen@[k].1.user() == chosen@[k].1,
                forall|k: int, l: int| 0 <= k < l < from.len() ==> from[k] < from[l],
                forall|j: int|
                    0 <= j < i && self.aliases.bound()[j].user() == self.aliases.bound()[j]
                        ==> exists|k: int| 0 <= k < from.len() && #[trigger] from[k] == j,
            decreases all@.len() - i,
        {
            let user = match all[i].1 {
                Alias::Device(_, factory) => !factory,
                Alias::Register(_, factory) => !factory,
            };
            if user {
                chosen.push((all[i].0.clone(), all[i].1));
                proof {
                    let ghost before = from;
                    from = from.push(i as int);
                    assert(forall|k: int| 0 <= k < before.len() ==> from[k] == before[k]);
                    assert(from[before.len() as int] == i);
                }
            }
            i = i + 1;
        }
        proof {
            let map = self@.programmed();
            assert forall|k: int| 0 <= k < chosen@.len() implies map.contains_key(
                (#[trigger] chosen@[k]).0@,
            ) && map[chosen@[k].0@] == chosen@[k].1 by {
                self.aliases.lemma_entry(from[k]);
            }
            assert forall|name: Seq<char>| #[trigger] map.contains_key(name) implies exists|k: int|
                0 <= k < chosen@.len() && (#[trigger] chosen@[k]).0@ == name by {
                let j = self.aliases.keys().index_of(name);
                assert(self.aliases.keys().contains(name));
                assert(self.aliases.keys()[j] == name);
                self.aliases.lemma_entry(j);
                let k = choose|k: int| 0 <= k < from.len() && #[trigger] from[k] == j;
                assert(chosen@[k].0@ == name);
            }
            assert forall|k: int, l: int| 0 <= k < l < chosen@.len() implies (
            #[trigger] chosen@[k]).0@ != (#[trigger] chosen@[l]).0@ by {
                assert(from[k] < from[l]);
            }
        }
        chosen
    }

    /// The definitions, in the order of their first definition.
    pub fn definitions(&self) -> (r: Vec<(String, Value)>)
        requires
            self.wf(),
        ensures
            lists(r@, self@.definitions),
    {
        let all = self.definitions.entries();
        proof {
            assert forall|k: int| 0 <= k < all@.len() implies self@.definitions.contains_key(
                (#[trigger] all@[k]).0@,
            ) && self@.definitions[all@[k].0@] == all@[k].1 by {
                self.definitions.lemma_entry(k);
            }
            assert forall|name: Seq<char>| #[trigger]
                self@.definitions.contains_key(name) implies exists|k: int|
                0 <= k < all@.len() && (#[trigger] all@[k]).0@ == name by {
                let j = self.definitions.keys().index_of(name);
                assert(self.definitions.keys().contains(name));
                assert(all@[j].0@ == name);
            }
        }
        all
    }

    /// The labels, in the order of their first binding.
    pub fn labels(&self) -> (r: Vec<(String, usize)>)
        requires
            self.wf(),
        ensures
            lists(r@, self@.labels),
    {
        let all = self.labels.entries();
        proof {
            assert forall|k: int| 0 <= k < all@.len() implies self@.labels.contains_key(
                (#[trigger] all@[k]).0@,
            ) && self@.labels[all@[k].0@] == all@[k].1 by {
                self.labels.lemma_entry(k);
            }
            assert forall|name: Seq<char>| #[trigger] self@.labels.contains_key(name) implies exists|
                k: int,
            |
                0 <= k < all@.len() && (#[trigger] all@[k]).0@ == name by {
                let j = self.labels.keys().index_of(name);
                assert(self.labels.keys().contains(name));
                assert(all@[j].0@ == name);
            }
        }
        all
    }

    fn stack_cell(&self, pointer: Value) -> (r: Option<usize>)
        requires
            self.wf(),
        ensures
            match r {
                Some(i) => self@.cell(pointer) == Some(i as int),
                None => self@.cell(pointer) is None,
            },
    {
        let i: usize = pointer.to_index();
        if Value::zero().le(pointer) && i < self.stack.len() {
            Some(i)
        } else {
            None
        }
    }

    /// The value in the stack cell that the stack pointer addresses.
    pub fn try_peek(&self) -> (r: Result<Value, Error>)
        requires
            self.wf(),
        ensures
            r == self@.peek(),
    {
        match self.stack_cell(self.get_sp()) {
            Some(i) => Ok(self.stack[i]),
            None => Err(Error::StackRange),
        }
    }

    /// Takes the value in the cell that the stack pointer addresses, and
    /// moves the stack pointer to `moved`: what the float unit made of
    /// `sp - 1.0`.
    pub fn try_pop(&mut self, moved: Value) -> (r: Result<Value, Error>)
        requires
            old(self).wf(),
        ensures
            final(self).wf(),
            r == old(self)@.peek(),
            final(self)@ == old(self)@.pop(moved),
    {
        match self.stack_cell(self.get_sp()) {
            Some(i) => {
                let v = self.stack[i];
                self.set_sp(moved);
                Ok(v)
            },
            None => Err(Error::StackRange),
        }
    }

    /// Moves the stack pointer to `moved`, what the float unit made of
    /// `sp + 1.0`, and puts `n` into the cell that it then addresses.
    pub fn try_push(&mut self, moved: Value, n: Value) -> (done: Result<(), Error>)
        requires
            old(self).wf(),
        ensures
            final(self).wf(),
            done == old(self)@.pushable(moved),
            final(self)@ == old(self)@.push(moved, n),
    {
        if self.stack_cell(self.get_sp()).is_none() {
            return Err(Error::StackRange);
        }
        match self.stack_cell(moved) {
            Some(i) => {
                self.set_sp(moved);
                self.stack.set(i, n);
                assert(self@.devices =~= old(self)@.devices);
                Ok(())
            },
            None => Err(Error::StackRange),
        }
    }
}

impl Default for ICState {
    /// The machine of the game: six device slots, sixteen numbered
    /// registers, a stack of 512 cells and 128 instructions per tick.
    fn default() -> (r: Self)
        ensures
            r.wf(),
            r@ == Machine::fresh(6, 16, 512, 128),
    {
        ICState::new(6, 16, 512, 128)
    }
}

} // verus!
