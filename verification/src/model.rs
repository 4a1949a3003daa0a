//! The mathematical model of the machine: what a state is, what a token
//! resolves to, and what each primitive step makes of a state. The contracts
//! of the executable code are stated over this model.

use vstd::prelude::*;
use crate::alias::Alias;
use crate::error::Error;
use crate::text::numeral;
use crate::value::Value;

verus! {

/// A token as the resolvers see it: its text, and the number that the host's
/// float parser reads in it, if it reads one.
pub struct Word {
    pub text: Seq<char>,
    pub number: Option<Value>,
}

/// A device: a type name and a bag of named parameters.
pub struct DeviceModel {
    pub name: Seq<char>,
    pub parameters: Map<Seq<char>, Value>,
}

impl DeviceModel {
    /// A parameter's value; one that was never stored reads as `0.0`.
    pub open spec fn param(self, p: Seq<char>) -> Value {
        if self.parameters.contains_key(p) {
            self.parameters[p]
        } else {
            Value { bits: 0 }
        }
    }

    /// The device after a store to one parameter.
    pub open spec fn with_param(self, p: Seq<char>, v: Value) -> DeviceModel {
        DeviceModel { name: self.name, parameters: self.parameters.insert(p, v) }
    }
}

/// The state of an integrated circuit.
pub struct Machine {
    /// The device slots; `None` is a slot that holds no device.
    pub devices: Seq<Option<DeviceModel>>,
    /// The register file; its last two cells are `ra` and `sp`.
    pub registers: Seq<Value>,
    pub aliases: Map<Seq<char>, Alias>,
    pub definitions: Map<Seq<char>, Value>,
    pub labels: Map<Seq<char>, usize>,
    pub stack: Seq<Value>,
    pub instr_per_tick: usize,
    pub instr_counter: usize,
    pub next_line: usize,
    pub halt: bool,
}

/// `x` cut to the range of an index.
pub open spec fn clip(x: int) -> usize {
    if x < 0 {
        0
    } else if x > usize::MAX {
        usize::MAX
    } else {
        x as usize
    }
}

/// The factory name of device slot `i`.
pub open spec fn device_name(i: nat) -> Seq<char> {
    "d"@ + numeral(i)
}

/// The factory name of register `i`.
pub open spec fn register_name(i: nat) -> Seq<char> {
    "r"@ + numeral(i)
}

/// The factory names of the first `n` device slots.
pub open spec fn device_names(n: nat) -> Map<Seq<char>, Alias>
    decreases n,
{
    if n == 0 {
        Map::empty()
    } else {
        device_names((n - 1) as nat).insert(
            device_name((n - 1) as nat),
            Alias::Device((n - 1) as usize, true),
        )
    }
}

/// `base` and the factory names of the first `n` registers.
pub open spec fn register_names(base: Map<Seq<char>, Alias>, n: nat) -> Map<Seq<char>, Alias>
    decreases n,
{
    if n == 0 {
        base
    } else {
        register_names(base, (n - 1) as nat).insert(
            register_name((n - 1) as nat),
            Alias::Register((n - 1) as usize, true),
        )
    }
}

/// The alias table of a new machine: `d0..`, `r0..`, then `ra` and `sp` on
/// the two cells behind the numbered registers.
pub open spec fn factory_names(ndevices: nat, nregisters: nat) -> Map<Seq<char>, Alias> {
    register_names(device_names(ndevices), nregisters).insert(
        "ra"@,
        Alias::Register(nregisters as usize, true),
    ).insert("sp"@, Alias::Register((nregisters + 1) as usize, true))
}

/// The entries list a map: each entry is a binding of the map, each binding
/// of the map has its entry, and no name is listed twice.
pub open spec fn lists<V>(entries: Seq<(String, V)>, map: Map<Seq<char>, V>) -> bool {
    &&& forall|i: int|
        0 <= i < entries.len() ==> map.contains_key((#[trigger] entries[i]).0@) && map[entries[i].0@]
            == entries[i].1
    &&& forall|name: Seq<char>| #[trigger]
        map.contains_key(name) ==> exists|i: int|
            0 <= i < entries.len() && (#[trigger] entries[i]).0@ == name
    &&& forall|i: int, j: int|
        0 <= i < j < entries.len() ==> (#[trigger] entries[i]).0@ != (#[trigger] entries[j]).0@
}

impl Machine {
    /// The aliases that a program defined.
    pub open spec fn programmed(self) -> Map<Seq<char>, Alias> {
        Map::new(
            |name: Seq<char>|
                self.aliases.contains_key(name) && self.aliases[name].user() == self.aliases[name],
            |name: Seq<char>| self.aliases[name],
        )
    }

    /// Whether an alias points into the tables of this machine.
    pub open spec fn holds(self, a: Alias) -> bool {
        match a {
            Alias::Device(i, _) => i < self.devices.len(),
            Alias::Register(i, _) => i < self.registers.len(),
        }
    }

    /// `ra` and `sp` exist, and every alias in the table points at a slot
    /// that exists.
    pub open spec fn wf(self) -> bool {
        &&& self.registers.len() >= 2
        &&& forall|name: Seq<char>|
            (#[trigger] self.aliases.contains_key(name)) ==> self.holds(self.aliases[name])
    }

    /// A machine as it leaves the factory.
    pub open spec fn fresh(
        ndevices: nat,
        nregisters: nat,
        stack_size: nat,
        instr_per_tick: usize,
    ) -> Machine {
        Machine {
            devices: Seq::new(ndevices, |i: int| None::<DeviceModel>),
            registers: Seq::new(nregisters + 2, |i: int| Value { bits: 0 }),
            aliases: factory_names(ndevices, nregisters),
            definitions: Map::empty(),
            labels: Map::empty(),
            stack: Seq::new(stack_size, |i: int| Value { bits: 0 }),
            instr_per_tick,
            instr_counter: 0,
            next_line: 0,
            halt: false,
        }
    }

    /// The index of the return-address register.
    pub open spec fn ra_index(self) -> int {
        self.registers.len() - 2
    }

    /// The index of the stack-pointer register.
    pub open spec fn sp_index(self) -> int {
        self.registers.len() - 1
    }

    /// The return address.
    pub open spec fn ra(self) -> Value {
        self.registers[self.ra_index()]
    }

    /// The stack pointer.
    pub open spec fn sp(self) -> Value {
        self.registers[self.sp_index()]
    }

    /// The machine with other registers.
    pub open spec fn with_registers(self, registers: Seq<Value>) -> Machine {
        Machine { registers, ..self }
    }

    /// The machine with another program counter.
    pub open spec fn at_line(self, next_line: usize) -> Machine {
        Machine { next_line, ..self }
    }

    /// The halted machine.
    pub open spec fn halted(self) -> Machine {
        Machine { halt: true, ..self }
    }

    /// What a token names in the alias table.
    pub open spec fn alias(self, name: Seq<char>) -> Result<Alias, Error> {
        if self.aliases.contains_key(name) {
            Ok(self.aliases[name])
        } else {
            Err(Error::NotAnAlias)
        }
    }

    /// The register that a token names.
    pub open spec fn register(self, name: Seq<char>) -> Result<Alias, Error> {
        if self.aliases.contains_key(name) && self.aliases[name] is Register {
            Ok(self.aliases[name])
        } else {
            Err(Error::NotARegister)
        }
    }

    /// The device that a token names.
    pub open spec fn device(self, name: Seq<char>) -> Result<Alias, Error> {
        if self.aliases.contains_key(name) && self.aliases[name] is Device {
            Ok(self.aliases[name])
        } else {
            Err(Error::NotADevice)
        }
    }

    /// The number that a token stands for: a register's value, else the
    /// number that the token writes, else a definition.
    pub open spec fn number(self, w: Word) -> Result<Value, Error> {
        if self.register(w.text) is Ok {
            Ok(self.registers[self.aliases[w.text].slot() as int])
        } else if w.number is Some {
            Ok(w.number->0)
        } else if self.definitions.contains_key(w.text) {
            Ok(self.definitions[w.text])
        } else {
            Err(Error::NotANumber)
        }
    }

    /// The line that a token stands for: the whole part of a register's value
    /// or of the number that the token writes, else a label.
    pub open spec fn line(self, w: Word) -> Result<usize, Error> {
        if self.register(w.text) is Ok {
            Ok(self.registers[self.aliases[w.text].slot() as int].index())
        } else if w.number is Some {
            Ok(w.number->0.index())
        } else if self.labels.contains_key(w.text) {
            Ok(self.labels[w.text])
        } else {
            Err(Error::NotALineNumber)
        }
    }

    /// Reading a register through an alias.
    pub open spec fn read(self, r: Alias) -> Result<Value, Error> {
        match r {
            Alias::Device(_, _) => Err(Error::NotARegister),
            Alias::Register(i, _) => if i < self.registers.len() {
                Ok(self.registers[i as int])
            } else {
                Err(Error::RegisterRange)
            },
        }
    }

    /// Whether a register can be written through an alias.
    pub open spec fn writable(self, r: Alias) -> Result<(), Error> {
        match r {
            Alias::Device(_, _) => Err(Error::NotARegister),
            Alias::Register(i, _) => if i < self.registers.len() {
                Ok(())
            } else {
                Err(Error::RegisterRange)
            },
        }
    }

    /// The machine after a write to a register; unchanged where the write is
    /// refused.
    pub open spec fn write(self, r: Alias, v: Value) -> Machine {
        if self.writable(r) is Ok {
            self.with_registers(self.registers.update(r.slot() as int, v))
        } else {
            self
        }
    }

    /// The machine after a branch instruction: with `link`, `ra` takes the
    /// line behind the branch; where the branch is `taken`, the program
    /// counter takes the target, or moves by `target - 1` from the line
    /// behind the branch if the branch is `relative`.
    pub open spec fn branch(self, target: usize, taken: bool, relative: bool, link: bool) -> Machine {
        let linked = if link {
            self.registers.update(self.ra_index(), Value::nearest(self.next_line as nat))
        } else {
            self.registers
        };
        let next = if !taken {
            self.next_line
        } else if relative {
            clip(self.next_line + target - 1)
        } else {
            target
        };
        Machine { registers: linked, next_line: next, ..self }
    }

    /// The machine after `alias name target`.
    pub open spec fn with_alias(self, name: Seq<char>, a: Alias) -> Machine {
        Machine { aliases: self.aliases.insert(name, a.user()), ..self }
    }

    /// The machine after `define name value`.
    pub open spec fn with_definition(self, name: Seq<char>, v: Value) -> Machine {
        Machine { definitions: self.definitions.insert(name, v), ..self }
    }

    /// The machine after a label was bound to a line.
    pub open spec fn with_label(self, name: Seq<char>, line: usize) -> Machine {
        Machine { labels: self.labels.insert(name, line), ..self }
    }

    /// The device slot behind an alias.
    pub open spec fn slot(self, d: Alias) -> Result<Option<DeviceModel>, Error> {
        match d {
            Alias::Register(_, _) => Err(Error::NotADevice),
            Alias::Device(i, _) => if i < self.devices.len() {
                Ok(self.devices[i as int])
            } else {
                Err(Error::DeviceRange)
            },
        }
    }

    /// Whether the slot behind an alias holds a device.
    pub open spec fn device_set(self, d: Alias) -> Result<bool, Error> {
        match self.slot(d) {
            Ok(s) => Ok(s is Some),
            Err(e) => Err(e),
        }
    }

    /// The machine with a device put into a slot.
    pub open spec fn with_device(self, d: Alias, device: DeviceModel) -> Machine {
        if self.slot(d) is Ok {
            Machine { devices: self.devices.update(d.slot() as int, Some(device)), ..self }
        } else {
            self
        }
    }

    /// Reading a parameter of the device behind an alias.
    pub open spec fn load(self, d: Alias, p: Seq<char>) -> Result<Value, Error> {
        match self.slot(d) {
            Ok(Some(device)) => Ok(device.param(p)),
            Ok(None) => Err(Error::DeviceUnset),
            Err(e) => Err(e),
        }
    }

    /// Whether a parameter of the device behind an alias can be stored.
    pub open spec fn storable(self, d: Alias) -> Result<(), Error> {
        match self.slot(d) {
            Ok(Some(_)) => Ok(()),
            Ok(None) => Err(Error::DeviceUnset),
            Err(e) => Err(e),
        }
    }

    /// The machine after a store to a parameter; unchanged where the store is
    /// refused.
    pub open spec fn store(self, d: Alias, p: Seq<char>, v: Value) -> Machine {
        match self.slot(d) {
            Ok(Some(device)) => Machine {
                devices: self.devices.update(d.slot() as int, Some(device.with_param(p, v))),
                ..self
            },
            _ => self,
        }
    }

    /// The stack cell that a pointer addresses: the whole part of a pointer
    /// with `0.0 <= pointer < capacity`.
    pub open spec fn cell(self, pointer: Value) -> Option<int> {
        if (Value { bits: 0 }).at_most(pointer) && pointer.index() < self.stack.len() {
            Some(pointer.index() as int)
        } else {
            None
        }
    }

    /// The value on top of the stack.
    pub open spec fn peek(self) -> Result<Value, Error> {
        match self.cell(self.sp()) {
            Some(i) => Ok(self.stack[i]),
            None => Err(Error::StackRange),
        }
    }

    /// The machine after a pop that moves the stack pointer to `moved`;
    /// unchanged where the pop is refused.
    pub open spec fn pop(self, moved: Value) -> Machine {
        if self.peek() is Ok {
            self.with_registers(self.registers.update(self.sp_index(), moved))
        } else {
            self
        }
    }

    /// Whether a push that moves the stack pointer to `moved` is possible:
    /// the pointer addresses a cell before the move and after it.
    pub open spec fn pushable(self, moved: Value) -> Result<(), Error> {
        if self.cell(self.sp()) is Some && self.cell(moved) is Some {
            Ok(())
        } else {
            Err(Error::StackRange)
        }
    }

    /// The machine after a push of `v` that moves the stack pointer to
    /// `moved`; unchanged where the push is refused.
    pub open spec fn push(self, moved: Value, v: Value) -> Machine {
        if self.pushable(moved) is Ok {
            Machine {
                registers: self.registers.update(self.sp_index(), moved),
                stack: self.stack.update(self.cell(moved)->0, v),
                ..self
            }
        } else {
            self
        }
    }
}

} // verus!
