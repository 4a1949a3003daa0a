use vstd::prelude::*;

verus! {

/// Why a resolver, an instruction or the driver refused to go on.
#[derive(Clone, Copy, Debug, PartialEq, Eq, Structural)]
pub enum Error {
    /// The token names no alias.
    NotAnAlias,
    /// The token names no register.
    NotARegister,
    /// The token names no device.
    NotADevice,
    /// The token is no register, no numeric literal and no definition.
    NotANumber,
    /// The token is no register, no numeric literal and no label.
    NotALineNumber,
    /// The mnemonic was given the wrong number of arguments.
    Arity,
    /// The mnemonic is not part of the instruction set.
    UnknownMnemonic,
    /// A register index lies outside the register file.
    RegisterRange,
    /// A device slot lies outside the device table.
    DeviceRange,
    /// The stack pointer lies outside the stack.
    StackRange,
    /// A parameter was read from or written to a slot that holds no device.
    DeviceUnset,
    /// The line holds no instruction.
    EmptyLine,
}

} // verus!
