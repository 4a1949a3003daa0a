use vstd::prelude::*;
use crate::error::Error;

verus! {

/// A handle on a device slot or on a register. The flag tells a factory name
/// (`d0`, `r3`, `ra`, `sp`) from a name that a program defined.
#[derive(Clone, Copy, Debug, PartialEq, Eq, Structural)]
pub enum Alias {
    Device(usize, bool),
    Register(usize, bool),
}

impl Alias {
    /// The slot the handle points at, whatever its kind.
    pub open spec fn slot(self) -> usize {
        match self {
            Alias::Device(i, _) => i,
            Alias::Register(i, _) => i,
        }
    }

    /// The same handle, marked as defined by a program.
    pub open spec fn user(self) -> Alias {
        match self {
            Alias::Device(i, _) => Alias::Device(i, false),
            Alias::Register(i, _) => Alias::Register(i, false),
        }
    }

    /// The device slot of a device handle.
    pub fn device_index(&self) -> (r: Result<usize, Error>)
        ensures
            r == (match *self {
                Alias::Device(i, _) => Ok::<usize, Error>(i),
                Alias::Register(_, _) => Err(Error::NotADevice),
            }),
    {
        match self {
            Alias::Device(i, _) => Ok(*i),
            _ => Err(Error::NotADevice),
        }
    }

    /// The register index of a register handle.
    pub fn register_index(&self) -> (r: Result<usize, Error>)
        ensures
            r == (match *self {
                Alias::Register(i, _) => Ok::<usize, Error>(i),
                Alias::Device(_, _) => Err(Error::NotARegister),
            }),
    {
        match self {
            Alias::Register(i, _) => Ok(*i),
            _ => Err(Error::NotARegister),
        }
    }
}

} // verus!
