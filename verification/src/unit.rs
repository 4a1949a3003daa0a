//! The float unit's side of the machine.
//!
//! The core decides, the float unit computes: where an instruction needs
//! arithmetic on numbers, the core hands out a `Request` together with a
//! `Completion`, the host has the float unit answer the request, and the
//! completion puts the answer where it belongs.

use vstd::prelude::*;
use crate::alias::Alias;
use crate::error::Error;
use crate::ic::ICState;
use crate::model::Machine;
use crate::value::Value;

verus! {

/// The functions of one number.
#[derive(Clone, Copy, Debug, PartialEq, Eq, Structural)]
pub enum UnaryOp {
    Abs,
    Acos,
    Asin,
    Atan,
    Ceil,
    Cos,
    Exp,
    Floor,
    /// The natural logarithm.
    Log,
    Round,
    Sin,
    Sqrt,
    Tan,
    Trunc,
}

/// The functions of two numbers.
#[derive(Clone, Copy, Debug, PartialEq, Eq, Structural)]
pub enum BinaryOp {
    Add,
    Sub,
    Mul,
    Div,
    /// The remainder, with the sign of the dividend.
    Mod,
    Max,
    Min,
}

/// What the float unit is asked.
#[derive(Clone, Copy, Debug, PartialEq, Eq)]
pub enum Request {
    /// The function of the number.
    Unary(UnaryOp, Value),
    /// The function of the two numbers, in this order.
    Binary(BinaryOp, Value, Value),
    /// A number drawn uniformly from `[0, 1)`.
    Random,
    /// Whether the two numbers are approximately equal, within the given
    /// tolerance or, without one, within the float unit's own. The answer is
    /// a number above `0.0` for yes.
    Approx(Value, Value, Option<Value>),
}

/// What becomes of the float unit's answer.
#[derive(Clone, Copy, Debug, PartialEq, Eq)]
pub enum Completion {
    /// The register takes the answer.
    Store(Alias),
    /// The register takes `1.0` where the answer says yes, `0.0` where it
    /// says no; the other way round with `negate`.
    Flag { dest: Alias, negate: bool },
    /// The register takes `hit` where the answer says yes, else `miss`.
    Choose { dest: Alias, hit: Value, miss: Value },
    /// The branch is taken where the answer says yes; where it says no with
    /// `negate`.
    Branch { target: usize, relative: bool, negate: bool },
    /// The answer is the stack pointer moved up; the value goes into the
    /// cell that it addresses.
    Push(Value),
    /// The answer is the stack pointer moved down; the register takes what
    /// the stack pointer addressed before.
    Pop(Alias),
}

/// An instruction that waits for the float unit.
#[derive(Clone, Copy, Debug, PartialEq, Eq)]
pub struct Pending {
    pub request: Request,
    pub completion: Completion,
}

impl Completion {
    /// Whether the completion succeeds on a machine and an answer, and the
    /// machine it leaves.
    pub open spec fn outcome(self, m: Machine, answer: Value) -> (Result<(), Error>, Machine) {
        match self {
            Completion::Store(dest) => (m.writable(dest), m.write(dest, answer)),
            Completion::Flag { dest, negate } => (
                m.writable(dest),
                m.write(dest, Value::of_bool(answer.truthy() != negate)),
            ),
            Completion::Choose { dest, hit, miss } => (
                m.writable(dest),
                m.write(
                    dest,
                    if answer.truthy() {
                        hit
                    } else {
                        miss
                    },
                ),
            ),
            Completion::Branch { target, relative, negate } => (
                Ok(()),
                m.branch(target, answer.truthy() != negate, relative, false),
            ),
            Completion::Push(v) => (m.pushable(answer), m.push(answer, v)),
            Completion::Pop(dest) => match m.peek() {
                Ok(v) => (m.pop(answer).writable(dest), m.pop(answer).write(dest, v)),
                Err(e) => (Err(e), m),
            },
        }
    }

    /// Finishes a pending instruction with the float unit's answer.
    pub fn apply(self, ic: &mut ICState, answer: Value) -> (r: Result<(), Error>)
        requires
            old(ic).wf(),
        ensures
            final(ic).wf(),
            (r, final(ic)@) == self.outcome(old(ic)@, answer),
    {
        match self {
            Completion::Store(dest) => ic.set_register(dest, answer),
            Completion::Flag { dest, negate } => ic.set_register(
                dest,
                Value::flag(answer.is_true() != negate),
            ),
            Completion::Choose { dest, hit, miss } => {
                let chosen = if answer.is_true() {
                    hit
                } else {
                    miss
                };
                ic.set_register(dest, chosen)
            },
            Completion::Branch { target, relative, negate } => {
                ic.branch_helper(target, answer.is_true() != negate, relative, false);
                Ok(())
            },
            Completion::Push(v) => ic.try_push(answer, v),
            Completion::Pop(dest) => {
                match ic.try_pop(answer) {
                    Ok(v) => ic.set_register(dest, v),
                    Err(e) => Err(e),
                }
            },
        }
    }
}

} // verus!
