//! Instruction sets: what a driver needs of one, and the set of the game.

use vstd::prelude::*;
use crate::error::Error;
use crate::execute::{execute, failed, perform, Step};
use crate::ic::ICState;
use crate::lexer::{words, Token};
use crate::model::{Machine, Word};
use crate::opcode::{decode, mnemonic, Opcode};
use crate::unit::Pending;

verus! {

/// A set of instructions that a driver can run. The tick counter and the
/// quantum are the driver's: no instruction touches them.
pub trait InstructionSet {
    /// What the set makes of a mnemonic, its arguments and a machine.
    spec fn outcome(&self, instr: Seq<char>, args: Seq<Word>, m: Machine) -> Step;

    /// Runs the instruction that `instr_token` names on `args`. The result
    /// is an error, `None` where the instruction is done, or what the float
    /// unit is to compute before the instruction is.
    fn try_run(&self, instr_token: &str, args: &[Token], ic: &mut ICState) -> (r: Result<
        Option<Pending>,
        Error,
    >)
        requires
            old(ic).wf(),
        ensures
            final(ic).wf(),
            (r, final(ic)@) == self.outcome(instr_token@, words(args@), old(ic)@),
            final(ic)@.instr_counter == old(ic)@.instr_counter,
            final(ic)@.instr_per_tick == old(ic)@.instr_per_tick,
    ;
}

/// The instruction set of Stationeers integrated circuits.
pub struct StationeersInstructionSet {}

/// No instruction of the set touches the tick counter or the quantum.
pub proof fn lemma_perform_keeps_tick(op: Opcode, args: Seq<Word>, m: Machine)
    ensures
        perform(op, args, m).1.instr_counter == m.instr_counter,
        perform(op, args, m).1.instr_per_tick == m.instr_per_tick,
{
}

impl StationeersInstructionSet {
    /// The instruction set.
    pub fn new() -> (r: Self) {
        StationeersInstructionSet {  }
    }
}

impl InstructionSet for StationeersInstructionSet {
    open spec fn outcome(&self, instr: Seq<char>, args: Seq<Word>, m: Machine) -> Step {
        match mnemonic(instr) {
            Some(op) => perform(op, args, m),
            None => failed(Error::UnknownMnemonic, m),
        }
    }

    fn try_run(&self, instr_token: &str, args: &[Token], ic: &mut ICState) -> (r: Result<
        Option<Pending>,
        Error,
    >) {
        match decode(instr_token) {
            Some(op) => {
                proof {
                    lemma_perform_keeps_tick(op, words(args@), ic@);
                }
                execute(op, args, ic)
            },
            None => Err(Error::UnknownMnemonic),
        }
    }
}

} // verus!
