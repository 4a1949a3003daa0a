//! The driver: the label pass over a program, and the tick that runs a
//! machine through it.

use vstd::prelude::*;
use vstd::slice::slice_subrange;
use crate::error::Error;
use crate::execute::{failed, finished, Step};
use crate::ic::ICState;
use crate::instruction::InstructionSet;
use crate::lexer::{label, label_of, words, Token};
use crate::model::{Machine, Word};
use crate::unit::Pending;

verus! {

/// A program as the model sees it: its lines, each a sequence of tokens.
pub open spec fn program(lines: Seq<Vec<Token>>) -> Seq<Seq<Word>> {
    Seq::new(lines.len(), |i: int| words(lines[i]@))
}

/// The label that a line declares, if it declares one.
pub open spec fn line_label(line: Seq<Word>) -> Option<Seq<char>> {
    if line.len() > 0 {
        label(line[0].text)
    } else {
        None
    }
}

/// The machine after the labels of the first `n` lines were bound, each to
/// the index of its line. Where a label is declared twice, the later line
/// has it.
pub open spec fn labelled(m: Machine, lines: Seq<Seq<Word>>, n: nat) -> Machine
    decreases n,
{
    if n == 0 {
        m
    } else {
        let before = labelled(m, lines, (n - 1) as nat);
        match line_label(lines[n - 1]) {
            Some(name) => before.with_label(name, (n - 1) as usize),
            None => before,
        }
    }
}

/// What one line makes of a machine whose program counter has moved on
/// already. A line without a token, or whose only token is empty, is an
/// error; a line that declares a label does nothing; of any other line the
/// first token is the mnemonic and the rest are its arguments.
pub open spec fn line_outcome<I: InstructionSet>(set: &I, line: Seq<Word>, m: Machine) -> Step {
    if line.len() == 0 || (line.len() == 1 && line[0].text.len() == 0) {
        failed(Error::EmptyLine, m)
    } else if label(line[0].text) is Some {
        finished(m)
    } else {
        set.outcome(line[0].text, line.skip(1), m)
    }
}

/// Whether a machine runs on: it has not halted, the quantum is not used
/// up, and the program counter is inside the program.
pub open spec fn running(m: Machine, len: nat) -> bool {
    !m.halt && m.instr_counter < m.instr_per_tick && m.next_line < len
}

/// What a tick makes of a machine: line after line is fetched, the program
/// counter is moved behind it, the line is run and counted, until the
/// machine no longer runs on, a line fails, or an instruction waits for the
/// float unit. A line that fails is not counted; one that waits is.
pub open spec fn tick<I: InstructionSet>(set: &I, lines: Seq<Seq<Word>>, m: Machine) -> Step
    decreases m.instr_per_tick - m.instr_counter,
{
    if !running(m, lines.len()) {
        finished(m)
    } else {
        let fetched = m.at_line((m.next_line + 1) as usize);
        let (r, after) = line_outcome(set, lines[m.next_line as int], fetched);
        match r {
            Err(e) => failed(e, after),
            Ok(pending) => {
                let counted = Machine {
                    instr_counter: (m.instr_counter + 1) as usize,
                    instr_per_tick: m.instr_per_tick,
                    ..after
                };
                if pending is Some {
                    (Ok(pending), counted)
                } else {
                    tick(set, lines, counted)
                }
            },
        }
    }
}

/// Binds every label that the program declares to the index of its line.
pub fn index_labels(ic: &mut ICState, lines: &Vec<Vec<Token>>)
    requires
        old(ic).wf(),
    ensures
        final(ic).wf(),
        final(ic)@ == labelled(old(ic)@, program(lines@), lines@.len()),
{
    let ghost start = ic@;
    let mut i: usize = 0;
    while i < lines.len()
        invariant
            i <= lines@.len(),
            ic.wf(),
            ic@ == labelled(start, program(lines@), i as nat),
        decreases lines@.len() - i,
    {
        let line = &lines[i];
        if line.len() > 0 {
            match label_of(line[0].text.as_str()) {
                Some(name) => {
                    ic.add_label(name.as_str(), i);
                },
                None => {},
            }
        }
        i = i + 1;
    }
}

/// Runs one line on a machine whose program counter has moved on already.
pub fn try_run_line<I: InstructionSet>(ic: &mut ICState, line: &Vec<Token>, instructions: &I) -> (r:
    Result<Option<Pending>, Error>)
    requires
        old(ic).wf(),
    ensures
        final(ic).wf(),
        (r, final(ic)@) == line_outcome(instructions, words(line@), old(ic)@),
        final(ic)@.instr_counter == old(ic)@.instr_counter,
        final(ic)@.instr_per_tick == old(ic)@.instr_per_tick,
{
    if line.len() == 0 || (line.len() == 1 && line[0].text.as_str().unicode_len() == 0) {
        return Err(Error::EmptyLine);
    }
    if label_of(line[0].text.as_str()).is_some() {
        return Ok(None);
    }
    let args = slice_subrange(line.as_slice(), 1, line.len());
    assert(words(args@) =~= words(line@).skip(1));
    instructions.try_run(line[0].text.as_str(), args, ic)
}

/// Runs a tick: instructions are run from the program counter on until the
/// machine halts, the quantum is used up, the program ends, a line fails, or
/// an instruction waits for the float unit. In the last case the host has
/// the float unit answer the request, applies the completion, and calls
/// again to go on with the same tick.
pub fn try_run<I: InstructionSet>(ic: &mut ICState, lines: &Vec<Vec<Token>>, instruction: &I) -> (r:
    Result<Option<Pending>, Error>)
    requires
        old(ic).wf(),
    ensures
        final(ic).wf(),
        (r, final(ic)@) == tick(instruction, program(lines@), old(ic)@),
{
    let ghost start = ic@;
    loop
        invariant
            ic.wf(),
            start == old(ic)@,
            tick(instruction, program(lines@), ic@) == tick(instruction, program(lines@), start),
        decreases ic@.instr_per_tick - ic@.instr_counter,
    {
        if ic.halt() || ic.instr_counter() >= ic.instr_per_tick() || ic.next_line() >= lines.len() {
            return Ok(None);
        }
        let i: usize = ic.next_line();
        let count: usize = ic.instr_counter();
        ic.set_next_line(i + 1);
        match try_run_line(ic, &lines[i], instruction) {
            Err(e) => {
                return Err(e);
            },
            Ok(pending) => {
                ic.set_instr_counter(count + 1);
                if pending.is_some() {
                    return Ok(pending);
                }
            },
        }
    }
}

} // verus!
