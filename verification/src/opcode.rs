//! The instruction table: what each mnemonic stands for and how many
//! arguments it takes.

use vstd::prelude::*;
use crate::text::same_text;
use crate::unit::{BinaryOp, UnaryOp};

verus! {

/// The relations between two numbers that a branch or a selection can test.
#[derive(Clone, Copy, Debug, PartialEq, Eq, Structural)]
pub enum Relation {
    /// Approximately equal, within a tolerance that the instruction gives.
    Ap,
    /// Approximately equal, within the float unit's own tolerance.
    Eq,
    Ge,
    Gt,
    Le,
    Lt,
    /// Not approximately equal, within a tolerance that the instruction
    /// gives.
    Na,
    /// Not approximately equal, within the float unit's own tolerance.
    Ne,
}

/// What a branch or a selection tests.
#[derive(Clone, Copy, Debug, PartialEq, Eq, Structural)]
pub enum Test {
    /// The relation between two numbers.
    Numbers(Relation),
    /// The relation between a number and `0.0`.
    Zero(Relation),
    /// Whether a device slot holds a device.
    DeviceSet,
    /// Whether a device slot holds none.
    DeviceUnset,
}

/// The functions of two truth values; a number is true when it is above
/// `0.0`.
#[derive(Clone, Copy, Debug, PartialEq, Eq, Structural)]
pub enum LogicOp {
    And,
    Nor,
    Or,
    Xor,
}

/// The instructions, by what they do. Behind each stand its arguments:
/// `r` a register, `d` a device, `a` any alias, `n` a number, `l` a line,
/// `t` a bare name.
#[derive(Clone, Copy, Debug, PartialEq, Eq, Structural)]
pub enum Opcode {
    /// `l`: go to a line, or move by an offset; with `link`, leave the line
    /// to come back to in `ra`.
    Jump { relative: bool, link: bool },
    /// The operands of the test, then `l`: jump where the test holds.
    Branch { test: Test, relative: bool, link: bool },
    /// `r`, then the operands of the test: `1.0` where the test holds,
    /// else `0.0`.
    Flag(Test),
    /// `r n n n`: the second number where the first is approximately `0.0`,
    /// else the third.
    Select,
    /// `r n`.
    Unary(UnaryOp),
    /// `r n n`.
    Binary(BinaryOp),
    /// `r`.
    Random,
    /// `r n n`.
    Logic(LogicOp),
    /// `r`.
    Peek,
    /// `r`.
    Pop,
    /// `n`.
    Push,
    /// `t a`.
    Alias,
    /// `t n`.
    Define,
    /// `r n`.
    Move,
    /// No argument: `yield` and `hcf`.
    Halt,
    /// `n`: halts like `yield`, whatever the number.
    Sleep,
    /// `r d t`: a device's parameter into a register.
    Load,
    /// `d t n`: a number into a device's parameter.
    Store,
    /// `r n t n`: checks its arguments and changes nothing.
    LoadBatch,
    /// `n t n`: checks its arguments and changes nothing.
    StoreBatch,
    /// `r d n t`: checks its arguments and changes nothing.
    LoadReagent,
    /// `r d n t`: checks its arguments and changes nothing.
    LoadSlot,
}

impl Relation {
    /// The relation is decided by the float unit.
    pub open spec fn approximate(self) -> bool {
        self is Ap || self is Eq || self is Na || self is Ne
    }

    /// The relation takes a tolerance behind its numbers.
    pub open spec fn tolerant(self) -> bool {
        self is Ap || self is Na
    }

    /// The relation holds where approximate equality does not.
    pub open spec fn negated(self) -> bool {
        self is Na || self is Ne
    }

    /// Whether the float unit decides the relation.
    pub fn is_approximate(self) -> (r: bool)
        ensures
            r == self.approximate(),
    {
        match self {
            Relation::Ap | Relation::Eq | Relation::Na | Relation::Ne => true,
            _ => false,
        }
    }

    /// Whether the relation takes a tolerance.
    pub fn is_tolerant(self) -> (r: bool)
        ensures
            r == self.tolerant(),
    {
        match self {
            Relation::Ap | Relation::Na => true,
            _ => false,
        }
    }

    /// Whether the relation holds where approximate equality does not.
    pub fn is_negated(self) -> (r: bool)
        ensures
            r == self.negated(),
    {
        match self {
            Relation::Na | Relation::Ne => true,
            _ => false,
        }
    }
}

impl Test {
    /// How many operands the test takes.
    pub open spec fn operands(self) -> nat {
        match self {
            Test::Numbers(relation) => if relation.tolerant() {
                3
            } else {
                2
            },
            Test::Zero(relation) => if relation.tolerant() {
                2
            } else {
                1
            },
            Test::DeviceSet => 1,
            Test::DeviceUnset => 1,
        }
    }

    /// How many operands the test takes.
    pub fn operand_count(self) -> (r: usize)
        ensures
            r == self.operands(),
    {
        match self {
            Test::Numbers(relation) => if relation.is_tolerant() {
                3
            } else {
                2
            },
            Test::Zero(relation) => if relation.is_tolerant() {
                2
            } else {
                1
            },
            Test::DeviceSet => 1,
            Test::DeviceUnset => 1,
        }
    }
}

impl Opcode {
    /// How many arguments the instruction takes.
    pub open spec fn arity(self) -> nat {
        match self {
            Opcode::Jump { .. } => 1,
            Opcode::Branch { test, .. } => test.operands() + 1,
            Opcode::Flag(test) => 1 + test.operands(),
            Opcode::Select => 4,
            Opcode::Unary(_) => 2,
            Opcode::Binary(_) => 3,
            Opcode::Random => 1,
            Opcode::Logic(_) => 3,
            Opcode::Peek => 1,
            Opcode::Pop => 1,
            Opcode::Push => 1,
            Opcode::Alias => 2,
            Opcode::Define => 2,
            Opcode::Move => 2,
            Opcode::Halt => 0,
            Opcode::Sleep => 1,
            Opcode::Load => 3,
            Opcode::Store => 3,
            Opcode::LoadBatch => 4,
            Opcode::StoreBatch => 3,
            Opcode::LoadReagent => 4,
            Opcode::LoadSlot => 4,
        }
    }

    /// How many arguments the instruction takes.
    pub fn argument_count(self) -> (r: usize)
        ensures
            r == self.arity(),
    {
        match self {
            Opcode::Jump { .. } => 1,
            Opcode::Branch { test, .. } => test.operand_count() + 1,
            Opcode::Flag(test) => 1 + test.operand_count(),
            Opcode::Select => 4,
            Opcode::Unary(_) => 2,
            Opcode::Binary(_) => 3,
            Opcode::Random => 1,
            Opcode::Logic(_) => 3,
            Opcode::Peek => 1,
            Opcode::Pop => 1,
            Opcode::Push => 1,
            Opcode::Alias => 2,
            Opcode::Define => 2,
            Opcode::Move => 2,
            Opcode::Halt => 0,
            Opcode::Sleep => 1,
            Opcode::Load => 3,
            Opcode::Store => 3,
            Opcode::LoadBatch => 4,
            Opcode::StoreBatch => 3,
            Opcode::LoadReagent => 4,
            Opcode::LoadSlot => 4,
        }
    }
}

/// The jumps and branches: `b` for a branch to a line, `br` for one by an offset, `al` behind one that links, `z` behind a relation that compares with `0.0`.
pub open spec fn flow_mnemonic(s: Seq<char>) -> Option<Opcode> {
    if s == "j"@ {
        Some(Opcode::Jump { relative: false, link: false })
    } else if s == "jal"@ {
        Some(Opcode::Jump { relative: false, link: true })
    } else if s == "jr"@ {
        Some(Opcode::Jump { relative: true, link: false })
    } else if s == "bdns"@ {
        Some(Opcode::Branch { test: Test::DeviceUnset, relative: false, link: false })
    } else if s == "bdnsal"@ {
        Some(Opcode::Branch { test: Test::DeviceUnset, relative: false, link: true })
    } else if s == "brdns"@ {
        Some(Opcode::Branch { test: Test::DeviceUnset, relative: true, link: false })
    } else if s == "bdse"@ {
        Some(Opcode::Branch { test: Test::DeviceSet, relative: false, link: false })
    } else if s == "bdseal"@ {
        Some(Opcode::Branch { test: Test::DeviceSet, relative: false, link: true })
    } else if s == "brdse"@ {
        Some(Opcode::Branch { test: Test::DeviceSet, relative: true, link: false })
    } else if s == "bap"@ {
        Some(Opcode::Branch { test: Test::Numbers(Relation::Ap), relative: false, link: false })
    } else if s == "bapal"@ {
        Some(Opcode::Branch { test: Test::Numbers(Relation::Ap), relative: false, link: true })
    } else if s == "brap"@ {
        Some(Opcode::Branch { test: Test::Numbers(Relation::Ap), relative: true, link: false })
    } else if s == "bapz"@ {
        Some(Opcode::Branch { test: Test::Zero(Relation::Ap), relative: false, link: false })
    } else if s == "bapzal"@ {
        Some(Opcode::Branch { test: Test::Zero(Relation::Ap), relative: false, link: true })
    } else if s == "brapz"@ {
        Some(Opcode::Branch { test: Test::Zero(Relation::Ap), relative: true, link: false })
    } else if s == "beq"@ {
        Some(Opcode::Branch { test: Test::Numbers(Relation::Eq), relative: false, link: false })
    } else if s == "beqal"@ {
        Some(Opcode::Branch { test: Test::Numbers(Relation::Eq), relative: false, link: true })
    } else if s == "breq"@ {
        Some(Opcode::Branch { test: Test::Numbers(Relation::Eq), relative: true, link: false })
    } else if s == "beqz"@ {
        Some(Opcode::Branch { test: Test::Zero(Relation::Eq), relative: false, link: false })
    } else if s == "beqzal"@ {
        Some(Opcode::Branch { test: Test::Zero(Relation::Eq), relative: false, link: true })
    } else if s == "breqz"@ {
        Some(Opcode::Branch { test: Test::Zero(Relation::Eq), relative: true, link: false })
    } else if s == "bge"@ {
        Some(Opcode::Branch { test: Test::Numbers(Relation::Ge), relative: false, link: false })
    } else if s == "bgeal"@ {
        Some(Opcode::Branch { test: Test::Numbers(Relation::Ge), relative: false, link: true })
    } else if s == "brge"@ {
        Some(Opcode::Branch { test: Test::Numbers(Relation::Ge), relative: true, link: false })
    } else if s == "bgez"@ {
        Some(Opcode::Branch { test: Test::Zero(Relation::Ge), relative: false, link: false })
    } else if s == "bgezal"@ {
        Some(Opcode::Branch { test: Test::Zero(Relation::Ge), relative: false, link: true })
    } else if s == "brgez"@ {
        Some(Opcode::Branch { test: Test::Zero(Relation::Ge), relative: true, link: false })
    } else if s == "bgt"@ {
        Some(Opcode::Branch { test: Test::Numbers(Relation::Gt), relative: false, link: false })
    } else if s == "bgtal"@ {
        Some(Opcode::Branch { test: Test::Numbers(Relation::Gt), relative: false, link: true })
    } else if s == "brgt"@ {
        Some(Opcode::Branch { test: Test::Numbers(Relation::Gt), relative: true, link: false })
    } else if s == "bgtz"@ {
        Some(Opcode::Branch { test: Test::Zero(Relation::Gt), relative: false, link: false })
    } else if s == "bgtzal"@ {
        Some(Opcode::Branch { test: Test::Zero(Relation::Gt), relative: false, link: true })
    } else if s == "brgtz"@ {
        Some(Opcode::Branch { test: Test::Zero(Relation::Gt), relative: true, link: false })
    } else if s == "ble"@ {
        Some(Opcode::Branch { test: Test::Numbers(Relation::Le), relative: false, link: false })
    } else if s == "bleal"@ {
        Some(Opcode::Branch { test: Test::Numbers(Relation::Le), relative: false, link: true })
    } else if s == "brle"@ {
        Some(Opcode::Branch { test: Test::Numbers(Relation::Le), relative: true, link: false })
    } else if s == "blez"@ {
        Some(Opcode::Branch { test: Test::Zero(Relation::Le), relative: false, link: false })
    } else if s == "blezal"@ {
        Some(Opcode::Branch { test: Test::Zero(Relation::Le), relative: false, link: true })
    } else if s == "brlez"@ {
        Some(Opcode::Branch { test: Test::Zero(Relation::Le), relative: true, link: false })
    } else if s == "blt"@ {
        Some(Opcode::Branch { test: Test::Numbers(Relation::Lt), relative: false, link: false })
    } else if s == "bltal"@ {
        Some(Opcode::Branch { test: Test::Numbers(Relation::Lt), relative: false, link: true })
    } else if s == "brlt"@ {
        Some(Opcode::Branch { test: Test::Numbers(Relation::Lt), relative: true, link: false })
    } else if s == "bltz"@ {
        Some(Opcode::Branch { test: Test::Zero(Relation::Lt), relative: false, link: false })
    } else if s == "bltzal"@ {
        Some(Opcode::Branch { test: Test::Zero(Relation::Lt), relative: false, link: true })
    } else if s == "brltz"@ {
        Some(Opcode::Branch { test: Test::Zero(Relation::Lt), relative: true, link: false })
    } else if s == "bna"@ {
        Some(Opcode::Branch { test: Test::Numbers(Relation::Na), relative: false, link: false })
    } else if s == "bnaal"@ {
        Some(Opcode::Branch { test: Test::Numbers(Relation::Na), relative: false, link: true })
    } else if s == "brna"@ {
        Some(Opcode::Branch { test: Test::Numbers(Relation::Na), relative: true, link: false })
    } else if s == "bnaz"@ {
        Some(Opcode::Branch { test: Test::Zero(Relation::Na), relative: false, link: false })
    } else if s == "bnazal"@ {
        Some(Opcode::Branch { test: Test::Zero(Relation::Na), relative: false, link: true })
    } else if s == "brnaz"@ {
        Some(Opcode::Branch { test: Test::Zero(Relation::Na), relative: true, link: false })
    } else if s == "bne"@ {
        Some(Opcode::Branch { test: Test::Numbers(Relation::Ne), relative: false, link: false })
    } else if s == "bneal"@ {
        Some(Opcode::Branch { test: Test::Numbers(Relation::Ne), relative: false, link: true })
    } else if s == "brne"@ {
        Some(Opcode::Branch { test: Test::Numbers(Relation::Ne), relative: true, link: false })
    } else if s == "bnez"@ {
        Some(Opcode::Branch { test: Test::Zero(Relation::Ne), relative: false, link: false })
    } else if s == "bnezal"@ {
        Some(Opcode::Branch { test: Test::Zero(Relation::Ne), relative: false, link: true })
    } else if s == "brnez"@ {
        Some(Opcode::Branch { test: Test::Zero(Relation::Ne), relative: true, link: false })
    } else {
        None
    }
}

/// The selections: `s` before a relation or a device test, and `select`.
pub open spec fn selection_mnemonic(s: Seq<char>) -> Option<Opcode> {
    if s == "select"@ {
        Some(Opcode::Select)
    } else if s == "sdns"@ {
        Some(Opcode::Flag(Test::DeviceUnset))
    } else if s == "sdse"@ {
        Some(Opcode::Flag(Test::DeviceSet))
    } else if s == "sap"@ {
        Some(Opcode::Flag(Test::Numbers(Relation::Ap)))
    } else if s == "sapz"@ {
        Some(Opcode::Flag(Test::Zero(Relation::Ap)))
    } else if s == "seq"@ {
        Some(Opcode::Flag(Test::Numbers(Relation::Eq)))
    } else if s == "seqz"@ {
        Some(Opcode::Flag(Test::Zero(Relation::Eq)))
    } else if s == "sge"@ {
        Some(Opcode::Flag(Test::Numbers(Relation::Ge)))
    } else if s == "sgez"@ {
        Some(Opcode::Flag(Test::Zero(Relation::Ge)))
    } else if s == "sgt"@ {
        Some(Opcode::Flag(Test::Numbers(Relation::Gt)))
    } else if s == "sgtz"@ {
        Some(Opcode::Flag(Test::Zero(Relation::Gt)))
    } else if s == "sle"@ {
        Some(Opcode::Flag(Test::Numbers(Relation::Le)))
    } else if s == "slez"@ {
        Some(Opcode::Flag(Test::Zero(Relation::Le)))
    } else if s == "slt"@ {
        Some(Opcode::Flag(Test::Numbers(Relation::Lt)))
    } else if s == "sltz"@ {
        Some(Opcode::Flag(Test::Zero(Relation::Lt)))
    } else if s == "sna"@ {
        Some(Opcode::Flag(Test::Numbers(Relation::Na)))
    } else if s == "snaz"@ {
        Some(Opcode::Flag(Test::Zero(Relation::Na)))
    } else if s == "sne"@ {
        Some(Opcode::Flag(Test::Numbers(Relation::Ne)))
    } else if s == "snez"@ {
        Some(Opcode::Flag(Test::Zero(Relation::Ne)))
    } else {
        None
    }
}

/// The arithmetic and the logic.
pub open spec fn arithmetic_mnemonic(s: Seq<char>) -> Option<Opcode> {
    if s == "abs"@ {
        Some(Opcode::Unary(UnaryOp::Abs))
    } else if s == "acos"@ {
        Some(Opcode::Unary(UnaryOp::Acos))
    } else if s == "asin"@ {
        Some(Opcode::Unary(UnaryOp::Asin))
    } else if s == "atan"@ {
        Some(Opcode::Unary(UnaryOp::Atan))
    } else if s == "ceil"@ {
        Some(Opcode::Unary(UnaryOp::Ceil))
    } else if s == "cos"@ {
        Some(Opcode::Unary(UnaryOp::Cos))
    } else if s == "exp"@ {
        Some(Opcode::Unary(UnaryOp::Exp))
    } else if s == "floor"@ {
        Some(Opcode::Unary(UnaryOp::Floor))
    } else if s == "log"@ {
        Some(Opcode::Unary(UnaryOp::Log))
    } else if s == "round"@ {
        Some(Opcode::Unary(UnaryOp::Round))
    } else if s == "sin"@ {
        Some(Opcode::Unary(UnaryOp::Sin))
    } else if s == "sqrt"@ {
        Some(Opcode::Unary(UnaryOp::Sqrt))
    } else if s == "tan"@ {
        Some(Opcode::Unary(UnaryOp::Tan))
    } else if s == "trunc"@ {
        Some(Opcode::Unary(UnaryOp::Trunc))
    } else if s == "add"@ {
        Some(Opcode::Binary(BinaryOp::Add))
    } else if s == "sub"@ {
        Some(Opcode::Binary(BinaryOp::Sub))
    } else if s == "mul"@ {
        Some(Opcode::Binary(BinaryOp::Mul))
    } else if s == "div"@ {
        Some(Opcode::Binary(BinaryOp::Div))
    } else if s == "mod"@ {
        Some(Opcode::Binary(BinaryOp::Mod))
    } else if s == "max"@ {
        Some(Opcode::Binary(BinaryOp::Max))
    } else if s == "min"@ {
        Some(Opcode::Binary(BinaryOp::Min))
    } else if s == "rand"@ {
        Some(Opcode::Random)
    } else if s == "and"@ {
        Some(Opcode::Logic(LogicOp::And))
    } else if s == "nor"@ {
        Some(Opcode::Logic(LogicOp::Nor))
    } else if s == "or"@ {
        Some(Opcode::Logic(LogicOp::Or))
    } else if s == "xor"@ {
        Some(Opcode::Logic(LogicOp::Xor))
    } else {
        None
    }
}

/// The stack, the symbol tables, the halts and the device I/O.
pub open spec fn other_mnemonic(s: Seq<char>) -> Option<Opcode> {
    if s == "peek"@ {
        Some(Opcode::Peek)
    } else if s == "pop"@ {
        Some(Opcode::Pop)
    } else if s == "push"@ {
        Some(Opcode::Push)
    } else if s == "alias"@ {
        Some(Opcode::Alias)
    } else if s == "define"@ {
        Some(Opcode::Define)
    } else if s == "move"@ {
        Some(Opcode::Move)
    } else if s == "yield"@ {
        Some(Opcode::Halt)
    } else if s == "hcf"@ {
        Some(Opcode::Halt)
    } else if s == "sleep"@ {
        Some(Opcode::Sleep)
    } else if s == "l"@ {
        Some(Opcode::Load)
    } else if s == "s"@ {
        Some(Opcode::Store)
    } else if s == "lb"@ {
        Some(Opcode::LoadBatch)
    } else if s == "sb"@ {
        Some(Opcode::StoreBatch)
    } else if s == "lr"@ {
        Some(Opcode::LoadReagent)
    } else if s == "ls"@ {
        Some(Opcode::LoadSlot)
    } else {
        None
    }
}

fn decode_flow(s: &str) -> (r: Option<Opcode>)
    ensures
        r == flow_mnemonic(s@),
{
    if same_text(s, "j") {
        Some(Opcode::Jump { relative: false, link: false })
    }     else if same_text(s, "jal") {
        Some(Opcode::Jump { relative: false, link: true })
    }     else if same_text(s, "jr") {
        Some(Opcode::Jump { relative: true, link: false })
    }     else if same_text(s, "bdns") {
        Some(Opcode::Branch { test: Test::DeviceUnset, relative: false, link: false })
    }     else if same_text(s, "bdnsal") {
        Some(Opcode::Branch { test: Test::DeviceUnset, relative: false, link: true })
    }     else if same_text(s, "brdns") {
        Some(Opcode::Branch { test: Test::DeviceUnset, relative: true, link: false })
    }     else if same_text(s, "bdse") {
        Some(Opcode::Branch { test: Test::DeviceSet, relative: false, link: false })
    }     else if same_text(s, "bdseal") {
        Some(Opcode::Branch { test: Test::DeviceSet, relative: false, link: true })
    }     else if same_text(s, "brdse") {
        Some(Opcode::Branch { test: Test::DeviceSet, relative: true, link: false })
    }     else if same_text(s, "bap") {
        Some(Opcode::Branch { test: Test::Numbers(Relation::Ap), relative: false, link: false })
    }     else if same_text(s, "bapal") {
        Some(Opcode::Branch { test: Test::Numbers(Relation::Ap), relative: false, link: true })
    }     else if same_text(s, "brap") {
        Some(Opcode::Branch { test: Test::Numbers(Relation::Ap), relative: true, link: false })
    }     else if same_text(s, "bapz") {
        Some(Opcode::Branch { test: Test::Zero(Relation::Ap), relative: false, link: false })
    }     else if same_text(s, "bapzal") {
        Some(Opcode::Branch { test: Test::Zero(Relation::Ap), relative: false, link: true })
    }     else if same_text(s, "brapz") {
        Some(Opcode::Branch { test: Test::Zero(Relation::Ap), relative: true, link: false })
    }     else if same_text(s, "beq") {
        Some(Opcode::Branch { test: Test::Numbers(Relation::Eq), relative: false, link: false })
    }     else if same_text(s, "beqal") {
        Some(Opcode::Branch { test: Test::Numbers(Relation::Eq), relative: false, link: true })
    }     else if same_text(s, "breq") {
        Some(Opcode::Branch { test: Test::Numbers(Relation::Eq), relative: true, link: false })
    }     else if same_text(s, "beqz") {
        Some(Opcode::Branch { test: Test::Zero(Relation::Eq), relative: false, link: false })
    }     else if same_text(s, "beqzal") {
        Some(Opcode::Branch { test: Test::Zero(Relation::Eq), relative: false, link: true })
    }     else if same_text(s, "breqz") {
        Some(Opcode::Branch { test: Test::Zero(Relation::Eq), relative: true, link: false })
    }     else if same_text(s, "bge") {
        Some(Opcode::Branch { test: Test::Numbers(Relation::Ge), relative: false, link: false })
    }     else if same_text(s, "bgeal") {
        Some(Opcode::Branch { test: Test::Numbers(Relation::Ge), relative: false, link: true })
    }     else if same_text(s, "brge") {
        Some(Opcode::Branch { test: Test::Numbers(Relation::Ge), relative: true, link: false })
    }     else if same_text(s, "bgez") {
        Some(Opcode::Branch { test: Test::Zero(Relation::Ge), relative: false, link: false })
    }     else if same_text(s, "bgezal") {
        Some(Opcode::Branch { test: Test::Zero(Relation::Ge), relative: false, link: true })
    }     else if same_text(s, "brgez") {
        Some(Opcode::Branch { test: Test::Zero(Relation::Ge), relative: true, link: false })
    }     else if same_text(s, "bgt") {
        Some(Opcode::Branch { test: Test::Numbers(Relation::Gt), relative: false, link: false })
    }     else if same_text(s, "bgtal") {
        Some(Opcode::Branch { test: Test::Numbers(Relation::Gt), relative: false, link: true })
    }     else if same_text(s, "brgt") {
        Some(Opcode::Branch { test: Test::Numbers(Relation::Gt), relative: true, link: false })
    }     else if same_text(s, "bgtz") {
        Some(Opcode::Branch { test: Test::Zero(Relation::Gt), relative: false, link: false })
    }     else if same_text(s, "bgtzal") {
        Some(Opcode::Branch { test: Test::Zero(Relation::Gt), relative: false, link: true })
    }     else if same_text(s, "brgtz") {
        Some(Opcode::Branch { test: Test::Zero(Relation::Gt), relative: true, link: false })
    }     else if same_text(s, "ble") {
        Some(Opcode::Branch { test: Test::Numbers(Relation::Le), relative: false, link: false })
    }     else if same_text(s, "bleal") {
        Some(Opcode::Branch { test: Test::Numbers(Relation::Le), relative: false, link: true })
    }     else if same_text(s, "brle") {
        Some(Opcode::Branch { test: Test::Numbers(Relation::Le), relative: true, link: false })
    }     else if same_text(s, "blez") {
        Some(Opcode::Branch { test: Test::Zero(Relation::Le), relative: false, link: false })
    }     else if same_text(s, "blezal") {
        Some(Opcode::Branch { test: Test::Zero(Relation::Le), relative: false, link: true })
    }     else if same_text(s, "brlez") {
        Some(Opcode::Branch { test: Test::Zero(Relation::Le), relative: true, link: false })
    }     else if same_text(s, "blt") {
        Some(Opcode::Branch { test: Test::Numbers(Relation::Lt), relative: false, link: false })
    }     else if same_text(s, "bltal") {
        Some(Opcode::Branch { test: Test::Numbers(Relation::Lt), relative: false, link: true })
    }     else if same_text(s, "brlt") {
        Some(Opcode::Branch { test: Test::Numbers(Relation::Lt), relative: true, link: false })
    }     else if same_text(s, "bltz") {
        Some(Opcode::Branch { test: Test::Zero(Relation::Lt), relative: false, link: false })
    }     else if same_text(s, "bltzal") {
        Some(Opcode::Branch { test: Test::Zero(Relation::Lt), relative: false, link: true })
    }     else if same_text(s, "brltz") {
        Some(Opcode::Branch { test: Test::Zero(Relation::Lt), relative: true, link: false })
    }     else if same_text(s, "bna") {
        Some(Opcode::Branch { test: Test::Numbers(Relation::Na), relative: false, link: false })
    }     else if same_text(s, "bnaal") {
        Some(Opcode::Branch { test: Test::Numbers(Relation::Na), relative: false, link: true })
    }     else if same_text(s, "brna") {
        Some(Opcode::Branch { test: Test::Numbers(Relation::Na), relative: true, link: false })
    }     else if same_text(s, "bnaz") {
        Some(Opcode::Branch { test: Test::Zero(Relation::Na), relative: false, link: false })
    }     else if same_text(s, "bnazal") {
        Some(Opcode::Branch { test: Test::Zero(Relation::Na), relative: false, link: true })
    }     else if same_text(s, "brnaz") {
        Some(Opcode::Branch { test: Test::Zero(Relation::Na), relative: true, link: false })
    }     else if same_text(s, "bne") {
        Some(Opcode::Branch { test: Test::Numbers(Relation::Ne), relative: false, link: false })
    }     else if same_text(s, "bneal") {
        Some(Opcode::Branch { test: Test::Numbers(Relation::Ne), relative: false, link: true })
    }     else if same_text(s, "brne") {
        Some(Opcode::Branch { test: Test::Numbers(Relation::Ne), relative: true, link: false })
    }     else if same_text(s, "bnez") {
        Some(Opcode::Branch { test: Test::Zero(Relation::Ne), relative: false, link: false })
    }     else if same_text(s, "bnezal") {
        Some(Opcode::Branch { test: Test::Zero(Relation::Ne), relative: false, link: true })
    }     else if same_text(s, "brnez") {
        Some(Opcode::Branch { test: Test::Zero(Relation::Ne), relative: true, link: false })
    } else {
        None
    }
}

fn decode_selection(s: &str) -> (r: Option<Opcode>)
    ensures
        r == selection_mnemonic(s@),
{
    if same_text(s, "select") {
        Some(Opcode::Select)
    }     else if same_text(s, "sdns") {
        Some(Opcode::Flag(Test::DeviceUnset))
    }     else if same_text(s, "sdse") {
        Some(Opcode::Flag(Test::DeviceSet))
    }     else if same_text(s, "sap") {
        Some(Opcode::Flag(Test::Numbers(Relation::Ap)))
    }     else if same_text(s, "sapz") {
        Some(Opcode::Flag(Test::Zero(Relation::Ap)))
    }     else if same_text(s, "seq") {
        Some(Opcode::Flag(Test::Numbers(Relation::Eq)))
    }     else if same_text(s, "seqz") {
        Some(Opcode::Flag(Test::Zero(Relation::Eq)))
    }     else if same_text(s, "sge") {
        Some(Opcode::Flag(Test::Numbers(Relation::Ge)))
    }     else if same_text(s, "sgez") {
        Some(Opcode::Flag(Test::Zero(Relation::Ge)))
    }     else if same_text(s, "sgt") {
        Some(Opcode::Flag(Test::Numbers(Relation::Gt)))
    }     else if same_text(s, "sgtz") {
        Some(Opcode::Flag(Test::Zero(Relation::Gt)))
    }     else if same_text(s, "sle") {
        Some(Opcode::Flag(Test::Numbers(Relation::Le)))
    }     else if same_text(s, "slez") {
        Some(Opcode::Flag(Test::Zero(Relation::Le)))
    }     else if same_text(s, "slt") {
        Some(Opcode::Flag(Test::Numbers(Relation::Lt)))
    }     else if same_text(s, "sltz") {
        Some(Opcode::Flag(Test::Zero(Relation::Lt)))
    }     else if same_text(s, "sna") {
        Some(Opcode::Flag(Test::Numbers(Relation::Na)))
    }     else if same_text(s, "snaz") {
        Some(Opcode::Flag(Test::Zero(Relation::Na)))
    }     else if same_text(s, "sne") {
        Some(Opcode::Flag(Test::Numbers(Relation::Ne)))
    }     else if same_text(s, "snez") {
        Some(Opcode::Flag(Test::Zero(Relation::Ne)))
    } else {
        None
    }
}

fn decode_arithmetic(s: &str) -> (r: Option<Opcode>)
    ensures
        r == arithmetic_mnemonic(s@),
{
    if same_text(s, "abs") {
        Some(Opcode::Unary(UnaryOp::Abs))
    }     else if same_text(s, "acos") {
        Some(Opcode::Unary(UnaryOp::Acos))
    }     else if same_text(s, "asin") {
        Some(Opcode::Unary(UnaryOp::Asin))
    }     else if same_text(s, "atan") {
        Some(Opcode::Unary(UnaryOp::Atan))
    }     else if same_text(s, "ceil") {
        Some(Opcode::Unary(UnaryOp::Ceil))
    }     else if same_text(s, "cos") {
        Some(Opcode::Unary(UnaryOp::Cos))
    }     else if same_text(s, "exp") {
        Some(Opcode::Unary(UnaryOp::Exp))
    }     else if same_text(s, "floor") {
        Some(Opcode::Unary(UnaryOp::Floor))
    }     else if same_text(s, "log") {
        Some(Opcode::Unary(UnaryOp::Log))
    }     else if same_text(s, "round") {
        Some(Opcode::Unary(UnaryOp::Round))
    }     else if same_text(s, "sin") {
        Some(Opcode::Unary(UnaryOp::Sin))
    }     else if same_text(s, "sqrt") {
        Some(Opcode::Unary(UnaryOp::Sqrt))
    }     else if same_text(s, "tan") {
        Some(Opcode::Unary(UnaryOp::Tan))
    }     else if same_text(s, "trunc") {
        Some(Opcode::Unary(UnaryOp::Trunc))
    }     else if same_text(s, "add") {
        Some(Opcode::Binary(BinaryOp::Add))
    }     else if same_text(s, "sub") {
        Some(Opcode::Binary(BinaryOp::Sub))
    }     else if same_text(s, "mul") {
        Some(Opcode::Binary(BinaryOp::Mul))
    }     else if same_text(s, "div") {
        Some(Opcode::Binary(BinaryOp::Div))
    }     else if same_text(s, "mod") {
        Some(Opcode::Binary(BinaryOp::Mod))
    }     else if same_text(s, "max") {
        Some(Opcode::Binary(BinaryOp::Max))
    }     else if same_text(s, "min") {
        Some(Opcode::Binary(BinaryOp::Min))
    }     else if same_text(s, "rand") {
        Some(Opcode::Random)
    }     else if same_text(s, "and") {
        Some(Opcode::Logic(LogicOp::And))
    }     else if same_text(s, "nor") {
        Some(Opcode::Logic(LogicOp::Nor))
    }     else if same_text(s, "or") {
        Some(Opcode::Logic(LogicOp::Or))
    }     else if same_text(s, "xor") {
        Some(Opcode::Logic(LogicOp::Xor))
    } else {
        None
    }
}

fn decode_other(s: &str) -> (r: Option<Opcode>)
    ensures
        r == other_mnemonic(s@),
{
    if same_text(s, "peek") {
        Some(Opcode::Peek)
    }     else if same_text(s, "pop") {
        Some(Opcode::Pop)
    }     else if same_text(s, "push") {
        Some(Opcode::Push)
    }     else if same_text(s, "alias") {
        Some(Opcode::Alias)
    }     else if same_text(s, "define") {
        Some(Opcode::Define)
    }     else if same_text(s, "move") {
        Some(Opcode::Move)
    }     else if same_text(s, "yield") {
        Some(Opcode::Halt)
    }     else if same_text(s, "hcf") {
        Some(Opcode::Halt)
    }     else if same_text(s, "sleep") {
        Some(Opcode::Sleep)
    }     else if same_text(s, "l") {
        Some(Opcode::Load)
    }     else if same_text(s, "s") {
        Some(Opcode::Store)
    }     else if same_text(s, "lb") {
        Some(Opcode::LoadBatch)
    }     else if same_text(s, "sb") {
        Some(Opcode::StoreBatch)
    }     else if same_text(s, "lr") {
        Some(Opcode::LoadReagent)
    }     else if same_text(s, "ls") {
        Some(Opcode::LoadSlot)
    } else {
        None
    }
}

/// The instruction that a mnemonic stands for.
pub open spec fn mnemonic(s: Seq<char>) -> Option<Opcode> {
    if flow_mnemonic(s) is Some {
        flow_mnemonic(s)
    } else if selection_mnemonic(s) is Some {
        selection_mnemonic(s)
    } else if arithmetic_mnemonic(s) is Some {
        arithmetic_mnemonic(s)
    } else {
        other_mnemonic(s)
    }
}

/// The instruction that the mnemonic stands for, if it stands for one.
pub fn decode(s: &str) -> (r: Option<Opcode>)
    ensures
        r == mnemonic(s@),
{
    let flow = decode_flow(s);
    if flow.is_some() {
        return flow;
    }
    let selection = decode_selection(s);
    if selection.is_some() {
        return selection;
    }
    let arithmetic = decode_arithmetic(s);
    if arithmetic.is_some() {
        return arithmetic;
    }
    decode_other(s)
}

} // verus!
