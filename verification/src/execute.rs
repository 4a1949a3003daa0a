//! What each instruction does: first as a function on the model, then as
//! the code that does it to a machine.

use vstd::prelude::*;
use crate::alias::Alias;
use crate::error::Error;
use crate::ic::ICState;
use crate::lexer::{words, Token};
use crate::model::{Machine, Word};
use crate::opcode::{LogicOp, Opcode, Relation, Test};
use crate::unit::{BinaryOp, Completion, Pending, Request, UnaryOp};
use crate::value::{Value, ONE_BITS};

verus! {

/// How an instruction ends: with an error, done, or waiting for the float
/// unit; and the machine it leaves.
pub type Step = (Result<Option<Pending>, Error>, Machine);

/// The instruction is refused.
pub open spec fn failed(e: Error, m: Machine) -> Step {
    (Err(e), m)
}

/// The instruction is done.
pub open spec fn finished(m: Machine) -> Step {
    (Ok(None), m)
}

/// The instruction waits for the float unit.
pub open spec fn asked(request: Request, completion: Completion, m: Machine) -> Step {
    (Ok(Some(Pending { request, completion })), m)
}

/// The instruction ends with a write to a register.
pub open spec fn assigned(m: Machine, r: Alias, v: Value) -> Step {
    match m.writable(r) {
        Ok(_) => finished(m.write(r, v)),
        Err(e) => failed(e, m),
    }
}

/// The `count` numbers that the arguments from `at` on stand for, or the
/// error of the first of them that stands for none.
pub open spec fn numbers(m: Machine, args: Seq<Word>, at: int, count: nat) -> Result<
    Seq<Value>,
    Error,
>
    decreases count,
{
    if count == 0 {
        Ok(Seq::empty())
    } else {
        match numbers(m, args, at, (count - 1) as nat) {
            Err(e) => Err(e),
            Ok(front) => match m.number(args[at + count - 1]) {
                Err(e) => Err(e),
                Ok(v) => Ok(front.push(v)),
            },
        }
    }
}

/// Whether one of the exact relations holds between two numbers. A relation
/// with what is not a number never holds.
pub open spec fn exact(relation: Relation, a: Value, b: Value) -> bool {
    match relation {
        Relation::Ge => b.at_most(a),
        Relation::Gt => b.less(a),
        Relation::Le => a.at_most(b),
        Relation::Lt => a.less(b),
        _ => false,
    }
}

/// What the core makes of a test: it knows the result, or it asks the float
/// unit whether two numbers are approximately equal, and the test holds
/// where the answer is yes, or where it is no if the flag is set.
pub enum Verdict {
    Known(bool),
    Asked(Request, bool),
}

/// The verdict on a relation between two numbers.
pub open spec fn weigh(relation: Relation, a: Value, b: Value, tolerance: Option<Value>) -> Verdict {
    if relation.approximate() {
        Verdict::Asked(Request::Approx(a, b, tolerance), relation.negated())
    } else {
        Verdict::Known(exact(relation, a, b))
    }
}

/// The verdict on a test whose operands are the arguments from `at` on.
pub open spec fn judge(test: Test, m: Machine, args: Seq<Word>, at: int) -> Result<Verdict, Error> {
    match test {
        Test::Numbers(relation) => match numbers(m, args, at, test.operands()) {
            Err(e) => Err(e),
            Ok(ns) => Ok(
                weigh(
                    relation,
                    ns[0],
                    ns[1],
                    if relation.tolerant() {
                        Some(ns[2])
                    } else {
                        None
                    },
                ),
            ),
        },
        Test::Zero(relation) => match numbers(m, args, at, test.operands()) {
            Err(e) => Err(e),
            Ok(ns) => Ok(
                weigh(
                    relation,
                    ns[0],
                    Value { bits: 0 },
                    if relation.tolerant() {
                        Some(ns[1])
                    } else {
                        None
                    },
                ),
            ),
        },
        _ => match m.device(args[at].text) {
            Err(e) => Err(e),
            Ok(d) => match m.device_set(d) {
                Err(e) => Err(e),
                Ok(set) => Ok(Verdict::Known(set == (test is DeviceSet))),
            },
        },
    }
}

/// The truth tables of the logic instructions.
pub open spec fn logic(op: LogicOp, a: bool, b: bool) -> bool {
    match op {
        LogicOp::And => a && b,
        LogicOp::Nor => !(a || b),
        LogicOp::Or => a || b,
        LogicOp::Xor => a != b,
    }
}

impl Machine {
    /// `j`, `jal`, `jr`.
    pub open spec fn jump(self, args: Seq<Word>, relative: bool, link: bool) -> Step {
        match self.line(args[0]) {
            Err(e) => failed(e, self),
            Ok(l) => finished(self.branch(l, true, relative, link)),
        }
    }

    /// The branches. A branch that links writes `ra` whether it is taken or
    /// not, and before the float unit is asked.
    pub open spec fn branch_on(self, args: Seq<Word>, test: Test, relative: bool, link: bool) -> Step {
        match judge(test, self, args, 0) {
            Err(e) => failed(e, self),
            Ok(verdict) => match self.line(args[test.operands() as int]) {
                Err(e) => failed(e, self),
                Ok(l) => match verdict {
                    Verdict::Known(taken) => finished(self.branch(l, taken, relative, link)),
                    Verdict::Asked(request, negate) => asked(
                        request,
                        Completion::Branch { target: l, relative, negate },
                        self.branch(l, false, relative, link),
                    ),
                },
            },
        }
    }

    /// The selections on a test.
    pub open spec fn flag_on(self, args: Seq<Word>, test: Test) -> Step {
        match self.register(args[0].text) {
            Err(e) => failed(e, self),
            Ok(r) => match judge(test, self, args, 1) {
                Err(e) => failed(e, self),
                Ok(Verdict::Known(holds)) => assigned(self, r, Value::of_bool(holds)),
                Ok(Verdict::Asked(request, negate)) => asked(
                    request,
                    Completion::Flag { dest: r, negate },
                    self,
                ),
            },
        }
    }

    /// `select`.
    pub open spec fn select(self, args: Seq<Word>) -> Step {
        match self.register(args[0].text) {
            Err(e) => failed(e, self),
            Ok(r) => match numbers(self, args, 1, 3) {
                Err(e) => failed(e, self),
                Ok(ns) => asked(
                    Request::Approx(ns[0], Value { bits: 0 }, None),
                    Completion::Choose { dest: r, hit: ns[1], miss: ns[2] },
                    self,
                ),
            },
        }
    }

    /// The functions of one number.
    pub open spec fn unary(self, args: Seq<Word>, f: UnaryOp) -> Step {
        match self.register(args[0].text) {
            Err(e) => failed(e, self),
            Ok(r) => match numbers(self, args, 1, 1) {
                Err(e) => failed(e, self),
                Ok(ns) => asked(Request::Unary(f, ns[0]), Completion::Store(r), self),
            },
        }
    }

    /// The functions of two numbers.
    pub open spec fn binary(self, args: Seq<Word>, f: BinaryOp) -> Step {
        match self.register(args[0].text) {
            Err(e) => failed(e, self),
            Ok(r) => match numbers(self, args, 1, 2) {
                Err(e) => failed(e, self),
                Ok(ns) => asked(Request::Binary(f, ns[0], ns[1]), Completion::Store(r), self),
            },
        }
    }

    /// `rand`.
    pub open spec fn random(self, args: Seq<Word>) -> Step {
        match self.register(args[0].text) {
            Err(e) => failed(e, self),
            Ok(r) => asked(Request::Random, Completion::Store(r), self),
        }
    }

    /// `and`, `nor`, `or`, `xor`.
    pub open spec fn logical(self, args: Seq<Word>, f: LogicOp) -> Step {
        match self.register(args[0].text) {
            Err(e) => failed(e, self),
            Ok(r) => match numbers(self, args, 1, 2) {
                Err(e) => failed(e, self),
                Ok(ns) => assigned(
                    self,
                    r,
                    Value::of_bool(logic(f, ns[0].truthy(), ns[1].truthy())),
                ),
            },
        }
    }

    /// `peek`.
    pub open spec fn peek_into(self, args: Seq<Word>) -> Step {
        match self.register(args[0].text) {
            Err(e) => failed(e, self),
            Ok(r) => match self.peek() {
                Err(e) => failed(e, self),
                Ok(v) => assigned(self, r, v),
            },
        }
    }

    /// `pop`: the float unit is asked for `sp - 1.0`.
    pub open spec fn pop_into(self, args: Seq<Word>) -> Step {
        match self.register(args[0].text) {
            Err(e) => failed(e, self),
            Ok(r) => match self.peek() {
                Err(e) => failed(e, self),
                Ok(_) => asked(
                    Request::Binary(BinaryOp::Sub, self.sp(), Value { bits: ONE_BITS }),
                    Completion::Pop(r),
                    self,
                ),
            },
        }
    }

    /// `push`: the float unit is asked for `sp + 1.0`.
    pub open spec fn push_from(self, args: Seq<Word>) -> Step {
        match numbers(self, args, 0, 1) {
            Err(e) => failed(e, self),
            Ok(ns) => match self.peek() {
                Err(e) => failed(e, self),
                Ok(_) => asked(
                    Request::Binary(BinaryOp::Add, self.sp(), Value { bits: ONE_BITS }),
                    Completion::Push(ns[0]),
                    self,
                ),
            },
        }
    }

    /// `alias`.
    pub open spec fn name_alias(self, args: Seq<Word>) -> Step {
        match self.alias(args[1].text) {
            Err(e) => failed(e, self),
            Ok(a) => finished(self.with_alias(args[0].text, a)),
        }
    }

    /// `define`.
    pub open spec fn name_number(self, args: Seq<Word>) -> Step {
        match numbers(self, args, 1, 1) {
            Err(e) => failed(e, self),
            Ok(ns) => finished(self.with_definition(args[0].text, ns[0])),
        }
    }

    /// `move`.
    pub open spec fn move_into(self, args: Seq<Word>) -> Step {
        match self.register(args[0].text) {
            Err(e) => failed(e, self),
            Ok(r) => match numbers(self, args, 1, 1) {
                Err(e) => failed(e, self),
                Ok(ns) => assigned(self, r, ns[0]),
            },
        }
    }

    /// `sleep`.
    pub open spec fn sleep(self, args: Seq<Word>) -> Step {
        match numbers(self, args, 0, 1) {
            Err(e) => failed(e, self),
            Ok(_) => finished(self.halted()),
        }
    }

    /// `l`.
    pub open spec fn load_into(self, args: Seq<Word>) -> Step {
        match self.register(args[0].text) {
            Err(e) => failed(e, self),
            Ok(r) => match self.device(args[1].text) {
                Err(e) => failed(e, self),
                Ok(d) => match self.load(d, args[2].text) {
                    Err(e) => failed(e, self),
                    Ok(v) => assigned(self, r, v),
                },
            },
        }
    }

    /// `s`.
    pub open spec fn store_from(self, args: Seq<Word>) -> Step {
        match self.device(args[0].text) {
            Err(e) => failed(e, self),
            Ok(d) => match numbers(self, args, 2, 1) {
                Err(e) => failed(e, self),
                Ok(ns) => match self.storable(d) {
                    Err(e) => failed(e, self),
                    Ok(_) => finished(self.store(d, args[1].text, ns[0])),
                },
            },
        }
    }

    /// `lb`.
    pub open spec fn load_batch(self, args: Seq<Word>) -> Step {
        match self.register(args[0].text) {
            Err(e) => failed(e, self),
            Ok(_) => match numbers(self, args, 1, 1) {
                Err(e) => failed(e, self),
                Ok(_) => match numbers(self, args, 3, 1) {
                    Err(e) => failed(e, self),
                    Ok(_) => finished(self),
                },
            },
        }
    }

    /// `sb`.
    pub open spec fn store_batch(self, args: Seq<Word>) -> Step {
        match numbers(self, args, 0, 1) {
            Err(e) => failed(e, self),
            Ok(_) => match numbers(self, args, 2, 1) {
                Err(e) => failed(e, self),
                Ok(_) => finished(self),
            },
        }
    }

    /// `lr` and `ls`.
    pub open spec fn load_detail(self, args: Seq<Word>) -> Step {
        match self.register(args[0].text) {
            Err(e) => failed(e, self),
            Ok(_) => match self.device(args[1].text) {
                Err(e) => failed(e, self),
                Ok(_) => match numbers(self, args, 2, 1) {
                    Err(e) => failed(e, self),
                    Ok(_) => finished(self),
                },
            },
        }
    }
}

/// What an instruction makes of its arguments and a machine. The number of
/// arguments is checked first, then the arguments are resolved from left to
/// right, and only then the machine changes.
pub open spec fn perform(op: Opcode, args: Seq<Word>, m: Machine) -> Step {
    if args.len() != op.arity() {
        failed(Error::Arity, m)
    } else {
        match op {
            Opcode::Jump { relative, link } => m.jump(args, relative, link),
            Opcode::Branch { test, relative, link } => m.branch_on(args, test, relative, link),
            Opcode::Flag(test) => m.flag_on(args, test),
            Opcode::Select => m.select(args),
            Opcode::Unary(f) => m.unary(args, f),
            Opcode::Binary(f) => m.binary(args, f),
            Opcode::Random => m.random(args),
            Opcode::Logic(f) => m.logical(args, f),
            Opcode::Peek => m.peek_into(args),
            Opcode::Pop => m.pop_into(args),
            Opcode::Push => m.push_from(args),
            Opcode::Alias => m.name_alias(args),
            Opcode::Define => m.name_number(args),
            Opcode::Move => m.move_into(args),
            Opcode::Halt => finished(m.halted()),
            Opcode::Sleep => m.sleep(args),
            Opcode::Load => m.load_into(args),
            Opcode::Store => m.store_from(args),
            Opcode::LoadBatch => m.load_batch(args),
            Opcode::StoreBatch => m.store_batch(args),
            Opcode::LoadReagent => m.load_detail(args),
            Opcode::LoadSlot => m.load_detail(args),
        }
    }
}

fn resolve(ic: &ICState, args: &[Token], at: usize, count: usize) -> (r: Result<Vec<Value>, Error>)
    requires
        ic.wf(),
        at + count <= args@.len(),
    ensures
        match r {
            Ok(ns) => ns@.len() == count && numbers(ic@, words(args@), at as int, count as nat)
                == Ok::<Seq<Value>, Error>(ns@),
            Err(e) => numbers(ic@, words(args@), at as int, count as nat) == Err::<
                Seq<Value>,
                Error,
            >(e),
        },
{
    let mut found: Vec<Value> = Vec::new();
    let mut k: usize = 0;
    let n: usize = args.len();
    while k < count
        invariant
            ic.wf(),
            k <= count,
            at + count <= n,
            n == args@.len(),
            found@.len() == k,
            numbers(ic@, words(args@), at as int, k as nat) == Ok::<Seq<Value>, Error>(found@),
        decreases count - k,
    {
        match ic.try_number(&args[at + k]) {
            Ok(v) => {
                found.push(v);
            },
            Err(e) => {
                proof {
                    lemma_numbers_fail(ic@, words(args@), at as int, (k + 1) as nat, count as nat);
                }
                return Err(e);
            },
        }
        k = k + 1;
    }
    Ok(found)
}

/// Once a number is missing, it stays missing however many more are asked
/// for.
proof fn lemma_numbers_fail(m: Machine, args: Seq<Word>, at: int, k: nat, count: nat)
    requires
        k <= count,
        numbers(m, args, at, k) is Err,
    ensures
        numbers(m, args, at, count) == numbers(m, args, at, k),
    decreases count,
{
    if k < count {
        lemma_numbers_fail(m, args, at, k, (count - 1) as nat);
    }
}

fn relate(relation: Relation, a: Value, b: Value) -> (r: bool)
    requires
        !relation.approximate(),
    ensures
        r == exact(relation, a, b),
{
    match relation {
        Relation::Ge => a.ge(b),
        Relation::Gt => a.gt(b),
        Relation::Le => a.le(b),
        Relation::Lt => a.lt(b),
        _ => false,
    }
}

fn weigh_numbers(relation: Relation, a: Value, b: Value, tolerance: Option<Value>) -> (r: Verdict)
    ensures
        r == weigh(relation, a, b, tolerance),
{
    if relation.is_approximate() {
        Verdict::Asked(Request::Approx(a, b, tolerance), relation.is_negated())
    } else {
        Verdict::Known(relate(relation, a, b))
    }
}

fn examine(test: Test, ic: &ICState, args: &[Token], at: usize) -> (r: Result<Verdict, Error>)
    requires
        ic.wf(),
        at + test.operands() <= args@.len(),
    ensures
        r == judge(test, ic@, words(args@), at as int),
{
    match test {
        Test::Numbers(relation) => {
            match resolve(ic, args, at, test.operand_count()) {
                Err(e) => Err(e),
                Ok(ns) => {
                    let tolerance = if relation.is_tolerant() {
                        Some(ns[2])
                    } else {
                        None
                    };
                    Ok(weigh_numbers(relation, ns[0], ns[1], tolerance))
                },
            }
        },
        Test::Zero(relation) => {
            match resolve(ic, args, at, test.operand_count()) {
                Err(e) => Err(e),
                Ok(ns) => {
                    let tolerance = if relation.is_tolerant() {
                        Some(ns[1])
                    } else {
                        None
                    };
                    Ok(weigh_numbers(relation, ns[0], Value::zero(), tolerance))
                },
            }
        },
        Test::DeviceSet => {
            match ic.try_device(args[at].text.as_str()) {
                Err(e) => Err(e),
                Ok(d) => match ic.is_device_set(d) {
                    Err(e) => Err(e),
                    Ok(set) => Ok(Verdict::Known(set)),
                },
            }
        },
        Test::DeviceUnset => {
            match ic.try_device(args[at].text.as_str()) {
                Err(e) => Err(e),
                Ok(d) => match ic.is_device_set(d) {
                    Err(e) => Err(e),
                    Ok(set) => Ok(Verdict::Known(!set)),
                },
            }
        },
    }
}

fn combine(op: LogicOp, a: bool, b: bool) -> (r: bool)
    ensures
        r == logic(op, a, b),
{
    match op {
        LogicOp::And => a && b,
        LogicOp::Nor => !(a || b),
        LogicOp::Or => a || b,
        LogicOp::Xor => a != b,
    }
}

fn assign(ic: &mut ICState, r: Alias, v: Value) -> (done: Result<Option<Pending>, Error>)
    requires
        old(ic).wf(),
    ensures
        final(ic).wf(),
        (done, final(ic)@) == assigned(old(ic)@, r, v),
{
    match ic.set_register(r, v) {
        Ok(_) => Ok(None),
        Err(e) => Err(e),
    }
}

fn jump(ic: &mut ICState, args: &[Token], relative: bool, link: bool) -> (r: Result<
    Option<Pending>,
    Error,
>)
    requires
        old(ic).wf(),
        args@.len() == 1,
    ensures
        final(ic).wf(),
        (r, final(ic)@) == old(ic)@.jump(words(args@), relative, link),
{
    match ic.try_line_number(&args[0]) {
        Err(e) => Err(e),
        Ok(l) => {
            ic.branch_helper(l, true, relative, link);
            Ok(None)
        },
    }
}

fn branch_on(ic: &mut ICState, args: &[Token], test: Test, relative: bool, link: bool) -> (r: Result<
    Option<Pending>,
    Error,
>)
    requires
        old(ic).wf(),
        args@.len() == test.operands() + 1,
    ensures
        final(ic).wf(),
        (r, final(ic)@) == old(ic)@.branch_on(words(args@), test, relative, link),
{
    match examine(test, ic, args, 0) {
        Err(e) => Err(e),
        Ok(verdict) => match ic.try_line_number(&args[test.operand_count()]) {
            Err(e) => Err(e),
            Ok(l) => match verdict {
                Verdict::Known(taken) => {
                    ic.branch_helper(l, taken, relative, link);
                    Ok(None)
                },
                Verdict::Asked(request, negate) => {
                    ic.branch_helper(l, false, relative, link);
                    Ok(
                        Some(
                            Pending {
                                request,
                                completion: Completion::Branch { target: l, relative, negate },
                            },
                        ),
                    )
                },
            },
        },
    }
}

fn flag_on(ic: &mut ICState, args: &[Token], test: Test) -> (r: Result<Option<Pending>, Error>)
    requires
        old(ic).wf(),
        args@.len() == 1 + test.operands(),
    ensures
        final(ic).wf(),
        (r, final(ic)@) == old(ic)@.flag_on(words(args@), test),
{
    match ic.try_register(args[0].text.as_str()) {
        Err(e) => Err(e),
        Ok(r) => match examine(test, ic, args, 1) {
            Err(e) => Err(e),
            Ok(Verdict::Known(holds)) => assign(ic, r, Value::flag(holds)),
            Ok(Verdict::Asked(request, negate)) => Ok(
                Some(Pending { request, completion: Completion::Flag { dest: r, negate } }),
            ),
        },
    }
}

fn select(ic: &mut ICState, args: &[Token]) -> (r: Result<Option<Pending>, Error>)
    requires
        old(ic).wf(),
        args@.len() == 4,
    ensures
        final(ic).wf(),
        (r, final(ic)@) == old(ic)@.select(words(args@)),
{
    match ic.try_register(args[0].text.as_str()) {
        Err(e) => Err(e),
        Ok(r) => match resolve(ic, args, 1, 3) {
            Err(e) => Err(e),
            Ok(ns) => Ok(
                Some(
                    Pending {
                        request: Request::Approx(ns[0], Value::zero(), None),
                        completion: Completion::Choose { dest: r, hit: ns[1], miss: ns[2] },
                    },
                ),
            ),
        },
    }
}

fn unary(ic: &mut ICState, args: &[Token], f: UnaryOp) -> (r: Result<Option<Pending>, Error>)
    requires
        old(ic).wf(),
        args@.len() == 2,
    ensures
        final(ic).wf(),
        (r, final(ic)@) == old(ic)@.unary(words(args@), f),
{
    match ic.try_register(args[0].text.as_str()) {
        Err(e) => Err(e),
        Ok(r) => match resolve(ic, args, 1, 1) {
            Err(e) => Err(e),
            Ok(ns) => Ok(
                Some(Pending { request: Request::Unary(f, ns[0]), completion: Completion::Store(r) }),
            ),
        },
    }
}

fn binary(ic: &mut ICState, args: &[Token], f: BinaryOp) -> (r: Result<Option<Pending>, Error>)
    requires
        old(ic).wf(),
        args@.len() == 3,
    ensures
        final(ic).wf(),
        (r, final(ic)@) == old(ic)@.binary(words(args@), f),
{
    match ic.try_register(args[0].text.as_str()) {
        Err(e) => Err(e),
        Ok(r) => match resolve(ic, args, 1, 2) {
            Err(e) => Err(e),
            Ok(ns) => Ok(
                Some(
                    Pending { request: Request::Binary(f, ns[0], ns[1]), completion: Completion::Store(r) },
                ),
            ),
        },
    }
}

fn random(ic: &mut ICState, args: &[Token]) -> (r: Result<Option<Pending>, Error>)
    requires
        old(ic).wf(),
        args@.len() == 1,
    ensures
        final(ic).wf(),
        (r, final(ic)@) == old(ic)@.random(words(args@)),
{
    match ic.try_register(args[0].text.as_str()) {
        Err(e) => Err(e),
        Ok(r) => Ok(Some(Pending { request: Request::Random, completion: Completion::Store(r) })),
    }
}

fn logical(ic: &mut ICState, args: &[Token], f: LogicOp) -> (r: Result<Option<Pending>, Error>)
    requires
        old(ic).wf(),
        args@.len() == 3,
    ensures
        final(ic).wf(),
        (r, final(ic)@) == old(ic)@.logical(words(args@), f),
{
    match ic.try_register(args[0].text.as_str()) {
        Err(e) => Err(e),
        Ok(r) => match resolve(ic, args, 1, 2) {
            Err(e) => Err(e),
            Ok(ns) => {
                let holds = combine(f, ns[0].is_true(), ns[1].is_true());
                assign(ic, r, Value::flag(holds))
            },
        },
    }
}

fn peek_into(ic: &mut ICState, args: &[Token]) -> (r: Result<Option<Pending>, Error>)
    requires
        old(ic).wf(),
        args@.len() == 1,
    ensures
        final(ic).wf(),
        (r, final(ic)@) == old(ic)@.peek_into(words(args@)),
{
    match ic.try_register(args[0].text.as_str()) {
        Err(e) => Err(e),
        Ok(r) => match ic.try_peek() {
            Err(e) => Err(e),
            Ok(v) => assign(ic, r, v),
        },
    }
}

fn pop_into(ic: &mut ICState, args: &[Token]) -> (r: Result<Option<Pending>, Error>)
    requires
        old(ic).wf(),
        args@.len() == 1,
    ensures
        final(ic).wf(),
        (r, final(ic)@) == old(ic)@.pop_into(words(args@)),
{
    match ic.try_register(args[0].text.as_str()) {
        Err(e) => Err(e),
        Ok(r) => match ic.try_peek() {
            Err(e) => Err(e),
            Ok(_) => Ok(
                Some(
                    Pending {
                        request: Request::Binary(BinaryOp::Sub, ic.get_sp(), Value::one()),
                        completion: Completion::Pop(r),
                    },
                ),
            ),
        },
    }
}

fn push_from(ic: &mut ICState, args: &[Token]) -> (r: Result<Option<Pending>, Error>)
    requires
        old(ic).wf(),
        args@.len() == 1,
    ensures
        final(ic).wf(),
        (r, final(ic)@) == old(ic)@.push_from(words(args@)),
{
    match resolve(ic, args, 0, 1) {
        Err(e) => Err(e),
        Ok(ns) => match ic.try_peek() {
            Err(e) => Err(e),
            Ok(_) => Ok(
                Some(
                    Pending {
                        request: Request::Binary(BinaryOp::Add, ic.get_sp(), Value::one()),
                        completion: Completion::Push(ns[0]),
                    },
                ),
            ),
        },
    }
}

fn name_alias(ic: &mut ICState, args: &[Token]) -> (r: Result<Option<Pending>, Error>)
    requires
        old(ic).wf(),
        args@.len() == 2,
    ensures
        final(ic).wf(),
        (r, final(ic)@) == old(ic)@.name_alias(words(args@)),
{
    match ic.try_alias(args[1].text.as_str()) {
        Err(e) => Err(e),
        Ok(a) => {
            proof {
                ic.lemma_wf();
            }
            match ic.add_alias(args[0].text.as_str(), a) {
                Ok(_) => Ok(None),
                Err(e) => Err(e),
            }
        },
    }
}

fn name_number(ic: &mut ICState, args: &[Token]) -> (r: Result<Option<Pending>, Error>)
    requires
        old(ic).wf(),
        args@.len() == 2,
    ensures
        final(ic).wf(),
        (r, final(ic)@) == old(ic)@.name_number(words(args@)),
{
    match resolve(ic, args, 1, 1) {
        Err(e) => Err(e),
        Ok(ns) => {
            ic.add_definition(args[0].text.as_str(), ns[0]);
            Ok(None)
        },
    }
}

fn move_into(ic: &mut ICState, args: &[Token]) -> (r: Result<Option<Pending>, Error>)
    requires
        old(ic).wf(),
        args@.len() == 2,
    ensures
        final(ic).wf(),
        (r, final(ic)@) == old(ic)@.move_into(words(args@)),
{
    match ic.try_register(args[0].text.as_str()) {
        Err(e) => Err(e),
        Ok(r) => match resolve(ic, args, 1, 1) {
            Err(e) => Err(e),
            Ok(ns) => assign(ic, r, ns[0]),
        },
    }
}

fn sleep(ic: &mut ICState, args: &[Token]) -> (r: Result<Option<Pending>, Error>)
    requires
        old(ic).wf(),
        args@.len() == 1,
    ensures
        final(ic).wf(),
        (r, final(ic)@) == old(ic)@.sleep(words(args@)),
{
    match resolve(ic, args, 0, 1) {
        Err(e) => Err(e),
        Ok(_) => {
            ic.set_halt(true);
            Ok(None)
        },
    }
}

fn load_into(ic: &mut ICState, args: &[Token]) -> (r: Result<Option<Pending>, Error>)
    requires
        old(ic).wf(),
        args@.len() == 3,
    ensures
        final(ic).wf(),
        (r, final(ic)@) == old(ic)@.load_into(words(args@)),
{
    match ic.try_register(args[0].text.as_str()) {
        Err(e) => Err(e),
        Ok(r) => match ic.try_device(args[1].text.as_str()) {
            Err(e) => Err(e),
            Ok(d) => match ic.try_get_device_param(d, args[2].text.as_str()) {
                Err(e) => Err(e),
                Ok(v) => assign(ic, r, v),
            },
        },
    }
}

fn store_from(ic: &mut ICState, args: &[Token]) -> (r: Result<Option<Pending>, Error>)
    requires
        old(ic).wf(),
        args@.len() == 3,
    ensures
        final(ic).wf(),
        (r, final(ic)@) == old(ic)@.store_from(words(args@)),
{
    match ic.try_device(args[0].text.as_str()) {
        Err(e) => Err(e),
        Ok(d) => match resolve(ic, args, 2, 1) {
            Err(e) => Err(e),
            Ok(ns) => match ic.try_set_device_param(d, args[1].text.as_str(), ns[0]) {
                Err(e) => Err(e),
                Ok(_) => Ok(None),
            },
        },
    }
}

fn load_batch(ic: &ICState, args: &[Token]) -> (r: Result<Option<Pending>, Error>)
    requires
        ic.wf(),
        args@.len() == 4,
    ensures
        (r, ic@) == ic@.load_batch(words(args@)),
{
    match ic.try_register(args[0].text.as_str()) {
        Err(e) => Err(e),
        Ok(_) => match resolve(ic, args, 1, 1) {
            Err(e) => Err(e),
            Ok(_) => match resolve(ic, args, 3, 1) {
                Err(e) => Err(e),
                Ok(_) => Ok(None),
            },
        },
    }
}

fn store_batch(ic: &ICState, args: &[Token]) -> (r: Result<Option<Pending>, Error>)
    requires
        ic.wf(),
        args@.len() == 3,
    ensures
        (r, ic@) == ic@.store_batch(words(args@)),
{
    match resolve(ic, args, 0, 1) {
        Err(e) => Err(e),
        Ok(_) => match resolve(ic, args, 2, 1) {
            Err(e) => Err(e),
            Ok(_) => Ok(None),
        },
    }
}

fn load_detail(ic: &ICState, args: &[Token]) -> (r: Result<Option<Pending>, Error>)
    requires
        ic.wf(),
        args@.len() == 4,
    ensures
        (r, ic@) == ic@.load_detail(words(args@)),
{
    match ic.try_register(args[0].text.as_str()) {
        Err(e) => Err(e),
        Ok(_) => match ic.try_device(args[1].text.as_str()) {
            Err(e) => Err(e),
            Ok(_) => match resolve(ic, args, 2, 1) {
                Err(e) => Err(e),
                Ok(_) => Ok(None),
            },
        },
    }
}

/// Carries out one instruction on its arguments.
pub fn execute(op: Opcode, args: &[Token], ic: &mut ICState) -> (r: Result<Option<Pending>, Error>)
    requires
        old(ic).wf(),
    ensures
        final(ic).wf(),
        (r, final(ic)@) == perform(op, words(args@), old(ic)@),
{
    if args.len() != op.argument_count() {
        return Err(Error::Arity);
    }
    match op {
        Opcode::Jump { relative, link } => jump(ic, args, relative, link),
        Opcode::Branch { test, relative, link } => branch_on(ic, args, test, relative, link),
        Opcode::Flag(test) => flag_on(ic, args, test),
        Opcode::Select => select(ic, args),
        Opcode::Unary(f) => unary(ic, args, f),
        Opcode::Binary(f) => binary(ic, args, f),
        Opcode::Random => random(ic, args),
        Opcode::Logic(f) => logical(ic, args, f),
        Opcode::Peek => peek_into(ic, args),
        Opcode::Pop => pop_into(ic, args),
        Opcode::Push => push_from(ic, args),
        Opcode::Alias => name_alias(ic, args),
        Opcode::Define => name_number(ic, args),
        Opcode::Move => move_into(ic, args),
        Opcode::Halt => {
            ic.set_halt(true);
            Ok(None)
        },
        Opcode::Sleep => sleep(ic, args),
        Opcode::Load => load_into(ic, args),
        Opcode::Store => store_from(ic, args),
        Opcode::LoadBatch => load_batch(ic, args),
        Opcode::StoreBatch => store_batch(ic, args),
        Opcode::LoadReagent => load_detail(ic, args),
        Opcode::LoadSlot => load_detail(ic, args),
    }
}

} // verus!
