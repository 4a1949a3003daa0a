use float_cmp::{ApproxEq, F32Margin};
use stationeers_mips::alias::Alias;
use stationeers_mips::device::DeviceType;
use stationeers_mips::driver::{index_labels, try_run, try_run_line};
use stationeers_mips::error::Error;
use stationeers_mips::ic::ICState;
use stationeers_mips::instruction::{InstructionSet, StationeersInstructionSet};
use stationeers_mips::lexer::{tokenize, Token};
use stationeers_mips::unit::{BinaryOp, Completion, Pending, Request, UnaryOp};
use stationeers_mips::value::Value;

fn num(x: f32) -> Value {
    Value::from_bits(x.to_bits())
}

fn float(v: Value) -> f32 {
    f32::from_bits(v.to_bits())
}

fn lex(line: &str) -> Vec<Token> {
    let mut tokens = tokenize(line);
    for token in tokens.iter_mut() {
        token.number = token.text.parse::<f32>().ok().map(num);
    }
    tokens
}

fn program(source: &str) -> Vec<Vec<Token>> {
    source.lines().map(lex).collect()
}

fn float_unit(request: Request) -> Value {
    match request {
        Request::Unary(op, a) => {
            let x = float(a);
            num(match op {
                UnaryOp::Abs => x.abs(),
                UnaryOp::Acos => x.acos(),
                UnaryOp::Asin => x.asin(),
                UnaryOp::Atan => x.atan(),
                UnaryOp::Ceil => x.ceil(),
                UnaryOp::Cos => x.cos(),
                UnaryOp::Exp => x.exp(),
                UnaryOp::Floor => x.floor(),
                UnaryOp::Log => x.ln(),
                UnaryOp::Round => x.round(),
                UnaryOp::Sin => x.sin(),
                UnaryOp::Sqrt => x.sqrt(),
                UnaryOp::Tan => x.tan(),
                UnaryOp::Trunc => x.trunc(),
            })
        }
        Request::Binary(op, a, b) => {
            let (x, y) = (float(a), float(b));
            num(match op {
                BinaryOp::Add => x + y,
                BinaryOp::Sub => x - y,
                BinaryOp::Mul => x * y,
                BinaryOp::Div => x / y,
                BinaryOp::Mod => x % y,
                BinaryOp::Max => x.max(y),
                BinaryOp::Min => x.min(y),
            })
        }
        Request::Random => num(rand::random::<f32>()),
        Request::Approx(a, b, tolerance) => {
            let margin = match tolerance {
                None => F32Margin::default(),
                Some(c) => F32Margin::default().epsilon(float(c)),
            };
            Value::flag(float(a).approx_eq(float(b), margin))
        }
    }
}

fn tick(ic: &mut ICState, lines: &Vec<Vec<Token>>) -> Result<(), Error> {
    let set = StationeersInstructionSet::new();
    loop {
        match try_run(ic, lines, &set)? {
            None => return Ok(()),
            Some(pending) => pending.completion.apply(ic, float_unit(pending.request))?,
        }
    }
}

fn run(source: &str) -> (ICState, Result<(), Error>) {
    let lines = program(source);
    let mut ic = ICState::default();
    index_labels(&mut ic, &lines);
    let result = tick(&mut ic, &lines);
    (ic, result)
}

fn one(ic: &mut ICState, line: &str) -> Result<(), Error> {
    let set = StationeersInstructionSet::new();
    match try_run_line(ic, &lex(line), &set)? {
        None => Ok(()),
        Some(pending) => pending.completion.apply(ic, float_unit(pending.request)),
    }
}

fn reg(ic: &ICState, i: usize) -> f32 {
    float(ic.registers()[i])
}

#[test]
fn add_two_registers() {
    let (ic, result) = run("move r0 3\nmove r1 4\nadd r2 r0 r1\nyield");
    assert_eq!(result, Ok(()));
    assert_eq!(reg(&ic, 0), 3.0);
    assert_eq!(reg(&ic, 1), 4.0);
    assert_eq!(reg(&ic, 2), 7.0);
    assert!(ic.halt());
    assert_eq!(ic.instr_counter(), 4);
}

#[test]
fn define_names_a_constant() {
    let (ic, result) = run("define pi 3.14\nmove r0 pi\nyield");
    assert_eq!(result, Ok(()));
    assert!((reg(&ic, 0) - 3.14).abs() < 1e-6);
    assert_eq!(ic.definitions(), vec![("pi".to_string(), num(3.14))]);
}

#[test]
fn alias_names_a_register() {
    let (ic, result) = run("alias foo r5\nmove foo 9\nyield");
    assert_eq!(result, Ok(()));
    assert_eq!(reg(&ic, 5), 9.0);
    assert_eq!(ic.try_alias("foo"), Ok(Alias::Register(5, false)));
    assert_eq!(ic.user_aliases(), vec![("foo".to_string(), Alias::Register(5, false))]);
}

#[test]
fn endless_loop_stops_at_the_quantum() {
    let lines = program("start:\nmove r0 1\nj start\n");
    let mut ic = ICState::new(6, 16, 512, 10);
    index_labels(&mut ic, &lines);
    assert_eq!(tick(&mut ic, &lines), Ok(()));
    assert_eq!(ic.instr_counter(), 10);
    assert_eq!(reg(&ic, 0), 1.0);
    assert_eq!(ic.labels(), vec![("start".to_string(), 0)]);
    assert!(!ic.halt());
}

#[test]
fn jump_and_link_then_return() {
    let (ic, result) = run("jal sub\nyield\nsub:\nmove r0 42\nj 1\n");
    assert_eq!(result, Ok(()));
    assert_eq!(reg(&ic, 0), 42.0);
    assert_eq!(float(ic.get_ra()), 1.0);
    assert!(ic.halt());
}

#[test]
fn push_and_pop_are_balanced() {
    let (ic, result) = run("push 5\npush 7\npop r0\npop r1\nyield");
    assert_eq!(result, Ok(()));
    assert_eq!(reg(&ic, 0), 7.0);
    assert_eq!(reg(&ic, 1), 5.0);
    assert_eq!(float(ic.get_sp()), 0.0);
}

#[test]
fn next_tick_resumes_where_the_quantum_ended() {
    let lines = program("move r0 1\nmove r1 2\nmove r2 3\nmove r3 4\nyield");
    let mut ic = ICState::new(6, 16, 512, 2);
    assert_eq!(tick(&mut ic, &lines), Ok(()));
    assert_eq!(ic.instr_counter(), 2);
    assert_eq!(ic.next_line(), 2);
    assert_eq!(reg(&ic, 2), 0.0);
    assert_eq!(tick(&mut ic, &lines), Ok(()));
    assert_eq!(ic.next_line(), 2);
    ic.set_instr_counter(0);
    assert_eq!(tick(&mut ic, &lines), Ok(()));
    assert_eq!(ic.next_line(), 4);
    assert_eq!(reg(&ic, 3), 4.0);
    ic.set_instr_counter(0);
    assert_eq!(tick(&mut ic, &lines), Ok(()));
    assert!(ic.halt());
    assert_eq!(ic.instr_counter(), 1);
}

#[test]
fn quantum_of_zero_runs_nothing() {
    let lines = program("move r0 1");
    let mut ic = ICState::new(6, 16, 512, 0);
    assert_eq!(tick(&mut ic, &lines), Ok(()));
    assert_eq!(ic.next_line(), 0);
    assert_eq!(reg(&ic, 0), 0.0);
}

#[test]
fn program_without_halt_ends_at_its_last_line() {
    let (ic, result) = run("move r0 1\nmove r1 2");
    assert_eq!(result, Ok(()));
    assert!(!ic.halt());
    assert_eq!(ic.next_line(), 2);
    assert_eq!(ic.instr_counter(), 2);
}

#[test]
fn halted_machine_stays_where_it_is() {
    let lines = program("yield\nmove r0 1");
    let mut ic = ICState::default();
    assert_eq!(tick(&mut ic, &lines), Ok(()));
    assert_eq!(tick(&mut ic, &lines), Ok(()));
    assert_eq!(ic.next_line(), 1);
    assert_eq!(reg(&ic, 0), 0.0);
    ic.set_halt(false);
    assert_eq!(tick(&mut ic, &lines), Ok(()));
    assert_eq!(reg(&ic, 0), 1.0);
}

#[test]
fn pending_instruction_is_handed_to_the_host() {
    let lines = program("move r0 2\nmul r1 r0 r0\nyield");
    let set = StationeersInstructionSet::new();
    let mut ic = ICState::default();
    let pending = try_run(&mut ic, &lines, &set);
    assert_eq!(
        pending,
        Ok(Some(Pending {
            request: Request::Binary(BinaryOp::Mul, num(2.0), num(2.0)),
            completion: Completion::Store(Alias::Register(1, true)),
        }))
    );
    assert_eq!(ic.instr_counter(), 2);
    assert_eq!(ic.next_line(), 2);
    assert_eq!(Completion::Store(Alias::Register(1, true)).apply(&mut ic, num(4.0)), Ok(()));
    assert_eq!(try_run(&mut ic, &lines, &set), Ok(None));
    assert_eq!(reg(&ic, 1), 4.0);
    assert!(ic.halt());
}

#[test]
fn label_lines_count_and_do_nothing() {
    let (ic, result) = run("a:\nb:\nyield");
    assert_eq!(result, Ok(()));
    assert_eq!(ic.instr_counter(), 3);
    assert_eq!(ic.labels(), vec![("a".to_string(), 0), ("b".to_string(), 1)]);
}

#[test]
fn later_label_wins() {
    let lines = program("a:\nyield\na:");
    let mut ic = ICState::default();
    index_labels(&mut ic, &lines);
    assert_eq!(ic.labels(), vec![("a".to_string(), 2)]);
}

#[test]
fn empty_line_is_an_error() {
    let (ic, result) = run("move r0 1\n\nmove r1 2");
    assert_eq!(result, Err(Error::EmptyLine));
    assert_eq!(ic.instr_counter(), 1);
    assert_eq!(ic.next_line(), 2);
    assert_eq!(reg(&ic, 1), 0.0);
    let mut ic = ICState::default();
    let set = StationeersInstructionSet::new();
    assert_eq!(try_run_line(&mut ic, &Vec::new(), &set), Err(Error::EmptyLine));
}

#[test]
fn unknown_mnemonic_is_an_error() {
    assert_eq!(run("frobnicate r0").1, Err(Error::UnknownMnemonic));
    assert_eq!(run(" move r0 1").1, Err(Error::UnknownMnemonic));
    let set = StationeersInstructionSet::new();
    let mut ic = ICState::default();
    assert_eq!(set.try_run("nop", &[], &mut ic), Err(Error::UnknownMnemonic));
}

#[test]
fn wrong_number_of_arguments_is_an_error() {
    assert_eq!(run("move r0").1, Err(Error::Arity));
    assert_eq!(run("yield now").1, Err(Error::Arity));
    assert_eq!(run("add r0 1 2 3").1, Err(Error::Arity));
    assert_eq!(run("move r0  1").1, Err(Error::Arity));
    assert_eq!(run("bgez r0 1 2").1, Err(Error::Arity));
    assert_eq!(run("move x").1, Err(Error::Arity));
}

#[test]
fn arguments_are_checked_from_left_to_right() {
    assert_eq!(run("add x y z").1, Err(Error::NotARegister));
    assert_eq!(run("add r0 y z").1, Err(Error::NotANumber));
    assert_eq!(run("add d0 1 2").1, Err(Error::NotARegister));
    assert_eq!(run("beq x 1 nowhere").1, Err(Error::NotANumber));
    assert_eq!(run("beq 1 1 nowhere").1, Err(Error::NotALineNumber));
    assert_eq!(run("j nowhere").1, Err(Error::NotALineNumber));
    assert_eq!(run("alias a b").1, Err(Error::NotAnAlias));
    assert_eq!(run("l r0 r1 On").1, Err(Error::NotADevice));
    assert_eq!(run("l r0 d0 On").1, Err(Error::DeviceUnset));
    assert_eq!(run("s d0 On 1").1, Err(Error::DeviceUnset));
    assert_eq!(run("s d0 On x").1, Err(Error::NotANumber));
    assert_eq!(run("sdse r0 r1").1, Err(Error::NotADevice));
    assert_eq!(run("move sp 512\npeek r0").1, Err(Error::StackRange));
    assert_eq!(run("move sp -1\npush 1").1, Err(Error::StackRange));
    assert_eq!(run("move sp 511\npush 1").1, Err(Error::StackRange));
    assert_eq!(run("move sp 600\npop r0").1, Err(Error::StackRange));
}

#[test]
fn failed_instruction_changes_nothing() {
    let mut ic = ICState::default();
    assert_eq!(one(&mut ic, "move r0 5"), Ok(()));
    assert_eq!(one(&mut ic, "jal nowhere"), Err(Error::NotALineNumber));
    assert_eq!(float(ic.get_ra()), 0.0);
    assert_eq!(one(&mut ic, "move r0 x"), Err(Error::NotANumber));
    assert_eq!(reg(&ic, 0), 5.0);
}

#[test]
fn jump_relative_moves_from_its_own_line() {
    let (ic, result) = run("move r0 1\njr 3\nmove r0 2\nmove r0 3\nmove r1 9\nyield");
    assert_eq!(result, Ok(()));
    assert_eq!(reg(&ic, 0), 1.0);
    assert_eq!(reg(&ic, 1), 9.0);
    assert_eq!(ic.instr_counter(), 4);
}

#[test]
fn jump_to_a_register() {
    let (ic, result) = run("move r3 3\nj r3\nmove r0 1\nyield");
    assert_eq!(result, Ok(()));
    assert_eq!(reg(&ic, 0), 0.0);
    assert!(ic.halt());
}

#[test]
fn jump_behind_the_program_ends_the_tick() {
    let (ic, result) = run("j 100\nyield");
    assert_eq!(result, Ok(()));
    assert!(!ic.halt());
    assert_eq!(ic.next_line(), 100);
    assert_eq!(ic.instr_counter(), 1);
}

#[test]
fn exact_branches() {
    let taken = |line: &str| -> bool {
        let source = format!("move r0 2\nmove r1 3\n{}\nmove r5 1\nyield", line);
        let (ic, result) = run(&source);
        assert_eq!(result, Ok(()), "{}", line);
        reg(&ic, 5) == 0.0
    };
    assert!(taken("blt r0 r1 4"));
    assert!(!taken("blt r1 r0 4"));
    assert!(!taken("blt r0 r0 4"));
    assert!(taken("ble r0 r0 4"));
    assert!(taken("bgt r1 r0 4"));
    assert!(!taken("bgt r0 r1 4"));
    assert!(taken("bge r1 r1 4"));
    assert!(!taken("bge r0 r1 4"));
    assert!(taken("bgtz r0 4"));
    assert!(!taken("bltz r0 4"));
    assert!(taken("bgez 0 4"));
    assert!(taken("blez -0 4"));
    assert!(!taken("bgtz 0 4"));
    assert!(taken("bltz -1 4"));
    assert!(taken("brlt r0 r1 2"));
    assert!(!taken("brgt r0 r1 2"));
    assert!(taken("brgez r0 2"));
}

#[test]
fn approximate_branches() {
    let taken = |line: &str| -> bool {
        let source = format!("move r0 2\nmove r1 3\n{}\nmove r5 1\nyield", line);
        let (ic, result) = run(&source);
        assert_eq!(result, Ok(()), "{}", line);
        reg(&ic, 5) == 0.0
    };
    assert!(taken("beq r0 2 4"));
    assert!(!taken("beq r0 r1 4"));
    assert!(taken("beq 1 1.00000001 4"));
    assert!(taken("bne r0 r1 4"));
    assert!(!taken("bne r0 r0 4"));
    assert!(taken("beqz 0 4"));
    assert!(!taken("beqz r0 4"));
    assert!(taken("bnez r0 4"));
    assert!(!taken("bnez 0 4"));
    assert!(taken("bap r0 r1 1.5 4"));
    assert!(!taken("bap r0 r1 0.5 4"));
    assert!(taken("bna r0 r1 0.5 4"));
    assert!(!taken("bna r0 r1 1.5 4"));
    assert!(taken("bapz 0.25 0.5 4"));
    assert!(!taken("bapz r0 0.5 4"));
    assert!(taken("bnaz r0 0.5 4"));
    assert!(taken("breq r0 2 2"));
    assert!(taken("brne r0 r1 2"));
    assert!(taken("brap r0 r1 1 2"));
    assert!(taken("brnaz r0 1 2"));
}

#[test]
fn linking_branches_write_ra_whether_taken_or_not() {
    let (ic, result) = run("bltal 2 1 3\nyield\nyield\nmove r0 1\nyield");
    assert_eq!(result, Ok(()));
    assert_eq!(float(ic.get_ra()), 1.0);
    assert_eq!(reg(&ic, 0), 0.0);
    let (ic, result) = run("bltal 1 2 3\nyield\nyield\nmove r0 1\nyield");
    assert_eq!(result, Ok(()));
    assert_eq!(float(ic.get_ra()), 1.0);
    assert_eq!(reg(&ic, 0), 1.0);
    let (ic, result) = run("move r9 0\nbeqal 1 2 4\nyield");
    assert_eq!(result, Ok(()));
    assert_eq!(float(ic.get_ra()), 2.0);
    let (ic, result) = run("yield\nyield\nbnezal 1 0");
    assert_eq!(result, Ok(()));
    assert_eq!(float(ic.get_ra()), 0.0);
}

#[test]
fn device_branches_and_selections() {
    let mut ic = ICState::default();
    assert_eq!(ic.try_set_device(Alias::Device(1, true), DeviceType::new("Pump")), Ok(()));
    ic.set_next_line(1);
    assert_eq!(one(&mut ic, "bdse d1 9"), Ok(()));
    assert_eq!(ic.next_line(), 9);
    assert_eq!(one(&mut ic, "bdse d0 3"), Ok(()));
    assert_eq!(ic.next_line(), 9);
    assert_eq!(one(&mut ic, "bdns d0 3"), Ok(()));
    assert_eq!(ic.next_line(), 3);
    assert_eq!(one(&mut ic, "brdns d0 4"), Ok(()));
    assert_eq!(ic.next_line(), 6);
    assert_eq!(one(&mut ic, "bdnsal d1 0"), Ok(()));
    assert_eq!(ic.next_line(), 6);
    assert_eq!(float(ic.get_ra()), 6.0);
    assert_eq!(one(&mut ic, "sdse r0 d1"), Ok(()));
    assert_eq!(one(&mut ic, "sdns r1 d1"), Ok(()));
    assert_eq!(one(&mut ic, "sdse r2 d0"), Ok(()));
    assert_eq!(one(&mut ic, "sdns r3 d0"), Ok(()));
    assert_eq!((reg(&ic, 0), reg(&ic, 1), reg(&ic, 2), reg(&ic, 3)), (1.0, 0.0, 0.0, 1.0));
}

#[test]
fn selections_leave_zero_or_one() {
    let value = |line: &str| -> u32 {
        let mut ic = ICState::default();
        assert_eq!(one(&mut ic, "move r0 2"), Ok(()));
        assert_eq!(one(&mut ic, "move r1 3"), Ok(()));
        assert_eq!(one(&mut ic, "move r9 55"), Ok(()));
        assert_eq!(one(&mut ic, line), Ok(()), "{}", line);
        ic.registers()[9].to_bits()
    };
    let yes = 1.0f32.to_bits();
    let no = 0;
    assert_eq!(value("slt r9 r0 r1"), yes);
    assert_eq!(value("slt r9 r1 r0"), no);
    assert_eq!(value("sle r9 r0 r0"), yes);
    assert_eq!(value("sgt r9 r0 r1"), no);
    assert_eq!(value("sge r9 r1 r0"), yes);
    assert_eq!(value("sgtz r9 r0"), yes);
    assert_eq!(value("sltz r9 r0"), no);
    assert_eq!(value("sgez r9 -1"), no);
    assert_eq!(value("slez r9 0"), yes);
    assert_eq!(value("seq r9 r0 2"), yes);
    assert_eq!(value("seq r9 r0 r1"), no);
    assert_eq!(value("sne r9 r0 r1"), yes);
    assert_eq!(value("sne r9 r0 r0"), no);
    assert_eq!(value("seqz r9 0"), yes);
    assert_eq!(value("seqz r9 r0"), no);
    assert_eq!(value("snez r9 r0"), yes);
    assert_eq!(value("sap r9 r0 r1 1"), yes);
    assert_eq!(value("sap r9 r0 r1 0.5"), no);
    assert_eq!(value("sna r9 r0 r1 0.5"), yes);
    assert_eq!(value("sapz r9 0.1 0.5"), yes);
    assert_eq!(value("snaz r9 0.1 0.5"), no);
}

#[test]
fn flag_completion_leaves_zero_or_one_whatever_the_answer() {
    for answer in [0.0f32, 1.0, 0.3, -4.0, 77.0, f32::NAN, f32::INFINITY] {
        for negate in [false, true] {
            let mut ic = ICState::default();
            let dest = Alias::Register(2, true);
            assert_eq!(Completion::Flag { dest, negate }.apply(&mut ic, num(answer)), Ok(()));
            let expected = if (answer > 0.0) != negate { 1.0f32 } else { 0.0 };
            assert_eq!(ic.registers()[2].to_bits(), expected.to_bits());
        }
    }
}

#[test]
fn select_takes_the_second_where_the_first_is_zero() {
    let (ic, result) = run("select r0 0 5 6\nselect r1 1 5 6\nselect r2 0.00000001 5 6\nyield");
    assert_eq!(result, Ok(()));
    assert_eq!((reg(&ic, 0), reg(&ic, 1), reg(&ic, 2)), (5.0, 6.0, 5.0));
}

#[test]
fn approximate_equality_is_symmetric() {
    let pairs = [(1.0f32, 1.0000001f32), (0.0, 1.0e-8), (2.0, 3.0), (-1.0, 1.0), (1.0e10, 1.0000001e10)];
    for (a, b) in pairs {
        for tolerance in [None, Some(num(0.5)), Some(num(2.0))] {
            let forth = float_unit(Request::Approx(num(a), num(b), tolerance));
            let back = float_unit(Request::Approx(num(b), num(a), tolerance));
            assert_eq!(forth, back, "{} {}", a, b);
        }
    }
}

#[test]
fn arithmetic() {
    let value = |line: &str| -> f32 {
        let mut ic = ICState::default();
        assert_eq!(one(&mut ic, line), Ok(()), "{}", line);
        reg(&ic, 0)
    };
    assert_eq!(value("add r0 1.5 2"), 3.5);
    assert_eq!(value("sub r0 1.5 2"), -0.5);
    assert_eq!(value("mul r0 1.5 2"), 3.0);
    assert_eq!(value("div r0 3 2"), 1.5);
    assert_eq!(value("div r0 1 0"), f32::INFINITY);
    assert_eq!(value("mod r0 7 3"), 1.0);
    assert_eq!(value("mod r0 -7 3"), -1.0);
    assert_eq!(value("mod r0 7 -3"), 1.0);
    assert_eq!(value("max r0 2 3"), 3.0);
    assert_eq!(value("min r0 2 3"), 2.0);
    assert_eq!(value("abs r0 -2.5"), 2.5);
    assert_eq!(value("ceil r0 2.1"), 3.0);
    assert_eq!(value("floor r0 -2.1"), -3.0);
    assert_eq!(value("round r0 2.5"), 3.0);
    assert_eq!(value("trunc r0 -2.9"), -2.0);
    assert_eq!(value("sqrt r0 9"), 3.0);
    assert_eq!(value("exp r0 0"), 1.0);
    assert_eq!(value("log r0 1"), 0.0);
    assert_eq!(value("sin r0 0"), 0.0);
    assert_eq!(value("cos r0 0"), 1.0);
    assert_eq!(value("tan r0 0"), 0.0);
    assert_eq!(value("asin r0 0"), 0.0);
    assert_eq!(value("acos r0 1"), 0.0);
    assert_eq!(value("atan r0 0"), 0.0);
    assert!((value("log r0 2.7182817") - 1.0).abs() < 1e-6);
    assert!(value("sqrt r0 -1").is_nan());
}

#[test]
fn rand_is_at_least_zero_and_below_one() {
    for _ in 0..200 {
        let mut ic = ICState::default();
        assert_eq!(one(&mut ic, "move r0 5"), Ok(()));
        assert_eq!(one(&mut ic, "rand r0"), Ok(()));
        let x = reg(&ic, 0);
        assert!((0.0..1.0).contains(&x));
    }
}

#[test]
fn logic_takes_numbers_above_zero_for_true() {
    let value = |line: &str| -> f32 {
        let mut ic = ICState::default();
        assert_eq!(one(&mut ic, "move r0 7"), Ok(()));
        assert_eq!(one(&mut ic, line), Ok(()), "{}", line);
        reg(&ic, 0)
    };
    for (a, b) in [(0.0f32, 0.0f32), (0.0, 2.0), (0.5, 0.0), (3.0, 1.0), (-1.0, 1.0), (-1.0, -2.0)] {
        let (x, y) = (a > 0.0, b > 0.0);
        let flag = |t: bool| if t { 1.0 } else { 0.0 };
        assert_eq!(value(&format!("and r0 {} {}", a, b)), flag(x && y));
        assert_eq!(value(&format!("or r0 {} {}", a, b)), flag(x || y));
        assert_eq!(value(&format!("nor r0 {} {}", a, b)), flag(!(x || y)));
        assert_eq!(value(&format!("xor r0 {} {}", a, b)), flag(x != y));
    }
    assert_eq!(value("xor r0 1 1"), 0.0);
}

#[test]
fn peek_leaves_the_stack_pointer() {
    let (ic, result) = run("push 4\npeek r0\npeek r1\nyield");
    assert_eq!(result, Ok(()));
    assert_eq!((reg(&ic, 0), reg(&ic, 1)), (4.0, 4.0));
    assert_eq!(float(ic.get_sp()), 1.0);
}

#[test]
fn pop_into_the_stack_pointer() {
    let (ic, result) = run("push 3\npop sp\nyield");
    assert_eq!(result, Ok(()));
    assert_eq!(float(ic.get_sp()), 3.0);
}

#[test]
fn load_and_store_device_parameters() {
    let lines = program("s d0 Setting 12\nl r0 d0 Setting\nl r1 d0 Other\nalias pump d0\ns pump On 1\nl r2 pump On\nyield");
    let mut ic = ICState::default();
    assert_eq!(ic.try_set_device(Alias::Device(0, true), DeviceType::new("Pump")), Ok(()));
    assert_eq!(tick(&mut ic, &lines), Ok(()));
    assert_eq!((reg(&ic, 0), reg(&ic, 1), reg(&ic, 2)), (12.0, 0.0, 1.0));
    assert_eq!(ic.try_get_device_param(Alias::Device(0, true), "On"), Ok(num(1.0)));
}

#[test]
fn batch_and_detail_loads_check_their_arguments_only() {
    let (ic, result) = run("move r0 5\nlb r0 1 Setting 0\nsb 1 Setting 2\nlr r0 d0 0 Iron\nls r0 d0 0 Quantity\nyield");
    assert_eq!(result, Ok(()));
    assert_eq!(reg(&ic, 0), 5.0);
    assert_eq!(ic.instr_counter(), 6);
    assert_eq!(run("lb d0 1 Setting 0").1, Err(Error::NotARegister));
    assert_eq!(run("lb r0 x Setting 0").1, Err(Error::NotANumber));
    assert_eq!(run("lb r0 1 Setting x").1, Err(Error::NotANumber));
    assert_eq!(run("sb x Setting 2").1, Err(Error::NotANumber));
    assert_eq!(run("lr r0 r1 0 Iron").1, Err(Error::NotADevice));
    assert_eq!(run("ls r0 d0 x Quantity").1, Err(Error::NotANumber));
}

#[test]
fn sleep_and_hcf_halt() {
    let (ic, result) = run("sleep 5\nmove r0 1");
    assert_eq!(result, Ok(()));
    assert!(ic.halt());
    assert_eq!(reg(&ic, 0), 0.0);
    let (ic, result) = run("hcf\nmove r0 1");
    assert_eq!(result, Ok(()));
    assert!(ic.halt());
    assert_eq!(ic.instr_counter(), 1);
    assert_eq!(run("sleep x").1, Err(Error::NotANumber));
}

#[test]
fn straight_program_runs_each_line_once() {
    let source = "move r0 1\nadd r1 r0 r0\npush r1\npop r2\nseq r3 r1 r2\nsgt r4 r1 r0\ndefine two 2\nalias t r5\nmove t two";
    let (ic, result) = run(source);
    assert_eq!(result, Ok(()));
    assert_eq!(ic.instr_counter(), 9);
    assert_eq!(ic.next_line(), 9);
    assert_eq!((reg(&ic, 2), reg(&ic, 3), reg(&ic, 4), reg(&ic, 5)), (2.0, 1.0, 1.0, 2.0));
}

#[test]
fn countdown_loop() {
    let source = "move r0 5\nmove r1 0\nloop:\nadd r1 r1 r0\nsub r0 r0 1\nbgtz r0 loop\nyield";
    let (ic, result) = run(source);
    assert_eq!(result, Ok(()));
    assert_eq!(reg(&ic, 1), 15.0);
    assert_eq!(reg(&ic, 0), 0.0);
    assert!(ic.halt());
    assert_eq!(ic.instr_counter(), 2 + 5 * 4 + 1);
}
