use stationeers_mips::alias::Alias;
use stationeers_mips::device::{Device, DeviceType};
use stationeers_mips::error::Error;
use stationeers_mips::ic::ICState;
use stationeers_mips::lexer::{label_of, tokenize, Token};
use stationeers_mips::opcode::{decode, Opcode, Relation, Test};
use stationeers_mips::table::SymbolTable;
use stationeers_mips::text::{decimal, numbered, same_text};
use stationeers_mips::unit::{BinaryOp, UnaryOp};
use stationeers_mips::value::Value;

fn n(x: f32) -> Value {
    Value::from_bits(x.to_bits())
}

fn word(text: &str) -> Token {
    Token::new(text, text.parse::<f32>().ok().map(n))
}

#[test]
fn device_index_of_a_device() {
    assert_eq!(Alias::Device(3, true).device_index(), Ok(3));
    assert_eq!(Alias::Register(3, true).device_index(), Err(Error::NotADevice));
}

#[test]
fn register_index_of_a_register() {
    assert_eq!(Alias::Register(5, false).register_index(), Ok(5));
    assert_eq!(Alias::Device(5, false).register_index(), Err(Error::NotARegister));
}

#[test]
fn decimal_writes_numbers() {
    assert_eq!(decimal(0), "0");
    assert_eq!(decimal(7), "7");
    assert_eq!(decimal(10), "10");
    assert_eq!(decimal(15), "15");
    assert_eq!(decimal(1203), "1203");
    assert_eq!(decimal(usize::MAX), usize::MAX.to_string());
    assert_eq!(numbered("r", 12), "r12");
}

#[test]
fn same_text_compares_characters() {
    assert!(same_text("abc", "abc"));
    assert!(!same_text("abc", "abd"));
    assert!(!same_text("abc", "ab"));
    assert!(same_text("", ""));
    assert!(same_text("é", "é"));
    assert!(!same_text("é", "e"));
}

#[test]
fn table_binds_and_rebinds() {
    let mut table: SymbolTable<usize> = SymbolTable::new();
    assert_eq!(table.get("a"), None);
    table.insert("a", 1);
    table.insert("b", 2);
    table.insert("a", 3);
    assert_eq!(table.get("a"), Some(3));
    assert_eq!(table.get("b"), Some(2));
    assert_eq!(table.get("c"), None);
    assert_eq!(table.entries(), vec![("a".to_string(), 3), ("b".to_string(), 2)]);
}

#[test]
fn new_machine_is_zero() {
    let ic = ICState::new(6, 16, 512, 128);
    let registers = ic.registers();
    assert_eq!(registers.len(), 18);
    assert!(registers.iter().all(|r| r.to_bits() == 0));
    assert_eq!(ic.instr_per_tick(), 128);
    assert_eq!(ic.instr_counter(), 0);
    assert_eq!(ic.next_line(), 0);
    assert!(!ic.halt());
    assert!(ic.user_aliases().is_empty());
    assert!(ic.definitions().is_empty());
    assert!(ic.labels().is_empty());
}

#[test]
fn default_machine_is_the_machine_of_the_game() {
    let ic = ICState::default();
    assert_eq!(ic.registers().len(), 18);
    assert_eq!(ic.instr_per_tick(), 128);
    assert_eq!(ic.try_alias("d5"), Ok(Alias::Device(5, true)));
    assert_eq!(ic.try_alias("d6"), Err(Error::NotAnAlias));
    assert_eq!(ic.try_alias("r15"), Ok(Alias::Register(15, true)));
    assert_eq!(ic.try_alias("r16"), Err(Error::NotAnAlias));
}

#[test]
fn ra_and_sp_are_the_last_two_registers() {
    let mut ic = ICState::new(2, 4, 8, 128);
    assert_eq!(ic.registers().len(), 6);
    assert_eq!(ic.try_register("ra"), Ok(Alias::Register(4, true)));
    assert_eq!(ic.try_register("sp"), Ok(Alias::Register(5, true)));
    ic.set_ra(n(11.0));
    ic.set_sp(n(3.0));
    let registers = ic.registers();
    assert_eq!(registers[4], n(11.0));
    assert_eq!(registers[5], n(3.0));
    assert_eq!(ic.get_ra(), n(11.0));
    assert_eq!(ic.get_sp(), n(3.0));
    assert_eq!(ic.try_number(&word("ra")), Ok(n(11.0)));
    assert_eq!(ic.try_number(&word("sp")), Ok(n(3.0)));
}

#[test]
fn machine_without_numbered_registers() {
    let ic = ICState::new(0, 0, 0, 1);
    assert_eq!(ic.registers().len(), 2);
    assert_eq!(ic.try_register("ra"), Ok(Alias::Register(0, true)));
    assert_eq!(ic.try_register("sp"), Ok(Alias::Register(1, true)));
    assert_eq!(ic.try_peek(), Err(Error::StackRange));
}

#[test]
fn resolvers_tell_the_kinds_apart() {
    let ic = ICState::default();
    assert_eq!(ic.try_alias("r3"), Ok(Alias::Register(3, true)));
    assert_eq!(ic.try_alias("d1"), Ok(Alias::Device(1, true)));
    assert_eq!(ic.try_alias("x"), Err(Error::NotAnAlias));
    assert_eq!(ic.try_register("r3"), Ok(Alias::Register(3, true)));
    assert_eq!(ic.try_register("d1"), Err(Error::NotARegister));
    assert_eq!(ic.try_register("x"), Err(Error::NotARegister));
    assert_eq!(ic.try_device("d1"), Ok(Alias::Device(1, true)));
    assert_eq!(ic.try_device("r3"), Err(Error::NotADevice));
    assert_eq!(ic.try_device("x"), Err(Error::NotADevice));
}

#[test]
fn number_prefers_register_then_literal_then_definition() {
    let mut ic = ICState::default();
    assert_eq!(ic.set_register(Alias::Register(1, true), n(2.5)), Ok(()));
    ic.add_definition("pi", n(3.14));
    ic.add_definition("r1", n(100.0));
    ic.add_definition("7", n(100.0));
    assert_eq!(ic.try_number(&word("r1")), Ok(n(2.5)));
    assert_eq!(ic.try_number(&word("7")), Ok(n(7.0)));
    assert_eq!(ic.try_number(&word("-1e2")), Ok(n(-100.0)));
    assert_eq!(ic.try_number(&word("pi")), Ok(n(3.14)));
    assert_eq!(ic.try_number(&word("tau")), Err(Error::NotANumber));
    assert_eq!(ic.try_number(&word("d0")), Err(Error::NotANumber));
}

#[test]
fn line_number_prefers_register_then_literal_then_label() {
    let mut ic = ICState::default();
    assert_eq!(ic.set_register(Alias::Register(1, true), n(2.9)), Ok(()));
    ic.add_label("loop", 12);
    ic.add_label("r1", 100);
    assert_eq!(ic.try_line_number(&word("r1")), Ok(2));
    assert_eq!(ic.try_line_number(&word("7.8")), Ok(7));
    assert_eq!(ic.try_line_number(&word("-3")), Ok(0));
    assert_eq!(ic.try_line_number(&word("loop")), Ok(12));
    assert_eq!(ic.try_line_number(&word("end")), Err(Error::NotALineNumber));
}

#[test]
fn set_register_checks_kind_and_range() {
    let mut ic = ICState::new(2, 4, 8, 128);
    assert_eq!(ic.set_register(Alias::Register(3, false), n(1.0)), Ok(()));
    assert_eq!(ic.get_register(Alias::Register(3, true)), Ok(n(1.0)));
    assert_eq!(ic.set_register(Alias::Register(6, false), n(1.0)), Err(Error::RegisterRange));
    assert_eq!(ic.set_register(Alias::Device(0, false), n(1.0)), Err(Error::NotARegister));
    assert_eq!(ic.get_register(Alias::Register(6, true)), Err(Error::RegisterRange));
    assert_eq!(ic.get_register(Alias::Device(0, true)), Err(Error::NotARegister));
}

#[test]
fn add_alias_marks_the_alias_as_defined_by_a_program() {
    let mut ic = ICState::default();
    assert_eq!(ic.add_alias("pump", Alias::Device(2, true)), Ok(()));
    assert_eq!(ic.add_alias("count", Alias::Register(7, true)), Ok(()));
    assert_eq!(ic.try_alias("pump"), Ok(Alias::Device(2, false)));
    assert_eq!(ic.try_alias("count"), Ok(Alias::Register(7, false)));
    assert_eq!(
        ic.user_aliases(),
        vec![
            ("pump".to_string(), Alias::Device(2, false)),
            ("count".to_string(), Alias::Register(7, false))
        ]
    );
}

#[test]
fn add_alias_refuses_what_points_outside() {
    let mut ic = ICState::default();
    assert_eq!(ic.add_alias("x", Alias::Device(6, false)), Err(Error::DeviceRange));
    assert_eq!(ic.add_alias("x", Alias::Register(18, false)), Err(Error::RegisterRange));
    assert_eq!(ic.try_alias("x"), Err(Error::NotAnAlias));
}

#[test]
fn alias_can_rebind_a_factory_name() {
    let mut ic = ICState::default();
    assert_eq!(ic.add_alias("r0", Alias::Register(3, true)), Ok(()));
    assert_eq!(ic.try_alias("r0"), Ok(Alias::Register(3, false)));
    assert_eq!(ic.user_aliases(), vec![("r0".to_string(), Alias::Register(3, false))]);
}

#[test]
fn definitions_and_labels_are_listed() {
    let mut ic = ICState::default();
    ic.add_definition("a", n(1.0));
    ic.add_definition("b", n(2.0));
    ic.add_definition("a", n(3.0));
    ic.add_label("start", 0);
    ic.add_label("end", 9);
    assert_eq!(ic.definitions(), vec![("a".to_string(), n(3.0)), ("b".to_string(), n(2.0))]);
    assert_eq!(ic.labels(), vec![("start".to_string(), 0), ("end".to_string(), 9)]);
}

#[test]
fn devices_start_unset() {
    let mut ic = ICState::default();
    let d0 = Alias::Device(0, true);
    assert_eq!(ic.is_device_set(d0), Ok(false));
    assert!(matches!(ic.get_device(d0), Ok(Device::Unset)));
    assert_eq!(ic.try_get_device_param(d0, "On"), Err(Error::DeviceUnset));
    assert_eq!(ic.try_set_device_param(d0, "On", n(1.0)), Err(Error::DeviceUnset));
    assert_eq!(ic.is_device_set(Alias::Device(6, true)), Err(Error::DeviceRange));
    assert_eq!(ic.is_device_set(Alias::Register(0, true)), Err(Error::NotADevice));
    assert!(matches!(ic.get_device(Alias::Device(9, true)), Err(Error::DeviceRange)));
}

#[test]
fn device_parameters_are_stored_and_default_to_zero() {
    let mut ic = ICState::default();
    let d1 = Alias::Device(1, true);
    assert_eq!(ic.try_set_device(d1, DeviceType::new("Pump")), Ok(()));
    assert_eq!(ic.is_device_set(d1), Ok(true));
    assert!(matches!(ic.get_device(d1), Ok(Device::Installed(_))));
    assert_eq!(ic.try_get_device_param(d1, "Setting"), Ok(n(0.0)));
    assert_eq!(ic.try_set_device_param(d1, "Setting", n(42.5)), Ok(()));
    assert_eq!(ic.try_get_device_param(d1, "Setting"), Ok(n(42.5)));
    assert_eq!(ic.try_get_device_param(d1, "On"), Ok(n(0.0)));
    assert_eq!(ic.is_device_set(Alias::Device(0, true)), Ok(false));
    assert_eq!(ic.try_set_device(Alias::Device(6, true), DeviceType::new("Pump")), Err(Error::DeviceRange));
    assert_eq!(ic.try_set_device(Alias::Register(0, true), DeviceType::new("Pump")), Err(Error::NotADevice));
    assert_eq!(ic.try_get_device_param(Alias::Register(0, true), "On"), Err(Error::NotADevice));
    assert_eq!(ic.try_set_device_param(Alias::Device(7, true), "On", n(1.0)), Err(Error::DeviceRange));
}

#[test]
fn device_type_keeps_its_parameters() {
    let mut pump = DeviceType::new("Pump");
    assert_eq!(pump.get_param("On"), n(0.0));
    pump.set_param("On", n(1.0));
    pump.set_param("Setting", n(5.0));
    pump.set_param("On", n(0.5));
    assert_eq!(pump.get_param("On"), n(0.5));
    assert_eq!(pump.get_param("Setting"), n(5.0));
}

#[test]
fn branch_helper_absolute() {
    let mut ic = ICState::default();
    ic.set_next_line(5);
    ic.branch_helper(20, true, false, false);
    assert_eq!(ic.next_line(), 20);
    assert_eq!(ic.get_ra(), n(0.0));
    ic.branch_helper(3, false, false, false);
    assert_eq!(ic.next_line(), 20);
}

#[test]
fn branch_helper_relative_moves_by_offset_less_one() {
    let mut ic = ICState::default();
    ic.set_next_line(5);
    ic.branch_helper(4, true, true, false);
    assert_eq!(ic.next_line(), 8);
    ic.branch_helper(0, true, true, false);
    assert_eq!(ic.next_line(), 7);
    ic.branch_helper(1, true, true, false);
    assert_eq!(ic.next_line(), 7);
}

#[test]
fn branch_helper_relative_stays_within_range() {
    let mut ic = ICState::default();
    ic.set_next_line(0);
    ic.branch_helper(0, true, true, false);
    assert_eq!(ic.next_line(), 0);
    ic.set_next_line(usize::MAX - 1);
    ic.branch_helper(5, true, true, false);
    assert_eq!(ic.next_line(), usize::MAX);
}

#[test]
fn branch_helper_links_whether_taken_or_not() {
    let mut ic = ICState::default();
    ic.set_next_line(6);
    ic.branch_helper(2, false, false, true);
    assert_eq!(ic.get_ra(), n(6.0));
    assert_eq!(ic.next_line(), 6);
    ic.set_next_line(9);
    ic.branch_helper(2, true, false, true);
    assert_eq!(ic.get_ra(), n(9.0));
    assert_eq!(ic.next_line(), 2);
}

#[test]
fn peek_reads_the_cell_under_the_stack_pointer() {
    let mut ic = ICState::new(0, 0, 4, 128);
    assert_eq!(ic.try_peek(), Ok(n(0.0)));
    assert_eq!(ic.try_push(n(1.0), n(8.0)), Ok(()));
    assert_eq!(ic.try_peek(), Ok(n(8.0)));
    assert_eq!(ic.get_sp(), n(1.0));
}

#[test]
fn push_then_pop_gives_the_value_back() {
    let mut ic = ICState::new(0, 0, 4, 128);
    assert_eq!(ic.try_push(n(1.0), n(5.0)), Ok(()));
    assert_eq!(ic.try_push(n(2.0), n(7.0)), Ok(()));
    assert_eq!(ic.try_pop(n(1.0)), Ok(n(7.0)));
    assert_eq!(ic.try_pop(n(0.0)), Ok(n(5.0)));
    assert_eq!(ic.get_sp(), n(0.0));
}

#[test]
fn stack_pointer_is_cut_to_its_whole_part() {
    let mut ic = ICState::new(0, 0, 4, 128);
    ic.set_sp(n(2.5));
    assert_eq!(ic.try_push(n(3.5), n(9.0)), Ok(()));
    ic.set_sp(n(3.0));
    assert_eq!(ic.try_peek(), Ok(n(9.0)));
    ic.set_sp(n(-0.0));
    assert_eq!(ic.try_peek(), Ok(n(0.0)));
}

#[test]
fn stack_refuses_a_pointer_out_of_range() {
    let mut ic = ICState::new(0, 0, 4, 128);
    ic.set_sp(n(4.0));
    assert_eq!(ic.try_peek(), Err(Error::StackRange));
    assert_eq!(ic.try_pop(n(3.0)), Err(Error::StackRange));
    assert_eq!(ic.try_push(n(5.0), n(1.0)), Err(Error::StackRange));
    assert_eq!(ic.get_sp(), n(4.0));
    ic.set_sp(n(-1.0));
    assert_eq!(ic.try_peek(), Err(Error::StackRange));
    ic.set_sp(n(f32::NAN));
    assert_eq!(ic.try_peek(), Err(Error::StackRange));
    ic.set_sp(n(-0.5));
    assert_eq!(ic.try_pop(n(0.0)), Err(Error::StackRange));
}

#[test]
fn push_refuses_to_leave_the_stack() {
    let mut ic = ICState::new(0, 0, 4, 128);
    ic.set_sp(n(3.0));
    assert_eq!(ic.try_push(n(4.0), n(1.0)), Err(Error::StackRange));
    assert_eq!(ic.get_sp(), n(3.0));
    assert_eq!(ic.try_peek(), Ok(n(0.0)));
}

#[test]
fn pop_below_the_stack_is_refused_next_time() {
    let mut ic = ICState::new(0, 0, 4, 128);
    assert_eq!(ic.try_pop(n(-1.0)), Ok(n(0.0)));
    assert_eq!(ic.get_sp(), n(-1.0));
    assert_eq!(ic.try_pop(n(-2.0)), Err(Error::StackRange));
}

#[test]
fn tokenize_splits_at_every_space() {
    let texts = |line: &str| -> Vec<String> { tokenize(line).into_iter().map(|t| t.text).collect() };
    assert_eq!(texts("add r2 r0 r1"), vec!["add", "r2", "r0", "r1"]);
    assert_eq!(texts("yield"), vec!["yield"]);
    assert_eq!(texts(""), vec![""]);
    assert_eq!(texts("a  b"), vec!["a", "", "b"]);
    assert_eq!(texts(" a"), vec!["", "a"]);
    assert_eq!(texts("a "), vec!["a", ""]);
    assert_eq!(texts("a\tb"), vec!["a\tb"]);
    assert_eq!(texts("é ü"), vec!["é", "ü"]);
    assert!(tokenize("move r0 3").iter().all(|t| t.number.is_none()));
}

#[test]
fn label_is_a_name_before_a_colon() {
    assert_eq!(label_of("start:"), Some("start".to_string()));
    assert_eq!(label_of("_a1:"), Some("_a1".to_string()));
    assert_eq!(label_of("9:"), Some("9".to_string()));
    assert_eq!(label_of("a:b"), Some("a".to_string()));
    assert_eq!(label_of("start"), None);
    assert_eq!(label_of(":"), None);
    assert_eq!(label_of(""), None);
    assert_eq!(label_of("a-b:"), None);
    assert_eq!(label_of("a :"), None);
}

#[test]
fn decode_knows_the_families() {
    assert_eq!(decode("j"), Some(Opcode::Jump { relative: false, link: false }));
    assert_eq!(decode("jal"), Some(Opcode::Jump { relative: false, link: true }));
    assert_eq!(decode("jr"), Some(Opcode::Jump { relative: true, link: false }));
    assert_eq!(
        decode("beq"),
        Some(Opcode::Branch { test: Test::Numbers(Relation::Eq), relative: false, link: false })
    );
    assert_eq!(
        decode("bgezal"),
        Some(Opcode::Branch { test: Test::Zero(Relation::Ge), relative: false, link: true })
    );
    assert_eq!(
        decode("brnaz"),
        Some(Opcode::Branch { test: Test::Zero(Relation::Na), relative: true, link: false })
    );
    assert_eq!(
        decode("bdseal"),
        Some(Opcode::Branch { test: Test::DeviceSet, relative: false, link: true })
    );
    assert_eq!(decode("sdns"), Some(Opcode::Flag(Test::DeviceUnset)));
    assert_eq!(decode("sltz"), Some(Opcode::Flag(Test::Zero(Relation::Lt))));
    assert_eq!(decode("sap"), Some(Opcode::Flag(Test::Numbers(Relation::Ap))));
    assert_eq!(decode("select"), Some(Opcode::Select));
    assert_eq!(decode("log"), Some(Opcode::Unary(UnaryOp::Log)));
    assert_eq!(decode("mod"), Some(Opcode::Binary(BinaryOp::Mod)));
    assert_eq!(decode("yield"), Some(Opcode::Halt));
    assert_eq!(decode("hcf"), Some(Opcode::Halt));
    assert_eq!(decode("s"), Some(Opcode::Store));
    assert_eq!(decode("l"), Some(Opcode::Load));
    assert_eq!(decode("breqal"), None);
    assert_eq!(decode("ADD"), None);
    assert_eq!(decode(""), None);
}

#[test]
fn every_mnemonic_takes_the_arguments_of_its_family() {
    let table: [(&str, usize); 20] = [
        ("j", 1),
        ("beq", 3),
        ("beqz", 2),
        ("bap", 4),
        ("bapz", 3),
        ("bdns", 2),
        ("seq", 3),
        ("snez", 2),
        ("sna", 4),
        ("snaz", 3),
        ("sdse", 2),
        ("select", 4),
        ("abs", 2),
        ("add", 3),
        ("rand", 1),
        ("xor", 3),
        ("push", 1),
        ("hcf", 0),
        ("lb", 4),
        ("sb", 3),
    ];
    for (name, count) in table.iter() {
        assert_eq!(decode(name).map(|op| op.argument_count()), Some(*count), "{}", name);
    }
}
