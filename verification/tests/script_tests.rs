use rsengine::math_ops::{apply_math_opcode, execute_math_opcode, get_math_ops};
use rsengine::packet::Packet;
use rsengine::script_file::{is_large_operand, ScriptFile};
use rsengine::script_opcode::{
    ADD, BRANCH_EQUALS, DIVIDE, GOSUB_WITH_PARAMS, JOIN_STRING, MES, MODULO, POP_INT_LOCAL,
    PUSH_CONSTANT_INT, PUSH_CONSTANT_STRING, PUSH_INT_LOCAL, RANDOM, RANDOMINC, RETURN,
    SETBIT_RANGE, SUB,
};
use rsengine::script_ops::{get_core_ops, get_player_ops};
use rsengine::script_pointer::{checked_handler, PointerCheck, ScriptPointer};
use rsengine::script_provider::ScriptProvider;
use rsengine::script_runner::ScriptRunner;
use rsengine::script_state::{
    EntityType, ScriptArgument, ScriptState, ABORTED, FINISHED, RUNNING,
};

fn script_with(opcodes: Vec<u16>, int_operands: Vec<i32>) -> ScriptFile {
    let mut script = ScriptFile::new(7);
    let n = opcodes.len();
    script.opcodes = opcodes;
    script.int_operands = int_operands;
    script.string_operands = vec![String::new(); n];
    script
}

fn compiled_return_script() -> Vec<u8> {
    vec![
        b't', 0, b's', 0, // name, source
        0, 0, 0, 5, // lookup key
        0, // parameter types
        0, 0, // line table
        0, 21, 0, // RETURN with its one-byte operand
        0, 0, 0, 1, // instruction count
        0, 1, 0, 2, 0, 3, 0, 4, // locals and arguments
        0, // switch tables
        0, 1, // trailer length
    ]
}

#[test]
fn decode_reads_header_trailer_and_instructions() {
    let script = ScriptFile::decode(3, Packet::from(compiled_return_script()));
    assert_eq!(script.id, 3);
    assert_eq!(script.name(), "t");
    assert_eq!(script.info.source_file_path, "s");
    assert_eq!(script.info.lookup_key, 5);
    assert_eq!(script.opcodes, vec![RETURN]);
    assert_eq!(script.int_operands, vec![0]);
    assert_eq!(script.int_local_count, 1);
    assert_eq!(script.string_local_count, 2);
    assert_eq!(script.int_arg_count, 3);
    assert_eq!(script.string_arg_count, 4);
    assert!(script.switch_tables.is_empty());
}

#[test]
fn new_and_default_scripts_are_unknown() {
    let script = ScriptFile::new(9);
    assert_eq!(script.id, 9);
    assert_eq!(script.name(), "<unknown>");
    let fallback = ScriptFile::default();
    assert_eq!(fallback.id, -1);
    assert_eq!(fallback.info.lookup_key, -1);
}

#[test]
fn file_name_is_last_path_component() {
    let mut script = ScriptFile::new(1);
    script.info.source_file_path = "scripts/area/thing.rs2".to_string();
    assert_eq!(script.file_name(), Some("thing.rs2".to_string()));
}

#[test]
fn file_name_of_plain_and_bare_paths() {
    let mut script = ScriptFile::new(1);
    script.info.source_file_path = "thing.rs2".to_string();
    assert_eq!(script.file_name(), Some("thing.rs2".to_string()));
    script.info.source_file_path = "/abs/dir/x.rs2".to_string();
    assert_eq!(script.file_name(), Some("x.rs2".to_string()));
    script.info.source_file_path = String::new();
    assert_eq!(script.file_name(), None);
    script.info.source_file_path = "a/..".to_string();
    assert_eq!(script.file_name(), None);
}

#[test]
fn line_number_looks_up_previous_entry() {
    let mut script = ScriptFile::new(1);
    script.info.pcs = vec![0, 5, 9];
    script.info.lines = vec![10, 20, 30];
    assert_eq!(script.line_number(5), 10);
    assert_eq!(script.line_number(9), 20);
    assert_eq!(script.line_number(0), 30);
    assert_eq!(script.line_number(7), 30);
    assert_eq!(ScriptFile::new(2).line_number(3), 0);
}

#[test]
fn large_operands() {
    assert!(is_large_operand(PUSH_CONSTANT_INT as i32));
    assert!(!is_large_operand(RETURN as i32));
    assert!(!is_large_operand(4600));
}

#[test]
fn integer_stack_push_then_pop() {
    let mut state = ScriptState::new(ScriptFile::new(0), None);
    state.push_int(4);
    state.push_int(9);
    assert_eq!(state.pop_int(), 9);
    assert_eq!(state.pop_int(), 4);
    assert_eq!(state.isp, 0);
}

#[test]
fn string_stack_push_then_pop() {
    let mut state = ScriptState::new(ScriptFile::new(0), None);
    state.push_string("a".to_string());
    state.push_string("b".to_string());
    assert_eq!(state.pop_strings(2), vec!["b".to_string(), "a".to_string()]);
    assert_eq!(state.ssp, 0);
}

#[test]
fn arguments_become_locals() {
    let mut script = ScriptFile::new(0);
    script.int_local_count = 2;
    script.string_local_count = 1;
    let args = vec![ScriptArgument::Number(5), ScriptArgument::String("x".to_string())];
    let state = ScriptState::new(script, Some(args));
    assert_eq!(state.int_locals[0], 5);
    assert_eq!(state.string_locals[0], "x");
    assert_eq!(state.execution, RUNNING);
    assert_eq!(state.pc, -1);
}

#[test]
fn runner_finishes_at_return() {
    let script = script_with(vec![PUSH_CONSTANT_INT, PUSH_CONSTANT_INT, RETURN], vec![2, 3, 0]);
    let mut state = ScriptState::new(script, None);
    let provider = ScriptProvider::new();
    let mut outbox = Vec::new();
    let result = ScriptRunner::execute(&mut state, &provider, false, false, &mut outbox);
    assert_eq!(result, FINISHED);
    assert_eq!(state.isp, 2);
    assert_eq!(state.pop_int(), 3);
    assert!(outbox.is_empty());
}

#[test]
fn runner_finishes_past_last_instruction() {
    let script = script_with(vec![PUSH_CONSTANT_INT], vec![8]);
    let mut state = ScriptState::new(script, None);
    let provider = ScriptProvider::new();
    let mut outbox = Vec::new();
    assert_eq!(ScriptRunner::execute(&mut state, &provider, false, false, &mut outbox), FINISHED);
    assert_eq!(state.pc, 1);
    assert_eq!(state.opcount, 2);
}

#[test]
fn runner_aborts_on_unknown_opcode() {
    let script = script_with(vec![999], vec![0]);
    let mut state = ScriptState::new(script, None);
    let provider = ScriptProvider::new();
    let mut outbox = Vec::new();
    assert_eq!(ScriptRunner::execute(&mut state, &provider, false, false, &mut outbox), ABORTED);
}

#[test]
fn execute_opcode_reports_unknown_opcode() {
    let mut state = ScriptState::new(ScriptFile::new(0), None);
    let provider = ScriptProvider::new();
    let mut outbox = Vec::new();
    assert!(ScriptRunner::execute_opcode(&mut state, &provider, 12345, &mut outbox).is_err());
}

#[test]
fn handler_tables() {
    let core = get_core_ops();
    assert!(core.contains(&(RETURN as i32)));
    let math = get_math_ops();
    assert!(math.contains(&(ADD as i32)));
    assert!(!math.contains(&(RETURN as i32)));
    let handlers = ScriptRunner::get_handlers();
    assert!(handlers.contains(&(RETURN as i32)));
    assert!(get_player_ops().len() > 0);
}

#[test]
fn init_places_entities() {
    let state = ScriptRunner::init(
        ScriptFile::new(0),
        Some(EntityType::Player(1)),
        Some(EntityType::Player(2)),
        None,
    );
    assert_eq!(state.active_player, Some(1));
    assert_eq!(state.active_player2, Some(2));
    assert!(state.pointer_get(ScriptPointer::ActivePlayer));
    assert!(state.pointer_get(ScriptPointer::ActivePlayer2));
    let other = ScriptRunner::init(ScriptFile::new(0), Some(EntityType::Player(1)), Some(EntityType::Npc(4)), None);
    assert_eq!(other.active_npc, Some(4));
    assert_eq!(other.active_npc2, None);
}

fn math(op: u16, a: i32, b: i32, roll: i32) -> i32 {
    let mut state = ScriptState::new(ScriptFile::new(0), None);
    state.push_int(a);
    state.push_int(b);
    assert!(apply_math_opcode(&mut state, op as i32, roll));
    state.pop_int()
}

#[test]
fn math_arithmetic() {
    assert_eq!(math(ADD, 2, 3, 0), 5);
    assert_eq!(math(SUB, 7, 3, 0), 4);
    assert_eq!(math(DIVIDE, -7, 2, 0), -3);
    // The handler divides the top of the stack by the value beneath it.
    assert_eq!(math(MODULO, 7, 3, 0), 3);
    assert_eq!(math(MODULO, 2, -7, 0), -1);
}

#[test]
fn math_random_uses_roll() {
    let mut state = ScriptState::new(ScriptFile::new(0), None);
    state.push_int(10);
    assert!(apply_math_opcode(&mut state, RANDOM as i32, 6));
    assert_eq!(state.pop_int(), 6);
}

#[test]
fn math_random_draws_in_range() {
    for _ in 0..50 {
        let mut state = ScriptState::new(ScriptFile::new(0), None);
        state.push_int(10);
        assert!(execute_math_opcode(&mut state, RANDOM as i32));
        let v = state.pop_int();
        assert!((0..10).contains(&v));
        let mut inc = ScriptState::new(ScriptFile::new(0), None);
        inc.push_int(3);
        assert!(execute_math_opcode(&mut inc, RANDOMINC as i32));
        let w = inc.pop_int();
        assert!((0..=3).contains(&w));
    }
    let mut zero = ScriptState::new(ScriptFile::new(0), None);
    zero.push_int(0);
    assert!(execute_math_opcode(&mut zero, RANDOM as i32));
    assert_eq!(zero.pop_int(), 0);
}

#[test]
fn math_setbit_range() {
    let mut state = ScriptState::new(ScriptFile::new(0), None);
    state.push_int(7);
    state.push_int(4);
    state.push_int(0);
    assert!(apply_math_opcode(&mut state, SETBIT_RANGE as i32, 0));
    assert_eq!(state.pop_int(), 0xF0);
}

#[test]
fn non_math_opcode_is_not_handled() {
    let mut state = ScriptState::new(ScriptFile::new(0), None);
    assert!(!apply_math_opcode(&mut state, RETURN as i32, 0));
}

#[test]
fn pointers_add_check_remove() {
    let mut state = ScriptState::new(ScriptFile::new(0), None);
    state.pointer_add(ScriptPointer::ActivePlayer);
    state.pointer_add(ScriptPointer::ActiveLoc);
    assert!(state.pointer_get(ScriptPointer::ActiveLoc));
    assert!(state.pointer_check(&[ScriptPointer::ActivePlayer]).is_ok());
    assert_eq!(
        state.pointer_check(&[ScriptPointer::ActiveNpc]),
        Err("Required pointer: ActiveNpc, current: ActivePlayer, ActiveLoc".to_string())
    );
    state.pointer_remove(ScriptPointer::ActiveLoc);
    assert!(!state.pointer_get(ScriptPointer::ActiveLoc));
    state.pointers_set(&[ScriptPointer::ActiveObj]);
    assert_eq!(state.pointers, 1 << 8);
}

#[test]
fn pointer_names_and_indices() {
    assert_eq!(ScriptPointer::ActiveNpc2.index(), 5);
    assert!(matches!(ScriptPointer::try_from(4), Some(ScriptPointer::ActiveNpc)));
    assert!(matches!(ScriptPointer::try_from(10), Some(ScriptPointer::_LAST)));
    assert!(ScriptPointer::try_from(11).is_none());
    assert_eq!(ScriptPointer::ProtectedActivePlayer.name(), "ProtectedActivePlayer");
    assert_eq!(ScriptState::pointer_print(0b11), "ActivePlayer, ActivePlayer2");
}

#[test]
fn checked_handler_passes_and_aborts() {
    let mut script = ScriptFile::new(0);
    script.opcodes = vec![0];
    script.int_operands = vec![1];
    script.string_operands = vec![String::new()];
    let mut state = ScriptState::new(script, None);
    state.pc = 0;
    state.pointer_add(ScriptPointer::ActiveNpc2);
    assert!(checked_handler(PointerCheck::Multiple([ScriptPointer::ActiveNpc, ScriptPointer::ActiveNpc2]), &mut state));
    assert!(!checked_handler(PointerCheck::Single(ScriptPointer::ActiveLoc), &mut state));
    assert_eq!(state.execution, ABORTED);
}

#[test]
fn active_player_follows_operand() {
    let mut script = ScriptFile::new(0);
    script.opcodes = vec![0, 0];
    script.int_operands = vec![0, 1];
    script.string_operands = vec![String::new(), String::new()];
    let mut state = ScriptState::new(script, None);
    state.pc = 0;
    assert_eq!(state.get_active_player(), Err("Player not found".to_string()));
    state.set_active_player(11);
    state.pc = 1;
    state.set_active_player(12);
    assert_eq!(state.get_active_player(), Ok(12));
    state.pc = 0;
    assert_eq!(state.get_active_player(), Ok(11));
}

#[test]
fn gosub_then_return_restores_caller() {
    let caller = script_with(vec![PUSH_CONSTANT_INT], vec![1]);
    let mut state = ScriptState::new(caller, None);
    state.pc = 0;
    state.int_locals = vec![42];
    let mut callee = ScriptFile::new(5);
    callee.int_local_count = 1;
    state.gosub_frame(callee);
    assert_eq!(state.fp, 1);
    assert_eq!(state.script.id, 5);
    assert_eq!(state.pc, -1);
    state.pop_frame();
    assert_eq!(state.fp, 0);
    assert_eq!(state.script.id, 7);
    assert_eq!(state.pc, 0);
    assert_eq!(state.int_locals, vec![42]);
}

#[test]
fn reset_clears_the_run() {
    let mut state = ScriptState::new(ScriptFile::new(0), None);
    state.push_int(1);
    state.pc = 4;
    state.opcount = 9;
    state.pointer_add(ScriptPointer::ActiveObj);
    state.reset();
    assert_eq!(state.pc, -1);
    assert_eq!(state.opcount, 9);
    assert_eq!(state.isp, 0);
    assert_eq!(state.pointers, 0);
    assert_eq!(state.execution, RUNNING);
}

fn run(script: ScriptFile, provider: &ScriptProvider, state_setup: impl Fn(&mut ScriptState)) -> (ScriptState, Vec<(u32, String)>) {
    let mut state = ScriptState::new(script, None);
    state_setup(&mut state);
    let mut outbox = Vec::new();
    ScriptRunner::execute(&mut state, provider, false, false, &mut outbox);
    (state, outbox)
}

#[test]
fn branch_equals_skips_when_equal() {
    let script = script_with(
        vec![PUSH_CONSTANT_INT, PUSH_CONSTANT_INT, BRANCH_EQUALS, PUSH_CONSTANT_INT, PUSH_CONSTANT_INT, RETURN],
        vec![1, 1, 1, 5, 7, 0],
    );
    let (mut state, _) = run(script, &ScriptProvider::new(), |_| {});
    assert_eq!(state.execution, FINISHED);
    assert_eq!(state.isp, 1);
    assert_eq!(state.pop_int(), 7);
}

#[test]
fn locals_are_written_and_read() {
    let mut script = script_with(
        vec![PUSH_CONSTANT_INT, POP_INT_LOCAL, PUSH_INT_LOCAL, PUSH_INT_LOCAL, RETURN],
        vec![6, 0, 0, 0, 0],
    );
    script.int_local_count = 1;
    let (mut state, _) = run(script, &ScriptProvider::new(), |s| s.int_locals = vec![0]);
    assert_eq!(state.int_locals, vec![6]);
    assert_eq!(state.pop_ints(2), vec![6, 6]);
}

#[test]
fn strings_are_joined_in_order() {
    let mut script = script_with(vec![PUSH_CONSTANT_STRING, PUSH_CONSTANT_STRING, JOIN_STRING, RETURN], vec![0, 0, 2, 0]);
    script.string_operands = vec!["ab".to_string(), "cd".to_string(), String::new(), String::new()];
    let (mut state, _) = run(script, &ScriptProvider::new(), |_| {});
    assert_eq!(state.ssp, 1);
    assert_eq!(state.pop_string(), "abcd");
}

#[test]
fn gosub_runs_the_proc_and_comes_back() {
    let mut provider = ScriptProvider::new();
    let mut callee = script_with(vec![PUSH_CONSTANT_INT, RETURN], vec![4, 0]);
    callee.id = 9;
    provider.lookup.insert(9, callee);
    let caller = script_with(vec![GOSUB_WITH_PARAMS, RETURN], vec![9, 0]);
    let (mut state, _) = run(caller, &provider, |_| {});
    assert_eq!(state.execution, FINISHED);
    assert_eq!(state.fp, 0);
    assert_eq!(state.script.id, 7);
    assert_eq!(state.pop_int(), 4);
}

#[test]
fn mes_sends_to_the_active_player() {
    let mut script = script_with(vec![PUSH_CONSTANT_STRING, MES, RETURN], vec![0, 0, 0]);
    script.string_operands = vec!["hi".to_string(), String::new(), String::new()];
    let (state, outbox) = run(script, &ScriptProvider::new(), |s| s.active_player = Some(3));
    assert_eq!(state.execution, FINISHED);
    assert_eq!(outbox, vec![(3, "hi".to_string())]);
}

#[test]
fn trigger_lookup_falls_back() {
    let mut provider = ScriptProvider::new();
    let mut general = ScriptFile::new(1);
    general.info.lookup_key = 5;
    let mut typed = ScriptFile::new(2);
    typed.info.lookup_key = 5 | (2 << 8) | (3 << 10);
    let mut category = ScriptFile::new(3);
    category.info.lookup_key = 5 | (1 << 8) | (4 << 10);
    provider.lookup.insert(5, general);
    provider.lookup.insert(5 | (2 << 8) | (3 << 10), typed);
    provider.lookup.insert(5 | (1 << 8) | (4 << 10), category);
    assert_eq!(provider.get_by_trigger(5, 3, 4).map(|s| s.id), Some(2));
    assert_eq!(provider.get_by_trigger(5, 9, 4).map(|s| s.id), Some(3));
    assert_eq!(provider.get_by_trigger(5, 9, 9).map(|s| s.id), Some(1));
    assert_eq!(provider.get_by_trigger(6, -1, -1).map(|s| s.id), None);
    assert_eq!(provider.get_by_trigger_specific(5, 9, 4).map(|s| s.id), None);
    assert_eq!(provider.get_by_trigger_specific(5, -1, 4).map(|s| s.id), Some(3));
    assert_eq!(provider.get_by_trigger_specific(5, -1, -1).map(|s| s.id), Some(1));
    assert!(provider.get(77).is_none());
}
