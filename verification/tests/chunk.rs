use lox::chunk::{Chunk, OpCodeVisitor};
use lox::debug::{Debugger, Entry};
use lox::op_code::{Instruction, OpCode};
use lox::value::{Function, Value};

struct Collector {
    seen: Vec<(OpCode, i32)>,
}

impl OpCodeVisitor for Collector {
    fn operate(&mut self, code: &OpCode, line: i32) {
        self.seen.push((code.clone(), line));
    }
}

#[test]
fn a_new_chunk_is_empty() {
    let chunk = Chunk::new();
    assert_eq!(chunk.len(), 0);
}

#[test]
fn written_instructions_are_read_back_in_order() {
    let mut chunk = Chunk::new();
    chunk.write(OpCode::Nil, 1);
    chunk.write(OpCode::String("a".to_string()), 2);
    assert_eq!(chunk.len(), 2);
    assert_eq!(chunk.current_offset(), 1);
    assert_eq!(*chunk.read_instruction(0), Instruction { code: OpCode::Nil, line: 1 });
    assert_eq!(
        *chunk.read_instruction(1),
        Instruction { code: OpCode::String("a".to_string()), line: 2 }
    );
}

#[test]
fn a_patched_jump_lands_behind_the_last_instruction() {
    let mut chunk = Chunk::new();
    chunk.write(OpCode::Nil, 1);
    let site = chunk.emit_jump(OpCode::JumpIfFalse(0), 2);
    assert_eq!(site, 1);
    chunk.write(OpCode::Pop, 3);
    chunk.write(OpCode::Pop, 3);
    let other = chunk.emit_jump(OpCode::Jump(0), 4);
    assert_eq!(other, 4);
    chunk.patch_jump(site);
    assert_eq!(
        *chunk.read_instruction(1),
        Instruction { code: OpCode::JumpIfFalse(3), line: 2 }
    );
    chunk.patch_jump(other);
    assert_eq!(*chunk.read_instruction(4), Instruction { code: OpCode::Jump(0), line: 4 });
    assert_eq!(chunk.len(), 5);
}

#[test]
fn a_loop_leads_back_to_its_start() {
    let mut chunk = Chunk::new();
    chunk.emit_loop(0, 1);
    assert_eq!(*chunk.read_instruction(0), Instruction { code: OpCode::Loop(1), line: 1 });
    chunk.write(OpCode::Nil, 1);
    chunk.write(OpCode::Pop, 1);
    chunk.emit_loop(1, 2);
    assert_eq!(*chunk.read_instruction(3), Instruction { code: OpCode::Loop(3), line: 2 });
    chunk.emit_loop(4, 2);
    assert_eq!(*chunk.read_instruction(4), Instruction { code: OpCode::Loop(1), line: 2 });
}

#[test]
fn a_visitor_is_shown_every_instruction() {
    let mut function = Function::new("f".to_string());
    function.write(OpCode::Nil, 1);
    function.write(OpCode::Return, 2);
    let mut collector = Collector { seen: Vec::new() };
    function.operate_on_codes(&mut collector);
    assert_eq!(collector.seen, vec![(OpCode::Nil, 1), (OpCode::Return, 2)]);
}

#[test]
fn function_builders() {
    let mut function = Function::new("f".to_string());
    assert_eq!(function.name(), "f");
    assert_eq!(function.arity(), 0);
    assert_eq!(function.len(), 0);
    function.increase_arity();
    function.increase_arity();
    assert_eq!(function.arity(), 2);
    let site = function.emit_jump(OpCode::Jump(0), 1);
    function.write(OpCode::Nil, 1);
    function.patch_jump(site);
    function.emit_loop(0, 1);
    assert_eq!(function.current_offset(), 2);
    assert_eq!(function.read_instruction(0).code, OpCode::Jump(1));
    assert_eq!(function.read_instruction(2).code, OpCode::Loop(3));
}

#[test]
fn copies_and_comparisons_go_into_nested_functions() {
    let mut inner = Function::new("inner".to_string());
    inner.write(OpCode::Constant(1), 1);
    let mut outer = Function::new("outer".to_string());
    outer.write(OpCode::Function(inner.clone()), 1);
    outer.write(OpCode::GetGlobal("x".to_string()), 2);
    let copy = outer.clone();
    assert_eq!(copy, outer);
    assert!(copy.same(&outer));
    inner.write(OpCode::Pop, 1);
    let mut other = Function::new("outer".to_string());
    other.write(OpCode::Function(inner), 1);
    other.write(OpCode::GetGlobal("x".to_string()), 2);
    assert!(!other.same(&outer));
    assert!(OpCode::Jump(1).same(&OpCode::Jump(1)));
    assert!(!OpCode::Jump(1).same(&OpCode::JumpIfFalse(1)));
    assert!(!OpCode::Jump(1).same(&OpCode::Jump(2)));
    assert!(!OpCode::String("a".to_string()).same(&OpCode::GetGlobal("a".to_string())));
}

#[test]
fn values_are_made_from_plain_values() {
    assert_eq!(Value::from(true), Value::Bool(true));
    assert_eq!(Value::from(7u64), Value::Number(7));
    assert_eq!(Value::from("a".to_string()), Value::String("a".to_string()));
    assert!(Value::from(7u64).is_number());
    assert!(!Value::Nil.is_number());
}

fn entry(line: Option<i32>, code: OpCode) -> Entry {
    Entry { line, code }
}

#[test]
fn a_listing_shows_a_line_only_where_it_changes() {
    let mut function = Function::new("f".to_string());
    function.write(OpCode::Nil, 1);
    function.write(OpCode::Pop, 1);
    function.write(OpCode::Nil, 2);
    function.write(OpCode::Return, 2);
    let mut debugger = Debugger::new();
    let listing = debugger.disassemble_chunk(&function, "code");
    assert_eq!(listing.title, "== code ==");
    assert_eq!(
        listing.entries,
        vec![
            entry(Some(1), OpCode::Nil),
            entry(None, OpCode::Pop),
            entry(Some(2), OpCode::Nil),
            entry(None, OpCode::Return),
        ]
    );
}

#[test]
fn disassembling_twice_gives_the_same_listing() {
    let mut function = Function::new("f".to_string());
    function.write(OpCode::Constant(1), 3);
    function.write(OpCode::Print, 3);
    function.write(OpCode::Return, 4);
    let first = Debugger::new().disassemble_chunk(&function, "f");
    let second = Debugger::new().disassemble_chunk(&function, "f");
    assert_eq!(first, second);
}

#[test]
fn a_debugger_is_a_visitor_that_collects_rows() {
    let mut function = Function::new("f".to_string());
    function.write(OpCode::Nil, 0);
    function.write(OpCode::Return, 5);
    let mut debugger = Debugger::new();
    function.operate_on_codes(&mut debugger);
    assert_eq!(
        debugger.take_entries(),
        vec![entry(None, OpCode::Nil), entry(Some(5), OpCode::Return)]
    );
    assert_eq!(debugger.take_entries(), Vec::<Entry>::new());
}
