use lox::chunk::Chunk;
use lox::compiler::{compile, number_literals};
use lox::op_code::OpCode;
use lox::value::{Function, NativeFunction, Value};
use lox::vm::{ArithmeticOp, Fault, InterpretResult, RuntimeError, Step, VM};

fn number(value: f64) -> OpCode {
    OpCode::Constant(value.to_bits())
}

fn arithmetic(op: ArithmeticOp, a: u64, b: u64) -> u64 {
    let (a, b) = (f64::from_bits(a), f64::from_bits(b));
    let result = match op {
        ArithmeticOp::Add => a + b,
        ArithmeticOp::Subtract => a - b,
        ArithmeticOp::Multiply => a * b,
        ArithmeticOp::Divide => a / b,
    };
    result.to_bits()
}

fn render(value: &Value) -> String {
    match value {
        Value::Number(bits) => format!("{}", f64::from_bits(*bits)),
        other => other.text().expect("only a number has no text of its own"),
    }
}

/// Runs the machine to the end of the program, doing for it what it leaves
/// to its caller; returns the last step and what was printed.
fn drive(vm: &mut VM) -> (Step, Vec<String>) {
    let mut printed = Vec::new();
    loop {
        match vm.run(1000) {
            Step::Continue => {}
            Step::Print(value) => printed.push(render(&value)),
            Step::Arithmetic(op, a, b) => vm.push_number(arithmetic(op, a, b)),
            Step::Clock => vm.push_number(1.0e9f64.to_bits()),
            last => return (last, printed),
        }
    }
}

fn fill_and_run_vm(opcodes: Vec<OpCode>) -> VM {
    let mut vm = VM::new();
    let mut chunk = Chunk::new();
    for code in opcodes {
        chunk.write(code, 1);
    }
    let function = Function::new_from_chunk("test".to_string(), chunk);
    assert!(vm.call(function));
    let (last, _) = drive(&mut vm);
    assert_eq!(last, Step::Finished);
    vm
}

fn last_step(opcodes: Vec<OpCode>) -> Step {
    let mut vm = VM::new();
    let mut chunk = Chunk::new();
    for code in opcodes {
        chunk.write(code, 7);
    }
    assert!(vm.call(Function::new_from_chunk("test".to_string(), chunk)));
    let (last, _) = drive(&mut vm);
    assert_eq!(vm.current_line(), 7);
    last
}

fn interpret(source: &str) -> (InterpretResult, Vec<String>) {
    let numbers =
        number_literals(source).iter().map(|t| t.parse::<f64>().unwrap().to_bits()).collect();
    let function = match compile(source, numbers) {
        Ok(function) => function,
        Err(_) => return (InterpretResult::CompileError, Vec::new()),
    };
    let mut vm = VM::new();
    assert!(vm.call(function));
    let (last, printed) = drive(&mut vm);
    match last.result() {
        Some(result) => {
            if result == InterpretResult::Success {
                assert_eq!(vm.frame_count(), 0);
                assert_eq!(vm.stack_len(), 0);
            }
            (result, printed)
        }
        None => panic!("the machine stopped with {:?}", last),
    }
}

fn prints(source: &str) -> Vec<String> {
    let (result, printed) = interpret(source);
    assert_eq!(result, InterpretResult::Success);
    printed
}

#[test]
fn test_arithmetic() {
    let vm = fill_and_run_vm(vec![
        number(4.0),
        OpCode::Negate,
        number(2.0),
        OpCode::Add,
        number(4.0),
        OpCode::Negate,
        number(3.0),
        OpCode::Multiply,
        OpCode::Subtract,
        OpCode::Nil,
        OpCode::Return,
    ]);
    assert_eq!(vm.stack_value(0), Some(&Value::Number(10.0f64.to_bits())));
}

#[test]
fn test_bool() {
    let vm = fill_and_run_vm(vec![
        number(5.0),
        number(4.0),
        OpCode::Subtract,
        number(3.0),
        number(2.0),
        OpCode::Multiply,
        OpCode::Greater,
        OpCode::Nil,
        OpCode::Not,
        OpCode::Equal,
        OpCode::Not,
        OpCode::Nil,
        OpCode::Return,
    ]);
    assert_eq!(vm.stack_value(0), Some(&Value::Bool(true)));
}

#[test]
fn test_string() {
    let vm = fill_and_run_vm(vec![
        OpCode::String("hello".to_string()),
        OpCode::String("world".to_string()),
        OpCode::Add,
        OpCode::Nil,
        OpCode::Return,
    ]);
    assert_eq!(vm.stack_value(0), Some(&Value::String("helloworld".to_string())));
}

#[test]
fn test_set_global() {
    let vm = fill_and_run_vm(vec![
        OpCode::Nil,
        OpCode::DefineGlobal("varx".to_string()),
        number(1.23),
        OpCode::SetGlobal("varx".to_string()),
        OpCode::Nil,
        OpCode::Return,
    ]);
    assert_eq!(vm.global("varx").unwrap(), &Value::Number(1.23f64.to_bits()));
}

#[test]
fn a_new_machine_knows_the_clock() {
    let vm = VM::new();
    assert_eq!(vm.global("clock"), Some(&Value::Native(NativeFunction::Clock, 0)));
    assert_eq!(vm.global("other"), None);
    assert_eq!(vm.stack_len(), 0);
    assert_eq!(vm.frame_count(), 0);
}

#[test]
fn after_the_top_level_return_no_frame_is_left() {
    let vm = fill_and_run_vm(vec![number(1.0), OpCode::Nil, OpCode::Return]);
    assert_eq!(vm.frame_count(), 0);
    assert_eq!(vm.stack_len(), 1);
    assert_eq!(vm.stack_value(0), Some(&Value::Number(1.0f64.to_bits())));
    assert_eq!(vm.stack_value(1), None);
}

#[test]
fn print_one_plus_two_times_three() {
    assert_eq!(prints("print 1 + 2 * 3;"), vec!["7"]);
}

#[test]
fn inner_variable_shadows_the_outer() {
    assert_eq!(prints("var a = 10; { var a = 1; print a; } print a;"), vec!["1", "10"]);
}

#[test]
fn recursive_function_computes_the_factorial() {
    assert_eq!(
        prints("fun f(n){ if (n<=1) return 1; return n*f(n-1);} print f(5);"),
        vec!["120"]
    );
}

#[test]
fn for_loop_counts_to_three() {
    assert_eq!(prints("for (var i=0; i<3; i=i+1) print i;"), vec!["0", "1", "2"]);
}

#[test]
fn strings_are_joined() {
    assert_eq!(prints("var s = \"hi\"; print s + \" there\";"), vec!["hi there"]);
}

#[test]
fn clock_is_not_negative() {
    assert_eq!(prints("print clock() >= 0;"), vec!["true"]);
}

#[test]
fn while_loop_runs_until_its_condition_fails() {
    assert_eq!(prints("var a = 0; while (a < 3) { print a; a = a + 1; }"), vec!["0", "1", "2"]);
    assert_eq!(prints("while (false) print 1; print 2;"), vec!["2"]);
}

#[test]
fn if_and_else_choose_a_branch() {
    assert_eq!(prints("if (1 < 2) print \"yes\"; else print \"no\";"), vec!["yes"]);
    assert_eq!(prints("if (1 > 2) print \"yes\"; else print \"no\";"), vec!["no"]);
    assert_eq!(prints("if (nil) print \"yes\"; print \"after\";"), vec!["after"]);
}

#[test]
fn and_or_yield_an_operand() {
    assert_eq!(prints("print nil and 1; print 1 and 2;"), vec!["nil", "2"]);
    assert_eq!(prints("print nil or 1; print 1 or 2;"), vec!["1", "1"]);
}

#[test]
fn zero_and_the_empty_string_are_truthy() {
    assert_eq!(prints("print !0; print !\"\"; print !nil; print !false; print !true;"),
        vec!["false", "false", "true", "true", "false"]);
}

#[test]
fn equality_compares_kind_and_content() {
    assert_eq!(prints("print -0.0 == 0.0;"), vec!["true"]);
    assert_eq!(prints("print nil == 0;"), vec!["false"]);
    assert_eq!(prints("print nil == nil;"), vec!["true"]);
    assert_eq!(prints("print \"a\" == \"a\"; print \"a\" == \"b\"; print \"1\" == 1;"),
        vec!["true", "false", "false"]);
    assert_eq!(prints("print true == true; print true != false; print 1 == 2;"),
        vec!["true", "true", "false"]);
    assert_eq!(prints("fun f() {} fun g() {} print f == f; print f == g; print clock == clock;"),
        vec!["true", "false", "true"]);
    assert_eq!(prints("print 0/0 == 0/0;"), vec!["false"]);
}

#[test]
fn division_by_zero_is_no_error() {
    assert_eq!(prints("print 1/0; print -1/0; print 0/0;"), vec!["inf", "-inf", "NaN"]);
}

#[test]
fn comparisons_of_numbers() {
    assert_eq!(prints("print 1 < 2; print 2 < 1; print 1 <= 1; print 1 >= 2; print 2 > 1;"),
        vec!["true", "false", "true", "false", "true"]);
    assert_eq!(prints("print -1 < 0; print -2 < -1; print -0.0 < 0.0; print 0.5 > 0.25;"),
        vec!["true", "true", "false", "true"]);
    assert_eq!(prints("print 0/0 < 1; print 0/0 > 1; print 0/0 >= 1; print 1/0 > 1000;"),
        vec!["false", "false", "true", "true"]);
}

#[test]
fn values_print_by_their_kind() {
    assert_eq!(prints("fun f() {} print f; print clock; print nil; print true; print 1.5;"),
        vec!["<fn f>", "<native fn>", "nil", "true", "1.5"]);
}

#[test]
fn functions_return_nil_by_default_and_see_globals() {
    assert_eq!(prints("var a = 1; fun f() { a = a + 1; } print f(); print a;"), vec!["nil", "2"]);
    assert_eq!(prints("fun add(a, b) { var c = a + b; return c; } print add(1, 2) + add(3, 4);"),
        vec!["10"]);
}

#[test]
fn mixed_operands_of_plus_are_an_error() {
    assert_eq!(interpret("print 1 + \"a\";").0, InterpretResult::RuntimeError);
    assert_eq!(interpret("print \"a\" + 1;").0, InterpretResult::RuntimeError);
    assert_eq!(interpret("print nil + nil;").0, InterpretResult::RuntimeError);
    assert_eq!(
        last_step(vec![number(1.0), OpCode::String("a".to_string()), OpCode::Add]),
        Step::Error(RuntimeError::OperandsMustBeNumbersOrStrings)
    );
}

#[test]
fn each_runtime_error_has_its_cause() {
    assert_eq!(
        last_step(vec![OpCode::Nil, number(1.0), OpCode::Subtract]),
        Step::Error(RuntimeError::OperandsMustBeNumbers)
    );
    assert_eq!(
        last_step(vec![OpCode::Bool(true), number(1.0), OpCode::Less]),
        Step::Error(RuntimeError::OperandsMustBeNumbers)
    );
    assert_eq!(
        last_step(vec![OpCode::Nil, OpCode::Negate]),
        Step::Error(RuntimeError::OperandMustBeNumber)
    );
    assert_eq!(
        last_step(vec![OpCode::GetGlobal("x".to_string())]),
        Step::Error(RuntimeError::UndefinedVariable("x".to_string()))
    );
    assert_eq!(
        last_step(vec![OpCode::Nil, OpCode::SetGlobal("x".to_string())]),
        Step::Error(RuntimeError::UndefinedVariable("x".to_string()))
    );
    assert_eq!(
        last_step(vec![OpCode::Nil, OpCode::Call(0)]),
        Step::Error(RuntimeError::NotCallable)
    );
    assert_eq!(
        last_step(vec![OpCode::GetGlobal("clock".to_string()), OpCode::Nil, OpCode::Call(1)]),
        Step::Error(RuntimeError::WrongArgumentCount(0, 1))
    );
    assert_eq!(interpret("fun f(a) {} f();").0, InterpretResult::RuntimeError);
    assert_eq!(interpret("print x;").0, InterpretResult::RuntimeError);
    assert_eq!(interpret("x = 1;").0, InterpretResult::RuntimeError);
    assert_eq!(interpret("print;").0, InterpretResult::CompileError);
}

#[test]
fn runtime_errors_have_messages() {
    assert_eq!(RuntimeError::OperandsMustBeNumbers.message(), "Operands must be numbers.");
    assert_eq!(
        RuntimeError::OperandsMustBeNumbersOrStrings.message(),
        "Operands must be two numbers or two strings."
    );
    assert_eq!(RuntimeError::OperandMustBeNumber.message(), "Operand must be a number.");
    assert_eq!(
        RuntimeError::UndefinedVariable("x".to_string()).message(),
        "Undefined variable 'x'."
    );
    assert_eq!(
        RuntimeError::WrongArgumentCount(2, 13).message(),
        "Expected 2 arguments but got 13."
    );
    assert_eq!(RuntimeError::NotCallable.message(), "Can only call functions and classes.");
}

#[test]
fn malformed_code_is_refused() {
    assert_eq!(last_step(vec![OpCode::Pop]), Step::Fault(Fault::StackUnderflow));
    assert_eq!(last_step(vec![OpCode::Nil]), Step::Fault(Fault::CodeOverrun));
    assert_eq!(last_step(vec![OpCode::GetLocal(3)]), Step::Fault(Fault::BadSlot));
    assert_eq!(last_step(vec![OpCode::Loop(5)]), Step::Fault(Fault::BadJump));
    assert_eq!(last_step(vec![OpCode::Jump(usize::MAX)]), Step::Fault(Fault::BadJump));
    assert_eq!(last_step(vec![OpCode::Add]), Step::Fault(Fault::StackUnderflow));
    let mut vm = VM::new();
    assert_eq!(vm.step(), Step::Fault(Fault::NoFrame));
}

#[test]
fn a_frame_without_room_for_its_callee_cannot_be_returned_from() {
    let mut vm = VM::new();
    let mut outer = Chunk::new();
    outer.write(OpCode::Nil, 1);
    assert!(vm.call(Function::new_from_chunk("outer".to_string(), outer)));
    let mut inner = Chunk::new();
    inner.write(OpCode::Nil, 2);
    inner.write(OpCode::Return, 2);
    assert!(vm.call(Function::new_from_chunk("inner".to_string(), inner)));
    assert_eq!(vm.frame_count(), 2);
    assert_eq!(vm.step(), Step::Continue);
    assert_eq!(vm.step(), Step::Fault(Fault::BadFrame));
    assert_eq!(vm.frame_count(), 2);
    assert_eq!(vm.stack_len(), 1);
}

#[test]
fn a_call_opens_a_window_at_the_first_argument() {
    let mut callee = Function::new("second".to_string());
    callee.increase_arity();
    callee.increase_arity();
    callee.write(OpCode::GetLocal(1), 1);
    callee.write(OpCode::Return, 1);
    let vm = fill_and_run_vm(vec![
        OpCode::Bool(false),
        OpCode::Function(callee),
        number(1.0),
        number(2.0),
        OpCode::Call(2),
        OpCode::Nil,
        OpCode::Return,
    ]);
    assert_eq!(vm.stack_len(), 2);
    assert_eq!(vm.stack_value(0), Some(&Value::Bool(false)));
    assert_eq!(vm.stack_value(1), Some(&Value::Number(2.0f64.to_bits())));
}

#[test]
fn a_function_needs_its_arguments_on_the_stack() {
    let mut vm = VM::new();
    let mut function = Function::new("f".to_string());
    function.increase_arity();
    assert!(!vm.call(function));
    assert_eq!(vm.frame_count(), 0);
}

#[test]
fn run_stops_when_its_budget_is_used_up() {
    let mut vm = VM::new();
    let mut chunk = Chunk::new();
    chunk.write(OpCode::Nil, 1);
    chunk.write(OpCode::Loop(2), 1);
    assert!(vm.call(Function::new_from_chunk("forever".to_string(), chunk)));
    assert_eq!(vm.run(10), Step::Continue);
    assert_eq!(vm.stack_len(), 5);
    assert_eq!(vm.run(0), Step::Continue);
    assert_eq!(vm.stack_len(), 5);
}

#[test]
fn number_tests_agree_with_the_machine_numbers() {
    let samples = [
        0.0,
        -0.0,
        1.0,
        -1.0,
        0.5,
        -0.5,
        1.5,
        2.0,
        1e300,
        -1e300,
        5e-324,
        -5e-324,
        f64::MAX,
        f64::MIN,
        f64::MIN_POSITIVE,
        f64::INFINITY,
        f64::NEG_INFINITY,
        f64::NAN,
        -f64::NAN,
        f64::from_bits(0x7ff0_0000_0000_0001),
    ];
    for a in samples {
        assert_eq!(lox::number::nan(a.to_bits()), a.is_nan());
        assert_eq!(lox::number::zero(a.to_bits()), a == 0.0);
        assert_eq!(lox::number::negative(a.to_bits()), a.is_sign_negative());
        assert_eq!(lox::number::negate(a.to_bits()), (-a).to_bits());
        for b in samples {
            assert_eq!(lox::number::equal(a.to_bits(), b.to_bits()), a == b, "{} == {}", a, b);
            assert_eq!(lox::number::less(a.to_bits(), b.to_bits()), a < b, "{} < {}", a, b);
        }
    }
}
