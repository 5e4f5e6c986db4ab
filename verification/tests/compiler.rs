use lox::chunk::OpCodeVisitor;
use lox::compiler::{compile, number_literals, try_compile};
use lox::op_code::OpCode;
use lox::rules::{get_rule, ParseFn, Precedence};
use lox::diagnostic::{Diagnostic, ErrorPlace};
use lox::scanner::TokenType;
use lox::value::Function;

struct ChunkTester {
    expected: Vec<OpCode>,
    current: usize,
}

impl ChunkTester {
    fn new(expected: Vec<OpCode>) -> Self {
        Self { expected, current: 0 }
    }

    fn finish(&self) {
        assert_eq!(self.current, self.expected.len());
    }
}

impl OpCodeVisitor for ChunkTester {
    fn operate(&mut self, code: &OpCode, _line: i32) {
        assert_eq!(*code, self.expected[self.current]);
        self.current += 1;
    }
}

fn number(value: f64) -> OpCode {
    OpCode::Constant(value.to_bits())
}

fn numbers_of(source: &str) -> Vec<u64> {
    number_literals(source)
        .iter()
        .map(|text| text.parse::<f64>().expect("not a valid number").to_bits())
        .collect()
}

fn compile_source(source: &str) -> Result<Function, Vec<Diagnostic>> {
    compile(source, numbers_of(source))
}

fn assert_codes(expected: Vec<OpCode>, function: &Function) {
    let mut chunker = ChunkTester::new(expected);
    function.operate_on_codes(&mut chunker);
    chunker.finish();
}

fn assert_compiles(source: &str, expected: Vec<OpCode>) {
    let function = compile_source(source).expect("compiles");
    assert_codes(expected, &function);
}

fn first_error(source: &str) -> Diagnostic {
    let mut errors = compile_source(source).expect_err("does not compile");
    assert!(!errors.is_empty());
    errors.remove(0)
}

fn text(s: &str) -> String {
    s.to_string()
}

#[test]
fn test_local_var_declaration() {
    let source = "{ var a;}".to_string();
    let function = compile_source(&source);
    assert!(function.is_ok());
    let expected = vec![OpCode::Nil, OpCode::Pop, OpCode::Nil, OpCode::Return];
    assert_codes(expected, &function.unwrap());
}

#[test]
fn test_local_var_set() {
    let source = "{ var a; a=1; print a;}".to_string();
    let function = compile_source(&source);
    assert!(function.is_ok());
    let expected = vec![
        OpCode::Nil,
        number(1.0),
        OpCode::SetLocal(0),
        OpCode::Pop,
        OpCode::GetLocal(0),
        OpCode::Print,
        OpCode::Pop,
        OpCode::Nil,
        OpCode::Return,
    ];
    assert_codes(expected, &function.unwrap());
}

#[test]
fn test_local_addition() {
    let source = "{ var a=1; var b = a + 3;print b;}".to_string();
    let function = compile_source(&source);
    assert!(function.is_ok());
    let expected = vec![
        number(1.0),
        OpCode::GetLocal(0),
        number(3.0),
        OpCode::Add,
        OpCode::GetLocal(1),
        OpCode::Print,
        OpCode::Pop,
        OpCode::Pop,
        OpCode::Nil,
        OpCode::Return,
    ];
    assert_codes(expected, &function.unwrap());
}

#[test]
fn test_if_stmt() {
    let source = "if (true) { print 1;}".to_string();
    let function = compile_source(&source);
    assert!(function.is_ok());
    let expected = vec![
        OpCode::Bool(true),
        OpCode::JumpIfFalse(4),
        OpCode::Pop,
        number(1.0),
        OpCode::Print,
        OpCode::Jump(1),
        OpCode::Pop,
        OpCode::Nil,
        OpCode::Return,
    ];
    assert_codes(expected, &function.unwrap());
}

#[test]
fn the_rule_table_orders_the_operators() {
    let plus = get_rule(TokenType::Plus);
    assert_eq!(plus.prefix, None);
    assert_eq!(plus.infix, Some(ParseFn::Binary));
    assert_eq!(plus.precedence, Precedence::Term);
    let minus = get_rule(TokenType::Minus);
    assert_eq!(minus.prefix, Some(ParseFn::Unary));
    assert_eq!(minus.infix, Some(ParseFn::Binary));
    let paren = get_rule(TokenType::LeftParen);
    assert_eq!(paren.prefix, Some(ParseFn::Grouping));
    assert_eq!(paren.infix, Some(ParseFn::Call));
    assert_eq!(paren.precedence, Precedence::Call);
    assert_eq!(get_rule(TokenType::Eof).precedence, Precedence::Lowest);
    assert_eq!(get_rule(TokenType::Class).prefix, None);
    assert!(Precedence::Term.rank() < Precedence::Factor.rank());
    assert_eq!(Precedence::Term.next_level(), Precedence::Factor);
    assert_eq!(Precedence::Lowest.next_level(), Precedence::Assignment);
    assert_eq!(Precedence::Call.next_level(), Precedence::Primary);
    assert_eq!(Precedence::Primary.rank(), 10);
}

#[test]
fn empty_source_compiles_to_the_closing_return() {
    assert_compiles("", vec![OpCode::Nil, OpCode::Return]);
    assert_compiles("  // nothing here\n", vec![OpCode::Nil, OpCode::Return]);
}

#[test]
fn top_level_function_has_the_empty_name() {
    let function = compile_source("print 1;").unwrap();
    assert_eq!(function.name(), "");
    assert_eq!(function.arity(), 0);
}

#[test]
fn instructions_carry_the_line_of_their_token() {
    let function = compile_source("print 1;\nprint\n2;").unwrap();
    let lines: Vec<i32> = (0..function.len()).map(|i| function.read_instruction(i).line).collect();
    assert_eq!(lines, vec![1, 1, 3, 3, 3, 3]);
}

#[test]
fn precedence_orders_the_operators() {
    assert_compiles(
        "print 1 + 2 * 3;",
        vec![
            number(1.0),
            number(2.0),
            number(3.0),
            OpCode::Multiply,
            OpCode::Add,
            OpCode::Print,
            OpCode::Nil,
            OpCode::Return,
        ],
    );
    assert_compiles(
        "print (1 + 2) * 3;",
        vec![
            number(1.0),
            number(2.0),
            OpCode::Add,
            number(3.0),
            OpCode::Multiply,
            OpCode::Print,
            OpCode::Nil,
            OpCode::Return,
        ],
    );
    assert_compiles(
        "print 1 - 2 - 3;",
        vec![
            number(1.0),
            number(2.0),
            OpCode::Subtract,
            number(3.0),
            OpCode::Subtract,
            OpCode::Print,
            OpCode::Nil,
            OpCode::Return,
        ],
    );
}

#[test]
fn each_binary_operator_has_its_code() {
    let cases: Vec<(&str, Vec<OpCode>)> = vec![
        ("+", vec![OpCode::Add]),
        ("-", vec![OpCode::Subtract]),
        ("*", vec![OpCode::Multiply]),
        ("/", vec![OpCode::Divide]),
        ("==", vec![OpCode::Equal]),
        ("!=", vec![OpCode::Equal, OpCode::Not]),
        (">", vec![OpCode::Greater]),
        (">=", vec![OpCode::Less, OpCode::Not]),
        ("<", vec![OpCode::Less]),
        ("<=", vec![OpCode::Greater, OpCode::Not]),
    ];
    for (operator, codes) in cases {
        let source = format!("1 {} 2;", operator);
        let mut expected = vec![number(1.0), number(2.0)];
        expected.extend(codes);
        expected.extend(vec![OpCode::Pop, OpCode::Nil, OpCode::Return]);
        assert_compiles(&source, expected);
    }
}

#[test]
fn unary_operators_and_literals() {
    assert_compiles(
        "print !true;",
        vec![OpCode::Bool(true), OpCode::Not, OpCode::Print, OpCode::Nil, OpCode::Return],
    );
    assert_compiles(
        "print -1.5;",
        vec![number(1.5), OpCode::Negate, OpCode::Print, OpCode::Nil, OpCode::Return],
    );
    assert_compiles(
        "print nil; print false;",
        vec![
            OpCode::Nil,
            OpCode::Print,
            OpCode::Bool(false),
            OpCode::Print,
            OpCode::Nil,
            OpCode::Return,
        ],
    );
    assert_compiles(
        "print \"hi\";",
        vec![OpCode::String(text("hi")), OpCode::Print, OpCode::Nil, OpCode::Return],
    );
}

#[test]
fn globals_are_defined_read_and_set_by_name() {
    assert_compiles(
        "var a = 1; a = 2; print a;",
        vec![
            number(1.0),
            OpCode::DefineGlobal(text("a")),
            number(2.0),
            OpCode::SetGlobal(text("a")),
            OpCode::Pop,
            OpCode::GetGlobal(text("a")),
            OpCode::Print,
            OpCode::Nil,
            OpCode::Return,
        ],
    );
    assert_compiles(
        "var a;",
        vec![OpCode::Nil, OpCode::DefineGlobal(text("a")), OpCode::Nil, OpCode::Return],
    );
}

#[test]
fn shadowing_an_outer_local_is_allowed() {
    assert_compiles(
        "{ var a = 1; { var a = 2; print a; } print a; }",
        vec![
            number(1.0),
            number(2.0),
            OpCode::GetLocal(1),
            OpCode::Print,
            OpCode::Pop,
            OpCode::GetLocal(0),
            OpCode::Print,
            OpCode::Pop,
            OpCode::Nil,
            OpCode::Return,
        ],
    );
}

#[test]
fn a_second_local_of_the_same_name_in_one_scope_is_an_error() {
    let error = first_error("{ var a = 1; var a = 2; }");
    assert_eq!(error.message, "Already a variable with this name in scope.");
    assert_eq!(error.place, ErrorPlace::Token(text("a"), TokenType::Identifier));
    assert_eq!(error.line, 1);
}

#[test]
fn reading_a_local_in_its_own_initializer_is_an_error() {
    let error = first_error("{ var a = a; }");
    assert_eq!(error.message, "Can't read variable in its own initializer");
}

#[test]
fn and_or_compile_to_jumps() {
    assert_compiles(
        "print true and false;",
        vec![
            OpCode::Bool(true),
            OpCode::JumpIfFalse(2),
            OpCode::Pop,
            OpCode::Bool(false),
            OpCode::Print,
            OpCode::Nil,
            OpCode::Return,
        ],
    );
    assert_compiles(
        "print true or false;",
        vec![
            OpCode::Bool(true),
            OpCode::JumpIfFalse(1),
            OpCode::Jump(2),
            OpCode::Pop,
            OpCode::Bool(false),
            OpCode::Print,
            OpCode::Nil,
            OpCode::Return,
        ],
    );
}

#[test]
fn while_loop_jumps_back_to_its_condition() {
    assert_compiles(
        "while (true) print 1;",
        vec![
            OpCode::Bool(true),
            OpCode::JumpIfFalse(4),
            OpCode::Pop,
            number(1.0),
            OpCode::Print,
            OpCode::Loop(6),
            OpCode::Pop,
            OpCode::Nil,
            OpCode::Return,
        ],
    );
    assert_compiles(
        "print 0; while (false) print 1;",
        vec![
            number(0.0),
            OpCode::Print,
            OpCode::Bool(false),
            OpCode::JumpIfFalse(4),
            OpCode::Pop,
            number(1.0),
            OpCode::Print,
            OpCode::Loop(6),
            OpCode::Pop,
            OpCode::Nil,
            OpCode::Return,
        ],
    );
}

#[test]
fn for_loop_with_all_three_clauses() {
    assert_compiles(
        "for (var i=0; i<3; i=i+1) print i;",
        vec![
            number(0.0),
            OpCode::GetLocal(0),
            number(3.0),
            OpCode::Less,
            OpCode::JumpIfFalse(11),
            OpCode::Pop,
            OpCode::Jump(6),
            OpCode::GetLocal(0),
            number(1.0),
            OpCode::Add,
            OpCode::SetLocal(0),
            OpCode::Pop,
            OpCode::Loop(12),
            OpCode::GetLocal(0),
            OpCode::Print,
            OpCode::Loop(9),
            OpCode::Pop,
            OpCode::Pop,
            OpCode::Nil,
            OpCode::Return,
        ],
    );
}

#[test]
fn for_loop_without_clauses() {
    assert_compiles(
        "for (;;) print 1;",
        vec![number(1.0), OpCode::Print, OpCode::Loop(3), OpCode::Nil, OpCode::Return],
    );
}

#[test]
fn function_is_compiled_into_a_constant() {
    let function = compile_source("fun f(a, b) { return a + b; } print f(1, 2);").unwrap();
    assert_eq!(function.len(), 9);
    match &function.read_instruction(0).code {
        OpCode::Function(inner) => {
            assert_eq!(inner.name(), "f");
            assert_eq!(inner.arity(), 2);
            assert_codes(
                vec![
                    OpCode::GetLocal(0),
                    OpCode::GetLocal(1),
                    OpCode::Add,
                    OpCode::Return,
                    OpCode::Nil,
                    OpCode::Return,
                ],
                inner,
            );
        }
        other => panic!("not a function: {:?}", other),
    }
    let mut rest = Vec::new();
    for i in 1..function.len() {
        rest.push(function.read_instruction(i).code.clone());
    }
    assert_eq!(
        rest,
        vec![
            OpCode::DefineGlobal(text("f")),
            OpCode::GetGlobal(text("f")),
            number(1.0),
            number(2.0),
            OpCode::Call(2),
            OpCode::Print,
            OpCode::Nil,
            OpCode::Return,
        ]
    );
}

#[test]
fn return_without_value_returns_nil() {
    let function = compile_source("fun f() { return; }").unwrap();
    match &function.read_instruction(0).code {
        OpCode::Function(inner) => assert_codes(
            vec![OpCode::Nil, OpCode::Return, OpCode::Nil, OpCode::Return],
            inner,
        ),
        other => panic!("not a function: {:?}", other),
    }
}

#[test]
fn diagnostics_have_a_text() {
    assert_eq!(first_error("print 1").text(), "[line 1] Error at end: Expect ';' after value.");
    assert_eq!(
        first_error("\n\nprint ;").text(),
        "[line 3] Error at ; (Semicolon): Expect expression"
    );
    assert_eq!(
        first_error("var x = 1;\nprint x # 2;").text(),
        "[line 2] Error at #: error during advance"
    );
    assert_eq!(
        first_error("{ var abc; var abc; }").text(),
        "[line 1] Error at abc (Identifier): Already a variable with this name in scope."
    );
}

#[test]
fn missing_expression_is_reported() {
    let error = first_error("print ;");
    assert_eq!(error.message, "Expect expression");
    assert_eq!(error.place, ErrorPlace::Token(text(";"), TokenType::Semicolon));
}

#[test]
fn missing_semicolon_is_reported_at_the_end() {
    let error = first_error("print 1");
    assert_eq!(error.message, "Expect ';' after value.");
    assert_eq!(error.place, ErrorPlace::End);
}

#[test]
fn assignment_to_a_sum_is_invalid() {
    let error = first_error("var a; var b; var c; a + b = c;");
    assert_eq!(error.message, "Invalid assignment");
}

#[test]
fn missing_parentheses_and_braces_are_reported() {
    assert_eq!(first_error("if true) print 1;").message, "Expect '(' after 'if'.");
    assert_eq!(first_error("if (true print 1;").message, "Expect ')' after condition.");
    assert_eq!(first_error("while true) print 1;").message, "Expect '(' after 'while'.");
    assert_eq!(first_error("for var i;;) print 1;").message, "Expect '(' after 'for'.");
    assert_eq!(first_error("{ print 1;").message, "Expect '}' after block.");
    assert_eq!(first_error("fun f() print 1;").message, "Expect '{' before function body.");
    assert_eq!(first_error("fun f { }").message, "Expect '(' after function name.");
    assert_eq!(first_error("fun (a) { }").message, "Expect function name.");
    assert_eq!(first_error("var 1 = 2;").message, "Expect variable name.");
    assert_eq!(first_error("print (1;").message, "expected ')' after expression");
    assert_eq!(first_error("print f(1;").message, "Expect ')' after arguments.");
}

#[test]
fn text_that_is_no_token_is_reported() {
    let error = first_error("print 1 @ 2;");
    assert_eq!(error.message, "error during advance");
    assert_eq!(error.place, ErrorPlace::Text(text("@")));
    let error = first_error("print \"abc");
    assert_eq!(error.message, "error during advance");
    assert_eq!(error.place, ErrorPlace::Text(text("\"abc")));
}

#[test]
fn errors_after_the_first_are_suppressed_until_the_next_statement() {
    let errors = compile_source("print ; ; print 1 print 2;").expect_err("does not compile");
    let messages: Vec<&str> = errors.iter().map(|e| e.message.as_str()).collect();
    assert_eq!(messages, vec!["Expect expression", "Expect ';' after value."]);
    let errors = compile_source("print + * / 1;").expect_err("does not compile");
    assert_eq!(errors.len(), 1);
    let errors = compile_source("var 1; var 2; print 3").expect_err("does not compile");
    let lines: Vec<i32> = errors.iter().map(|e| e.line).collect();
    assert_eq!(lines, vec![1, 1, 1]);
}

#[test]
fn number_literals_are_listed_in_source_order() {
    assert_eq!(number_literals("print 1 + 2.5 * 30; // 4\n var x = \"5\"; x7 = 6.;"),
        vec![text("1"), text("2.5"), text("30"), text("6")]);
    assert_eq!(number_literals(""), Vec::<String>::new());
}

#[test]
fn try_compile_asks_for_one_value_per_literal() {
    assert!(try_compile("print 1 + 2;", vec![0]).is_none());
    assert!(try_compile("print 1 + 2;", vec![0, 0, 0]).is_none());
    let function = try_compile("print 1 + 2;", vec![7, 9]).expect("counts agree").expect("compiles");
    assert_codes(
        vec![
            OpCode::Constant(7),
            OpCode::Constant(9),
            OpCode::Add,
            OpCode::Print,
            OpCode::Nil,
            OpCode::Return,
        ],
        &function,
    );
}

#[test]
fn jumps_land_behind_themselves_and_inside_the_code() {
    let sources = [
        "if (true) print 1; else print 2;",
        "while (true) { if (false) print 1; }",
        "for (var i=0; i<3; i=i+1) { print i and true or false; }",
        "var a = 1; while (a < 3) a = a + 1;",
    ];
    for source in sources {
        let function = compile_source(source).unwrap();
        for i in 0..function.len() {
            match function.read_instruction(i).code {
                OpCode::Jump(offset) | OpCode::JumpIfFalse(offset) => {
                    assert!(i + 1 + offset > i);
                    assert!(i + 1 + offset < function.len());
                }
                OpCode::Loop(offset) => assert!(offset <= i + 1),
                _ => {}
            }
        }
    }
}
