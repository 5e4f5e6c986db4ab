//! The state of a compilation as a mathematical value, and what the
//! routines of the compiler that call no other routine do to it.

use vstd::prelude::*;
use crate::chunk::loop_to;
use crate::chunk::patched;
use crate::diagnostic::DiagnosticView;
use crate::diagnostic::ErrorPlaceView;
use crate::op_code::InstructionView;
use crate::op_code::OpCodeView;
use crate::scanner::lemma_scan_progress;
use crate::scanner::scan;
use crate::scanner::ScanStep;
use crate::scanner::skip_blanks;
use crate::scanner::Token;
use crate::scanner::TokenType;
use crate::value::FunctionView;

verus! {

/// A local variable during compilation: the token that names it and the
/// depth of its scope, which is `None` until the variable is initialized.
#[derive(Clone, Copy, Debug, PartialEq, Eq, Structural)]
pub struct Local {
    pub name: Token,
    pub depth: Option<usize>,
}

/// The state of a compilation as a mathematical value: the source and how
/// far it is read, the values of its number literals and how many are used,
/// the two tokens in view, the errors so far, and the function under
/// construction with its locals and scope depth.
pub ghost struct CompilerView {
    pub src: Seq<char>,
    pub cursor: int,
    pub line: int,
    pub numbers: Seq<u64>,
    pub next_number: int,
    pub current: Token,
    pub current_value: u64,
    pub previous: Token,
    pub previous_value: u64,
    pub had_error: bool,
    pub panic_mode: bool,
    pub diagnostics: Seq<DiagnosticView>,
    pub function: FunctionView,
    pub locals: Seq<Local>,
    pub scope_depth: usize,
}

/// How many number literals the scanner finds from `cursor` on.
#[verifier::opaque]
pub open spec fn number_count(src: Seq<char>, cursor: int, line: int) -> nat
    decreases src.len() - cursor,
{
    let step = scan(src, cursor, line);
    if 0 <= cursor < step.current <= src.len() && !(step.fault is None && step.token_type
        == TokenType::Eof) {
        number_count(src, step.current, step.line) + if step.fault is None && step.token_type
            == TokenType::Number {
            1nat
        } else {
            0nat
        }
    } else {
        0
    }
}

/// The texts of the number literals that the scanner finds from `cursor`
/// on, in their order.
#[verifier::opaque]
pub open spec fn number_texts(src: Seq<char>, cursor: int, line: int) -> Seq<Seq<char>>
    decreases src.len() - cursor,
{
    let step = scan(src, cursor, line);
    if 0 <= cursor < step.current <= src.len() && !(step.fault is None && step.token_type
        == TokenType::Eof) {
        if step.fault is None && step.token_type == TokenType::Number {
            seq![src.subrange(step.start, step.current)] + number_texts(
                src,
                step.current,
                step.line,
            )
        } else {
            number_texts(src, step.current, step.line)
        }
    } else {
        Seq::empty()
    }
}

/// There are as many number texts as number literals.
pub proof fn lemma_number_texts(src: Seq<char>, cursor: int, line: int)
    ensures
        number_texts(src, cursor, line).len() == number_count(src, cursor, line),
    decreases src.len() - cursor,
{
    reveal(number_texts);
    reveal(number_count);
    let step = scan(src, cursor, line);
    if 0 <= cursor < step.current <= src.len() && !(step.fault is None && step.token_type
        == TokenType::Eof) {
        lemma_number_texts(src, step.current, step.line);
    }
}

/// A step of the scanner that finds a number literal leaves one fewer to
/// find, any other step as many as before; none is left at the end of the
/// source.
pub proof fn lemma_number_count(src: Seq<char>, cursor: int, line: int)
    requires
        0 <= cursor <= src.len(),
    ensures
        ({
            let step = scan(src, cursor, line);
            number_count(src, cursor, line) == number_count(src, step.current, step.line)
                + if step.fault is None && step.token_type == TokenType::Number {
                1nat
            } else {
                0nat
            }
        }),
{
    reveal(number_count);
    lemma_scan_progress(src, cursor, line);
    let step = scan(src, cursor, line);
    if step.fault is None && step.token_type == TokenType::Eof {
        lemma_scan_progress(src, step.current, step.line);
        let again = scan(src, step.current, step.line);
        assert(number_count(src, cursor, line) == 0);
        assert(number_count(src, step.current, step.line) == 0);
    }
}

/// Whether a statement begins with a token of this kind.
pub open spec fn starts_statement(kind: TokenType) -> bool {
    kind == TokenType::Class || kind == TokenType::Fun || kind == TokenType::Var || kind
        == TokenType::For || kind == TokenType::If || kind == TokenType::While || kind
        == TokenType::Print || kind == TokenType::Return
}

/// The highest index below `n` of a local whose name reads `name`.
#[verifier::opaque]
pub open spec fn last_named(src: Seq<char>, locals: Seq<Local>, name: Seq<char>, n: int) -> Option<
    usize,
>
    decreases n,
{
    if n <= 0 || n > locals.len() {
        None
    } else if src.subrange(
        locals[n - 1].name.start as int,
        locals[n - 1].name.start + locals[n - 1].name.length,
    ) == name {
        Some((n - 1) as usize)
    } else {
        last_named(src, locals, name, n - 1)
    }
}

/// Whether one of the locals below index `n` that belong to the scope of
/// depth `depth`, or are not yet initialized, reads `name`. The search goes
/// down from `n` and ends at the first local of an outer scope.
#[verifier::opaque]
pub open spec fn declared_in_scope(
    src: Seq<char>,
    locals: Seq<Local>,
    depth: usize,
    name: Seq<char>,
    n: int,
) -> bool
    decreases n,
{
    if n <= 0 || n > locals.len() {
        false
    } else if locals[n - 1].depth is Some && locals[n - 1].depth->0 < depth {
        false
    } else {
        src.subrange(
            locals[n - 1].name.start as int,
            locals[n - 1].name.start + locals[n - 1].name.length,
        ) == name || declared_in_scope(src, locals, depth, name, n - 1)
    }
}

/// How many locals at the top of `locals` belong to scopes deeper than
/// `depth`.
#[verifier::opaque]
pub open spec fn locals_beyond(locals: Seq<Local>, depth: usize) -> nat
    decreases locals.len(),
{
    if locals.len() > 0 && locals.last().depth is Some && locals.last().depth->0 > depth {
        1 + locals_beyond(locals.drop_last(), depth)
    } else {
        0
    }
}

/// `code` followed by `count` instructions `Pop` of line `line`.
#[verifier::opaque]
pub open spec fn with_pops(code: Seq<InstructionView>, count: nat, line: i32) -> Seq<
    InstructionView,
>
    decreases count,
{
    if count == 0 {
        code
    } else {
        with_pops(code, (count - 1) as nat, line).push(
            InstructionView { code: OpCodeView::Pop, line },
        )
    }
}

impl CompilerView {
    /// The state before the first token is read.
    pub open spec fn start(src: Seq<char>, numbers: Seq<u64>) -> CompilerView {
        let none = Token { token_type: TokenType::Eof, line: 0, start: 0, length: 0 };
        CompilerView {
            src,
            cursor: 0,
            line: 1,
            numbers,
            next_number: 0,
            current: none,
            current_value: 0,
            previous: none,
            previous_value: 0,
            had_error: false,
            panic_mode: false,
            diagnostics: Seq::empty(),
            function: FunctionView { name: Seq::empty(), arity: 0, code: Seq::empty() },
            locals: Seq::empty(),
            scope_depth: 0,
        }
    }

    /// How far the compilation is from the end of the source: the
    /// characters not yet scanned, and one for a token in view that is not
    /// the end.
    pub open spec fn remaining(self) -> nat {
        let ahead: int = if self.current.token_type != TokenType::Eof {
            1
        } else {
            0
        };
        if 0 <= self.cursor <= self.src.len() {
            (self.src.len() - self.cursor + ahead) as nat
        } else {
            ahead as nat
        }
    }

    /// This state, as long as it is no further from the end of the source
    /// than `before`; else `before`. No routine of the compiler moves away
    /// from the end, so the second case never arises: it is here for the
    /// definitions below to be well-founded.
    pub open spec fn since(self, before: CompilerView) -> CompilerView {
        if self.remaining() <= before.remaining() {
            self
        } else {
            before
        }
    }

    /// The text of `token`.
    pub open spec fn lexeme(self, token: Token) -> Seq<char> {
        self.src.subrange(token.start as int, token.start + token.length)
    }

    /// The value of the number literal that is scanned next.
    pub open spec fn number_value(self) -> u64 {
        if 0 <= self.next_number < self.numbers.len() {
            self.numbers[self.next_number]
        } else {
            0
        }
    }

    /// The state with `token` in view and the token that was in view behind
    /// it. A number token takes the next of the number values.
    pub open spec fn set_token(self, token: Token) -> CompilerView {
        if token.token_type == TokenType::Number {
            CompilerView {
                previous: self.current,
                previous_value: self.current_value,
                current: token,
                current_value: self.number_value(),
                next_number: self.next_number + 1,
                ..self
            }
        } else {
            CompilerView {
                previous: self.current,
                previous_value: self.current_value,
                current: token,
                current_value: 0,
                ..self
            }
        }
    }

    /// Reports `diagnostic`, unless an error was reported since the last
    /// statement boundary.
    pub open spec fn report(self, diagnostic: DiagnosticView) -> CompilerView {
        if self.panic_mode {
            self
        } else {
            CompilerView {
                panic_mode: true,
                had_error: true,
                diagnostics: self.diagnostics.push(diagnostic),
                ..self
            }
        }
    }

    /// Reports text that the scanner could not read.
    pub open spec fn show_error(self, step: ScanStep) -> CompilerView {
        self.report(
            DiagnosticView {
                line: step.line as i32,
                place: ErrorPlaceView::Text(self.src.subrange(step.start, step.current)),
                message: "error during advance"@,
            },
        )
    }

    pub open spec fn error_at(self, token: Token, message: Seq<char>) -> CompilerView {
        self.report(
            DiagnosticView {
                line: token.line,
                place: if token.token_type == TokenType::Eof {
                    ErrorPlaceView::End
                } else {
                    ErrorPlaceView::Token(self.lexeme(token), token.token_type)
                },
                message,
            },
        )
    }

    pub open spec fn error(self, message: Seq<char>) -> CompilerView {
        self.error_at(self.previous, message)
    }

    pub open spec fn error_at_current(self, message: Seq<char>) -> CompilerView {
        self.error_at(self.current, message)
    }

    /// Reads the next token, reporting and passing over what is no token.
    #[verifier::opaque]
    pub open spec fn advance(self) -> CompilerView
        decreases self.src.len() - self.cursor,
    {
        let step = scan(self.src, self.cursor, self.line);
        let scanned = CompilerView { cursor: step.current, line: step.line, ..self };
        if step.fault is None {
            scanned.set_token(step.token())
        } else if self.cursor < step.current <= self.src.len() {
            scanned.show_error(step).advance()
        } else {
            scanned
        }
    }

    pub open spec fn check(self, token_type: TokenType) -> bool {
        self.current.token_type == token_type
    }

    /// Reads on if the token in view is of the given kind; `match_it`
    /// returns whether it was.
    pub open spec fn matched(self, token_type: TokenType) -> CompilerView {
        if self.check(token_type) {
            self.advance()
        } else {
            self
        }
    }

    /// Reads on if the token in view is of the given kind, else reports
    /// `message` at it.
    pub open spec fn consume(self, token_type: TokenType, message: Seq<char>) -> CompilerView {
        if self.check(token_type) {
            self.advance()
        } else {
            self.error_at_current(message)
        }
    }

    /// Leaves panic mode and skips tokens up to a statement boundary: behind
    /// a semicolon, or before a token that starts a statement.
    pub open spec fn synchronize(self) -> CompilerView {
        CompilerView { panic_mode: false, ..self }.skip_to_boundary()
    }

    #[verifier::opaque]
    pub open spec fn skip_to_boundary(self) -> CompilerView
        decreases self.remaining(),
    {
        if self.current.token_type == TokenType::Eof || self.previous.token_type
            == TokenType::Semicolon || starts_statement(self.current.token_type) {
            self
        } else {
            let next = self.advance();
            if next.remaining() < self.remaining() {
                next.skip_to_boundary()
            } else {
                next
            }
        }
    }

    /// The state with other code for the function under construction.
    pub open spec fn with_code(self, code: Seq<InstructionView>) -> CompilerView {
        CompilerView { function: FunctionView { code, ..self.function }, ..self }
    }

    /// The index that the next instruction written will have.
    pub open spec fn here(self) -> usize {
        self.function.code.len() as usize
    }

    /// Appends an instruction, with the line of the token read last.
    pub open spec fn write(self, code: OpCodeView) -> CompilerView {
        self.with_code(
            self.function.code.push(InstructionView { code, line: self.previous.line }),
        )
    }

    pub open spec fn emit_return(self) -> CompilerView {
        self.write(OpCodeView::Nil).write(OpCodeView::Return)
    }

    /// Appends the backward jump to the instruction at `loop_start`.
    pub open spec fn emit_loop(self, loop_start: usize) -> CompilerView {
        self.write(loop_to(self.function.code, loop_start as int))
    }

    /// Makes the jump at `site` land behind the last instruction.
    pub open spec fn patch_jump(self, site: usize) -> CompilerView {
        self.with_code(patched(self.function.code, site as int))
    }

    pub open spec fn begin_scope(self) -> CompilerView {
        CompilerView { scope_depth: (self.scope_depth + 1) as usize, ..self }
    }

    /// Leaves the scope: the locals of the scope go, and one `Pop` is
    /// written for each.
    pub open spec fn end_scope(self) -> CompilerView {
        let depth = (self.scope_depth - 1) as usize;
        let gone = locals_beyond(self.locals, depth);
        CompilerView {
            scope_depth: depth,
            locals: self.locals.take(self.locals.len() - gone),
            function: FunctionView {
                code: with_pops(self.function.code, gone, self.previous.line),
                ..self.function
            },
            ..self
        }
    }

    /// Leaves the scope of a function body: nothing is written, as the
    /// return takes the locals off the stack.
    pub open spec fn end_function_scope(self) -> CompilerView {
        CompilerView { scope_depth: (self.scope_depth - 1) as usize, ..self }
    }

    /// Marks the local declared last as initialized, in a scope.
    pub open spec fn mark_initialized(self) -> CompilerView {
        if self.scope_depth == 0 || self.locals.len() == 0 {
            self
        } else {
            CompilerView {
                locals: self.locals.update(
                    self.locals.len() - 1,
                    Local { depth: Some(self.scope_depth), ..self.locals.last() },
                ),
                ..self
            }
        }
    }

    /// Declares the local named by `token`, in a scope. A second variable
    /// of that name in the same scope is an error.
    pub open spec fn declare_variable(self, token: Token) -> CompilerView {
        if self.scope_depth == 0 {
            self
        } else {
            let checked = if declared_in_scope(
                self.src,
                self.locals,
                self.scope_depth,
                self.lexeme(token),
                self.locals.len() as int,
            ) {
                self.error("Already a variable with this name in scope."@)
            } else {
                self
            };
            CompilerView { locals: checked.locals.push(Local { name: token, depth: None }), ..checked }
        }
    }

    /// Reads the name of a variable. At the top level the name is that of
    /// a global, which `global_name` gives; in a scope, a local is declared.
    pub open spec fn parse_variable(self, message: Seq<char>) -> CompilerView {
        let named = self.consume(TokenType::Identifier, message);
        if named.scope_depth == 0 {
            named
        } else {
            named.declare_variable(named.previous)
        }
    }

    /// The name of the global that `parse_variable` has just read in this
    /// state, if it read one.
    pub open spec fn global_name(self) -> Option<Seq<char>> {
        if self.scope_depth == 0 {
            Some(self.lexeme(self.previous))
        } else {
            None
        }
    }

    pub open spec fn define_variable(self, global: Option<Seq<char>>) -> CompilerView {
        match global {
            Some(name) => self.write(OpCodeView::DefineGlobal(name)),
            None => self.mark_initialized(),
        }
    }

    /// The slot of the local called `name`: the one declared last.
    pub open spec fn local_slot(self, name: Seq<char>) -> Option<usize> {
        last_named(self.src, self.locals, name, self.locals.len() as int)
    }

    /// Looks `name` up among the locals; to find one that is not yet
    /// initialized is an error.
    pub open spec fn resolve_local(self, name: Seq<char>) -> CompilerView {
        match self.local_slot(name) {
            Some(slot) => if self.locals[slot as int].depth is None {
                self.error("Can't read variable in its own initializer"@)
            } else {
                self
            },
            None => self,
        }
    }

    pub open spec fn literal(self) -> CompilerView {
        match self.previous.token_type {
            TokenType::False => self.write(OpCodeView::Bool(false)),
            TokenType::Nil => self.write(OpCodeView::Nil),
            TokenType::True => self.write(OpCodeView::Bool(true)),
            _ => self,
        }
    }

    pub open spec fn number(self) -> CompilerView {
        self.write(OpCodeView::Constant(self.previous_value))
    }

    pub open spec fn string(self) -> CompilerView {
        self.write(
            OpCodeView::String(
                self.src.subrange(
                    self.previous.start + 1,
                    self.previous.start + self.previous.length - 1,
                ),
            ),
        )
    }

    /// The instructions that the binary operator `operator` stands for.
    pub open spec fn binary_code(self, operator: TokenType) -> CompilerView {
        match operator {
            TokenType::BangEqual => self.write(OpCodeView::Equal).write(OpCodeView::Not),
            TokenType::EqualEqual => self.write(OpCodeView::Equal),
            TokenType::Greater => self.write(OpCodeView::Greater),
            TokenType::GreaterEqual => self.write(OpCodeView::Less).write(OpCodeView::Not),
            TokenType::Less => self.write(OpCodeView::Less),
            TokenType::LessEqual => self.write(OpCodeView::Greater).write(OpCodeView::Not),
            TokenType::Plus => self.write(OpCodeView::Add),
            TokenType::Minus => self.write(OpCodeView::Subtract),
            TokenType::Star => self.write(OpCodeView::Multiply),
            TokenType::Slash => self.write(OpCodeView::Divide),
            _ => self,
        }
    }

    /// The parameters of a function, from the first name on: each is
    /// counted and declared as an initialized local.
    #[verifier::opaque]
    pub open spec fn parameters(self) -> CompilerView
        decreases self.remaining(),
    {
        let counted = CompilerView {
            function: FunctionView {
                arity: (self.function.arity + 1) as usize,
                ..self.function
            },
            ..self
        };
        let named = counted.parse_variable("Expected parameter name."@);
        let defined = named.define_variable(named.global_name());
        if defined.check(TokenType::Comma) {
            let next = defined.advance();
            if next.remaining() < self.remaining() {
                next.parameters()
            } else {
                next
            }
        } else {
            defined
        }
    }
}

/// Reading a token never leads away from the end of the source, and leads
/// towards it unless the end was in view. The token that was in view is
/// then the previous one. Function, locals and scope stay as they are.
pub broadcast proof fn lemma_advance(c: CompilerView)
    ensures
        #![trigger c.advance()]
        c.advance().remaining() <= c.remaining(),
        c.current.token_type != TokenType::Eof ==> c.advance().remaining() < c.remaining(),
        c.advance().previous == c.current,
        c.advance().function == c.function,
        c.advance().locals == c.locals,
        c.advance().scope_depth == c.scope_depth,
        c.advance().src == c.src,
        c.advance().numbers == c.numbers,
    decreases c.src.len() - c.cursor,
{
    reveal(CompilerView::advance);
    let step = scan(c.src, c.cursor, c.line);
    let scanned = CompilerView { cursor: step.current, line: step.line, ..c };
    if 0 <= c.cursor <= c.src.len() {
        lemma_scan_progress(c.src, c.cursor, c.line);
    } else {
        assert(skip_blanks(c.src, c.cursor, c.line) == (c.cursor, c.line));
    }
    if step.fault is Some {
        lemma_advance(scanned.show_error(step));
    }
}

/// Whether `after` is a state that a parsing routine may leave behind when
/// it is entered in `before`: the same source and number values, no further
/// from the end of the source, the same scope depth, and the same function
/// under construction with nothing changed in the code that was there.
pub open spec fn carries(before: CompilerView, after: CompilerView) -> bool {
    &&& after.src == before.src
    &&& after.numbers == before.numbers
    &&& after.remaining() <= before.remaining()
    &&& after.scope_depth == before.scope_depth
    &&& after.function.name == before.function.name
    &&& after.function.arity == before.function.arity
    &&& before.function.code.len() <= after.function.code.len()
    &&& forall|i: int|
        0 <= i < before.function.code.len() ==> #[trigger] after.function.code[i]
            == before.function.code[i]
}

/// Whether every local is initialized and belongs to the current scope or
/// to one that encloses it: the state between two declarations.
pub open spec fn settled(c: CompilerView) -> bool {
    forall|i: int|
        0 <= i < c.locals.len() ==> (#[trigger] c.locals[i]).depth is Some && c.locals[i].depth->0
            <= c.scope_depth
}

/// Whether `after` has the locals of `before` and behind them none but
/// initialized locals of the scope of `before`: what declarations do to the
/// locals.
pub open spec fn declares(before: CompilerView, after: CompilerView) -> bool {
    &&& before.locals.len() <= after.locals.len()
    &&& after.locals.take(before.locals.len() as int) == before.locals
    &&& forall|i: int|
        before.locals.len() <= i < after.locals.len() ==> (#[trigger] after.locals[i]).depth
            == Some(before.scope_depth)
}

/// A state that has the locals of another declares nothing.
pub proof fn lemma_declares_nothing(before: CompilerView, after: CompilerView)
    requires
        after.locals == before.locals,
    ensures
        declares(before, after),
        settled(before) && after.scope_depth == before.scope_depth ==> settled(after),
{
    assert(after.locals.take(before.locals.len() as int) =~= before.locals);
}

/// Declarations that follow one another declare what each of them does.
pub proof fn lemma_declares_more(before: CompilerView, between: CompilerView, after: CompilerView)
    requires
        declares(before, between),
        declares(between, after),
        between.scope_depth == before.scope_depth,
    ensures
        declares(before, after),
{
    assert(after.locals.take(before.locals.len() as int) =~= before.locals) by {
        assert forall|i: int| 0 <= i < before.locals.len() implies after.locals[i]
            == before.locals[i] by {
            assert(after.locals.take(between.locals.len() as int)[i] == between.locals[i]);
            assert(between.locals.take(before.locals.len() as int)[i] == before.locals[i]);
        }
    }
    assert forall|i: int| before.locals.len() <= i < after.locals.len() implies (
    #[trigger] after.locals[i]).depth == Some(before.scope_depth) by {
        if i < between.locals.len() {
            assert(after.locals.take(between.locals.len() as int)[i] == between.locals[i]);
        }
    }
}

/// A local that is declared and then initialized in a settled state is
/// declared, and the state is settled again.
pub proof fn lemma_declares_one(before: CompilerView, after: CompilerView, name: Token)
    requires
        settled(before),
        after.scope_depth == before.scope_depth,
        before.scope_depth > 0,
        after.locals == before.locals.push(
            Local { name, depth: Some(before.scope_depth) },
        ),
    ensures
        declares(before, after),
        settled(after),
{
    assert(after.locals.take(before.locals.len() as int) =~= before.locals);
}

/// `with_pops` appends: the code that was there stays as it is, and each
/// instruction behind it is a `Pop`.
pub broadcast proof fn lemma_with_pops(code: Seq<InstructionView>, count: nat, line: i32)
    ensures
        #![trigger with_pops(code, count, line)]
        with_pops(code, count, line).len() == code.len() + count,
        forall|i: int| 0 <= i < code.len() ==> #[trigger] with_pops(code, count, line)[i] == code[i],
        forall|i: int|
            code.len() <= i < code.len() + count ==> #[trigger] with_pops(code, count, line)[i] == (
            InstructionView { code: OpCodeView::Pop, line }),
    decreases count,
{
    reveal(with_pops);
    if count > 0 {
        lemma_with_pops(code, (count - 1) as nat, line);
    }
}

/// No more locals lie beyond a depth than there are locals.
pub proof fn lemma_locals_beyond(locals: Seq<Local>, depth: usize)
    ensures
        locals_beyond(locals, depth) <= locals.len(),
    decreases locals.len(),
{
    reveal(locals_beyond);
    if locals.len() > 0 && locals.last().depth is Some && locals.last().depth->0 > depth {
        lemma_locals_beyond(locals.drop_last(), depth);
    }
}

/// Leaving a scope writes one `Pop` for each local that goes, and nothing
/// else: the code grows by as many instructions as the locals shrink, each
/// of them a `Pop`, and the locals that go are those at the top that belong
/// to deeper scopes.
pub proof fn lemma_end_scope(c: CompilerView)
    requires
        c.scope_depth > 0,
    ensures
        c.end_scope().scope_depth == c.scope_depth - 1,
        c.end_scope().locals.len() <= c.locals.len(),
        c.end_scope().locals == c.locals.take(c.end_scope().locals.len() as int),
        c.end_scope().function.code.len() - c.function.code.len() == c.locals.len()
            - c.end_scope().locals.len(),
        forall|i: int|
            0 <= i < c.function.code.len() ==> #[trigger] c.end_scope().function.code[i]
                == c.function.code[i],
        forall|i: int|
            c.function.code.len() <= i < c.end_scope().function.code.len()
                ==> (#[trigger] c.end_scope().function.code[i]).code == OpCodeView::Pop,
        forall|i: int|
            c.end_scope().locals.len() <= i < c.locals.len() ==> (#[trigger] c.locals[i]).depth
                is Some && c.locals[i].depth->0 >= c.scope_depth,
        c.end_scope().locals.len() > 0 ==> !(c.end_scope().locals.last().depth is Some
            && c.end_scope().locals.last().depth->0 >= c.scope_depth),
{
    let depth = (c.scope_depth - 1) as usize;
    lemma_locals_beyond(c.locals, depth);
    lemma_with_pops(c.function.code, locals_beyond(c.locals, depth), c.previous.line);
    lemma_locals_gone(c.locals, depth);
}

/// Every local that was declared in a scope goes when the scope is left,
/// and one `Pop` is written for each: where the locals are those of the
/// outer scopes, `outer`, with the initialized locals of the scope behind
/// them, leaving the scope gives back `outer` and appends as many `Pop` as
/// the scope had locals.
pub proof fn lemma_scope_exit(c: CompilerView, outer: Seq<Local>)
    requires
        c.scope_depth > 0,
        outer.len() <= c.locals.len(),
        c.locals.take(outer.len() as int) == outer,
        outer.len() > 0 ==> !(outer.last().depth is Some && outer.last().depth->0
            >= c.scope_depth),
        forall|i: int|
            outer.len() <= i < c.locals.len() ==> (#[trigger] c.locals[i]).depth is Some
                && c.locals[i].depth->0 >= c.scope_depth,
    ensures
        c.end_scope().locals == outer,
        c.end_scope().scope_depth == c.scope_depth - 1,
        c.end_scope().function.code.len() == c.function.code.len() + (c.locals.len()
            - outer.len()),
        forall|i: int|
            0 <= i < c.function.code.len() ==> #[trigger] c.end_scope().function.code[i]
                == c.function.code[i],
        forall|i: int|
            c.function.code.len() <= i < c.end_scope().function.code.len()
                ==> #[trigger] c.end_scope().function.code[i] == (InstructionView {
                code: OpCodeView::Pop,
                line: c.previous.line,
            }),
{
    let depth = (c.scope_depth - 1) as usize;
    lemma_locals_gone(c.locals, depth);
    lemma_with_pops(c.function.code, locals_beyond(c.locals, depth), c.previous.line);
    let kept = c.locals.len() - locals_beyond(c.locals, depth);
    if kept < outer.len() {
        assert(c.locals[outer.len() - 1] == outer.last());
    }
    if kept > outer.len() {
        assert(c.locals[kept - 1].depth is Some);
    }
    assert(kept == outer.len());
}

/// The locals beyond a depth are the topmost ones, all of deeper scopes,
/// and the local under them is not.
proof fn lemma_locals_gone(locals: Seq<Local>, depth: usize)
    ensures
        locals_beyond(locals, depth) <= locals.len(),
        forall|i: int|
            locals.len() - locals_beyond(locals, depth) <= i < locals.len() ==> (
            #[trigger] locals[i]).depth is Some && locals[i].depth->0 > depth,
        locals.len() > locals_beyond(locals, depth) ==> !(locals[locals.len() - locals_beyond(
            locals,
            depth,
        ) - 1].depth is Some && locals[locals.len() - locals_beyond(locals, depth) - 1].depth->0
            > depth),
    decreases locals.len(),
{
    reveal(locals_beyond);
    if locals.len() > 0 && locals.last().depth is Some && locals.last().depth->0 > depth {
        let rest = locals.drop_last();
        lemma_locals_gone(rest, depth);
        assert forall|i: int|
            locals.len() - locals_beyond(locals, depth) <= i < locals.len() implies (
        #[trigger] locals[i]).depth is Some && locals[i].depth->0 > depth by {
            if i < rest.len() {
                assert(rest[i] == locals[i]);
            }
        }
        if locals.len() > locals_beyond(locals, depth) {
            let under = locals.len() - locals_beyond(locals, depth) - 1;
            assert(rest[under] == locals[under]);
        }
    }
}

/// A name resolves to the local declared last under it: the slot found is
/// the highest one whose local reads `name`, and no slot is found only if no
/// local reads it.
pub proof fn lemma_local_slot(c: CompilerView, name: Seq<char>)
    requires
        c.locals.len() <= usize::MAX,
    ensures
        match c.local_slot(name) {
            Some(slot) => {
                &&& slot < c.locals.len()
                &&& c.lexeme(c.locals[slot as int].name) == name
                &&& forall|i: int|
                    slot < i < c.locals.len() ==> c.lexeme((#[trigger] c.locals[i]).name) != name
            },
            None => forall|i: int|
                0 <= i < c.locals.len() ==> c.lexeme((#[trigger] c.locals[i]).name) != name,
        },
{
    lemma_last_named(c.src, c.locals, name, c.locals.len() as int);
}

proof fn lemma_last_named(src: Seq<char>, locals: Seq<Local>, name: Seq<char>, n: int)
    requires
        0 <= n <= locals.len() <= usize::MAX,
    ensures
        match last_named(src, locals, name, n) {
            Some(slot) => {
                &&& slot < n
                &&& src.subrange(
                    locals[slot as int].name.start as int,
                    locals[slot as int].name.start + locals[slot as int].name.length,
                ) == name
                &&& forall|i: int|
                    slot < i < n ==> src.subrange(
                        (#[trigger] locals[i]).name.start as int,
                        locals[i].name.start + locals[i].name.length,
                    ) != name
            },
            None => forall|i: int|
                0 <= i < n ==> src.subrange(
                    (#[trigger] locals[i]).name.start as int,
                    locals[i].name.start + locals[i].name.length,
                ) != name,
        },
    decreases n,
{
    reveal(last_named);
    if n > 0 {
        lemma_last_named(src, locals, name, n - 1);
    }
}

/// A second variable of one name in one scope is an error: if a local reads
/// as `token` does, and neither it nor any local declared after it belongs
/// to an outer scope, then declaring `token` reports the error, unless an
/// error is being recovered from.
pub proof fn lemma_declared_twice(c: CompilerView, token: Token, slot: int)
    requires
        c.scope_depth > 0,
        0 <= slot < c.locals.len(),
        c.lexeme(c.locals[slot].name) == c.lexeme(token),
        forall|i: int|
            slot <= i < c.locals.len() ==> !((#[trigger] c.locals[i]).depth is Some
                && c.locals[i].depth->0 < c.scope_depth),
    ensures
        !c.panic_mode ==> c.declare_variable(token).had_error,
        !c.panic_mode ==> c.declare_variable(token).diagnostics == c.diagnostics.push(
            DiagnosticView {
                line: c.previous.line,
                place: if c.previous.token_type == TokenType::Eof {
                    ErrorPlaceView::End
                } else {
                    ErrorPlaceView::Token(c.lexeme(c.previous), c.previous.token_type)
                },
                message: "Already a variable with this name in scope."@,
            },
        ),
{
    lemma_declared_from(c.src, c.locals, c.scope_depth, c.lexeme(token), slot, c.locals.len() as int);
}

proof fn lemma_declared_from(
    src: Seq<char>,
    locals: Seq<Local>,
    depth: usize,
    name: Seq<char>,
    slot: int,
    n: int,
)
    requires
        0 <= slot < n <= locals.len(),
        src.subrange(locals[slot].name.start as int, locals[slot].name.start + locals[slot].name.length)
            == name,
        forall|i: int|
            slot <= i < n ==> !((#[trigger] locals[i]).depth is Some && locals[i].depth->0 < depth),
    ensures
        declared_in_scope(src, locals, depth, name, n),
    decreases n,
{
    reveal(declared_in_scope);
    if n - 1 > slot {
        lemma_declared_from(src, locals, depth, name, slot, n - 1);
    }
}

/// A local may shadow one of an outer scope: where the local declared last
/// belongs to an outer scope, or there is none, declaring a variable of any
/// name reports nothing.
pub proof fn lemma_shadowing(c: CompilerView, token: Token)
    requires
        c.locals.len() > 0 ==> c.locals.last().depth is Some && c.locals.last().depth->0
            < c.scope_depth,
    ensures
        c.declare_variable(token).had_error == c.had_error,
        c.declare_variable(token).diagnostics == c.diagnostics,
        c.scope_depth > 0 ==> c.declare_variable(token).locals == c.locals.push(
            Local { name: token, depth: None },
        ),
{
    reveal(declared_in_scope);
}

} // verus!
