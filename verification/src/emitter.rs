//! The compiler's state and the routines that work on it directly: reading
//! tokens, reporting errors, writing and patching instructions, entering
//! and leaving scopes, declaring and resolving locals.

use vstd::prelude::*;
use crate::chunk::in_order;
use crate::chunk::is_jump;
use crate::chunk::jumps_within;
use crate::chunk::lemma_jumps_complete;
use crate::chunk::lemma_jumps_limit;
use crate::chunk::lemma_jumps_patched;
use crate::chunk::lemma_jumps_push;
use crate::chunk::well_formed;
use crate::compiler::CompileResult;
use crate::diagnostic::Diagnostic;
use crate::diagnostic::DiagnosticView;
use crate::diagnostic::ErrorPlace;
use crate::diagnostic::ErrorPlaceView;
use crate::op_code::InstructionView;
use crate::op_code::OpCode;
use crate::op_code::OpCodeView;
use crate::scanner::ErrorToken;
use crate::scanner::lemma_scan_progress;
use crate::scanner::Scanner;
use crate::scanner::Token;
use crate::scanner::TokenType;
use crate::state::CompilerView;
use crate::state::declared_in_scope;
use crate::state::last_named;
use crate::state::lemma_advance;
use crate::state::Local;
use crate::state::locals_beyond;
use crate::state::number_count;
use crate::state::with_pops;
use crate::value::Function;
use crate::value::FunctionView;

verus! {

broadcast use lemma_advance;

/// The two tokens in view, the values they stand for if they are numbers,
/// and whether an error was reported: ever, and since the last statement
/// boundary.
struct Parser {
    current: Token,
    previous: Token,
    current_value: u64,
    previous_value: u64,
    had_error: bool,
    panic_mode: bool,
}

impl Parser {
    fn new() -> (parser: Self)
        ensures
            parser.current == (Token { token_type: TokenType::Eof, line: 0, start: 0, length: 0 }),
            parser.previous == parser.current,
            parser.current_value == 0,
            parser.previous_value == 0,
            !parser.had_error,
            !parser.panic_mode,
    {
        Self {
            current: Token { token_type: TokenType::Eof, line: 0, start: 0, length: 0 },
            previous: Token { token_type: TokenType::Eof, line: 0, start: 0, length: 0 },
            current_value: 0,
            previous_value: 0,
            had_error: false,
            panic_mode: false,
        }
    }

    fn set_token(&mut self, token: Token, value: u64)
        ensures
            *final(self) == (Parser {
                previous: old(self).current,
                previous_value: old(self).current_value,
                current: token,
                current_value: value,
                ..*old(self)
            }),
    {
        self.previous = self.current;
        self.previous_value = self.current_value;
        self.current = token;
        self.current_value = value;
    }

    fn had_error(&mut self)
        ensures
            *final(self) == (Parser { had_error: true, ..*old(self) }),
    {
        self.had_error = true;
    }

    fn panic(&mut self)
        ensures
            *final(self) == (Parser { panic_mode: true, ..*old(self) }),
    {
        self.panic_mode = true;
    }

    fn no_panic(&mut self)
        ensures
            *final(self) == (Parser { panic_mode: false, ..*old(self) }),
    {
        self.panic_mode = false;
    }

    fn check(&self, token_type: TokenType) -> (same: bool)
        ensures
            same == (self.current.token_type == token_type),
    {
        self.current.token_type == token_type
    }
}

/// The function under construction with its locals and scope depth.
pub(crate) struct CompilerContext {
    function: Function,
    locals: Vec<Local>,
    scope_depth: usize,
}

impl CompilerContext {
    /// The state `c` with this context in place of its own.
    pub(crate) closed spec fn within(&self, c: CompilerView) -> CompilerView {
        CompilerView {
            function: self.function@,
            locals: self.locals@,
            scope_depth: self.scope_depth,
            ..c
        }
    }

    /// Whether the context can be that of a compilation in state `c`: its
    /// locals lie in the source, and its scopes are no more than the tokens
    /// read.
    pub(crate) closed spec fn fits(&self, c: CompilerView) -> bool {
        &&& forall|i: int|
            0 <= i < self.locals@.len() ==> token_ok(c.src, #[trigger] self.locals@[i].name)
        &&& self.scope_depth + c.remaining() <= c.src.len()
        &&& jumps_within(self.function@.code, self.function@.code.len() as int)
    }

    /// A context that fits a state fits every state of the same source that
    /// is no further from its end.
    pub(crate) proof fn lemma_fits(&self, before: CompilerView, after: CompilerView)
        requires
            self.fits(before),
            self.within(before) == before,
            after.src == before.src,
            after.remaining() <= before.remaining(),
        ensures
            self.fits(after),
            self.within(after) == (CompilerView {
                function: before.function,
                locals: before.locals,
                scope_depth: before.scope_depth,
                ..after
            }),
    {
    }

    fn new(function_name: String) -> (context: Self)
        ensures
            context.function@ == (FunctionView {
                name: function_name@,
                arity: 0,
                code: Seq::empty(),
            }),
            context.locals@ == Seq::<Local>::empty(),
            context.scope_depth == 0,
    {
        Self { function: Function::new(function_name), locals: Vec::with_capacity(256), scope_depth: 0 }
    }

    fn mark_initialized(&mut self)
        ensures
            final(self).function == old(self).function,
            final(self).scope_depth == old(self).scope_depth,
            final(self).locals@ == if old(self).scope_depth == 0 || old(self).locals@.len() == 0 {
                old(self).locals@
            } else {
                old(self).locals@.update(
                    old(self).locals@.len() - 1,
                    Local { depth: Some(old(self).scope_depth), ..old(self).locals@.last() },
                )
            },
    {
        if self.scope_depth == 0 || self.locals.len() == 0 {
            return ;
        }
        let pos = self.locals.len() - 1;
        let name = self.locals[pos].name;
        self.locals.set(pos, Local { name, depth: Some(self.scope_depth) });
    }

    fn begin_scope(&mut self)
        requires
            old(self).scope_depth < usize::MAX,
        ensures
            final(self).function == old(self).function,
            final(self).locals == old(self).locals,
            final(self).scope_depth == old(self).scope_depth + 1,
    {
        self.scope_depth += 1;
    }

    fn end_scope(&mut self, line: i32)
        requires
            old(self).scope_depth > 0,
        ensures
            final(self).scope_depth == old(self).scope_depth - 1,
            final(self).function.same_header(&old(self).function),
            locals_beyond(old(self).locals@, final(self).scope_depth) <= old(self).locals@.len(),
            final(self).locals@ == old(self).locals@.take(
                old(self).locals@.len() - locals_beyond(
                    old(self).locals@,
                    final(self).scope_depth,
                ),
            ),
            final(self).function@.code == with_pops(
                old(self).function@.code,
                locals_beyond(old(self).locals@, final(self).scope_depth),
                line,
            ),
    {
        proof {
            reveal(locals_beyond);
            reveal(with_pops);
        }
        self.scope_depth -= 1;
        let ghost depth = self.scope_depth;
        let ghost gone: nat = 0;
        proof {
            assert(self.locals@ =~= old(self).locals@.take(old(self).locals@.len() - 0));
        }
        while self.locals.len() > 0 && self.locals[self.locals.len() - 1].depth.is_some()
            && self.locals[self.locals.len() - 1].depth.unwrap() > self.scope_depth
            invariant
                self.scope_depth == depth,
                self.function.same_header(&old(self).function),
                gone <= old(self).locals@.len(),
                self.locals@ == old(self).locals@.take(old(self).locals@.len() - gone),
                locals_beyond(self.locals@, depth) + gone == locals_beyond(old(self).locals@, depth),
                self.function@.code == with_pops(old(self).function@.code, gone, line),
            decreases self.locals@.len(),
        {
            proof {
                reveal(locals_beyond);
                reveal(with_pops);
            }
            let ghost before = self.locals@;
            let _ = self.locals.pop();
            self.write(OpCode::Pop, line);
            proof {
                assert(self.locals@ =~= before.drop_last());
                assert(self.locals@ =~= old(self).locals@.take(
                    old(self).locals@.len() - (gone + 1),
                ));
                gone = gone + 1;
            }
        }
    }

    fn end_function_scope(&mut self)
        requires
            old(self).scope_depth > 0,
        ensures
            final(self).function == old(self).function,
            final(self).locals == old(self).locals,
            final(self).scope_depth == old(self).scope_depth - 1,
    {
        self.scope_depth -= 1;
    }

    fn write(&mut self, code: OpCode, line: i32)
        ensures
            final(self).locals == old(self).locals,
            final(self).scope_depth == old(self).scope_depth,
            final(self).function.same_header(&old(self).function),
            final(self).function@.code == old(self).function@.code.push(
                InstructionView { code: code@, line },
            ),
    {
        self.function.write(code, line);
    }

    /// The index that the next instruction written will have.
    fn here(&self) -> (index: usize)
        ensures
            index == self.function@.code.len(),
    {
        self.function.len()
    }

    fn emit_jump(&mut self, code: OpCode, line: i32) -> (site: usize)
        ensures
            final(self).locals == old(self).locals,
            final(self).scope_depth == old(self).scope_depth,
            final(self).function.same_header(&old(self).function),
            final(self).function@.code == old(self).function@.code.push(
                InstructionView { code: code@, line },
            ),
            site == old(self).function@.code.len(),
    {
        self.function.emit_jump(code, line)
    }

    fn emit_loop(&mut self, loop_start: usize, line: i32)
        requires
            loop_start <= old(self).function@.code.len(),
        ensures
            final(self).locals == old(self).locals,
            final(self).scope_depth == old(self).scope_depth,
            final(self).function.same_header(&old(self).function),
            final(self).function@.code == old(self).function@.code.push(
                InstructionView {
                    code: crate::chunk::loop_to(old(self).function@.code, loop_start as int),
                    line,
                },
            ),
    {
        self.function.emit_loop(loop_start, line);
    }

    fn patch_jump(&mut self, offset: usize)
        requires
            offset < old(self).function@.code.len(),
            is_jump(old(self).function@.code[offset as int].code),
        ensures
            final(self).locals == old(self).locals,
            final(self).scope_depth == old(self).scope_depth,
            final(self).function.same_header(&old(self).function),
            final(self).function@.code == crate::chunk::patched(
                old(self).function@.code,
                offset as int,
            ),
    {
        self.function.patch_jump(offset);
    }
}

/// Code stays in order when instructions `Pop` are appended.
proof fn lemma_jumps_pops(code: Seq<InstructionView>, count: nat, line: i32)
    requires
        jumps_within(code, code.len() as int),
    ensures
        jumps_within(with_pops(code, count, line), with_pops(code, count, line).len() as int),
    decreases count,
{
    reveal(with_pops);
    if count > 0 {
        let shorter = with_pops(code, (count - 1) as nat, line);
        lemma_jumps_pops(code, (count - 1) as nat, line);
        lemma_jumps_limit(shorter, shorter.len() as int, (shorter.len() + 1) as int);
        lemma_jumps_push(
            shorter,
            InstructionView { code: OpCodeView::Pop, line },
            (shorter.len() + 1) as int,
        );
    }
}

/// A compilation in progress.
pub(crate) struct Compiler {
    scanner: Scanner,
    parser: Parser,
    context: CompilerContext,
    numbers: Vec<u64>,
    next_number: usize,
    diagnostics: Vec<Diagnostic>,
}

/// Whether `token` lies in the source, and holds both quotes if it is a
/// string.
pub(crate) open spec fn token_ok(src: Seq<char>, token: Token) -> bool {
    &&& token.start + token.length <= src.len()
    &&& token.token_type == TokenType::String ==> token.length >= 2
}

impl View for Compiler {
    type V = CompilerView;

    closed spec fn view(&self) -> CompilerView {
        CompilerView {
            src: self.scanner.src(),
            cursor: self.scanner.current(),
            line: self.scanner.line(),
            numbers: self.numbers@,
            next_number: self.next_number as int,
            current: self.parser.current,
            current_value: self.parser.current_value,
            previous: self.parser.previous,
            previous_value: self.parser.previous_value,
            had_error: self.parser.had_error,
            panic_mode: self.parser.panic_mode,
            diagnostics: self.diagnostics@.map_values(|d: Diagnostic| d@),
            function: self.context.function@,
            locals: self.context.locals@,
            scope_depth: self.context.scope_depth,
        }
    }
}

impl Compiler {
    /// The invariant of a compilation: the tokens in view and the names of
    /// the locals lie in the source, there is a value for each number
    /// literal still to be scanned, and the scopes entered are no more than
    /// the tokens read.
    pub(crate) closed spec fn wf(&self) -> bool {
        &&& self.scanner.wf()
        &&& self.scanner.src().len() <= usize::MAX
        &&& 1 <= self.scanner.line() <= i32::MAX
        &&& 0 <= self.scanner.current() <= self.scanner.src().len()
        &&& token_ok(self.scanner.src(), self.parser.previous)
        &&& token_ok(self.scanner.src(), self.parser.current)
        &&& forall|i: int|
            0 <= i < self.context.locals@.len() ==> token_ok(
                self.scanner.src(),
                #[trigger] self.context.locals@[i].name,
            )
        &&& self.next_number + number_count(
            self.scanner.src(),
            self.scanner.current(),
            self.scanner.line(),
        ) == self.numbers@.len()
        &&& self.context.scope_depth + self@.remaining() <= self.scanner.src().len()
        &&& jumps_within(self.context.function@.code, self.context.function@.code.len() as int)
    }

    pub(crate) fn new(source: &str, numbers: Vec<u64>) -> (compiler: Self)
        requires
            numbers@.len() == number_count(source@, 0, 1),
        ensures
            compiler.wf(),
            compiler@ == CompilerView::start(source@, numbers@),
    {
        let scanner = Scanner::new(source);
        proof {
            scanner.lemma_text_fits();
        }
        let compiler = Self {
            scanner,
            parser: Parser::new(),
            context: CompilerContext::new(String::new()),
            numbers,
            next_number: 0,
            diagnostics: Vec::new(),
        };
        proof {
            assert(compiler@.diagnostics =~= Seq::empty());
        }
        compiler
    }

    /// Reads the next token, reporting and passing over what is no token.
    pub(crate) fn advance(&mut self)
        requires
            old(self).wf(),
        ensures
            final(self).wf(),
            final(self)@ == old(self)@.advance(),
    {
        proof {
            reveal(CompilerView::advance);
        }
        loop
            invariant
                self.wf(),
                self@.advance() == old(self)@.advance(),
                self@.remaining() <= old(self)@.remaining(),
                self@.current == old(self)@.current,
            decreases self@.src.len() - self@.cursor,
        {
            proof {
                reveal(CompilerView::advance);
            }
            let ghost before = self@;
            proof {
                lemma_scan_progress(before.src, before.cursor, before.line);
                crate::state::lemma_number_count(before.src, before.cursor, before.line);
            }
            match self.scanner.scan_token() {
                Ok(token) => {
                    let value = if token.token_type == TokenType::Number {
                        let value = self.numbers[self.next_number];
                        assert(self.numbers@.len() == self.numbers.len());
                        self.next_number += 1;
                        value
                    } else {
                        0
                    };
                    self.parser.set_token(token, value);
                    return ;
                },
                Err(err_token) => self.show_error(err_token, "error during advance"),
            }
        }
    }

    pub(crate) fn consume(&mut self, token_type: TokenType, message: &str)
        requires
            old(self).wf(),
        ensures
            final(self).wf(),
            final(self)@ == old(self)@.consume(token_type, message@),
    {
        if self.check(token_type) {
            self.advance();
            return ;
        }
        self.error_at_current(message);
    }

    pub(crate) fn check(&self, token_type: TokenType) -> (same: bool)
        ensures
            same == self@.check(token_type),
    {
        self.parser.check(token_type)
    }

    /// Reads on if the token in view is of the given kind.
    pub(crate) fn match_it(&mut self, token_type: TokenType) -> (matched: bool)
        requires
            old(self).wf(),
        ensures
            final(self).wf(),
            matched == old(self)@.check(token_type),
            final(self)@ == old(self)@.matched(token_type),
    {
        if !self.check(token_type) {
            return false;
        }
        self.advance();
        true
    }

    pub(crate) fn end_compiler(&mut self)
        requires
            old(self).wf(),
        ensures
            final(self).wf(),
            final(self)@ == old(self)@.emit_return(),
            well_formed(final(self)@.function.code),
    {
        proof {
            lemma_jumps_complete(
                self.context.function@.code,
                self.parser.previous.line,
                self.parser.previous.line,
            );
        }
        self.emit_return();
    }

    pub(crate) fn emit_return(&mut self)
        requires
            old(self).wf(),
        ensures
            final(self).wf(),
            final(self)@ == old(self)@.emit_return(),
    {
        self.write(OpCode::Nil);
        self.write(OpCode::Return);
    }

    pub(crate) fn literal(&mut self, _can_assign: bool)
        requires
            old(self).wf(),
        ensures
            final(self).wf(),
            final(self)@ == old(self)@.literal(),
    {
        let token_type = self.parser.previous.token_type;
        match token_type {
            TokenType::False => self.write(OpCode::Bool(false)),
            TokenType::Nil => self.write(OpCode::Nil),
            TokenType::True => self.write(OpCode::Bool(true)),
            _ => {},
        }
    }

    pub(crate) fn number(&mut self, _can_assign: bool)
        requires
            old(self).wf(),
        ensures
            final(self).wf(),
            final(self)@ == old(self)@.number(),
    {
        let num = self.parser.previous_value;
        self.write(OpCode::Constant(num));
    }

    pub(crate) fn string(&mut self, _can_assign: bool)
        requires
            old(self).wf(),
            old(self)@.previous.token_type == TokenType::String,
        ensures
            final(self).wf(),
            final(self)@ == old(self)@.string(),
    {
        let string = self.lexeme_string(&self.parser.previous);
        self.write(OpCode::String(string));
    }

    pub(crate) fn write(&mut self, code: OpCode)
        requires
            old(self).wf(),
            in_order(
                code@,
                old(self)@.function.code.len() as int,
                (old(self)@.function.code.len() + 1) as int,
            ),
        ensures
            final(self).wf(),
            final(self)@ == old(self)@.write(code@),
    {
        let line = self.parser.previous.line;
        proof {
            let before = self.context.function@.code;
            lemma_jumps_limit(before, before.len() as int, (before.len() + 1) as int);
            lemma_jumps_push(before, InstructionView { code: code@, line }, (before.len() + 1) as int);
        }
        self.context.write(code, line);
    }

    pub(crate) fn write2(&mut self, code1: OpCode, code2: OpCode)
        requires
            old(self).wf(),
            !(code1@ is Jump || code1@ is JumpIfFalse || code1@ is Loop || code1@ is Function),
            !(code2@ is Jump || code2@ is JumpIfFalse || code2@ is Loop || code2@ is Function),
        ensures
            final(self).wf(),
            final(self)@ == old(self)@.write(code1@).write(code2@),
    {
        self.write(code1);
        self.write(code2);
    }

    /// The index that the next instruction written will have.
    pub(crate) fn here(&self) -> (index: usize)
        ensures
            index == self@.here(),
            index == self@.function.code.len(),
    {
        self.context.here()
    }

    pub(crate) fn get_scope_depth(&self) -> (depth: usize)
        ensures
            depth == self@.scope_depth,
    {
        self.context.scope_depth
    }

    pub(crate) fn lexeme_string(&self, token: &Token) -> (text: String)
        requires
            token.token_type == TokenType::String,
            token_ok(self@.src, *token),
        ensures
            text@ == self@.src.subrange(token.start + 1, token.start + token.length - 1),
    {
        self.scanner.lexeme_string(token)
    }

    pub(crate) fn lexeme(&self, token: &Token) -> (text: String)
        requires
            token_ok(self@.src, *token),
        ensures
            text@ == self@.lexeme(*token),
    {
        self.scanner.lexeme(token)
    }

    /// Leaves panic mode and skips tokens up to a statement boundary.
    pub(crate) fn synchronize(&mut self)
        requires
            old(self).wf(),
        ensures
            final(self).wf(),
            final(self)@ == old(self)@.synchronize(),
            final(self)@.remaining() <= old(self)@.remaining(),
            final(self)@.function == old(self)@.function,
            final(self)@.scope_depth == old(self)@.scope_depth,
            final(self)@.src == old(self)@.src,
            final(self)@.numbers == old(self)@.numbers,
            final(self)@.locals == old(self)@.locals,
    {
        proof {
            reveal(CompilerView::skip_to_boundary);
        }
        self.parser.no_panic();
        let ghost begun = self@;
        while self.parser.current.token_type != TokenType::Eof
            invariant
                self.wf(),
                begun == (CompilerView { panic_mode: false, ..old(self)@ }),
                self@.skip_to_boundary() == begun.skip_to_boundary(),
                self@.remaining() <= begun.remaining(),
                self@.function == begun.function,
                self@.scope_depth == begun.scope_depth,
                self@.src == begun.src,
                self@.numbers == begun.numbers,
                self@.locals == begun.locals,
            decreases self@.remaining(),
        {
            proof {
                reveal(CompilerView::skip_to_boundary);
            }
            if self.parser.previous.token_type == TokenType::Semicolon {
                return ;
            }
            match self.parser.current.token_type {
                TokenType::Class
                | TokenType::Fun
                | TokenType::Var
                | TokenType::For
                | TokenType::If
                | TokenType::While
                | TokenType::Print
                | TokenType::Return => return ,
                _ => (),
            }

            self.advance();
        }
    }

    /// Reads the name of a variable. At the top level the name is that of
    /// a global and is returned; in a scope, a local is declared.
    pub(crate) fn parse_variable(&mut self, error_message: &str) -> (global: Option<String>)
        requires
            old(self).wf(),
        ensures
            final(self).wf(),
            final(self)@ == old(self)@.parse_variable(error_message@),
            match global {
                Some(name) => final(self)@.global_name() == Some(name@),
                None => final(self)@.global_name() is None,
            },
    {
        self.consume(TokenType::Identifier, error_message);

        if self.get_scope_depth() == 0 {
            Some(self.lexeme(&self.parser.previous))
        } else {
            self.declare_variable(self.parser.previous);
            None
        }
    }

    pub(crate) fn mark_initialized(&mut self)
        requires
            old(self).wf(),
        ensures
            final(self).wf(),
            final(self)@ == old(self)@.mark_initialized(),
    {
        self.context.mark_initialized();
    }

    pub(crate) fn define_variable(&mut self, id: Option<String>)
        requires
            old(self).wf(),
        ensures
            final(self).wf(),
            final(self)@ == old(self)@.define_variable(
                match id {
                    Some(name) => Some(name@),
                    None => None,
                },
            ),
    {
        match id {
            Some(id) => self.write(OpCode::DefineGlobal(id)),
            None => self.mark_initialized(),
        }
    }

    /// Declares the local named by `token`, in a scope.
    pub(crate) fn declare_variable(&mut self, token: Token)
        requires
            old(self).wf(),
            token_ok(old(self)@.src, token),
        ensures
            final(self).wf(),
            final(self)@ == old(self)@.declare_variable(token),
    {
        proof {
            reveal(declared_in_scope);
        }
        if self.get_scope_depth() == 0 {
            return ;
        }
        let mut found = false;
        let mut i: usize = self.context.locals.len();
        assert(!declared_in_scope(
            self@.src,
            self@.locals,
            self@.scope_depth,
            self@.lexeme(token),
            0,
        ));
        while i > 0
            invariant_except_break
                found || declared_in_scope(
                    self@.src,
                    self@.locals,
                    self@.scope_depth,
                    self@.lexeme(token),
                    i as int,
                ) == declared_in_scope(
                    self@.src,
                    self@.locals,
                    self@.scope_depth,
                    self@.lexeme(token),
                    self@.locals.len() as int,
                ),
                found ==> declared_in_scope(
                    self@.src,
                    self@.locals,
                    self@.scope_depth,
                    self@.lexeme(token),
                    self@.locals.len() as int,
                ),
            invariant
                self.wf(),
                self@ == old(self)@,
                token_ok(self@.src, token),
                i <= self.context.locals@.len(),
                !declared_in_scope(self@.src, self@.locals, self@.scope_depth, self@.lexeme(token), 0),
            ensures
                found == declared_in_scope(
                    self@.src,
                    self@.locals,
                    self@.scope_depth,
                    self@.lexeme(token),
                    self@.locals.len() as int,
                ),
            decreases i,
        {
            proof {
                reveal(declared_in_scope);
            }
            i -= 1;
            let local = self.context.locals[i];
            if let Some(depth) = local.depth {
                if depth < self.get_scope_depth() {
                    break ;
                }
            }
            if self.scanner.identifiers_equal(&local.name, &token) {
                found = true;
            }
        }
        if found {
            self.error("Already a variable with this name in scope.");
        }
        self.context.locals.push(Local { name: token, depth: None });
    }

    /// Looks `name` up among the locals, from the one declared last.
    pub(crate) fn resolve_local(&mut self, name: &String) -> (slot: Option<usize>)
        requires
            old(self).wf(),
        ensures
            final(self).wf(),
            final(self)@ == old(self)@.resolve_local(name@),
            slot == old(self)@.local_slot(name@),
    {
        proof {
            reveal(last_named);
        }
        let mut i: usize = self.context.locals.len();
        while i > 0
            invariant
                self.wf(),
                self@ == old(self)@,
                i <= self.context.locals@.len(),
                last_named(self@.src, self@.locals, name@, i as int) == self@.local_slot(name@),
            decreases i,
        {
            proof {
                reveal(last_named);
            }
            i -= 1;
            let local = self.context.locals[i];
            if self.scanner.lexeme(&local.name) == *name {
                if local.depth.is_none() {
                    self.error("Can't read variable in its own initializer");
                }
                return Some(i);
            }
        }
        None
    }

    pub(crate) fn emit_jump(&mut self, code: OpCode) -> (site: usize)
        requires
            old(self).wf(),
            code@ == OpCodeView::Jump(0) || code@ == OpCodeView::JumpIfFalse(0),
        ensures
            final(self).wf(),
            final(self)@ == old(self)@.write(code@),
            site == old(self)@.here(),
            site == old(self)@.function.code.len(),
            is_jump(final(self)@.function.code[site as int].code),
    {
        let line = self.parser.previous.line;
        proof {
            let before = self.context.function@.code;
            lemma_jumps_limit(before, before.len() as int, (before.len() + 1) as int);
            lemma_jumps_push(before, InstructionView { code: code@, line }, (before.len() + 1) as int);
        }
        self.context.emit_jump(code, line)
    }

    pub(crate) fn emit_loop(&mut self, loop_start: usize)
        requires
            old(self).wf(),
            loop_start <= old(self)@.function.code.len(),
        ensures
            final(self).wf(),
            final(self)@ == old(self)@.emit_loop(loop_start),
    {
        let line = self.parser.previous.line;
        proof {
            let before = self.context.function@.code;
            self.context.function.lemma_code_fits();
            lemma_jumps_limit(before, before.len() as int, (before.len() + 1) as int);
            lemma_jumps_push(
                before,
                InstructionView { code: crate::chunk::loop_to(before, loop_start as int), line },
                (before.len() + 1) as int,
            );
        }
        self.context.emit_loop(loop_start, line);
        proof {
            self.context.function.lemma_code_fits();
        }
    }

    pub(crate) fn patch_jump(&mut self, offset: usize)
        requires
            old(self).wf(),
            offset < old(self)@.function.code.len(),
            is_jump(old(self)@.function.code[offset as int].code),
        ensures
            final(self).wf(),
            final(self)@ == old(self)@.patch_jump(offset),
    {
        proof {
            self.context.function.lemma_code_fits();
            lemma_jumps_patched(self.context.function@.code, offset as int);
        }
        self.context.patch_jump(offset);
    }

    pub(crate) fn begin_scope(&mut self)
        requires
            old(self).wf(),
            old(self)@.scope_depth + old(self)@.remaining() < old(self)@.src.len(),
        ensures
            final(self).wf(),
            final(self)@ == old(self)@.begin_scope(),
    {
        self.context.begin_scope();
    }

    pub(crate) fn end_scope(&mut self)
        requires
            old(self).wf(),
            old(self)@.scope_depth > 0,
        ensures
            final(self).wf(),
            final(self)@ == old(self)@.end_scope(),
    {
        let line = self.parser.previous.line;
        self.context.end_scope(line);
        proof {
            lemma_jumps_pops(
                old(self).context.function@.code,
                locals_beyond(old(self).context.locals@, self.context.scope_depth),
                line,
            );
            assert forall|i: int| 0 <= i < self.context.locals@.len() implies token_ok(
                self.scanner.src(),
                #[trigger] self.context.locals@[i].name,
            ) by {
                assert(self.context.locals@[i] == old(self).context.locals@[i]);
            }
        }
    }

    pub(crate) fn error_at_current(&mut self, message: &str)
        requires
            old(self).wf(),
        ensures
            final(self).wf(),
            final(self)@ == old(self)@.error_at_current(message@),
    {
        self.error_at(self.parser.current, message);
    }

    pub(crate) fn error(&mut self, message: &str)
        requires
            old(self).wf(),
        ensures
            final(self).wf(),
            final(self)@ == old(self)@.error(message@),
    {
        self.error_at(self.parser.previous, message);
    }

    pub(crate) fn error_at(&mut self, token: Token, message: &str)
        requires
            old(self).wf(),
            token_ok(old(self)@.src, token),
        ensures
            final(self).wf(),
            final(self)@ == old(self)@.error_at(token, message@),
    {
        if self.parser.panic_mode {
            return ;
        }
        self.parser.panic();
        let place = if token.token_type == TokenType::Eof {
            ErrorPlace::End
        } else {
            ErrorPlace::Token(self.scanner.get_lexeme(&token), token.token_type)
        };
        let diagnostic = Diagnostic { line: token.line, place, message: message.to_owned() };
        proof {
            assert(self.diagnostics@.push(diagnostic).map_values(|d: Diagnostic| d@)
                =~= self.diagnostics@.map_values(|d: Diagnostic| d@).push(diagnostic@));
        }
        self.diagnostics.push(diagnostic);
        self.parser.had_error();
    }

    /// Reports text that the scanner could not read.
    pub(crate) fn show_error(&mut self, token: ErrorToken, message: &str)
        requires
            old(self).wf(),
            token.start + token.length <= old(self)@.src.len(),
        ensures
            final(self).wf(),
            final(self)@ == old(self)@.report(
                DiagnosticView {
                    line: token.line,
                    place: ErrorPlaceView::Text(
                        old(self)@.src.subrange(token.start as int, token.start + token.length),
                    ),
                    message: message@,
                },
            ),
    {
        if self.parser.panic_mode {
            return ;
        }
        self.parser.panic();
        let place = ErrorPlace::Text(self.scanner.get_lexeme_error(&token));
        let diagnostic = Diagnostic { line: token.line, place, message: message.to_owned() };
        proof {
            assert(self.diagnostics@.push(diagnostic).map_values(|d: Diagnostic| d@)
                =~= self.diagnostics@.map_values(|d: Diagnostic| d@).push(diagnostic@));
        }
        self.diagnostics.push(diagnostic);
        self.parser.had_error();
    }

    /// What the invariant says of the scopes and of the token read last.
    pub(crate) proof fn lemma_wf(&self)
        requires
            self.wf(),
        ensures
            self@.scope_depth + self@.remaining() <= self@.src.len(),
            self@.src.len() <= usize::MAX,
            self@.function.code.len() <= usize::MAX,
            token_ok(self@.src, self@.previous),
    {
        self.context.function.lemma_code_fits();
    }

    pub(crate) fn previous_type(&self) -> (token_type: TokenType)
        ensures
            token_type == self@.previous.token_type,
    {
        self.parser.previous.token_type
    }

    pub(crate) fn current_type(&self) -> (token_type: TokenType)
        ensures
            token_type == self@.current.token_type,
    {
        self.parser.current.token_type
    }

    /// Whether an error was reported since the last statement boundary.
    pub(crate) fn in_panic_mode(&self) -> (panic_mode: bool)
        ensures
            panic_mode == self@.panic_mode,
    {
        self.parser.panic_mode
    }

    /// The text of the token read last.
    pub(crate) fn previous_lexeme(&self) -> (text: String)
        requires
            self.wf(),
        ensures
            text@ == self@.lexeme(self@.previous),
    {
        self.scanner.lexeme(&self.parser.previous)
    }

    /// Begins a function of the given name; returns the context of the
    /// function that encloses it.
    pub(crate) fn enter_function(&mut self, name: String) -> (enclosing: CompilerContext)
        requires
            old(self).wf(),
        ensures
            final(self).wf(),
            final(self)@ == (CompilerView {
                function: FunctionView { name: name@, arity: 0, code: Seq::empty() },
                locals: Seq::empty(),
                scope_depth: 0,
                ..old(self)@
            }),
            enclosing.within(old(self)@) == old(self)@,
            enclosing.fits(old(self)@),
    {
        let mut context = CompilerContext::new(name);
        std::mem::swap(&mut self.context, &mut context);
        context
    }

    /// Ends the function under construction and goes back to the one that
    /// encloses it; returns the function that is complete.
    pub(crate) fn leave_function(&mut self, enclosing: CompilerContext) -> (function: Function)
        requires
            old(self).wf(),
            enclosing.fits(old(self)@),
        ensures
            final(self).wf(),
            final(self)@ == enclosing.within(old(self)@),
            function@ == old(self)@.function,
    {
        let mut context = enclosing;
        std::mem::swap(&mut self.context, &mut context);
        context.function
    }

    /// Counts one more parameter of the function under construction.
    pub(crate) fn count_parameter(&mut self)
        requires
            old(self).wf(),
            old(self)@.function.arity < usize::MAX,
        ensures
            final(self).wf(),
            final(self)@ == (CompilerView {
                function: FunctionView {
                    arity: (old(self)@.function.arity + 1) as usize,
                    ..old(self)@.function
                },
                ..old(self)@
            }),
    {
        self.context.function.increase_arity();
    }

    pub(crate) fn end_function_scope(&mut self)
        requires
            old(self).wf(),
            old(self)@.scope_depth > 0,
        ensures
            final(self).wf(),
            final(self)@ == old(self)@.end_function_scope(),
    {
        self.context.end_function_scope();
    }

    /// The outcome of the compilation: the function, or the errors.
    pub(crate) fn finish(self) -> (result: CompileResult)
        requires
            well_formed(self@.function.code),
        ensures
            match result {
                Ok(function) => !self@.had_error && function@ == self@.function && well_formed(
                    function@.code,
                ),
                Err(diagnostics) => self@.had_error && diagnostics@.map_values(
                    |d: Diagnostic| d@,
                ) == self@.diagnostics,
            },
    {
        if !self.parser.had_error {
            Ok(self.context.function)
        } else {
            Err(self.diagnostics)
        }
    }
}

} // verus!
