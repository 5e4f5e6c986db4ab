//! The single-pass compiler: a Pratt parser that emits bytecode while it
//! reads the tokens.

use vstd::prelude::*;
use crate::chunk::well_formed;
use crate::diagnostic::Diagnostic;
use crate::emitter::Compiler;
use crate::op_code::OpCode;
use crate::op_code::OpCodeView;
use crate::rules::get_rule;
use crate::rules::ParseFn;
use crate::rules::ParseRule;
use crate::rules::Precedence;
use crate::rules::rule_of;
use crate::scanner::lemma_scan_progress;
use crate::scanner::scan;
use crate::scanner::Scanner;
use crate::scanner::TokenType;
use crate::state::carries;
use crate::state::declares;
use crate::state::lemma_declares_more;
use crate::state::lemma_declares_nothing;
use crate::state::lemma_declares_one;
use crate::state::lemma_scope_exit;
use crate::state::settled;
use crate::state::CompilerView;
use crate::state::Local;
use crate::state::lemma_advance;
use crate::state::lemma_number_texts;
use crate::state::lemma_with_pops;
use crate::state::number_count;
use crate::state::number_texts;
use crate::value::Function;

verus! {

broadcast use {lemma_advance, lemma_with_pops};

/// The compiled top-level function, or the errors that were reported.
pub type CompileResult = Result<Function, Vec<Diagnostic>>;

/// Whether the rule table selects `rule` for a token of kind `token_type`.
spec fn selects(token_type: TokenType, rule: ParseFn) -> bool {
    rule_of(token_type).prefix == Some(rule) || rule_of(token_type).infix == Some(rule)
}

impl Compiler {
    /// Compiles the whole source.
    #[verifier::spinoff_prover]
    fn compile(&mut self)
        requires
            old(self).wf(),
            settled(old(self)@),
        ensures
            final(self)@ == old(self)@.compile(),
            well_formed(final(self)@.function.code),
    {
        proof {
            self.lemma_wf();
            reveal(CompilerView::program);
            reveal(CompilerView::declaration);
        }
        self.advance();
        let ghost begun = self@;
        loop
            invariant_except_break
                self@.program() == begun.program(),
            invariant
                self.wf(),
                settled(self@),
            ensures
                self@ == begun.program(),
            decreases self@.remaining(),
        {
            proof {
                self.lemma_wf();
                reveal(CompilerView::program);
                reveal(CompilerView::declaration);
            }
            if self.match_it(TokenType::Eof) {
                break ;
            }
            self.declaration();
        }

        self.end_compiler();
    }

    /// A declaration: of a function, of a variable, or a statement.
    #[verifier::spinoff_prover]
    fn declaration(&mut self)
        requires
            old(self).wf(),
            settled(old(self)@),
        ensures
            final(self).wf(),
            final(self)@ == old(self)@.declaration(),
            carries(old(self)@, final(self)@),
            old(self)@.current.token_type != TokenType::Eof ==> final(self)@.remaining() < old(
                self,
            )@.remaining(),
            settled(final(self)@),
            declares(old(self)@, final(self)@),
        decreases old(self)@.remaining(), 12int,
    {
        proof {
            self.lemma_wf();
            reveal(CompilerView::declaration);
            reveal(CompilerView::fun_declaration);
            reveal(CompilerView::statement);
            reveal(CompilerView::var_declaration);
        }
        if self.match_it(TokenType::Fun) {
            let ghost begun = self@;
            proof {
                lemma_declares_nothing(old(self)@, begun);
            }
            self.fun_declaration();
            proof {
                lemma_declares_more(old(self)@, begun, self@);
            }
        } else if self.match_it(TokenType::Var) {
            let ghost begun = self@;
            proof {
                lemma_declares_nothing(old(self)@, begun);
            }
            self.var_declaration();
            proof {
                lemma_declares_more(old(self)@, begun, self@);
            }
        } else {
            self.statement();
            proof {
                lemma_declares_nothing(old(self)@, self@);
            }
        }
        let ghost declared = self@;

        if self.in_panic_mode() {
            self.synchronize();
        }
        proof {
            lemma_declares_nothing(declared, self@);
            lemma_declares_more(old(self)@, declared, self@);
        }
    }

    /// A statement, chosen by its first token.
    #[verifier::spinoff_prover]
    fn statement(&mut self)
        requires
            old(self).wf(),
            settled(old(self)@),
        ensures
            final(self).wf(),
            final(self)@ == old(self)@.statement(),
            carries(old(self)@, final(self)@),
            old(self)@.current.token_type != TokenType::Eof ==> final(self)@.remaining() < old(
                self,
            )@.remaining(),
            final(self)@.locals == old(self)@.locals,
        decreases old(self)@.remaining(), 10int,
    {
        proof {
            self.lemma_wf();
            reveal(CompilerView::statement);
            reveal(CompilerView::block);
            reveal(CompilerView::expression_statement);
            reveal(CompilerView::for_statement);
            reveal(CompilerView::if_statement);
            reveal(CompilerView::print_statement);
            reveal(CompilerView::return_statement);
            reveal(CompilerView::while_statement);
        }
        if self.match_it(TokenType::Print) {
            self.print_statement();
        } else if self.match_it(TokenType::For) {
            self.for_statement();
        } else if self.match_it(TokenType::If) {
            self.if_statement();
        } else if self.match_it(TokenType::Return) {
            self.return_statement();
        } else if self.match_it(TokenType::While) {
            self.while_statement();
        } else if self.match_it(TokenType::LeftBrace) {
            self.begin_scope();
            self.block();
            proof {
                lemma_scope_exit(self@, old(self)@.locals);
            }
            self.end_scope();
        } else {
            self.expression_statement();
        }
    }

    /// An expression.
    #[verifier::spinoff_prover]
    fn expression(&mut self)
        requires
            old(self).wf(),
        ensures
            final(self).wf(),
            final(self)@ == old(self)@.expression(),
            carries(old(self)@, final(self)@),
            old(self)@.current.token_type != TokenType::Eof ==> final(self)@.remaining() < old(
                self,
            )@.remaining(),
            final(self)@.locals == old(self)@.locals,
        decreases old(self)@.remaining(), 2int,
    {
        proof {
            self.lemma_wf();
            reveal(CompilerView::expression);
            reveal(CompilerView::parse_precedence);
        }
        self.parse_precedence(Precedence::Assignment);
    }

    /// The declarations of a block, up to its closing brace.
    #[verifier::spinoff_prover]
    fn block(&mut self)
        requires
            old(self).wf(),
            settled(old(self)@),
        ensures
            final(self).wf(),
            final(self)@ == old(self)@.block(),
            carries(old(self)@, final(self)@),
            settled(final(self)@),
            declares(old(self)@, final(self)@),
        decreases old(self)@.remaining(), 13int,
    {
        proof {
            self.lemma_wf();
            reveal(CompilerView::block);
            reveal(CompilerView::declaration);
        }
        proof {
            lemma_declares_nothing(old(self)@, self@);
        }
        while !self.check(TokenType::RightBrace) && !self.check(TokenType::Eof)
            invariant
                self.wf(),
                self@.block() == old(self)@.block(),
                carries(old(self)@, self@),
                settled(self@),
                declares(old(self)@, self@),
            decreases self@.remaining(),
        {
            proof {
                self.lemma_wf();
                reveal(CompilerView::block);
                reveal(CompilerView::declaration);
            }
            let ghost between = self@;
            self.declaration();
            proof {
                lemma_declares_more(old(self)@, between, self@);
            }
        }
        let ghost declared = self@;

        self.consume(TokenType::RightBrace, "Expect '}' after block.");
        proof {
            lemma_declares_nothing(declared, self@);
            lemma_declares_more(old(self)@, declared, self@);
        }
    }

    /// A function, from behind its name: parameters and body are compiled
    /// into a function of their own, which is then written as a constant.
    #[verifier::spinoff_prover]
    #[verifier::rlimit(40)]
    fn function(&mut self)
        requires
            old(self).wf(),
            old(self)@.remaining() < old(self)@.src.len(),
        ensures
            final(self).wf(),
            final(self)@ == old(self)@.function(),
            carries(old(self)@, final(self)@),
            final(self)@.locals == old(self)@.locals,
        decreases old(self)@.remaining(), 14int,
    {
        proof {
            self.lemma_wf();
            reveal(CompilerView::function);
            reveal(CompilerView::block);
        }
        let function_name = self.previous_lexeme();
        let enclosing = self.enter_function(function_name);
        let ghost fresh = self@;
        self.begin_scope();
        self.consume(TokenType::LeftParen, "Expect '(' after function name.");

        if !self.check(TokenType::RightParen) {
            let ghost opened = self@;
            proof {
                self.lemma_wf();
            }
            loop
                invariant_except_break
                    self@.parameters() == opened.parameters(),
                    self@.function.arity + self@.remaining() < self@.src.len(),
                invariant
                    self.wf(),
                    settled(self@),
                    self@.scope_depth == 1,
                    self@.src == fresh.src,
                    self@.numbers == fresh.numbers,
                    self@.remaining() <= opened.remaining(),
                    self@.function.name == fresh.function.name,
                ensures
                    self@ == opened.parameters(),
                decreases self@.remaining(),
            {
                proof {
                    self.lemma_wf();
                    reveal(CompilerView::parameters);
                }
                self.count_parameter();
                let expected_none = self.parse_variable("Expected parameter name.");
                self.define_variable(expected_none);
                if !self.match_it(TokenType::Comma) {
                    break ;
                }
            }
        }
        self.consume(TokenType::RightParen, "Expect ')' after parameters.");
        self.consume(TokenType::LeftBrace, "Expect '{' before function body.");

        self.block();
        self.end_function_scope();
        self.end_compiler();

        proof {
            enclosing.lemma_fits(old(self)@, self@);
        }
        let function = self.leave_function(enclosing);
        proof {
            lemma_function_constant(function);
            assert(well_formed(function@.code));
        }
        self.write(OpCode::Function(function));
    }

    /// A function declaration, from behind the keyword.
    #[verifier::spinoff_prover]
    fn fun_declaration(&mut self)
        requires
            old(self).wf(),
            old(self)@.remaining() < old(self)@.src.len(),
            settled(old(self)@),
        ensures
            final(self).wf(),
            final(self)@ == old(self)@.fun_declaration(),
            carries(old(self)@, final(self)@),
            settled(final(self)@),
            declares(old(self)@, final(self)@),
        decreases old(self)@.remaining(), 15int,
    {
        proof {
            self.lemma_wf();
            reveal(CompilerView::fun_declaration);
            reveal(CompilerView::function);
        }
        let global = self.parse_variable("Expect function name.");
        self.mark_initialized();
        let ghost named = self@;
        self.function();

        self.define_variable(global);
        proof {
            if old(self)@.scope_depth > 0 {
                assert(named.locals =~= old(self)@.locals.push(
                    Local { name: named.previous, depth: Some(old(self)@.scope_depth) },
                ));
                assert(self@.locals =~= named.locals);
                lemma_declares_one(old(self)@, self@, named.previous);
            } else {
                lemma_declares_nothing(old(self)@, self@);
            }
        }
    }

    /// A variable declaration, from behind the keyword.
    #[verifier::spinoff_prover]
    fn var_declaration(&mut self)
        requires
            old(self).wf(),
            settled(old(self)@),
        ensures
            final(self).wf(),
            final(self)@ == old(self)@.var_declaration(),
            carries(old(self)@, final(self)@),
            settled(final(self)@),
            declares(old(self)@, final(self)@),
        decreases old(self)@.remaining(), 3int,
    {
        proof {
            self.lemma_wf();
            reveal(CompilerView::var_declaration);
            reveal(CompilerView::expression);
        }
        let global = self.parse_variable("Expect variable name.");
        let ghost named = self@;

        if self.match_it(TokenType::Equal) {
            self.expression();
        } else {
            self.write(OpCode::Nil);
        }
        self.consume(TokenType::Semicolon, "Expect ';' after variable declaration.");

        self.define_variable(global);
        proof {
            if old(self)@.scope_depth > 0 {
                assert(self@.locals =~= old(self)@.locals.push(
                    Local { name: named.previous, depth: Some(old(self)@.scope_depth) },
                ));
                lemma_declares_one(old(self)@, self@, named.previous);
            } else {
                lemma_declares_nothing(old(self)@, self@);
            }
        }
    }

    /// An expression whose value is dropped.
    #[verifier::spinoff_prover]
    fn expression_statement(&mut self)
        requires
            old(self).wf(),
        ensures
            final(self).wf(),
            final(self)@ == old(self)@.expression_statement(),
            carries(old(self)@, final(self)@),
            old(self)@.current.token_type != TokenType::Eof ==> final(self)@.remaining() < old(
                self,
            )@.remaining(),
            final(self)@.locals == old(self)@.locals,
        decreases old(self)@.remaining(), 3int,
    {
        proof {
            self.lemma_wf();
            reveal(CompilerView::expression_statement);
            reveal(CompilerView::expression);
        }
        self.expression();
        self.consume(TokenType::Semicolon, "Expect ';' after expression");
        self.write(OpCode::Pop);
    }

    /// A `for` loop, from behind the keyword.
    #[verifier::spinoff_prover]
    #[verifier::rlimit(40)]
    fn for_statement(&mut self)
        requires
            old(self).wf(),
            old(self)@.scope_depth + old(self)@.remaining() < old(self)@.src.len(),
            settled(old(self)@),
        ensures
            final(self).wf(),
            final(self)@ == old(self)@.for_statement(),
            carries(old(self)@, final(self)@),
            final(self)@.locals == old(self)@.locals,
        decreases old(self)@.remaining(), 13int,
    {
        proof {
            self.lemma_wf();
            reveal(CompilerView::for_statement);
            reveal(CompilerView::for_initializer);
            reveal(CompilerView::for_loop);
            reveal(CompilerView::for_condition);
            reveal(CompilerView::for_body);
            reveal(CompilerView::for_increment);
            reveal(CompilerView::statement);
        }
        self.begin_scope();
        self.consume(TokenType::LeftParen, "Expect '(' after 'for'.");
        self.for_initializer();
        let ghost initialized = self@;

        let loop_start = self.here();
        let exit_jump = self.for_condition();
        let ghost conditioned = self@;
        proof {
            self.lemma_wf();
        }
        let body_start = self.for_increment(loop_start);

        self.statement();
        self.emit_loop(body_start);

        if let Some(exit_jump) = exit_jump {
            self.patch_jump(exit_jump);
            self.write(OpCode::Pop);
        }
        proof {
            lemma_scope_exit(self@, old(self)@.locals);
        }
        self.end_scope();
        assert(self@ == conditioned.for_body(loop_start, exit_jump));
        assert(self@ == initialized.for_loop());
    }

    /// The first clause of a `for` loop.
    #[verifier::spinoff_prover]
    fn for_initializer(&mut self)
        requires
            old(self).wf(),
            settled(old(self)@),
        ensures
            final(self).wf(),
            final(self)@ == old(self)@.for_initializer(),
            carries(old(self)@, final(self)@),
            settled(final(self)@),
            declares(old(self)@, final(self)@),
        decreases old(self)@.remaining(), 4int,
    {
        proof {
            self.lemma_wf();
            reveal(CompilerView::for_initializer);
            reveal(CompilerView::var_declaration);
            reveal(CompilerView::expression_statement);
        }
        if self.match_it(TokenType::Semicolon) {
            // no initializer
            proof {
                lemma_declares_nothing(old(self)@, self@);
            }
        } else if self.match_it(TokenType::Var) {
            let ghost begun = self@;
            proof {
                lemma_declares_nothing(old(self)@, begun);
            }
            self.var_declaration();
            proof {
                lemma_declares_more(old(self)@, begun, self@);
            }
        } else {
            self.expression_statement();
            proof {
                lemma_declares_nothing(old(self)@, self@);
            }
        }
    }

    /// The second clause of a `for` loop; returns the site of the jump that
    /// leaves the loop, if there is a condition.
    #[verifier::spinoff_prover]
    fn for_condition(&mut self) -> (exit_jump: Option<usize>)
        requires
            old(self).wf(),
        ensures
            final(self).wf(),
            final(self)@ == old(self)@.for_condition(),
            carries(old(self)@, final(self)@),
            exit_jump is None <==> old(self)@.check(TokenType::Semicolon),
            match exit_jump {
                Some(site) => {
                    &&& old(self)@.function.code.len() <= site
                    &&& site == final(self)@.function.code.len() - 2
                    &&& final(self)@.function.code[site as int].code == OpCodeView::JumpIfFalse(0)
                },
                None => true,
            },
            final(self)@.locals == old(self)@.locals,
        decreases old(self)@.remaining(), 3int,
    {
        proof {
            self.lemma_wf();
            reveal(CompilerView::for_condition);
            reveal(CompilerView::expression);
        }
        if self.match_it(TokenType::Semicolon) {
            None
        } else {
            self.expression();
            self.consume(TokenType::Semicolon, "Expect ';' after loop condition.");
            let exit_jump = self.emit_jump(OpCode::JumpIfFalse(0));
            self.write(OpCode::Pop);
            Some(exit_jump)
        }
    }

    /// The third clause of a `for` loop; returns where the body is to lead
    /// back to: the increment if there is one, else `loop_start`.
    #[verifier::spinoff_prover]
    fn for_increment(&mut self, loop_start: usize) -> (body_start: usize)
        requires
            old(self).wf(),
            loop_start <= old(self)@.function.code.len(),
        ensures
            final(self).wf(),
            final(self)@ == old(self)@.for_increment(loop_start),
            carries(old(self)@, final(self)@),
            body_start == if !old(self)@.check(TokenType::RightParen) {
                (old(self)@.function.code.len() + 1) as int
            } else {
                loop_start as int
            },
            body_start <= final(self)@.function.code.len(),
            final(self)@.locals == old(self)@.locals,
        decreases old(self)@.remaining(), 3int,
    {
        proof {
            self.lemma_wf();
            reveal(CompilerView::for_increment);
            reveal(CompilerView::expression);
        }
        if !self.match_it(TokenType::RightParen) {
            let body_jump = self.emit_jump(OpCode::Jump(0));
            let increment_start = self.here();
            self.expression();
            self.write(OpCode::Pop);
            self.consume(TokenType::RightParen, "Expect ')' after for clauses.");

            self.emit_loop(loop_start);
            self.patch_jump(body_jump);
            increment_start
        } else {
            loop_start
        }
    }

    /// An `if` statement, from behind the keyword.
    #[verifier::spinoff_prover]
    #[verifier::rlimit(80)]
    fn if_statement(&mut self)
        requires
            old(self).wf(),
            settled(old(self)@),
        ensures
            final(self).wf(),
            final(self)@ == old(self)@.if_statement(),
            carries(old(self)@, final(self)@),
            final(self)@.locals == old(self)@.locals,
        decreases old(self)@.remaining(), 11int,
    {
        proof {
            self.lemma_wf();
            reveal(CompilerView::if_statement);
            reveal(CompilerView::expression);
            reveal(CompilerView::statement);
        }
        self.consume(TokenType::LeftParen, "Expect '(' after 'if'.");
        self.expression();
        self.consume(TokenType::RightParen, "Expect ')' after condition.");

        let then_jump = self.emit_jump(OpCode::JumpIfFalse(0));
        self.write(OpCode::Pop);
        self.statement();

        let else_jump = self.emit_jump(OpCode::Jump(0));

        self.patch_jump(then_jump);
        self.write(OpCode::Pop);

        if self.match_it(TokenType::Else) {
            self.statement();
        }
        self.patch_jump(else_jump);
    }

    /// A `print` statement, from behind the keyword.
    #[verifier::spinoff_prover]
    fn print_statement(&mut self)
        requires
            old(self).wf(),
        ensures
            final(self).wf(),
            final(self)@ == old(self)@.print_statement(),
            carries(old(self)@, final(self)@),
            final(self)@.locals == old(self)@.locals,
        decreases old(self)@.remaining(), 3int,
    {
        proof {
            self.lemma_wf();
            reveal(CompilerView::print_statement);
            reveal(CompilerView::expression);
        }
        self.expression();
        self.consume(TokenType::Semicolon, "Expect ';' after value.");
        self.write(OpCode::Print);
    }

    /// A `return` statement, from behind the keyword.
    #[verifier::spinoff_prover]
    fn return_statement(&mut self)
        requires
            old(self).wf(),
        ensures
            final(self).wf(),
            final(self)@ == old(self)@.return_statement(),
            carries(old(self)@, final(self)@),
            final(self)@.locals == old(self)@.locals,
        decreases old(self)@.remaining(), 3int,
    {
        proof {
            self.lemma_wf();
            reveal(CompilerView::return_statement);
            reveal(CompilerView::expression);
        }
        if self.match_it(TokenType::Semicolon) {
            self.emit_return();
        } else {
            self.expression();
            self.consume(TokenType::Semicolon, "Expect ';' after return value.");
            self.write(OpCode::Return);
        }
    }

    /// A `while` loop, from behind the keyword.
    #[verifier::spinoff_prover]
    fn while_statement(&mut self)
        requires
            old(self).wf(),
            settled(old(self)@),
        ensures
            final(self).wf(),
            final(self)@ == old(self)@.while_statement(),
            carries(old(self)@, final(self)@),
            final(self)@.locals == old(self)@.locals,
        decreases old(self)@.remaining(), 11int,
    {
        proof {
            self.lemma_wf();
            reveal(CompilerView::while_statement);
            reveal(CompilerView::expression);
            reveal(CompilerView::statement);
        }
        let loop_start = self.here();
        self.consume(TokenType::LeftParen, "Expect '(' after 'while'.");
        self.expression();
        self.consume(TokenType::RightParen, "Expect ')' after statement.");

        let exit_jump = self.emit_jump(OpCode::JumpIfFalse(0));
        self.write(OpCode::Pop);
        self.statement();
        self.emit_loop(loop_start);

        self.patch_jump(exit_jump);
        self.write(OpCode::Pop);
    }

    /// The right operand of the binary operator read last, then its code.
    #[verifier::spinoff_prover]
    fn binary(&mut self, _can_assign: bool)
        requires
            old(self).wf(),
            selects(old(self)@.previous.token_type, ParseFn::Binary),
        ensures
            final(self).wf(),
            final(self)@ == old(self)@.binary(),
            carries(old(self)@, final(self)@),
            final(self)@.locals == old(self)@.locals,
        decreases old(self)@.remaining(), 2int,
    {
        proof {
            self.lemma_wf();
            reveal(CompilerView::binary);
            reveal(CompilerView::parse_precedence);
        }
        let operator_type = self.previous_type();
        let rule = self.get_rule(operator_type);
        self.parse_precedence(rule.precedence.next_level());

        match operator_type {
            TokenType::BangEqual => self.write2(OpCode::Equal, OpCode::Not),
            TokenType::EqualEqual => self.write(OpCode::Equal),
            TokenType::Greater => self.write(OpCode::Greater),
            TokenType::GreaterEqual => self.write2(OpCode::Less, OpCode::Not),
            TokenType::Less => self.write(OpCode::Less),
            TokenType::LessEqual => self.write2(OpCode::Greater, OpCode::Not),
            TokenType::Plus => self.write(OpCode::Add),
            TokenType::Minus => self.write(OpCode::Subtract),
            TokenType::Star => self.write(OpCode::Multiply),
            TokenType::Slash => self.write(OpCode::Divide),
            _ => {},
        }
    }

    /// A call, from behind the opening parenthesis.
    #[verifier::spinoff_prover]
    fn call(&mut self, _can_assign: bool)
        requires
            old(self).wf(),
            old(self)@.remaining() < old(self)@.src.len(),
        ensures
            final(self).wf(),
            final(self)@ == old(self)@.call(),
            carries(old(self)@, final(self)@),
            final(self)@.locals == old(self)@.locals,
        decreases old(self)@.remaining(), 5int,
    {
        proof {
            self.lemma_wf();
            reveal(CompilerView::call);
            reveal(CompilerView::argument_count);
            reveal(CompilerView::arguments);
        }
        let arg_count = self.argument_list();
        self.write(OpCode::Call(arg_count));
    }

    /// The right operand of `or`, skipped where the left one is truthy.
    #[verifier::spinoff_prover]
    fn or(&mut self, _can_assign: bool)
        requires
            old(self).wf(),
        ensures
            final(self).wf(),
            final(self)@ == old(self)@.or_(),
            carries(old(self)@, final(self)@),
            final(self)@.locals == old(self)@.locals,
        decreases old(self)@.remaining(), 2int,
    {
        proof {
            self.lemma_wf();
            reveal(CompilerView::or_);
            reveal(CompilerView::parse_precedence);
        }
        let else_jump = self.emit_jump(OpCode::JumpIfFalse(0));
        let end_jump = self.emit_jump(OpCode::Jump(0));

        self.patch_jump(else_jump);
        self.write(OpCode::Pop);

        self.parse_precedence(Precedence::Or);
        self.patch_jump(end_jump);
    }

    /// The variable named by the token read last.
    #[verifier::spinoff_prover]
    fn variable(&mut self, can_assign: bool)
        requires
            old(self).wf(),
        ensures
            final(self).wf(),
            final(self)@ == old(self)@.variable(can_assign),
            carries(old(self)@, final(self)@),
            final(self)@.locals == old(self)@.locals,
        decreases old(self)@.remaining(), 4int,
    {
        proof {
            self.lemma_wf();
            reveal(CompilerView::variable);
            reveal(CompilerView::named_variable);
        }
        let name = self.previous_lexeme();
        self.named_variable(name, can_assign);
    }

    /// A variable read, or an assignment where one is allowed.
    #[verifier::spinoff_prover]
    fn named_variable(&mut self, name: String, can_assign: bool)
        requires
            old(self).wf(),
        ensures
            final(self).wf(),
            final(self)@ == old(self)@.named_variable(name@, can_assign),
            carries(old(self)@, final(self)@),
            final(self)@.locals == old(self)@.locals,
        decreases old(self)@.remaining(), 3int,
    {
        proof {
            self.lemma_wf();
            reveal(CompilerView::named_variable);
            reveal(CompilerView::expression);
        }
        let local_pos = self.resolve_local(&name);

        if can_assign && self.match_it(TokenType::Equal) {
            self.expression();

            self.write(
                match local_pos {
                    Some(pos) => OpCode::SetLocal(pos),
                    None => OpCode::SetGlobal(name),
                },
            );
        } else {
            self.write(
                match local_pos {
                    Some(pos) => OpCode::GetLocal(pos),
                    None => OpCode::GetGlobal(name),
                },
            );
        }
    }

    /// An expression in parentheses, from behind the opening one.
    #[verifier::spinoff_prover]
    fn grouping(&mut self, _can_assign: bool)
        requires
            old(self).wf(),
        ensures
            final(self).wf(),
            final(self)@ == old(self)@.grouping(),
            carries(old(self)@, final(self)@),
            final(self)@.locals == old(self)@.locals,
        decreases old(self)@.remaining(), 3int,
    {
        proof {
            self.lemma_wf();
            reveal(CompilerView::grouping);
            reveal(CompilerView::expression);
        }
        self.expression();
        self.consume(TokenType::RightParen, "expected ')' after expression");
    }

    /// The operand of the unary operator read last, then its code.
    #[verifier::spinoff_prover]
    fn unary(&mut self, _can_assign: bool)
        requires
            old(self).wf(),
        ensures
            final(self).wf(),
            final(self)@ == old(self)@.unary(),
            carries(old(self)@, final(self)@),
            final(self)@.locals == old(self)@.locals,
        decreases old(self)@.remaining(), 2int,
    {
        proof {
            self.lemma_wf();
            reveal(CompilerView::unary);
            reveal(CompilerView::parse_precedence);
        }
        let operator_type = self.previous_type();

        self.parse_precedence(Precedence::Unary);

        match operator_type {
            TokenType::Bang => self.write(OpCode::Not),
            TokenType::Minus => self.write(OpCode::Negate),
            _ => {},
        }
    }

    /// Runs the parsing routine that `rule` names.
    #[verifier::spinoff_prover]
    fn apply_rule(&mut self, rule: ParseFn, can_assign: bool)
        requires
            old(self).wf(),
            selects(old(self)@.previous.token_type, rule),
            old(self)@.remaining() < old(self)@.src.len(),
        ensures
            final(self).wf(),
            final(self)@ == old(self)@.apply(rule, can_assign),
            carries(old(self)@, final(self)@),
            final(self)@.locals == old(self)@.locals,
        decreases old(self)@.remaining(), 6int,
    {
        proof {
            self.lemma_wf();
            reveal(CompilerView::apply);
            reveal(CompilerView::and_);
            reveal(CompilerView::binary);
            reveal(CompilerView::call);
            reveal(CompilerView::grouping);
            reveal(CompilerView::or_);
            reveal(CompilerView::unary);
            reveal(CompilerView::variable);
        }
        match rule {
            ParseFn::Grouping => self.grouping(can_assign),
            ParseFn::Call => self.call(can_assign),
            ParseFn::Unary => self.unary(can_assign),
            ParseFn::Binary => self.binary(can_assign),
            ParseFn::Variable => self.variable(can_assign),
            ParseFn::String => self.string(can_assign),
            ParseFn::Number => self.number(can_assign),
            ParseFn::Literal => self.literal(can_assign),
            ParseFn::And => self.and(can_assign),
            ParseFn::Or => self.or(can_assign),
        }
    }

    /// An expression of operators that bind at least as strongly as
    /// `precedence`.
    #[verifier::spinoff_prover]
    fn parse_precedence(&mut self, precedence: Precedence)
        requires
            old(self).wf(),
            precedence.level() >= 1,
        ensures
            final(self).wf(),
            final(self)@ == old(self)@.parse_precedence(precedence),
            carries(old(self)@, final(self)@),
            old(self)@.current.token_type != TokenType::Eof ==> final(self)@.remaining() < old(
                self,
            )@.remaining(),
            final(self)@.locals == old(self)@.locals,
        decreases old(self)@.remaining(), 1int,
    {
        proof {
            self.lemma_wf();
            reveal(CompilerView::parse_precedence);
            reveal(CompilerView::apply);
            reveal(CompilerView::infix);
        }
        self.advance();
        let can_assign = precedence.rank() <= Precedence::Assignment.rank();
        let prefix_rule = self.get_rule(self.previous_type()).prefix;

        if let Some(prefix_rule) = prefix_rule {
            self.apply_rule(prefix_rule, can_assign);
        } else {
            self.error("Expect expression");
            return ;
        }
        let ghost operand = self@;

        while precedence.rank() <= self.get_rule(self.current_type()).precedence.rank()
            invariant
                self.wf(),
                self@.locals == old(self)@.locals,
                precedence.level() >= 1,
                self@.infix(precedence, can_assign) == operand.infix(precedence, can_assign),
                carries(old(self)@, self@),
                self@.remaining() < old(self)@.remaining(),
            decreases self@.remaining(),
        {
            proof {
                self.lemma_wf();
                reveal(CompilerView::parse_precedence);
                reveal(CompilerView::apply);
                reveal(CompilerView::infix);
            }
            self.advance();
            let infix_rule = self.get_rule(self.previous_type()).infix;
            if let Some(infix_rule) = infix_rule {
                self.apply_rule(infix_rule, can_assign);
            }
        }

        if can_assign && self.match_it(TokenType::Equal) {
            self.error("Invalid assignment");
        }
    }

    /// The arguments of a call, up to the closing parenthesis; returns how
    /// many there are.
    #[verifier::spinoff_prover]
    fn argument_list(&mut self) -> (arg_count: usize)
        requires
            old(self).wf(),
            old(self)@.remaining() < old(self)@.src.len(),
        ensures
            final(self).wf(),
            carries(old(self)@, final(self)@),
            final(self)@ == if !old(self)@.check(TokenType::RightParen) {
                old(self)@.arguments()
            } else {
                old(self)@
            }.consume(TokenType::RightParen, "Expect ')' after arguments."@),
            arg_count == if !old(self)@.check(TokenType::RightParen) {
                old(self)@.argument_count()
            } else {
                0
            },
            final(self)@.locals == old(self)@.locals,
        decreases old(self)@.remaining(), 4int,
    {
        proof {
            reveal(CompilerView::arguments);
            reveal(CompilerView::expression);
            reveal(CompilerView::argument_count);
        }
        let mut arg_count: usize = 0;
        if !self.check(TokenType::RightParen) {
            loop
                invariant_except_break
                    self@.arguments() == old(self)@.arguments(),
                    self@.argument_count() + arg_count == old(self)@.argument_count(),
                    arg_count + self@.remaining() < self@.src.len(),
                invariant
                    self.wf(),
                    carries(old(self)@, self@),
                    self@.locals == old(self)@.locals,
                    !old(self)@.check(TokenType::RightParen),
                ensures
                    self@ == old(self)@.arguments(),
                    arg_count == old(self)@.argument_count(),
                decreases self@.remaining(),
            {
                proof {
                    self.lemma_wf();
                    reveal(CompilerView::arguments);
                    reveal(CompilerView::expression);
                    reveal(CompilerView::argument_count);
                }
                self.expression();
                arg_count += 1;
                if !self.match_it(TokenType::Comma) {
                    break ;
                }
            }
        }
        self.consume(TokenType::RightParen, "Expect ')' after arguments.");

        arg_count
    }

    /// The right operand of `and`, skipped where the left one is falsey.
    #[verifier::spinoff_prover]
    fn and(&mut self, _can_assign: bool)
        requires
            old(self).wf(),
        ensures
            final(self).wf(),
            final(self)@ == old(self)@.and_(),
            carries(old(self)@, final(self)@),
            final(self)@.locals == old(self)@.locals,
        decreases old(self)@.remaining(), 2int,
    {
        proof {
            self.lemma_wf();
            reveal(CompilerView::and_);
            reveal(CompilerView::parse_precedence);
        }
        let end_jump = self.emit_jump(OpCode::JumpIfFalse(0));

        self.write(OpCode::Pop);
        self.parse_precedence(Precedence::And);

        self.patch_jump(end_jump);
    }

    /// The rule of the table for a kind of token.
    fn get_rule(&self, operator_type: TokenType) -> (rule: ParseRule)
        ensures
            rule == rule_of(operator_type),
    {
        get_rule(operator_type)
    }
}

/// The model of a function constant is the model of the function.
proof fn lemma_function_constant(function: Function)
    ensures
        OpCode::Function(function)@ == OpCodeView::Function(function@),
{
    crate::value::lemma_function_code(function);
}

/// Compiles `source`, whose number literals have the values `numbers`, in
/// the order in which they stand in the source.
pub fn compile(source: &str, numbers: Vec<u64>) -> (result: CompileResult)
    requires
        numbers@.len() == number_count(source@, 0, 1),
    ensures
        match result {
            Ok(function) => {
                &&& !CompilerView::start(source@, numbers@).compile().had_error
                &&& function@ == CompilerView::start(source@, numbers@).compile().function
                &&& well_formed(function@.code)
            },
            Err(diagnostics) => {
                &&& CompilerView::start(source@, numbers@).compile().had_error
                &&& diagnostics@.map_values(|d: Diagnostic| d@) == CompilerView::start(
                    source@,
                    numbers@,
                ).compile().diagnostics
            },
        },
{
    let mut compiler = Compiler::new(source, numbers);
    compiler.compile();
    compiler.finish()
}

/// The texts of the number literals of `source`, in the order in which
/// they stand there: what `compile` needs the values of.
pub fn number_literals(source: &str) -> (texts: Vec<String>)
    ensures
        texts@.map_values(|text: String| text@) == number_texts(source@, 0, 1),
        texts@.len() == number_count(source@, 0, 1),
{
    let mut scanner = Scanner::new(source);
    let mut texts: Vec<String> = Vec::new();
    proof {
        lemma_number_texts(source@, 0, 1);
        assert(texts@.map_values(|text: String| text@) =~= Seq::<Seq<char>>::empty());
    }
    loop
        invariant
            scanner.wf(),
            scanner.src() == source@,
            0 <= scanner.current() <= source@.len(),
            1 <= scanner.line() <= i32::MAX,
            texts@.map_values(|text: String| text@) + number_texts(
                source@,
                scanner.current(),
                scanner.line(),
            ) == number_texts(source@, 0, 1),
            number_texts(source@, 0, 1).len() == number_count(source@, 0, 1),
        ensures
            texts@.map_values(|text: String| text@) == number_texts(source@, 0, 1),
            texts@.len() == number_count(source@, 0, 1),
        decreases source@.len() - scanner.current(),
    {
        let ghost cursor = scanner.current();
        let ghost line = scanner.line();
        let ghost before = texts@.map_values(|text: String| text@);
        proof {
            reveal(number_texts);
            lemma_scan_progress(source@, cursor, line);
            scanner.lemma_text_fits();
        }
        let ghost step = scan(source@, cursor, line);
        match scanner.scan_token() {
            Ok(token) => {
                if token.token_type == TokenType::Eof {
                    proof {
                        assert(number_texts(source@, cursor, line) =~= Seq::<Seq<char>>::empty());
                        assert(before + Seq::<Seq<char>>::empty() =~= before);
                    }
                    break ;
                }
                let ghost rest = number_texts(source@, scanner.current(), scanner.line());
                if token.token_type == TokenType::Number {
                    let text = scanner.lexeme(&token);
                    texts.push(text);
                    proof {
                        assert(text@ == source@.subrange(step.start, step.current));
                        assert(number_texts(source@, cursor, line) == seq![text@] + rest);
                        assert(texts@.map_values(|text: String| text@) =~= before.push(text@));
                        assert(before.push(text@) + rest =~= before + (seq![text@] + rest));
                    }
                } else {
                    assert(number_texts(source@, cursor, line) == rest);
                }
            },
            Err(_) => {
                assert(number_texts(source@, cursor, line) == number_texts(
                    source@,
                    scanner.current(),
                    scanner.line(),
                ));
            },
        }
    }
    texts
}

/// Compiles `source` if `numbers` holds one value for each of its number
/// literals; `None` if it holds more or fewer.
pub fn try_compile(source: &str, numbers: Vec<u64>) -> (result: Option<CompileResult>)
    ensures
        result is Some <==> numbers@.len() == number_count(source@, 0, 1),
        match result {
            Some(Ok(function)) => {
                &&& !CompilerView::start(source@, numbers@).compile().had_error
                &&& function@ == CompilerView::start(source@, numbers@).compile().function
                &&& well_formed(function@.code)
            },
            Some(Err(diagnostics)) => {
                &&& CompilerView::start(source@, numbers@).compile().had_error
                &&& diagnostics@.map_values(|d: Diagnostic| d@) == CompilerView::start(
                    source@,
                    numbers@,
                ).compile().diagnostics
            },
            None => true,
        },
{
    let literals = number_literals(source);
    if literals.len() == numbers.len() {
        Some(compile(source, numbers))
    } else {
        None
    }
}

} // verus!
