//! What the parsing routines of the compiler do, stated on `CompilerView`.
//!
//! The routines call one another as the grammar of the language nests. Each
//! definition is well-founded because a routine that is entered again has
//! read at least one token in between. Where a definition repeats itself
//! only `if next.remaining() < self.remaining()`, or goes on from a state
//! `.since(before)`, it says so of itself; the compiler proves of every such
//! condition that it holds whenever it is reached, so that the other branch
//! describes no run of it.

use vstd::prelude::*;
use crate::op_code::OpCodeView;
use crate::rules::ParseFn;
use crate::rules::Precedence;
use crate::rules::rule_of;
use crate::scanner::TokenType;
use crate::state::CompilerView;
use crate::state::lemma_advance;
use crate::value::FunctionView;

verus! {

broadcast use lemma_advance;

impl CompilerView {
    /// A whole program: declarations up to the end of the source.
    #[verifier::opaque]
    pub open spec fn program(self) -> CompilerView
        decreases self.remaining(), 16int,
    {
        if self.check(TokenType::Eof) {
            self.advance()
        } else {
            let next = self.declaration();
            if next.remaining() < self.remaining() {
                next.program()
            } else {
                next
            }
        }
    }

    /// A declaration: of a function, of a variable, or a statement. After
    /// an error the tokens up to the next statement boundary are skipped.
    #[verifier::opaque]
    pub open spec fn declaration(self) -> CompilerView
        decreases self.remaining(), 12int,
    {
        let declared = if self.check(TokenType::Fun) {
            self.advance().fun_declaration()
        } else if self.check(TokenType::Var) {
            self.advance().var_declaration()
        } else {
            self.statement()
        };
        if declared.panic_mode {
            declared.synchronize()
        } else {
            declared
        }
    }

    #[verifier::opaque]
    pub open spec fn statement(self) -> CompilerView
        decreases self.remaining(), 10int,
    {
        if self.check(TokenType::Print) {
            self.advance().print_statement()
        } else if self.check(TokenType::For) {
            self.advance().for_statement()
        } else if self.check(TokenType::If) {
            self.advance().if_statement()
        } else if self.check(TokenType::Return) {
            self.advance().return_statement()
        } else if self.check(TokenType::While) {
            self.advance().while_statement()
        } else if self.check(TokenType::LeftBrace) {
            self.advance().begin_scope().block().end_scope()
        } else {
            self.expression_statement()
        }
    }

    #[verifier::opaque]
    pub open spec fn expression(self) -> CompilerView
        decreases self.remaining(), 2int,
    {
        self.parse_precedence(Precedence::Assignment)
    }

    /// The declarations of a block, up to its closing brace.
    #[verifier::opaque]
    pub open spec fn block(self) -> CompilerView
        decreases self.remaining(), 13int,
    {
        if self.check(TokenType::RightBrace) || self.check(TokenType::Eof) {
            self.consume(TokenType::RightBrace, "Expect '}' after block."@)
        } else {
            let next = self.declaration();
            if next.remaining() < self.remaining() {
                next.block()
            } else {
                next
            }
        }
    }

    /// A function, from behind its name: parameters and body are compiled
    /// into a function of their own, which the enclosing function then
    /// holds as a constant.
    #[verifier::opaque]
    pub open spec fn function(self) -> CompilerView
        decreases self.remaining(), 14int,
    {
        let fresh = CompilerView {
            function: FunctionView {
                name: self.lexeme(self.previous),
                arity: 0,
                code: Seq::empty(),
            },
            locals: Seq::empty(),
            scope_depth: 0,
            ..self
        };
        let opened = fresh.begin_scope().consume(
            TokenType::LeftParen,
            "Expect '(' after function name."@,
        );
        let listed = if !opened.check(TokenType::RightParen) {
            opened.parameters().since(opened)
        } else {
            opened
        };
        let body = listed.consume(TokenType::RightParen, "Expect ')' after parameters."@).consume(
            TokenType::LeftBrace,
            "Expect '{' before function body."@,
        ).block().end_function_scope().emit_return();
        CompilerView {
            function: self.function,
            locals: self.locals,
            scope_depth: self.scope_depth,
            ..body
        }.write(OpCodeView::Function(body.function))
    }

    #[verifier::opaque]
    pub open spec fn fun_declaration(self) -> CompilerView
        decreases self.remaining(), 15int,
    {
        let named = self.parse_variable("Expect function name."@);
        named.mark_initialized().function().define_variable(named.global_name())
    }

    #[verifier::opaque]
    pub open spec fn var_declaration(self) -> CompilerView
        decreases self.remaining(), 3int,
    {
        let named = self.parse_variable("Expect variable name."@);
        let valued = if named.check(TokenType::Equal) {
            named.advance().expression()
        } else {
            named.write(OpCodeView::Nil)
        };
        valued.consume(
            TokenType::Semicolon,
            "Expect ';' after variable declaration."@,
        ).define_variable(named.global_name())
    }

    #[verifier::opaque]
    pub open spec fn expression_statement(self) -> CompilerView
        decreases self.remaining(), 3int,
    {
        self.expression().consume(TokenType::Semicolon, "Expect ';' after expression"@).write(
            OpCodeView::Pop,
        )
    }

    /// The first clause of a `for` loop: nothing, a variable declaration or
    /// an expression statement.
    #[verifier::opaque]
    pub open spec fn for_initializer(self) -> CompilerView
        decreases self.remaining(), 4int,
    {
        if self.check(TokenType::Semicolon) {
            self.advance()
        } else if self.check(TokenType::Var) {
            self.advance().var_declaration()
        } else {
            self.expression_statement()
        }
    }

    /// The second clause of a `for` loop: nothing, or a condition with the
    /// jump that leaves the loop when it fails.
    #[verifier::opaque]
    pub open spec fn for_condition(self) -> CompilerView
        decreases self.remaining(), 3int,
    {
        if self.check(TokenType::Semicolon) {
            self.advance()
        } else {
            self.expression().consume(
                TokenType::Semicolon,
                "Expect ';' after loop condition."@,
            ).write(OpCodeView::JumpIfFalse(0)).write(OpCodeView::Pop)
        }
    }

    /// The third clause of a `for` loop: nothing, or an increment, which is
    /// jumped over on the way to the body and leads back to `loop_start`.
    #[verifier::opaque]
    pub open spec fn for_increment(self, loop_start: usize) -> CompilerView
        decreases self.remaining(), 3int,
    {
        if !self.check(TokenType::RightParen) {
            self.write(OpCodeView::Jump(0)).expression().write(OpCodeView::Pop).consume(
                TokenType::RightParen,
                "Expect ')' after for clauses."@,
            ).emit_loop(loop_start).patch_jump(self.here())
        } else {
            self.advance()
        }
    }

    /// A `for` loop, from behind the keyword.
    #[verifier::opaque]
    pub open spec fn for_statement(self) -> CompilerView
        decreases self.remaining(), 13int,
    {
        let opened = self.begin_scope().consume(TokenType::LeftParen, "Expect '(' after 'for'."@);
        opened.for_initializer().since(opened).for_loop()
    }

    /// A `for` loop, from its second clause on. The loop begins here.
    #[verifier::opaque]
    pub open spec fn for_loop(self) -> CompilerView
        decreases self.remaining(), 12int,
    {
        self.for_condition().since(self).for_body(
            self.here(),
            if self.check(TokenType::Semicolon) {
                None
            } else {
                Some((self.for_condition().here() - 2) as usize)
            },
        )
    }

    /// A `for` loop, from its third clause on. The body leads back to the
    /// increment where there is one, else to `loop_start`. The jump at
    /// `exit_jump` leaves the loop.
    #[verifier::opaque]
    pub open spec fn for_body(self, loop_start: usize, exit_jump: Option<usize>) -> CompilerView
        decreases self.remaining(), 11int,
    {
        let looped = self.for_increment(loop_start).since(self).statement().emit_loop(
            if !self.check(TokenType::RightParen) {
                (self.here() + 1) as usize
            } else {
                loop_start
            },
        );
        match exit_jump {
            Some(site) => looped.patch_jump(site).write(OpCodeView::Pop).end_scope(),
            None => looped.end_scope(),
        }
    }

    #[verifier::opaque]
    pub open spec fn if_statement(self) -> CompilerView
        decreases self.remaining(), 11int,
    {
        let tested = self.consume(TokenType::LeftParen, "Expect '(' after 'if'."@).expression().since(
            self,
        ).consume(TokenType::RightParen, "Expect ')' after condition."@);
        let then_jump = tested.here();
        let done = tested.write(OpCodeView::JumpIfFalse(0)).write(
            OpCodeView::Pop,
        ).statement().since(tested);
        let else_jump = done.here();
        let skipped = done.write(OpCodeView::Jump(0)).patch_jump(then_jump).write(OpCodeView::Pop);
        if skipped.check(TokenType::Else) {
            skipped.advance().statement().patch_jump(else_jump)
        } else {
            skipped.patch_jump(else_jump)
        }
    }

    #[verifier::opaque]
    pub open spec fn print_statement(self) -> CompilerView
        decreases self.remaining(), 3int,
    {
        self.expression().consume(TokenType::Semicolon, "Expect ';' after value."@).write(
            OpCodeView::Print,
        )
    }

    #[verifier::opaque]
    pub open spec fn return_statement(self) -> CompilerView
        decreases self.remaining(), 3int,
    {
        if self.check(TokenType::Semicolon) {
            self.advance().emit_return()
        } else {
            self.expression().consume(
                TokenType::Semicolon,
                "Expect ';' after return value."@,
            ).write(OpCodeView::Return)
        }
    }

    #[verifier::opaque]
    pub open spec fn while_statement(self) -> CompilerView
        decreases self.remaining(), 11int,
    {
        let loop_start = self.here();
        let tested = self.consume(
            TokenType::LeftParen,
            "Expect '(' after 'while'."@,
        ).expression().since(self).consume(TokenType::RightParen, "Expect ')' after statement."@);
        let exit_jump = tested.here();
        tested.write(OpCodeView::JumpIfFalse(0)).write(OpCodeView::Pop).statement().emit_loop(
            loop_start,
        ).patch_jump(exit_jump).write(OpCodeView::Pop)
    }

    /// The right operand of a binary operator, then the operator's code.
    #[verifier::opaque]
    pub open spec fn binary(self) -> CompilerView
        decreases self.remaining(), 2int,
    {
        let operator = self.previous.token_type;
        self.parse_precedence(rule_of(operator).precedence.next()).binary_code(operator)
    }

    /// The arguments of a call, from behind the opening parenthesis.
    #[verifier::opaque]
    pub open spec fn call(self) -> CompilerView
        decreases self.remaining(), 5int,
    {
        let listed = if !self.check(TokenType::RightParen) {
            self.arguments()
        } else {
            self
        };
        let count: nat = if !self.check(TokenType::RightParen) {
            self.argument_count()
        } else {
            0
        };
        listed.consume(TokenType::RightParen, "Expect ')' after arguments."@).write(
            OpCodeView::Call(count as usize),
        )
    }

    /// The arguments of a call, from the first one on.
    #[verifier::opaque]
    pub open spec fn arguments(self) -> CompilerView
        decreases self.remaining(), 3int,
    {
        let argument = self.expression();
        if argument.check(TokenType::Comma) {
            let next = argument.advance();
            if next.remaining() < self.remaining() {
                next.arguments()
            } else {
                next
            }
        } else {
            argument
        }
    }

    /// How many arguments `arguments` reads.
    #[verifier::opaque]
    pub open spec fn argument_count(self) -> nat
        decreases self.remaining(), 3int,
    {
        let argument = self.expression();
        if argument.check(TokenType::Comma) {
            let next = argument.advance();
            if next.remaining() < self.remaining() {
                next.argument_count() + 1
            } else {
                1
            }
        } else {
            1
        }
    }

    #[verifier::opaque]
    pub open spec fn or_(self) -> CompilerView
        decreases self.remaining(), 2int,
    {
        let else_jump = self.here();
        let end_jump = (self.here() + 1) as usize;
        self.write(OpCodeView::JumpIfFalse(0)).write(OpCodeView::Jump(0)).patch_jump(
            else_jump,
        ).write(OpCodeView::Pop).parse_precedence(Precedence::Or).patch_jump(end_jump)
    }

    #[verifier::opaque]
    pub open spec fn and_(self) -> CompilerView
        decreases self.remaining(), 2int,
    {
        let end_jump = self.here();
        self.write(OpCodeView::JumpIfFalse(0)).write(OpCodeView::Pop).parse_precedence(
            Precedence::And,
        ).patch_jump(end_jump)
    }

    #[verifier::opaque]
    pub open spec fn variable(self, can_assign: bool) -> CompilerView
        decreases self.remaining(), 4int,
    {
        self.named_variable(self.lexeme(self.previous), can_assign)
    }

    /// A variable read, or an assignment where one is allowed and an equals
    /// sign follows: to a local slot if `name` is a local, else to a global.
    #[verifier::opaque]
    pub open spec fn named_variable(self, name: Seq<char>, can_assign: bool) -> CompilerView
        decreases self.remaining(), 3int,
    {
        let resolved = self.resolve_local(name);
        if can_assign && resolved.check(TokenType::Equal) {
            resolved.advance().expression().write(
                match self.local_slot(name) {
                    Some(slot) => OpCodeView::SetLocal(slot),
                    None => OpCodeView::SetGlobal(name),
                },
            )
        } else {
            resolved.write(
                match self.local_slot(name) {
                    Some(slot) => OpCodeView::GetLocal(slot),
                    None => OpCodeView::GetGlobal(name),
                },
            )
        }
    }

    #[verifier::opaque]
    pub open spec fn grouping(self) -> CompilerView
        decreases self.remaining(), 3int,
    {
        self.expression().consume(TokenType::RightParen, "expected ')' after expression"@)
    }

    #[verifier::opaque]
    pub open spec fn unary(self) -> CompilerView
        decreases self.remaining(), 2int,
    {
        let operator = self.previous.token_type;
        let operand = self.parse_precedence(Precedence::Unary);
        match operator {
            TokenType::Bang => operand.write(OpCodeView::Not),
            TokenType::Minus => operand.write(OpCodeView::Negate),
            _ => operand,
        }
    }

    /// The routine that `rule` names.
    #[verifier::opaque]
    pub open spec fn apply(self, rule: ParseFn, can_assign: bool) -> CompilerView
        decreases self.remaining(), 6int,
    {
        match rule {
            ParseFn::Grouping => self.grouping(),
            ParseFn::Call => self.call(),
            ParseFn::Unary => self.unary(),
            ParseFn::Binary => self.binary(),
            ParseFn::Variable => self.variable(can_assign),
            ParseFn::String => self.string(),
            ParseFn::Number => self.number(),
            ParseFn::Literal => self.literal(),
            ParseFn::And => self.and_(),
            ParseFn::Or => self.or_(),
        }
    }

    /// An expression of operators that bind at least as strongly as
    /// `precedence`: the token read first selects the routine for what the
    /// expression begins with, and each operator that follows and binds
    /// strongly enough the routine for what it continues with.
    #[verifier::opaque]
    pub open spec fn parse_precedence(self, precedence: Precedence) -> CompilerView
        decreases self.remaining(), 1int,
    {
        let begun = self.advance();
        let can_assign = precedence.level() <= Precedence::Assignment.level();
        match rule_of(begun.previous.token_type).prefix {
            Some(rule) => {
                let continued = begun.apply(rule, can_assign).since(begun).infix(
                    precedence,
                    can_assign,
                );
                if can_assign && continued.check(TokenType::Equal) {
                    continued.advance().error("Invalid assignment"@)
                } else {
                    continued
                }
            },
            None => begun.error("Expect expression"@),
        }
    }

    /// The operators that follow an operand, as long as they bind at least
    /// as strongly as `precedence`, each with its right operand.
    #[verifier::opaque]
    pub open spec fn infix(self, precedence: Precedence, can_assign: bool) -> CompilerView
        decreases self.remaining(), 0int,
    {
        if precedence.level() <= rule_of(self.current.token_type).precedence.level() {
            let operator = self.advance();
            match rule_of(operator.previous.token_type).infix {
                Some(rule) => if operator.remaining() < self.remaining() {
                    let operand = operator.apply(rule, can_assign);
                    if operand.remaining() < self.remaining() {
                        operand.infix(precedence, can_assign)
                    } else {
                        operand
                    }
                } else {
                    operator
                },
                None => operator,
            }
        } else {
            self
        }
    }

    /// The whole compilation: the first token, the program, the closing
    /// return.
    pub open spec fn compile(self) -> CompilerView {
        self.advance().program().emit_return()
    }
}

} // verus!
