//! The instruction set.

use vstd::prelude::*;
use crate::value::Function;
use crate::value::FunctionView;

verus! {

/// One operation of the virtual machine, with its operand where it has one.
///
/// A number is held as the bit pattern of an IEEE-754 double. The operand of
/// `Jump` and `JumpIfFalse` counts the instructions to skip, that of `Loop`
/// the instructions to go back, both from the instruction behind the jump.
#[derive(Debug, PartialEq)]
pub enum OpCode {
    Constant(u64),
    Bool(bool),
    String(String),
    Function(Function),
    Pop,
    GetLocal(usize),
    SetLocal(usize),
    GetGlobal(String),
    DefineGlobal(String),
    SetGlobal(String),
    Equal,
    Greater,
    Less,
    Nil,
    Add,
    Subtract,
    Multiply,
    Divide,
    Not,
    Negate,
    Print,
    Jump(usize),
    JumpIfFalse(usize),
    Loop(usize),
    Call(usize),
    Return,
}

/// An operation and the source line it was compiled from.
#[derive(Debug, PartialEq)]
pub struct Instruction {
    pub code: OpCode,
    pub line: i32,
}

/// The mathematical value of an `OpCode`: text as a sequence of characters,
/// a function as its own model.
pub ghost enum OpCodeView {
    Constant(u64),
    Bool(bool),
    String(Seq<char>),
    Function(FunctionView),
    Pop,
    GetLocal(usize),
    SetLocal(usize),
    GetGlobal(Seq<char>),
    DefineGlobal(Seq<char>),
    SetGlobal(Seq<char>),
    Equal,
    Greater,
    Less,
    Nil,
    Add,
    Subtract,
    Multiply,
    Divide,
    Not,
    Negate,
    Print,
    Jump(usize),
    JumpIfFalse(usize),
    Loop(usize),
    Call(usize),
    Return,
}

pub ghost struct InstructionView {
    pub code: OpCodeView,
    pub line: i32,
}

/// The models of the first `n` instructions of `v`, in order.
pub open spec fn code_view(v: Vec<Instruction>, n: nat) -> Seq<InstructionView>
    decreases v, n,
{
    if n == 0 || n > v.len() {
        Seq::empty()
    } else {
        code_view(v, (n - 1) as nat).push(
            InstructionView { code: v[n - 1].code.view(), line: v[n - 1].line },
        )
    }
}

impl View for OpCode {
    type V = OpCodeView;

    open(crate) spec fn view(&self) -> OpCodeView
        decreases self, 0nat,
    {
        match self {
            OpCode::Constant(bits) => OpCodeView::Constant(*bits),
            OpCode::Bool(b) => OpCodeView::Bool(*b),
            OpCode::String(s) => OpCodeView::String(s@),
            OpCode::Function(f) => OpCodeView::Function(
                FunctionView {
                    name: f.name@,
                    arity: f.arity,
                    code: code_view(f.chunk.instructions, f.chunk.instructions.len() as nat),
                },
            ),
            OpCode::Pop => OpCodeView::Pop,
            OpCode::GetLocal(slot) => OpCodeView::GetLocal(*slot),
            OpCode::SetLocal(slot) => OpCodeView::SetLocal(*slot),
            OpCode::GetGlobal(name) => OpCodeView::GetGlobal(name@),
            OpCode::DefineGlobal(name) => OpCodeView::DefineGlobal(name@),
            OpCode::SetGlobal(name) => OpCodeView::SetGlobal(name@),
            OpCode::Equal => OpCodeView::Equal,
            OpCode::Greater => OpCodeView::Greater,
            OpCode::Less => OpCodeView::Less,
            OpCode::Nil => OpCodeView::Nil,
            OpCode::Add => OpCodeView::Add,
            OpCode::Subtract => OpCodeView::Subtract,
            OpCode::Multiply => OpCodeView::Multiply,
            OpCode::Divide => OpCodeView::Divide,
            OpCode::Not => OpCodeView::Not,
            OpCode::Negate => OpCodeView::Negate,
            OpCode::Print => OpCodeView::Print,
            OpCode::Jump(offset) => OpCodeView::Jump(*offset),
            OpCode::JumpIfFalse(offset) => OpCodeView::JumpIfFalse(*offset),
            OpCode::Loop(offset) => OpCodeView::Loop(*offset),
            OpCode::Call(count) => OpCodeView::Call(*count),
            OpCode::Return => OpCodeView::Return,
        }
    }
}

impl View for Instruction {
    type V = InstructionView;

    open spec fn view(&self) -> InstructionView {
        InstructionView { code: self.code@, line: self.line }
    }
}

/// `code_view` lists the models of the instructions one by one.
pub proof fn lemma_code_view(v: Vec<Instruction>, n: nat)
    requires
        n <= v.len(),
    ensures
        code_view(v, n).len() == n,
        forall|i: int| 0 <= i < n ==> #[trigger] code_view(v, n)[i] == v[i]@,
    decreases n,
{
    if n > 0 {
        lemma_code_view(v, (n - 1) as nat);
        assert(code_view(v, n) == code_view(v, (n - 1) as nat).push(
            InstructionView { code: v[n - 1].code.view(), line: v[n - 1].line },
        ));
    } else {
        assert(code_view(v, 0) == Seq::<InstructionView>::empty());
    }
}

impl Clone for OpCode {
    fn clone(&self) -> (copy: Self)
        ensures
            copy@ == self@,
        decreases self,
    {
        match self {
            OpCode::Constant(bits) => OpCode::Constant(*bits),
            OpCode::Bool(b) => OpCode::Bool(*b),
            OpCode::String(s) => OpCode::String(s.clone()),
            OpCode::Function(f) => {
                let g = f.clone();
                proof {
                    crate::value::lemma_function_code(*f);
                    crate::value::lemma_function_code(g);
                }
                OpCode::Function(g)
            },
            OpCode::Pop => OpCode::Pop,
            OpCode::GetLocal(slot) => OpCode::GetLocal(*slot),
            OpCode::SetLocal(slot) => OpCode::SetLocal(*slot),
            OpCode::GetGlobal(name) => OpCode::GetGlobal(name.clone()),
            OpCode::DefineGlobal(name) => OpCode::DefineGlobal(name.clone()),
            OpCode::SetGlobal(name) => OpCode::SetGlobal(name.clone()),
            OpCode::Equal => OpCode::Equal,
            OpCode::Greater => OpCode::Greater,
            OpCode::Less => OpCode::Less,
            OpCode::Nil => OpCode::Nil,
            OpCode::Add => OpCode::Add,
            OpCode::Subtract => OpCode::Subtract,
            OpCode::Multiply => OpCode::Multiply,
            OpCode::Divide => OpCode::Divide,
            OpCode::Not => OpCode::Not,
            OpCode::Negate => OpCode::Negate,
            OpCode::Print => OpCode::Print,
            OpCode::Jump(offset) => OpCode::Jump(*offset),
            OpCode::JumpIfFalse(offset) => OpCode::JumpIfFalse(*offset),
            OpCode::Loop(offset) => OpCode::Loop(*offset),
            OpCode::Call(count) => OpCode::Call(*count),
            OpCode::Return => OpCode::Return,
        }
    }
}

impl OpCode {
    /// Whether the two operations are the same, operands included.
    pub fn same(&self, other: &OpCode) -> (b: bool)
        ensures
            b == (self@ == other@),
        decreases self,
    {
        match self {
            OpCode::Constant(a) => match other {
                OpCode::Constant(b) => *a == *b,
                _ => false,
            },
            OpCode::Bool(a) => match other {
                OpCode::Bool(b) => *a == *b,
                _ => false,
            },
            OpCode::String(a) => match other {
                OpCode::String(b) => *a == *b,
                _ => false,
            },
            OpCode::Function(f) => match other {
                OpCode::Function(g) => {
                    proof {
                        crate::value::lemma_function_code(*f);
                        crate::value::lemma_function_code(*g);
                    }
                    f.same(g)
                },
                _ => false,
            },
            OpCode::Pop => matches!(other, OpCode::Pop),
            OpCode::GetLocal(a) => match other {
                OpCode::GetLocal(b) => *a == *b,
                _ => false,
            },
            OpCode::SetLocal(a) => match other {
                OpCode::SetLocal(b) => *a == *b,
                _ => false,
            },
            OpCode::GetGlobal(a) => match other {
                OpCode::GetGlobal(b) => *a == *b,
                _ => false,
            },
            OpCode::DefineGlobal(a) => match other {
                OpCode::DefineGlobal(b) => *a == *b,
                _ => false,
            },
            OpCode::SetGlobal(a) => match other {
                OpCode::SetGlobal(b) => *a == *b,
                _ => false,
            },
            OpCode::Equal => matches!(other, OpCode::Equal),
            OpCode::Greater => matches!(other, OpCode::Greater),
            OpCode::Less => matches!(other, OpCode::Less),
            OpCode::Nil => matches!(other, OpCode::Nil),
            OpCode::Add => matches!(other, OpCode::Add),
            OpCode::Subtract => matches!(other, OpCode::Subtract),
            OpCode::Multiply => matches!(other, OpCode::Multiply),
            OpCode::Divide => matches!(other, OpCode::Divide),
            OpCode::Not => matches!(other, OpCode::Not),
            OpCode::Negate => matches!(other, OpCode::Negate),
            OpCode::Print => matches!(other, OpCode::Print),
            OpCode::Jump(a) => match other {
                OpCode::Jump(b) => *a == *b,
                _ => false,
            },
            OpCode::JumpIfFalse(a) => match other {
                OpCode::JumpIfFalse(b) => *a == *b,
                _ => false,
            },
            OpCode::Loop(a) => match other {
                OpCode::Loop(b) => *a == *b,
                _ => false,
            },
            OpCode::Call(a) => match other {
                OpCode::Call(b) => *a == *b,
                _ => false,
            },
            OpCode::Return => matches!(other, OpCode::Return),
        }
    }
}

impl Instruction {
    /// Whether the two instructions are the same, line included.
    pub fn same(&self, other: &Instruction) -> (b: bool)
        ensures
            b == (self@ == other@),
        decreases self,
    {
        self.line == other.line && self.code.same(&other.code)
    }
}

impl Clone for Instruction {
    fn clone(&self) -> (copy: Self)
        ensures
            copy@ == self@,
        decreases self,
    {
        Instruction { code: self.code.clone(), line: self.line }
    }
}

} // verus!
