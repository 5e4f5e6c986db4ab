//! Runtime values and functions.

use vstd::prelude::*;
use crate::chunk::Chunk;
use crate::chunk::is_jump;
use crate::chunk::loop_to;
use crate::chunk::OpCodeVisitor;
use crate::chunk::patched;
use crate::chunk::shown_all;
use crate::op_code::Instruction;
use crate::op_code::InstructionView;
use crate::op_code::OpCode;
use crate::op_code::OpCodeView;

verus! {

/// The functions that the machine itself provides.
#[derive(Clone, Copy, Debug, PartialEq, Eq, Structural)]
pub enum NativeFunction {
    Clock,
}

/// A value on the machine's stack or in a global variable. A number is held
/// as the bit pattern of an IEEE-754 double.
#[derive(Debug, PartialEq)]
pub enum Value {
    Bool(bool),
    Nil,
    Number(u64),
    String(String),
    Function(Function),
    Native(NativeFunction, usize),
}

/// A compiled function: its name, the number of its parameters and its code.
/// The top-level script is a function with the empty name.
#[derive(Debug, PartialEq)]
pub struct Function {
    pub(crate) arity: usize,
    pub(crate) name: String,
    pub(crate) chunk: Chunk,
}

pub ghost struct FunctionView {
    pub name: Seq<char>,
    pub arity: usize,
    pub code: Seq<InstructionView>,
}

pub ghost enum ValueView {
    Bool(bool),
    Nil,
    Number(u64),
    String(Seq<char>),
    Function(FunctionView),
    Native(NativeFunction, usize),
}

impl View for Function {
    type V = FunctionView;

    open(crate) spec fn view(&self) -> FunctionView {
        FunctionView { name: self.name@, arity: self.arity, code: self.chunk@ }
    }
}

impl View for Value {
    type V = ValueView;

    open spec fn view(&self) -> ValueView {
        match self {
            Value::Bool(b) => ValueView::Bool(*b),
            Value::Nil => ValueView::Nil,
            Value::Number(bits) => ValueView::Number(*bits),
            Value::String(s) => ValueView::String(s@),
            Value::Function(f) => ValueView::Function(f@),
            Value::Native(native, arity) => ValueView::Native(*native, *arity),
        }
    }
}

/// The model of a function constant is the model of the function.
pub proof fn lemma_function_code(f: Function)
    ensures
        OpCode::Function(f)@ == OpCodeView::Function(f@),
{
}

/// The text that stands for a value when it is printed; a number has none
/// here, as its digits are not the machine's to write.
pub open spec fn value_text(value: ValueView) -> Option<Seq<char>> {
    match value {
        ValueView::Bool(true) => Some("true"@),
        ValueView::Bool(false) => Some("false"@),
        ValueView::Nil => Some("nil"@),
        ValueView::Number(_) => None,
        ValueView::String(s) => Some(s),
        ValueView::Function(f) => Some("<fn "@ + f.name + ">"@),
        ValueView::Native(_, _) => Some("<native fn>"@),
    }
}

impl Value {
    /// The text to print for the value, unless it is a number.
    pub fn text(&self) -> (text: Option<String>)
        ensures
            match text {
                Some(t) => value_text(self@) == Some(t@),
                None => value_text(self@) is None,
            },
    {
        match self {
            Value::Bool(b) => {
                if *b {
                    Some("true".to_owned())
                } else {
                    Some("false".to_owned())
                }
            },
            Value::Nil => Some("nil".to_owned()),
            Value::Number(_) => None,
            Value::String(s) => Some(s.clone()),
            Value::Function(f) => {
                let mut text = "<fn ".to_owned();
                text.append(f.name());
                text.append(">");
                Some(text)
            },
            Value::Native(_, _) => Some("<native fn>".to_owned()),
        }
    }

    pub fn is_number(&self) -> (b: bool)
        ensures
            b == (self@ is Number),
    {
        matches!(self, Value::Number(_))
    }
}

impl From<bool> for Value {
    fn from(b: bool) -> (value: Self) {
        Self::Bool(b)
    }
}

impl vstd::std_specs::convert::FromSpecImpl<bool> for Value {
    open spec fn obeys_from_spec() -> bool {
        true
    }

    open spec fn from_spec(b: bool) -> Self {
        Value::Bool(b)
    }
}

/// A number, given by the bit pattern of the double.
impl From<u64> for Value {
    fn from(n: u64) -> (value: Self) {
        Self::Number(n)
    }
}

impl vstd::std_specs::convert::FromSpecImpl<u64> for Value {
    open spec fn obeys_from_spec() -> bool {
        true
    }

    open spec fn from_spec(n: u64) -> Self {
        Value::Number(n)
    }
}

impl From<String> for Value {
    fn from(string: String) -> (value: Self) {
        Self::String(string)
    }
}

impl vstd::std_specs::convert::FromSpecImpl<String> for Value {
    open spec fn obeys_from_spec() -> bool {
        true
    }

    open spec fn from_spec(string: String) -> Self {
        Value::String(string)
    }
}

impl Function {
    /// A function holds no more instructions than a `usize` can count.
    pub proof fn lemma_code_fits(&self)
        ensures
            self@.code.len() <= usize::MAX,
    {
        self.chunk.lemma_view();
        assert(self.chunk.instructions@.len() == self.chunk.instructions.len());
    }

    /// A function without parameters and without code.
    pub fn new(name: String) -> (function: Self)
        ensures
            function@ == (FunctionView { name: name@, arity: 0, code: Seq::empty() }),
    {
        Self { arity: 0, name, chunk: Chunk::new() }
    }

    /// A function without parameters whose code is `chunk`.
    pub fn new_from_chunk(name: String, chunk: Chunk) -> (function: Self)
        ensures
            function@ == (FunctionView { name: name@, arity: 0, code: chunk@ }),
    {
        Self { arity: 0, name, chunk }
    }

    /// A function put together from its three parts.
    pub fn from_parts(name: String, arity: usize, chunk: Chunk) -> (function: Self)
        ensures
            function@ == (FunctionView { name: name@, arity, code: chunk@ }),
    {
        Self { arity, name, chunk }
    }

    /// Whether `other` is this function but for its code.
    pub open spec fn same_header(&self, other: &Self) -> bool {
        self@.name == other@.name && self@.arity == other@.arity
    }

    pub fn write(&mut self, code: OpCode, line: i32)
        ensures
            final(self).same_header(old(self)),
            final(self)@.code == old(self)@.code.push(InstructionView { code: code@, line }),
    {
        self.chunk.write(code, line);
    }

    /// The number of instructions written so far.
    pub fn len(&self) -> (n: usize)
        ensures
            n == self@.code.len(),
    {
        self.chunk.len()
    }

    pub fn current_offset(&self) -> (offset: usize)
        requires
            self@.code.len() > 0,
        ensures
            offset == self@.code.len() - 1,
    {
        self.chunk.current_offset()
    }

    pub fn emit_jump(&mut self, code: OpCode, line: i32) -> (site: usize)
        ensures
            final(self).same_header(old(self)),
            final(self)@.code == old(self)@.code.push(InstructionView { code: code@, line }),
            site == old(self)@.code.len(),
    {
        self.chunk.emit_jump(code, line)
    }

    pub fn emit_loop(&mut self, loop_start: usize, line: i32)
        requires
            loop_start <= old(self)@.code.len(),
        ensures
            final(self).same_header(old(self)),
            final(self)@.code == old(self)@.code.push(
                InstructionView { code: loop_to(old(self)@.code, loop_start as int), line },
            ),
    {
        self.chunk.emit_loop(loop_start, line);
    }

    pub fn patch_jump(&mut self, offset: usize)
        requires
            offset < old(self)@.code.len(),
            is_jump(old(self)@.code[offset as int].code),
        ensures
            final(self).same_header(old(self)),
            final(self)@.code == patched(old(self)@.code, offset as int),
    {
        self.chunk.patch_jump(offset);
    }

    pub fn read_instruction(&self, ip: usize) -> (instruction: &Instruction)
        requires
            ip < self@.code.len(),
        ensures
            instruction@ == self@.code[ip as int],
    {
        self.chunk.read_instruction(ip)
    }

    pub fn operate_on_codes<V: OpCodeVisitor>(&self, op: &mut V)
        ensures
            shown_all(*old(op), self@.code, *final(op)),
    {
        self.chunk.operate_on_codes(op);
    }

    pub fn arity(&self) -> (arity: usize)
        ensures
            arity == self@.arity,
    {
        self.arity
    }

    pub fn increase_arity(&mut self)
        requires
            old(self)@.arity < usize::MAX,
        ensures
            final(self)@ == (FunctionView { arity: (old(self)@.arity + 1) as usize, ..old(self)@ }),
    {
        self.arity += 1;
    }

    pub fn name(&self) -> (name: &str)
        ensures
            name@ == self@.name,
    {
        self.name.as_str()
    }
}

impl Function {
    /// Whether the two functions have the same name, arity and code.
    pub fn same(&self, other: &Function) -> (b: bool)
        ensures
            b == (self@ == other@),
        decreases self,
    {
        self.arity == other.arity && self.name == other.name && self.chunk.same(&other.chunk)
    }
}

impl Clone for Function {
    fn clone(&self) -> (copy: Self)
        ensures
            copy@ == self@,
        decreases self,
    {
        Function { arity: self.arity, name: self.name.clone(), chunk: self.chunk.clone() }
    }
}

impl Clone for Value {
    fn clone(&self) -> (copy: Self)
        ensures
            copy@ == self@,
    {
        match self {
            Value::Bool(b) => Value::Bool(*b),
            Value::Nil => Value::Nil,
            Value::Number(bits) => Value::Number(*bits),
            Value::String(s) => Value::String(s.clone()),
            Value::Function(f) => Value::Function(f.clone()),
            Value::Native(native, arity) => Value::Native(*native, *arity),
        }
    }
}

} // verus!
