//! The virtual machine: a stack of values, a stack of call frames and the
//! global variables, driven one instruction at a time.
//!
//! The machine holds numbers as bit patterns and does no arithmetic on them,
//! and it neither prints nor reads the clock. Where an instruction needs one
//! of these, `step` hands the request out and the caller answers it.

use vstd::prelude::*;
use crate::number::negate;
use crate::number::negated;
use crate::number::number_less;
use crate::number::numbers_equal;
use crate::op_code::OpCode;
use crate::op_code::OpCodeView;
use crate::value::Function;
use crate::value::FunctionView;
use crate::value::NativeFunction;
use crate::value::Value;
use crate::value::ValueView;

verus! {

/// One call in progress: the function, the index of its next instruction,
/// and where its window of the stack begins.
pub struct CallFrame {
    function: Function,
    ip: usize,
    stack_offset: usize,
}

pub ghost struct FrameView {
    pub function: FunctionView,
    pub ip: usize,
    pub stack_offset: usize,
}

impl View for CallFrame {
    type V = FrameView;

    closed spec fn view(&self) -> FrameView {
        FrameView { function: self.function@, ip: self.ip, stack_offset: self.stack_offset }
    }
}

/// How interpreting a program ended.
#[derive(Clone, Copy, Debug, PartialEq, Eq, Structural)]
pub enum InterpretResult {
    Success,
    CompileError,
    RuntimeError,
}

/// The arithmetic that the machine leaves to its caller.
#[derive(Clone, Copy, Debug, PartialEq, Eq, Structural)]
pub enum ArithmeticOp {
    Add,
    Subtract,
    Multiply,
    Divide,
}

/// An error of the running program.
#[derive(Debug, PartialEq)]
pub enum RuntimeError {
    OperandsMustBeNumbers,
    OperandsMustBeNumbersOrStrings,
    OperandMustBeNumber,
    UndefinedVariable(String),
    /// A call with the wrong number of arguments: expected, got.
    WrongArgumentCount(usize, usize),
    NotCallable,
}

/// Code that no compiler run produces: the machine refuses to execute it.
#[derive(Clone, Copy, Debug, PartialEq, Eq, Structural)]
pub enum Fault {
    /// There is no call frame.
    NoFrame,
    /// The instruction pointer is behind the last instruction.
    CodeOverrun,
    /// The instruction needs more values than the stack holds.
    StackUnderflow,
    /// A local slot outside the stack.
    BadSlot,
    /// A jump to before the first instruction or beyond any index.
    BadJump,
    /// A frame to return from whose window leaves no room for the callee.
    BadFrame,
}

/// What one instruction left for the caller to do.
#[derive(Debug, PartialEq)]
pub enum Step {
    /// Nothing: go on with the next instruction.
    Continue,
    /// Show this value, then go on.
    Print(Value),
    /// Compute on these two numbers, hand the result to `push_number`, then
    /// go on.
    Arithmetic(ArithmeticOp, u64, u64),
    /// Read the clock, hand the seconds to `push_number`, then go on.
    Clock,
    /// The program returned from its top level.
    Finished,
    /// The program failed.
    Error(RuntimeError),
    /// The code is malformed.
    Fault(Fault),
}

pub ghost enum RuntimeErrorView {
    OperandsMustBeNumbers,
    OperandsMustBeNumbersOrStrings,
    OperandMustBeNumber,
    UndefinedVariable(Seq<char>),
    WrongArgumentCount(usize, usize),
    NotCallable,
}

pub ghost enum StepView {
    Continue,
    Print(ValueView),
    Arithmetic(ArithmeticOp, u64, u64),
    Clock,
    Finished,
    Error(RuntimeErrorView),
    Fault(Fault),
}

impl View for RuntimeError {
    type V = RuntimeErrorView;

    open spec fn view(&self) -> RuntimeErrorView {
        match self {
            RuntimeError::OperandsMustBeNumbers => RuntimeErrorView::OperandsMustBeNumbers,
            RuntimeError::OperandsMustBeNumbersOrStrings => {
                RuntimeErrorView::OperandsMustBeNumbersOrStrings
            },
            RuntimeError::OperandMustBeNumber => RuntimeErrorView::OperandMustBeNumber,
            RuntimeError::UndefinedVariable(name) => RuntimeErrorView::UndefinedVariable(name@),
            RuntimeError::WrongArgumentCount(expected, got) => {
                RuntimeErrorView::WrongArgumentCount(*expected, *got)
            },
            RuntimeError::NotCallable => RuntimeErrorView::NotCallable,
        }
    }
}

impl View for Step {
    type V = StepView;

    open spec fn view(&self) -> StepView {
        match self {
            Step::Continue => StepView::Continue,
            Step::Print(value) => StepView::Print(value@),
            Step::Arithmetic(op, a, b) => StepView::Arithmetic(*op, *a, *b),
            Step::Clock => StepView::Clock,
            Step::Finished => StepView::Finished,
            Step::Error(error) => StepView::Error(error@),
            Step::Fault(fault) => StepView::Fault(*fault),
        }
    }
}

/// The state of the machine as a mathematical value.
pub ghost struct VMView {
    pub stack: Seq<ValueView>,
    pub globals: Map<Seq<char>, ValueView>,
    pub frames: Seq<FrameView>,
    pub line: i32,
}

/// A state and what is left for the caller to do in it.
pub ghost struct Outcome {
    pub vm: VMView,
    pub step: StepView,
}

/// Only `nil` and `false` are falsey.
pub open spec fn is_falsey(value: ValueView) -> bool {
    value is Nil || value == ValueView::Bool(false)
}

/// Two values are equal if they are of the same kind and hold the same;
/// numbers compare as numbers, so the two zeros are equal and a NaN equals
/// nothing.
pub open spec fn values_equal(a: ValueView, b: ValueView) -> bool {
    match (a, b) {
        (ValueView::Number(x), ValueView::Number(y)) => numbers_equal(x, y),
        _ => a == b,
    }
}

impl VMView {
    pub open spec fn push(self, value: ValueView) -> VMView {
        VMView { stack: self.stack.push(value), ..self }
    }

    /// The state without the top `count` values.
    pub open spec fn pop(self, count: int) -> VMView {
        VMView { stack: self.stack.take(self.stack.len() - count), ..self }
    }

    /// The value `distance` places under the top of the stack.
    pub open spec fn peek(self, distance: int) -> ValueView {
        self.stack[self.stack.len() - 1 - distance]
    }

    /// The instruction pointer of the current frame.
    pub open spec fn ip(self) -> usize {
        self.frames.last().ip
    }

    /// The state with the current frame's instruction pointer at `ip`.
    pub open spec fn at(self, ip: usize) -> VMView {
        VMView {
            frames: self.frames.update(
                self.frames.len() - 1,
                FrameView { ip, ..self.frames.last() },
            ),
            ..self
        }
    }

    pub open spec fn go(self) -> Outcome {
        Outcome { vm: self, step: StepView::Continue }
    }

    pub open spec fn fails(self, error: RuntimeErrorView) -> Outcome {
        Outcome { vm: self, step: StepView::Error(error) }
    }

    pub open spec fn faults(self, fault: Fault) -> Outcome {
        Outcome { vm: self, step: StepView::Fault(fault) }
    }

    /// A forward jump over `offset` instructions.
    pub open spec fn jump(self, offset: usize) -> Outcome {
        if self.ip() + offset > usize::MAX {
            self.faults(Fault::BadJump)
        } else {
            self.at((self.ip() + offset) as usize).go()
        }
    }

    /// `Add`: the sum of two numbers is left to the caller, two strings are
    /// joined, anything else is an error.
    pub open spec fn add(self) -> Outcome {
        if self.stack.len() < 2 {
            self.faults(Fault::StackUnderflow)
        } else {
            match (self.peek(1), self.peek(0)) {
                (ValueView::Number(a), ValueView::Number(b)) => Outcome {
                    vm: self.pop(2),
                    step: StepView::Arithmetic(ArithmeticOp::Add, a, b),
                },
                (ValueView::String(a), ValueView::String(b)) => self.pop(2).push(
                    ValueView::String(a + b),
                ).go(),
                _ => self.pop(2).fails(RuntimeErrorView::OperandsMustBeNumbersOrStrings),
            }
        }
    }

    /// `Subtract`, `Multiply`, `Divide`: left to the caller, for two numbers.
    pub open spec fn arithmetic(self, op: ArithmeticOp) -> Outcome {
        if self.stack.len() < 2 {
            self.faults(Fault::StackUnderflow)
        } else {
            match (self.peek(1), self.peek(0)) {
                (ValueView::Number(a), ValueView::Number(b)) => Outcome {
                    vm: self.pop(2),
                    step: StepView::Arithmetic(op, a, b),
                },
                _ => self.pop(2).fails(RuntimeErrorView::OperandsMustBeNumbers),
            }
        }
    }

    /// `Less`, and `Greater` with the operands exchanged.
    pub open spec fn compare(self, greater: bool) -> Outcome {
        if self.stack.len() < 2 {
            self.faults(Fault::StackUnderflow)
        } else {
            match (self.peek(1), self.peek(0)) {
                (ValueView::Number(a), ValueView::Number(b)) => self.pop(2).push(
                    ValueView::Bool(
                        if greater {
                            number_less(b, a)
                        } else {
                            number_less(a, b)
                        },
                    ),
                ).go(),
                _ => self.pop(2).fails(RuntimeErrorView::OperandsMustBeNumbers),
            }
        }
    }

    pub open spec fn negate(self) -> Outcome {
        if self.stack.len() < 1 {
            self.faults(Fault::StackUnderflow)
        } else {
            match self.peek(0) {
                ValueView::Number(a) => self.pop(1).push(ValueView::Number(negated(a))).go(),
                _ => self.fails(RuntimeErrorView::OperandMustBeNumber),
            }
        }
    }

    /// Where local `slot` of the current frame lies in the stack, if it does.
    pub open spec fn slot_index(self, slot: usize) -> Option<int> {
        let index = self.frames.last().stack_offset + slot;
        if index < self.stack.len() {
            Some(index)
        } else {
            None
        }
    }

    pub open spec fn get_local(self, slot: usize) -> Outcome {
        match self.slot_index(slot) {
            Some(index) => self.push(self.stack[index]).go(),
            None => self.faults(Fault::BadSlot),
        }
    }

    pub open spec fn set_local(self, slot: usize) -> Outcome {
        if self.stack.len() < 1 {
            self.faults(Fault::StackUnderflow)
        } else {
            match self.slot_index(slot) {
                Some(index) => VMView { stack: self.stack.update(index, self.peek(0)), ..self }.go(),
                None => self.faults(Fault::BadSlot),
            }
        }
    }

    pub open spec fn get_global(self, name: Seq<char>) -> Outcome {
        if self.globals.contains_key(name) {
            self.push(self.globals[name]).go()
        } else {
            self.fails(RuntimeErrorView::UndefinedVariable(name))
        }
    }

    pub open spec fn define_global(self, name: Seq<char>) -> Outcome {
        if self.stack.len() < 1 {
            self.faults(Fault::StackUnderflow)
        } else {
            VMView { globals: self.globals.insert(name, self.peek(0)), ..self }.pop(1).go()
        }
    }

    pub open spec fn set_global(self, name: Seq<char>) -> Outcome {
        if !self.globals.contains_key(name) {
            self.fails(RuntimeErrorView::UndefinedVariable(name))
        } else if self.stack.len() < 1 {
            self.faults(Fault::StackUnderflow)
        } else {
            VMView { globals: self.globals.insert(name, self.peek(0)), ..self }.go()
        }
    }

    /// `Call`: a function gets a frame whose window begins at its first
    /// argument; a native function has its arguments and itself taken off
    /// the stack and its work left to the caller.
    pub open spec fn call(self, count: usize) -> Outcome {
        if self.stack.len() <= count {
            self.faults(Fault::StackUnderflow)
        } else {
            match self.peek(count as int) {
                ValueView::Function(function) => {
                    if count != function.arity {
                        self.fails(RuntimeErrorView::WrongArgumentCount(function.arity, count))
                    } else {
                        VMView {
                            frames: self.frames.push(
                                FrameView {
                                    function,
                                    ip: 0,
                                    stack_offset: (self.stack.len() - count) as usize,
                                },
                            ),
                            ..self
                        }.go()
                    }
                },
                ValueView::Native(native, expected) => {
                    if expected != count {
                        self.fails(RuntimeErrorView::WrongArgumentCount(expected, count))
                    } else {
                        Outcome { vm: self.pop(count + 1), step: StepView::Clock }
                    }
                },
                _ => self.fails(RuntimeErrorView::NotCallable),
            }
        }
    }

    /// `Return`: the result replaces the callee, its arguments and locals;
    /// from the last frame the program is finished.
    pub open spec fn ret(self) -> Outcome {
        if self.stack.len() < 1 {
            self.faults(Fault::StackUnderflow)
        } else if self.frames.len() == 1 {
            Outcome {
                vm: VMView { frames: self.frames.drop_last(), ..self.pop(1) },
                step: StepView::Finished,
            }
        } else if self.frames.last().stack_offset == 0 {
            self.faults(Fault::BadFrame)
        } else {
            let keep = self.frames.last().stack_offset - 1;
            let below = if keep < self.stack.len() - 1 {
                self.stack.take(keep)
            } else {
                self.stack.drop_last()
            };
            VMView {
                stack: below.push(self.peek(0)),
                frames: self.frames.drop_last(),
                ..self
            }.go()
        }
    }

    /// What the instruction `code` does in a state with at least one frame.
    pub open spec fn execute(self, code: OpCodeView) -> Outcome {
        match code {
            OpCodeView::Constant(bits) => self.push(ValueView::Number(bits)).go(),
            OpCodeView::Bool(b) => self.push(ValueView::Bool(b)).go(),
            OpCodeView::String(s) => self.push(ValueView::String(s)).go(),
            OpCodeView::Function(f) => self.push(ValueView::Function(f)).go(),
            OpCodeView::Nil => self.push(ValueView::Nil).go(),
            OpCodeView::Pop => if self.stack.len() < 1 {
                self.faults(Fault::StackUnderflow)
            } else {
                self.pop(1).go()
            },
            OpCodeView::GetLocal(slot) => self.get_local(slot),
            OpCodeView::SetLocal(slot) => self.set_local(slot),
            OpCodeView::GetGlobal(name) => self.get_global(name),
            OpCodeView::DefineGlobal(name) => self.define_global(name),
            OpCodeView::SetGlobal(name) => self.set_global(name),
            OpCodeView::Equal => if self.stack.len() < 2 {
                self.faults(Fault::StackUnderflow)
            } else {
                self.pop(2).push(ValueView::Bool(values_equal(self.peek(1), self.peek(0)))).go()
            },
            OpCodeView::Greater => self.compare(true),
            OpCodeView::Less => self.compare(false),
            OpCodeView::Add => self.add(),
            OpCodeView::Subtract => self.arithmetic(ArithmeticOp::Subtract),
            OpCodeView::Multiply => self.arithmetic(ArithmeticOp::Multiply),
            OpCodeView::Divide => self.arithmetic(ArithmeticOp::Divide),
            OpCodeView::Not => if self.stack.len() < 1 {
                self.faults(Fault::StackUnderflow)
            } else {
                self.pop(1).push(ValueView::Bool(is_falsey(self.peek(0)))).go()
            },
            OpCodeView::Negate => self.negate(),
            OpCodeView::Print => if self.stack.len() < 1 {
                self.faults(Fault::StackUnderflow)
            } else {
                Outcome { vm: self.pop(1), step: StepView::Print(self.peek(0)) }
            },
            OpCodeView::Jump(offset) => self.jump(offset),
            OpCodeView::JumpIfFalse(offset) => if self.stack.len() < 1 {
                self.faults(Fault::StackUnderflow)
            } else if is_falsey(self.peek(0)) {
                self.jump(offset)
            } else {
                self.go()
            },
            OpCodeView::Loop(offset) => if offset > self.ip() {
                self.faults(Fault::BadJump)
            } else {
                self.at((self.ip() - offset) as usize).go()
            },
            OpCodeView::Call(count) => self.call(count),
            OpCodeView::Return => self.ret(),
        }
    }

    /// One step of the machine: read the instruction at the instruction
    /// pointer, move the pointer behind it, note its line, execute it.
    pub open spec fn step(self) -> Outcome {
        if self.frames.len() == 0 {
            self.faults(Fault::NoFrame)
        } else if self.ip() >= self.frames.last().function.code.len() {
            self.faults(Fault::CodeOverrun)
        } else {
            let instruction = self.frames.last().function.code[self.ip() as int];
            VMView { line: instruction.line, ..self.at((self.ip() + 1) as usize) }.execute(
                instruction.code,
            )
        }
    }

    /// Steps until one leaves something for the caller to do, but `budget`
    /// steps at most.
    pub open spec fn run(self, budget: nat) -> Outcome
        decreases budget,
    {
        if budget == 0 {
            self.go()
        } else {
            let outcome = self.step();
            if outcome.step is Continue {
                outcome.vm.run((budget - 1) as nat)
            } else {
                outcome
            }
        }
    }
}

/// A global variable.
struct Global {
    name: String,
    value: Value,
}

pub struct VM {
    stack: Vec<Value>,
    current_line: i32,
    globals: Vec<Global>,
    frames: Vec<CallFrame>,
}

/// Whether no two of the globals have the same name.
spec fn distinct_names(globals: Seq<Global>) -> bool {
    forall|i: int, j: int|
        0 <= i < globals.len() && 0 <= j < globals.len() && globals[i].name@ == globals[j].name@
            ==> i == j
}

/// Whether one of the globals is called `name`.
spec fn has_name(globals: Seq<Global>, name: Seq<char>) -> bool {
    exists|i: int| 0 <= i < globals.len() && #[trigger] globals[i].name@ == name
}

/// The index of the global called `name`.
spec fn index_of(globals: Seq<Global>, name: Seq<char>) -> int {
    choose|i: int| 0 <= i < globals.len() && #[trigger] globals[i].name@ == name
}

/// The globals as a map from names to values.
spec fn globals_map(globals: Seq<Global>) -> Map<Seq<char>, ValueView> {
    Map::new(
        |name: Seq<char>| has_name(globals, name),
        |name: Seq<char>| globals[index_of(globals, name)].value@,
    )
}

/// The global at `i` is found under its name.
proof fn lemma_global_at(globals: Seq<Global>, i: int)
    requires
        distinct_names(globals),
        0 <= i < globals.len(),
    ensures
        globals_map(globals).contains_key(globals[i].name@),
        globals_map(globals)[globals[i].name@] == globals[i].value@,
{
    assert(has_name(globals, globals[i].name@));
}

/// Giving the global at `i` a new value overwrites the entry of its name.
proof fn lemma_global_set(before: Seq<Global>, after: Seq<Global>, i: int)
    requires
        distinct_names(before),
        0 <= i < before.len(),
        after.len() == before.len(),
        after[i].name@ == before[i].name@,
        forall|j: int| 0 <= j < before.len() && j != i ==> after[j] == before[j],
    ensures
        distinct_names(after),
        globals_map(after) == globals_map(before).insert(after[i].name@, after[i].value@),
{
    assert forall|j: int| 0 <= j < before.len() implies #[trigger] after[j].name@
        == before[j].name@ by {}
    assert forall|name: Seq<char>| has_name(after, name) == has_name(before, name) by {
        if has_name(after, name) {
            let j = index_of(after, name);
            assert(before[j].name@ == name);
        }
        if has_name(before, name) {
            let j = index_of(before, name);
            assert(after[j].name@ == name);
        }
    }
    assert forall|name: Seq<char>| #[trigger] has_name(after, name) implies globals_map(after)[name]
        == globals_map(before).insert(after[i].name@, after[i].value@)[name] by {
        let j = index_of(after, name);
        let k = index_of(before, name);
        assert(before[j].name@ == name);
        assert(j == k);
    }
    assert(has_name(before, before[i].name@));
    assert(globals_map(after) =~= globals_map(before).insert(after[i].name@, after[i].value@));
}

/// A global with a new name, added at the end, is a new entry.
proof fn lemma_global_added(before: Seq<Global>, global: Global)
    requires
        distinct_names(before),
        !has_name(before, global.name@),
    ensures
        distinct_names(before.push(global)),
        globals_map(before.push(global)) == globals_map(before).insert(
            global.name@,
            global.value@,
        ),
{
    let after = before.push(global);
    assert forall|i: int, j: int|
        0 <= i < after.len() && 0 <= j < after.len() && after[i].name@
            == after[j].name@ implies i == j by {
        if i < before.len() && j == before.len() {
            assert(before[i].name@ == global.name@);
        }
        if j < before.len() && i == before.len() {
            assert(before[j].name@ == global.name@);
        }
    }
    assert(after[before.len() as int].name@ == global.name@);
    assert forall|name: Seq<char>|
        has_name(after, name) == (has_name(before, name) || name == global.name@) by {
        if has_name(after, name) {
            let j = index_of(after, name);
            if j < before.len() {
                assert(before[j].name@ == name);
            }
        }
        if has_name(before, name) {
            let j = index_of(before, name);
            assert(after[j].name@ == name);
        }
    }
    assert forall|name: Seq<char>| #[trigger] has_name(after, name) implies globals_map(after)[name]
        == globals_map(before).insert(global.name@, global.value@)[name] by {
        let j = index_of(after, name);
        if name != global.name@ {
            let k = index_of(before, name);
            assert(after[k].name@ == name);
            assert(j == k);
        } else {
            if j < before.len() {
                assert(before[j].name@ == name);
            }
        }
    }
    assert(globals_map(after) =~= globals_map(before).insert(global.name@, global.value@));
}

impl CallFrame {
    fn new(function: Function, stack_offset: usize) -> (frame: Self)
        ensures
            frame@ == (FrameView { function: function@, ip: 0, stack_offset }),
    {
        Self { function, ip: 0, stack_offset }
    }

    fn increase_ip(&mut self)
        requires
            old(self)@.ip < usize::MAX,
        ensures
            final(self)@ == (FrameView { ip: (old(self)@.ip + 1) as usize, ..old(self)@ }),
    {
        self.ip += 1;
    }

    fn jump(&mut self, offset: usize)
        requires
            old(self)@.ip + offset <= usize::MAX,
        ensures
            final(self)@ == (FrameView { ip: (old(self)@.ip + offset) as usize, ..old(self)@ }),
    {
        self.ip += offset;
    }

    pub fn jump_back(&mut self, offset: usize)
        requires
            offset <= old(self)@.ip,
        ensures
            final(self)@ == (FrameView { ip: (old(self)@.ip - offset) as usize, ..old(self)@ }),
    {
        self.ip -= offset;
    }
}

impl View for VM {
    type V = VMView;

    closed spec fn view(&self) -> VMView {
        VMView {
            stack: self.stack@.map_values(|value: Value| value@),
            globals: globals_map(self.globals@),
            frames: self.frames@.map_values(|frame: CallFrame| frame@),
            line: self.current_line,
        }
    }
}

/// The name under which the clock is found.
pub open spec fn clock_name() -> Seq<char> {
    "clock"@
}

impl VM {
    /// The invariant of the machine: no two globals share a name.
    pub closed spec fn wf(&self) -> bool {
        distinct_names(self.globals@)
    }

    /// A machine with nothing on its stacks and the clock as its one global.
    pub fn new() -> (vm: Self)
        ensures
            vm.wf(),
            vm@ == (VMView {
                stack: Seq::empty(),
                globals: Map::empty().insert(
                    clock_name(),
                    ValueView::Native(NativeFunction::Clock, 0),
                ),
                frames: Seq::empty(),
                line: 0,
            }),
    {
        let mut vm = Self {
            stack: Vec::new(),
            current_line: 0,
            globals: Vec::new(),
            frames: Vec::new(),
        };
        proof {
            assert(globals_map(vm.globals@) =~= Map::empty());
            assert(vm@.stack =~= Seq::empty());
            assert(vm@.frames =~= Seq::empty());
        }
        vm.define_natives();
        vm
    }

    /// Runs the machine until an instruction leaves something for the caller
    /// to do, the program ends or fails, or `budget` instructions are done.
    pub fn run(&mut self, budget: usize) -> (step: Step)
        requires
            old(self).wf(),
        ensures
            final(self).wf(),
            (Outcome { vm: final(self)@, step: step@ }) == old(self)@.run(budget as nat),
    {
        let mut left = budget;
        while left > 0
            invariant
                self.wf(),
                self@.run(left as nat) == old(self)@.run(budget as nat),
            decreases left,
        {
            let step = self.step();
            match step {
                Step::Continue => {},
                _ => {
                    return step;
                },
            }
            left -= 1;
        }
        Step::Continue
    }

    /// Executes one instruction.
    pub fn step(&mut self) -> (step: Step)
        requires
            old(self).wf(),
        ensures
            final(self).wf(),
            (Outcome { vm: final(self)@, step: step@ }) == old(self)@.step(),
    {
        if self.frames.len() == 0 {
            return Step::Fault(Fault::NoFrame);
        }
        let last = self.frames.len() - 1;
        let ip = self.frames[last].ip;
        if ip >= self.frames[last].function.len() {
            return Step::Fault(Fault::CodeOverrun);
        }
        let instruction = self.frames[last].function.read_instruction(ip).clone();
        self.frames[last].increase_ip();
        proof {
            assert(self@.frames =~= old(self)@.at((ip + 1) as usize).frames);
        }
        self.current_line = instruction.line;
        self.execute(instruction.code)
    }

    /// Executes `code`, read from the current frame.
    fn execute(&mut self, code: OpCode) -> (step: Step)
        requires
            old(self).wf(),
            old(self)@.frames.len() > 0,
        ensures
            final(self).wf(),
            (Outcome { vm: final(self)@, step: step@ }) == old(self)@.execute(code@),
    {
        match code {
            OpCode::Bool(b) => {
                self.push(Value::Bool(b));
                Step::Continue
            },
            OpCode::Constant(bits) => {
                self.push_number(bits);
                Step::Continue
            },
            OpCode::Add => self.add(),
            OpCode::Subtract => self.arithmetic(ArithmeticOp::Subtract),
            OpCode::Multiply => self.arithmetic(ArithmeticOp::Multiply),
            OpCode::Divide => self.arithmetic(ArithmeticOp::Divide),
            OpCode::Nil => {
                self.push(Value::Nil);
                Step::Continue
            },
            OpCode::Not => {
                if self.stack.len() < 1 {
                    return Step::Fault(Fault::StackUnderflow);
                }
                let value = self.pop();
                let falsey = self.is_falsey(&value);
                self.push(Value::Bool(falsey));
                Step::Continue
            },
            OpCode::Negate => {
                if self.stack.len() < 1 {
                    return Step::Fault(Fault::StackUnderflow);
                }
                if !self.peek(0).is_number() {
                    return Step::Error(RuntimeError::OperandMustBeNumber);
                }
                let value = self.pop_number();
                self.push_number(negate(value));
                Step::Continue
            },
            OpCode::Print => {
                if self.stack.len() < 1 {
                    return Step::Fault(Fault::StackUnderflow);
                }
                Step::Print(self.pop())
            },
            OpCode::Jump(offset) => self.jump(offset),
            OpCode::JumpIfFalse(offset) => {
                if self.stack.len() < 1 {
                    return Step::Fault(Fault::StackUnderflow);
                }
                if self.is_falsey(self.peek(0)) {
                    self.jump(offset)
                } else {
                    Step::Continue
                }
            },
            OpCode::Loop(offset) => {
                let ip = self.current_ip();
                if offset > ip {
                    return Step::Fault(Fault::BadJump);
                }
                let last = self.frames.len() - 1;
                self.frames[last].jump_back(offset);
                proof {
                    assert(self@.frames =~= old(self)@.at((ip - offset) as usize).frames);
                }
                Step::Continue
            },
            OpCode::Call(arg_count) => self.call_value(arg_count),
            OpCode::Return => self.return_from_call(),
            OpCode::Pop => {
                if self.stack.len() < 1 {
                    return Step::Fault(Fault::StackUnderflow);
                }
                let _ = self.pop();
                Step::Continue
            },
            OpCode::GetLocal(slot) => {
                match self.slot_index(slot) {
                    Some(index) => {
                        let value = self.stack[index].clone();
                        self.push(value);
                        Step::Continue
                    },
                    None => Step::Fault(Fault::BadSlot),
                }
            },
            OpCode::SetLocal(slot) => {
                if self.stack.len() < 1 {
                    return Step::Fault(Fault::StackUnderflow);
                }
                match self.slot_index(slot) {
                    Some(index) => {
                        let value = self.peek(0).clone();
                        self.stack.set(index, value);
                        proof {
                            assert(self@.stack =~= old(self)@.stack.update(
                                index as int,
                                old(self)@.peek(0),
                            ));
                        }
                        Step::Continue
                    },
                    None => Step::Fault(Fault::BadSlot),
                }
            },
            OpCode::GetGlobal(name) => {
                match self.find_global(&name) {
                    Some(index) => {
                        let value = self.globals[index].value.clone();
                        self.push(value);
                        Step::Continue
                    },
                    None => Step::Error(RuntimeError::UndefinedVariable(name)),
                }
            },
            OpCode::DefineGlobal(name) => {
                if self.stack.len() < 1 {
                    return Step::Fault(Fault::StackUnderflow);
                }
                let value = self.peek(0).clone();
                self.store_global(name, value);
                let _ = self.pop();
                Step::Continue
            },
            OpCode::SetGlobal(name) => {
                match self.find_global(&name) {
                    Some(_) => {
                        if self.stack.len() < 1 {
                            return Step::Fault(Fault::StackUnderflow);
                        }
                        let value = self.peek(0).clone();
                        self.store_global(name, value);
                        Step::Continue
                    },
                    None => Step::Error(RuntimeError::UndefinedVariable(name)),
                }
            },
            OpCode::Equal => {
                if self.stack.len() < 2 {
                    return Step::Fault(Fault::StackUnderflow);
                }
                let b = self.pop();
                let a = self.pop();
                let equal = self.values_equal(&a, &b);
                proof {
                    assert(self@ == old(self)@.pop(2)) by {
                        assert(old(self)@.pop(1).pop(1).stack =~= old(self)@.pop(2).stack);
                    }
                }
                self.push(Value::Bool(equal));
                Step::Continue
            },
            OpCode::Greater => self.compare(true),
            OpCode::Less => self.compare(false),
            OpCode::String(string) => {
                self.push(Value::String(string));
                Step::Continue
            },
            OpCode::Function(function) => {
                proof {
                    crate::value::lemma_function_code(function);
                }
                self.push(Value::Function(function));
                Step::Continue
            },
        }
    }

    /// Takes the two operands off the stack, the right one first.
    fn pop_operands(&mut self) -> (operands: (Value, Value))
        requires
            old(self).wf(),
            old(self)@.stack.len() >= 2,
        ensures
            final(self).wf(),
            final(self)@ == old(self)@.pop(2),
            operands.0@ == old(self)@.peek(1),
            operands.1@ == old(self)@.peek(0),
    {
        let b = self.pop();
        let a = self.pop();
        proof {
            assert(old(self)@.pop(1).pop(1).stack =~= old(self)@.pop(2).stack);
        }
        (a, b)
    }

    fn add(&mut self) -> (step: Step)
        requires
            old(self).wf(),
        ensures
            final(self).wf(),
            (Outcome { vm: final(self)@, step: step@ }) == old(self)@.add(),
    {
        if self.stack.len() < 2 {
            return Step::Fault(Fault::StackUnderflow);
        }
        let (a, b) = self.pop_operands();
        match (a, b) {
            (Value::Number(a), Value::Number(b)) => Step::Arithmetic(ArithmeticOp::Add, a, b),
            (Value::String(a), Value::String(b)) => {
                self.push(Value::String(a.concat(b.as_str())));
                Step::Continue
            },
            _ => Step::Error(RuntimeError::OperandsMustBeNumbersOrStrings),
        }
    }

    fn arithmetic(&mut self, op: ArithmeticOp) -> (step: Step)
        requires
            old(self).wf(),
        ensures
            final(self).wf(),
            (Outcome { vm: final(self)@, step: step@ }) == old(self)@.arithmetic(op),
    {
        if self.stack.len() < 2 {
            return Step::Fault(Fault::StackUnderflow);
        }
        let (a, b) = self.pop_operands();
        match (a, b) {
            (Value::Number(a), Value::Number(b)) => Step::Arithmetic(op, a, b),
            _ => Step::Error(RuntimeError::OperandsMustBeNumbers),
        }
    }

    fn compare(&mut self, greater: bool) -> (step: Step)
        requires
            old(self).wf(),
        ensures
            final(self).wf(),
            (Outcome { vm: final(self)@, step: step@ }) == old(self)@.compare(greater),
    {
        if self.stack.len() < 2 {
            return Step::Fault(Fault::StackUnderflow);
        }
        let (a, b) = self.pop_operands();
        match (a, b) {
            (Value::Number(a), Value::Number(b)) => {
                let result = if greater {
                    crate::number::less(b, a)
                } else {
                    crate::number::less(a, b)
                };
                self.push(Value::Bool(result));
                Step::Continue
            },
            _ => Step::Error(RuntimeError::OperandsMustBeNumbers),
        }
    }

    fn jump(&mut self, offset: usize) -> (step: Step)
        requires
            old(self).wf(),
            old(self)@.frames.len() > 0,
        ensures
            final(self).wf(),
            (Outcome { vm: final(self)@, step: step@ }) == old(self)@.jump(offset),
    {
        let ip = self.current_ip();
        if offset > usize::MAX - ip {
            return Step::Fault(Fault::BadJump);
        }
        let last = self.frames.len() - 1;
        self.frames[last].jump(offset);
        proof {
            assert(self@.frames =~= old(self)@.at((ip + offset) as usize).frames);
        }
        Step::Continue
    }

    fn is_falsey(&self, value: &Value) -> (falsey: bool)
        ensures
            falsey == is_falsey(value@),
    {
        match value {
            Value::Nil => true,
            Value::Bool(val_bool) => !*val_bool,
            _ => false,
        }
    }

    fn values_equal(&self, a: &Value, b: &Value) -> (equal: bool)
        ensures
            equal == values_equal(a@, b@),
    {
        match a {
            Value::Bool(a) => match b {
                Value::Bool(b) => *a == *b,
                _ => false,
            },
            Value::Nil => matches!(b, Value::Nil),
            Value::Number(a) => match b {
                Value::Number(b) => crate::number::equal(*a, *b),
                _ => false,
            },
            Value::String(a) => match b {
                Value::String(b) => *a == *b,
                _ => false,
            },
            Value::Function(a) => match b {
                Value::Function(b) => a.same(b),
                _ => false,
            },
            Value::Native(a, a_arity) => match b {
                Value::Native(b, b_arity) => *a == *b && *a_arity == *b_arity,
                _ => false,
            },
        }
    }

    fn peek(&self, distance: usize) -> (value: &Value)
        requires
            distance < self@.stack.len(),
        ensures
            value@ == self@.peek(distance as int),
    {
        &self.stack[self.stack.len() - 1 - distance]
    }

    fn call_value(&mut self, arg_count: usize) -> (step: Step)
        requires
            old(self).wf(),
        ensures
            final(self).wf(),
            (Outcome { vm: final(self)@, step: step@ }) == old(self)@.call(arg_count),
    {
        if self.stack.len() <= arg_count {
            return Step::Fault(Fault::StackUnderflow);
        }
        match self.peek(arg_count) {
            Value::Function(function) => {
                if arg_count != function.arity() {
                    return Step::Error(
                        RuntimeError::WrongArgumentCount(function.arity(), arg_count),
                    );
                }
                let function = function.clone();
                let called = self.call(function);
                assert(called);
                Step::Continue
            },
            Value::Native(function, expected_count) => {
                let function = *function;
                let expected_count = *expected_count;
                self.call_native(function, expected_count, arg_count)
            },
            _ => Step::Error(RuntimeError::NotCallable),
        }
    }

    /// Gives `function` a frame whose window begins at the first of its
    /// arguments, which are on top of the stack. Does nothing, and returns
    /// `false`, where the stack holds fewer values than the function has
    /// parameters.
    pub fn call(&mut self, function: Function) -> (called: bool)
        requires
            old(self).wf(),
        ensures
            final(self).wf(),
            called == (function@.arity <= old(self)@.stack.len()),
            final(self)@ == if called {
                VMView {
                    frames: old(self)@.frames.push(
                        FrameView {
                            function: function@,
                            ip: 0,
                            stack_offset: (old(self)@.stack.len() - function@.arity) as usize,
                        },
                    ),
                    ..old(self)@
                }
            } else {
                old(self)@
            },
    {
        let arg_len = function.arity();
        if arg_len > self.stack.len() {
            return false;
        }
        let stack_offset = self.stack.len() - arg_len;
        let frame = CallFrame::new(function, stack_offset);
        self.frames.push(frame);
        proof {
            assert(self@.frames =~= old(self)@.frames.push(frame@));
        }
        true
    }

    fn call_native(&mut self, function: NativeFunction, expected_count: usize, arg_count: usize) -> (step: Step)
        requires
            old(self).wf(),
            arg_count < old(self)@.stack.len(),
        ensures
            final(self).wf(),
            (Outcome { vm: final(self)@, step: step@ }) == if expected_count != arg_count {
                old(self)@.fails(RuntimeErrorView::WrongArgumentCount(expected_count, arg_count))
            } else {
                Outcome { vm: old(self)@.pop(arg_count + 1), step: StepView::Clock }
            },
    {
        if expected_count != arg_count {
            return Step::Error(RuntimeError::WrongArgumentCount(expected_count, arg_count));
        }
        let mut taken: usize = 0;
        proof {
            assert(old(self)@.pop(0).stack =~= old(self)@.stack);
        }
        while taken < expected_count
            invariant
                self.wf(),
                taken <= expected_count,
                expected_count == arg_count,
                arg_count < old(self)@.stack.len(),
                self@ == old(self)@.pop(taken as int),
            decreases expected_count - taken,
        {
            let _ = self.pop();
            proof {
                assert(old(self)@.pop(taken as int).pop(1).stack =~= old(self)@.pop(
                    taken + 1,
                ).stack);
            }
            taken += 1;
        }
        let _ = self.pop();
        proof {
            assert(old(self)@.pop(arg_count as int).pop(1).stack =~= old(self)@.pop(
                arg_count + 1,
            ).stack);
        }
        match function {
            NativeFunction::Clock => Step::Clock,
        }
    }

    fn return_from_call(&mut self) -> (step: Step)
        requires
            old(self).wf(),
            old(self)@.frames.len() > 0,
        ensures
            final(self).wf(),
            (Outcome { vm: final(self)@, step: step@ }) == old(self)@.ret(),
    {
        if self.stack.len() < 1 {
            return Step::Fault(Fault::StackUnderflow);
        }
        let last = self.frames.len() - 1;
        let stack_offset = self.frames[last].stack_offset;
        if last > 0 && stack_offset == 0 {
            return Step::Fault(Fault::BadFrame);
        }
        let result = self.pop();
        let _ = self.frames.pop();
        proof {
            assert(self@.frames =~= old(self)@.frames.drop_last());
        }
        if self.frames.len() == 0 {
            return Step::Finished;
        }
        self.stack.truncate(stack_offset - 1);
        proof {
            let keep = stack_offset - 1;
            let below = if keep < old(self)@.stack.len() - 1 {
                old(self)@.stack.take(keep)
            } else {
                old(self)@.stack.drop_last()
            };
            assert(self@.stack =~= below);
        }
        self.push(result);
        Step::Continue
    }

    fn pop(&mut self) -> (value: Value)
        requires
            old(self).wf(),
            old(self)@.stack.len() > 0,
        ensures
            final(self).wf(),
            final(self)@ == old(self)@.pop(1),
            value@ == old(self)@.peek(0),
    {
        let value = self.stack.pop().unwrap();
        proof {
            assert(self@.stack =~= old(self)@.pop(1).stack);
        }
        value
    }

    fn pop_number(&mut self) -> (bits: u64)
        requires
            old(self).wf(),
            old(self)@.stack.len() > 0,
            old(self)@.peek(0) is Number,
        ensures
            final(self).wf(),
            final(self)@ == old(self)@.pop(1),
            ValueView::Number(bits) == old(self)@.peek(0),
    {
        match self.pop() {
            Value::Number(bits) => bits,
            _ => 0,
        }
    }

    fn push(&mut self, value: Value)
        requires
            old(self).wf(),
        ensures
            final(self).wf(),
            final(self)@ == old(self)@.push(value@),
    {
        self.stack.push(value);
        proof {
            assert(self@.stack =~= old(self)@.stack.push(value@));
        }
    }

    /// Puts a number on the stack: a constant of the program, or the answer
    /// to a request that `step` handed out.
    pub fn push_number(&mut self, value: u64)
        requires
            old(self).wf(),
        ensures
            final(self).wf(),
            final(self)@ == old(self)@.push(ValueView::Number(value)),
    {
        self.push(Value::Number(value));
    }

    /// The instruction pointer of the current frame.
    fn current_ip(&self) -> (ip: usize)
        requires
            self@.frames.len() > 0,
        ensures
            ip == self@.ip(),
    {
        self.frames[self.frames.len() - 1].ip
    }

    /// Where local `slot` of the current frame lies in the stack.
    fn slot_index(&self, slot: usize) -> (index: Option<usize>)
        requires
            self@.frames.len() > 0,
        ensures
            match index {
                Some(i) => self@.slot_index(slot) == Some(i as int),
                None => self@.slot_index(slot) is None,
            },
    {
        let stack_offset = self.frames[self.frames.len() - 1].stack_offset;
        if slot < self.stack.len() && stack_offset < self.stack.len() - slot {
            Some(stack_offset + slot)
        } else {
            None
        }
    }

    /// The index of the global called `name`.
    fn find_global(&self, name: &String) -> (found: Option<usize>)
        requires
            self.wf(),
        ensures
            match found {
                Some(i) => i < self.globals@.len() && self.globals@[i as int].name@ == name@
                    && self@.globals.contains_key(name@) && self@.globals[name@]
                    == self.globals@[i as int].value@,
                None => !self@.globals.contains_key(name@),
            },
    {
        let mut i: usize = 0;
        while i < self.globals.len()
            invariant
                self.wf(),
                i <= self.globals.len(),
                forall|j: int| 0 <= j < i ==> self.globals@[j].name@ != name@,
            decreases self.globals.len() - i,
        {
            if self.globals[i].name == *name {
                proof {
                    lemma_global_at(self.globals@, i as int);
                }
                return Some(i);
            }
            i += 1;
        }
        proof {
            if has_name(self.globals@, name@) {
                let j = index_of(self.globals@, name@);
                assert(self.globals@[j].name@ == name@);
            }
        }
        None
    }

    /// Binds the global `name` to `value`, whether or not it exists.
    fn store_global(&mut self, name: String, value: Value)
        requires
            old(self).wf(),
        ensures
            final(self).wf(),
            final(self)@ == (VMView {
                globals: old(self)@.globals.insert(name@, value@),
                ..old(self)@
            }),
    {
        match self.find_global(&name) {
            Some(index) => {
                self.globals[index].value = value;
                proof {
                    lemma_global_set(old(self).globals@, self.globals@, index as int);
                }
            },
            None => {
                let global = Global { name, value };
                proof {
                    lemma_global_added(self.globals@, global);
                }
                self.globals.push(global);
            },
        }
    }

    fn define_natives(&mut self)
        requires
            old(self).wf(),
        ensures
            final(self).wf(),
            final(self)@ == (VMView {
                globals: old(self)@.globals.insert(
                    clock_name(),
                    ValueView::Native(NativeFunction::Clock, 0),
                ),
                ..old(self)@
            }),
    {
        self.store_global("clock".to_owned(), Value::Native(NativeFunction::Clock, 0));
    }

    /// The line of the instruction executed last.
    pub fn current_line(&self) -> (line: i32)
        ensures
            line == self@.line,
    {
        self.current_line
    }

    /// The number of values on the stack.
    pub fn stack_len(&self) -> (n: usize)
        ensures
            n == self@.stack.len(),
    {
        self.stack.len()
    }

    /// The value at position `index` of the stack, counted from the bottom.
    pub fn stack_value(&self, index: usize) -> (value: Option<&Value>)
        ensures
            match value {
                Some(v) => index < self@.stack.len() && v@ == self@.stack[index as int],
                None => index >= self@.stack.len(),
            },
    {
        if index < self.stack.len() {
            Some(&self.stack[index])
        } else {
            None
        }
    }

    /// The value of the global called `name`.
    pub fn global(&self, name: &str) -> (value: Option<&Value>)
        requires
            self.wf(),
        ensures
            match value {
                Some(v) => self@.globals.contains_key(name@) && v@ == self@.globals[name@],
                None => !self@.globals.contains_key(name@),
            },
    {
        let name = name.to_owned();
        match self.find_global(&name) {
            Some(index) => Some(&self.globals[index].value),
            None => None,
        }
    }

    /// The number of calls in progress.
    pub fn frame_count(&self) -> (n: usize)
        ensures
            n == self@.frames.len(),
    {
        self.frames.len()
    }
}

/// The decimal digits of `n`.
pub uninterp spec fn decimal(n: usize) -> Seq<char>;

/// `to_string` of std on a `usize`: the number written in decimal digits.
/// The result depends on the number alone and is named, not spelled out.
#[verifier::external_body]
fn decimal_text(n: usize) -> (text: String)
    ensures
        text@ == decimal(n),
{
    n.to_string()
}

/// The message that reports `error`.
pub open spec fn error_message(error: RuntimeErrorView) -> Seq<char> {
    match error {
        RuntimeErrorView::OperandsMustBeNumbers => "Operands must be numbers."@,
        RuntimeErrorView::OperandsMustBeNumbersOrStrings => {
            "Operands must be two numbers or two strings."@
        },
        RuntimeErrorView::OperandMustBeNumber => "Operand must be a number."@,
        RuntimeErrorView::UndefinedVariable(name) => "Undefined variable '"@ + name + "'."@,
        RuntimeErrorView::WrongArgumentCount(expected, got) => "Expected "@ + decimal(expected)
            + " arguments but got "@ + decimal(got) + "."@,
        RuntimeErrorView::NotCallable => "Can only call functions and classes."@,
    }
}

impl RuntimeError {
    /// The message that reports the error.
    pub fn message(&self) -> (text: String)
        ensures
            text@ == error_message(self@),
    {
        match self {
            RuntimeError::OperandsMustBeNumbers => "Operands must be numbers.".to_owned(),
            RuntimeError::OperandsMustBeNumbersOrStrings => {
                "Operands must be two numbers or two strings.".to_owned()
            },
            RuntimeError::OperandMustBeNumber => "Operand must be a number.".to_owned(),
            RuntimeError::UndefinedVariable(name) => {
                let mut text = "Undefined variable '".to_owned();
                text.append(name.as_str());
                text.append("'.");
                text
            },
            RuntimeError::WrongArgumentCount(expected, got) => {
                let mut text = "Expected ".to_owned();
                text.append(decimal_text(*expected).as_str());
                text.append(" arguments but got ");
                text.append(decimal_text(*got).as_str());
                text.append(".");
                text
            },
            RuntimeError::NotCallable => "Can only call functions and classes.".to_owned(),
        }
    }
}

/// How a run that ended with `step` ended: well if the program is finished,
/// with a runtime error if it failed; a run that goes on has not ended.
pub open spec fn step_result(step: StepView) -> Option<InterpretResult> {
    match step {
        StepView::Finished => Some(InterpretResult::Success),
        StepView::Error(_) => Some(InterpretResult::RuntimeError),
        _ => None,
    }
}

impl Step {
    /// How the run ended, if this step ended it.
    pub fn result(&self) -> (result: Option<InterpretResult>)
        ensures
            result == step_result(self@),
    {
        match self {
            Step::Finished => Some(InterpretResult::Success),
            Step::Error(_) => Some(InterpretResult::RuntimeError),
            _ => None,
        }
    }
}

/// A program ends only by returning from its last frame: the step that
/// finishes it leaves no frame, and leaves the stack as it was under the
/// value returned.
pub proof fn lemma_finished_step(vm: VMView)
    ensures
        vm.step().step is Finished ==> {
            &&& vm.frames.len() == 1
            &&& vm.stack.len() > 0
            &&& vm.step().vm.frames.len() == 0
            &&& vm.step().vm.stack == vm.stack.drop_last()
            &&& vm.step().vm.globals == vm.globals
        },
{
    if vm.frames.len() > 0 && vm.ip() < vm.frames.last().function.code.len() {
        let instruction = vm.frames.last().function.code[vm.ip() as int];
        let fetched = VMView { line: instruction.line, ..vm.at((vm.ip() + 1) as usize) };
        assert(fetched.frames.len() == vm.frames.len());
        assert(fetched.stack == vm.stack);
        if vm.step().step is Finished {
            assert(instruction.code is Return);
            assert(vm.stack.take(vm.stack.len() - 1) =~= vm.stack.drop_last());
        }
    }
}

/// After a run that finished the program no frame is left.
pub proof fn lemma_finished_run(vm: VMView, budget: nat)
    ensures
        vm.run(budget).step is Finished ==> vm.run(budget).vm.frames.len() == 0,
    decreases budget,
{
    if budget > 0 {
        lemma_finished_step(vm);
        if vm.step().step is Continue {
            lemma_finished_run(vm.step().vm, (budget - 1) as nat);
        }
    }
}

/// `Not` yields `true` for `nil` and `false`, and `false` for every other
/// value: no other value is falsey.
pub proof fn lemma_not(vm: VMView)
    requires
        vm.stack.len() > 0,
    ensures
        vm.execute(OpCodeView::Not) == vm.pop(1).push(
            ValueView::Bool(vm.peek(0) is Nil || vm.peek(0) == ValueView::Bool(false)),
        ).go(),
{
}

/// Values of different kinds are never equal.
pub proof fn lemma_equal_kinds(a: ValueView, b: ValueView)
    ensures
        values_equal(a, b) ==> {
            &&& a is Bool <==> b is Bool
            &&& a is Nil <==> b is Nil
            &&& a is Number <==> b is Number
            &&& a is String <==> b is String
            &&& a is Function <==> b is Function
            &&& a is Native <==> b is Native
        },
        a is Nil && b is Nil ==> values_equal(a, b),
{
}

/// To divide, multiply or subtract two numbers is never an error, whatever
/// the numbers: the work is handed to the caller as it is.
pub proof fn lemma_arithmetic_of_numbers(vm: VMView, op: ArithmeticOp, a: u64, b: u64)
    requires
        vm.stack.len() >= 2,
        vm.peek(1) == ValueView::Number(a),
        vm.peek(0) == ValueView::Number(b),
    ensures
        vm.arithmetic(op) == (Outcome { vm: vm.pop(2), step: StepView::Arithmetic(op, a, b) }),
        vm.execute(OpCodeView::Divide).step == StepView::Arithmetic(ArithmeticOp::Divide, a, b),
{
}

/// `Add` takes two numbers or two strings: it is an error exactly for every
/// other pair of operands.
pub proof fn lemma_add(vm: VMView)
    requires
        vm.stack.len() >= 2,
    ensures
        vm.execute(OpCodeView::Add).step is Error <==> !((vm.peek(1) is Number && vm.peek(0)
            is Number) || (vm.peek(1) is String && vm.peek(0) is String)),
        vm.execute(OpCodeView::Add).step is Error ==> vm.execute(OpCodeView::Add).step
            == StepView::Error(RuntimeErrorView::OperandsMustBeNumbersOrStrings),
        vm.peek(1) is Number && vm.peek(0) is Number ==> vm.execute(OpCodeView::Add).step
            is Arithmetic,
        vm.peek(1) is String && vm.peek(0) is String ==> vm.execute(OpCodeView::Add) == vm.pop(
            2,
        ).push(ValueView::String(vm.peek(1)->String_0 + vm.peek(0)->String_0)).go(),
{
}

} // verus!
