//! A chunk of bytecode: the instructions of one function, in order.

use vstd::prelude::*;
use crate::op_code::code_view;
use crate::op_code::Instruction;
use crate::op_code::InstructionView;
use crate::op_code::lemma_code_view;
use crate::op_code::OpCode;
use crate::op_code::OpCodeView;

verus! {

/// Something that is shown the instructions of a chunk one after the other.
pub trait OpCodeVisitor: Sized {
    /// Whether a visitor that is `before` may be `after` when it has been
    /// shown the operation `code` of line `line`. A visitor that says
    /// nothing of itself may be anything afterwards.
    open spec fn shown(before: Self, code: OpCodeView, line: i32, after: Self) -> bool {
        true
    }

    fn operate(&mut self, code: &OpCode, line: i32)
        ensures
            Self::shown(*old(self), code@, line, *final(self)),
    ;
}

/// Whether a visitor that is `before` may be `after` when it has been shown
/// the instructions `code`, first to last.
pub open spec fn shown_all<V: OpCodeVisitor>(before: V, code: Seq<InstructionView>, after: V) -> bool
    decreases code.len(),
{
    if code.len() == 0 {
        after == before
    } else {
        exists|between: V|
            shown_all(before, code.drop_last(), between) && #[trigger] V::shown(
                between,
                code.last().code,
                code.last().line,
                after,
            )
    }
}

#[derive(Debug, PartialEq)]
pub struct Chunk {
    pub(crate) instructions: Vec<Instruction>,
}

impl View for Chunk {
    type V = Seq<InstructionView>;

    open(crate) spec fn view(&self) -> Seq<InstructionView> {
        code_view(self.instructions, self.instructions.len() as nat)
    }
}

/// Whether `code` is a forward jump, conditional or not.
pub open spec fn is_jump(code: OpCodeView) -> bool {
    code is Jump || code is JumpIfFalse
}

/// The jump `code` with its operand replaced by `distance`.
pub open spec fn with_distance(code: OpCodeView, distance: usize) -> OpCodeView {
    if code is JumpIfFalse {
        OpCodeView::JumpIfFalse(distance)
    } else {
        OpCodeView::Jump(distance)
    }
}

/// `code` after the jump at `site` was patched to land behind its last
/// instruction.
pub open spec fn patched(code: Seq<InstructionView>, site: int) -> Seq<InstructionView> {
    code.update(
        site,
        InstructionView {
            code: with_distance(code[site].code, (code.len() - 1 - site) as usize),
            line: code[site].line,
        },
    )
}

/// The backward jump that, written at the end of `code`, leads to the
/// instruction at `loop_start`.
pub open spec fn loop_to(code: Seq<InstructionView>, loop_start: int) -> OpCodeView {
    OpCodeView::Loop((code.len() - loop_start + 1) as usize)
}

/// A visitor that has been shown some instructions and is then shown one
/// more has been shown them all.
pub proof fn lemma_shown_one_more<V: OpCodeVisitor>(
    before: V,
    code: Seq<InstructionView>,
    between: V,
    after: V,
)
    requires
        code.len() > 0,
        shown_all(before, code.drop_last(), between),
        V::shown(between, code.last().code, code.last().line, after),
    ensures
        shown_all(before, code, after),
{
}

/// Whether the instruction `op` at index `index` is in order in code whose
/// jumps may lead up to index `limit`: a forward jump lands behind itself and
/// at `limit` or before it, a backward jump lands on the first instruction
/// or behind it, and the code of a function constant is well-formed.
pub open spec fn in_order(op: OpCodeView, index: int, limit: int) -> bool
    decreases op, 0nat,
{
    match op {
        OpCodeView::Jump(offset) => index + 1 + offset <= limit,
        OpCodeView::JumpIfFalse(offset) => index + 1 + offset <= limit,
        OpCodeView::Loop(offset) => offset <= index + 1,
        OpCodeView::Function(function) => jumps_within(
            function.code,
            function.code.len() - 1,
        ),
        _ => true,
    }
}

/// Whether every instruction of `code` is in order for the limit `limit`.
pub open spec fn jumps_within(code: Seq<InstructionView>, limit: int) -> bool
    decreases code, 1nat,
{
    forall|i: int| 0 <= i < code.len() ==> in_order(#[trigger] code[i].code, i, limit)
}

/// Whether `code` is complete code: every jump in it, and in the functions
/// it holds, leads to an instruction of the same code.
pub open spec fn well_formed(code: Seq<InstructionView>) -> bool {
    jumps_within(code, code.len() - 1)
}

/// Code that is in order for one limit is in order for every greater one.
pub proof fn lemma_jumps_limit(code: Seq<InstructionView>, limit: int, greater: int)
    requires
        jumps_within(code, limit),
        limit <= greater,
    ensures
        jumps_within(code, greater),
{
    assert forall|i: int| 0 <= i < code.len() implies in_order(
        #[trigger] code[i].code,
        i,
        greater,
    ) by {
        assert(in_order(code[i].code, i, limit));
    }
}

/// Code stays in order when an instruction that is in order at its end is
/// appended.
pub proof fn lemma_jumps_push(code: Seq<InstructionView>, instruction: InstructionView, limit: int)
    requires
        jumps_within(code, limit),
        in_order(instruction.code, code.len() as int, limit),
    ensures
        jumps_within(code.push(instruction), limit),
{
    let longer = code.push(instruction);
    assert forall|i: int| 0 <= i < longer.len() implies in_order(
        #[trigger] longer[i].code,
        i,
        limit,
    ) by {
        if i < code.len() {
            assert(in_order(code[i].code, i, limit));
        }
    }
}

/// Code stays in order when one of its jumps is patched.
pub proof fn lemma_jumps_patched(code: Seq<InstructionView>, site: int)
    requires
        jumps_within(code, code.len() as int),
        0 <= site < code.len(),
        code.len() <= usize::MAX,
    ensures
        jumps_within(patched(code, site), code.len() as int),
{
    let after = patched(code, site);
    assert forall|i: int| 0 <= i < after.len() implies in_order(
        #[trigger] after[i].code,
        i,
        code.len() as int,
    ) by {
        if i != site {
            assert(in_order(code[i].code, i, code.len() as int));
        }
    }
}

/// Code that is in order becomes well-formed when `Nil` and `Return` are
/// appended.
pub proof fn lemma_jumps_complete(code: Seq<InstructionView>, line_nil: i32, line_return: i32)
    requires
        jumps_within(code, code.len() as int),
    ensures
        well_formed(
            code.push(InstructionView { code: OpCodeView::Nil, line: line_nil }).push(
                InstructionView { code: OpCodeView::Return, line: line_return },
            ),
        ),
{
    let nil = InstructionView { code: OpCodeView::Nil, line: line_nil };
    let ret = InstructionView { code: OpCodeView::Return, line: line_return };
    lemma_jumps_push(code, nil, code.len() as int);
    lemma_jumps_push(code.push(nil), ret, code.len() as int);
}

/// A patched jump lands behind the last instruction of the code: counted
/// from the instruction behind the jump, its operand leads to the index
/// that the next instruction written will have.
pub proof fn lemma_patched_lands(code: Seq<InstructionView>, site: int)
    requires
        0 <= site < code.len() <= usize::MAX,
        is_jump(code[site].code),
    ensures
        patched(code, site).len() == code.len(),
        forall|i: int| 0 <= i < code.len() && i != site ==> patched(code, site)[i] == code[i],
        patched(code, site)[site].line == code[site].line,
        code[site].code is Jump ==> patched(code, site)[site].code is Jump && site + 1 + patched(
            code,
            site,
        )[site].code->Jump_0 == code.len(),
        code[site].code is JumpIfFalse ==> patched(code, site)[site].code is JumpIfFalse && site
            + 1 + patched(code, site)[site].code->JumpIfFalse_0 == code.len(),
{
}

/// A backward jump written at the end of the code leads to `loop_start`:
/// counted back from the instruction behind the jump, its operand ends
/// there. Counted back from the jump itself it ends one instruction before
/// `loop_start`, which is an index unless the loop starts the code.
pub proof fn lemma_loop_lands(code: Seq<InstructionView>, loop_start: int)
    requires
        0 <= loop_start <= code.len() < usize::MAX,
    ensures
        loop_to(code, loop_start) is Loop,
        code.len() + 1 - loop_to(code, loop_start)->Loop_0 == loop_start,
        code.len() - loop_to(code, loop_start)->Loop_0 == loop_start - 1,
        loop_start >= 1 ==> code.len() - loop_to(code, loop_start)->Loop_0 >= 0,
{
}

impl Chunk {
    /// The model of a chunk lists the models of its instructions.
    pub(crate) proof fn lemma_view(&self)
        ensures
            self@.len() == self.instructions@.len(),
            forall|i: int| 0 <= i < self@.len() ==> #[trigger] self@[i] == self.instructions@[i]@,
    {
        lemma_code_view(self.instructions, self.instructions.len() as nat);
    }

    pub fn new() -> (chunk: Self)
        ensures
            chunk@ == Seq::<InstructionView>::empty(),
    {
        let chunk = Self { instructions: Vec::new() };
        proof {
            chunk.lemma_view();
            assert(chunk@ =~= Seq::<InstructionView>::empty());
        }
        chunk
    }

    /// The number of instructions, which is the index that the next
    /// instruction written will have.
    pub fn len(&self) -> (n: usize)
        ensures
            n == self@.len(),
    {
        proof {
            self.lemma_view();
        }
        self.instructions.len()
    }

    /// Appends an instruction.
    pub fn write(&mut self, code: OpCode, line: i32)
        ensures
            final(self)@ == old(self)@.push(InstructionView { code: code@, line }),
    {
        proof {
            self.lemma_view();
        }
        self.instructions.push(Instruction { code, line });
        proof {
            self.lemma_view();
            assert(self@ =~= old(self)@.push(InstructionView { code: code@, line }));
        }
    }

    /// Shows `op` every instruction, first to last.
    pub fn operate_on_codes<V: OpCodeVisitor>(&self, op: &mut V)
        ensures
            shown_all(*old(op), self@, *final(op)),
    {
        proof {
            self.lemma_view();
        }
        let mut i: usize = 0;
        while i < self.instructions.len()
            invariant
                i <= self.instructions.len(),
                self@.len() == self.instructions@.len(),
                forall|j: int| 0 <= j < self@.len() ==> #[trigger] self@[j] == self.instructions@[j]@,
                shown_all(*old(op), self@.take(i as int), *op),
            decreases self.instructions.len() - i,
        {
            let ghost between = *op;
            op.operate(&self.instructions[i].code, self.instructions[i].line);
            proof {
                let longer = self@.take(i + 1);
                assert(longer.drop_last() =~= self@.take(i as int));
                assert(longer.last() == self@[i as int]);
                assert(shown_all(*old(op), longer.drop_last(), between) && V::shown(
                    between,
                    longer.last().code,
                    longer.last().line,
                    *op,
                ));
                lemma_shown_one_more(*old(op), longer, between, *op);
            }
            i += 1;
        }
        proof {
            assert(self@.take(i as int) =~= self@);
        }
    }

    pub fn read_instruction(&self, ip: usize) -> (instruction: &Instruction)
        requires
            ip < self@.len(),
        ensures
            instruction@ == self@[ip as int],
    {
        proof {
            self.lemma_view();
        }
        &self.instructions[ip]
    }

    /// Appends the jump `code` and returns its index, the site to patch
    /// once the target is known.
    pub fn emit_jump(&mut self, code: OpCode, line: i32) -> (site: usize)
        ensures
            final(self)@ == old(self)@.push(InstructionView { code: code@, line }),
            site == old(self)@.len(),
    {
        self.write(code, line);
        self.current_offset()
    }

    /// Appends the backward jump that leads to the instruction at
    /// `loop_start`.
    pub fn emit_loop(&mut self, loop_start: usize, line: i32)
        requires
            loop_start <= old(self)@.len(),
        ensures
            final(self)@ == old(self)@.push(
                InstructionView { code: loop_to(old(self)@, loop_start as int), line },
            ),
    {
        proof {
            self.lemma_view();
        }
        // The distance is counted once the instruction is in place: then its
        // index plus one is known to fit.
        let back = self.instructions.len() - loop_start;
        self.instructions.push(Instruction { code: OpCode::Loop(back), line });
        let last = self.instructions.len() - 1;
        self.instructions.set(last, Instruction { code: OpCode::Loop(back + 1), line });
        proof {
            self.lemma_view();
            assert(self@ =~= old(self)@.push(
                InstructionView { code: loop_to(old(self)@, loop_start as int), line },
            ));
        }
    }

    /// Makes the jump at `offset` land behind the last instruction written
    /// so far.
    pub fn patch_jump(&mut self, offset: usize)
        requires
            offset < old(self)@.len(),
            is_jump(old(self)@[offset as int].code),
        ensures
            final(self)@ == patched(old(self)@, offset as int),
    {
        proof {
            self.lemma_view();
        }
        let pos = self.instructions.len() - 1 - offset;
        let line = self.instructions[offset].line;
        let code = match &self.instructions[offset].code {
            OpCode::JumpIfFalse(_) => OpCode::JumpIfFalse(pos),
            _ => OpCode::Jump(pos),
        };
        self.instructions.set(offset, Instruction { code, line });
        proof {
            self.lemma_view();
            assert(self@ =~= patched(old(self)@, offset as int));
        }
    }

    /// The index of the instruction written last.
    pub fn current_offset(&self) -> (offset: usize)
        requires
            self@.len() > 0,
        ensures
            offset == self@.len() - 1,
    {
        proof {
            self.lemma_view();
        }
        self.instructions.len() - 1
    }
}

impl Chunk {
    /// Whether the two chunks hold the same instructions.
    pub fn same(&self, other: &Chunk) -> (b: bool)
        ensures
            b == (self@ == other@),
        decreases self,
    {
        proof {
            self.lemma_view();
            other.lemma_view();
        }
        if self.instructions.len() != other.instructions.len() {
            return false;
        }
        let mut i: usize = 0;
        while i < self.instructions.len()
            invariant
                i <= self.instructions.len(),
                self.instructions.len() == other.instructions.len(),
                self@.len() == self.instructions@.len(),
                other@.len() == other.instructions@.len(),
                forall|j: int| 0 <= j < self@.len() ==> #[trigger] self@[j] == self.instructions@[j]@,
                forall|j: int|
                    0 <= j < other@.len() ==> #[trigger] other@[j] == other.instructions@[j]@,
                forall|j: int| 0 <= j < i ==> self@[j] == other@[j],
            decreases self.instructions.len() - i,
        {
            if !self.instructions[i].same(&other.instructions[i]) {
                assert(self@[i as int] != other@[i as int]);
                return false;
            }
            i += 1;
        }
        assert(self@ =~= other@);
        true
    }
}

impl Clone for Chunk {
    fn clone(&self) -> (copy: Self)
        ensures
            copy@ == self@,
        decreases self,
    {
        let mut instructions: Vec<Instruction> = Vec::new();
        let mut i: usize = 0;
        while i < self.instructions.len()
            invariant
                i <= self.instructions.len(),
                instructions@.len() == i,
                forall|j: int| 0 <= j < i ==> instructions@[j]@ == #[trigger] self.instructions@[j]@,
            decreases self.instructions.len() - i,
        {
            instructions.push(self.instructions[i].clone());
            i += 1;
        }
        let copy = Chunk { instructions };
        proof {
            copy.lemma_view();
            self.lemma_view();
            assert(copy@ =~= self@);
        }
        copy
    }
}

} // verus!
