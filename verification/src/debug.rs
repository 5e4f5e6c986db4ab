//! Disassembly: the instructions of a function as a listing in which a line
//! number is shown only where it changes.

use vstd::prelude::*;
use crate::chunk::OpCodeVisitor;
use crate::op_code::InstructionView;
use crate::op_code::OpCode;
use crate::op_code::OpCodeView;
use crate::value::Function;

verus! {

/// One row of a listing: the instruction, and its line unless it is that of
/// the row before.
#[derive(Debug, PartialEq)]
pub struct Entry {
    pub line: Option<i32>,
    pub code: OpCode,
}

/// The listing of a function: a title and one row for each instruction.
#[derive(Debug, PartialEq)]
pub struct Listing {
    pub title: String,
    pub entries: Vec<Entry>,
}

pub ghost struct EntryView {
    pub line: Option<i32>,
    pub code: OpCodeView,
}

impl View for Entry {
    type V = EntryView;

    open spec fn view(&self) -> EntryView {
        EntryView { line: self.line, code: self.code@ }
    }
}

pub struct Debugger {
    last_line: i32,
    entries: Vec<Entry>,
}

/// The row for an instruction of line `line` where the row before it was
/// of line `last_line`.
pub open spec fn entry_of(instruction: InstructionView, last_line: i32) -> EntryView {
    EntryView {
        line: if instruction.line == last_line {
            None
        } else {
            Some(instruction.line)
        },
        code: instruction.code,
    }
}

/// The rows for `code`, where the last row listed before was of line
/// `last_line`.
pub open spec fn listed(code: Seq<InstructionView>, last_line: i32) -> Seq<EntryView> {
    Seq::new(
        code.len(),
        |i: int|
            entry_of(
                code[i],
                if i == 0 {
                    last_line
                } else {
                    code[i - 1].line
                },
            ),
    )
}

/// The line of the last of `code`, or `last_line` if there is none.
pub open spec fn line_after(code: Seq<InstructionView>, last_line: i32) -> i32 {
    if code.len() == 0 {
        last_line
    } else {
        code.last().line
    }
}

/// The title of the listing called `name`.
pub open spec fn title_of(name: Seq<char>) -> Seq<char> {
    "== "@ + name + " =="@
}

impl Debugger {
    /// The line of the row listed last; 0 before the first.
    pub closed spec fn last_line(&self) -> i32 {
        self.last_line
    }

    /// The rows listed and not yet handed out.
    pub closed spec fn pending(&self) -> Seq<EntryView> {
        self.entries@.map_values(|entry: Entry| entry@)
    }

    pub fn new() -> (debugger: Self)
        ensures
            debugger.last_line() == 0,
            debugger.pending() == Seq::<EntryView>::empty(),
    {
        let debugger = Self { last_line: 0, entries: Vec::new() };
        assert(debugger.pending() =~= Seq::<EntryView>::empty());
        debugger
    }

    /// Lists the instructions of `function` under the title `name`. The rows
    /// are those of the function alone; the line of the last one is kept, so
    /// that a listing which follows goes on from it.
    pub fn disassemble_chunk(&mut self, function: &Function, name: &str) -> (listing: Listing)
        ensures
            listing.title@ == title_of(name@),
            listing.entries@.map_values(|entry: Entry| entry@) == listed(
                function@.code,
                old(self).last_line(),
            ),
            final(self).last_line() == line_after(function@.code, old(self).last_line()),
            final(self).pending() == old(self).pending(),
    {
        let mut title = "== ".to_owned();
        title.append(name);
        title.append(" ==");

        let mut waiting: Vec<Entry> = Vec::new();
        std::mem::swap(&mut self.entries, &mut waiting);
        assert(self.pending() =~= Seq::<EntryView>::empty());
        let mut i: usize = 0;
        while i < function.len()
            invariant
                i <= function@.code.len(),
                self.pending() == listed(function@.code, old(self).last_line()).take(i as int),
                self.last_line() == line_after(
                    function@.code.take(i as int),
                    old(self).last_line(),
                ),
            decreases function@.code.len() - i,
        {
            let instruction = function.read_instruction(i);
            let ghost before = self.pending();
            self.operate(&instruction.code, instruction.line);
            proof {
                let all = listed(function@.code, old(self).last_line());
                assert(function@.code.take(i + 1).last() == function@.code[i as int]);
                if i > 0 {
                    assert(function@.code.take(i as int).last() == function@.code[i - 1]);
                }
                assert(all.take(i + 1) =~= all.take(i as int).push(all[i as int]));
            }
            i += 1;
        }
        proof {
            let all = listed(function@.code, old(self).last_line());
            assert(all.take(i as int) =~= all);
            assert(function@.code.take(i as int) =~= function@.code);
        }
        std::mem::swap(&mut self.entries, &mut waiting);
        Listing { title, entries: waiting }
    }

    /// Hands out the rows listed by `operate` since the last call.
    pub fn take_entries(&mut self) -> (entries: Vec<Entry>)
        ensures
            entries@.map_values(|entry: Entry| entry@) == old(self).pending(),
            final(self).pending() == Seq::<EntryView>::empty(),
            final(self).last_line() == old(self).last_line(),
    {
        let mut entries: Vec<Entry> = Vec::new();
        std::mem::swap(&mut self.entries, &mut entries);
        assert(self.pending() =~= Seq::<EntryView>::empty());
        entries
    }
}

impl OpCodeVisitor for Debugger {
    /// A debugger that is shown an instruction keeps its line, and lists it
    /// behind the rows it holds.
    open spec fn shown(before: Self, code: OpCodeView, line: i32, after: Self) -> bool {
        &&& after.last_line() == line
        &&& after.pending() == before.pending().push(
            entry_of(InstructionView { code, line }, before.last_line()),
        )
    }

    /// Lists one instruction.
    fn operate(&mut self, code: &OpCode, line: i32) {
        let line_or_placeholder = if line == self.last_line {
            None
        } else {
            Some(line)
        };
        let entry = Entry { line: line_or_placeholder, code: code.clone() };
        proof {
            assert(self.entries@.push(entry).map_values(|entry: Entry| entry@)
                =~= self.entries@.map_values(|entry: Entry| entry@).push(entry@));
        }
        self.entries.push(entry);
        self.last_line = line;
    }
}

/// Listing the same code twice from the same line gives the same rows; from
/// different lines, rows that differ in nothing but the line shown in the
/// first.
pub proof fn lemma_listed_again(code: Seq<InstructionView>, first: i32, second: i32)
    ensures
        listed(code, first).len() == listed(code, second).len(),
        first == second ==> listed(code, first) == listed(code, second),
        forall|i: int| 0 < i < code.len() ==> listed(code, first)[i] == listed(code, second)[i],
        code.len() > 0 ==> listed(code, first)[0].code == listed(code, second)[0].code,
{
}

} // verus!
