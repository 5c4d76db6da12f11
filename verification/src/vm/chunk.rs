//! Bytecode: instructions, their operands and source lines, and constants.
use vstd::prelude::*;

use crate::ast_printer::{lit_text, push_lit};
use crate::expr::{LitV, LiteralType};
use crate::text::{chars_of, decimal, push_decimal, push_str_chars, string_from_chars};

verus! {

/// An instruction of the virtual machine.
#[derive(Clone, Copy, Debug, PartialEq, Eq, Structural)]
pub enum OpCode {
    OpConstant,
    OpNil,
    OpTrue,
    OpFalse,
    OpPop,
    OpGetLocal,
    OpGetGlobal,
    OpSetLocal,
    OpSetGlobal,
    OpDefaineGlobal,
    OpEqual,
    OpGreater,
    OpLess,
    OpAdd,
    OpSubtract,
    OpMultiply,
    OpDivide,
    OpNot,
    OpNegate,
    OpPrint,
    OpReturn,
}

/// The byte that stands for an instruction: its place in the list above.
pub open spec fn op_byte(op: OpCode) -> u8 {
    match op {
        OpCode::OpConstant => 0,
        OpCode::OpNil => 1,
        OpCode::OpTrue => 2,
        OpCode::OpFalse => 3,
        OpCode::OpPop => 4,
        OpCode::OpGetLocal => 5,
        OpCode::OpGetGlobal => 6,
        OpCode::OpSetLocal => 7,
        OpCode::OpSetGlobal => 8,
        OpCode::OpDefaineGlobal => 9,
        OpCode::OpEqual => 10,
        OpCode::OpGreater => 11,
        OpCode::OpLess => 12,
        OpCode::OpAdd => 13,
        OpCode::OpSubtract => 14,
        OpCode::OpMultiply => 15,
        OpCode::OpDivide => 16,
        OpCode::OpNot => 17,
        OpCode::OpNegate => 18,
        OpCode::OpPrint => 19,
        OpCode::OpReturn => 20,
    }
}

/// The instruction that a byte below `OP_COUNT` stands for.
pub open spec fn op_of_byte(b: u8) -> OpCode {
    if b == 0 { OpCode::OpConstant } else if b == 1 { OpCode::OpNil } else if b == 2 { OpCode::OpTrue }
    else if b == 3 { OpCode::OpFalse } else if b == 4 { OpCode::OpPop } else if b == 5 { OpCode::OpGetLocal }
    else if b == 6 { OpCode::OpGetGlobal } else if b == 7 { OpCode::OpSetLocal }
    else if b == 8 { OpCode::OpSetGlobal } else if b == 9 { OpCode::OpDefaineGlobal }
    else if b == 10 { OpCode::OpEqual } else if b == 11 { OpCode::OpGreater } else if b == 12 { OpCode::OpLess }
    else if b == 13 { OpCode::OpAdd } else if b == 14 { OpCode::OpSubtract } else if b == 15 { OpCode::OpMultiply }
    else if b == 16 { OpCode::OpDivide } else if b == 17 { OpCode::OpNot } else if b == 18 { OpCode::OpNegate }
    else if b == 19 { OpCode::OpPrint } else { OpCode::OpReturn }
}

/// How many instructions there are: the bytes below it stand for one.
pub const OP_COUNT: u8 = 21;

/// The name of an instruction in upper snake case (what its `Display`
/// writes).
#[verifier::opaque]
pub open spec fn op_name(op: OpCode) -> Seq<char> {
    match op {
        OpCode::OpConstant => "OP_CONSTANT"@,
        OpCode::OpNil => "OP_NIL"@,
        OpCode::OpTrue => "OP_TRUE"@,
        OpCode::OpFalse => "OP_FALSE"@,
        OpCode::OpPop => "OP_POP"@,
        OpCode::OpGetLocal => "OP_GET_LOCAL"@,
        OpCode::OpGetGlobal => "OP_GET_GLOBAL"@,
        OpCode::OpSetLocal => "OP_SET_LOCAL"@,
        OpCode::OpSetGlobal => "OP_SET_GLOBAL"@,
        OpCode::OpDefaineGlobal => "OP_DEFAINE_GLOBAL"@,
        OpCode::OpEqual => "OP_EQUAL"@,
        OpCode::OpGreater => "OP_GREATER"@,
        OpCode::OpLess => "OP_LESS"@,
        OpCode::OpAdd => "OP_ADD"@,
        OpCode::OpSubtract => "OP_SUBTRACT"@,
        OpCode::OpMultiply => "OP_MULTIPLY"@,
        OpCode::OpDivide => "OP_DIVIDE"@,
        OpCode::OpNot => "OP_NOT"@,
        OpCode::OpNegate => "OP_NEGATE"@,
        OpCode::OpPrint => "OP_PRINT"@,
        OpCode::OpReturn => "OP_RETURN"@,
    }
}

/// Whether an instruction takes a constant index as its operand.
pub open spec fn takes_constant(op: OpCode) -> bool {
    op == OpCode::OpDefaineGlobal || op == OpCode::OpConstant || op == OpCode::OpSetGlobal || op
        == OpCode::OpGetGlobal
}

impl OpCode {
    /// The byte that stands for the instruction.
    pub fn to_byte(self) -> (b: u8)
        ensures
            b == op_byte(self),
            b < OP_COUNT,
    {
        match self {
            OpCode::OpConstant => 0,
            OpCode::OpNil => 1,
            OpCode::OpTrue => 2,
            OpCode::OpFalse => 3,
            OpCode::OpPop => 4,
            OpCode::OpGetLocal => 5,
            OpCode::OpGetGlobal => 6,
            OpCode::OpSetLocal => 7,
            OpCode::OpSetGlobal => 8,
            OpCode::OpDefaineGlobal => 9,
            OpCode::OpEqual => 10,
            OpCode::OpGreater => 11,
            OpCode::OpLess => 12,
            OpCode::OpAdd => 13,
            OpCode::OpSubtract => 14,
            OpCode::OpMultiply => 15,
            OpCode::OpDivide => 16,
            OpCode::OpNot => 17,
            OpCode::OpNegate => 18,
            OpCode::OpPrint => 19,
            OpCode::OpReturn => 20,
        }
    }

    /// The instruction that a byte stands for.
    pub fn from_byte(b: u8) -> (op: OpCode)
        requires
            b < OP_COUNT,
        ensures
            op_byte(op) == b,
            op == op_of_byte(b),
    {
        match b {
            0 => OpCode::OpConstant,
            1 => OpCode::OpNil,
            2 => OpCode::OpTrue,
            3 => OpCode::OpFalse,
            4 => OpCode::OpPop,
            5 => OpCode::OpGetLocal,
            6 => OpCode::OpGetGlobal,
            7 => OpCode::OpSetLocal,
            8 => OpCode::OpSetGlobal,
            9 => OpCode::OpDefaineGlobal,
            10 => OpCode::OpEqual,
            11 => OpCode::OpGreater,
            12 => OpCode::OpLess,
            13 => OpCode::OpAdd,
            14 => OpCode::OpSubtract,
            15 => OpCode::OpMultiply,
            16 => OpCode::OpDivide,
            17 => OpCode::OpNot,
            18 => OpCode::OpNegate,
            19 => OpCode::OpPrint,
            _ => OpCode::OpReturn,
        }
    }

    /// The name of the instruction (what its `Display` writes).
    pub fn to_string(&self) -> (r: String)
        ensures
            r@ == op_name(*self),
    {
        reveal(op_name);
        match self {
            OpCode::OpConstant => String::from_str("OP_CONSTANT"),
            OpCode::OpNil => String::from_str("OP_NIL"),
            OpCode::OpTrue => String::from_str("OP_TRUE"),
            OpCode::OpFalse => String::from_str("OP_FALSE"),
            OpCode::OpPop => String::from_str("OP_POP"),
            OpCode::OpGetLocal => String::from_str("OP_GET_LOCAL"),
            OpCode::OpGetGlobal => String::from_str("OP_GET_GLOBAL"),
            OpCode::OpSetLocal => String::from_str("OP_SET_LOCAL"),
            OpCode::OpSetGlobal => String::from_str("OP_SET_GLOBAL"),
            OpCode::OpDefaineGlobal => String::from_str("OP_DEFAINE_GLOBAL"),
            OpCode::OpEqual => String::from_str("OP_EQUAL"),
            OpCode::OpGreater => String::from_str("OP_GREATER"),
            OpCode::OpLess => String::from_str("OP_LESS"),
            OpCode::OpAdd => String::from_str("OP_ADD"),
            OpCode::OpSubtract => String::from_str("OP_SUBTRACT"),
            OpCode::OpMultiply => String::from_str("OP_MULTIPLY"),
            OpCode::OpDivide => String::from_str("OP_DIVIDE"),
            OpCode::OpNot => String::from_str("OP_NOT"),
            OpCode::OpNegate => String::from_str("OP_NEGATE"),
            OpCode::OpPrint => String::from_str("OP_PRINT"),
            OpCode::OpReturn => String::from_str("OP_RETURN"),
        }
    }
}

/// An instruction read back from its byte is the instruction.
pub proof fn lemma_op_byte_round_trip(op: OpCode)
    ensures
        op_byte(op) < OP_COUNT,
        forall|other: OpCode| op_byte(other) == op_byte(op) ==> other == op,
{
}

/// The line of byte `offset`, reading the runs of lines from run `i` on;
/// zero past the end.
pub open spec fn run_line(runs: Seq<(usize, usize)>, i: nat, offset: int) -> nat
    decreases runs.len() - i,
{
    if i >= runs.len() {
        0
    } else if offset < runs[i as int].0 {
        runs[i as int].1 as nat
    } else {
        run_line(runs, i + 1, offset - runs[i as int].0)
    }
}

/// How many bytes the runs from run `i` on cover.
pub open spec fn runs_total(runs: Seq<(usize, usize)>, i: nat) -> nat
    decreases runs.len() - i,
{
    if i >= runs.len() {
        0
    } else {
        runs[i as int].0 as nat + runs_total(runs, i + 1)
    }
}

/// Offsets past the bytes that the runs cover are on no line.
proof fn lemma_run_line_past_end(runs: Seq<(usize, usize)>, i: nat, offset: int)
    requires
        offset >= runs_total(runs, i),
    ensures
        run_line(runs, i, offset) == 0,
    decreases runs.len() - i,
{
    if i < runs.len() {
        lemma_run_line_past_end(runs, i + 1, offset - runs[i as int].0);
    }
}

/// The bytes of a chunk, their constants, and the line of each byte.
#[derive(Debug)]
pub struct Chunk {
    code: Vec<u8>,
    constants: Vec<LiteralType>,
    /// Runs of bytes from one line: (how many bytes, which line).
    lines: Vec<(usize, usize)>,
}

impl Chunk {
    /// The bytes.
    pub closed spec fn code_view(&self) -> Seq<u8> {
        self.code@
    }

    /// The constants.
    pub closed spec fn constants_view(&self) -> Seq<LitV> {
        self.constants@.map_values(|c: LiteralType| c@)
    }

    /// The line of byte `offset`; zero past the last byte.
    pub closed spec fn line_of(&self, offset: int) -> nat {
        run_line(self.lines@, 0, offset)
    }

    /// The runs cover the bytes exactly, each at least one.
    pub closed spec fn wf(&self) -> bool {
        &&& runs_total(self.lines@, 0) == self.code@.len()
        &&& forall|i: int| 0 <= i < self.lines@.len() ==> #[trigger] self.lines@[i].0 >= 1
    }

    /// An empty chunk.
    pub fn new() -> (r: Self)
        ensures
            r.wf(),
            r.code_view() == Seq::<u8>::empty(),
            r.constants_view() == Seq::<LitV>::empty(),
            forall|o: int| #[trigger] r.line_of(o) == 0,
    {
        let r = Chunk { code: Vec::new(), constants: Vec::new(), lines: Vec::new() };
        assert(r.constants_view() =~= Seq::<LitV>::empty());
        r
    }

    /// Appends a byte read from line `line`.
    pub fn write(&mut self, value: u8, line: usize)
        requires
            old(self).wf(),
        ensures
            final(self).wf(),
            final(self).code_view() == old(self).code_view().push(value),
            final(self).constants_view() == old(self).constants_view(),
            final(self).line_of(old(self).code_view().len() as int) == line,
            forall|o: int|
                0 <= o < old(self).code_view().len() ==> #[trigger] final(self).line_of(o)
                    == old(self).line_of(o),
            forall|o: int| o > old(self).code_view().len() ==> #[trigger] final(self).line_of(o) == 0,
    {
        proof {
            lemma_runs_total_bound(self.lines@, 0);
        }
        self.code.push(value);
        let code_len = self.code.len();
        let n = self.lines.len();
        if n > 0 && self.lines[n - 1].1 == line {
            let (count, l) = self.lines[n - 1];
            proof {
                lemma_runs_total_split(old(self).lines@, 0);
            }
            self.lines.set(n - 1, (count + 1, l));
            proof {
                lemma_runs_last_grow(old(self).lines@, 0);
            }
        } else {
            self.lines.push((1, line));
            proof {
                lemma_runs_push(old(self).lines@, 0, line);
            }
        }
        assert forall|o: int| o > old(self).code_view().len() implies #[trigger] self.line_of(o) == 0 by {
            lemma_line_past_end(*self, o);
        }
    }

    /// Appends a constant; returns its index.
    pub fn add_constant(&mut self, value: LiteralType) -> (idx: usize)
        requires
            old(self).wf(),
        ensures
            final(self).wf(),
            final(self).code_view() == old(self).code_view(),
            final(self).constants_view() == old(self).constants_view().push(value@),
            idx == old(self).constants_view().len(),
            forall|o: int| #[trigger] final(self).line_of(o) == old(self).line_of(o),
    {
        self.constants.push(value);
        assert(self.constants_view() =~= old(self).constants_view().push(value@));
        self.constants.len() - 1
    }

    /// How many bytes there are.
    pub fn count(&self) -> (n: usize)
        ensures
            n == self.code_view().len(),
    {
        self.code.len()
    }

    /// The line of byte `offset`; zero past the last byte.
    pub fn get_line(&self, offset: usize) -> (line: usize)
        requires
            self.wf(),
        ensures
            line == self.line_of(offset as int),
            offset >= self.code_view().len() ==> line == 0,
    {
        proof {
            lemma_line_past_end(*self, offset as int);
        }
        let mut cur: usize = 0;
        let mut i: usize = 0;
        let _len = self.code.len();
        while i < self.lines.len()
            invariant
                self.wf(),
                i <= self.lines@.len(),
                cur + runs_total(self.lines@, i as nat) == self.code@.len(),
                offset >= cur,
                self.code@.len() <= usize::MAX,
                run_line(self.lines@, i as nat, offset - cur) == run_line(self.lines@, 0, offset as int),
            decreases self.lines@.len() - i,
        {
            let (count, line) = self.lines[i];
            cur = cur + count;
            if offset < cur {
                return line;
            }
            i = i + 1;
        }
        0
    }

    /// The bytes.
    pub fn code(&self) -> (r: &[u8])
        ensures
            r@ == self.code_view(),
    {
        self.code.as_slice()
    }

    /// The constants.
    pub fn constants(&self) -> (r: &Vec<LiteralType>)
        ensures
            r@.map_values(|c: LiteralType| c@) == self.constants_view(),
    {
        &self.constants
    }

    /// The name held by the constant at `idx`, which must be a string.
    pub fn get_ident_string(&self, idx: usize) -> (r: String)
        requires
            idx < self.constants_view().len(),
            self.constants_view()[idx as int] is String,
        ensures
            self.constants_view()[idx as int] == LitV::String(r@),
    {
        match &self.constants[idx] {
            LiteralType::String(name) => name.clone(),
            _ => String::new(),
        }
    }
}

/// Offsets at or past the end of a chunk are on line zero.
pub proof fn lemma_line_past_end(c: Chunk, offset: int)
    requires
        c.wf(),
    ensures
        offset >= c.code_view().len() ==> c.line_of(offset) == 0,
{
    if offset >= c.code_view().len() {
        lemma_run_line_past_end(c.lines@, 0, offset);
    }
}

/// The runs cover no more bytes than there are.
proof fn lemma_runs_total_bound(runs: Seq<(usize, usize)>, i: nat)
    ensures
        runs_total(runs, i) >= 0,
    decreases runs.len() - i,
{
}

/// The total of the runs is that of all but the last plus the last.
proof fn lemma_runs_total_split(runs: Seq<(usize, usize)>, i: nat)
    requires
        runs.len() > 0,
        i < runs.len(),
    ensures
        runs_total(runs, i) == runs_total(runs.drop_last(), i) + runs.last().0,
    decreases runs.len() - i,
{
    assert(runs.drop_last().len() == runs.len() - 1);
    if i + 1 < runs.len() {
        lemma_runs_total_split(runs, i + 1);
        assert(runs.drop_last()[i as int] == runs[i as int]);
    } else {
        assert(runs_total(runs.drop_last(), i) == 0);
        assert(runs_total(runs, i + 1) == 0);
    }
}

/// Growing the last run by one covers one more byte, on its line, and
/// leaves the lines of the others.
proof fn lemma_runs_last_grow(runs: Seq<(usize, usize)>, i: nat)
    requires
        runs.len() > 0,
        i < runs.len(),
        runs.last().0 + 1 <= usize::MAX,
        forall|j: int| 0 <= j < runs.len() ==> #[trigger] runs[j].0 >= 1,
    ensures
        ({
            let grown = runs.update(runs.len() - 1, ((runs.last().0 + 1) as usize, runs.last().1));
            &&& runs_total(grown, i) == runs_total(runs, i) + 1
            &&& run_line(grown, i, runs_total(runs, i) as int) == runs.last().1
            &&& forall|o: int|
                0 <= o < runs_total(runs, i) ==> #[trigger] run_line(grown, i, o) == run_line(runs, i, o)
        }),
    decreases runs.len() - i,
{
    let grown = runs.update(runs.len() - 1, ((runs.last().0 + 1) as usize, runs.last().1));
    if i + 1 < runs.len() {
        lemma_runs_last_grow(runs, i + 1);
        assert forall|o: int| 0 <= o < runs_total(runs, i) implies #[trigger] run_line(grown, i, o)
            == run_line(runs, i, o) by {
            if o >= runs[i as int].0 {
                assert(run_line(grown, i + 1, o - runs[i as int].0) == run_line(
                    runs,
                    i + 1,
                    o - runs[i as int].0,
                ));
            }
        }
        assert(run_line(grown, i + 1, runs_total(runs, i + 1) as int) == runs.last().1);
    } else {
        assert(runs_total(grown, i + 1) == 0);
        assert(runs_total(runs, i + 1) == 0);
    }
}

/// A new run of one byte covers one more byte, on its line, and leaves the
/// lines of the others.
proof fn lemma_runs_push(runs: Seq<(usize, usize)>, i: nat, line: usize)
    requires
        i <= runs.len(),
        forall|j: int| 0 <= j < runs.len() ==> #[trigger] runs[j].0 >= 1,
    ensures
        ({
            let pushed = runs.push((1usize, line));
            &&& runs_total(pushed, i) == runs_total(runs, i) + 1
            &&& run_line(pushed, i, runs_total(runs, i) as int) == line
            &&& forall|o: int|
                0 <= o < runs_total(runs, i) ==> #[trigger] run_line(pushed, i, o) == run_line(runs, i, o)
        }),
    decreases runs.len() - i,
{
    let pushed = runs.push((1usize, line));
    if i < runs.len() {
        lemma_runs_push(runs, i + 1, line);
        assert(pushed[i as int] == runs[i as int]);
        assert forall|o: int| 0 <= o < runs_total(runs, i) implies #[trigger] run_line(pushed, i, o)
            == run_line(runs, i, o) by {
            if o >= runs[i as int].0 {
                assert(run_line(pushed, i + 1, o - runs[i as int].0) == run_line(
                    runs,
                    i + 1,
                    o - runs[i as int].0,
                ));
            }
        }
    } else {
        assert(runs_total(pushed, i + 1) == 0);
    }
}

/// `n` copies of `c`.
pub open spec fn fill(c: char, n: nat) -> Seq<char> {
    Seq::new(n, |_i: int| c)
}

/// `n` in decimal, with zeros on the left up to four places (`{:0>4}`).
pub open spec fn zero_pad4(n: nat) -> Seq<char> {
    let d = decimal(n);
    if d.len() >= 4 { d } else { fill('0', (4 - d.len()) as nat) + d }
}

/// `s` with spaces on the left up to `w` places (`{:>w}`).
pub open spec fn pad_left(s: Seq<char>, w: nat) -> Seq<char> {
    if s.len() >= w { s } else { fill(' ', (w - s.len()) as nat) + s }
}

/// `s` with spaces on the right up to `w` places (`{:<w}`).
pub open spec fn pad_right(s: Seq<char>, w: nat) -> Seq<char> {
    if s.len() >= w { s } else { s + fill(' ', (w - s.len()) as nat) }
}

/// Whether the instruction at `offset` can be listed: its byte names an
/// instruction, and an instruction that takes a constant has its operand,
/// which names a constant of the chunk.
pub open spec fn readable_at(c: Chunk, offset: int) -> bool {
    let code = c.code_view();
    &&& 0 <= offset < code.len()
    &&& code[offset] < OP_COUNT
    &&& takes_constant(op_of_byte(code[offset])) ==> offset + 1 < code.len() && code[offset + 1]
        < c.constants_view().len()
}

/// Where the instruction after the one at `offset` starts.
pub open spec fn next_offset(c: Chunk, offset: int) -> int {
    if takes_constant(op_of_byte(c.code_view()[offset])) { offset + 2 } else { offset + 1 }
}

/// The start of an instruction's listing: its offset, then its line, or `|`
/// where the byte before is on the same line.
pub open spec fn head_text(c: Chunk, offset: int) -> Seq<char> {
    zero_pad4(offset as nat) + " "@ + if offset > 0 && c.line_of(offset) == c.line_of(offset - 1) {
        "   | "@
    } else {
        zero_pad4(c.line_of(offset)) + " "@
    }
}

/// The rest of an instruction's listing: its name, and for a constant its
/// index and value.
pub open spec fn body_text(c: Chunk, offset: int) -> Seq<char> {
    let code = c.code_view();
    let op = op_of_byte(code[offset]);
    if takes_constant(op) {
        let k = code[offset + 1];
        pad_right(op_name(op), 16) + " "@ + pad_left(decimal(k as nat), 4) + " '"@ + lit_text(
            c.constants_view()[k as int],
        ) + "\n"@
    } else {
        op_name(op) + "\n"@
    }
}

/// The listing of the instruction at `offset`.
pub open spec fn instruction_text(c: Chunk, offset: int) -> Seq<char> {
    head_text(c, offset) + body_text(c, offset)
}

/// Whether every instruction from `offset` on can be listed.
pub open spec fn readable_from(c: Chunk, offset: int) -> bool
    decreases c.code_view().len() + 1 - offset,
{
    if offset < 0 || offset >= c.code_view().len() {
        true
    } else {
        readable_at(c, offset) && readable_from(c, next_offset(c, offset))
    }
}

/// The listings of the instructions from `offset` on.
pub open spec fn listing_from(c: Chunk, offset: int) -> Seq<char>
    decreases c.code_view().len() + 1 - offset,
{
    if offset < 0 || offset >= c.code_view().len() {
        Seq::empty()
    } else {
        instruction_text(c, offset) + listing_from(c, next_offset(c, offset))
    }
}

/// Appends `n` copies of `c` to `out`.
fn push_fill(out: &mut Vec<char>, c: char, n: usize)
    ensures
        final(out)@ == old(out)@ + fill(c, n as nat),
{
    let mut k: usize = 0;
    while k < n
        invariant
            k <= n,
            out@ == old(out)@ + fill(c, k as nat),
        decreases n - k,
    {
        out.push(c);
        k = k + 1;
        assert(fill(c, k as nat) =~= fill(c, (k - 1) as nat).push(c));
    }
}

/// Appends the characters of `s` to `out`.
fn push_all(out: &mut Vec<char>, s: &Vec<char>)
    ensures
        final(out)@ == old(out)@ + s@,
{
    let mut k: usize = 0;
    while k < s.len()
        invariant
            k <= s.len(),
            out@ == old(out)@ + s@.subrange(0, k as int),
        decreases s.len() - k,
    {
        out.push(s[k]);
        k = k + 1;
        assert(s@.subrange(0, k as int) =~= s@.subrange(0, (k - 1) as int).push(s@[k - 1]));
    }
    assert(s@.subrange(0, k as int) =~= s@);
}

/// Appends `n` padded with zeros to four places.
fn push_zero_pad4(out: &mut Vec<char>, n: usize)
    ensures
        final(out)@ == old(out)@ + zero_pad4(n as nat),
{
    let mut d: Vec<char> = Vec::new();
    push_decimal(&mut d, n);
    assert(d@ =~= decimal(n as nat));
    if d.len() < 4 {
        push_fill(out, '0', 4 - d.len());
    }
    push_all(out, &d);
    assert(out@ =~= old(out)@ + zero_pad4(n as nat));
}

impl Chunk {
    /// Appends the start of the listing of the instruction at `offset`.
    fn push_head(&self, out: &mut Vec<char>, offset: usize)
        requires
            self.wf(),
            offset < self.code_view().len(),
        ensures
            final(out)@ == old(out)@ + head_text(*self, offset as int),
    {
        proof {
            reveal_strlit(" ");
        }
        push_zero_pad4(out, offset);
        out.push(' ');
        let line = self.get_line(offset);
        if offset > 0 && line == self.get_line(offset - 1) {
            push_str_chars(out, "   | ");
        } else {
            push_zero_pad4(out, line);
            out.push(' ');
        }
        assert(out@ =~= old(out)@ + head_text(*self, offset as int));
    }

    /// Appends the listing of an instruction that takes the constant `k`.
    fn push_constant_body(&self, out: &mut Vec<char>, op: OpCode, k: u8)
        requires
            k < self.constants_view().len(),
        ensures
            final(out)@ == old(out)@ + pad_right(op_name(op), 16) + " "@ + pad_left(decimal(k as nat), 4)
                + " '"@ + lit_text(self.constants_view()[k as int]) + "\n"@,
    {
        proof {
            reveal_strlit(" ");
            reveal_strlit("\n");
        }
        let name = op.to_string();
        let name_chars = chars_of(name.as_str());
        push_all(out, &name_chars);
        if name_chars.len() < 16 {
            push_fill(out, ' ', 16 - name_chars.len());
        }
        let ghost named = out@;
        assert(named =~= old(out)@ + pad_right(op_name(op), 16));
        out.push(' ');
        let mut digits: Vec<char> = Vec::new();
        push_decimal(&mut digits, k as usize);
        if digits.len() < 4 {
            push_fill(out, ' ', 4 - digits.len());
        }
        push_all(out, &digits);
        let ghost numbered = out@;
        assert(numbered =~= named + " "@ + pad_left(decimal(k as nat), 4));
        push_str_chars(out, " '");
        push_lit(out, &self.constants[k as usize]);
        out.push('\n');
        assert(out@ =~= numbered + " '"@ + lit_text(self.constants_view()[k as int]) + "\n"@);
    }

    /// Appends the rest of the listing of the instruction at `offset`;
    /// returns where the next instruction starts.
    #[verifier::spinoff_prover]
    #[verifier::rlimit(40)]
    fn push_body(&self, out: &mut Vec<char>, offset: usize) -> (next: usize)
        requires
            readable_at(*self, offset as int),
        ensures
            final(out)@ == old(out)@ + body_text(*self, offset as int),
            next == next_offset(*self, offset as int),
    {
        proof {
            reveal_strlit("\n");
        }
        let n = self.code.len();
        let op = OpCode::from_byte(self.code[offset]);
        if op == OpCode::OpDefaineGlobal || op == OpCode::OpConstant || op == OpCode::OpSetGlobal
            || op == OpCode::OpGetGlobal {
            let k = self.code[offset + 1];
            self.push_constant_body(out, op, k);
            offset + 2
        } else {
            let name = op.to_string();
            push_str_chars(out, name.as_str());
            out.push('\n');
            assert(out@ =~= old(out)@ + op_name(op) + "\n"@);
            offset + 1
        }
    }

    /// The listing of the instruction at `offset` (what the debug listing
    /// shows for it) and where the next instruction starts.
    pub fn disassemble_instruction(&self, offset: usize) -> (r: (String, usize))
        requires
            self.wf(),
            readable_at(*self, offset as int),
        ensures
            r.0@ == instruction_text(*self, offset as int),
            r.1 == next_offset(*self, offset as int),
    {
        let mut out: Vec<char> = Vec::new();
        self.push_head(&mut out, offset);
        let next = self.push_body(&mut out, offset);
        assert(out@ =~= instruction_text(*self, offset as int));
        (string_from_chars(out.as_slice()), next)
    }

    /// Whether every instruction can be listed: what `disassemble` asks of
    /// the chunk.
    pub fn readable(&self) -> (r: bool)
        ensures
            r == readable_from(*self, 0),
    {
        let n = self.code.len();
        let mut offset: usize = 0;
        while offset < n
            invariant
                n == self.code@.len(),
                offset <= n + 1,
                readable_from(*self, offset as int) == readable_from(*self, 0),
            decreases n + 1 - offset,
        {
            let b = self.code[offset];
            if b >= OP_COUNT {
                return false;
            }
            let op = OpCode::from_byte(b);
            if op == OpCode::OpDefaineGlobal || op == OpCode::OpConstant || op == OpCode::OpSetGlobal
                || op == OpCode::OpGetGlobal {
                if offset + 1 >= n || self.code[offset + 1] as usize >= self.constants.len() {
                    return false;
                }
                offset = offset + 2;
            } else {
                offset = offset + 1;
            }
        }
        true
    }

    /// The listing of the whole chunk under the title `name` (what the debug
    /// listing shows).
    pub fn disassemble(&self, name: &str) -> (r: String)
        requires
            self.wf(),
            readable_from(*self, 0),
        ensures
            r@ == "== "@ + name@ + " ==\n"@ + listing_from(*self, 0),
    {
        let mut out: Vec<char> = Vec::new();
        push_str_chars(&mut out, "== ");
        push_str_chars(&mut out, name);
        push_str_chars(&mut out, " ==\n");
        let ghost title = out@;
        assert(title =~= "== "@ + name@ + " ==\n"@);
        let mut offset: usize = 0;
        while offset < self.code.len()
            invariant
                self.wf(),
                offset <= self.code@.len(),
                readable_from(*self, offset as int),
                title + listing_from(*self, 0) == out@ + listing_from(*self, offset as int),
            decreases self.code@.len() - offset,
        {
            let ghost before = out@;
            let (text, next) = self.disassemble_instruction(offset);
            let chars = chars_of(text.as_str());
            push_all(&mut out, &chars);
            proof {
                assert(listing_from(*self, offset as int) == instruction_text(*self, offset as int)
                    + listing_from(*self, next as int));
                assert(out@ + listing_from(*self, next as int) =~= before + listing_from(*self, offset as int));
            }
            offset = next;
        }
        assert(out@ =~= title + listing_from(*self, 0));
        string_from_chars(out.as_slice())
    }
}

} // verus!
