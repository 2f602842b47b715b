//! Bytecode: the instructions, a chunk of them with the line of each and a
//! pool of constants, and the disassembly that makes a chunk readable.

use crate::text::{decimal, decimal_string, with_number, zero_padded, zero_padded_string};
use vstd::string::*;
use crate::value::{Value, ValueArray, ValueView};
use vstd::prelude::*;

verus! {

/// One instruction of the bytecode.
#[derive(Debug, Clone, Copy, PartialEq, Eq, Structural)]
pub enum OpCode {
    /// Push the constant that stands at this index of the constant pool.
    OpConstant(usize),
    OpAdd,
    OpSubtract,
    OpMultiply,
    OpDivide,
    OpNegate,
    OpReturn,
}

impl OpCode {
    /// The name of the instruction, followed for `OpConstant` by a space and
    /// its index in decimal.
    pub open spec fn text(self) -> Seq<char> {
        match self {
            OpCode::OpReturn => "OpReturn"@,
            OpCode::OpConstant(index) => "OpConstant "@ + decimal(index as nat),
            OpCode::OpNegate => "OpNegate"@,
            OpCode::OpAdd => "OpAdd"@,
            OpCode::OpSubtract => "OpSubtract"@,
            OpCode::OpMultiply => "OpMultiply"@,
            OpCode::OpDivide => "OpDivide"@,
        }
    }

    /// The name under which a disassembly lists the instruction.
    pub open spec fn mnemonic(self) -> Seq<char> {
        match self {
            OpCode::OpReturn => "OP_RETURN"@,
            OpCode::OpConstant(_) => "OP_CONSTANT"@,
            OpCode::OpNegate => "OP_NEGATE"@,
            OpCode::OpAdd => "OP_ADD"@,
            OpCode::OpSubtract => "OP_SUBTRACT"@,
            OpCode::OpMultiply => "OP_MULTIPLY"@,
            OpCode::OpDivide => "OP_DIVIDE"@,
        }
    }

    /// The instruction as text: see [`OpCode::text`].
    pub fn to_string(&self) -> (text: String)
        ensures
            text@ == self.text(),
    {
        match self {
            OpCode::OpReturn => "OpReturn".to_owned(),
            OpCode::OpConstant(index) => with_number("OpConstant ", *index),
            OpCode::OpNegate => "OpNegate".to_owned(),
            OpCode::OpAdd => "OpAdd".to_owned(),
            OpCode::OpSubtract => "OpSubtract".to_owned(),
            OpCode::OpMultiply => "OpMultiply".to_owned(),
            OpCode::OpDivide => "OpDivide".to_owned(),
        }
    }
}

/// A unit of bytecode: the instructions, the source line of each, and the
/// pool of the constants that the instructions name by index.
#[derive(Debug)]
pub struct Chunk {
    pub code: Vec<OpCode>,
    pub linenum: Vec<usize>,
    pub constants: ValueArray,
}

/// What a [`Chunk`] is in contracts.
pub struct ChunkView {
    pub code: Seq<OpCode>,
    pub lines: Seq<usize>,
    pub constants: Seq<ValueView>,
}

impl ChunkView {
    /// The chunk that holds nothing.
    pub open spec fn empty() -> ChunkView {
        ChunkView { code: Seq::empty(), lines: Seq::empty(), constants: Seq::empty() }
    }

    /// Whether `instruction` may stand in this chunk: a constant's index
    /// lies within the pool.
    pub open spec fn admits(self, instruction: OpCode) -> bool {
        instruction matches OpCode::OpConstant(index) ==> index < self.constants.len()
    }

    /// The invariant of a chunk: each instruction has its line, and each
    /// `OpConstant` names a constant of the pool.
    pub open spec fn well_formed(self) -> bool {
        &&& self.code.len() == self.lines.len()
        &&& forall|offset: int| 0 <= offset < self.code.len() ==> self.admits(#[trigger] self.code[offset])
    }

    /// The chunk with one more instruction at its end.
    pub open spec fn write(self, instruction: OpCode, line: usize) -> ChunkView {
        ChunkView { code: self.code.push(instruction), lines: self.lines.push(line), ..self }
    }

    /// The chunk with one more constant at the end of its pool.
    pub open spec fn add_constant(self, value: ValueView) -> ChunkView {
        ChunkView { constants: self.constants.push(value), ..self }
    }

    /// The chunk with one more constant and the instruction that pushes it.
    pub open spec fn write_constant(self, value: ValueView, line: usize) -> ChunkView {
        self.add_constant(value).write(OpCode::OpConstant(self.constants.len() as usize), line)
    }

    /// The row of a disassembly for the instruction at `offset`.
    pub open spec fn row(self, offset: int) -> DisassembledInstructionView {
        DisassembledInstructionView {
            line: self.lines[offset],
            name: self.code[offset].mnemonic(),
            offset: offset as usize,
            constant: match self.code[offset] {
                OpCode::OpConstant(index) => Some(self.constants[index as int]),
                _ => None,
            },
        }
    }

    /// The disassembly of the chunk under the heading `name`: one row for
    /// each instruction, in order.
    pub open spec fn disassembly(self, name: Seq<char>) -> DisassemblyView {
        DisassemblyView { name, instructions: Seq::new(self.code.len(), |offset: int| self.row(offset)) }
    }
}

impl View for Chunk {
    type V = ChunkView;

    open spec fn view(&self) -> ChunkView {
        ChunkView { code: self.code@, lines: self.linenum@, constants: self.constants@ }
    }
}

/// One row of a disassembly: an instruction with the line of the source it
/// comes from, its offset in the chunk and, for `OpConstant`, the constant.
#[derive(Debug)]
pub struct DisassembledInstruction {
    pub line: usize,
    pub name: String,
    pub offset: usize,
    pub constant: Option<Value>,
}

/// What a [`DisassembledInstruction`] is in contracts.
pub struct DisassembledInstructionView {
    pub line: usize,
    pub name: Seq<char>,
    pub offset: usize,
    pub constant: Option<ValueView>,
}

impl DisassembledInstructionView {
    /// The row as text, without its constant: the line in at least four
    /// digits, the name and the offset, with a space between them.
    pub open spec fn text(self) -> Seq<char> {
        zero_padded(self.line as nat, 4) + " "@ + self.name + " "@ + decimal(self.offset as nat)
    }
}

impl DisassembledInstruction {
    /// The row as text, without its constant: see
    /// [`DisassembledInstructionView::text`]. Whoever prints the row
    /// writes the constant behind it.
    pub fn describe(&self) -> (text: String)
        ensures
            text@ == self@.text(),
    {
        let mut text = zero_padded_string(self.line, 4);
        text.append(" ");
        text.append(self.name.as_str());
        text.append(" ");
        let offset = decimal_string(self.offset);
        text.append(offset.as_str());
        text
    }
}

impl View for DisassembledInstruction {
    type V = DisassembledInstructionView;

    open spec fn view(&self) -> DisassembledInstructionView {
        DisassembledInstructionView {
            line: self.line,
            name: self.name@,
            offset: self.offset,
            constant: match self.constant {
                Some(value) => Some(value@),
                None => None,
            },
        }
    }
}

/// A chunk made readable: a heading and one row for each instruction.
#[derive(Debug)]
pub struct Disassembly {
    pub name: String,
    pub instructions: Vec<DisassembledInstruction>,
}

/// What a [`Disassembly`] is in contracts.
pub struct DisassemblyView {
    pub name: Seq<char>,
    pub instructions: Seq<DisassembledInstructionView>,
}

impl DisassemblyView {
    /// The line above the rows: the name between two pairs of equal signs.
    pub open spec fn heading(self) -> Seq<char> {
        "== "@ + self.name + " =="@
    }
}

impl Disassembly {
    /// The line above the rows: see [`DisassemblyView::heading`].
    pub fn heading(&self) -> (text: String)
        ensures
            text@ == self@.heading(),
    {
        let mut text = "== ".to_owned();
        text.append(self.name.as_str());
        text.append(" ==");
        text
    }
}

impl View for Disassembly {
    type V = DisassemblyView;

    open spec fn view(&self) -> DisassemblyView {
        DisassemblyView {
            name: self.name@,
            instructions: Seq::new(self.instructions@.len(), |row: int| self.instructions@[row]@),
        }
    }
}

impl Chunk {
    /// A chunk without instructions and without constants.
    pub fn new() -> (chunk: Self)
        ensures
            chunk@ == ChunkView::empty(),
            chunk@.well_formed(),
    {
        Self { code: Vec::new(), linenum: Vec::new(), constants: ValueArray::new() }
    }

    /// Appends the instruction `byte`, which comes from line `line`.
    pub fn write_chunk(&mut self, byte: OpCode, line: usize)
        ensures
            final(self)@ == old(self)@.write(byte, line),
            old(self)@.well_formed() && old(self)@.admits(byte) ==> final(self)@.well_formed(),
    {
        self.code.push(byte);
        self.linenum.push(line);
    }

    /// Appends `value` to the constant pool and returns its index. Equal
    /// values are not shared: each call takes a new slot.
    pub fn add_constant(&mut self, value: Value) -> (index: usize)
        ensures
            final(self)@ == old(self)@.add_constant(value@),
            index == old(self)@.constants.len(),
            old(self)@.well_formed() ==> final(self)@.well_formed(),
    {
        self.constants.write(value)
    }

    /// Appends `value` to the constant pool and the instruction that pushes it.
    pub fn write_constant(&mut self, value: Value, line: usize)
        ensures
            final(self)@ == old(self)@.write_constant(value@, line),
            old(self)@.well_formed() ==> final(self)@.well_formed(),
    {
        let index = self.add_constant(value);
        self.write_chunk(OpCode::OpConstant(index), line);
    }

    /// Appends the instruction that pushes the constant at `index`.
    pub fn write_raw_constant(&mut self, index: usize, line: usize)
        ensures
            final(self)@ == old(self)@.write(OpCode::OpConstant(index), line),
            old(self)@.well_formed() && index < old(self)@.constants.len()
                ==> final(self)@.well_formed(),
    {
        self.write_chunk(OpCode::OpConstant(index), line);
    }

    /// The constant at `index` of the pool.
    pub fn read_constant(&self, index: usize) -> (value: Value)
        requires
            index < self@.constants.len(),
        ensures
            value@ == self@.constants[index as int],
    {
        self.constants.values[index].clone()
    }

    /// Whether the chunk keeps its invariant: see [`ChunkView::well_formed`].
    pub fn is_well_formed(&self) -> (well_formed: bool)
        ensures
            well_formed == self@.well_formed(),
    {
        if self.code.len() != self.linenum.len() {
            return false;
        }
        let mut offset: usize = 0;
        while offset < self.code.len()
            invariant
                offset <= self.code.len(),
                forall|i: int| 0 <= i < offset ==> self@.admits(#[trigger] self@.code[i]),
            decreases self.code.len() - offset,
        {
            if let OpCode::OpConstant(index) = self.code[offset] {
                if index >= self.constants.values.len() {
                    assert(!self@.admits(self@.code[offset as int]));
                    return false;
                }
            }
            offset += 1;
        }
        true
    }

    /// The chunk made readable under the heading `name`.
    pub fn disassemble(&self, name: &str) -> (listing: Disassembly)
        requires
            self@.well_formed(),
        ensures
            listing@ == self@.disassembly(name@),
    {
        let mut instructions: Vec<DisassembledInstruction> = Vec::new();
        let mut offset: usize = 0;
        while offset < self.code.len()
            invariant
                self@.well_formed(),
                offset <= self.code.len(),
                instructions@.len() == offset,
                forall|i: int| 0 <= i < offset ==> (#[trigger] instructions@[i])@ == self@.row(i),
            decreases self.code.len() - offset,
        {
            let row = self.disassemble_instruction(&self.code[offset], offset);
            instructions.push(row);
            offset += 1;
        }
        let listing = Disassembly { name: name.to_owned(), instructions };
        assert(listing@.instructions =~= self@.disassembly(name@).instructions);
        listing
    }

    /// The row of a disassembly for `byte`, the instruction at `offset`.
    fn disassemble_instruction(&self, byte: &OpCode, offset: usize) -> (row:
        DisassembledInstruction)
        requires
            self@.well_formed(),
            offset < self@.code.len(),
            *byte == self@.code[offset as int],
        ensures
            row@ == self@.row(offset as int),
    {
        assert(self@.admits(self@.code[offset as int]));
        let line = self.linenum[offset];
        match byte {
            OpCode::OpReturn => self.simple_instruction("OP_RETURN", line, offset),
            OpCode::OpNegate => self.simple_instruction("OP_NEGATE", line, offset),
            OpCode::OpAdd => self.simple_instruction("OP_ADD", line, offset),
            OpCode::OpSubtract => self.simple_instruction("OP_SUBTRACT", line, offset),
            OpCode::OpMultiply => self.simple_instruction("OP_MULTIPLY", line, offset),
            OpCode::OpDivide => self.simple_instruction("OP_DIVIDE", line, offset),
            OpCode::OpConstant(index) => {
                let value = self.read_constant(*index);
                self.constant_instruction("OP_CONSTANT", value, line, offset)
            },
        }
    }

    /// The row of an instruction without an operand.
    fn simple_instruction(&self, name: &str, line: usize, offset: usize) -> (row:
        DisassembledInstruction)
        ensures
            row@ == (DisassembledInstructionView { line, name: name@, offset, constant: None }),
    {
        DisassembledInstruction { line, name: name.to_owned(), offset, constant: None }
    }

    /// The row of an instruction that names a constant.
    fn constant_instruction(&self, name: &str, value: Value, line: usize, offset: usize) -> (row:
        DisassembledInstruction)
        ensures
            row@ == (DisassembledInstructionView {
                line,
                name: name@,
                offset,
                constant: Some(value@),
            }),
    {
        DisassembledInstruction { line, name: name.to_owned(), offset, constant: Some(value) }
    }
}

impl Default for Chunk {
    fn default() -> (chunk: Self)
        ensures
            chunk@ == ChunkView::empty(),
            chunk@.well_formed(),
    {
        Self::new()
    }
}

} // verus!
