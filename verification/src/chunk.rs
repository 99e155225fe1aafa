//! Bytecode: the instruction set, and the chunk that holds one program.
use vstd::prelude::*;
use vstd::std_specs::convert::FromSpecImpl;
use crate::value::{Value, ValueArray, ValueView};

verus! {

/// The largest number of constants one chunk holds: an operand is one byte.
pub const MAX_CONSTANTS: usize = 256;

/// An instruction of the machine.
#[derive(PartialEq, Eq, Clone, Copy, Debug, Structural)]
pub enum OpCode {
    OpConstant,
    OpReturn,
    OpNegate,
    OpAdd,
    OpSubtract,
    OpMultiply,
    OpDivide,
    OpNil,
    OpTrue,
    OpFalse,
    OpNot,
    OpEqual,
    OpGreater,
    OpLess,
    OpPrint,
    OpPop,
    OpDefineGlobal,
    OpGetGlobal,
    OpSetGlobal,
}

impl OpCode {
    /// The byte that encodes the instruction.
    pub open spec fn byte(self) -> u8 {
        match self {
            OpCode::OpConstant => 0,
            OpCode::OpReturn => 1,
            OpCode::OpNegate => 2,
            OpCode::OpAdd => 3,
            OpCode::OpSubtract => 4,
            OpCode::OpMultiply => 5,
            OpCode::OpDivide => 6,
            OpCode::OpNil => 7,
            OpCode::OpTrue => 8,
            OpCode::OpFalse => 9,
            OpCode::OpNot => 10,
            OpCode::OpEqual => 11,
            OpCode::OpGreater => 12,
            OpCode::OpLess => 13,
            OpCode::OpPrint => 14,
            OpCode::OpPop => 15,
            OpCode::OpDefineGlobal => 16,
            OpCode::OpGetGlobal => 17,
            OpCode::OpSetGlobal => 18,
        }
    }

    /// The instruction that `byte` encodes, if it encodes one.
    pub open spec fn decode(byte: u8) -> Option<OpCode> {
        if exists|op: OpCode| op.byte() == byte {
            Some(choose|op: OpCode| op.byte() == byte)
        } else {
            None
        }
    }

    /// Whether the instruction is followed by a one-byte operand, the index
    /// of a constant.
    pub open spec fn has_operand(self) -> bool {
        self == OpCode::OpConstant || self == OpCode::OpDefineGlobal || self == OpCode::OpGetGlobal
            || self == OpCode::OpSetGlobal
    }

    /// Whether the instruction's operand is the index of the name of a
    /// global variable.
    pub open spec fn names_global(self) -> bool {
        self == OpCode::OpDefineGlobal || self == OpCode::OpGetGlobal || self
            == OpCode::OpSetGlobal
    }

    /// The instruction's mnemonic.
    pub open spec fn mnemonic(self) -> Seq<char> {
        match self {
            OpCode::OpConstant => "OpConstant"@,
            OpCode::OpReturn => "OpReturn"@,
            OpCode::OpNegate => "OpNegate"@,
            OpCode::OpAdd => "OpAdd"@,
            OpCode::OpSubtract => "OpSubtract"@,
            OpCode::OpMultiply => "OpMultiply"@,
            OpCode::OpDivide => "OpDivide"@,
            OpCode::OpNil => "OpNil"@,
            OpCode::OpTrue => "OpTrue"@,
            OpCode::OpFalse => "OpFalse"@,
            OpCode::OpNot => "OpNot"@,
            OpCode::OpEqual => "OpEqual"@,
            OpCode::OpGreater => "OpGreater"@,
            OpCode::OpLess => "OpLess"@,
            OpCode::OpPrint => "OpPrint"@,
            OpCode::OpPop => "OpPop"@,
            OpCode::OpDefineGlobal => "OpDefineGlobal"@,
            OpCode::OpGetGlobal => "OpGetGlobal"@,
            OpCode::OpSetGlobal => "OpSetGlobal"@,
        }
    }

    /// Decoding inverts encoding, and no two instructions share a byte.
    pub proof fn lemma_decode_byte(self)
        ensures
            Self::decode(self.byte()) == Some(self),
    {
        let other = choose|op: OpCode| op.byte() == self.byte();
        assert(other.byte() == self.byte());
    }

    /// A byte decodes to an instruction only if that instruction encodes to it.
    pub proof fn lemma_decode_sound(byte: u8)
        ensures
            Self::decode(byte) matches Some(op) ==> op.byte() == byte,
            Self::decode(byte) is Some <==> byte <= 18,
    {
        if byte <= 18 {
            let witness = if byte == 0 {
                OpCode::OpConstant
            } else if byte == 1 {
                OpCode::OpReturn
            } else if byte == 2 {
                OpCode::OpNegate
            } else if byte == 3 {
                OpCode::OpAdd
            } else if byte == 4 {
                OpCode::OpSubtract
            } else if byte == 5 {
                OpCode::OpMultiply
            } else if byte == 6 {
                OpCode::OpDivide
            } else if byte == 7 {
                OpCode::OpNil
            } else if byte == 8 {
                OpCode::OpTrue
            } else if byte == 9 {
                OpCode::OpFalse
            } else if byte == 10 {
                OpCode::OpNot
            } else if byte == 11 {
                OpCode::OpEqual
            } else if byte == 12 {
                OpCode::OpGreater
            } else if byte == 13 {
                OpCode::OpLess
            } else if byte == 14 {
                OpCode::OpPrint
            } else if byte == 15 {
                OpCode::OpPop
            } else if byte == 16 {
                OpCode::OpDefineGlobal
            } else if byte == 17 {
                OpCode::OpGetGlobal
            } else {
                OpCode::OpSetGlobal
            };
            assert(witness.byte() == byte);
        }
    }

    /// Decodes `byte`, or returns `None` where it encodes no instruction.
    pub fn from_byte(byte: u8) -> (op: Option<OpCode>)
        ensures
            op == Self::decode(byte),
    {
        let op = match byte {
            0 => Some(OpCode::OpConstant),
            1 => Some(OpCode::OpReturn),
            2 => Some(OpCode::OpNegate),
            3 => Some(OpCode::OpAdd),
            4 => Some(OpCode::OpSubtract),
            5 => Some(OpCode::OpMultiply),
            6 => Some(OpCode::OpDivide),
            7 => Some(OpCode::OpNil),
            8 => Some(OpCode::OpTrue),
            9 => Some(OpCode::OpFalse),
            10 => Some(OpCode::OpNot),
            11 => Some(OpCode::OpEqual),
            12 => Some(OpCode::OpGreater),
            13 => Some(OpCode::OpLess),
            14 => Some(OpCode::OpPrint),
            15 => Some(OpCode::OpPop),
            16 => Some(OpCode::OpDefineGlobal),
            17 => Some(OpCode::OpGetGlobal),
            18 => Some(OpCode::OpSetGlobal),
            _ => None,
        };
        proof {
            Self::lemma_decode_sound(byte);
            if let Some(found) = op {
                found.lemma_decode_byte();
            }
        }
        op
    }

    /// Whether an operand byte follows the instruction.
    pub fn takes_operand(self) -> (yes: bool)
        ensures
            yes == self.has_operand(),
    {
        match self {
            OpCode::OpConstant | OpCode::OpDefineGlobal | OpCode::OpGetGlobal
            | OpCode::OpSetGlobal => true,
            _ => false,
        }
    }

    /// The instruction's mnemonic.
    pub fn name(self) -> (name: &'static str)
        ensures
            name@ == self.mnemonic(),
    {
        match self {
            OpCode::OpConstant => "OpConstant",
            OpCode::OpReturn => "OpReturn",
            OpCode::OpNegate => "OpNegate",
            OpCode::OpAdd => "OpAdd",
            OpCode::OpSubtract => "OpSubtract",
            OpCode::OpMultiply => "OpMultiply",
            OpCode::OpDivide => "OpDivide",
            OpCode::OpNil => "OpNil",
            OpCode::OpTrue => "OpTrue",
            OpCode::OpFalse => "OpFalse",
            OpCode::OpNot => "OpNot",
            OpCode::OpEqual => "OpEqual",
            OpCode::OpGreater => "OpGreater",
            OpCode::OpLess => "OpLess",
            OpCode::OpPrint => "OpPrint",
            OpCode::OpPop => "OpPop",
            OpCode::OpDefineGlobal => "OpDefineGlobal",
            OpCode::OpGetGlobal => "OpGetGlobal",
            OpCode::OpSetGlobal => "OpSetGlobal",
        }
    }
}

impl From<OpCode> for u8 {
    fn from(opcode: OpCode) -> (byte: u8) {
        match opcode {
            OpCode::OpConstant => 0,
            OpCode::OpReturn => 1,
            OpCode::OpNegate => 2,
            OpCode::OpAdd => 3,
            OpCode::OpSubtract => 4,
            OpCode::OpMultiply => 5,
            OpCode::OpDivide => 6,
            OpCode::OpNil => 7,
            OpCode::OpTrue => 8,
            OpCode::OpFalse => 9,
            OpCode::OpNot => 10,
            OpCode::OpEqual => 11,
            OpCode::OpGreater => 12,
            OpCode::OpLess => 13,
            OpCode::OpPrint => 14,
            OpCode::OpPop => 15,
            OpCode::OpDefineGlobal => 16,
            OpCode::OpGetGlobal => 17,
            OpCode::OpSetGlobal => 18,
        }
    }
}

impl FromSpecImpl<OpCode> for u8 {
    open spec fn obeys_from_spec() -> bool {
        true
    }

    open spec fn from_spec(opcode: OpCode) -> u8 {
        opcode.byte()
    }
}

/// One program: instruction bytes, the source line of each byte, and the
/// constants the instructions refer to.
pub struct Chunk {
    pub code: Vec<u8>,
    pub lines: Vec<usize>,
    pub constants: ValueArray,
}

/// The mathematical content of a [`Chunk`].
pub struct ChunkView {
    pub code: Seq<u8>,
    pub lines: Seq<usize>,
    pub constants: Seq<ValueView>,
}

impl View for Chunk {
    type V = ChunkView;

    open spec fn view(&self) -> ChunkView {
        ChunkView { code: self.code@, lines: self.lines@, constants: self.constants@ }
    }
}

impl ChunkView {
    /// The chunk that holds nothing.
    pub open spec fn empty() -> ChunkView {
        ChunkView { code: Seq::empty(), lines: Seq::empty(), constants: Seq::empty() }
    }

    /// Every byte has its line, the pool is within its limit, and the code
    /// is a sequence of whole instructions whose operands name constants
    /// that the pool holds.
    pub open spec fn well_formed(self) -> bool {
        &&& self.lines.len() == self.code.len()
        &&& self.constants.len() <= MAX_CONSTANTS
        &&& self.decodes_from(0)
    }

    /// Whether the bytes from `offset` on are whole instructions, each
    /// operand the index of a constant that the pool holds.
    pub open spec fn decodes_from(self, offset: int) -> bool
        decreases self.code.len() - offset,
    {
        if offset >= self.code.len() {
            offset == self.code.len()
        } else {
            match OpCode::decode(self.code[offset]) {
                Some(op) => if op.has_operand() {
                    &&& offset + 1 < self.code.len()
                    &&& self.code[offset + 1] < self.constants.len()
                    &&& self.decodes_from(offset + 2)
                } else {
                    self.decodes_from(offset + 1)
                },
                None => false,
            }
        }
    }

    /// Whether, in the whole instructions from `offset` on, each operand
    /// that should name a global variable is the index of a string.
    pub open spec fn names_from(self, offset: int) -> bool
        decreases self.code.len() - offset,
    {
        if offset >= self.code.len() {
            true
        } else {
            match OpCode::decode(self.code[offset]) {
                Some(op) => if op.has_operand() {
                    &&& offset + 1 < self.code.len()
                    &&& op.names_global() ==> self.code[offset + 1] < self.constants.len()
                        && self.constants[self.code[offset + 1] as int] is Str
                    &&& self.names_from(offset + 2)
                } else {
                    self.names_from(offset + 1)
                },
                None => true,
            }
        }
    }

    /// An instruction without operand, written at the end, leaves every
    /// name a string.
    pub proof fn lemma_write_instruction_names(self, op: OpCode, line: usize, offset: int)
        requires
            0 <= offset <= self.code.len(),
            self.decodes_from(offset),
            self.names_from(offset),
            !op.has_operand(),
        ensures
            self.write(op.byte(), line).names_from(offset),
        decreases self.code.len() - offset,
    {
        let written = self.write(op.byte(), line);
        op.lemma_decode_byte();
        if offset == self.code.len() {
            assert(written.names_from(offset + 1));
        } else {
            assert(written.code[offset] == self.code[offset]);
            let here = OpCode::decode(self.code[offset])->0;
            if here.has_operand() {
                assert(written.code[offset + 1] == self.code[offset + 1]);
                self.lemma_write_instruction_names(op, line, offset + 2);
            } else {
                self.lemma_write_instruction_names(op, line, offset + 1);
            }
        }
    }

    /// An instruction and its operand, written at the end, leave every
    /// name a string, if the operand is the index of a string where the
    /// instruction wants a name.
    pub proof fn lemma_write_with_operand_names(
        self,
        op: OpCode,
        operand: u8,
        line: usize,
        second_line: usize,
        offset: int,
    )
        requires
            0 <= offset <= self.code.len(),
            self.decodes_from(offset),
            self.names_from(offset),
            op.has_operand(),
            operand < self.constants.len(),
            op.names_global() ==> self.constants[operand as int] is Str,
        ensures
            self.write(op.byte(), line).write(operand, second_line).names_from(offset),
        decreases self.code.len() - offset,
    {
        let written = self.write(op.byte(), line).write(operand, second_line);
        op.lemma_decode_byte();
        if offset == self.code.len() {
            assert(written.code[offset] == op.byte());
            assert(written.code[offset + 1] == operand);
            assert(written.names_from(offset + 2));
        } else {
            assert(written.code[offset] == self.code[offset]);
            let here = OpCode::decode(self.code[offset])->0;
            if here.has_operand() {
                assert(written.code[offset + 1] == self.code[offset + 1]);
                self.lemma_write_with_operand_names(op, operand, line, second_line, offset + 2);
            } else {
                self.lemma_write_with_operand_names(op, operand, line, second_line, offset + 1);
            }
        }
    }

    /// A constant added to the pool leaves every name a string.
    pub proof fn lemma_add_constant_names(self, value: ValueView, offset: int)
        requires
            0 <= offset <= self.code.len(),
            self.decodes_from(offset),
            self.names_from(offset),
        ensures
            self.add_constant(value).names_from(offset),
        decreases self.code.len() - offset,
    {
        if offset < self.code.len() {
            let here = OpCode::decode(self.code[offset])->0;
            if here.has_operand() {
                self.lemma_add_constant_names(value, offset + 2);
            } else {
                self.lemma_add_constant_names(value, offset + 1);
            }
        }
    }

    /// Whether the bytes from `offset` on are whole instructions with
    /// operands in range, the last of them a return.
    pub open spec fn returns_from(self, offset: int) -> bool
        decreases self.code.len() - offset,
    {
        if offset >= self.code.len() {
            false
        } else {
            match OpCode::decode(self.code[offset]) {
                Some(op) => if op.has_operand() {
                    &&& offset + 1 < self.code.len()
                    &&& self.code[offset + 1] < self.constants.len()
                    &&& self.returns_from(offset + 2)
                } else if offset + 1 == self.code.len() {
                    op == OpCode::OpReturn
                } else {
                    self.returns_from(offset + 1)
                },
                None => false,
            }
        }
    }

    /// A return written at the end of whole instructions makes them whole
    /// instructions that end in a return.
    pub proof fn lemma_write_return(self, line: usize, offset: int)
        requires
            0 <= offset <= self.code.len(),
            self.decodes_from(offset),
        ensures
            self.write(OpCode::OpReturn.byte(), line).returns_from(offset),
        decreases self.code.len() - offset,
    {
        let written = self.write(OpCode::OpReturn.byte(), line);
        OpCode::OpReturn.lemma_decode_byte();
        if offset < self.code.len() {
            assert(written.code[offset] == self.code[offset]);
            let here = OpCode::decode(self.code[offset])->0;
            if here.has_operand() {
                assert(written.code[offset + 1] == self.code[offset + 1]);
                self.lemma_write_return(line, offset + 2);
            } else {
                self.lemma_write_return(line, offset + 1);
            }
        }
    }

    /// An instruction without operand, written at the end, keeps the code
    /// a sequence of whole instructions.
    pub proof fn lemma_write_instruction(self, op: OpCode, line: usize, offset: int)
        requires
            0 <= offset <= self.code.len(),
            self.decodes_from(offset),
            !op.has_operand(),
        ensures
            self.write(op.byte(), line).decodes_from(offset),
        decreases self.code.len() - offset,
    {
        let written = self.write(op.byte(), line);
        op.lemma_decode_byte();
        if offset == self.code.len() {
            assert(written.decodes_from(offset + 1));
        } else {
            assert(written.code[offset] == self.code[offset]);
            let here = OpCode::decode(self.code[offset])->0;
            if here.has_operand() {
                assert(written.code[offset + 1] == self.code[offset + 1]);
                self.lemma_write_instruction(op, line, offset + 2);
            } else {
                self.lemma_write_instruction(op, line, offset + 1);
            }
        }
    }

    /// An instruction and its operand, the index of a constant that the
    /// pool holds, written at the end, keep the code a sequence of whole
    /// instructions.
    pub proof fn lemma_write_with_operand(
        self,
        op: OpCode,
        operand: u8,
        line: usize,
        second_line: usize,
        offset: int,
    )
        requires
            0 <= offset <= self.code.len(),
            self.decodes_from(offset),
            op.has_operand(),
            operand < self.constants.len(),
        ensures
            self.write(op.byte(), line).write(operand, second_line).decodes_from(offset),
        decreases self.code.len() - offset,
    {
        let written = self.write(op.byte(), line).write(operand, second_line);
        op.lemma_decode_byte();
        if offset == self.code.len() {
            assert(written.code[offset] == op.byte());
            assert(written.code[offset + 1] == operand);
            assert(written.decodes_from(offset + 2));
        } else {
            assert(written.code[offset] == self.code[offset]);
            let here = OpCode::decode(self.code[offset])->0;
            if here.has_operand() {
                assert(written.code[offset + 1] == self.code[offset + 1]);
                self.lemma_write_with_operand(op, operand, line, second_line, offset + 2);
            } else {
                self.lemma_write_with_operand(op, operand, line, second_line, offset + 1);
            }
        }
    }

    /// A constant added to the pool leaves every operand in range.
    pub proof fn lemma_add_constant_decodes(self, value: ValueView, offset: int)
        requires
            0 <= offset <= self.code.len(),
            self.decodes_from(offset),
        ensures
            self.add_constant(value).decodes_from(offset),
        decreases self.code.len() - offset,
    {
        if offset < self.code.len() {
            let here = OpCode::decode(self.code[offset])->0;
            if here.has_operand() {
                self.lemma_add_constant_decodes(value, offset + 2);
            } else {
                self.lemma_add_constant_decodes(value, offset + 1);
            }
        }
    }

    /// The chunk with one more byte, attributed to `line`.
    pub open spec fn write(self, byte: u8, line: usize) -> ChunkView {
        ChunkView { code: self.code.push(byte), lines: self.lines.push(line), ..self }
    }

    /// Whether the pool can take one more constant.
    pub open spec fn has_room(self) -> bool {
        self.constants.len() < MAX_CONSTANTS
    }

    /// The chunk after an attempt to add `value` to the pool: a full pool
    /// stays as it is.
    pub open spec fn add_constant(self, value: ValueView) -> ChunkView {
        if self.has_room() {
            ChunkView { constants: self.constants.push(value), ..self }
        } else {
            self
        }
    }

    /// The operand of the instruction at `offset`: the byte after it, where
    /// the instruction takes one and the byte is there.
    pub open spec fn operand_at(self, offset: int) -> Option<u8> {
        match OpCode::decode(self.code[offset]) {
            Some(op) => if op.has_operand() && offset + 1 < self.code.len() {
                Some(self.code[offset + 1])
            } else {
                None
            },
            None => None,
        }
    }

    /// The offset of the instruction that follows the one at `offset`.
    pub open spec fn next_offset(self, offset: int) -> int {
        if self.operand_at(offset) is Some {
            offset + 2
        } else {
            offset + 1
        }
    }

    /// The disassembly row of the instruction at `offset`, after the
    /// instruction at `previous`, if one comes before it.
    pub open spec fn instruction_at(self, offset: int, previous: Option<int>) -> InstructionView {
        let operand = self.operand_at(offset);
        InstructionView {
            offset: offset as usize,
            line: match previous {
                Some(before) if self.lines[offset] == self.lines[before] => None,
                _ => Some(self.lines[offset]),
            },
            byte: self.code[offset],
            opcode: OpCode::decode(self.code[offset]),
            operand,
            constant: match operand {
                Some(index) => if index < self.constants.len() {
                    Some(self.constants[index as int])
                } else {
                    None
                },
                None => None,
            },
        }
    }

    /// The disassembly rows of the instructions from `offset` to the end,
    /// after the instruction at `previous`, if one comes before them.
    pub open spec fn disassembly_from(self, offset: int, previous: Option<int>) -> Seq<
        InstructionView,
    >
        decreases self.code.len() - offset,
    {
        if 0 <= offset < self.code.len() {
            seq![self.instruction_at(offset, previous)] + self.disassembly_from(
                self.next_offset(offset),
                Some(offset),
            )
        } else {
            Seq::empty()
        }
    }
}

/// One row of a disassembly.
#[derive(Debug, PartialEq)]
pub struct Instruction {
    /// Where the instruction starts.
    pub offset: usize,
    /// The source line, or `None` where it is that of the instruction
    /// before.
    pub line: Option<usize>,
    /// The instruction's first byte.
    pub byte: u8,
    /// The instruction, or `None` where the byte encodes none.
    pub opcode: Option<OpCode>,
    /// The operand byte, where the instruction has one.
    pub operand: Option<u8>,
    /// The constant the operand refers to, where the pool holds it.
    pub constant: Option<Value>,
}

/// The mathematical content of an [`Instruction`].
pub struct InstructionView {
    pub offset: usize,
    pub line: Option<usize>,
    pub byte: u8,
    pub opcode: Option<OpCode>,
    pub operand: Option<u8>,
    pub constant: Option<ValueView>,
}

impl View for Instruction {
    type V = InstructionView;

    open spec fn view(&self) -> InstructionView {
        InstructionView {
            offset: self.offset,
            line: self.line,
            byte: self.byte,
            opcode: self.opcode,
            operand: self.operand,
            constant: match self.constant {
                Some(value) => Some(value@),
                None => None,
            },
        }
    }
}

/// The views of a sequence of rows, item by item.
pub open spec fn instruction_views(rows: Seq<Instruction>) -> Seq<InstructionView> {
    rows.map_values(|row: Instruction| row@)
}

impl Chunk {
    /// An empty chunk.
    pub fn new() -> (chunk: Self)
        ensures
            chunk@ == ChunkView::empty(),
    {
        Chunk { code: Vec::new(), lines: Vec::new(), constants: ValueArray::new() }
    }

    /// Appends `byte`, attributed to source line `line`.
    pub fn write(&mut self, byte: u8, line: usize)
        ensures
            final(self)@ == old(self)@.write(byte, line),
    {
        self.code.push(byte);
        self.lines.push(line);
    }

    /// The byte at `offset`.
    pub fn read(&self, offset: usize) -> (byte: u8)
        requires
            offset < self@.code.len(),
        ensures
            byte == self@.code[offset as int],
    {
        self.code[offset]
    }

    /// Appends the byte of `opcode`, attributed to source line `line`.
    pub fn write_opcode(&mut self, opcode: OpCode, line: usize)
        ensures
            final(self)@ == old(self)@.write(opcode.byte(), line),
    {
        self.write(opcode.into(), line);
    }

    /// Empties the chunk.
    pub fn free(&mut self)
        ensures
            final(self)@ == ChunkView::empty(),
    {
        self.code = Vec::new();
        self.lines = Vec::new();
        self.constants.free();
    }

    /// Adds `value` to the pool and returns its index, or returns `None`,
    /// with the pool unchanged, where the pool is full.
    pub fn add_constant(&mut self, value: Value) -> (index: Option<u8>)
        ensures
            final(self)@ == old(self)@.add_constant(value@),
            old(self)@.has_room() ==> index == Some(old(self)@.constants.len() as u8),
            !old(self)@.has_room() ==> index is None,
    {
        let count = self.constants.len();
        if count < MAX_CONSTANTS {
            self.constants.write(value);
            Some(count as u8)
        } else {
            None
        }
    }

    /// A copy of the constant at `index`.
    pub fn get_constant(&self, index: u8) -> (value: Value)
        requires
            index < self@.constants.len(),
        ensures
            value@ == self@.constants[index as int],
    {
        self.constants.get(index as usize)
    }

    /// The rows of the whole chunk's disassembly, in order.
    pub fn disassemble(&self) -> (rows: Vec<Instruction>)
        requires
            self@.lines.len() == self@.code.len(),
        ensures
            instruction_views(rows@) == self@.disassembly_from(0, None),
    {
        let mut rows: Vec<Instruction> = Vec::new();
        let mut offset: usize = 0;
        let mut previous: Option<usize> = None;
        while offset < self.code.len()
            invariant
                self@.lines.len() == self@.code.len(),
                instruction_views(rows@) + self@.disassembly_from(
                    offset as int,
                    previous_view(previous),
                ) == self@.disassembly_from(0, None),
                offset <= self.code.len() + 1,
                previous matches Some(before) ==> before < offset,
            decreases self.code.len() + 1 - offset,
        {
            let (row, next) = self.disassemble_instruction(offset, previous);
            proof {
                let before = instruction_views(rows@);
                let after = instruction_views(rows@.push(row));
                let rest = self@.disassembly_from(next as int, Some(offset as int));
                assert(after =~= before.push(row@));
                assert(before.push(row@) + rest =~= before + (seq![row@] + rest));
            }
            rows.push(row);
            previous = Some(offset);
            offset = next;
        }
        assert(self@.disassembly_from(offset as int, previous_view(previous)) =~= Seq::empty());
        assert(instruction_views(rows@) + Seq::empty() =~= instruction_views(rows@));
        rows
    }

    /// The disassembly row of the instruction at `offset`, and the offset of
    /// the instruction after it. `previous` is the offset of the
    /// instruction before it, if there is one.
    pub fn disassemble_instruction(&self, offset: usize, previous: Option<usize>) -> (result: (
        Instruction,
        usize,
    ))
        requires
            offset < self@.code.len(),
            self@.lines.len() == self@.code.len(),
            previous matches Some(before) ==> before < offset,
        ensures
            result.0@ == self@.instruction_at(offset as int, previous_view(previous)),
            result.1 == self@.next_offset(offset as int),
    {
        let line = match previous {
            Some(before) if self.lines[offset] == self.lines[before] => None,
            _ => Some(self.lines[offset]),
        };
        let byte = self.code[offset];
        let opcode = OpCode::from_byte(byte);
        let takes_operand = match opcode {
            Some(op) => op.takes_operand(),
            None => false,
        };
        if takes_operand {
            self.constant_instruction(offset, line, byte, opcode)
        } else {
            self.simple_instruction(offset, line, byte, opcode)
        }
    }

    /// The row of an instruction without operand.
    fn simple_instruction(
        &self,
        offset: usize,
        line: Option<usize>,
        byte: u8,
        opcode: Option<OpCode>,
    ) -> (result: (Instruction, usize))
        requires
            offset < self@.code.len(),
            byte == self@.code[offset as int],
            opcode == OpCode::decode(byte),
            opcode matches Some(op) ==> !op.has_operand(),
        ensures
            result.0@ == (InstructionView { line, ..self@.instruction_at(offset as int, None) }),
            result.1 == self@.next_offset(offset as int),
    {
        assert(self.code@.len() == self.code.len());
        (Instruction { offset, line, byte, opcode, operand: None, constant: None }, offset + 1)
    }

    /// The row of an instruction whose operand names a constant.
    fn constant_instruction(
        &self,
        offset: usize,
        line: Option<usize>,
        byte: u8,
        opcode: Option<OpCode>,
    ) -> (result: (Instruction, usize))
        requires
            offset < self@.code.len(),
            byte == self@.code[offset as int],
            opcode == OpCode::decode(byte),
            opcode matches Some(op) && op.has_operand(),
        ensures
            result.0@ == (InstructionView { line, ..self@.instruction_at(offset as int, None) }),
            result.1 == self@.next_offset(offset as int),
    {
        let len = self.code.len();
        if offset + 1 < len {
            let index = self.code[offset + 1];
            let constant = if (index as usize) < self.constants.len() {
                Some(self.get_constant(index))
            } else {
                None
            };
            (
                Instruction { offset, line, byte, opcode, operand: Some(index), constant },
                offset + 2,
            )
        } else {
            (Instruction { offset, line, byte, opcode, operand: None, constant: None }, offset + 1)
        }
    }
}

/// The offset of the instruction before, as the spec functions take it.
pub open spec fn previous_view(previous: Option<usize>) -> Option<int> {
    match previous {
        Some(before) => Some(before as int),
        None => None,
    }
}

} // verus!
