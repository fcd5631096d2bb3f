//! Bytecode: instructions, the constant pool, and the chunk that holds both
//! beside the line of each instruction.

use vstd::prelude::*;
use crate::value::{Value, ValueView};

verus! {

/// An instruction of the stack machine. `Constant` carries the index of its
/// value in the constant pool; every other instruction stands alone.
#[derive(Clone, Copy, Debug, PartialEq, Eq, Structural)]
pub enum OpCode {
    Return,
    Constant(u8),
    Neg,
    Not,
    Add,
    Sub,
    Mul,
    Div,
    Greater,
    Less,
    Equal,
    True,
    False,
    Nil,
}

impl OpCode {
    /// The number of the instruction in a listing.
    pub open spec fn tag_spec(self) -> u32 {
        match self {
            OpCode::Return => 0,
            OpCode::Constant(_) => 1,
            OpCode::Neg => 2,
            OpCode::Not => 3,
            OpCode::Add => 4,
            OpCode::Sub => 5,
            OpCode::Mul => 6,
            OpCode::Div => 7,
            OpCode::Greater => 8,
            OpCode::Less => 9,
            OpCode::Equal => 10,
            OpCode::True => 11,
            OpCode::False => 12,
            OpCode::Nil => 13,
        }
    }

    /// The name of the instruction in a listing.
    pub open spec fn name_spec(self) -> Seq<char> {
        match self {
            OpCode::Return => "RETURN"@,
            OpCode::Constant(_) => "CONSTANT"@,
            OpCode::Neg => "NEG"@,
            OpCode::Not => "NOT"@,
            OpCode::Add => "ADD"@,
            OpCode::Sub => "SUB"@,
            OpCode::Mul => "MUL"@,
            OpCode::Div => "DIV"@,
            OpCode::Greater => "GREATER"@,
            OpCode::Less => "LESS"@,
            OpCode::Equal => "EQUAL"@,
            OpCode::True => "TRUE"@,
            OpCode::False => "FALSE"@,
            OpCode::Nil => "NIL"@,
        }
    }

    /// The number of the instruction in a listing.
    pub fn for_int_print(&self) -> (r: u32)
        ensures
            r == self.tag_spec(),
    {
        match self {
            OpCode::Return => 0,
            OpCode::Constant(_) => 1,
            OpCode::Neg => 2,
            OpCode::Not => 3,
            OpCode::Add => 4,
            OpCode::Sub => 5,
            OpCode::Mul => 6,
            OpCode::Div => 7,
            OpCode::Greater => 8,
            OpCode::Less => 9,
            OpCode::Equal => 10,
            OpCode::True => 11,
            OpCode::False => 12,
            OpCode::Nil => 13,
        }
    }

    /// The name of the instruction in a listing.
    pub fn name(&self) -> (r: &'static str)
        ensures
            r@ == self.name_spec(),
    {
        match self {
            OpCode::Return => "RETURN",
            OpCode::Constant(_) => "CONSTANT",
            OpCode::Neg => "NEG",
            OpCode::Not => "NOT",
            OpCode::Add => "ADD",
            OpCode::Sub => "SUB",
            OpCode::Mul => "MUL",
            OpCode::Div => "DIV",
            OpCode::Greater => "GREATER",
            OpCode::Less => "LESS",
            OpCode::Equal => "EQUAL",
            OpCode::True => "TRUE",
            OpCode::False => "FALSE",
            OpCode::Nil => "NIL",
        }
    }
}

/// The number of constants that one chunk can hold: an index is one byte.
pub const MAX_CONSTANTS: usize = 256;

/// Why a chunk could not be written to.
#[derive(Clone, Copy, Debug, PartialEq, Eq, Structural)]
pub enum ChunkError {
    /// The constant pool already holds `MAX_CONSTANTS` values.
    TooManyConstants,
}

impl ChunkError {
    /// What went wrong, in words.
    pub fn message(&self) -> (r: &'static str)
        ensures
            r@ == "too many constants in one chunk"@,
    {
        "too many constants in one chunk"
    }
}

/// The values that `Constant` instructions refer to by index. Values are only
/// ever added, so an index stays valid.
pub struct ConstantPool {
    constants: Vec<Value>,
}

impl View for ConstantPool {
    type V = Seq<ValueView>;

    closed spec fn view(&self) -> Seq<ValueView> {
        Seq::new(self.constants@.len(), |i: int| self.constants@[i]@)
    }
}

impl ConstantPool {
    /// The pool holds no more values than a byte can index.
    pub open spec fn well_formed(&self) -> bool {
        self@.len() <= MAX_CONSTANTS
    }

    pub fn new() -> (r: Self)
        ensures
            r@ == Seq::<ValueView>::empty(),
            r.well_formed(),
    {
        let r = Self { constants: Vec::new() };
        assert(r@ =~= Seq::<ValueView>::empty());
        r
    }

    /// Adds a value and returns its index, or refuses when the pool is full
    /// and leaves it as it was.
    pub fn add_constant(&mut self, val: Value) -> (r: Result<u8, ChunkError>)
        requires
            old(self).well_formed(),
        ensures
            final(self).well_formed(),
            old(self)@.len() < MAX_CONSTANTS ==> r == Ok::<u8, ChunkError>(old(self)@.len() as u8)
                && final(self)@ == old(self)@.push(val@),
            old(self)@.len() >= MAX_CONSTANTS ==> r == Err::<u8, ChunkError>(
                ChunkError::TooManyConstants,
            ) && final(self)@ == old(self)@,
    {
        let n = self.constants.len();
        if n >= MAX_CONSTANTS {
            return Err(ChunkError::TooManyConstants);
        }
        self.constants.push(val);
        assert(self@ =~= old(self)@.push(val@));
        Ok(n as u8)
    }

    /// A copy of the value at `index`, if the pool holds one there.
    pub fn get_constant(&self, index: u8) -> (r: Option<Value>)
        ensures
            index < self@.len() ==> r is Some && r->0@ == self@[index as int],
            index >= self@.len() ==> r is None,
    {
        if (index as usize) < self.constants.len() {
            Some(self.constants[index as usize].duplicate())
        } else {
            None
        }
    }

    /// The number of values in the pool.
    pub fn len(&self) -> (r: usize)
        ensures
            r == self@.len(),
    {
        self.constants.len()
    }
}

/// A chunk as sequences: the instructions, the line of each, the constants.
pub struct ChunkView {
    pub code: Seq<OpCode>,
    pub lines: Seq<usize>,
    pub constants: Seq<ValueView>,
}

impl ChunkView {
    /// Every `Constant` instruction refers to a value that the pool holds.
    pub open spec fn constants_valid(self) -> bool {
        forall|i: int|
            0 <= i < self.code.len() ==> (#[trigger] self.code[i] matches OpCode::Constant(k) ==> k
                < self.constants.len())
    }
}

/// One line of a listing: the instruction's number and name, its line in the
/// source, and for a `Constant` the index and the value it refers to, where
/// the pool holds one.
pub struct Listing {
    pub tag: u32,
    pub name: &'static str,
    pub line: usize,
    pub constant: Option<(u8, Value)>,
}

/// A line of a listing with its texts as sequences of characters.
pub struct ListingView {
    pub tag: u32,
    pub name: Seq<char>,
    pub line: usize,
    pub constant: Option<(u8, ValueView)>,
}

impl View for Listing {
    type V = ListingView;

    open spec fn view(&self) -> ListingView {
        ListingView {
            tag: self.tag,
            name: self.name@,
            line: self.line,
            constant: match self.constant {
                Some((i, v)) => Some((i, v@)),
                None => None,
            },
        }
    }
}

/// The listing line of instruction `ins`, found on `line`, over `constants`.
pub open spec fn listing_of(constants: Seq<ValueView>, ins: OpCode, line: usize) -> ListingView {
    ListingView {
        tag: ins.tag_spec(),
        name: ins.name_spec(),
        line,
        constant: match ins {
            OpCode::Constant(k) => if k < constants.len() {
                Some((k, constants[k as int]))
            } else {
                None
            },
            _ => None,
        },
    }
}

/// Instructions, the line that each comes from, and a constant pool.
pub struct Chunk {
    chunks: Vec<OpCode>,
    constants: ConstantPool,
    lines: Vec<usize>,
}

impl View for Chunk {
    type V = ChunkView;

    closed spec fn view(&self) -> ChunkView {
        ChunkView { code: self.chunks@, lines: self.lines@, constants: self.constants@ }
    }
}

impl Chunk {
    /// There is one line for each instruction, and the pool is within its bound.
    pub open spec fn well_formed(&self) -> bool {
        &&& self@.code.len() == self@.lines.len()
        &&& self@.constants.len() <= MAX_CONSTANTS
    }

    pub fn new() -> (r: Self)
        ensures
            r.well_formed(),
            r@.code == Seq::<OpCode>::empty(),
            r@.lines == Seq::<usize>::empty(),
            r@.constants == Seq::<ValueView>::empty(),
    {
        Self { chunks: Vec::new(), constants: ConstantPool::new(), lines: Vec::new() }
    }

    /// The instruction at `pc`, if there is one.
    pub fn fetch(&self, pc: usize) -> (r: Option<OpCode>)
        ensures
            r == if pc < self@.code.len() {
                Some(self@.code[pc as int])
            } else {
                None
            },
    {
        if pc < self.chunks.len() {
            Some(self.chunks[pc])
        } else {
            None
        }
    }

    /// The constant at `index`, if the pool holds one there.
    pub fn get_constant(&self, index: usize) -> (r: Option<Value>)
        ensures
            index < self@.constants.len() ==> r is Some && r->0@ == self@.constants[index as int],
            index >= self@.constants.len() ==> r is None,
    {
        if index < 256 {
            self.constants.get_constant(index as u8)
        } else {
            proof {
                if index < self@.constants.len() {
                    assert(self.constants@.len() == self.constants.constants@.len());
                }
            }
            if index < self.constants.len() {
                Some(self.constants.constants[index].duplicate())
            } else {
                None
            }
        }
    }

    /// Appends an instruction and the line that it comes from.
    pub fn write_chunk(&mut self, code: OpCode, line: usize)
        requires
            old(self).well_formed(),
        ensures
            final(self).well_formed(),
            final(self)@.code == old(self)@.code.push(code),
            final(self)@.lines == old(self)@.lines.push(line),
            final(self)@.constants == old(self)@.constants,
    {
        self.chunks.push(code);
        self.lines.push(line);
    }

    /// Adds a constant to the pool and returns the index that a `Constant`
    /// instruction carries for it. A full pool refuses, and nothing changes.
    pub fn write_constant(&mut self, val: Value) -> (r: Result<u8, ChunkError>)
        requires
            old(self).well_formed(),
        ensures
            final(self).well_formed(),
            final(self)@.code == old(self)@.code,
            final(self)@.lines == old(self)@.lines,
            old(self)@.constants.len() < MAX_CONSTANTS ==> r == Ok::<u8, ChunkError>(
                old(self)@.constants.len() as u8,
            ) && final(self)@.constants == old(self)@.constants.push(val@),
            old(self)@.constants.len() >= MAX_CONSTANTS ==> r == Err::<u8, ChunkError>(
                ChunkError::TooManyConstants,
            ) && final(self)@.constants == old(self)@.constants,
    {
        self.constants.add_constant(val)
    }

    /// The listing of the whole chunk, one line for each instruction.
    pub fn disassembly(&self) -> (r: Vec<Listing>)
        requires
            self.well_formed(),
        ensures
            r@.len() == self@.code.len(),
            forall|i: int|
                0 <= i < r@.len() ==> (#[trigger] r@[i])@ == listing_of(
                    self@.constants,
                    self@.code[i],
                    self@.lines[i],
                ),
    {
        let mut out: Vec<Listing> = Vec::new();
        let mut i: usize = 0;
        while i < self.chunks.len()
            invariant
                self.well_formed(),
                i <= self.chunks.len(),
                out@.len() == i,
                forall|j: int|
                    0 <= j < i ==> (#[trigger] out@[j])@ == listing_of(
                        self@.constants,
                        self@.code[j],
                        self@.lines[j],
                    ),
            decreases self.chunks.len() - i,
        {
            let line = self.lines[i];
            let ins = self.chunks[i];
            out.push(self.disassembly_ins(&ins, line));
            i += 1;
        }
        out
    }

    /// The listing line of one instruction.
    pub fn disassembly_ins(&self, ins: &OpCode, line: usize) -> (r: Listing)
        ensures
            r@ == listing_of(self@.constants, *ins, line),
    {
        let constant = match ins {
            OpCode::Constant(k) => match self.constants.get_constant(*k) {
                Some(v) => Some((*k, v)),
                None => None,
            },
            _ => None,
        };
        Listing { tag: ins.for_int_print(), name: ins.name(), line, constant }
    }

    /// The line of the instruction at `index`, if there is one.
    pub fn get_line_nu(&self, index: usize) -> (r: Option<usize>)
        ensures
            r == if index < self@.lines.len() {
                Some(self@.lines[index as int])
            } else {
                None
            },
    {
        if index < self.lines.len() {
            Some(self.lines[index])
        } else {
            None
        }
    }

    /// The number of instructions.
    pub fn len(&self) -> (r: usize)
        ensures
            r == self@.code.len(),
    {
        self.chunks.len()
    }

    /// The instructions of a chunk can be counted in a `usize`.
    pub proof fn length_fits(&self)
        ensures
            self@.code.len() <= usize::MAX,
    {
        assert(self.chunks@.len() == self.chunks.len());
    }
}

/// A pool that holds `MAX_CONSTANTS` values takes no further one: the index
/// that it hands out is always the place of the value, never a wrapped one.
pub proof fn constant_index_is_exact(pool: Seq<ValueView>, val: ValueView, index: u8)
    requires
        pool.len() < MAX_CONSTANTS,
        index == pool.len() as u8,
    ensures
        index as int == pool.len(),
        pool.push(val)[index as int] == val,
{
}

} // verus!
