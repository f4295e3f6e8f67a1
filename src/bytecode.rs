use vstd::prelude::*;
use vstd::string::StringExecFns;
use crate::text::{decimal, push_decimal};

verus! {

/// The instructions of the stack machine. Each is one header byte, its
/// position in this list, followed by its inline operand if it has one.
#[derive(Debug, PartialEq, Eq, Structural, Copy, Clone)]
pub enum Inst {
    LocalSet,
    LocalCopy,
    PushU64,
    Pop,
    Ret,
    Goto,
    GotoIf,
    GotoIfNot,
    AddU64,
    SubU64,
    LtU64,
    GtU64,
    PeekU64,
    PeekBool,
}

/// The header byte of each instruction.
pub open spec fn opcode(i: Inst) -> u8 {
    match i {
        Inst::LocalSet => 0,
        Inst::LocalCopy => 1,
        Inst::PushU64 => 2,
        Inst::Pop => 3,
        Inst::Ret => 4,
        Inst::Goto => 5,
        Inst::GotoIf => 6,
        Inst::GotoIfNot => 7,
        Inst::AddU64 => 8,
        Inst::SubU64 => 9,
        Inst::LtU64 => 10,
        Inst::GtU64 => 11,
        Inst::PeekU64 => 12,
        Inst::PeekBool => 13,
    }
}

/// The instruction a header byte stands for, if any.
pub open spec fn inst_of(b: u8) -> Option<Inst> {
    if b == 0 {
        Some(Inst::LocalSet)
    } else if b == 1 {
        Some(Inst::LocalCopy)
    } else if b == 2 {
        Some(Inst::PushU64)
    } else if b == 3 {
        Some(Inst::Pop)
    } else if b == 4 {
        Some(Inst::Ret)
    } else if b == 5 {
        Some(Inst::Goto)
    } else if b == 6 {
        Some(Inst::GotoIf)
    } else if b == 7 {
        Some(Inst::GotoIfNot)
    } else if b == 8 {
        Some(Inst::AddU64)
    } else if b == 9 {
        Some(Inst::SubU64)
    } else if b == 10 {
        Some(Inst::LtU64)
    } else if b == 11 {
        Some(Inst::GtU64)
    } else if b == 12 {
        Some(Inst::PeekU64)
    } else if b == 13 {
        Some(Inst::PeekBool)
    } else {
        None
    }
}

/// Bytes of inline operand after the header: a `u32` slot or address, a
/// `u64` value, or nothing.
pub open spec fn operand_len(i: Inst) -> int {
    match i {
        Inst::LocalSet | Inst::LocalCopy | Inst::Goto | Inst::GotoIf | Inst::GotoIfNot => 4,
        Inst::PushU64 => 8,
        _ => 0,
    }
}

/// Header and operand together.
pub open spec fn inst_len(i: Inst) -> int {
    1 + operand_len(i)
}

impl Inst {
    /// The instruction a header byte stands for; `None` for an unknown byte.
    pub fn from_discriminant(b: u8) -> (r: Option<Inst>)
        ensures
            r == inst_of(b),
    {
        match b {
            0 => Some(Inst::LocalSet),
            1 => Some(Inst::LocalCopy),
            2 => Some(Inst::PushU64),
            3 => Some(Inst::Pop),
            4 => Some(Inst::Ret),
            5 => Some(Inst::Goto),
            6 => Some(Inst::GotoIf),
            7 => Some(Inst::GotoIfNot),
            8 => Some(Inst::AddU64),
            9 => Some(Inst::SubU64),
            10 => Some(Inst::LtU64),
            11 => Some(Inst::GtU64),
            12 => Some(Inst::PeekU64),
            13 => Some(Inst::PeekBool),
            _ => None,
        }
    }

    /// The header byte of the instruction.
    pub fn discriminant(&self) -> (r: u8)
        ensures
            r == opcode(*self),
            inst_of(r) == Some(*self),
    {
        match self {
            Inst::LocalSet => 0,
            Inst::LocalCopy => 1,
            Inst::PushU64 => 2,
            Inst::Pop => 3,
            Inst::Ret => 4,
            Inst::Goto => 5,
            Inst::GotoIf => 6,
            Inst::GotoIfNot => 7,
            Inst::AddU64 => 8,
            Inst::SubU64 => 9,
            Inst::LtU64 => 10,
            Inst::GtU64 => 11,
            Inst::PeekU64 => 12,
            Inst::PeekBool => 13,
        }
    }
}

/// Every header byte names the instruction it is the header of.
pub proof fn lemma_opcode_round_trip(i: Inst)
    ensures
        inst_of(opcode(i)) == Some(i),
{
}

/// A growable buffer of bytecode with a read position.
pub struct ByteStream {
    bytes: Vec<u8>,
    index: usize,
}

impl ByteStream {
    /// The bytes held.
    pub closed spec fn bytes(&self) -> Seq<u8> {
        self.bytes@
    }

    /// The read position.
    pub closed spec fn pos(&self) -> int {
        self.index as int
    }

    pub fn new() -> (r: ByteStream)
        ensures
            r.bytes().len() == 0,
            r.pos() == 0,
    {
        ByteStream { bytes: Vec::new(), index: 0 }
    }

    pub fn new_with_bytes(bytes: Vec<u8>) -> (r: ByteStream)
        ensures
            r.bytes() == bytes@,
            r.pos() == 0,
    {
        ByteStream { bytes, index: 0 }
    }

    /// Appends a byte.
    pub fn push(&mut self, byte: u8)
        ensures
            final(self).bytes() == old(self).bytes().push(byte),
            final(self).pos() == old(self).pos(),
    {
        self.bytes.push(byte);
    }

    /// The byte at the read position, which moves past it; `None` at the end.
    pub fn read_byte(&mut self) -> (r: Option<u8>)
        ensures
            final(self).bytes() == old(self).bytes(),
            0 <= old(self).pos() < old(self).bytes().len() ==> r == Some(
                old(self).bytes()[old(self).pos()],
            ) && final(self).pos() == old(self).pos() + 1,
            !(0 <= old(self).pos() < old(self).bytes().len()) ==> r is None && final(self).pos()
                == old(self).pos(),
    {
        if self.index >= self.bytes.len() {
            return None;
        }
        let byte = self.bytes[self.index];
        self.index = self.index + 1;
        Some(byte)
    }

    /// Copies the `N` bytes from the read position into `buf` and moves past
    /// them; returns false, changing nothing, when fewer remain.
    pub fn read_into_const<const N: usize>(&mut self, buf: &mut [u8; N]) -> (r: bool)
        ensures
            final(self).bytes() == old(self).bytes(),
            r == (old(self).pos() + N <= old(self).bytes().len()),
            r ==> final(buf)@ == old(self).bytes().subrange(old(self).pos(), old(self).pos() + N)
                && final(self).pos() == old(self).pos() + N,
            !r ==> *final(buf) == *old(buf) && final(self).pos() == old(self).pos(),
    {
        let len = self.bytes.len();
        if self.index > len || N > len - self.index {
            return false;
        }
        let mut i: usize = 0;
        while i < N
            invariant
                len == self.bytes@.len(),
                self.index + N <= len,
                self.bytes == old(self).bytes,
                self.index == old(self).index,
                0 <= i <= N,
                buf@.len() == N,
                forall|j: int| 0 <= j < i ==> buf@[j] == self.bytes@[self.index + j],
            decreases N - i,
        {
            buf[i] = self.bytes[self.index + i];
            i = i + 1;
        }
        assert(buf@ =~= self.bytes@.subrange(self.index as int, self.index + N));
        self.index = self.index + N;
        true
    }

    /// The byte at the read position, which stays; `None` at the end.
    pub fn peek_byte(&self) -> (r: Option<u8>)
        ensures
            r == (if 0 <= self.pos() < self.bytes().len() {
                Some(self.bytes()[self.pos()])
            } else {
                None
            }),
    {
        if self.index >= self.bytes.len() {
            return None;
        }
        Some(self.bytes[self.index])
    }

    /// Points `buf` at the `buf.len()` bytes from the read position, which
    /// stays; returns false and leaves `buf` alone when fewer remain.
    pub fn peek_into<'a>(&'a self, buf: &mut &'a [u8]) -> (r: bool)
        ensures
            r == (old(buf)@.len() <= self.bytes().len() - self.pos()),
            r ==> final(buf)@ == self.bytes().subrange(self.pos(), self.pos() + old(buf)@.len()),
            !r ==> *final(buf) == *old(buf),
    {
        let n = buf.len();
        if self.index > self.bytes.len() || n > self.bytes.len() - self.index {
            return false;
        }
        *buf = vstd::slice::slice_subrange(self.bytes.as_slice(), self.index, self.index + n);
        true
    }

    /// Number of bytes held.
    pub fn len(&self) -> (r: usize)
        ensures
            r == self.bytes().len(),
    {
        self.bytes.len()
    }

    /// The byte at `index`, if there is one.
    pub fn get(&self, index: usize) -> (r: Option<u8>)
        ensures
            r == (if index < self.bytes().len() {
                Some(self.bytes()[index as int])
            } else {
                None
            }),
    {
        if index < self.bytes.len() {
            Some(self.bytes[index])
        } else {
            None
        }
    }

    /// The byte at `index`, which must be held.
    pub fn at(&self, index: usize) -> (r: u8)
        requires
            index < self.bytes().len(),
        ensures
            r == self.bytes()[index as int],
    {
        self.bytes[index]
    }

    /// Moves the read position to `index`.
    pub fn jump_unchecked(&mut self, index: usize)
        ensures
            final(self).bytes() == old(self).bytes(),
            final(self).pos() == index,
    {
        self.index = index;
    }

    /// The read position.
    pub fn index(&self) -> (r: usize)
        ensures
            r == self.pos(),
    {
        self.index
    }
}

/// An empty byte stream.
pub fn bytestream() -> (r: ByteStream)
    ensures
        r.bytes().len() == 0,
        r.pos() == 0,
{
    ByteStream::new()
}

/// A byte stream over `bytes`.
pub fn bytestream_with(bytes: Vec<u8>) -> (r: ByteStream)
    ensures
        r.bytes() == bytes@,
        r.pos() == 0,
{
    ByteStream::new_with_bytes(bytes)
}

/// The little-endian `u32` in the four bytes of `s` from `i`.
pub open spec fn le_u32(s: Seq<u8>, i: int) -> int {
    s[i] + 256 * s[i + 1] + 65536 * s[i + 2] + 16777216 * s[i + 3]
}

/// The little-endian `u64` in the eight bytes of `s` from `i`.
pub open spec fn le_u64(s: Seq<u8>, i: int) -> int {
    le_u32(s, i) + 4294967296 * le_u32(s, i + 4)
}

/// The name of each instruction in a listing. Both conditional jumps are
/// listed as `gotoif`.
pub open spec fn mnemonic(i: Inst) -> Seq<char> {
    match i {
        Inst::LocalSet => "localset"@,
        Inst::LocalCopy => "localcopy"@,
        Inst::PushU64 => "pushu64"@,
        Inst::Pop => "pop"@,
        Inst::Ret => "ret"@,
        Inst::Goto => "goto"@,
        Inst::GotoIf => "gotoif"@,
        Inst::GotoIfNot => "gotoif"@,
        Inst::AddU64 => "addu64"@,
        Inst::SubU64 => "subu64"@,
        Inst::LtU64 => "ltu64"@,
        Inst::GtU64 => "gtu64"@,
        Inst::PeekU64 => "peeku64"@,
        Inst::PeekBool => "peekbool"@,
    }
}

/// A whole instruction starts at `i`: a known header and all its operand.
pub open spec fn decodable(s: Seq<u8>, i: int) -> bool {
    &&& 0 <= i < s.len()
    &&& inst_of(s[i]) is Some
    &&& i + inst_len(inst_of(s[i])->Some_0) <= s.len()
}

/// The inline operand of the instruction at `i`.
pub open spec fn operand(s: Seq<u8>, i: int) -> int {
    if operand_len(inst_of(s[i])->Some_0) == 8 {
        le_u64(s, i + 1)
    } else {
        le_u32(s, i + 1)
    }
}

/// The listing line of the instruction at `i`: its offset, `|`, its name
/// and its operand, if any.
pub open spec fn line(s: Seq<u8>, i: int) -> Seq<char> {
    let inst = inst_of(s[i])->Some_0;
    let head = decimal(i as nat) + " | "@ + mnemonic(inst);
    if operand_len(inst) > 0 {
        head + " "@ + decimal(operand(s, i) as nat)
    } else {
        head
    }
}

/// From `i` on, `s` is a sequence of whole instructions.
pub open spec fn well_formed_from(s: Seq<u8>, i: int) -> bool
    decreases s.len() - i,
{
    if i >= s.len() {
        i == s.len()
    } else if decodable(s, i) {
        well_formed_from(s, i + inst_len(inst_of(s[i])->Some_0))
    } else {
        false
    }
}

/// The listing of the instructions from `i` on, one line each.
pub open spec fn listing(s: Seq<u8>, i: int) -> Seq<char>
    decreases s.len() - i,
{
    if 0 <= i < s.len() && decodable(s, i) {
        line(s, i) + "\n"@ + listing(s, i + inst_len(inst_of(s[i])->Some_0))
    } else {
        Seq::empty()
    }
}

fn mnemonic_str(i: Inst) -> (r: &'static str)
    ensures
        r@ == mnemonic(i),
{
    match i {
        Inst::LocalSet => "localset",
        Inst::LocalCopy => "localcopy",
        Inst::PushU64 => "pushu64",
        Inst::Pop => "pop",
        Inst::Ret => "ret",
        Inst::Goto => "goto",
        Inst::GotoIf => "gotoif",
        Inst::GotoIfNot => "gotoif",
        Inst::AddU64 => "addu64",
        Inst::SubU64 => "subu64",
        Inst::LtU64 => "ltu64",
        Inst::GtU64 => "gtu64",
        Inst::PeekU64 => "peeku64",
        Inst::PeekBool => "peekbool",
    }
}

/// The little-endian `u32` at `start`, and the offset after it.
pub fn get_u32(bytes: &ByteStream, start: usize) -> (r: (u32, usize))
    requires
        start + 4 <= bytes.bytes().len(),
    ensures
        r.0 == le_u32(bytes.bytes(), start as int),
        r.1 == start + 4,
{
    // the length is a usize, so the offsets below do not overflow
    let _len = bytes.len();
    let b0 = bytes.at(start) as u32;
    let b1 = bytes.at(start + 1) as u32;
    let b2 = bytes.at(start + 2) as u32;
    let b3 = bytes.at(start + 3) as u32;
    (b0 + 256 * b1 + 65536 * b2 + 16777216 * b3, start + 4)
}

/// The little-endian `u64` at `start`, and the offset after it.
pub fn get_u64(bytes: &ByteStream, start: usize) -> (r: (u64, usize))
    requires
        start + 8 <= bytes.bytes().len(),
    ensures
        r.0 == le_u64(bytes.bytes(), start as int),
        r.1 == start + 8,
{
    let (lo, _) = get_u32(bytes, start);
    let (hi, _) = get_u32(bytes, start + 4);
    (lo as u64 + 4294967296 * (hi as u64), start + 8)
}

/// Appends the listing line of the instruction at `start` to `buffer` and
/// returns the offset of the next instruction.
pub fn disassemble_one(bytes: &ByteStream, start: usize, buffer: &mut String) -> (r: usize)
    requires
        decodable(bytes.bytes(), start as int),
    ensures
        final(buffer)@ == old(buffer)@ + line(bytes.bytes(), start as int),
        r == start + inst_len(inst_of(bytes.bytes()[start as int])->Some_0),
{
    // the length is a usize, so the offsets below do not overflow
    let _len = bytes.len();
    let header = bytes.at(start);
    let inst = match Inst::from_discriminant(header) {
        Some(inst) => inst,
        None => {
            return start;
        },
    };
    push_decimal(buffer, start as u64);
    buffer.append(" | ");
    buffer.append(mnemonic_str(inst));
    match inst {
        Inst::PushU64 => {
            let (val, index) = get_u64(bytes, start + 1);
            buffer.append(" ");
            push_decimal(buffer, val);
            index
        },
        Inst::LocalSet | Inst::LocalCopy | Inst::Goto | Inst::GotoIf | Inst::GotoIfNot => {
            let (val, index) = get_u32(bytes, start + 1);
            buffer.append(" ");
            push_decimal(buffer, val as u64);
            index
        },
        _ => start + 1,
    }
}

/// Whether the bytes are a sequence of whole instructions.
pub fn well_formed(bytes: &ByteStream) -> (r: bool)
    ensures
        r == well_formed_from(bytes.bytes(), 0),
{
    let len = bytes.len();
    let mut i: usize = 0;
    while i < len
        invariant
            len == bytes.bytes().len(),
            i <= len,
            well_formed_from(bytes.bytes(), 0) == well_formed_from(bytes.bytes(), i as int),
        decreases len - i,
    {
        let inst = match Inst::from_discriminant(bytes.at(i)) {
            Some(inst) => inst,
            None => {
                return false;
            },
        };
        let n: usize = match inst {
            Inst::PushU64 => 9,
            Inst::LocalSet | Inst::LocalCopy | Inst::Goto | Inst::GotoIf | Inst::GotoIfNot => 5,
            _ => 1,
        };
        if n > len - i {
            return false;
        }
        i = i + n;
    }
    true
}

/// The listing of a whole program, one line per instruction.
pub fn disassemble(bytes: &ByteStream) -> (r: String)
    requires
        well_formed_from(bytes.bytes(), 0),
    ensures
        r@ == listing(bytes.bytes(), 0),
{
    let mut buf = String::new();
    let mut index: usize = 0;
    while index < bytes.len()
        invariant
            well_formed_from(bytes.bytes(), index as int),
            buf@ + listing(bytes.bytes(), index as int) == listing(bytes.bytes(), 0),
        decreases bytes.bytes().len() - index,
    {
        let ghost before = buf@;
        let next = disassemble_one(bytes, index, &mut buf);
        buf.append("\n");
        proof {
            assert(buf@ + listing(bytes.bytes(), next as int) =~= before + listing(
                bytes.bytes(),
                index as int,
            ));
        }
        index = next;
    }
    buf
}

} // verus!
