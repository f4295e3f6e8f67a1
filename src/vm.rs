use vstd::prelude::*;
use crate::bytecode::{ByteStream, Inst, inst_of, le_u32, le_u64, get_u32, get_u64};

verus! {

/// A value on the machine's stack.
#[derive(Debug, PartialEq, Eq, Structural, Copy, Clone)]
pub enum Item {
    U64(u64),
    U32(u32),
}

impl Item {
    pub fn from_u64(val: u64) -> (r: Item)
        ensures
            r == Item::U64(val),
    {
        Item::U64(val)
    }

    pub fn from_u32(val: u32) -> (r: Item)
        ensures
            r == Item::U32(val),
    {
        Item::U32(val)
    }

    /// The `u64` the item holds.
    pub fn u64(&self) -> (r: u64)
        requires
            self is U64,
        ensures
            r == self->U64_0,
    {
        match self {
            Item::U64(val) => *val,
            Item::U32(val) => *val as u64,
        }
    }

    /// The `u32` the item holds.
    pub fn u32(&self) -> (r: u32)
        requires
            self is U32,
        ensures
            r == self->U32_0,
    {
        match self {
            Item::U32(val) => *val,
            Item::U64(val) => *val as u32,
        }
    }
}

/// What one step of the machine did.
#[derive(Debug, PartialEq, Eq, Structural, Copy, Clone)]
pub enum Step {
    /// It executed an instruction with no visible effect.
    Continue,
    /// It executed `peeku64`, showing this value.
    Output(u64),
    /// The read position is past the end of the code: the program is done.
    Halt,
}

/// Why the machine could not execute the instruction at its read position.
#[derive(Debug, PartialEq, Eq, Structural, Copy, Clone)]
pub enum VmError {
    /// The header byte names no instruction.
    InvalidInstruction(u8),
    /// The code ends inside the instruction's operand.
    Truncated,
    /// The instruction needs more values than the stack holds.
    StackUnderflow,
    /// A stack value has the wrong type for the instruction.
    TypeMismatch,
    /// The machine does not execute this instruction.
    Unsupported(Inst),
}

/// A stack machine running a program of bytecode.
pub struct Vm {
    code: ByteStream,
    stack: Vec<Item>,
}

impl Vm {
    /// The program.
    pub closed spec fn code(&self) -> Seq<u8> {
        self.code.bytes()
    }

    /// The offset of the next instruction.
    pub closed spec fn pc(&self) -> int {
        self.code.pos()
    }

    /// The stack, bottom first.
    pub closed spec fn stack(&self) -> Seq<Item> {
        self.stack@
    }

    pub fn new(code: ByteStream) -> (r: Vm)
        ensures
            r.code() == code.bytes(),
            r.pc() == code.pos(),
            r.stack().len() == 0,
    {
        Vm { code, stack: Vec::new() }
    }

    /// Executes the instruction at the read position.
    ///
    /// `pushu64` pushes its operand; `pop` drops the top value, if any; `ret`
    /// pops an address and jumps there; `goto` jumps to its operand;
    /// `addu64` pops `b`, then `a`, and pushes `a + b` wrapping at 2^64;
    /// `peeku64` shows the top value without popping it. On an error the
    /// machine is left as it was.
    pub fn step(&mut self) -> (r: Result<Step, VmError>)
        ensures
            final(self).code() == old(self).code(),
            ({
                let code = old(self).code();
                let pc = old(self).pc();
                let st = old(self).stack();
                let n = st.len();
                if !(0 <= pc < code.len()) {
                    r == Ok::<Step, VmError>(Step::Halt) && final(self).pc() == pc
                        && final(self).stack() == st
                } else if inst_of(code[pc]) is None {
                    r == Err::<Step, VmError>(VmError::InvalidInstruction(code[pc]))
                } else {
                    match inst_of(code[pc])->Some_0 {
                        Inst::PushU64 => if pc + 9 <= code.len() {
                            &&& r == Ok::<Step, VmError>(Step::Continue)
                            &&& final(self).stack() == st.push(Item::U64(le_u64(code, pc + 1) as u64))
                            &&& final(self).pc() == pc + 9
                        } else {
                            r == Err::<Step, VmError>(VmError::Truncated)
                        },
                        Inst::Pop => {
                            &&& r == Ok::<Step, VmError>(Step::Continue)
                            &&& final(self).stack() == if n > 0 {
                                st.drop_last()
                            } else {
                                st
                            }
                            &&& final(self).pc() == pc + 1
                        },
                        Inst::Ret => if n == 0 {
                            r == Err::<Step, VmError>(VmError::StackUnderflow)
                        } else if !(st.last() is U32) {
                            r == Err::<Step, VmError>(VmError::TypeMismatch)
                        } else {
                            &&& r == Ok::<Step, VmError>(Step::Continue)
                            &&& final(self).stack() == st.drop_last()
                            &&& final(self).pc() == st.last()->U32_0
                        },
                        Inst::Goto => if pc + 5 <= code.len() {
                            &&& r == Ok::<Step, VmError>(Step::Continue)
                            &&& final(self).stack() == st
                            &&& final(self).pc() == le_u32(code, pc + 1)
                        } else {
                            r == Err::<Step, VmError>(VmError::Truncated)
                        },
                        Inst::AddU64 => if n < 2 {
                            r == Err::<Step, VmError>(VmError::StackUnderflow)
                        } else if !(st[n - 1] is U64 && st[n - 2] is U64) {
                            r == Err::<Step, VmError>(VmError::TypeMismatch)
                        } else {
                            &&& r == Ok::<Step, VmError>(Step::Continue)
                            &&& final(self).stack() == st.subrange(0, n - 2).push(
                                Item::U64(((st[n - 2]->U64_0 + st[n - 1]->U64_0) % 0x1_0000_0000_0000_0000) as u64),
                            )
                            &&& final(self).pc() == pc + 1
                        },
                        Inst::PeekU64 => if n == 0 {
                            r == Err::<Step, VmError>(VmError::StackUnderflow)
                        } else if !(st.last() is U64) {
                            r == Err::<Step, VmError>(VmError::TypeMismatch)
                        } else {
                            &&& r == Ok::<Step, VmError>(Step::Output(st.last()->U64_0))
                            &&& final(self).stack() == st
                            &&& final(self).pc() == pc + 1
                        },
                        other => r == Err::<Step, VmError>(VmError::Unsupported(other)),
                    }
                }
            }),
            r is Err ==> final(self).pc() == old(self).pc() && final(self).stack() == old(
                self,
            ).stack(),
    {
        let pc = self.code.index();
        let len = self.code.len();
        if pc >= len {
            return Ok(Step::Halt);
        }
        let header = self.code.at(pc);
        let inst = match Inst::from_discriminant(header) {
            Some(inst) => inst,
            None => {
                return Err(VmError::InvalidInstruction(header));
            },
        };
        match inst {
            Inst::PushU64 => {
                if len - pc < 9 {
                    return Err(VmError::Truncated);
                }
                let (value, next) = get_u64(&self.code, pc + 1);
                self.stack.push(Item::from_u64(value));
                self.code.jump_unchecked(next);
                Ok(Step::Continue)
            },
            Inst::Pop => {
                self.stack.pop();
                self.code.jump_unchecked(pc + 1);
                Ok(Step::Continue)
            },
            Inst::Ret => {
                let n = self.stack.len();
                if n == 0 {
                    return Err(VmError::StackUnderflow);
                }
                let top = self.stack[n - 1];
                match top {
                    Item::U32(addr) => {
                        self.stack.pop();
                        self.code.jump_unchecked(addr as usize);
                        Ok(Step::Continue)
                    },
                    Item::U64(_) => Err(VmError::TypeMismatch),
                }
            },
            Inst::Goto => {
                if len - pc < 5 {
                    return Err(VmError::Truncated);
                }
                let (addr, _) = get_u32(&self.code, pc + 1);
                self.code.jump_unchecked(addr as usize);
                Ok(Step::Continue)
            },
            Inst::AddU64 => {
                let n = self.stack.len();
                if n < 2 {
                    return Err(VmError::StackUnderflow);
                }
                match (self.stack[n - 2], self.stack[n - 1]) {
                    (Item::U64(a), Item::U64(b)) => {
                        self.stack.pop();
                        self.stack.pop();
                        self.stack.push(Item::from_u64(a.wrapping_add(b)));
                        self.code.jump_unchecked(pc + 1);
                        Ok(Step::Continue)
                    },
                    _ => Err(VmError::TypeMismatch),
                }
            },
            Inst::PeekU64 => {
                let n = self.stack.len();
                if n == 0 {
                    return Err(VmError::StackUnderflow);
                }
                match self.stack[n - 1] {
                    Item::U64(v) => {
                        self.code.jump_unchecked(pc + 1);
                        Ok(Step::Output(v))
                    },
                    Item::U32(_) => Err(VmError::TypeMismatch),
                }
            },
            other => Err(VmError::Unsupported(other)),
        }
    }
}

} // verus!
