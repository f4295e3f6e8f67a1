use syntax_rs::bytecode::{
    bytestream, bytestream_with, disassemble, well_formed, disassemble_one, get_u32, get_u64, ByteStream, Inst,
};
use syntax_rs::vm::{Item, Step, Vm, VmError};

fn op(i: Inst) -> u8 {
    i.discriminant()
}

#[test]
fn header_bytes_round_trip() {
    assert_eq!(Inst::from_discriminant(0), Some(Inst::LocalSet));
    assert_eq!(Inst::from_discriminant(13), Some(Inst::PeekBool));
    assert_eq!(Inst::from_discriminant(14), None);
    assert_eq!(op(Inst::PushU64), 2);
    assert_eq!(Inst::from_discriminant(op(Inst::GotoIfNot)), Some(Inst::GotoIfNot));
}

#[test]
fn byte_stream_reads() {
    let mut b = bytestream();
    assert_eq!(b.len(), 0);
    b.push(7);
    b.push(9);
    assert_eq!(b.get(1), Some(9));
    assert_eq!(b.get(2), None);
    assert_eq!(b.peek_byte(), Some(7));
    assert_eq!(b.read_byte(), Some(7));
    assert_eq!(b.index(), 1);
    let mut view: &[u8] = &[0, 0];
    assert!(!b.peek_into(&mut view));
    let mut view: &[u8] = &[0];
    assert!(b.peek_into(&mut view));
    assert_eq!(view, &[9]);
    assert_eq!(b.read_byte(), Some(9));
    assert_eq!(b.read_byte(), None);
    b.jump_unchecked(0);
    assert_eq!(b.at(0), 7);
}

#[test]
fn little_endian_operands() {
    let b = bytestream_with(vec![0x78, 0x56, 0x34, 0x12, 1, 0, 0, 0]);
    assert_eq!(get_u32(&b, 0), (0x1234_5678, 4));
    assert_eq!(get_u64(&b, 0), (0x0000_0001_1234_5678, 8));
}

#[test]
fn listing_of_a_program() {
    let code = vec![
        op(Inst::PushU64), 0xFF, 0xFF, 0, 0, 0, 0, 0, 0,
        op(Inst::LocalCopy), 0, 0, 0, 0,
        op(Inst::LtU64),
        op(Inst::GotoIfNot), 55, 0, 0, 0,
        op(Inst::AddU64),
    ];
    let b = ByteStream::new_with_bytes(code);
    assert_eq!(
        disassemble(&b),
        "0 | pushu64 65535\n9 | localcopy 0\n14 | ltu64\n15 | gotoif 55\n20 | addu64\n"
    );
    let mut buf = String::from(">");
    assert_eq!(disassemble_one(&b, 15, &mut buf), 20);
    assert_eq!(buf, ">15 | gotoif 55");
}

#[test]
fn machine_steps() {
    let code = vec![
        op(Inst::PushU64), 40, 0, 0, 0, 0, 0, 0, 0,
        op(Inst::PushU64), 2, 0, 0, 0, 0, 0, 0, 0,
        op(Inst::AddU64),
        op(Inst::PeekU64),
        op(Inst::Pop),
        op(Inst::Goto), 26, 0, 0, 0,
    ];
    let mut vm = Vm::new(bytestream_with(code));
    assert_eq!(vm.step(), Ok(Step::Continue));
    assert_eq!(vm.step(), Ok(Step::Continue));
    assert_eq!(vm.step(), Ok(Step::Continue));
    assert_eq!(vm.step(), Ok(Step::Output(42)));
    assert_eq!(vm.step(), Ok(Step::Continue));
    assert_eq!(vm.step(), Ok(Step::Continue));
    assert_eq!(vm.step(), Ok(Step::Halt));
}

#[test]
fn machine_errors() {
    let mut vm = Vm::new(bytestream_with(vec![op(Inst::AddU64)]));
    assert_eq!(vm.step(), Err(VmError::StackUnderflow));
    let mut vm = Vm::new(bytestream_with(vec![op(Inst::PushU64), 1, 2]));
    assert_eq!(vm.step(), Err(VmError::Truncated));
    let mut vm = Vm::new(bytestream_with(vec![200]));
    assert_eq!(vm.step(), Err(VmError::InvalidInstruction(200)));
    let mut vm = Vm::new(bytestream_with(vec![op(Inst::LtU64)]));
    assert_eq!(vm.step(), Err(VmError::Unsupported(Inst::LtU64)));
    let mut vm = Vm::new(bytestream_with(vec![op(Inst::PushU64), 0, 0, 0, 0, 0, 0, 0, 0, op(Inst::Ret)]));
    assert_eq!(vm.step(), Ok(Step::Continue));
    assert_eq!(vm.step(), Err(VmError::TypeMismatch));
}

#[test]
fn items() {
    assert_eq!(Item::from_u64(5).u64(), 5);
    assert_eq!(Item::from_u32(6).u32(), 6);
    assert_eq!(Item::from_u32(6), Item::U32(6));
}

#[test]
fn whole_instructions() {
    assert!(well_formed(&bytestream_with(vec![op(Inst::Pop), op(Inst::Goto), 1, 0, 0, 0])));
    assert!(!well_formed(&bytestream_with(vec![op(Inst::Goto), 1, 0])));
    assert!(!well_formed(&bytestream_with(vec![op(Inst::Pop), 99])));
    assert!(well_formed(&bytestream()));
}

#[test]
fn read_fixed_size_operands() {
    let mut b = bytestream_with(vec![1, 2, 3, 4, 5]);
    let mut four = [0u8; 4];
    assert!(b.read_into_const(&mut four));
    assert_eq!(four, [1, 2, 3, 4]);
    assert_eq!(b.index(), 4);
    let mut two = [9u8; 2];
    assert!(!b.read_into_const(&mut two));
    assert_eq!(two, [9, 9]);
    assert_eq!(b.index(), 4);
}
