use kala::constant::UNDEFINED;
use kala::instruction::{Instruction, Opcode};
use kala::slot::Slot;
use kala::vm::Interpreter;

fn word(op: u8, a: u8, b: u8, c: u8) -> Instruction {
    Instruction { raw: (op as u32) | (a as u32) << 8 | (b as u32) << 16 | (c as u32) << 24 }
}

fn word16(op: u8, a: u8, imm: i16) -> Instruction {
    Instruction { raw: (op as u32) | (a as u32) << 8 | ((imm as u16) as u32) << 16 }
}

#[test]
fn opcode_codes() {
    assert_eq!(Opcode::Add.code(), 0x10);
    assert_eq!(Opcode::from_code(0x10), Some(Opcode::Add));
    assert_eq!(Opcode::from_code(0x01), None);
    assert_eq!(Opcode::from_code(0x35), Some(Opcode::SetProperty));
    assert_eq!(Opcode::Eval.code(), 0x35);
    assert_eq!(Opcode::from_code(Opcode::Return.code()), Some(Opcode::Return));
    assert_eq!(Opcode::Add.type_hint(), 0);
    assert_eq!(Opcode::Load.memory_width(), 1);
}

#[test]
fn instruction_decoding() {
    let ins = word(0x10, 2, 3, 4);
    assert_eq!(ins.opcode(), Some(Opcode::Add));
    let r = ins.register(Opcode::Add);
    assert_eq!(r.destination.0, 2);
    assert_eq!(r.source_0.0, 3);
    assert_eq!(r.source_1.0, 4);
    let i = word(0x00, 1, 2, 0xFF).immediate(Opcode::AddI);
    assert_eq!(i.immediate, -1);
    let j = word16(0x20, 1, -2).jump(Opcode::Jal);
    assert_eq!(j.destination.0, 1);
    assert_eq!(j.immediate, -2);
    let b = word(0x22, 5, 6, 0xFD).branch(Opcode::Beq);
    assert_eq!(b.source_0.0, 5);
    assert_eq!(b.source_1.0, 6);
    assert_eq!(b.immediate, -3);
    let u = word(0x2D, 9, 8, 7).untyped();
    assert_eq!((u.operation, u.field_0, u.field_1, u.field_2), (0x2D, 9, 8, 7));
    let s = word(0x2D, 1, 5, 0xFE).store(Opcode::Store);
    assert_eq!((s.source.0, s.base.0, s.offset), (1, 5, -2));
    let l = word(0x2C, 6, 5, 3).load(Opcode::Load);
    assert_eq!((l.destination.0, l.base.0, l.offset), (6, 5, 3));
    let up = word(0x0F, 1, 0x34, 0x12).update(Opcode::LuI);
    assert_eq!((up.immediate_0, up.immediate_1), (0x34, 0x12));
}

#[test]
fn vm_arithmetic() {
    let mut vm = Interpreter::new(16, 8);
    assert_eq!(vm.read_register(0), Slot(UNDEFINED));
    vm.write_register(1, Slot(5));
    vm.write_register(2, Slot(7));
    vm.op(word(0x10, 3, 1, 2));
    assert_eq!(vm.read_register(3), Slot(12));
    vm.op(word(0x00, 3, 1, 0xFF));
    assert_eq!(vm.read_register(3), Slot(4));
    vm.op(word(0x11, 3, 1, 2));
    assert_eq!(vm.read_register(3), Slot(u64::MAX - 1));
    vm.op(word(0x12, 3, 1, 2));
    assert_eq!(vm.read_register(3), Slot(35));
    vm.op(word(0x13, 3, 2, 1));
    assert_eq!(vm.read_register(3), Slot(1));
    vm.op(word(0x14, 3, 2, 1));
    assert_eq!(vm.read_register(3), Slot(2));
    vm.op(word(0x16, 3, 1, 2));
    assert_eq!(vm.read_register(3), Slot(1));
    vm.op(word(0x0B, 3, 1, 2));
    assert_eq!(vm.read_register(3), Slot(20));
    // an upper immediate leaves the machine as it was
    vm.op(word(0x0F, 3, 1, 2));
    assert_eq!(vm.read_register(3), Slot(20));
    assert_eq!(vm.pc(), 0);
}

#[test]
fn vm_direct_ops() {
    let mut vm = Interpreter::new(8, 8);
    vm.write_register(0, Slot(0b1100));
    vm.write_register(1, Slot(0b1010));
    vm.op_and(word(0x18, 2, 0, 1).register(Opcode::And));
    assert_eq!(vm.read_register(2), Slot(0b1000));
    vm.op_or(word(0x19, 2, 0, 1).register(Opcode::Or));
    assert_eq!(vm.read_register(2), Slot(0b1110));
    vm.op_xori(word(0x0A, 2, 0, 0b0110).immediate(Opcode::XorI));
    assert_eq!(vm.read_register(2), Slot(0b1010));
    vm.op_srli(word(0x0C, 2, 0, 2).immediate(Opcode::SrlI));
    assert_eq!(vm.read_register(2), Slot(0b11));
    vm.write_register(3, Slot((-8i64) as u64));
    vm.op_srai(word(0x0D, 2, 3, 1).immediate(Opcode::SraI));
    assert_eq!(vm.read_register(2), Slot((-4i64) as u64));
    vm.op_sltiu(word(0x07, 2, 3, 1).immediate(Opcode::SltIU));
    assert_eq!(vm.read_register(2), Slot(0));
    vm.op_muli(word(0x02, 2, 0, 3).immediate(Opcode::MulI));
    assert_eq!(vm.read_register(2), Slot(36));
    vm.op_modi(word(0x04, 2, 0, 5).immediate(Opcode::ModI));
    assert_eq!(vm.read_register(2), Slot(2));
}

#[test]
fn vm_jumps_and_branches() {
    let mut vm = Interpreter::new(16, 8);
    vm.op(word16(0x20, 4, 3));
    assert_eq!(vm.pc(), 12);
    assert_eq!(vm.read_register(4), Slot(4));
    let mut vm2 = Interpreter::new(16, 8);
    vm2.write_register(1, Slot(5));
    vm2.write_register(2, Slot(5));
    vm2.op(Instruction { raw: 0x22 | 1 << 8 | 2 << 16 | 2 << 24 });
    assert_eq!(vm2.pc(), 8);
    let mut vm3 = Interpreter::new(16, 8);
    vm3.write_register(1, Slot(5));
    vm3.write_register(2, Slot(6));
    vm3.op(Instruction { raw: 0x22 | 1 << 8 | 2 << 16 | 1 << 24 });
    assert_eq!(vm3.pc(), 0);
    vm3.op(Instruction { raw: 0x24 | 1 << 8 | 2 << 16 | 1 << 24 });
    assert_eq!(vm3.pc(), 4);
    vm3.op(Instruction { raw: 0x25 | 2 << 8 | 1 << 16 | 0xFF << 24 });
    assert_eq!(vm3.pc(), 0);
    vm3.op(Instruction { raw: 0x23 | 1 << 8 | 2 << 16 | 5 << 24 });
    assert_eq!(vm3.pc(), 20);
    vm3.write_register(5, Slot(3));
    vm3.op(word(0x21, 6, 5, 1));
    assert_eq!(vm3.read_register(6), Slot(24));
    assert_eq!(vm3.pc(), 36);
}

#[test]
fn vm_memory() {
    let mut vm = Interpreter::new(16, 8);
    vm.write_register(5, Slot(10));
    vm.write_register(1, Slot(0x1234));
    vm.op(word(0x2D, 1, 5, 0));
    assert_eq!(vm.slot(10), Slot(0xFFFF_FF34));
    vm.op(word(0x2C, 6, 5, 0));
    assert_eq!(vm.read_register(6), Slot(0x34));
    vm.write_register(7, Slot(8));
    vm.op(word(0x2A, 7, 0, 2));
    assert_eq!(vm.read_register(7), Slot(10));
    assert_eq!(vm.slot(10), Slot(0xFFFF_FFFF));
    vm.write_register(4, Slot(1));
    vm.op(word(0x2E, 7, 4, 0));
    assert_eq!(vm.read_register(7), Slot(11));
}

#[test]
fn vm_call_and_return() {
    let mut vm = Interpreter::new(32, 8);
    vm.write_register(0, Slot(42));
    // call five instructions ahead with one argument taken from register 0
    vm.op(word(0x32, 1, 0, 5));
    assert_eq!(vm.pc(), 20);
    assert_eq!(vm.fp(), 10);
    assert_eq!(vm.sp(), 11);
    assert_eq!(vm.ra(), 4);
    assert_eq!(vm.read_register(0), Slot(42));
    vm.write_register(0, Slot(43));
    // return register 0 into the caller's register 2
    vm.op(word(0x38, 2, 0, 0));
    assert_eq!(vm.pc(), 4);
    assert_eq!(vm.fp(), 0);
    assert_eq!(vm.sp(), 8);
    assert_eq!(vm.ra(), 0);
    assert_eq!(vm.read_register(2), Slot(43));
    assert_eq!(vm.read_register(0), Slot(42));
}

#[test]
fn vm_call_closure() {
    let mut vm = Interpreter::new(32, 8);
    vm.write_register(3, Slot(400));
    vm.write_register(0, Slot(1));
    vm.write_register(1, Slot(2));
    vm.op(word(0x36, 3, 0, 2));
    assert_eq!(vm.pc(), 400);
    assert_eq!(vm.fp(), 10);
    assert_eq!(vm.sp(), 12);
    assert_eq!(vm.read_register(0), Slot(1));
    assert_eq!(vm.read_register(1), Slot(2));
}

#[test]
fn vm_load_reads_back_a_store() {
    let mut vm = Interpreter::new(16, 8);
    vm.write_register(1, Slot(0x1234));
    vm.write_register(5, Slot(10));
    // store register 1 at slot 10 + 2, then load it into register 6
    vm.op(word(0x2D, 1, 5, 2));
    vm.op(word(0x2C, 6, 5, 2));
    // a memory operation moves one byte: the low byte of the stored word comes back
    assert_eq!(vm.read_register(6), Slot(0x34));
    assert_eq!(vm.read_register(1), Slot(0x1234));
}
