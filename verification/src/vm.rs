use vstd::prelude::*;
use crate::constant::UNDEFINED;
use crate::instruction::{
    byte_of, opcode_code, opcode_of, upper_i16, Instruction, InstructionBranch,
    InstructionImmediate, InstructionJump, InstructionLoad, InstructionRegister, InstructionStore,
    Opcode,
};
use crate::slot::{signed, word_div, word_rem, wrap64, Slot};

verus! {

/// The arithmetic and logic operations on two words.
#[derive(Debug, Clone, Copy, PartialEq, Eq, Structural)]
pub enum AluOp {
    Add,
    Sub,
    Mul,
    Div,
    Rem,
    Slt,
    Sltu,
    And,
    Or,
    Xor,
    Sll,
    Srl,
    Sra,
}

/// What an arithmetic or logic operation gives on two words.
pub open spec fn alu(kind: AluOp, a: Slot, b: Slot) -> Slot {
    match kind {
        AluOp::Add => Slot(wrap64(a.0 + b.0)),
        AluOp::Sub => Slot(wrap64(a.0 - b.0)),
        AluOp::Mul => Slot(wrap64(a.0 * b.0)),
        AluOp::Div => Slot(word_div(a.0, b.0)),
        AluOp::Rem => Slot(word_rem(a.0, b.0)),
        AluOp::Slt => Slot(if signed(a.0) < signed(b.0) { 1 } else { 0 }),
        AluOp::Sltu => Slot(if a.0 < b.0 { 1 } else { 0 }),
        AluOp::And => Slot(a.0 & b.0),
        AluOp::Or => Slot(a.0 | b.0),
        AluOp::Xor => Slot(a.0 ^ b.0),
        AluOp::Sll => Slot(a.0 << (b.0 & 63u64)),
        AluOp::Srl => Slot(a.0 >> (b.0 & 63u64)),
        AluOp::Sra => Slot(((a.0 as i64) >> (b.0 & 63u64)) as u64),
    }
}

fn alu_exec(kind: AluOp, a: Slot, b: Slot) -> (r: Slot)
    ensures
        r == alu(kind, a, b),
{
    match kind {
        AluOp::Add => a.add(b),
        AluOp::Sub => a.sub(b),
        AluOp::Mul => a.mul(b),
        AluOp::Div => a.div(b),
        AluOp::Rem => a.rem(b),
        AluOp::Slt => a.slt(b),
        AluOp::Sltu => a.sltu(b),
        AluOp::And => a.bit_and(b),
        AluOp::Or => a.bit_or(b),
        AluOp::Xor => a.bit_xor(b),
        AluOp::Sll => a.shl(b),
        AluOp::Srl => a.shr(b),
        AluOp::Sra => a.sar(b),
    }
}

/// An 8-bit immediate, sign-extended to a word.
pub open spec fn imm_word(imm: i8) -> Slot {
    Slot((imm as i64) as u64)
}

/// The bits of a word that a memory access of `width` bytes touches.
pub open spec fn width_mask(width: usize) -> u64 {
    if width == 1 {
        0xFFu64
    } else if width == 2 {
        0xFFFFu64
    } else if width == 4 {
        0xFFFF_FFFFu64
    } else {
        u64::MAX
    }
}

/// The width in bytes of a memory operation (see `Opcode::memory_width`).
pub open spec fn width_of(op: Opcode) -> usize {
    let hint = opcode_code(op) / 64;
    if hint == 0 {
        1
    } else if hint == 1 {
        2
    } else if hint == 2 {
        4
    } else {
        8
    }
}

/// The machine state: the value stack, the saved return address, the frame base, the
/// stack top and the program counter (in bytes; an instruction is four).
pub struct VmState {
    pub stack: Seq<Slot>,
    pub ra: usize,
    pub fp: usize,
    pub sp: usize,
    pub pc: usize,
}

impl VmState {
    /// Whether register `r` of the current frame lies on the stack.
    pub open spec fn has_reg(self, r: u8) -> bool {
        self.fp + r < self.stack.len()
    }

    /// Register `r` of the current frame.
    pub open spec fn reg(self, r: u8) -> Slot {
        self.stack[self.fp + r]
    }

    /// The state with register `r` of the current frame set to `v`.
    pub open spec fn set_reg(self, r: u8, v: Slot) -> VmState {
        VmState { stack: self.stack.update(self.fp + r, v), ..self }
    }

    /// Whether `pc + delta` is a program counter.
    pub open spec fn pc_in_range(self, delta: int) -> bool {
        0 <= self.pc + delta <= usize::MAX
    }

    /// The state with the program counter moved by `delta` bytes.
    pub open spec fn jump_by(self, delta: int) -> VmState {
        VmState { pc: (self.pc + delta) as usize, ..self }
    }

    /// The state with the low `width` bytes of the slot at `address` replaced by those of `v`.
    pub open spec fn write_memory(self, address: int, width: usize, v: Slot) -> VmState {
        let m = width_mask(width);
        VmState {
            stack: self.stack.update(address, Slot((self.stack[address].0 & !m) | (v.0 & m))),
            ..self
        }
    }

    /// The low `width` bytes of the slot at `address`.
    pub open spec fn read_memory(self, address: int, width: usize) -> Slot {
        Slot(self.stack[address].0 & width_mask(width))
    }

    pub open spec fn imm_ok(self, op: InstructionImmediate) -> bool {
        self.has_reg(op.destination.0) && self.has_reg(op.source_0.0)
    }

    pub open spec fn after_imm(self, op: InstructionImmediate, kind: AluOp) -> VmState {
        self.set_reg(op.destination.0, alu(kind, self.reg(op.source_0.0), imm_word(op.immediate)))
    }

    pub open spec fn reg_ok(self, op: InstructionRegister) -> bool {
        self.has_reg(op.destination.0) && self.has_reg(op.source_0.0) && self.has_reg(
            op.source_1.0,
        )
    }

    pub open spec fn after_reg(self, op: InstructionRegister, kind: AluOp) -> VmState {
        self.set_reg(
            op.destination.0,
            alu(kind, self.reg(op.source_0.0), self.reg(op.source_1.0)),
        )
    }

    pub open spec fn jal_ok(self, op: InstructionJump) -> bool {
        self.has_reg(op.destination.0) && self.pc + 4 <= usize::MAX && self.pc_in_range(
            op.immediate * 4,
        )
    }

    pub open spec fn after_jal(self, op: InstructionJump) -> VmState {
        self.set_reg(op.destination.0, Slot((self.pc + 4) as u64)).jump_by(op.immediate * 4)
    }

    /// The jump of `jalr`: the register's word, read as signed, plus the immediate, in
    /// instructions.
    pub open spec fn jalr_delta(self, op: InstructionImmediate) -> int {
        (signed(self.reg(op.source_0.0).0) + op.immediate) * 4
    }

    pub open spec fn jalr_ok(self, op: InstructionImmediate) -> bool {
        self.imm_ok(op) && self.pc + 4 <= usize::MAX && self.pc_in_range(self.jalr_delta(op))
    }

    pub open spec fn after_jalr(self, op: InstructionImmediate) -> VmState {
        self.set_reg(op.destination.0, Slot((self.pc + 4) as u64)).jump_by(self.jalr_delta(op))
    }

    /// Whether a branch of the kind `op` is taken.
    /// Whether a branch of the given kind is taken on the instruction's two registers.
    pub open spec fn taken_as(self, kind: Opcode, op: InstructionBranch) -> bool {
        let a = self.reg(op.source_0.0);
        let b = self.reg(op.source_1.0);
        match kind {
            Opcode::Beq => a == b,
            Opcode::Bne => a != b,
            Opcode::Blt => signed(a.0) < signed(b.0),
            _ => signed(a.0) >= signed(b.0),
        }
    }

    pub open spec fn branch_ok_as(self, kind: Opcode, op: InstructionBranch) -> bool {
        &&& self.has_reg(op.source_0.0)
        &&& self.has_reg(op.source_1.0)
        &&& self.taken_as(kind, op) ==> self.pc_in_range(op.immediate * 4)
    }

    pub open spec fn after_branch_as(self, kind: Opcode, op: InstructionBranch) -> VmState {
        if self.taken_as(kind, op) {
            self.jump_by(op.immediate * 4)
        } else {
            self
        }
    }

    pub open spec fn branch_taken(self, op: InstructionBranch) -> bool {
        self.taken_as(op.operation, op)
    }

    pub open spec fn branch_ok(self, op: InstructionBranch) -> bool {
        self.branch_ok_as(op.operation, op)
    }

    pub open spec fn after_branch(self, op: InstructionBranch) -> VmState {
        self.after_branch_as(op.operation, op)
    }

    /// The slot index a register's word plus an offset names.
    pub open spec fn address(self, base: u8, offset: int) -> int {
        self.reg(base).0 + offset
    }

    pub open spec fn load_ok(self, op: InstructionLoad) -> bool {
        &&& self.has_reg(op.destination.0)
        &&& self.has_reg(op.base.0)
        &&& 0 <= self.address(op.base.0, op.offset as int) < self.stack.len()
    }

    pub open spec fn after_load(self, op: InstructionLoad) -> VmState {
        self.set_reg(
            op.destination.0,
            self.read_memory(self.address(op.base.0, op.offset as int), width_of(op.operation)),
        )
    }

    pub open spec fn store_ok(self, op: InstructionStore) -> bool {
        &&& self.has_reg(op.source.0)
        &&& self.has_reg(op.base.0)
        &&& 0 <= self.address(op.base.0, op.offset as int) < self.stack.len()
    }

    pub open spec fn after_store(self, op: InstructionStore) -> VmState {
        self.write_memory(
            self.address(op.base.0, op.offset as int),
            width_of(op.operation),
            self.reg(op.source.0),
        )
    }

    /// An allocation: the register moves by `offset`, and the slot it then names is
    /// written `undefined`.
    pub open spec fn alloc_ok(self, dest: u8, offset: int) -> bool {
        &&& self.has_reg(dest)
        &&& 0 <= self.address(dest, offset) < self.stack.len()
    }

    pub open spec fn after_alloc(self, dest: u8, offset: int, width: usize) -> VmState {
        let a = self.address(dest, offset);
        self.set_reg(dest, Slot(a as u64)).write_memory(a, width, Slot(UNDEFINED))
    }

    /// Whether a new frame of `count` arguments, taken from registers `first..`, fits.
    pub open spec fn call_ok(self, first: u8, count: u8) -> bool {
        &&& self.fp + first + count <= self.sp
        &&& self.sp + 2 + count <= self.stack.len()
        &&& self.pc + 4 <= usize::MAX
    }

    /// The state after a new frame is entered: at the old stack top go the saved return
    /// address and frame base, then copies of the arguments; the frame base moves past the
    /// two saved words, the stack top past the arguments, and the return address becomes
    /// the next instruction.
    pub open spec fn enter_frame(self, first: u8, count: u8) -> VmState {
        let base = self.sp as int;
        let from = self.fp + first;
        VmState {
            stack: Seq::new(
                self.stack.len(),
                |j: int|
                    if j == base {
                        Slot(self.ra as u64)
                    } else if j == base + 1 {
                        Slot(self.fp as u64)
                    } else if base + 2 <= j < base + 2 + count {
                        self.stack[from + (j - base - 2)]
                    } else {
                        self.stack[j]
                    },
            ),
            ra: (self.pc + 4) as usize,
            fp: (base + 2) as usize,
            sp: (base + 2 + count) as usize,
            pc: self.pc,
        }
    }

    pub open spec fn calli_ok(self, op: InstructionImmediate) -> bool {
        self.call_ok(op.source_0.0, op.destination.0) && self.pc_in_range(op.immediate * 4)
    }

    pub open spec fn after_calli(self, op: InstructionImmediate) -> VmState {
        self.enter_frame(op.source_0.0, op.destination.0).jump_by(op.immediate * 4)
    }

    pub open spec fn call_closure_ok(self, op: InstructionRegister) -> bool {
        &&& self.has_reg(op.destination.0)
        &&& self.call_ok(op.source_0.0, op.source_1.0)
        &&& self.reg(op.destination.0).0 <= usize::MAX
    }

    pub open spec fn after_call(self, op: InstructionRegister) -> VmState {
        let target = self.reg(op.destination.0).0;
        VmState { pc: target as usize, ..self.enter_frame(op.source_0.0, op.source_1.0) }
    }

    pub open spec fn return_ok(self, op: InstructionImmediate) -> bool {
        &&& self.fp >= 2
        &&& self.fp <= self.stack.len()
        &&& self.has_reg(op.source_0.0)
        &&& self.stack[self.fp - 2].0 <= usize::MAX
        &&& self.stack[self.fp - 1].0 + op.destination.0 < self.stack.len()
    }

    /// The state after a return: the saved frame base and return address come back from
    /// below the frame, the stack top drops to where the frame began, control goes to the
    /// return address, and the value of register `source_0` lands in register
    /// `destination` of the caller's frame.
    pub open spec fn after_return(self, op: InstructionImmediate) -> VmState {
        let value = self.reg(op.source_0.0);
        let restored = VmState {
            stack: self.stack,
            ra: self.stack[self.fp - 2].0 as usize,
            fp: self.stack[self.fp - 1].0 as usize,
            sp: (self.fp - 2) as usize,
            pc: self.ra,
        };
        restored.set_reg(op.destination.0, value)
    }
}

/// The arithmetic kind of each register or immediate operation.
pub open spec fn alu_kind(op: Opcode) -> Option<AluOp> {
    match op {
        Opcode::AddI | Opcode::Add => Some(AluOp::Add),
        Opcode::Sub => Some(AluOp::Sub),
        Opcode::MulI | Opcode::Mul => Some(AluOp::Mul),
        Opcode::Div => Some(AluOp::Div),
        Opcode::ModI | Opcode::Mod => Some(AluOp::Rem),
        Opcode::SltI | Opcode::Slt => Some(AluOp::Slt),
        Opcode::SltIU | Opcode::SltU => Some(AluOp::Sltu),
        Opcode::AndI | Opcode::And => Some(AluOp::And),
        Opcode::OrI | Opcode::Or => Some(AluOp::Or),
        Opcode::XorI | Opcode::Xor => Some(AluOp::Xor),
        Opcode::SllI | Opcode::Sll => Some(AluOp::Sll),
        Opcode::SrlI | Opcode::Srl => Some(AluOp::Srl),
        Opcode::SraI | Opcode::Sra => Some(AluOp::Sra),
        _ => None,
    }
}

/// Whether an operation takes a register and an immediate.
pub open spec fn is_imm_alu(op: Opcode) -> bool {
    opcode_code(op) <= 0x0D
}

/// The decoded pieces of an instruction word for each shape.
pub open spec fn imm_of(ins: Instruction, op: Opcode) -> InstructionImmediate {
    InstructionImmediate {
        operation: op,
        destination: crate::instruction::Register(byte_of(ins.raw, 1)),
        source_0: crate::instruction::Register(byte_of(ins.raw, 2)),
        immediate: byte_of(ins.raw, 3) as i8,
    }
}

pub open spec fn reg_of(ins: Instruction, op: Opcode) -> InstructionRegister {
    InstructionRegister {
        operation: op,
        destination: crate::instruction::Register(byte_of(ins.raw, 1)),
        source_0: crate::instruction::Register(byte_of(ins.raw, 2)),
        source_1: crate::instruction::Register(byte_of(ins.raw, 3)),
    }
}

pub open spec fn jump_of(ins: Instruction, op: Opcode) -> InstructionJump {
    InstructionJump {
        operation: op,
        destination: crate::instruction::Register(byte_of(ins.raw, 1)),
        immediate: upper_i16(ins.raw),
    }
}

pub open spec fn branch_of(ins: Instruction, op: Opcode) -> InstructionBranch {
    InstructionBranch {
        operation: op,
        source_0: crate::instruction::Register(byte_of(ins.raw, 1)),
        source_1: crate::instruction::Register(byte_of(ins.raw, 2)),
        immediate: (byte_of(ins.raw, 3) as i8) as i16,
    }
}

pub open spec fn load_of(ins: Instruction, op: Opcode) -> InstructionLoad {
    InstructionLoad {
        operation: op,
        destination: crate::instruction::Register(byte_of(ins.raw, 1)),
        base: crate::instruction::Register(byte_of(ins.raw, 2)),
        offset: byte_of(ins.raw, 3) as i8,
    }
}

pub open spec fn store_of(ins: Instruction, op: Opcode) -> InstructionStore {
    InstructionStore {
        operation: op,
        source: crate::instruction::Register(byte_of(ins.raw, 1)),
        base: crate::instruction::Register(byte_of(ins.raw, 2)),
        offset: byte_of(ins.raw, 3) as i8,
    }
}

/// Whether the machine can execute `ins` in state `s`: the word decodes to an operation the
/// machine implements, and that operation's registers and targets are in range.
pub open spec fn step_ok(s: VmState, ins: Instruction) -> bool {
    match opcode_of(byte_of(ins.raw, 0)) {
        Some(op) => match op {
            Opcode::LuI => true,
            Opcode::Jal => s.jal_ok(jump_of(ins, op)),
            Opcode::Jalr => s.jalr_ok(imm_of(ins, op)),
            Opcode::Beq | Opcode::Bne | Opcode::Blt | Opcode::Bge => s.branch_ok(
                branch_of(ins, op),
            ),
            Opcode::Load => s.load_ok(load_of(ins, op)),
            Opcode::Store => s.store_ok(store_of(ins, op)),
            Opcode::AllocI => s.alloc_ok(byte_of(ins.raw, 1), imm_of(ins, op).immediate as int),
            Opcode::Alloc => s.has_reg(byte_of(ins.raw, 2)) && s.alloc_ok(
                byte_of(ins.raw, 1),
                signed(s.reg(byte_of(ins.raw, 2)).0) as int,
            ),
            Opcode::CallI => s.calli_ok(imm_of(ins, op)),
            Opcode::Call => s.call_closure_ok(reg_of(ins, op)),
            Opcode::Return => s.return_ok(imm_of(ins, op)),
            _ => match alu_kind(op) {
                Some(kind) => if is_imm_alu(op) {
                    s.imm_ok(imm_of(ins, op))
                } else {
                    s.reg_ok(reg_of(ins, op))
                },
                None => false,
            },
        },
        None => false,
    }
}

/// The state after the machine executes `ins` in state `s`.
pub open spec fn step(s: VmState, ins: Instruction) -> VmState {
    match opcode_of(byte_of(ins.raw, 0)) {
        Some(op) => match op {
            Opcode::LuI => s,
            Opcode::Jal => s.after_jal(jump_of(ins, op)),
            Opcode::Jalr => s.after_jalr(imm_of(ins, op)),
            Opcode::Beq | Opcode::Bne | Opcode::Blt | Opcode::Bge => s.after_branch(
                branch_of(ins, op),
            ),
            Opcode::Load => s.after_load(load_of(ins, op)),
            Opcode::Store => s.after_store(store_of(ins, op)),
            Opcode::AllocI => s.after_alloc(
                byte_of(ins.raw, 1),
                imm_of(ins, op).immediate as int,
                width_of(op),
            ),
            Opcode::Alloc => s.after_alloc(
                byte_of(ins.raw, 1),
                signed(s.reg(byte_of(ins.raw, 2)).0) as int,
                width_of(op),
            ),
            Opcode::CallI => s.after_calli(imm_of(ins, op)),
            Opcode::Call => s.after_call(reg_of(ins, op)),
            Opcode::Return => s.after_return(imm_of(ins, op)),
            _ => match alu_kind(op) {
                Some(kind) => if is_imm_alu(op) {
                    s.after_imm(imm_of(ins, op), kind)
                } else {
                    s.after_reg(reg_of(ins, op), kind)
                },
                None => s,
            },
        },
        None => s,
    }
}

/// A register machine over a stack of slots.
pub struct Interpreter {
    stack: Vec<Slot>,
    ra: usize,
    fp: usize,
    sp: usize,
    pc: usize,
}

impl View for Interpreter {
    type V = VmState;

    closed spec fn view(&self) -> VmState {
        VmState { stack: self.stack@, ra: self.ra, fp: self.fp, sp: self.sp, pc: self.pc }
    }
}

fn mask_for(width: usize) -> (r: u64)
    ensures
        r == width_mask(width),
{
    if width == 1 {
        0xFFu64
    } else if width == 2 {
        0xFFFFu64
    } else if width == 4 {
        0xFFFF_FFFFu64
    } else {
        u64::MAX
    }
}

impl Interpreter {
    /// A machine whose stack holds `size` undefined slots, the first `frame` of them the
    /// registers of the bottom frame.
    pub fn new(size: usize, frame: usize) -> (r: Self)
        requires
            frame <= size,
        ensures
            r@.stack == Seq::new(size as nat, |i: int| Slot(UNDEFINED)),
            r@.ra == 0,
            r@.fp == 0,
            r@.sp == frame,
            r@.pc == 0,
    {
        let mut stack: Vec<Slot> = Vec::new();
        for i in 0..size
            invariant
                stack@ == Seq::new(i as nat, |j: int| Slot(UNDEFINED)),
        {
            stack.push(Slot(UNDEFINED));
            proof {
                assert(stack@ =~= Seq::new((i + 1) as nat, |j: int| Slot(UNDEFINED)));
            }
        }
        Interpreter { stack, ra: 0, fp: 0, sp: frame, pc: 0 }
    }

    pub fn pc(&self) -> (r: usize)
        ensures
            r == self@.pc,
    {
        self.pc
    }

    pub fn fp(&self) -> (r: usize)
        ensures
            r == self@.fp,
    {
        self.fp
    }

    pub fn sp(&self) -> (r: usize)
        ensures
            r == self@.sp,
    {
        self.sp
    }

    pub fn ra(&self) -> (r: usize)
        ensures
            r == self@.ra,
    {
        self.ra
    }

    /// The slot at `index` of the stack.
    pub fn slot(&self, index: usize) -> (r: Slot)
        requires
            index < self@.stack.len(),
        ensures
            r == self@.stack[index as int],
    {
        self.stack[index]
    }

    pub fn read_register(&self, register: u8) -> (r: Slot)
        requires
            self@.has_reg(register),
        ensures
            r == self@.reg(register),
    {
        let _len = self.stack.len();
        self.stack[self.fp + register as usize]
    }

    pub fn write_register(&mut self, register: u8, value: Slot)
        requires
            old(self)@.has_reg(register),
        ensures
            final(self)@ == old(self)@.set_reg(register, value),
    {
        let _len = self.stack.len();
        let i = self.fp + register as usize;
        self.stack.set(i, value);
    }

    fn read_memory(&self, address: usize, width: usize) -> (r: Slot)
        requires
            address < self@.stack.len(),
        ensures
            r == self@.read_memory(address as int, width),
    {
        Slot(self.stack[address].0 & mask_for(width))
    }

    fn write_memory(&mut self, address: usize, width: usize, value: Slot)
        requires
            address < old(self)@.stack.len(),
        ensures
            final(self)@ == old(self)@.write_memory(address as int, width, value),
    {
        let m = mask_for(width);
        let old_word = self.stack[address].0;
        self.stack.set(address, Slot((old_word & !m) | (value.0 & m)));
    }

    fn jump(&mut self, delta: i128)
        requires
            old(self)@.pc_in_range(delta as int),
        ensures
            final(self)@ == old(self)@.jump_by(delta as int),
    {
        self.pc = (self.pc as i128 + delta) as usize;
    }

    fn op_immediate(&mut self, op: InstructionImmediate, kind: AluOp)
        requires
            old(self)@.imm_ok(op),
        ensures
            final(self)@ == old(self)@.after_imm(op, kind),
    {
        let a = self.read_register(op.source_0.0);
        let b = Slot((op.immediate as i64) as u64);
        let c = alu_exec(kind, a, b);
        self.write_register(op.destination.0, c);
    }

    fn op_register(&mut self, op: InstructionRegister, kind: AluOp)
        requires
            old(self)@.reg_ok(op),
        ensures
            final(self)@ == old(self)@.after_reg(op, kind),
    {
        let a = self.read_register(op.source_0.0);
        let b = self.read_register(op.source_1.0);
        let c = alu_exec(kind, a, b);
        self.write_register(op.destination.0, c);
    }

    /// `destination = source_0 add immediate`: the sum.
    pub fn op_addi(&mut self, op: InstructionImmediate)
        requires
            old(self)@.imm_ok(op),
        ensures
            final(self)@ == old(self)@.after_imm(op, AluOp::Add),
    {
        self.op_immediate(op, AluOp::Add);
    }

    /// `destination = source_0 mul immediate`: the product.
    pub fn op_muli(&mut self, op: InstructionImmediate)
        requires
            old(self)@.imm_ok(op),
        ensures
            final(self)@ == old(self)@.after_imm(op, AluOp::Mul),
    {
        self.op_immediate(op, AluOp::Mul);
    }

    /// `destination = source_0 rem immediate`: the signed remainder.
    pub fn op_modi(&mut self, op: InstructionImmediate)
        requires
            old(self)@.imm_ok(op),
        ensures
            final(self)@ == old(self)@.after_imm(op, AluOp::Rem),
    {
        self.op_immediate(op, AluOp::Rem);
    }

    /// `destination = source_0 slt immediate`: the signed less-than flag.
    pub fn op_slti(&mut self, op: InstructionImmediate)
        requires
            old(self)@.imm_ok(op),
        ensures
            final(self)@ == old(self)@.after_imm(op, AluOp::Slt),
    {
        self.op_immediate(op, AluOp::Slt);
    }

    /// `destination = source_0 sltu immediate`: the unsigned less-than flag.
    pub fn op_sltiu(&mut self, op: InstructionImmediate)
        requires
            old(self)@.imm_ok(op),
        ensures
            final(self)@ == old(self)@.after_imm(op, AluOp::Sltu),
    {
        self.op_immediate(op, AluOp::Sltu);
    }

    /// `destination = source_0 and immediate`: the bitwise and.
    pub fn op_andi(&mut self, op: InstructionImmediate)
        requires
            old(self)@.imm_ok(op),
        ensures
            final(self)@ == old(self)@.after_imm(op, AluOp::And),
    {
        self.op_immediate(op, AluOp::And);
    }

    /// `destination = source_0 or immediate`: the bitwise or.
    pub fn op_ori(&mut self, op: InstructionImmediate)
        requires
            old(self)@.imm_ok(op),
        ensures
            final(self)@ == old(self)@.after_imm(op, AluOp::Or),
    {
        self.op_immediate(op, AluOp::Or);
    }

    /// `destination = source_0 xor immediate`: the bitwise exclusive or.
    pub fn op_xori(&mut self, op: InstructionImmediate)
        requires
            old(self)@.imm_ok(op),
        ensures
            final(self)@ == old(self)@.after_imm(op, AluOp::Xor),
    {
        self.op_immediate(op, AluOp::Xor);
    }

    /// `destination = source_0 sll immediate`: the left shift.
    pub fn op_slli(&mut self, op: InstructionImmediate)
        requires
            old(self)@.imm_ok(op),
        ensures
            final(self)@ == old(self)@.after_imm(op, AluOp::Sll),
    {
        self.op_immediate(op, AluOp::Sll);
    }

    /// `destination = source_0 srl immediate`: the logical right shift.
    pub fn op_srli(&mut self, op: InstructionImmediate)
        requires
            old(self)@.imm_ok(op),
        ensures
            final(self)@ == old(self)@.after_imm(op, AluOp::Srl),
    {
        self.op_immediate(op, AluOp::Srl);
    }

    /// `destination = source_0 sra immediate`: the arithmetic right shift.
    pub fn op_srai(&mut self, op: InstructionImmediate)
        requires
            old(self)@.imm_ok(op),
        ensures
            final(self)@ == old(self)@.after_imm(op, AluOp::Sra),
    {
        self.op_immediate(op, AluOp::Sra);
    }

    /// `destination = source_0 add source_1`: the sum.
    pub fn op_add(&mut self, op: InstructionRegister)
        requires
            old(self)@.reg_ok(op),
        ensures
            final(self)@ == old(self)@.after_reg(op, AluOp::Add),
    {
        self.op_register(op, AluOp::Add);
    }

    /// `destination = source_0 sub source_1`: the difference.
    pub fn op_sub(&mut self, op: InstructionRegister)
        requires
            old(self)@.reg_ok(op),
        ensures
            final(self)@ == old(self)@.after_reg(op, AluOp::Sub),
    {
        self.op_register(op, AluOp::Sub);
    }

    /// `destination = source_0 mul source_1`: the product.
    pub fn op_mul(&mut self, op: InstructionRegister)
        requires
            old(self)@.reg_ok(op),
        ensures
            final(self)@ == old(self)@.after_reg(op, AluOp::Mul),
    {
        self.op_register(op, AluOp::Mul);
    }

    /// `destination = source_0 div source_1`: the signed quotient.
    pub fn op_div(&mut self, op: InstructionRegister)
        requires
            old(self)@.reg_ok(op),
        ensures
            final(self)@ == old(self)@.after_reg(op, AluOp::Div),
    {
        self.op_register(op, AluOp::Div);
    }

    /// `destination = source_0 rem source_1`: the signed remainder.
    pub fn op_mod(&mut self, op: InstructionRegister)
        requires
            old(self)@.reg_ok(op),
        ensures
            final(self)@ == old(self)@.after_reg(op, AluOp::Rem),
    {
        self.op_register(op, AluOp::Rem);
    }

    /// `destination = source_0 slt source_1`: the signed less-than flag.
    pub fn op_slt(&mut self, op: InstructionRegister)
        requires
            old(self)@.reg_ok(op),
        ensures
            final(self)@ == old(self)@.after_reg(op, AluOp::Slt),
    {
        self.op_register(op, AluOp::Slt);
    }

    /// `destination = source_0 sltu source_1`: the unsigned less-than flag.
    pub fn op_sltu(&mut self, op: InstructionRegister)
        requires
            old(self)@.reg_ok(op),
        ensures
            final(self)@ == old(self)@.after_reg(op, AluOp::Sltu),
    {
        self.op_register(op, AluOp::Sltu);
    }

    /// `destination = source_0 and source_1`: the bitwise and.
    pub fn op_and(&mut self, op: InstructionRegister)
        requires
            old(self)@.reg_ok(op),
        ensures
            final(self)@ == old(self)@.after_reg(op, AluOp::And),
    {
        self.op_register(op, AluOp::And);
    }

    /// `destination = source_0 or source_1`: the bitwise or.
    pub fn op_or(&mut self, op: InstructionRegister)
        requires
            old(self)@.reg_ok(op),
        ensures
            final(self)@ == old(self)@.after_reg(op, AluOp::Or),
    {
        self.op_register(op, AluOp::Or);
    }

    /// `destination = source_0 xor source_1`: the bitwise exclusive or.
    pub fn op_xor(&mut self, op: InstructionRegister)
        requires
            old(self)@.reg_ok(op),
        ensures
            final(self)@ == old(self)@.after_reg(op, AluOp::Xor),
    {
        self.op_register(op, AluOp::Xor);
    }

    /// `destination = source_0 sll source_1`: the left shift.
    pub fn op_sll(&mut self, op: InstructionRegister)
        requires
            old(self)@.reg_ok(op),
        ensures
            final(self)@ == old(self)@.after_reg(op, AluOp::Sll),
    {
        self.op_register(op, AluOp::Sll);
    }

    /// `destination = source_0 srl source_1`: the logical right shift.
    pub fn op_srl(&mut self, op: InstructionRegister)
        requires
            old(self)@.reg_ok(op),
        ensures
            final(self)@ == old(self)@.after_reg(op, AluOp::Srl),
    {
        self.op_register(op, AluOp::Srl);
    }

    /// `destination = source_0 sra source_1`: the arithmetic right shift.
    pub fn op_sra(&mut self, op: InstructionRegister)
        requires
            old(self)@.reg_ok(op),
        ensures
            final(self)@ == old(self)@.after_reg(op, AluOp::Sra),
    {
        self.op_register(op, AluOp::Sra);
    }
    /// Loading an upper immediate leaves the machine as it is.
    pub fn op_lui(&mut self, op: InstructionImmediate)
        ensures
            final(self)@ == old(self)@,
    {
    }

    /// Jump and link: the next instruction's address goes to `destination`, and control
    /// moves by `immediate` instructions.
    pub fn op_jal(&mut self, op: InstructionJump)
        requires
            old(self)@.jal_ok(op),
        ensures
            final(self)@ == old(self)@.after_jal(op),
    {
        let ret = Slot((self.pc + 4) as u64);
        self.write_register(op.destination.0, ret);
        self.jump(op.immediate as i128 * 4);
    }

    /// Jump and link by a register: control moves by the register's word plus `immediate`,
    /// in instructions.
    pub fn op_jalr(&mut self, op: InstructionImmediate)
        requires
            old(self)@.jalr_ok(op),
        ensures
            final(self)@ == old(self)@.after_jalr(op),
    {
        let base = self.read_register(op.source_0.0);
        let delta = ((base.0 as i64) as i128 + op.immediate as i128) * 4;
        let ret = Slot((self.pc + 4) as u64);
        self.write_register(op.destination.0, ret);
        self.jump(delta);
    }

    fn branch_if(&mut self, op: InstructionBranch, taken: bool)
        requires
            taken ==> old(self)@.pc_in_range(op.immediate * 4),
        ensures
            final(self)@ == (if taken {
                old(self)@.jump_by(op.immediate * 4)
            } else {
                old(self)@
            }),
    {
        if taken {
            self.jump(op.immediate as i128 * 4);
        }
    }

    /// Branch if the two registers hold the same word.
    pub fn op_beq(&mut self, op: InstructionBranch)
        requires
            old(self)@.branch_ok_as(Opcode::Beq, op),
        ensures
            final(self)@ == old(self)@.after_branch_as(Opcode::Beq, op),
    {
        let a = self.read_register(op.source_0.0);
        let b = self.read_register(op.source_1.0);
        self.branch_if(op, a == b);
    }

    /// Branch if the two registers hold different words.
    pub fn op_bne(&mut self, op: InstructionBranch)
        requires
            old(self)@.branch_ok_as(Opcode::Bne, op),
        ensures
            final(self)@ == old(self)@.after_branch_as(Opcode::Bne, op),
    {
        let a = self.read_register(op.source_0.0);
        let b = self.read_register(op.source_1.0);
        self.branch_if(op, a != b);
    }

    /// Branch if the first word is less than the second, as signed integers.
    pub fn op_blt(&mut self, op: InstructionBranch)
        requires
            old(self)@.branch_ok_as(Opcode::Blt, op),
        ensures
            final(self)@ == old(self)@.after_branch_as(Opcode::Blt, op),
    {
        let a = self.read_register(op.source_0.0);
        let b = self.read_register(op.source_1.0);
        self.branch_if(op, (a.0 as i64) < (b.0 as i64));
    }

    /// Branch if the first word is at least the second, as signed integers.
    pub fn op_bge(&mut self, op: InstructionBranch)
        requires
            old(self)@.branch_ok_as(Opcode::Bge, op),
        ensures
            final(self)@ == old(self)@.after_branch_as(Opcode::Bge, op),
    {
        let a = self.read_register(op.source_0.0);
        let b = self.read_register(op.source_1.0);
        self.branch_if(op, (a.0 as i64) >= (b.0 as i64));
    }

    /// Loads the low bytes of the slot at `base + offset` into `destination`.
    pub fn op_load(&mut self, op: InstructionLoad)
        requires
            old(self)@.load_ok(op),
        ensures
            final(self)@ == old(self)@.after_load(op),
    {
        let width = op.operation.memory_width();
        let base = self.read_register(op.base.0);
        let _len = self.stack.len();
        let address = (base.0 as i128 + op.offset as i128) as usize;
        let value = self.read_memory(address, width);
        self.write_register(op.destination.0, value);
    }

    /// Stores the low bytes of `source` into the slot at `base + offset`.
    pub fn op_store(&mut self, op: InstructionStore)
        requires
            old(self)@.store_ok(op),
        ensures
            final(self)@ == old(self)@.after_store(op),
    {
        let width = op.operation.memory_width();
        let base = self.read_register(op.base.0);
        let _len = self.stack.len();
        let address = (base.0 as i128 + op.offset as i128) as usize;
        let value = self.read_register(op.source.0);
        self.write_memory(address, width, value);
    }

    fn allocate_at(&mut self, dest: u8, offset: i128, width: usize)
        requires
            old(self)@.alloc_ok(dest, offset as int),
        ensures
            final(self)@ == old(self)@.after_alloc(dest, offset as int, width),
    {
        let base = self.read_register(dest);
        let _len = self.stack.len();
        let address = (base.0 as i128 + offset) as usize;
        self.write_register(dest, Slot(address as u64));
        self.write_memory(address, width, Slot(UNDEFINED));
    }

    /// Moves `destination` by the signed word in `source_0` and writes `undefined` to the
    /// slot it then names.
    pub fn op_alloc(&mut self, op: InstructionRegister)
        requires
            old(self)@.has_reg(op.source_0.0),
            old(self)@.alloc_ok(
                op.destination.0,
                signed(old(self)@.reg(op.source_0.0).0) as int,
            ),
        ensures
            final(self)@ == old(self)@.after_alloc(
                op.destination.0,
                signed(old(self)@.reg(op.source_0.0).0) as int,
                width_of(op.operation),
            ),
    {
        let width = op.operation.memory_width();
        let offset = self.read_register(op.source_0.0);
        self.allocate_at(op.destination.0, (offset.0 as i64) as i128, width);
    }

    /// Moves `destination` by `immediate` and writes `undefined` to the slot it then names.
    pub fn op_alloci(&mut self, op: InstructionImmediate)
        requires
            old(self)@.alloc_ok(op.destination.0, op.immediate as int),
        ensures
            final(self)@ == old(self)@.after_alloc(
                op.destination.0,
                op.immediate as int,
                width_of(op.operation),
            ),
    {
        let width = op.operation.memory_width();
        self.allocate_at(op.destination.0, op.immediate as i128, width);
    }

    fn enter_frame(&mut self, first: u8, count: u8)
        requires
            old(self)@.call_ok(first, count),
        ensures
            final(self)@ == old(self)@.enter_frame(first, count),
    {
        let ghost s0 = self@;
        let len = self.stack.len();
        let base = self.sp;
        let from = self.fp + first as usize;
        let n = count as usize;
        let saved_ra = Slot(self.ra as u64);
        let saved_fp = Slot(self.fp as u64);
        self.stack.set(base, saved_ra);
        self.stack.set(base + 1, saved_fp);
        let mut i: usize = 0;
        while i < n
            invariant
                0 <= i <= n,
                n == count,
                base == s0.sp,
                from == s0.fp + first,
                from + n <= base,
                base + 2 + n <= len,
                len == s0.stack.len(),
                self.ra == s0.ra,
                self.fp == s0.fp,
                self.sp == s0.sp,
                self.pc == s0.pc,
                self.stack@ == Seq::new(
                    s0.stack.len(),
                    |j: int|
                        if j == base {
                            Slot(s0.ra as u64)
                        } else if j == base + 1 {
                            Slot(s0.fp as u64)
                        } else if base + 2 <= j < base + 2 + i {
                            s0.stack[from + (j - base - 2)]
                        } else {
                            s0.stack[j]
                        },
                ),
            decreases n - i,
        {
            let v = self.stack[from + i];
            self.stack.set(base + 2 + i, v);
            i = i + 1;
            proof {
                assert(self.stack@ =~= Seq::new(
                    s0.stack.len(),
                    |j: int|
                        if j == base {
                            Slot(s0.ra as u64)
                        } else if j == base + 1 {
                            Slot(s0.fp as u64)
                        } else if base + 2 <= j < base + 2 + i {
                            s0.stack[from + (j - base - 2)]
                        } else {
                            s0.stack[j]
                        },
                ));
            }
        }
        self.ra = self.pc + 4;
        self.fp = base + 2;
        self.sp = base + 2 + n;
        proof {
            assert(self@.stack =~= s0.enter_frame(first, count).stack);
        }
    }

    /// Calls a function at a known offset: a new frame takes `destination` arguments from
    /// registers `source_0..`, and control moves by `immediate` instructions.
    pub fn op_calli(&mut self, op: InstructionImmediate)
        requires
            old(self)@.calli_ok(op),
        ensures
            final(self)@ == old(self)@.after_calli(op),
    {
        self.enter_frame(op.source_0.0, op.destination.0);
        self.jump(op.immediate as i128 * 4);
    }

    /// Calls a closure: a new frame takes `source_1` arguments from registers `source_0..`,
    /// and control goes to the address held in `destination`.
    pub fn op_call(&mut self, op: InstructionRegister)
        requires
            old(self)@.call_closure_ok(op),
        ensures
            final(self)@ == old(self)@.after_call(op),
    {
        let target = self.read_register(op.destination.0);
        self.enter_frame(op.source_0.0, op.source_1.0);
        self.pc = target.0 as usize;
    }

    /// Returns from a function: restores the caller's frame and return address, jumps to
    /// the return address, and hands the value of `source_0` to the caller's `destination`.
    pub fn op_return(&mut self, op: InstructionImmediate)
        requires
            old(self)@.return_ok(op),
        ensures
            final(self)@ == old(self)@.after_return(op),
    {
        let value = self.read_register(op.source_0.0);
        let base = self.fp - 2;
        let saved_ra = self.stack[base].0 as usize;
        let saved_fp = self.stack[base + 1].0 as usize;
        self.pc = self.ra;
        self.ra = saved_ra;
        self.fp = saved_fp;
        self.sp = base;
        self.write_register(op.destination.0, value);
    }
    /// Executes one instruction word. The word must decode to an operation the machine
    /// implements, with its registers and targets in range (see `step_ok`); the machine
    /// then moves as `step` says.
    pub fn op(&mut self, ins: Instruction)
        requires
            step_ok(old(self)@, ins),
        ensures
            final(self)@ == step(old(self)@, ins),
    {
        match ins.opcode() {
            Some(Opcode::AddI) => self.op_addi(ins.immediate(Opcode::AddI)),
            Some(Opcode::MulI) => self.op_muli(ins.immediate(Opcode::MulI)),
            Some(Opcode::ModI) => self.op_modi(ins.immediate(Opcode::ModI)),
            Some(Opcode::SltI) => self.op_slti(ins.immediate(Opcode::SltI)),
            Some(Opcode::SltIU) => self.op_sltiu(ins.immediate(Opcode::SltIU)),
            Some(Opcode::AndI) => self.op_andi(ins.immediate(Opcode::AndI)),
            Some(Opcode::OrI) => self.op_ori(ins.immediate(Opcode::OrI)),
            Some(Opcode::XorI) => self.op_xori(ins.immediate(Opcode::XorI)),
            Some(Opcode::SllI) => self.op_slli(ins.immediate(Opcode::SllI)),
            Some(Opcode::SrlI) => self.op_srli(ins.immediate(Opcode::SrlI)),
            Some(Opcode::SraI) => self.op_srai(ins.immediate(Opcode::SraI)),
            Some(Opcode::LuI) => self.op_lui(ins.immediate(Opcode::LuI)),
            Some(Opcode::Add) => self.op_add(ins.register(Opcode::Add)),
            Some(Opcode::Sub) => self.op_sub(ins.register(Opcode::Sub)),
            Some(Opcode::Mul) => self.op_mul(ins.register(Opcode::Mul)),
            Some(Opcode::Div) => self.op_div(ins.register(Opcode::Div)),
            Some(Opcode::Mod) => self.op_mod(ins.register(Opcode::Mod)),
            Some(Opcode::Slt) => self.op_slt(ins.register(Opcode::Slt)),
            Some(Opcode::SltU) => self.op_sltu(ins.register(Opcode::SltU)),
            Some(Opcode::And) => self.op_and(ins.register(Opcode::And)),
            Some(Opcode::Or) => self.op_or(ins.register(Opcode::Or)),
            Some(Opcode::Xor) => self.op_xor(ins.register(Opcode::Xor)),
            Some(Opcode::Sll) => self.op_sll(ins.register(Opcode::Sll)),
            Some(Opcode::Srl) => self.op_srl(ins.register(Opcode::Srl)),
            Some(Opcode::Sra) => self.op_sra(ins.register(Opcode::Sra)),
            Some(Opcode::Jal) => self.op_jal(ins.jump(Opcode::Jal)),
            Some(Opcode::Jalr) => self.op_jalr(ins.immediate(Opcode::Jalr)),
            Some(Opcode::Beq) => self.op_beq(ins.branch(Opcode::Beq)),
            Some(Opcode::Bne) => self.op_bne(ins.branch(Opcode::Bne)),
            Some(Opcode::Blt) => self.op_blt(ins.branch(Opcode::Blt)),
            Some(Opcode::Bge) => self.op_bge(ins.branch(Opcode::Bge)),
            Some(Opcode::Load) => self.op_load(ins.load(Opcode::Load)),
            Some(Opcode::Store) => self.op_store(ins.store(Opcode::Store)),
            Some(Opcode::AllocI) => self.op_alloci(ins.immediate(Opcode::AllocI)),
            Some(Opcode::Alloc) => self.op_alloc(ins.register(Opcode::Alloc)),
            Some(Opcode::CallI) => self.op_calli(ins.immediate(Opcode::CallI)),
            Some(Opcode::Call) => self.op_call(ins.register(Opcode::Call)),
            Some(Opcode::Return) => self.op_return(ins.immediate(Opcode::Return)),
            _ => {},
        }
    }
}

/// A return undoes a call: after a call at a known offset and a return from the new frame,
/// the frame base, stack top and return address are as before the call, control is at the
/// instruction after the call, the caller's `destination` register holds the callee's
/// returned value, and every other slot below the stack top is as before.
pub proof fn law_return_undoes_call(s: VmState, call: InstructionImmediate, ret: InstructionImmediate)
    requires
        s.stack.len() <= usize::MAX,
        s.calli_ok(call),
        s.has_reg(ret.destination.0),
        s.after_calli(call).has_reg(ret.source_0.0),
    ensures
        s.after_calli(call).return_ok(ret),
        s.after_calli(call).after_return(ret).fp == s.fp,
        s.after_calli(call).after_return(ret).sp == s.sp,
        s.after_calli(call).after_return(ret).ra == s.ra,
        s.after_calli(call).after_return(ret).pc == s.pc + 4,
        s.after_calli(call).after_return(ret).reg(ret.destination.0) == s.after_calli(call).reg(
            ret.source_0.0,
        ),
        forall|j: int|
            0 <= j < s.sp && j != s.fp + ret.destination.0 ==> #[trigger] s.after_calli(
                call,
            ).after_return(ret).stack[j] == s.stack[j],
{
    let t = s.after_calli(call);
    assert(t.fp == s.sp + 2);
    assert(t.stack.len() == s.stack.len());
    assert(t.stack[t.fp - 2] == Slot(s.ra as u64));
    assert(t.stack[t.fp - 1] == Slot(s.fp as u64));
}

proof fn lemma_masked_write_read(a: u64, v: u64, m: u64)
    by (bit_vector)
    ensures
        ((a & !m) | (v & m)) & m == v & m,
{
}

/// A load reads back what a store wrote: after storing a register at an address, a load
/// of the same width from that address gives the stored word's low bytes of that width
/// (the whole word when it fits in them); the load changes no other slot.
pub proof fn law_load_after_store(s: VmState, st: InstructionStore, ld: InstructionLoad)
    requires
        s.store_ok(st),
        s.after_store(st).load_ok(ld),
        s.after_store(st).address(ld.base.0, ld.offset as int) == s.address(
            st.base.0,
            st.offset as int,
        ),
        width_of(ld.operation) == width_of(st.operation),
    ensures
        s.after_store(st).after_load(ld).reg(ld.destination.0) == Slot(
            s.reg(st.source.0).0 & width_mask(width_of(st.operation)),
        ),
        forall|a: int|
            0 <= a < s.stack.len() && a != s.fp + ld.destination.0 ==> #[trigger] s.after_store(
                st,
            ).after_load(ld).stack[a] == s.after_store(st).stack[a],
{
    let addr = s.address(st.base.0, st.offset as int);
    let m = width_mask(width_of(st.operation));
    lemma_masked_write_read(s.stack[addr].0, s.reg(st.source.0).0, m);
}

/// What a register-to-register arithmetic or logic instruction computes: the word whose
/// first byte is the operation, with destination, first and second source registers in the
/// next three bytes, leaves the destination holding the result of the operation on the two
/// source words (sums, differences and products wrap around at 2^64; shifts take the low six
/// bits of the amount), and every other slot as it was.
pub proof fn law_register_alu(s: VmState, ins: Instruction)
    requires
        s.has_reg(byte_of(ins.raw, 1)),
        s.has_reg(byte_of(ins.raw, 2)),
        s.has_reg(byte_of(ins.raw, 3)),
        0x10 <= byte_of(ins.raw, 0) <= 0x1D,
        byte_of(ins.raw, 0) != 0x15,
        byte_of(ins.raw, 0) != 0x13,
        byte_of(ins.raw, 0) != 0x14,
    ensures
        ({
            let a = s.reg(byte_of(ins.raw, 2)).0;
            let b = s.reg(byte_of(ins.raw, 3)).0;
            let t = step(s, ins);
            let r = t.reg(byte_of(ins.raw, 1)).0;
            let op = byte_of(ins.raw, 0);
            &&& op == 0x10 ==> r as int == (a + b) % 0x1_0000_0000_0000_0000
            &&& op == 0x11 ==> r as int == (a - b) % 0x1_0000_0000_0000_0000
            &&& op == 0x12 ==> r as int == (a * b) % 0x1_0000_0000_0000_0000
            &&& op == 0x16 ==> r == (if (a as i64) < (b as i64) { 1u64 } else { 0u64 })
            &&& op == 0x17 ==> r == (if a < b { 1u64 } else { 0u64 })
            &&& op == 0x18 ==> r == a & b
            &&& op == 0x19 ==> r == a | b
            &&& op == 0x1A ==> r == a ^ b
            &&& op == 0x1B ==> r == a << (b & 63u64)
            &&& op == 0x1C ==> r == a >> (b & 63u64)
            &&& op == 0x1D ==> r == ((a as i64) >> (b & 63u64)) as u64
            &&& t.stack.len() == s.stack.len()
            &&& t.pc == s.pc
            &&& forall|k: int|
                0 <= k < s.stack.len() && k != s.fp + byte_of(ins.raw, 1) ==> #[trigger] t.stack[k]
                    == s.stack[k]
        }),
{
}

/// What a register-and-immediate arithmetic or logic instruction computes: the last byte,
/// read as a signed number and widened to a word, takes the place of the second source
/// register.
pub proof fn law_immediate_alu(s: VmState, ins: Instruction)
    requires
        s.has_reg(byte_of(ins.raw, 1)),
        s.has_reg(byte_of(ins.raw, 2)),
        byte_of(ins.raw, 0) <= 0x0D,
        byte_of(ins.raw, 0) != 0x01,
        byte_of(ins.raw, 0) != 0x03,
        byte_of(ins.raw, 0) != 0x04,
        byte_of(ins.raw, 0) != 0x05,
    ensures
        ({
            let a = s.reg(byte_of(ins.raw, 2)).0;
            let b = ((byte_of(ins.raw, 3) as i8) as i64) as u64;
            let t = step(s, ins);
            let r = t.reg(byte_of(ins.raw, 1)).0;
            let op = byte_of(ins.raw, 0);
            &&& op == 0x00 ==> r as int == (a + b) % 0x1_0000_0000_0000_0000
            &&& op == 0x02 ==> r as int == (a * b) % 0x1_0000_0000_0000_0000
            &&& op == 0x06 ==> r == (if (a as i64) < (b as i64) { 1u64 } else { 0u64 })
            &&& op == 0x07 ==> r == (if a < b { 1u64 } else { 0u64 })
            &&& op == 0x08 ==> r == a & b
            &&& op == 0x09 ==> r == a | b
            &&& op == 0x0A ==> r == a ^ b
            &&& op == 0x0B ==> r == a << (b & 63u64)
            &&& op == 0x0C ==> r == a >> (b & 63u64)
            &&& op == 0x0D ==> r == ((a as i64) >> (b & 63u64)) as u64
            &&& forall|k: int|
                0 <= k < s.stack.len() && k != s.fp + byte_of(ins.raw, 1) ==> #[trigger] t.stack[k]
                    == s.stack[k]
        }),
{
}

} // verus!
