use vstd::prelude::*;

verus! {

/// A register: an index into the current frame.
#[derive(Debug, PartialEq, Eq, Clone, Copy, Structural)]
pub struct Register(pub u8);

/// The operations of the machine. The top two bits of a code are reserved for a type hint
/// (arithmetic) or a width (memory); the codes below leave them zero.
#[derive(Debug, PartialEq, Eq, Clone, Copy, Structural)]
pub enum Opcode {
    AddI,
    MulI,
    ModI,
    SltI,
    SltIU,
    AndI,
    OrI,
    XorI,
    SllI,
    SrlI,
    SraI,
    LuI,
    Add,
    Sub,
    Mul,
    Div,
    Mod,
    Pow,
    Slt,
    SltU,
    And,
    Or,
    Xor,
    Sll,
    Srl,
    Sra,
    Jal,
    Jalr,
    Beq,
    Bne,
    Blt,
    Bge,
    Throw,
    Catch,
    LoadI,
    StoreI,
    AllocI,
    Load,
    Store,
    Alloc,
    GetPropertyI,
    SetPropertyI,
    CallI,
    AwaitCallI,
    GetProperty,
    SetProperty,
    Call,
    AwaitCall,
    Return,
    Unwind,
    /// Reserved; it shares its code with `SetProperty`, which decoding prefers.
    Eval,
}

/// The byte that encodes each operation.
pub open spec fn opcode_code(op: Opcode) -> u8 {
    match op {
        Opcode::AddI => 0x00,
        Opcode::MulI => 0x02,
        Opcode::ModI => 0x04,
        Opcode::SltI => 0x06,
        Opcode::SltIU => 0x07,
        Opcode::AndI => 0x08,
        Opcode::OrI => 0x09,
        Opcode::XorI => 0x0A,
        Opcode::SllI => 0x0B,
        Opcode::SrlI => 0x0C,
        Opcode::SraI => 0x0D,
        Opcode::LuI => 0x0F,
        Opcode::Add => 0x10,
        Opcode::Sub => 0x11,
        Opcode::Mul => 0x12,
        Opcode::Div => 0x13,
        Opcode::Mod => 0x14,
        Opcode::Pow => 0x15,
        Opcode::Slt => 0x16,
        Opcode::SltU => 0x17,
        Opcode::And => 0x18,
        Opcode::Or => 0x19,
        Opcode::Xor => 0x1A,
        Opcode::Sll => 0x1B,
        Opcode::Srl => 0x1C,
        Opcode::Sra => 0x1D,
        Opcode::Jal => 0x20,
        Opcode::Jalr => 0x21,
        Opcode::Beq => 0x22,
        Opcode::Bne => 0x23,
        Opcode::Blt => 0x24,
        Opcode::Bge => 0x25,
        Opcode::Throw => 0x26,
        Opcode::Catch => 0x27,
        Opcode::LoadI => 0x28,
        Opcode::StoreI => 0x29,
        Opcode::AllocI => 0x2A,
        Opcode::Load => 0x2C,
        Opcode::Store => 0x2D,
        Opcode::Alloc => 0x2E,
        Opcode::GetPropertyI => 0x30,
        Opcode::SetPropertyI => 0x31,
        Opcode::CallI => 0x32,
        Opcode::AwaitCallI => 0x33,
        Opcode::GetProperty => 0x34,
        Opcode::SetProperty => 0x35,
        Opcode::Call => 0x36,
        Opcode::AwaitCall => 0x37,
        Opcode::Return => 0x38,
        Opcode::Unwind => 0x39,
        Opcode::Eval => 0x35,
    }
}

/// The operation a byte encodes, if any; of two operations sharing a byte, the first declared.
pub open spec fn opcode_of(b: u8) -> Option<Opcode> {
    match b {
        0x00u8 => Some(Opcode::AddI),
        0x02u8 => Some(Opcode::MulI),
        0x04u8 => Some(Opcode::ModI),
        0x06u8 => Some(Opcode::SltI),
        0x07u8 => Some(Opcode::SltIU),
        0x08u8 => Some(Opcode::AndI),
        0x09u8 => Some(Opcode::OrI),
        0x0Au8 => Some(Opcode::XorI),
        0x0Bu8 => Some(Opcode::SllI),
        0x0Cu8 => Some(Opcode::SrlI),
        0x0Du8 => Some(Opcode::SraI),
        0x0Fu8 => Some(Opcode::LuI),
        0x10u8 => Some(Opcode::Add),
        0x11u8 => Some(Opcode::Sub),
        0x12u8 => Some(Opcode::Mul),
        0x13u8 => Some(Opcode::Div),
        0x14u8 => Some(Opcode::Mod),
        0x15u8 => Some(Opcode::Pow),
        0x16u8 => Some(Opcode::Slt),
        0x17u8 => Some(Opcode::SltU),
        0x18u8 => Some(Opcode::And),
        0x19u8 => Some(Opcode::Or),
        0x1Au8 => Some(Opcode::Xor),
        0x1Bu8 => Some(Opcode::Sll),
        0x1Cu8 => Some(Opcode::Srl),
        0x1Du8 => Some(Opcode::Sra),
        0x20u8 => Some(Opcode::Jal),
        0x21u8 => Some(Opcode::Jalr),
        0x22u8 => Some(Opcode::Beq),
        0x23u8 => Some(Opcode::Bne),
        0x24u8 => Some(Opcode::Blt),
        0x25u8 => Some(Opcode::Bge),
        0x26u8 => Some(Opcode::Throw),
        0x27u8 => Some(Opcode::Catch),
        0x28u8 => Some(Opcode::LoadI),
        0x29u8 => Some(Opcode::StoreI),
        0x2Au8 => Some(Opcode::AllocI),
        0x2Cu8 => Some(Opcode::Load),
        0x2Du8 => Some(Opcode::Store),
        0x2Eu8 => Some(Opcode::Alloc),
        0x30u8 => Some(Opcode::GetPropertyI),
        0x31u8 => Some(Opcode::SetPropertyI),
        0x32u8 => Some(Opcode::CallI),
        0x33u8 => Some(Opcode::AwaitCallI),
        0x34u8 => Some(Opcode::GetProperty),
        0x35u8 => Some(Opcode::SetProperty),
        0x36u8 => Some(Opcode::Call),
        0x37u8 => Some(Opcode::AwaitCall),
        0x38u8 => Some(Opcode::Return),
        0x39u8 => Some(Opcode::Unwind),
        _ => None,
    }
}

/// Decoding gives back every operation but `Eval`, and every operation decoded encodes back
/// to its byte.
pub proof fn law_opcode_roundtrip(op: Opcode, b: u8)
    ensures
        op != Opcode::Eval ==> opcode_of(opcode_code(op)) == Some(op),
        opcode_of(b) matches Some(d) ==> opcode_code(d) == b,
{
}

impl Opcode {
    /// The byte that encodes this operation.
    pub fn code(&self) -> (r: u8)
        ensures
            r == opcode_code(*self),
    {
        match self {
            Opcode::AddI => 0x00,
            Opcode::MulI => 0x02,
            Opcode::ModI => 0x04,
            Opcode::SltI => 0x06,
            Opcode::SltIU => 0x07,
            Opcode::AndI => 0x08,
            Opcode::OrI => 0x09,
            Opcode::XorI => 0x0A,
            Opcode::SllI => 0x0B,
            Opcode::SrlI => 0x0C,
            Opcode::SraI => 0x0D,
            Opcode::LuI => 0x0F,
            Opcode::Add => 0x10,
            Opcode::Sub => 0x11,
            Opcode::Mul => 0x12,
            Opcode::Div => 0x13,
            Opcode::Mod => 0x14,
            Opcode::Pow => 0x15,
            Opcode::Slt => 0x16,
            Opcode::SltU => 0x17,
            Opcode::And => 0x18,
            Opcode::Or => 0x19,
            Opcode::Xor => 0x1A,
            Opcode::Sll => 0x1B,
            Opcode::Srl => 0x1C,
            Opcode::Sra => 0x1D,
            Opcode::Jal => 0x20,
            Opcode::Jalr => 0x21,
            Opcode::Beq => 0x22,
            Opcode::Bne => 0x23,
            Opcode::Blt => 0x24,
            Opcode::Bge => 0x25,
            Opcode::Throw => 0x26,
            Opcode::Catch => 0x27,
            Opcode::LoadI => 0x28,
            Opcode::StoreI => 0x29,
            Opcode::AllocI => 0x2A,
            Opcode::Load => 0x2C,
            Opcode::Store => 0x2D,
            Opcode::Alloc => 0x2E,
            Opcode::GetPropertyI => 0x30,
            Opcode::SetPropertyI => 0x31,
            Opcode::CallI => 0x32,
            Opcode::AwaitCallI => 0x33,
            Opcode::GetProperty => 0x34,
            Opcode::SetProperty => 0x35,
            Opcode::Call => 0x36,
            Opcode::AwaitCall => 0x37,
            Opcode::Return => 0x38,
            Opcode::Unwind => 0x39,
            Opcode::Eval => 0x35,
        }
    }

    /// The operation a byte encodes; `None` for bytes no operation uses.
    pub fn from_code(b: u8) -> (r: Option<Opcode>)
        ensures
            r == opcode_of(b),
            r matches Some(op) ==> opcode_code(op) == b,
    {
        match b {
            0x00u8 => Some(Opcode::AddI),
            0x02u8 => Some(Opcode::MulI),
            0x04u8 => Some(Opcode::ModI),
            0x06u8 => Some(Opcode::SltI),
            0x07u8 => Some(Opcode::SltIU),
            0x08u8 => Some(Opcode::AndI),
            0x09u8 => Some(Opcode::OrI),
            0x0Au8 => Some(Opcode::XorI),
            0x0Bu8 => Some(Opcode::SllI),
            0x0Cu8 => Some(Opcode::SrlI),
            0x0Du8 => Some(Opcode::SraI),
            0x0Fu8 => Some(Opcode::LuI),
            0x10u8 => Some(Opcode::Add),
            0x11u8 => Some(Opcode::Sub),
            0x12u8 => Some(Opcode::Mul),
            0x13u8 => Some(Opcode::Div),
            0x14u8 => Some(Opcode::Mod),
            0x15u8 => Some(Opcode::Pow),
            0x16u8 => Some(Opcode::Slt),
            0x17u8 => Some(Opcode::SltU),
            0x18u8 => Some(Opcode::And),
            0x19u8 => Some(Opcode::Or),
            0x1Au8 => Some(Opcode::Xor),
            0x1Bu8 => Some(Opcode::Sll),
            0x1Cu8 => Some(Opcode::Srl),
            0x1Du8 => Some(Opcode::Sra),
            0x20u8 => Some(Opcode::Jal),
            0x21u8 => Some(Opcode::Jalr),
            0x22u8 => Some(Opcode::Beq),
            0x23u8 => Some(Opcode::Bne),
            0x24u8 => Some(Opcode::Blt),
            0x25u8 => Some(Opcode::Bge),
            0x26u8 => Some(Opcode::Throw),
            0x27u8 => Some(Opcode::Catch),
            0x28u8 => Some(Opcode::LoadI),
            0x29u8 => Some(Opcode::StoreI),
            0x2Au8 => Some(Opcode::AllocI),
            0x2Cu8 => Some(Opcode::Load),
            0x2Du8 => Some(Opcode::Store),
            0x2Eu8 => Some(Opcode::Alloc),
            0x30u8 => Some(Opcode::GetPropertyI),
            0x31u8 => Some(Opcode::SetPropertyI),
            0x32u8 => Some(Opcode::CallI),
            0x33u8 => Some(Opcode::AwaitCallI),
            0x34u8 => Some(Opcode::GetProperty),
            0x35u8 => Some(Opcode::SetProperty),
            0x36u8 => Some(Opcode::Call),
            0x37u8 => Some(Opcode::AwaitCall),
            0x38u8 => Some(Opcode::Return),
            0x39u8 => Some(Opcode::Unwind),
            _ => None,
        }
    }

    /// The type hint: the top two bits of the code.
    pub fn type_hint(self) -> (r: u8)
        ensures
            r == opcode_code(self) / 64,
    {
        self.code() / 64
    }

    /// The width in bytes of a memory operation: two to the power of the top two bits.
    pub fn memory_width(self) -> (r: usize)
        ensures
            r == (if opcode_code(self) / 64 == 0 {
                1usize
            } else if opcode_code(self) / 64 == 1 {
                2usize
            } else if opcode_code(self) / 64 == 2 {
                4usize
            } else {
                8usize
            }),
    {
        let hint = self.code() / 64;
        if hint == 0 {
            1
        } else if hint == 1 {
            2
        } else if hint == 2 {
            4
        } else {
            8
        }
    }
}

/// A raw 32-bit instruction word, read in little-endian byte order.
#[derive(Debug, PartialEq, Eq, Clone, Copy, Structural)]
pub struct Instruction {
    pub raw: u32,
}

/// Byte `k` (0 is the lowest) of an instruction word.
pub open spec fn byte_of(raw: u32, k: int) -> u8 {
    if k == 0 {
        (raw % 256) as u8
    } else if k == 1 {
        ((raw / 256) % 256) as u8
    } else if k == 2 {
        ((raw / 65536) % 256) as u8
    } else {
        (raw / 16777216) as u8
    }
}

/// Any instruction: its operation byte and three bytes not yet interpreted.
#[derive(Debug, PartialEq, Eq, Clone, Copy, Structural)]
pub struct InstructionUntyped {
    pub operation: u8,
    pub field_0: u8,
    pub field_1: u8,
    pub field_2: u8,
}

/// `destination = source_0 (op) source_1`.
#[derive(Debug, PartialEq, Eq, Clone, Copy, Structural)]
pub struct InstructionRegister {
    pub operation: Opcode,
    pub destination: Register,
    pub source_0: Register,
    pub source_1: Register,
}

/// `destination = source_0 (op) immediate`.
#[derive(Debug, PartialEq, Eq, Clone, Copy, Structural)]
pub struct InstructionImmediate {
    pub operation: Opcode,
    pub destination: Register,
    pub source_0: Register,
    pub immediate: i8,
}

/// A register with a 16-bit immediate, kept as its two bytes.
#[derive(Debug, PartialEq, Eq, Clone, Copy, Structural)]
pub struct InstructionUpdate {
    pub operation: Opcode,
    pub destination: Register,
    pub immediate_0: u8,
    pub immediate_1: u8,
}

/// A jump: the return address goes to `destination`, and the offset counts instructions.
#[derive(Debug, PartialEq, Eq, Clone, Copy, Structural)]
pub struct InstructionJump {
    pub operation: Opcode,
    pub destination: Register,
    pub immediate: i16,
}

/// A conditional jump on two registers; the offset counts instructions.
#[derive(Debug, PartialEq, Eq, Clone, Copy, Structural)]
pub struct InstructionBranch {
    pub operation: Opcode,
    pub source_0: Register,
    pub source_1: Register,
    pub immediate: i16,
}

/// A load of `destination` from `base + offset`.
#[derive(Debug, PartialEq, Eq, Clone, Copy, Structural)]
pub struct InstructionLoad {
    pub operation: Opcode,
    pub destination: Register,
    pub base: Register,
    pub offset: i8,
}

/// A store of `source` to `base + offset`; the operation carries the width.
#[derive(Debug, PartialEq, Eq, Clone, Copy, Structural)]
pub struct InstructionStore {
    pub operation: Opcode,
    pub source: Register,
    pub base: Register,
    pub offset: i8,
}

/// The 16-bit immediate in the upper half of an instruction word.
pub open spec fn upper_i16(raw: u32) -> i16 {
    ((raw / 65536) as u16) as i16
}

impl Instruction {
    /// The operation byte and the three other bytes.
    pub fn untyped(&self) -> (r: InstructionUntyped)
        ensures
            r.operation == byte_of(self.raw, 0),
            r.field_0 == byte_of(self.raw, 1),
            r.field_1 == byte_of(self.raw, 2),
            r.field_2 == byte_of(self.raw, 3),
    {
        InstructionUntyped {
            operation: (self.raw % 256) as u8,
            field_0: ((self.raw / 256) % 256) as u8,
            field_1: ((self.raw / 65536) % 256) as u8,
            field_2: (self.raw / 16777216) as u8,
        }
    }

    /// The operation this word encodes, if any.
    pub fn opcode(&self) -> (r: Option<Opcode>)
        ensures
            r == opcode_of(byte_of(self.raw, 0)),
    {
        Opcode::from_code((self.raw % 256) as u8)
    }

    pub fn register(&self, operation: Opcode) -> (r: InstructionRegister)
        ensures
            r.operation == operation,
            r.destination.0 == byte_of(self.raw, 1),
            r.source_0.0 == byte_of(self.raw, 2),
            r.source_1.0 == byte_of(self.raw, 3),
    {
        let u = self.untyped();
        InstructionRegister {
            operation,
            destination: Register(u.field_0),
            source_0: Register(u.field_1),
            source_1: Register(u.field_2),
        }
    }

    pub fn immediate(&self, operation: Opcode) -> (r: InstructionImmediate)
        ensures
            r.operation == operation,
            r.destination.0 == byte_of(self.raw, 1),
            r.source_0.0 == byte_of(self.raw, 2),
            r.immediate == byte_of(self.raw, 3) as i8,
    {
        let u = self.untyped();
        InstructionImmediate {
            operation,
            destination: Register(u.field_0),
            source_0: Register(u.field_1),
            immediate: u.field_2 as i8,
        }
    }

    pub fn update(&self, operation: Opcode) -> (r: InstructionUpdate)
        ensures
            r.operation == operation,
            r.destination.0 == byte_of(self.raw, 1),
            r.immediate_0 == byte_of(self.raw, 2),
            r.immediate_1 == byte_of(self.raw, 3),
    {
        let u = self.untyped();
        InstructionUpdate {
            operation,
            destination: Register(u.field_0),
            immediate_0: u.field_1,
            immediate_1: u.field_2,
        }
    }

    pub fn jump(&self, operation: Opcode) -> (r: InstructionJump)
        ensures
            r.operation == operation,
            r.destination.0 == byte_of(self.raw, 1),
            r.immediate == upper_i16(self.raw),
    {
        let u = self.untyped();
        InstructionJump {
            operation,
            destination: Register(u.field_0),
            immediate: ((self.raw / 65536) as u16) as i16,
        }
    }

    /// The two registers are the middle bytes; the offset is the last byte, sign-extended
    /// (the word has no room for a 16-bit offset after three bytes).
    pub fn branch(&self, operation: Opcode) -> (r: InstructionBranch)
        ensures
            r.operation == operation,
            r.source_0.0 == byte_of(self.raw, 1),
            r.source_1.0 == byte_of(self.raw, 2),
            r.immediate == (byte_of(self.raw, 3) as i8) as i16,
    {
        let u = self.untyped();
        InstructionBranch {
            operation,
            source_0: Register(u.field_0),
            source_1: Register(u.field_1),
            immediate: (u.field_2 as i8) as i16,
        }
    }

    pub fn load(&self, operation: Opcode) -> (r: InstructionLoad)
        ensures
            r.operation == operation,
            r.destination.0 == byte_of(self.raw, 1),
            r.base.0 == byte_of(self.raw, 2),
            r.offset == byte_of(self.raw, 3) as i8,
    {
        let u = self.untyped();
        InstructionLoad {
            operation,
            destination: Register(u.field_0),
            base: Register(u.field_1),
            offset: u.field_2 as i8,
        }
    }

    pub fn store(&self, operation: Opcode) -> (r: InstructionStore)
        ensures
            r.operation == operation,
            r.source.0 == byte_of(self.raw, 1),
            r.base.0 == byte_of(self.raw, 2),
            r.offset == byte_of(self.raw, 3) as i8,
    {
        let u = self.untyped();
        InstructionStore {
            operation,
            source: Register(u.field_0),
            base: Register(u.field_1),
            offset: u.field_2 as i8,
        }
    }
}

} // verus!
