use vstd::prelude::*;

verus! {

/// The implemented instruction set. Instructions that differ only in a constant
/// or a local index carry it; the typed loads, stores and value returns share one
/// variant each.
#[allow(non_camel_case_types)]
#[derive(Debug, Clone, Copy, PartialEq, Eq, Structural)]
pub enum Opcodes {
    NOP,
    /// iconst_m1 to iconst_5.
    ICONST(i32),
    /// lconst_0 and lconst_1.
    LCONST(i64),
    BIPUSH,
    LDC,
    LDC2_W,
    /// iload_n, dload_n and aload_n.
    LOAD(u8),
    IALOAD,
    /// istore_n and astore_n.
    STORE(u8),
    IASTORE,
    POP,
    POP2,
    DUP,
    IADD,
    DADD,
    ISUB,
    DSUB,
    IFGE,
    IF_ICMPNE,
    /// ireturn, lreturn, freturn, dreturn and areturn.
    VRETURN,
    RETURN,
    GETSTATIC,
    PUTSTATIC,
    GETFIELD,
    PUTFIELD,
    INVOKEVIRTUAL,
    INVOKESPECIAL,
    INVOKESTATIC,
    NEW,
    NEWARRAY,
}

/// The instruction that opcode byte `b` stands for, if it is implemented.
pub open spec fn decode_opcode(b: u8) -> Option<Opcodes> {
    if b == 0x00 {
        Some(Opcodes::NOP)
    } else if 0x02 <= b <= 0x08 {
        Some(Opcodes::ICONST((b as i32 - 3) as i32))
    } else if 0x09 <= b <= 0x0a {
        Some(Opcodes::LCONST((b as i64 - 9) as i64))
    } else if b == 0x10 {
        Some(Opcodes::BIPUSH)
    } else if b == 0x12 {
        Some(Opcodes::LDC)
    } else if b == 0x14 {
        Some(Opcodes::LDC2_W)
    } else if 0x1a <= b <= 0x1d {
        Some(Opcodes::LOAD((b - 0x1a) as u8))
    } else if 0x26 <= b <= 0x29 {
        Some(Opcodes::LOAD((b - 0x26) as u8))
    } else if 0x2a <= b <= 0x2d {
        Some(Opcodes::LOAD((b - 0x2a) as u8))
    } else if b == 0x2e {
        Some(Opcodes::IALOAD)
    } else if 0x3b <= b <= 0x3e {
        Some(Opcodes::STORE((b - 0x3b) as u8))
    } else if 0x4b <= b <= 0x4e {
        Some(Opcodes::STORE((b - 0x4b) as u8))
    } else if b == 0x4f {
        Some(Opcodes::IASTORE)
    } else if b == 0x57 {
        Some(Opcodes::POP)
    } else if b == 0x58 {
        Some(Opcodes::POP2)
    } else if b == 0x59 {
        Some(Opcodes::DUP)
    } else if b == 0x60 {
        Some(Opcodes::IADD)
    } else if b == 0x63 {
        Some(Opcodes::DADD)
    } else if b == 0x64 {
        Some(Opcodes::ISUB)
    } else if b == 0x67 {
        Some(Opcodes::DSUB)
    } else if b == 0x9c {
        Some(Opcodes::IFGE)
    } else if b == 0xa0 {
        Some(Opcodes::IF_ICMPNE)
    } else if 0xac <= b <= 0xb0 {
        Some(Opcodes::VRETURN)
    } else if b == 0xb1 {
        Some(Opcodes::RETURN)
    } else if b == 0xb2 {
        Some(Opcodes::GETSTATIC)
    } else if b == 0xb3 {
        Some(Opcodes::PUTSTATIC)
    } else if b == 0xb4 {
        Some(Opcodes::GETFIELD)
    } else if b == 0xb5 {
        Some(Opcodes::PUTFIELD)
    } else if b == 0xb6 {
        Some(Opcodes::INVOKEVIRTUAL)
    } else if b == 0xb7 {
        Some(Opcodes::INVOKESPECIAL)
    } else if b == 0xb8 {
        Some(Opcodes::INVOKESTATIC)
    } else if b == 0xbb {
        Some(Opcodes::NEW)
    } else if b == 0xbc {
        Some(Opcodes::NEWARRAY)
    } else {
        None
    }
}

impl Opcodes {
    /// Decodes an opcode byte.
    pub fn from_u8(b: u8) -> (r: Option<Opcodes>)
        ensures
            r == decode_opcode(b),
    {
        if b == 0x00 {
            Some(Opcodes::NOP)
        } else if 0x02 <= b && b <= 0x08 {
            Some(Opcodes::ICONST(b as i32 - 3))
        } else if 0x09 <= b && b <= 0x0a {
            Some(Opcodes::LCONST(b as i64 - 9))
        } else if b == 0x10 {
            Some(Opcodes::BIPUSH)
        } else if b == 0x12 {
            Some(Opcodes::LDC)
        } else if b == 0x14 {
            Some(Opcodes::LDC2_W)
        } else if 0x1a <= b && b <= 0x1d {
            Some(Opcodes::LOAD(b - 0x1a))
        } else if 0x26 <= b && b <= 0x29 {
            Some(Opcodes::LOAD(b - 0x26))
        } else if 0x2a <= b && b <= 0x2d {
            Some(Opcodes::LOAD(b - 0x2a))
        } else if b == 0x2e {
            Some(Opcodes::IALOAD)
        } else if 0x3b <= b && b <= 0x3e {
            Some(Opcodes::STORE(b - 0x3b))
        } else if 0x4b <= b && b <= 0x4e {
            Some(Opcodes::STORE(b - 0x4b))
        } else if b == 0x4f {
            Some(Opcodes::IASTORE)
        } else if b == 0x57 {
            Some(Opcodes::POP)
        } else if b == 0x58 {
            Some(Opcodes::POP2)
        } else if b == 0x59 {
            Some(Opcodes::DUP)
        } else if b == 0x60 {
            Some(Opcodes::IADD)
        } else if b == 0x63 {
            Some(Opcodes::DADD)
        } else if b == 0x64 {
            Some(Opcodes::ISUB)
        } else if b == 0x67 {
            Some(Opcodes::DSUB)
        } else if b == 0x9c {
            Some(Opcodes::IFGE)
        } else if b == 0xa0 {
            Some(Opcodes::IF_ICMPNE)
        } else if 0xac <= b && b <= 0xb0 {
            Some(Opcodes::VRETURN)
        } else if b == 0xb1 {
            Some(Opcodes::RETURN)
        } else if b == 0xb2 {
            Some(Opcodes::GETSTATIC)
        } else if b == 0xb3 {
            Some(Opcodes::PUTSTATIC)
        } else if b == 0xb4 {
            Some(Opcodes::GETFIELD)
        } else if b == 0xb5 {
            Some(Opcodes::PUTFIELD)
        } else if b == 0xb6 {
            Some(Opcodes::INVOKEVIRTUAL)
        } else if b == 0xb7 {
            Some(Opcodes::INVOKESPECIAL)
        } else if b == 0xb8 {
            Some(Opcodes::INVOKESTATIC)
        } else if b == 0xbb {
            Some(Opcodes::NEW)
        } else if b == 0xbc {
            Some(Opcodes::NEWARRAY)
        } else {
            None
        }
    }
}

} // verus!
