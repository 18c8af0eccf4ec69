//! What one instruction does to a frame, for the instructions that need neither
//! the class registry nor the host.
use crate::format::be16;
use crate::opcodes::{decode_opcode, Opcodes};
use crate::types::{array_type_of, pool_entry, Const, Types, VmError};
use vstd::prelude::*;

verus! {

/// The mutable part of a frame.
pub struct FrameState {
    pub ip: int,
    pub locals: Seq<Types>,
    pub stack: Seq<Types>,
    pub arrays: Seq<Seq<Types>>,
}

/// The outcome of one instruction.
pub enum Step {
    /// Go on from this state.
    Next(FrameState),
    /// The method returned this value.
    Done(Types),
    /// The method failed.
    Fail(VmError),
}

impl FrameState {
    pub open spec fn goto(self, ip: int) -> FrameState {
        FrameState { ip, ..self }
    }

    /// Pushes `v` and moves to `ip`.
    pub open spec fn push_to(self, v: Types, ip: int) -> Step {
        Step::Next(FrameState { ip, stack: self.stack.push(v), ..self })
    }

    /// Drops the top `n` values, pushes `v` and moves to `ip`.
    pub open spec fn replace_to(self, n: int, v: Types, ip: int) -> Step {
        Step::Next(
            FrameState { ip, stack: self.stack.subrange(0, self.stack.len() - n).push(v), ..self },
        )
    }

    /// The value `k` places below the top of the stack.
    pub open spec fn peek(self, k: int) -> Types {
        self.stack[self.stack.len() - 1 - k]
    }
}

pub open spec fn code_at(code: Seq<u8>, i: int) -> Option<u8> {
    if 0 <= i < code.len() {
        Some(code[i])
    } else {
        None
    }
}

/// The u16 operand that follows the opcode at `ip`.
pub open spec fn operand16(code: Seq<u8>, ip: int) -> Option<u16> {
    if 0 <= ip && ip + 2 < code.len() {
        Some(be16(code[ip + 1], code[ip + 2]))
    } else {
        None
    }
}

/// A branch at `ip` by `offset`: the target must lie within the code.
pub open spec fn branch(code: Seq<u8>, st: FrameState, taken: bool, offset: u16) -> Step {
    let target = st.ip + (offset as i16) as int;
    if !taken {
        Step::Next(st.goto(st.ip + 3))
    } else if 0 <= target < code.len() {
        Step::Next(st.goto(target))
    } else {
        Step::Fail(VmError::ClassFormatError)
    }
}

/// The array element that `arr` and `idx` address, if they are an array handle and
/// an index within it.
pub open spec fn element_ok(arrays: Seq<Seq<Types>>, arr: Types, idx: Types) -> bool {
    match (arr, idx) {
        (Types::Array(h, _), Types::Int(i)) => h < arrays.len() && 0 <= i < arrays[h as int].len(),
        _ => false,
    }
}

/// What `ldc` pushes for pool entry `idx`; `None` for a class entry, which needs
/// the registry.
pub open spec fn ldc_value(pool: Seq<Const>, idx: int) -> Option<Result<Types, VmError>> {
    match pool_entry(pool, idx) {
        Some(Const::Str(s)) => Some(Ok(Types::Str(s))),
        Some(Const::Int(i)) => Some(Ok(Types::Int(i))),
        Some(Const::Float(f)) => Some(Ok(Types::Float(f))),
        Some(Const::StrIndex(j)) => match pool_entry(pool, j as int) {
            Some(Const::Str(s)) => Some(Ok(Types::Str(s))),
            _ => Some(Err(VmError::ConstantPoolError)),
        },
        Some(Const::Class(_)) => None,
        _ => Some(Err(VmError::ConstantPoolError)),
    }
}

/// What `ldc2_w` pushes for pool entry `idx`.
pub open spec fn ldc2_value(pool: Seq<Const>, idx: int) -> Result<Types, VmError> {
    match pool_entry(pool, idx) {
        Some(Const::Double(d)) => Ok(Types::Double(d)),
        Some(Const::Long(l)) => Ok(Types::Long(l)),
        _ => Err(VmError::ConstantPoolError),
    }
}

/// The effect of instruction `op` at `st.ip`; `None` for the instructions that need
/// the registry or the host.
pub open spec fn op_step(code: Seq<u8>, pool: Seq<Const>, st: FrameState, op: Opcodes) -> Option<Step> {
    let ip = st.ip;
    let n = st.stack.len();
    match op {
        Opcodes::NOP => Some(Step::Next(st.goto(ip + 1))),
        Opcodes::ICONST(v) => Some(st.push_to(Types::Int(v), ip + 1)),
        Opcodes::LCONST(v) => Some(st.push_to(Types::Long(v), ip + 1)),
        Opcodes::BIPUSH => Some(
            match code_at(code, ip + 1) {
                Some(b) => st.push_to(Types::Int((b as i8) as i32), ip + 2),
                None => Step::Fail(VmError::ClassFormatError),
            },
        ),
        Opcodes::LDC => match code_at(code, ip + 1) {
            Some(i) => match ldc_value(pool, i as int) {
                Some(Ok(v)) => Some(st.push_to(v, ip + 2)),
                Some(Err(e)) => Some(Step::Fail(e)),
                None => None,
            },
            None => Some(Step::Fail(VmError::ClassFormatError)),
        },
        Opcodes::LDC2_W => Some(
            match operand16(code, ip) {
                Some(i) => match ldc2_value(pool, i as int) {
                    Ok(v) => st.push_to(v, ip + 3),
                    Err(e) => Step::Fail(e),
                },
                None => Step::Fail(VmError::ClassFormatError),
            },
        ),
        Opcodes::LOAD(k) => Some(
            if (k as int) < st.locals.len() {
                st.push_to(st.locals[k as int], ip + 1)
            } else {
                Step::Fail(VmError::StackUnderflow)
            },
        ),
        Opcodes::STORE(k) => Some(
            if n < 1 || (k as int) >= st.locals.len() {
                Step::Fail(VmError::StackUnderflow)
            } else {
                Step::Next(
                    FrameState {
                        ip: ip + 1,
                        locals: st.locals.update(k as int, st.peek(0)),
                        stack: st.stack.drop_last(),
                        ..st
                    },
                )
            },
        ),
        Opcodes::IALOAD => Some(
            if n < 1 {
                Step::Fail(VmError::StackUnderflow)
            } else if !(st.peek(0) is Int) {
                Step::Fail(VmError::TypeMismatch)
            } else if n < 2 {
                Step::Fail(VmError::StackUnderflow)
            } else if !(st.peek(1) is Array) {
                Step::Fail(VmError::TypeMismatch)
            } else if !element_ok(st.arrays, st.peek(1), st.peek(0)) {
                Step::Fail(VmError::ArrayIndexOutOfBounds)
            } else {
                st.replace_to(
                    2,
                    st.arrays[st.peek(1)->Array_0 as int][st.peek(0)->Int_0 as int],
                    ip + 1,
                )
            },
        ),
        Opcodes::IASTORE => Some(
            if n < 1 {
                Step::Fail(VmError::StackUnderflow)
            } else if n < 2 {
                Step::Fail(VmError::StackUnderflow)
            } else if !(st.peek(1) is Int) {
                Step::Fail(VmError::TypeMismatch)
            } else if n < 3 {
                Step::Fail(VmError::StackUnderflow)
            } else if !(st.peek(2) is Array) {
                Step::Fail(VmError::TypeMismatch)
            } else if !element_ok(st.arrays, st.peek(2), st.peek(1)) {
                Step::Fail(VmError::ArrayIndexOutOfBounds)
            } else {
                let h = st.peek(2)->Array_0 as int;
                let i = st.peek(1)->Int_0 as int;
                Step::Next(
                    FrameState {
                        ip: ip + 1,
                        stack: st.stack.subrange(0, n - 3),
                        arrays: st.arrays.update(h, st.arrays[h].update(i, st.peek(0))),
                        ..st
                    },
                )
            },
        ),
        Opcodes::POP => Some(
            if n < 1 {
                Step::Fail(VmError::StackUnderflow)
            } else {
                Step::Next(FrameState { ip: ip + 1, stack: st.stack.drop_last(), ..st })
            },
        ),
        Opcodes::POP2 => Some(
            if n < 1 {
                Step::Fail(VmError::StackUnderflow)
            } else if st.peek(0) is Long || st.peek(0) is Double {
                Step::Next(FrameState { ip: ip + 1, stack: st.stack.drop_last(), ..st })
            } else if n < 2 {
                Step::Fail(VmError::StackUnderflow)
            } else {
                Step::Next(FrameState { ip: ip + 1, stack: st.stack.subrange(0, n - 2), ..st })
            },
        ),
        Opcodes::DUP => Some(
            if n < 1 {
                Step::Fail(VmError::StackUnderflow)
            } else {
                st.push_to(st.peek(0), ip + 1)
            },
        ),
        Opcodes::IADD | Opcodes::ISUB => Some(
            if n < 1 {
                Step::Fail(VmError::StackUnderflow)
            } else if !(st.peek(0) is Int) {
                Step::Fail(VmError::TypeMismatch)
            } else if n < 2 {
                Step::Fail(VmError::StackUnderflow)
            } else if !(st.peek(1) is Int) {
                Step::Fail(VmError::TypeMismatch)
            } else {
                let top = st.peek(0)->Int_0;
                let below = st.peek(1)->Int_0;
                let v = if op is IADD {
                    below.wrapping_add(top)
                } else {
                    below.wrapping_sub(top)
                };
                st.replace_to(2, Types::Int(v), ip + 1)
            },
        ),
        Opcodes::IFGE => Some(
            match operand16(code, ip) {
                None => Step::Fail(VmError::ClassFormatError),
                Some(off) => if n < 1 {
                    Step::Fail(VmError::StackUnderflow)
                } else if !(st.peek(0) is Int) {
                    Step::Fail(VmError::TypeMismatch)
                } else {
                    branch(
                        code,
                        FrameState { stack: st.stack.drop_last(), ..st },
                        st.peek(0)->Int_0 >= 0,
                        off,
                    )
                },
            },
        ),
        Opcodes::IF_ICMPNE => Some(
            match operand16(code, ip) {
                None => Step::Fail(VmError::ClassFormatError),
                Some(off) => if n < 1 {
                    Step::Fail(VmError::StackUnderflow)
                } else if !(st.peek(0) is Int) {
                    Step::Fail(VmError::TypeMismatch)
                } else if n < 2 {
                    Step::Fail(VmError::StackUnderflow)
                } else if !(st.peek(1) is Int) {
                    Step::Fail(VmError::TypeMismatch)
                } else {
                    branch(
                        code,
                        FrameState { stack: st.stack.subrange(0, n - 2), ..st },
                        st.peek(0)->Int_0 != st.peek(1)->Int_0,
                        off,
                    )
                },
            },
        ),
        Opcodes::VRETURN => Some(
            if n < 1 {
                Step::Fail(VmError::StackUnderflow)
            } else {
                Step::Done(st.peek(0))
            },
        ),
        Opcodes::RETURN => Some(Step::Done(Types::Void)),
        Opcodes::NEWARRAY => Some(
            match code_at(code, ip + 1) {
                None => Step::Fail(VmError::ClassFormatError),
                Some(t) => match array_type_of(t) {
                    None => Step::Fail(VmError::ClassFormatError),
                    Some(ty) => if n < 1 {
                        Step::Fail(VmError::StackUnderflow)
                    } else if !(st.peek(0) is Int) {
                        Step::Fail(VmError::TypeMismatch)
                    } else if st.peek(0)->Int_0 < 0 {
                        Step::Fail(VmError::ArrayIndexOutOfBounds)
                    } else {
                        Step::Next(
                            FrameState {
                                ip: ip + 2,
                                stack: st.stack.drop_last().push(
                                    Types::Array(st.arrays.len() as usize, ty),
                                ),
                                arrays: st.arrays.push(
                                    Seq::new(st.peek(0)->Int_0 as nat, |i: int| Types::Void),
                                ),
                                ..st
                            },
                        )
                    },
                },
            },
        ),
        _ => None,
    }
}

/// The effect of the instruction at `st.ip`; `None` where it needs the registry
/// or the host.
pub open spec fn local_step(code: Seq<u8>, pool: Seq<Const>, st: FrameState) -> Option<Step> {
    match code_at(code, st.ip) {
        None => Some(Step::Fail(VmError::ClassFormatError)),
        Some(b) => match decode_opcode(b) {
            None => Some(Step::Fail(VmError::UnsupportedOpcode)),
            Some(op) => op_step(code, pool, st, op),
        },
    }
}

/// The result of running from `st` with `fuel` instructions left, where every
/// instruction reached is one that `local_step` describes; `None` otherwise.
pub open spec fn run_local(code: Seq<u8>, pool: Seq<Const>, st: FrameState, fuel: nat) -> Option<
    Result<Types, VmError>,
>
    decreases fuel,
{
    if fuel == 0 {
        Some(Err(VmError::StepLimit))
    } else {
        match local_step(code, pool, st) {
            None => None,
            Some(Step::Next(next)) => run_local(code, pool, next, (fuel - 1) as nat),
            Some(Step::Done(v)) => Some(Ok(v)),
            Some(Step::Fail(e)) => Some(Err(e)),
        }
    }
}

} // verus!
