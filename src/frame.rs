use crate::class::Class;
use crate::format::{be16, be32};
use crate::host::Host;
use crate::loader::{lemma_evolves_trans, lemma_extends_evolves, lemma_handle_of, Loader};
use crate::opcodes::{decode_opcode, Opcodes};
use crate::semantics::{code_at, local_step, op_step, operand16, run_local, FrameState, Step};
use crate::types::{
    pool_entry, resolve_name, valid_method_flags, ArrayTypes, Attribute, Const, ConstModel, ConstPool, Field,
    MethodAccessFlags, Types, VmError,
};
use vstd::utf8::encode_utf8;
use vstd::prelude::*;

verus! {

/// One method activation: its code, locals, operand stack and the arrays it has
/// allocated. Array handles index `arrays` and are valid in this frame only.
#[derive(Debug)]
pub struct Frame {
    /// The name of the class that declares the method.
    pub class: String,
    /// The constant pool of that class.
    pub cp: ConstPool,
    pub ip: usize,
    pub code: Vec<u8>,
    pub locals: Vec<Types>,
    pub stack: Vec<Types>,
    pub arrays: Vec<Vec<Types>>,
    /// The method is native: the host runs it on the locals.
    pub native: bool,
    pub method: String,
    pub desc: String,
}

/// The class registry, the host, and the budgets that bound a run.
pub struct Runtime<H: Host> {
    pub loader: Loader,
    pub host: H,
    /// Instructions that may still be executed, over all frames.
    pub steps_left: u64,
    /// The deepest chain of nested calls allowed.
    pub max_depth: u32,
}

impl<H: Host> Runtime<H> {
    /// A runtime with no classes loaded.
    pub fn new(host: H, steps_left: u64, max_depth: u32) -> (r: Runtime<H>)
        ensures
            r.loader.wf(),
            r.loader.loaded_classes@.len() == 0,
            r.host == host,
            r.steps_left == steps_left,
            r.max_depth == max_depth,
    {
        Runtime { loader: Loader::new(), host, steps_left, max_depth }
    }
}

/// An equal copy of a sequence of values.
pub fn copy_values(v: &Vec<Types>) -> (r: Vec<Types>)
    ensures
        r@ == v@,
{
    let mut r: Vec<Types> = Vec::new();
    let mut i: usize = 0;
    while i < v.len()
        invariant
            i <= v@.len(),
            r@ =~= v@.subrange(0, i as int),
        decreases v@.len() - i,
    {
        r.push(v[i].copy());
        i = i + 1;
    }
    r
}

impl ConstPool {
    /// An equal copy of the pool.
    pub fn copy(&self) -> (r: ConstPool)
        ensures
            r.consts@ == self.consts@,
    {
        let mut consts: Vec<Const> = Vec::new();
        let mut i: usize = 0;
        while i < self.consts.len()
            invariant
                i <= self.consts@.len(),
                consts@ =~= self.consts@.subrange(0, i as int),
            decreases self.consts@.len() - i,
        {
            consts.push(self.consts[i].copy());
            i = i + 1;
        }
        ConstPool { consts }
    }
}

/// The index of the first method of `ms` from `i` on named `name` with descriptor
/// `desc`, or `ms.len()` when there is none.
pub open spec fn first_method(ms: Seq<Field>, name: Seq<char>, desc: Seq<char>, i: int) -> int
    decreases ms.len() - i,
{
    if i < 0 || i >= ms.len() {
        ms.len() as int
    } else if ms[i].name@ == name && ms[i].desc@ == desc {
        i
    } else {
        first_method(ms, name, desc, i + 1)
    }
}

/// A "Code" attribute with room for its fixed header.
pub open spec fn is_code(a: Attribute) -> bool {
    a.name@ == "Code"@ && a.data@.len() >= 8
}

/// The index of the first code attribute of `attrs` from `i` on, or `attrs.len()`.
pub open spec fn first_code(attrs: Seq<Attribute>, i: int) -> int
    decreases attrs.len() - i,
{
    if i < 0 || i >= attrs.len() {
        attrs.len() as int
    } else if is_code(attrs[i]) {
        i
    } else {
        first_code(attrs, i + 1)
    }
}

/// The locals of a new frame: the arguments, then `Int(0)` up to `max` slots.
pub open spec fn initial_locals(args: Seq<Types>, max: int) -> Seq<Types> {
    let n = if args.len() > max {
        args.len() as int
    } else {
        max
    };
    Seq::new(n as nat, |j: int| if j < args.len() { args[j] } else { Types::Int(0) })
}

/// The bytecode that a code attribute's payload `d` holds, if its length fits.
pub open spec fn code_of(d: Seq<u8>) -> Option<Seq<u8>> {
    let n = be32(d[4], d[5], d[6], d[7]) as int;
    if 8 + n <= d.len() {
        Some(d.subrange(8, 8 + n))
    } else {
        None
    }
}

impl Frame {
    /// The mutable part of the frame.
    pub open spec fn state(self) -> FrameState {
        FrameState {
            ip: self.ip as int,
            locals: self.locals@,
            stack: self.stack@,
            arrays: self.arrays@.map_values(|a: Vec<Types>| a@),
        }
    }

    /// The parts that running the frame never changes are those of `old`.
    pub open spec fn fixed(self, old: Frame) -> bool {
        &&& self.class@ == old.class@
        &&& self.cp.consts@ == old.cp.consts@
        &&& self.code@ == old.code@
        &&& self.native == old.native
        &&& self.method@ == old.method@
        &&& self.desc@ == old.desc@
    }

    /// A fresh frame: at the start of its code, with an empty stack and no arrays.
    pub open spec fn fresh(self) -> bool {
        self.ip == 0 && self.stack@.len() == 0 && self.arrays@.len() == 0
    }
}

impl Class {
    /// A frame that runs the method `method` with descriptor `desc` on `args`: the
    /// first method with that name and descriptor. A native method gets a native
    /// frame whose locals are `args`. Any other runs the bytecode of its first
    /// "Code" attribute, with max-locals slots of locals, the first ones `args`.
    pub fn frame(&self, method: String, desc: String, args: Vec<Types>) -> (r: Result<Frame, VmError>)
        ensures
            ({
                let ms = self.methods@;
                let k = first_method(ms, method@, desc@, 0);
                if k >= ms.len() {
                    r == Err::<Frame, VmError>(VmError::MethodNotFound)
                } else if !valid_method_flags(ms[k].flags) {
                    r == Err::<Frame, VmError>(VmError::ClassFormatError)
                } else if ms[k].flags & 0x100 != 0 {
                    r matches Ok(f) && f.native && f.fresh() && f.code@.len() == 0 && f.locals@ == args@ && f.class@
                        == self.name@ && f.cp.consts@ == self.cp.consts@ && f.method@ == method@
                        && f.desc@ == desc@
                } else {
                    let attrs = ms[k].attr@;
                    let a = first_code(attrs, 0);
                    if a >= attrs.len() {
                        r == Err::<Frame, VmError>(VmError::MethodNotFound)
                    } else {
                        let d = attrs[a].data@;
                        match code_of(d) {
                            None => r == Err::<Frame, VmError>(VmError::ClassFormatError),
                            Some(code) => r matches Ok(f) && !f.native && f.fresh() && f.code@
                                == code && f.locals@ == initial_locals(args@, be16(d[2], d[3]) as int)
                                && f.class@ == self.name@ && f.cp.consts@ == self.cp.consts@
                                && f.method@ == method@ && f.desc@ == desc@,
                        }
                    }
                }
            }),
    {
        let ms = &self.methods;
        let mut k: usize = 0;
        while k < ms.len() && !(ms[k].name == method && ms[k].desc == desc)
            invariant
                k <= ms@.len(),
                first_method(ms@, method@, desc@, 0) == first_method(ms@, method@, desc@, k as int),
            decreases ms@.len() - k,
        {
            k = k + 1;
        }
        if k >= ms.len() {
            return Err(VmError::MethodNotFound);
        }
        let m = &ms[k];
        if !MethodAccessFlags::is_valid(m.flags) {
            return Err(VmError::ClassFormatError);
        }
        if MethodAccessFlags::new(m.flags).NATIVE {
            return Ok(
                Frame {
                    class: self.name.clone(),
                    cp: self.cp.copy(),
                    ip: 0,
                    code: Vec::new(),
                    locals: args,
                    stack: Vec::new(),
                    arrays: Vec::new(),
                    native: true,
                    method,
                    desc,
                },
            );
        }
        let code_name = "Code".to_owned();
        let attrs = &m.attr;
        let mut a: usize = 0;
        while a < attrs.len() && !(attrs[a].name == code_name && attrs[a].data.len() >= 8)
            invariant
                a <= attrs@.len(),
                code_name@ == "Code"@,
                first_code(attrs@, 0) == first_code(attrs@, a as int),
            decreases attrs@.len() - a,
        {
            a = a + 1;
        }
        if a >= attrs.len() {
            return Err(VmError::MethodNotFound);
        }
        let d = &attrs[a].data;
        let max_locals = d[2] as u16 * 0x100 + d[3] as u16;
        let n = d[4] as u32 * 0x1000000 + d[5] as u32 * 0x10000 + d[6] as u32 * 0x100 + d[7] as u32;
        if d.len() - 8 < n as usize {
            return Err(VmError::ClassFormatError);
        }
        let end: usize = 8 + n as usize;
        let mut code: Vec<u8> = Vec::new();
        let mut i: usize = 8;
        while i < end
            invariant
                end == 8 + n,
                8 <= i <= 8 + n <= d@.len(),
                code@ =~= d@.subrange(8, i as int),
            decreases 8 + n - i,
        {
            code.push(d[i]);
            i = i + 1;
        }
        let total: usize = if args.len() > max_locals as usize {
            args.len()
        } else {
            max_locals as usize
        };
        let mut locals: Vec<Types> = Vec::new();
        let mut j: usize = 0;
        while j < total
            invariant
                j <= total,
                total == if args@.len() > max_locals as int {
                    args@.len() as int
                } else {
                    max_locals as int
                },
                locals@ =~= initial_locals(args@, max_locals as int).subrange(0, j as int),
            decreases total - j,
        {
            if j < args.len() {
                locals.push(args[j].copy());
            } else {
                locals.push(Types::Int(0));
            }
            j = j + 1;
        }
        Ok(
            Frame {
                class: self.name.clone(),
                cp: self.cp.copy(),
                ip: 0,
                code,
                locals,
                stack: Vec::new(),
                arrays: Vec::new(),
                native: false,
                method,
                desc,
            },
        )
    }
}

impl Frame {
    /// Moves past the `k` bytes of the current instruction.
    fn skip(&mut self, k: usize)
        requires
            old(self).ip + k <= old(self).code@.len(),
        ensures
            final(self).fixed(*old(self)),
            final(self).ip == old(self).ip + k,
            final(self).locals@ == old(self).locals@,
            final(self).stack@ == old(self).stack@,
            final(self).arrays@ == old(self).arrays@,
    {
        if k <= self.code.len() - self.ip {
            self.ip = self.ip + k;
        }
    }

    /// Pops the top of the stack.
    pub fn pop(&mut self) -> (r: Result<Types, VmError>)
        ensures
            final(self).fixed(*old(self)),
            final(self).ip == old(self).ip,
            final(self).locals@ == old(self).locals@,
            final(self).arrays@ == old(self).arrays@,
            old(self).stack@.len() == 0 ==> r == Err::<Types, VmError>(VmError::StackUnderflow)
                && final(self).stack@ == old(self).stack@,
            old(self).stack@.len() > 0 ==> r == Ok::<Types, VmError>(old(self).stack@.last())
                && final(self).stack@ == old(self).stack@.drop_last(),
    {
        match self.stack.pop() {
            Some(v) => Ok(v),
            None => Err(VmError::StackUnderflow),
        }
    }

    /// Pops an int.
    fn pop_int(&mut self) -> (r: Result<i32, VmError>)
        ensures
            final(self).fixed(*old(self)),
            final(self).ip == old(self).ip,
            final(self).locals@ == old(self).locals@,
            final(self).arrays@ == old(self).arrays@,
            old(self).stack@.len() == 0 ==> r == Err::<i32, VmError>(VmError::StackUnderflow),
            old(self).stack@.len() > 0 ==> match old(self).stack@.last() {
                Types::Int(i) => r == Ok::<i32, VmError>(i) && final(self).stack@ == old(self).stack@.drop_last(),
                _ => r == Err::<i32, VmError>(VmError::TypeMismatch),
            },
    {
        match self.pop() {
            Ok(Types::Int(i)) => Ok(i),
            Ok(_) => Err(VmError::TypeMismatch),
            Err(e) => Err(e),
        }
    }

    /// Pops a double, as its bits.
    fn pop_double(&mut self) -> (r: Result<u64, VmError>)
        ensures
            final(self).fixed(*old(self)),
            final(self).ip == old(self).ip,
            final(self).locals@ == old(self).locals@,
            final(self).arrays@ == old(self).arrays@,
            old(self).stack@.len() == 0 ==> r == Err::<u64, VmError>(VmError::StackUnderflow),
            old(self).stack@.len() > 0 ==> match old(self).stack@.last() {
                Types::Double(d) => r == Ok::<u64, VmError>(d) && final(self).stack@ == old(self).stack@.drop_last(),
                _ => r == Err::<u64, VmError>(VmError::TypeMismatch),
            },
    {
        match self.pop() {
            Ok(Types::Double(d)) => Ok(d),
            Ok(_) => Err(VmError::TypeMismatch),
            Err(e) => Err(e),
        }
    }

    /// The u16 operand that follows the opcode at `ip`.
    fn read_u16(&self) -> (r: Result<u16, VmError>)
        ensures
            match operand16(self.code@, self.ip as int) {
                Some(v) => r == Ok::<u16, VmError>(v),
                None => r == Err::<u16, VmError>(VmError::ClassFormatError),
            },
    {
        if self.ip < self.code.len() && self.code.len() - self.ip > 2 {
            Ok(self.code[self.ip + 1] as u16 * 0x100 + self.code[self.ip + 2] as u16)
        } else {
            Err(VmError::ClassFormatError)
        }
    }

    /// Moves to the target of a branch at `ip` by `offset` when `taken`, else past
    /// the branch.
    fn branch(&mut self, taken: bool, offset: u16) -> (r: Result<Option<Types>, VmError>)
        requires
            old(self).ip + 2 < old(self).code@.len(),
        ensures
            final(self).fixed(*old(self)),
            match crate::semantics::branch(old(self).code@, old(self).state(), taken, offset) {
                Step::Next(st) => r == Ok::<Option<Types>, VmError>(None) && final(self).state() == st,
                Step::Done(v) => r == Ok::<Option<Types>, VmError>(Some(v)),
                Step::Fail(e) => r == Err::<Option<Types>, VmError>(e),
            },
    {
        if !taken {
            self.skip(3);
            return Ok(None);
        }
        let d = #[verifier::truncate] (offset as i16);
        if d >= 0 {
            let du = d as usize;
            if du < self.code.len() - self.ip {
                self.ip = self.ip + du;
                Ok(None)
            } else {
                Err(VmError::ClassFormatError)
            }
        } else {
            let du = (0 - d as i32) as usize;
            if du <= self.ip {
                self.ip = self.ip - du;
                Ok(None)
            } else {
                Err(VmError::ClassFormatError)
            }
        }
    }

    /// Runs an instruction that pushes a constant or a local.
    fn exec_push(&mut self, op: Opcodes) -> (r: Result<Option<Types>, VmError>)
        requires
            old(self).ip < old(self).code@.len(),
            op_step(old(self).code@, old(self).cp.consts@, old(self).state(), op) is Some,
            op is NOP || op is ICONST || op is LCONST || op is BIPUSH || op is LDC || op is LDC2_W || op is LOAD || op is DUP,
        ensures
            final(self).fixed(*old(self)),
            match op_step(old(self).code@, old(self).cp.consts@, old(self).state(), op)->0 {
                Step::Next(st) => r == Ok::<Option<Types>, VmError>(None) && final(self).state() == st,
                Step::Done(v) => r == Ok::<Option<Types>, VmError>(Some(v)),
                Step::Fail(e) => r == Err::<Option<Types>, VmError>(e),
            },
    {
        let n = self.stack.len();
        match op {
            Opcodes::NOP => {
                self.skip(1);
                Ok(None)
            },
            Opcodes::ICONST(v) => {
                self.stack.push(Types::Int(v));
                self.skip(1);
                Ok(None)
            },
            Opcodes::LCONST(v) => {
                self.stack.push(Types::Long(v));
                self.skip(1);
                Ok(None)
            },
            Opcodes::BIPUSH => {
                if self.code.len() - self.ip < 2 {
                    return Err(VmError::ClassFormatError);
                }
                let b = self.code[self.ip + 1];
                self.stack.push(Types::Int((#[verifier::truncate] (b as i8)) as i32));
                self.skip(2);
                Ok(None)
            },
            Opcodes::LDC => {
                if self.code.len() - self.ip < 2 {
                    return Err(VmError::ClassFormatError);
                }
                let i = self.code[self.ip + 1];
                let v = match self.cp.get(i as u16) {
                    Ok(Const::Str(s)) => Types::Str(s),
                    Ok(Const::Int(x)) => Types::Int(x),
                    Ok(Const::Float(f)) => Types::Float(f),
                    Ok(Const::StrIndex(j)) => match self.cp.get(j) {
                        Ok(Const::Str(s)) => Types::Str(s),
                        _ => return Err(VmError::ConstantPoolError),
                    },
                    _ => return Err(VmError::ConstantPoolError),
                };
                self.stack.push(v);
                self.skip(2);
                Ok(None)
            },
            Opcodes::LDC2_W => {
                let i = match self.read_u16() {
                    Ok(i) => i,
                    Err(e) => return Err(e),
                };
                let v = match self.cp.get(i) {
                    Ok(Const::Double(d)) => Types::Double(d),
                    Ok(Const::Long(l)) => Types::Long(l),
                    _ => return Err(VmError::ConstantPoolError),
                };
                self.stack.push(v);
                self.skip(3);
                Ok(None)
            },
            Opcodes::LOAD(k) => {
                if k as usize >= self.locals.len() {
                    return Err(VmError::StackUnderflow);
                }
                let v = self.locals[k as usize].copy();
                self.stack.push(v);
                self.skip(1);
                Ok(None)
            },
            Opcodes::DUP => {
                if n < 1 {
                    return Err(VmError::StackUnderflow);
                }
                let v = self.stack[n - 1].copy();
                self.stack.push(v);
                self.skip(1);
                Ok(None)
            },
            _ => Err(VmError::UnsupportedOpcode),
        }
    }

    /// Runs a store, a pop or an int arithmetic instruction.
    fn exec_stack(&mut self, op: Opcodes) -> (r: Result<Option<Types>, VmError>)
        requires
            old(self).ip < old(self).code@.len(),
            op_step(old(self).code@, old(self).cp.consts@, old(self).state(), op) is Some,
            op is STORE || op is POP || op is POP2 || op is IADD || op is ISUB,
        ensures
            final(self).fixed(*old(self)),
            match op_step(old(self).code@, old(self).cp.consts@, old(self).state(), op)->0 {
                Step::Next(st) => r == Ok::<Option<Types>, VmError>(None) && final(self).state() == st,
                Step::Done(v) => r == Ok::<Option<Types>, VmError>(Some(v)),
                Step::Fail(e) => r == Err::<Option<Types>, VmError>(e),
            },
    {
        let n = self.stack.len();
        match op {
            Opcodes::STORE(k) => {
                if n < 1 || k as usize >= self.locals.len() {
                    return Err(VmError::StackUnderflow);
                }
                let v = match self.stack.pop() {
                    Some(v) => v,
                    None => return Err(VmError::StackUnderflow),
                };
                self.locals.set(k as usize, v);
                self.skip(1);
                Ok(None)
            },
            Opcodes::POP => {
                if n < 1 {
                    return Err(VmError::StackUnderflow);
                }
                self.stack.truncate(n - 1);
                self.skip(1);
                Ok(None)
            },
            Opcodes::POP2 => {
                if n < 1 {
                    return Err(VmError::StackUnderflow);
                }
                if self.stack[n - 1].is_wide() {
                    self.stack.truncate(n - 1);
                } else {
                    if n < 2 {
                        return Err(VmError::StackUnderflow);
                    }
                    self.stack.truncate(n - 2);
                }
                self.skip(1);
                Ok(None)
            },
            Opcodes::IADD | Opcodes::ISUB => {
                let top = match self.pop_int() {
                    Ok(v) => v,
                    Err(e) => return Err(e),
                };
                let below = match self.pop_int() {
                    Ok(v) => v,
                    Err(e) => return Err(e),
                };
                let v = if op == Opcodes::IADD {
                    below.wrapping_add(top)
                } else {
                    below.wrapping_sub(top)
                };
                self.stack.push(Types::Int(v));
                proof {
                    assert(self.stack@ =~= old(self).stack@.subrange(0, n - 2).push(Types::Int(v)));
                }
                self.skip(1);
                Ok(None)
            },
            _ => Err(VmError::UnsupportedOpcode),
        }
    }

    /// Runs `iaload`.
    fn exec_iaload(&mut self, op: Opcodes) -> (r: Result<Option<Types>, VmError>)
        requires
            old(self).ip < old(self).code@.len(),
            op_step(old(self).code@, old(self).cp.consts@, old(self).state(), op) is Some,
            op is IALOAD,
        ensures
            final(self).fixed(*old(self)),
            match op_step(old(self).code@, old(self).cp.consts@, old(self).state(), op)->0 {
                Step::Next(st) => r == Ok::<Option<Types>, VmError>(None) && final(self).state() == st,
                Step::Done(v) => r == Ok::<Option<Types>, VmError>(Some(v)),
                Step::Fail(e) => r == Err::<Option<Types>, VmError>(e),
            },
    {
        let ghost arrays0 = self.arrays@.map_values(|a: Vec<Types>| a@);
        let n = self.stack.len();
        match op {
            Opcodes::IALOAD => {
                if n < 1 {
                    return Err(VmError::StackUnderflow);
                }
                let i = match &self.stack[n - 1] {
                    Types::Int(i) => *i,
                    _ => return Err(VmError::TypeMismatch),
                };
                if n < 2 {
                    return Err(VmError::StackUnderflow);
                }
                let h = match &self.stack[n - 2] {
                    Types::Array(h, _) => *h,
                    _ => return Err(VmError::TypeMismatch),
                };
                if h >= self.arrays.len() || i < 0 || i as usize >= self.arrays[h].len() {
                    return Err(VmError::ArrayIndexOutOfBounds);
                }
                let v = self.arrays[h][i as usize].copy();
                proof {
                    assert(arrays0[h as int] == self.arrays@[h as int]@);
                }
                self.stack.truncate(n - 2);
                self.stack.push(v);
                self.skip(1);
                Ok(None)
            },
            _ => Err(VmError::UnsupportedOpcode),
        }
    }

    /// Runs `iastore`.
    fn exec_iastore(&mut self, op: Opcodes) -> (r: Result<Option<Types>, VmError>)
        requires
            old(self).ip < old(self).code@.len(),
            op_step(old(self).code@, old(self).cp.consts@, old(self).state(), op) is Some,
            op is IASTORE,
        ensures
            final(self).fixed(*old(self)),
            match op_step(old(self).code@, old(self).cp.consts@, old(self).state(), op)->0 {
                Step::Next(st) => r == Ok::<Option<Types>, VmError>(None) && final(self).state() == st,
                Step::Done(v) => r == Ok::<Option<Types>, VmError>(Some(v)),
                Step::Fail(e) => r == Err::<Option<Types>, VmError>(e),
            },
    {
        let ghost arrays0 = self.arrays@.map_values(|a: Vec<Types>| a@);
        let n = self.stack.len();
        match op {
            Opcodes::IASTORE => {
                if n < 2 {
                    return Err(VmError::StackUnderflow);
                }
                let i = match &self.stack[n - 2] {
                    Types::Int(i) => *i,
                    _ => return Err(VmError::TypeMismatch),
                };
                if n < 3 {
                    return Err(VmError::StackUnderflow);
                }
                let h = match &self.stack[n - 3] {
                    Types::Array(h, _) => *h,
                    _ => return Err(VmError::TypeMismatch),
                };
                proof {
                    if h < self.arrays@.len() {
                        assert(arrays0[h as int] == self.arrays@[h as int]@);
                    }
                }
                if h >= self.arrays.len() || i < 0 || i as usize >= self.arrays[h].len() {
                    return Err(VmError::ArrayIndexOutOfBounds);
                }
                let v = match self.stack.pop() {
                    Some(v) => v,
                    None => return Err(VmError::StackUnderflow),
                };
                self.stack.truncate(n - 3);
                assert(self.stack@ =~= old(self).stack@.subrange(0, n - 3));
                let mut a = self.arrays.remove(h);
                a.set(i as usize, v);
                self.arrays.insert(h, a);
                proof {
                    assert(self.arrays@.map_values(|a: Vec<Types>| a@) =~= arrays0.update(
                        h as int,
                        arrays0[h as int].update(i as int, old(self).stack@.last()),
                    ));
                }
                self.skip(1);
                Ok(None)
            },
            _ => Err(VmError::UnsupportedOpcode),
        }
    }

    /// Runs `newarray`.
    fn exec_newarray(&mut self, op: Opcodes) -> (r: Result<Option<Types>, VmError>)
        requires
            old(self).ip < old(self).code@.len(),
            op_step(old(self).code@, old(self).cp.consts@, old(self).state(), op) is Some,
            op is NEWARRAY,
        ensures
            final(self).fixed(*old(self)),
            match op_step(old(self).code@, old(self).cp.consts@, old(self).state(), op)->0 {
                Step::Next(st) => r == Ok::<Option<Types>, VmError>(None) && final(self).state() == st,
                Step::Done(v) => r == Ok::<Option<Types>, VmError>(Some(v)),
                Step::Fail(e) => r == Err::<Option<Types>, VmError>(e),
            },
    {
        let ghost arrays0 = self.arrays@.map_values(|a: Vec<Types>| a@);
        let n = self.stack.len();
        match op {
            Opcodes::NEWARRAY => {
                if self.code.len() - self.ip < 2 {
                    return Err(VmError::ClassFormatError);
                }
                let ty = match ArrayTypes::from_u8(self.code[self.ip + 1]) {
                    Some(t) => t,
                    None => return Err(VmError::ClassFormatError),
                };
                let count = match self.pop_int() {
                    Ok(v) => v,
                    Err(e) => return Err(e),
                };
                if count < 0 {
                    return Err(VmError::ArrayIndexOutOfBounds);
                }
                let mut a: Vec<Types> = Vec::new();
                let mut j: usize = 0;
                while j < count as usize
                    invariant
                        j <= count,
                        a@ =~= Seq::new(j as nat, |x: int| Types::Void),
                    decreases count - j,
                {
                    a.push(Types::Void);
                    j = j + 1;
                }
                let h = self.arrays.len();
                self.arrays.push(a);
                self.stack.push(Types::Array(h, ty));
                proof {
                    assert(self.stack@ =~= old(self).stack@.drop_last().push(Types::Array(arrays0.len() as usize, ty)));
                }
                proof {
                    assert(self.arrays@.map_values(|a: Vec<Types>| a@) =~= arrays0.push(
                        Seq::new(count as nat, |x: int| Types::Void),
                    ));
                }
                self.skip(2);
                Ok(None)
            },
            _ => Err(VmError::UnsupportedOpcode),
        }
    }

    /// Runs a branch or a return.
    fn exec_control(&mut self, op: Opcodes) -> (r: Result<Option<Types>, VmError>)
        requires
            old(self).ip < old(self).code@.len(),
            op_step(old(self).code@, old(self).cp.consts@, old(self).state(), op) is Some,
            op is IFGE || op is IF_ICMPNE || op is VRETURN || op is RETURN,
        ensures
            final(self).fixed(*old(self)),
            match op_step(old(self).code@, old(self).cp.consts@, old(self).state(), op)->0 {
                Step::Next(st) => r == Ok::<Option<Types>, VmError>(None) && final(self).state() == st,
                Step::Done(v) => r == Ok::<Option<Types>, VmError>(Some(v)),
                Step::Fail(e) => r == Err::<Option<Types>, VmError>(e),
            },
    {
        let n = self.stack.len();
        match op {
            Opcodes::IFGE => {
                let off = match self.read_u16() {
                    Ok(v) => v,
                    Err(e) => return Err(e),
                };
                let a = match self.pop_int() {
                    Ok(v) => v,
                    Err(e) => return Err(e),
                };
                self.branch(a >= 0, off)
            },
            Opcodes::IF_ICMPNE => {
                let off = match self.read_u16() {
                    Ok(v) => v,
                    Err(e) => return Err(e),
                };
                let a = match self.pop_int() {
                    Ok(v) => v,
                    Err(e) => return Err(e),
                };
                let b = match self.pop_int() {
                    Ok(v) => v,
                    Err(e) => return Err(e),
                };
                proof {
                    assert(self.stack@ =~= old(self).stack@.subrange(0, n - 2));
                }
                self.branch(a != b, off)
            },
            Opcodes::VRETURN => {
                match self.pop() {
                    Ok(v) => Ok(Some(v)),
                    Err(e) => Err(e),
                }
            },
            Opcodes::RETURN => Ok(Some(Types::Void)),
            _ => Err(VmError::UnsupportedOpcode),
        }
    }

    /// Runs `op`, one of the instructions that need neither the registry nor the
    /// host, at `ip`.
    fn exec_local(&mut self, op: Opcodes) -> (r: Result<Option<Types>, VmError>)
        requires
            old(self).ip < old(self).code@.len(),
            op_step(old(self).code@, old(self).cp.consts@, old(self).state(), op) is Some,
        ensures
            final(self).fixed(*old(self)),
            match op_step(old(self).code@, old(self).cp.consts@, old(self).state(), op)->0 {
                Step::Next(st) => r == Ok::<Option<Types>, VmError>(None) && final(self).state() == st,
                Step::Done(v) => r == Ok::<Option<Types>, VmError>(Some(v)),
                Step::Fail(e) => r == Err::<Option<Types>, VmError>(e),
            },
    {
        match op {
            Opcodes::NOP | Opcodes::ICONST(_) | Opcodes::LCONST(_) | Opcodes::BIPUSH | Opcodes::LDC
            | Opcodes::LDC2_W | Opcodes::LOAD(_) | Opcodes::DUP => self.exec_push(op),
            Opcodes::STORE(_) | Opcodes::POP | Opcodes::POP2 | Opcodes::IADD | Opcodes::ISUB => self.exec_stack(op),
            Opcodes::IALOAD => self.exec_iaload(op),
            Opcodes::IASTORE => self.exec_iastore(op),
            Opcodes::NEWARRAY => self.exec_newarray(op),
            _ => self.exec_control(op),
        }
    }
}

/// The class, member name and descriptor that a field or method reference names.
pub open spec fn fmi_names(pool: Seq<ConstModel>, c: ConstModel) -> Result<
    (Seq<char>, Seq<char>, Seq<char>),
    VmError,
> {
    match c {
        ConstModel::FMIRef(ci, nti) => match pool_entry(pool, nti as int) {
            Some(ConstModel::NameAndType(ni, ti)) => match pool_entry(pool, ci as int) {
                Some(ConstModel::Class(cni)) => match resolve_name(pool, cni as int) {
                    Ok(cn) => match resolve_name(pool, ni as int) {
                        Ok(n) => match resolve_name(pool, ti as int) {
                            Ok(t) => Ok((cn, n, t)),
                            Err(e) => Err(e),
                        },
                        Err(e) => Err(e),
                    },
                    Err(e) => Err(e),
                },
                _ => Err(VmError::ConstantPoolError),
            },
            _ => Err(VmError::ConstantPoolError),
        },
        _ => Err(VmError::ConstantPoolError),
    }
}

/// The member that the u16 operand of the instruction at `ip` refers to.
pub open spec fn member_ref(code: Seq<u8>, pool: Seq<ConstModel>, ip: int) -> Result<
    (Seq<char>, Seq<char>, Seq<char>),
    VmError,
> {
    match operand16(code, ip) {
        None => Err(VmError::ClassFormatError),
        Some(i) => match pool_entry(pool, i as int) {
            None => Err(VmError::ConstantPoolError),
            Some(c) => fmi_names(pool, c),
        },
    }
}

/// The name of the class that pool entry `idx` holds.
pub open spec fn class_name_at(pool: Seq<ConstModel>, idx: int) -> Result<Seq<char>, VmError> {
    match pool_entry(pool, idx) {
        Some(ConstModel::Class(j)) => resolve_name(pool, j as int),
        _ => Err(VmError::ConstantPoolError),
    }
}

/// A primitive type letter of a descriptor: B, C, D, F, I, J, S or Z.
pub open spec fn is_base_type(c: u8) -> bool {
    c == 0x42 || c == 0x43 || c == 0x44 || c == 0x46 || c == 0x49 || c == 0x4a || c == 0x53 || c == 0x5a
}

/// The parameter list of a method descriptor from byte `i` on: one kind letter per
/// parameter (the letter of a primitive type, `L` for a class, `[` for an array),
/// after `acc`. `in_class` holds inside a class name, `in_array` after the `[`s of
/// an array type. `None` when the list is malformed or has no `)`.
pub open spec fn params_from(d: Seq<u8>, i: int, in_class: bool, in_array: bool, acc: Seq<u8>) -> Option<
    Seq<u8>,
>
    decreases d.len() - i,
{
    if i < 0 || i >= d.len() {
        None
    } else {
        let c = d[i];
        let next = if in_array {
            acc
        } else {
            acc.push(c)
        };
        if in_class {
            params_from(d, i + 1, c != 0x3b, false, acc)
        } else if c == 0x29 {
            if in_array {
                None
            } else {
                Some(acc)
            }
        } else if c == 0x5b {
            params_from(d, i + 1, false, true, next)
        } else if c == 0x4c {
            params_from(d, i + 1, true, false, next)
        } else if is_base_type(c) {
            params_from(d, i + 1, false, false, next)
        } else {
            None
        }
    }
}

/// The parameter kinds of a method descriptor, which opens with `(`.
pub open spec fn param_kinds_of(desc: Seq<char>) -> Option<Seq<u8>> {
    let d = encode_utf8(desc);
    if d.len() > 0 && d[0] == 0x28 {
        params_from(d, 1, false, false, Seq::empty())
    } else {
        None
    }
}

/// Whether `v` can be passed for a parameter of kind `k`.
pub open spec fn kind_matches(k: u8, v: Types) -> bool {
    if k == 0x4a {
        v is Long
    } else if k == 0x46 {
        v is Float
    } else if k == 0x44 {
        v is Double
    } else if k == 0x4c || k == 0x5b {
        v is Class || v is Str || v is Array
    } else if k == 0x5a {
        v is Int || v is Boolean
    } else {
        v is Int
    }
}

/// The parameter kinds of a method descriptor.
pub fn param_kinds(desc: &String) -> (r: Result<Vec<u8>, VmError>)
    ensures
        match param_kinds_of(desc@) {
            Some(ks) => r matches Ok(v) && v@ == ks,
            None => r == Err::<Vec<u8>, VmError>(VmError::ClassFormatError),
        },
{
    let d = desc.as_str().as_bytes();
    if d.len() == 0 || d[0] != 0x28 {
        return Err(VmError::ClassFormatError);
    }
    let mut kinds: Vec<u8> = Vec::new();
    let mut i: usize = 1;
    let mut in_class = false;
    let mut in_array = false;
    loop
        invariant
            d@ == encode_utf8(desc@),
            d@.len() > 0 && d@[0] == 0x28,
            1 <= i <= d@.len(),
            param_kinds_of(desc@) == params_from(d@, i as int, in_class, in_array, kinds@),
        ensures
            param_kinds_of(desc@) == Some(kinds@),
        decreases d@.len() - i,
    {
        if i >= d.len() {
            return Err(VmError::ClassFormatError);
        }
        let c = d[i];
        if in_class {
            in_class = c != 0x3b;
            in_array = false;
        } else if c == 0x29 {
            if in_array {
                return Err(VmError::ClassFormatError);
            }
            break;
        } else if c == 0x5b || c == 0x4c || c == 0x42 || c == 0x43 || c == 0x44 || c == 0x46 || c == 0x49
            || c == 0x4a || c == 0x53 || c == 0x5a {
            if !in_array {
                kinds.push(c);
            }
            in_class = c == 0x4c;
            in_array = c == 0x5b;
        } else {
            return Err(VmError::ClassFormatError);
        }
        i = i + 1;
    }
    Ok(kinds)
}

/// Whether `v` can be passed for a parameter of kind `k`.
fn kind_ok(k: u8, v: &Types) -> (r: bool)
    ensures
        r == kind_matches(k, *v),
{
    if k == 0x4a {
        matches!(v, Types::Long(_))
    } else if k == 0x46 {
        matches!(v, Types::Float(_))
    } else if k == 0x44 {
        matches!(v, Types::Double(_))
    } else if k == 0x4c || k == 0x5b {
        matches!(v, Types::Class(_) | Types::Str(_) | Types::Array(_, _))
    } else if k == 0x5a {
        matches!(v, Types::Int(_) | Types::Boolean(_))
    } else {
        matches!(v, Types::Int(_))
    }
}

impl Frame {
    /// The class, member name and descriptor that the reference `c` names.
    fn handle_fmi(&self, c: &Const) -> (r: Result<(String, String, String), VmError>)
        ensures
            match fmi_names(self.cp@, c@) {
                Ok((cn, n, t)) => r matches Ok((a, b, d)) && a@ == cn && b@ == n && d@ == t,
                Err(e) => r matches Err(x) && x == e,
            },
    {
        match c {
            Const::FMIRef(ci, nti) => {
                let (ni, ti) = match self.cp.get(*nti) {
                    Ok(Const::NameAndType(ni, ti)) => (ni, ti),
                    _ => return Err(VmError::ConstantPoolError),
                };
                let cni = match self.cp.get(*ci) {
                    Ok(Const::Class(cni)) => cni,
                    _ => return Err(VmError::ConstantPoolError),
                };
                let cn = match self.cp.resolve(cni) {
                    Ok(x) => x,
                    Err(e) => return Err(e),
                };
                let n = match self.cp.resolve(ni) {
                    Ok(x) => x,
                    Err(e) => return Err(e),
                };
                let t = match self.cp.resolve(ti) {
                    Ok(x) => x,
                    Err(e) => return Err(e),
                };
                Ok((cn, n, t))
            },
            _ => Err(VmError::ConstantPoolError),
        }
    }

    /// The member that the u16 operand of the current instruction refers to.
    fn member_operand(&self) -> (r: Result<(String, String, String), VmError>)
        ensures
            match member_ref(self.code@, self.cp@, self.ip as int) {
                Ok((cn, n, t)) => r matches Ok((a, b, d)) && a@ == cn && b@ == n && d@ == t,
                Err(e) => r matches Err(x) && x == e,
            },
    {
        let idx = match self.read_u16() {
            Ok(i) => i,
            Err(e) => return Err(e),
        };
        let c = match self.cp.get(idx) {
            Ok(c) => c,
            Err(e) => return Err(e),
        };
        self.handle_fmi(&c)
    }

    /// Pops the arguments of a call to a method with descriptor `desc`: one value
    /// per parameter, of a kind that fits it, and first the receiver when `receiver`
    /// holds. They come back in call order.
    fn pop_args(&mut self, desc: &String, receiver: bool) -> (r: Result<Vec<Types>, VmError>)
        ensures
            final(self).fixed(*old(self)),
            final(self).ip == old(self).ip,
            final(self).locals@ == old(self).locals@,
            final(self).arrays@ == old(self).arrays@,
            match param_kinds_of(desc@) {
                None => r == Err::<Vec<Types>, VmError>(VmError::ClassFormatError),
                Some(ks) => {
                    let n = old(self).stack@.len() as int;
                    let np = ks.len() as int;
                    let k = np + if receiver {
                        1int
                    } else {
                        0int
                    };
                    let ok = k <= n && forall|j: int|
                        0 <= j < np ==> kind_matches(ks[j], old(self).stack@[n - np + j]);
                    match r {
                        Ok(args) => ok && args@ == old(self).stack@.subrange(n - k, n)
                            && final(self).stack@ == old(self).stack@.subrange(0, n - k),
                        Err(e) => !ok && (e == VmError::StackUnderflow || e == VmError::TypeMismatch),
                    }
                },
            },
    {
        let kinds = match param_kinds(desc) {
            Ok(ks) => ks,
            Err(e) => return Err(e),
        };
        let np = kinds.len();
        let n = self.stack.len();
        if np > n || (receiver && np == n) {
            return Err(VmError::StackUnderflow);
        }
        let k: usize = if receiver {
            np + 1
        } else {
            np
        };
        let mut j: usize = 0;
        while j < np
            invariant
                n == self.stack@.len(),
                self.stack@ == old(self).stack@,
                np == kinds@.len(),
                param_kinds_of(desc@) == Some(kinds@),
                np <= n,
                j <= np,
                forall|x: int| 0 <= x < j ==> kind_matches(kinds@[x], self.stack@[n - np + x]),
            decreases np - j,
        {
            if !kind_ok(kinds[j], &self.stack[n - np + j]) {
                return Err(VmError::TypeMismatch);
            }
            j = j + 1;
        }
        let mut args: Vec<Types> = Vec::new();
        let mut j: usize = n - k;
        while j < n
            invariant
                n == self.stack@.len(),
                k <= n,
                n - k <= j <= n,
                args@ =~= self.stack@.subrange(n - k, j as int),
            decreases n - j,
        {
            args.push(self.stack[j].copy());
            j = j + 1;
        }
        self.stack.truncate(n - k);
        Ok(args)
    }
}

/// A getstatic that succeeded: the value of the referenced field of the referenced
/// class was pushed; a class loaded before (`l0`) was a cache hit.
pub open spec fn get_static_done(f0: Frame, f1: Frame, l0: Loader, l: Loader) -> bool {
    &&& f1.ip == f0.ip + 3
    &&& f1.locals@ == f0.locals@
    &&& f1.arrays@ == f0.arrays@
    &&& (member_ref(f0.code@, f0.cp@, f0.ip as int) matches Ok((cn, f, t))
        && (l0.has_class(cn) ==> l.loaded_classes@ == l0.loaded_classes@) && ({
        let h = l.handle_of(cn);
        let i = l.field_slot(h, f, t);
        &&& l.class_at(h, cn)
        &&& i < l.loaded_classes@[h].fields@.len()
        &&& f1.stack@ == f0.stack@.push(l.field_value(h, i))
    }))
}

/// A putstatic that succeeded: the popped value is in the referenced field of the referenced class.
pub open spec fn put_static_done(f0: Frame, f1: Frame, l: Loader) -> bool {
    &&& f1.ip == f0.ip + 3
    &&& f1.locals@ == f0.locals@
    &&& f1.arrays@ == f0.arrays@
    &&& (member_ref(f0.code@, f0.cp@, f0.ip as int) matches Ok((cn, f, t))
        && ({
        let h = l.handle_of(cn);
        let i = l.field_slot(h, f, t);
        &&& f0.stack@.len() >= 1
        &&& l.class_at(h, cn)
        &&& i < l.loaded_classes@[h].fields@.len()
        &&& l.field_value(h, i) == f0.stack@.last()
        &&& f1.stack@ == f0.stack@.drop_last()
    }))
}

/// A getfield that succeeded: the class handle on top was replaced by the value of that class's referenced field.
pub open spec fn get_field_done(f0: Frame, f1: Frame, l: Loader) -> bool {
    &&& f1.ip == f0.ip + 3
    &&& f1.locals@ == f0.locals@
    &&& f1.arrays@ == f0.arrays@
    &&& (member_ref(f0.code@, f0.cp@, f0.ip as int) matches Ok((cn, f, t))
        && (f0.stack@.len() >= 1 && (f0.stack@.last() matches Types::Class(obj) && ({
        let h = l.handle_of(obj@);
        let i = l.field_slot(h, f, t);
        &&& l.class_at(h, obj@)
        &&& i < l.loaded_classes@[h].fields@.len()
        &&& f1.stack@ == f0.stack@.drop_last().push(l.field_value(h, i))
    }))))
}

/// A putfield that succeeded: the value on top is in the referenced field of the class whose handle was below it; both were popped.
pub open spec fn put_field_done(f0: Frame, f1: Frame, l: Loader) -> bool {
    &&& f1.ip == f0.ip + 3
    &&& f1.locals@ == f0.locals@
    &&& f1.arrays@ == f0.arrays@
    &&& (member_ref(f0.code@, f0.cp@, f0.ip as int) matches Ok((cn, f, t))
        && (f0.stack@.len() >= 2 && (f0.stack@[f0.stack@.len() - 2] matches Types::Class(
        obj,
    ) && ({
        let n = f0.stack@.len() as int;
        let h = l.handle_of(obj@);
        let i = l.field_slot(h, f, t);
        &&& l.class_at(h, obj@)
        &&& i < l.loaded_classes@[h].fields@.len()
        &&& l.field_value(h, i) == f0.stack@.last()
        &&& f1.stack@ == f0.stack@.subrange(0, n - 2)
    }))))
}

/// A `new` that succeeded: a handle naming the referenced class, now loaded, was
/// pushed.
pub open spec fn new_done(f0: Frame, f1: Frame, l: Loader) -> bool {
    &&& f1.ip == f0.ip + 3
    &&& f1.locals@ == f0.locals@
    &&& f1.arrays@ == f0.arrays@
    &&& (operand16(f0.code@, f0.ip as int) matches Some(idx) && (class_name_at(f0.cp@, idx as int) matches Ok(
        cn,
    ) && (f1.stack@.drop_last() == f0.stack@ && (f1.stack@.last() matches Types::Class(s) && s@ == cn
        && l.has_class(cn)))))
}

/// An `ldc` of a class entry that succeeded: a handle naming that class, now
/// loaded, was pushed.
pub open spec fn ldc_class_done(f0: Frame, f1: Frame, l: Loader) -> bool {
    &&& f1.ip == f0.ip + 2
    &&& f1.locals@ == f0.locals@
    &&& f1.arrays@ == f0.arrays@
    &&& (code_at(f0.code@, f0.ip + 1) matches Some(idx) && (class_name_at(f0.cp@, idx as int) matches Ok(cn)
        && (f1.stack@.drop_last() == f0.stack@ && (f1.stack@.last() matches Types::Class(s) && s@ == cn
        && l.has_class(cn)))))
}

/// A dadd or dsub that succeeded: the two doubles on top were replaced by one.
pub open spec fn double_done(f0: Frame, f1: Frame) -> bool {
    let n = f0.stack@.len() as int;
    &&& f1.ip == f0.ip + 1
    &&& f1.locals@ == f0.locals@
    &&& f1.arrays@ == f0.arrays@
    &&& n >= 2 && f0.stack@[n - 1] is Double && f0.stack@[n - 2] is Double
    &&& f1.stack@.drop_last() == f0.stack@.subrange(0, n - 2)
    &&& f1.stack@.last() is Double
}

/// An invocation that succeeded: the instruction referred to a method; one value
/// per parameter (and the receiver, when `receiver` holds) was popped, and the
/// callee's result pushed unless it was `Void`; the frame moved past it.
pub open spec fn invoke_done(f0: Frame, f1: Frame, receiver: bool) -> bool {
    &&& f1.ip == f0.ip + 3
    &&& f1.locals@ == f0.locals@
    &&& f1.arrays@ == f0.arrays@
    &&& (member_ref(f0.code@, f0.cp@, f0.ip as int) matches Ok((cn, mn, md)) && (param_kinds_of(md) matches Some(
        ks,
    ) && ({
        let n = f0.stack@.len() as int;
        let k = ks.len() + if receiver {
            1int
        } else {
            0int
        };
        &&& k <= n
        &&& n - k <= f1.stack@.len() <= n - k + 1
        &&& f1.stack@.subrange(0, n - k) == f0.stack@.subrange(0, n - k)
        &&& f1.stack@.len() == n - k + 1 ==> !(f1.stack@.last() is Void)
    })))
}

/// What a successful `op` that needs the registry or the host did, from frame
/// `f0` to frame `f1`, with registry `l0` before it and `l` after it.
pub open spec fn outside_done(op: Opcodes, f0: Frame, f1: Frame, l0: Loader, l: Loader) -> bool {
    match op {
        Opcodes::GETSTATIC => get_static_done(f0, f1, l0, l),
        Opcodes::PUTSTATIC => put_static_done(f0, f1, l),
        Opcodes::GETFIELD => get_field_done(f0, f1, l),
        Opcodes::PUTFIELD => put_field_done(f0, f1, l),
        Opcodes::NEW => new_done(f0, f1, l),
        Opcodes::LDC => op_step(f0.code@, f0.cp.consts@, f0.state(), op) is None ==> ldc_class_done(f0, f1, l),
        Opcodes::DADD | Opcodes::DSUB => double_done(f0, f1),
        Opcodes::INVOKEVIRTUAL | Opcodes::INVOKESPECIAL => invoke_done(f0, f1, true),
        Opcodes::INVOKESTATIC => invoke_done(f0, f1, false),
        _ => true,
    }
}

/// When a static field access at `f0` needs nothing from the host, so that it
/// must succeed: its reference resolves, the class is loaded with registry `l0`
/// and has the field (and, for putstatic, a value is there to store).
pub open spec fn static_access_owed(op: Opcodes, f0: Frame, l0: Loader) -> bool {
    &&& op is GETSTATIC || op is PUTSTATIC
    &&& member_ref(f0.code@, f0.cp@, f0.ip as int) matches Ok((cn, f, t)) && (l0.has_class(cn)
        && l0.field_slot(l0.handle_of(cn), f, t) < l0.loaded_classes@[l0.handle_of(cn)].fields@.len())
    &&& op is PUTSTATIC ==> f0.stack@.len() >= 1
}

/// One instruction, from frame `f0` to frame `f1` with result `r`, the registry
/// being `l0` before it and `l` after it: what `step` promises of it.
pub open spec fn step_rel(f0: Frame, f1: Frame, l0: Loader, l: Loader, r: Result<Option<Types>, VmError>) -> bool {
    &&& f1.fixed(f0)
    &&& match local_step(f0.code@, f0.cp.consts@, f0.state()) {
        Some(Step::Next(st)) => r == Ok::<Option<Types>, VmError>(None) && f1.state() == st,
        Some(Step::Done(v)) => r == Ok::<Option<Types>, VmError>(Some(v)),
        Some(Step::Fail(e)) => r == Err::<Option<Types>, VmError>(e),
        None => true,
    }
    &&& (code_at(f0.code@, f0.ip as int) matches Some(b) && decode_opcode(b) is None) ==> f1 == f0
    &&& code_at(f0.code@, f0.ip as int) matches Some(b) ==> (decode_opcode(b) matches Some(op) ==> (r
        == Ok::<Option<Types>, VmError>(None) ==> outside_done(op, f0, f1, l0, l)))
}

/// The result of a whole run as the result of its last instruction.
pub open spec fn as_step_result(r: Result<Types, VmError>) -> Result<Option<Types>, VmError> {
    match r {
        Ok(v) => Ok(Some(v)),
        Err(e) => Err(e),
    }
}

/// A run through the frames `tr`, `ls` being the registry at each of them,
/// that ended with `r`: every instruction but the last went on to the next; the
/// last one ended the run with `r`, or the instruction budget ran out
/// (`StepLimit`) with no instruction left to run.
pub open spec fn run_trace(tr: Seq<Frame>, ls: Seq<Loader>, r: Result<Types, VmError>) -> bool {
    let n = tr.len() as int;
    &&& n >= 1
    &&& ls.len() == n
    &&& forall|i: int| 0 <= i < n - 2 ==> #[trigger] step_rel(tr[i], tr[i + 1], ls[i], ls[i + 1], Ok(None))
    &&& n == 1 ==> r == Err::<Types, VmError>(VmError::StepLimit)
    &&& n >= 2 ==> (step_rel(tr[n - 2], tr[n - 1], ls[n - 2], ls[n - 1], as_step_result(r)) || (r == Err::<
        Types,
        VmError,
    >(VmError::StepLimit) && step_rel(tr[n - 2], tr[n - 1], ls[n - 2], ls[n - 1], Ok(None))))
}

impl Frame {
    /// Resolves the member that the current instruction refers to, and loads its
    /// class.
    fn member_class<H: Host>(&mut self, rt: &mut Runtime<H>) -> (r: Result<(String, String, String, usize), VmError>)
        requires
            old(rt).loader.wf(),
        ensures
            *final(self) == *old(self),
            final(rt).loader.wf(),
            final(rt).loader.evolves(old(rt).loader),
            final(rt).steps_left == old(rt).steps_left,
            r matches Ok((a, b, d, h)) ==> member_ref(old(self).code@, old(self).cp@, old(self).ip as int)
                == Ok::<(Seq<char>, Seq<char>, Seq<char>), VmError>((a@, b@, d@)) && final(rt).loader.class_at(h as int, a@)
                && old(self).ip + 2 < old(self).code@.len(),
            member_ref(old(self).code@, old(self).cp@, old(self).ip as int) matches Ok((cn, _, _)) ==> (old(
                rt,
            ).loader.has_class(cn) ==> final(rt).loader.loaded_classes@ == old(rt).loader.loaded_classes@
                && r is Ok),
    {
        let (cn, f, t) = match self.member_operand() {
            Ok(x) => x,
            Err(e) => return Err(e),
        };
        let ghost l0 = rt.loader;
        let h0 = rt.loader.resolve_class(&cn, &mut rt.host);
        proof { lemma_extends_evolves(l0, rt.loader); }
        match h0 {
            Ok(h) => Ok((cn, f, t, h)),
            Err(e) => Err(e),
        }
    }

    /// Runs getstatic: pushes the value of the field of the referenced class.
    fn get_static<H: Host>(&mut self, rt: &mut Runtime<H>) -> (r: Result<Option<Types>, VmError>)
        requires
            old(rt).loader.wf(),
        ensures
            final(self).fixed(*old(self)),
            final(self).locals@ == old(self).locals@,
            final(self).arrays@ == old(self).arrays@,
            final(rt).loader.wf(),
            final(rt).loader.evolves(old(rt).loader),
            final(rt).steps_left == old(rt).steps_left,
            r is Ok ==> r == Ok::<Option<Types>, VmError>(None) && final(self).ip == old(self).ip + 3,
            r is Ok ==> get_static_done(*old(self), *final(self), old(rt).loader, final(rt).loader),
            member_ref(old(self).code@, old(self).cp@, old(self).ip as int) matches Ok((cn, f, t)) ==> ({
                let l = old(rt).loader;
                l.has_class(cn) && l.field_slot(l.handle_of(cn), f, t) < l.loaded_classes@[l.handle_of(cn)].fields@.len()
                    ==> r is Ok
            }),
    {
        let (cn, f, t, h0) = match self.member_class(rt) {
            Ok(x) => x,
            Err(e) => return Err(e),
        };
        let i = match rt.loader.field_index(h0, &f, &t) {
            Some(i) => i,
            None => return Err(VmError::FieldNotFound),
        };
        let v = rt.loader.read_field(h0, i);
        self.stack.push(v);
        proof {
            lemma_handle_of(rt.loader, h0 as int, cn@);
        }
        self.skip(3);
        Ok(None)
    }

    /// Runs putstatic: pops a value into the field of the referenced class.
    fn put_static<H: Host>(&mut self, rt: &mut Runtime<H>) -> (r: Result<Option<Types>, VmError>)
        requires
            old(rt).loader.wf(),
        ensures
            final(self).fixed(*old(self)),
            final(self).locals@ == old(self).locals@,
            final(self).arrays@ == old(self).arrays@,
            final(rt).loader.wf(),
            final(rt).loader.evolves(old(rt).loader),
            final(rt).steps_left == old(rt).steps_left,
            r is Ok ==> r == Ok::<Option<Types>, VmError>(None) && final(self).ip == old(self).ip + 3,
            r is Ok ==> put_static_done(*old(self), *final(self), final(rt).loader),
            member_ref(old(self).code@, old(self).cp@, old(self).ip as int) matches Ok((cn, f, t)) ==> ({
                let l = old(rt).loader;
                l.has_class(cn) && l.field_slot(l.handle_of(cn), f, t) < l.loaded_classes@[l.handle_of(cn)].fields@.len() && old(self).stack@.len() >= 1
                    ==> r is Ok
            }),
    {
        let (cn, f, t, h0) = match self.member_class(rt) {
            Ok(x) => x,
            Err(e) => return Err(e),
        };
        let ghost l1 = rt.loader;
        let i = match rt.loader.field_index(h0, &f, &t) {
            Some(i) => i,
            None => return Err(VmError::FieldNotFound),
        };
        let v = match self.pop() {
            Ok(v) => v,
            Err(e) => return Err(e),
        };
        rt.loader.write_field(h0, i, v);
        proof {
            lemma_evolves_trans(old(rt).loader, l1, rt.loader);
            assert(rt.loader.loaded_classes@[h0 as int]@ == l1.loaded_classes@[h0 as int]@);
            lemma_handle_of(rt.loader, h0 as int, cn@);
        }
        self.skip(3);
        Ok(None)
    }

    /// Runs getfield: pops a class handle and pushes the value of that class's field.
    fn get_field<H: Host>(&mut self, rt: &mut Runtime<H>) -> (r: Result<Option<Types>, VmError>)
        requires
            old(rt).loader.wf(),
        ensures
            final(self).fixed(*old(self)),
            final(self).locals@ == old(self).locals@,
            final(self).arrays@ == old(self).arrays@,
            final(rt).loader.wf(),
            final(rt).loader.evolves(old(rt).loader),
            final(rt).steps_left == old(rt).steps_left,
            r is Ok ==> r == Ok::<Option<Types>, VmError>(None) && final(self).ip == old(self).ip + 3,
            r is Ok ==> get_field_done(*old(self), *final(self), final(rt).loader),
    {
        let (cn, f, t, h0) = match self.member_class(rt) {
            Ok(x) => x,
            Err(e) => return Err(e),
        };
        let ghost l1 = rt.loader;
        let obj = match self.pop() {
            Ok(Types::Class(name)) => name,
            Ok(_) => return Err(VmError::TypeMismatch),
            Err(e) => return Err(e),
        };
        let h = rt.loader.resolve_class(&obj, &mut rt.host);
        proof {
            lemma_extends_evolves(l1, rt.loader);
            lemma_evolves_trans(old(rt).loader, l1, rt.loader);
        }
        let h = match h {
            Ok(h) => h,
            Err(e) => return Err(e),
        };
        let i = match rt.loader.field_index(h, &f, &t) {
            Some(i) => i,
            None => return Err(VmError::FieldNotFound),
        };
        let v = rt.loader.read_field(h, i);
        self.stack.push(v);
        proof {
            lemma_handle_of(rt.loader, h as int, obj@);
        }
        self.skip(3);
        Ok(None)
    }

    /// Runs putfield: pops a value and a class handle, and stores the value in that
    /// class's field.
    fn put_field<H: Host>(&mut self, rt: &mut Runtime<H>) -> (r: Result<Option<Types>, VmError>)
        requires
            old(rt).loader.wf(),
        ensures
            final(self).fixed(*old(self)),
            final(self).locals@ == old(self).locals@,
            final(self).arrays@ == old(self).arrays@,
            final(rt).loader.wf(),
            final(rt).loader.evolves(old(rt).loader),
            final(rt).steps_left == old(rt).steps_left,
            r is Ok ==> r == Ok::<Option<Types>, VmError>(None) && final(self).ip == old(self).ip + 3,
            r is Ok ==> put_field_done(*old(self), *final(self), final(rt).loader),
    {
        let (cn, f, t, h0) = match self.member_class(rt) {
            Ok(x) => x,
            Err(e) => return Err(e),
        };
        let ghost l1 = rt.loader;
        let n = self.stack.len();
        let v = match self.pop() {
            Ok(v) => v,
            Err(e) => return Err(e),
        };
        let obj = match self.pop() {
            Ok(Types::Class(name)) => name,
            Ok(_) => return Err(VmError::TypeMismatch),
            Err(e) => return Err(e),
        };
        let h = rt.loader.resolve_class(&obj, &mut rt.host);
        proof {
            lemma_extends_evolves(l1, rt.loader);
            lemma_evolves_trans(old(rt).loader, l1, rt.loader);
        }
        let h = match h {
            Ok(h) => h,
            Err(e) => return Err(e),
        };
        let ghost l2 = rt.loader;
        let i = match rt.loader.field_index(h, &f, &t) {
            Some(i) => i,
            None => return Err(VmError::FieldNotFound),
        };
        rt.loader.write_field(h, i, v);
        proof {
            lemma_evolves_trans(old(rt).loader, l2, rt.loader);
            assert(rt.loader.loaded_classes@[h as int]@ == l2.loaded_classes@[h as int]@);
            lemma_handle_of(rt.loader, h as int, obj@);
            assert(self.stack@ =~= old(self).stack@.subrange(0, n - 2));
        }
        self.skip(3);
        Ok(None)
    }
}

impl Frame {
    /// Resolves the class entry at pool index `idx`, loading the class, and returns
    /// a handle value naming it.
    fn class_value<H: Host>(&self, idx: u16, rt: &mut Runtime<H>) -> (r: Result<Types, VmError>)
        requires
            old(rt).loader.wf(),
        ensures
            final(rt).loader.wf(),
            final(rt).loader.evolves(old(rt).loader),
            final(rt).steps_left == old(rt).steps_left,
            r matches Ok(v) ==> (class_name_at(self.cp@, idx as int) matches Ok(cn) && (v matches Types::Class(s)
                && s@ == cn && final(rt).loader.has_class(cn))),
    {
        let j = match self.cp.get(idx) {
            Ok(Const::Class(j)) => j,
            _ => return Err(VmError::ConstantPoolError),
        };
        let name = match self.cp.resolve(j) {
            Ok(n) => n,
            Err(e) => return Err(e),
        };
        let ghost l0 = rt.loader;
        let h = rt.loader.resolve_class(&name, &mut rt.host);
        proof {
            lemma_extends_evolves(l0, rt.loader);
        }
        match h {
            Ok(h) => {
                assert(rt.loader.class_at(h as int, name@));
                Ok(Types::Class(name))
            },
            Err(e) => Err(e),
        }
    }

    /// Runs `new`: pushes a handle naming the class that the u16 operand refers to.
    fn new_object<H: Host>(&mut self, rt: &mut Runtime<H>) -> (r: Result<Option<Types>, VmError>)
        requires
            old(rt).loader.wf(),
        ensures
            final(self).fixed(*old(self)),
            final(self).locals@ == old(self).locals@,
            final(self).arrays@ == old(self).arrays@,
            final(rt).loader.wf(),
            final(rt).loader.evolves(old(rt).loader),
            final(rt).steps_left == old(rt).steps_left,
            r is Ok ==> r == Ok::<Option<Types>, VmError>(None) && new_done(*old(self), *final(self), final(rt).loader),
    {
        let idx = match self.read_u16() {
            Ok(i) => i,
            Err(e) => return Err(e),
        };
        let v = match self.class_value(idx, rt) {
            Ok(v) => v,
            Err(e) => return Err(e),
        };
        self.stack.push(v);
        assert(self.stack@.drop_last() =~= old(self).stack@);
        self.skip(3);
        Ok(None)
    }

    /// Runs `ldc` on a class entry: pushes a handle naming that class.
    fn ldc_class<H: Host>(&mut self, rt: &mut Runtime<H>) -> (r: Result<Option<Types>, VmError>)
        requires
            old(rt).loader.wf(),
        ensures
            final(self).fixed(*old(self)),
            final(self).locals@ == old(self).locals@,
            final(self).arrays@ == old(self).arrays@,
            final(rt).loader.wf(),
            final(rt).loader.evolves(old(rt).loader),
            final(rt).steps_left == old(rt).steps_left,
            r is Ok ==> r == Ok::<Option<Types>, VmError>(None) && ldc_class_done(*old(self), *final(self), final(rt).loader),
    {
        if self.ip >= self.code.len() || self.code.len() - self.ip < 2 {
            return Err(VmError::ClassFormatError);
        }
        let idx = self.code[self.ip + 1];
        let v = match self.class_value(idx as u16, rt) {
            Ok(v) => v,
            Err(e) => return Err(e),
        };
        self.stack.push(v);
        assert(self.stack@.drop_last() =~= old(self).stack@);
        self.skip(2);
        Ok(None)
    }

    /// Runs dadd or dsub, with the arithmetic done by the host on the bit patterns:
    /// the value below the top is the left operand.
    fn double_arith<H: Host>(&mut self, op: Opcodes, rt: &mut Runtime<H>) -> (r: Result<Option<Types>, VmError>)
        requires
            old(self).ip < old(self).code@.len(),
        ensures
            final(self).fixed(*old(self)),
            final(self).locals@ == old(self).locals@,
            final(self).arrays@ == old(self).arrays@,
            final(rt).loader == old(rt).loader,
            final(rt).steps_left == old(rt).steps_left,
            ({
                let s = old(self).stack@;
                let n = s.len() as int;
                r is Ok <==> (n >= 2 && s[n - 1] is Double && s[n - 2] is Double)
            }),
            r is Ok ==> r == Ok::<Option<Types>, VmError>(None) && double_done(*old(self), *final(self)),
    {
        let n = self.stack.len();
        let right = match self.pop_double() {
            Ok(v) => v,
            Err(e) => return Err(e),
        };
        let left = match self.pop_double() {
            Ok(v) => v,
            Err(e) => return Err(e),
        };
        let v = if op == Opcodes::DADD {
            rt.host.double_add(left, right)
        } else {
            rt.host.double_sub(left, right)
        };
        self.stack.push(Types::Double(v));
        proof {
            assert(self.stack@.drop_last() =~= old(self).stack@.subrange(0, n - 2));
        }
        self.skip(1);
        Ok(None)
    }

    /// Runs invokevirtual, invokespecial or invokestatic: pops the arguments (with
    /// the receiver, but for invokestatic), runs the referenced method of the
    /// referenced class in a new frame one level deeper, and pushes its result
    /// unless it is `Void`.
    fn invoke<H: Host>(&mut self, op: Opcodes, rt: &mut Runtime<H>, depth: u32) -> (r: Result<Option<Types>, VmError>)
        requires
            old(rt).loader.wf(),
        ensures
            final(self).fixed(*old(self)),
            final(self).locals@ == old(self).locals@,
            final(self).arrays@ == old(self).arrays@,
            final(rt).loader.wf(),
            final(rt).loader.evolves(old(rt).loader),
            final(rt).steps_left <= old(rt).steps_left,
            r is Ok ==> r == Ok::<Option<Types>, VmError>(None) && invoke_done(
                *old(self),
                *final(self),
                op != Opcodes::INVOKESTATIC,
            ),
            depth == 0 && r is Err ==> final(rt).steps_left == old(rt).steps_left,
        decreases depth, 0nat,
    {
        let (cn, mn, md) = match self.member_operand() {
            Ok(x) => x,
            Err(e) => return Err(e),
        };
        let ghost l0 = rt.loader;
        let h = rt.loader.resolve_class(&cn, &mut rt.host);
        proof {
            lemma_extends_evolves(l0, rt.loader);
        }
        let h = match h {
            Ok(h) => h,
            Err(e) => return Err(e),
        };
        let args = match self.pop_args(&md, op != Opcodes::INVOKESTATIC) {
            Ok(a) => a,
            Err(e) => return Err(e),
        };
        let ghost popped = self.stack@;
        assert(popped.subrange(0, popped.len() as int) =~= popped);
        if depth == 0 {
            return Err(VmError::RecursionLimit);
        }
        let mut callee = match rt.loader.loaded_classes[h].frame(mn, md, args) {
            Ok(f) => f,
            Err(e) => return Err(e),
        };
        let ghost l1 = rt.loader;
        let v = callee.run(rt, depth - 1);
        proof {
            lemma_evolves_trans(old(rt).loader, l1, rt.loader);
        }
        match v {
            Ok(Types::Void) => {},
            Ok(v) => {
                self.stack.push(v);
                assert(self.stack@.subrange(0, popped.len() as int) =~= popped);
            },
            Err(e) => return Err(e),
        }
        self.skip(3);
        Ok(None)
    }

    /// Runs a native frame: the host runs the method on the locals.
    fn exec_native<H: Host>(&self, rt: &mut Runtime<H>) -> (r: Result<Types, VmError>)
        ensures
            final(rt).loader == old(rt).loader,
            final(rt).steps_left == old(rt).steps_left,
            r is Err ==> r == Err::<Types, VmError>(VmError::ClassNotFound) || r == Err::<Types, VmError>(
                VmError::MethodNotFound,
            ),
            r is Err ==> (r == Err::<Types, VmError>(VmError::ClassNotFound) <==> !old(rt).loader.has_class(self.class@)),
    {
        let h = match rt.loader.find(&self.class) {
            Some(h) => h,
            None => return Err(VmError::ClassNotFound),
        };
        let args = copy_values(&self.locals);
        match rt.host.invoke_native(&rt.loader.loaded_classes[h], &self.method, &self.desc, args) {
            Some(v) => Ok(v),
            None => Err(VmError::MethodNotFound),
        }
    }

    /// Runs the instruction at `ip`, `depth` levels of nested calls allowed. An
    /// opcode byte outside the instruction set fails with `UnsupportedOpcode` and
    /// leaves the frame as it was.
    pub fn step<H: Host>(&mut self, rt: &mut Runtime<H>, depth: u32) -> (r: Result<Option<Types>, VmError>)
        requires
            old(rt).loader.wf(),
        ensures
            final(self).fixed(*old(self)),
            final(rt).loader.wf(),
            final(rt).loader.evolves(old(rt).loader),
            final(rt).steps_left <= old(rt).steps_left,
            step_rel(*old(self), *final(self), old(rt).loader, final(rt).loader, r),
            code_at(old(self).code@, old(self).ip as int) matches Some(b) ==> (decode_opcode(b) matches Some(op)
                ==> (static_access_owed(op, *old(self), old(rt).loader) ==> r is Ok)),
            local_step(old(self).code@, old(self).cp.consts@, old(self).state()) matches Some(Step::Next(_))
                ==> final(rt).steps_left == old(rt).steps_left,
        decreases depth, 1nat,
    {
        if self.ip >= self.code.len() {
            return Err(VmError::ClassFormatError);
        }
        let op = match Opcodes::from_u8(self.code[self.ip]) {
            Some(op) => op,
            None => return Err(VmError::UnsupportedOpcode),
        };
        match op {
            Opcodes::LDC => {
                if self.code.len() - self.ip >= 2 {
                    let idx = self.code[self.ip + 1];
                    match self.cp.get(idx as u16) {
                        Ok(Const::Class(_)) => return self.ldc_class(rt),
                        _ => {},
                    }
                }
                self.exec_local(op)
            },
            Opcodes::DADD | Opcodes::DSUB => self.double_arith(op, rt),
            Opcodes::GETSTATIC => self.get_static(rt),
            Opcodes::PUTSTATIC => self.put_static(rt),
            Opcodes::GETFIELD => self.get_field(rt),
            Opcodes::PUTFIELD => self.put_field(rt),
            Opcodes::INVOKEVIRTUAL | Opcodes::INVOKESPECIAL | Opcodes::INVOKESTATIC => self.invoke(op, rt, depth),
            Opcodes::NEW => self.new_object(rt),
            _ => self.exec_local(op),
        }
    }

    /// Runs the frame to its end, `depth` levels of nested calls allowed.
    fn run<H: Host>(&mut self, rt: &mut Runtime<H>, depth: u32) -> (r: Result<Types, VmError>)
        requires
            old(rt).loader.wf(),
        ensures
            final(rt).loader.wf(),
            final(rt).loader.evolves(old(rt).loader),
            final(rt).steps_left <= old(rt).steps_left,
            !old(self).native ==> (run_local(
                old(self).code@,
                old(self).cp.consts@,
                old(self).state(),
                old(rt).steps_left as nat,
            ) matches Some(res) ==> r == res),
            old(self).native ==> final(rt).loader == old(rt).loader && *final(self) == *old(self),
            !old(self).native ==> exists|tr: Seq<Frame>, ls: Seq<Loader>|
                run_trace(tr, ls, r) && tr[0] == *old(self) && tr.last() == *final(self),
            old(self).native && r is Err ==> (r == Err::<Types, VmError>(VmError::ClassNotFound)
                <==> !old(rt).loader.has_class(old(self).class@)),
            old(self).native && r is Err ==> (r == Err::<Types, VmError>(VmError::ClassNotFound) || r == Err::<
                Types,
                VmError,
            >(VmError::MethodNotFound)),
        decreases depth, 2nat,
    {
        if self.native {
            return self.exec_native(rt);
        }
        let ghost code0 = self.code@;
        let ghost pool0 = self.cp.consts@;
        let ghost start = run_local(code0, pool0, self.state(), rt.steps_left as nat);
        let ghost mut tr: Seq<Frame> = seq![*self];
        let ghost mut ls: Seq<Loader> = seq![rt.loader];
        loop
            invariant
                tr.len() >= 1,
                ls.len() == tr.len(),
                tr[0] == *old(self),
                tr.last() == *self,
                ls.last() == rt.loader,
                forall|i: int| 0 <= i < tr.len() - 1 ==> #[trigger] step_rel(tr[i], tr[i + 1], ls[i], ls[i + 1], Ok(None)),
                self.fixed(*old(self)),
                !self.native,
                code0 == self.code@,
                pool0 == self.cp.consts@,
                start == run_local(code0, pool0, old(self).state(), old(rt).steps_left as nat),
                rt.loader.wf(),
                rt.loader.evolves(old(rt).loader),
                rt.steps_left <= old(rt).steps_left,
                start matches Some(res) ==> run_local(code0, pool0, self.state(), rt.steps_left as nat)
                    == Some(res),
            decreases rt.steps_left,
        {
            if rt.steps_left == 0 {
                proof {
                    if tr.len() >= 2 {
                        let n = tr.len() as int;
                        assert(step_rel(tr[n - 2], tr[n - 2 + 1], ls[n - 2], ls[n - 2 + 1], Ok(None)));
                    }
                    assert(run_trace(tr, ls, Err(VmError::StepLimit)));
                }
                return Err(VmError::StepLimit);
            }
            rt.steps_left = rt.steps_left - 1;
            let ghost l0 = rt.loader;
            let ghost f0 = *self;
            let res = self.step(rt, depth);
            let ghost tr2 = tr.push(*self);
            let ghost ls2 = ls.push(rt.loader);
            proof {
                lemma_evolves_trans(old(rt).loader, l0, rt.loader);
                assert(tr2[tr.len() - 1] == f0);
                assert(ls2[tr.len() - 1] == l0);
                assert forall|i: int| 0 <= i < tr.len() - 1 implies #[trigger] step_rel(tr2[i], tr2[i + 1], ls2[i], ls2[i + 1], Ok(None)) by {
                    assert(tr2[i] == tr[i] && tr2[i + 1] == tr[i + 1] && ls2[i] == ls[i] && ls2[i + 1] == ls[i + 1]);
                }
            }
            match res {
                Ok(None) => {
                    proof {
                        tr = tr2;
                        ls = ls2;
                    }
                },
                Ok(Some(v)) => {
                    proof {
                        assert(run_trace(tr2, ls2, Ok(v)));
                    }
                    return Ok(v);
                },
                Err(e) => {
                    proof {
                        assert(run_trace(tr2, ls2, Err(e)));
                    }
                    return Err(e);
                },
            }
        }
    }

    /// Runs the frame to its end with the runtime's call depth. A native frame is
    /// run by the host. For bytecode, where every instruction reached within the
    /// instruction budget is one that `local_step` describes, the result is the
    /// one that `run_local` gives.
    pub fn exec<H: Host>(&mut self, rt: &mut Runtime<H>) -> (r: Result<Types, VmError>)
        requires
            old(rt).loader.wf(),
        ensures
            final(rt).loader.wf(),
            final(rt).loader.evolves(old(rt).loader),
            final(rt).steps_left <= old(rt).steps_left,
            !old(self).native ==> (run_local(
                old(self).code@,
                old(self).cp.consts@,
                old(self).state(),
                old(rt).steps_left as nat,
            ) matches Some(res) ==> r == res),
            old(self).native ==> final(rt).loader == old(rt).loader && *final(self) == *old(self),
            !old(self).native ==> exists|tr: Seq<Frame>, ls: Seq<Loader>|
                run_trace(tr, ls, r) && tr[0] == *old(self) && tr.last() == *final(self),
            old(self).native && r is Err ==> (r == Err::<Types, VmError>(VmError::ClassNotFound)
                <==> !old(rt).loader.has_class(old(self).class@)),
            old(self).native && r is Err ==> (r == Err::<Types, VmError>(VmError::ClassNotFound) || r == Err::<
                Types,
                VmError,
            >(VmError::MethodNotFound)),
    {
        let depth = rt.max_depth;
        self.run(rt, depth)
    }
}

} // verus!
