use vstd::prelude::*;

verus! {

/// Errors raised while loading classes or running bytecode.
#[derive(Debug, Clone, Copy, PartialEq, Eq, Structural)]
pub enum VmError {
    /// Bad magic, truncated stream, unknown constant tag, malformed code.
    ClassFormatError,
    /// Pool index out of range, or the wrong kind of entry at an index.
    ConstantPoolError,
    /// No class file was found for a requested name.
    ClassNotFound,
    /// No method with the requested name and descriptor.
    MethodNotFound,
    /// No field with the requested name and descriptor.
    FieldNotFound,
    /// Pop from an empty stack, or a local index out of range.
    StackUnderflow,
    /// A value of the wrong kind for the instruction.
    TypeMismatch,
    /// An opcode byte outside the implemented instruction set.
    UnsupportedOpcode,
    /// The call depth budget is exhausted.
    RecursionLimit,
    /// The instruction budget is exhausted.
    StepLimit,
    /// An array handle or element index out of range, or a negative length.
    ArrayIndexOutOfBounds,
}

/// Element type tags of `newarray`.
#[derive(Debug, Clone, Copy, PartialEq, Eq, Structural)]
pub enum ArrayTypes {
    BOOLEAN,
    CHAR,
    FLOAT,
    DOUBLE,
    BYTE,
    SHORT,
    INT,
    LONG,
}

pub open spec fn array_type_of(b: u8) -> Option<ArrayTypes> {
    if b == 4 {
        Some(ArrayTypes::BOOLEAN)
    } else if b == 5 {
        Some(ArrayTypes::CHAR)
    } else if b == 6 {
        Some(ArrayTypes::FLOAT)
    } else if b == 7 {
        Some(ArrayTypes::DOUBLE)
    } else if b == 8 {
        Some(ArrayTypes::BYTE)
    } else if b == 9 {
        Some(ArrayTypes::SHORT)
    } else if b == 10 {
        Some(ArrayTypes::INT)
    } else if b == 11 {
        Some(ArrayTypes::LONG)
    } else {
        None
    }
}

impl ArrayTypes {
    /// The element type with tag `b` (4 to 11), if any.
    pub fn from_u8(b: u8) -> (r: Option<ArrayTypes>)
        ensures
            r == array_type_of(b),
    {
        match b {
            4 => Some(ArrayTypes::BOOLEAN),
            5 => Some(ArrayTypes::CHAR),
            6 => Some(ArrayTypes::FLOAT),
            7 => Some(ArrayTypes::DOUBLE),
            8 => Some(ArrayTypes::BYTE),
            9 => Some(ArrayTypes::SHORT),
            10 => Some(ArrayTypes::INT),
            11 => Some(ArrayTypes::LONG),
            _ => None,
        }
    }
}

/// A runtime value. Floating-point values are held as their IEEE-754 bit patterns.
#[derive(Debug, PartialEq)]
pub enum Types {
    Int(i32),
    Double(u64),
    Float(u32),
    Long(i64),
    Void,
    /// A nominal handle naming a class.
    Class(String),
    /// A handle into the array arena of the frame that allocated it.
    Array(usize, ArrayTypes),
    Boolean(bool),
    Str(String),
}

impl Types {
    /// An equal copy of the value.
    pub fn copy(&self) -> (r: Types)
        ensures
            r == *self,
    {
        match self {
            Types::Int(i) => Types::Int(*i),
            Types::Double(d) => Types::Double(*d),
            Types::Float(f) => Types::Float(*f),
            Types::Long(l) => Types::Long(*l),
            Types::Void => Types::Void,
            Types::Class(s) => Types::Class(s.clone()),
            Types::Array(h, t) => Types::Array(*h, *t),
            Types::Boolean(b) => Types::Boolean(*b),
            Types::Str(s) => Types::Str(s.clone()),
        }
    }

    /// Whether the value takes two slots in the source format (long and double).
    pub fn is_wide(&self) -> (r: bool)
        ensures
            r == (self is Long || self is Double),
    {
        match self {
            Types::Long(_) | Types::Double(_) => true,
            _ => false,
        }
    }
}

/// One constant-pool entry.
#[derive(Debug)]
pub enum Const {
    /// A UTF-8 string.
    Str(String),
    Int(i32),
    /// A float, as its bit pattern.
    Float(u32),
    /// A double, as its bit pattern.
    Double(u64),
    Long(i64),
    /// A class: the index of its UTF-8 name.
    Class(u16),
    /// A field or method reference: class index and name-and-type index.
    FMIRef(u16, u16),
    /// A string literal: the index of its UTF-8 text.
    StrIndex(u16),
    /// Name index and descriptor index.
    NameAndType(u16, u16),
    /// The unreadable slot after a long or a double.
    Invalid,
}

/// What a pool entry holds, with strings as character sequences.
pub enum ConstModel {
    Str(Seq<char>),
    Int(i32),
    Float(u32),
    Double(u64),
    Long(i64),
    Class(u16),
    FMIRef(u16, u16),
    StrIndex(u16),
    NameAndType(u16, u16),
    Invalid,
}

impl ConstModel {
    pub open spec fn is_wide(self) -> bool {
        self is Long || self is Double
    }
}

impl View for Const {
    type V = ConstModel;

    open spec fn view(&self) -> ConstModel {
        match self {
            Const::Str(s) => ConstModel::Str(s@),
            Const::Int(i) => ConstModel::Int(*i),
            Const::Float(f) => ConstModel::Float(*f),
            Const::Double(d) => ConstModel::Double(*d),
            Const::Long(l) => ConstModel::Long(*l),
            Const::Class(i) => ConstModel::Class(*i),
            Const::FMIRef(c, n) => ConstModel::FMIRef(*c, *n),
            Const::StrIndex(i) => ConstModel::StrIndex(*i),
            Const::NameAndType(n, d) => ConstModel::NameAndType(*n, *d),
            Const::Invalid => ConstModel::Invalid,
        }
    }
}

impl Const {
    /// An equal copy of the entry.
    pub fn copy(&self) -> (r: Const)
        ensures
            r == *self,
    {
        match self {
            Const::Str(s) => Const::Str(s.clone()),
            Const::Int(i) => Const::Int(*i),
            Const::Float(f) => Const::Float(*f),
            Const::Double(d) => Const::Double(*d),
            Const::Long(l) => Const::Long(*l),
            Const::Class(i) => Const::Class(*i),
            Const::FMIRef(c, n) => Const::FMIRef(*c, *n),
            Const::StrIndex(i) => Const::StrIndex(*i),
            Const::NameAndType(n, d) => Const::NameAndType(*n, *d),
            Const::Invalid => Const::Invalid,
        }
    }
}

/// The constant pool: entry `i` (1-based) is `consts[i - 1]`.
#[derive(Debug)]
pub struct ConstPool {
    pub consts: Vec<Const>,
}

/// The entry at 1-based index `idx` of `pool`, if the index is in range.
pub open spec fn pool_entry<T>(pool: Seq<T>, idx: int) -> Option<T> {
    if 1 <= idx <= pool.len() {
        Some(pool[idx - 1])
    } else {
        None
    }
}

/// The string that index `idx` names, following class entries to the entry they
/// point at, at most `fuel` entries in all.
pub open spec fn resolve_chain(pool: Seq<ConstModel>, idx: int, fuel: nat) -> Result<Seq<char>, VmError>
    decreases fuel,
{
    if fuel == 0 {
        Err(VmError::ConstantPoolError)
    } else {
        match pool_entry(pool, idx) {
            Some(ConstModel::Str(s)) => Ok(s),
            Some(ConstModel::Class(j)) => resolve_chain(pool, j as int, (fuel - 1) as nat),
            _ => Err(VmError::ConstantPoolError),
        }
    }
}

/// The string that index `idx` names: a UTF-8 entry itself, or what the entry
/// that a class entry points at names, transitively. A chain longer than the pool
/// runs in a cycle, and fails.
pub open spec fn resolve_name(pool: Seq<ConstModel>, idx: int) -> Result<Seq<char>, VmError> {
    resolve_chain(pool, idx, pool.len())
}

impl View for ConstPool {
    type V = Seq<ConstModel>;

    open spec fn view(&self) -> Seq<ConstModel> {
        self.consts@.map_values(|c: Const| c@)
    }
}

impl ConstPool {
    /// A copy of the entry at 1-based index `idx`.
    pub fn get(&self, idx: u16) -> (r: Result<Const, VmError>)
        ensures
            match pool_entry(self.consts@, idx as int) {
                Some(c) => r == Ok::<Const, VmError>(c),
                None => r == Err::<Const, VmError>(VmError::ConstantPoolError),
            },
    {
        if idx == 0 || idx as usize > self.consts.len() {
            return Err(VmError::ConstantPoolError);
        }
        Ok(self.consts[idx as usize - 1].copy())
    }

    /// The string named by index `idx`, following a class entry to its name.
    pub fn resolve(&self, idx: u16) -> (r: Result<String, VmError>)
        ensures
            match resolve_name(self@, idx as int) {
                Ok(s) => r matches Ok(t) && t@ == s,
                Err(e) => r == Err::<String, VmError>(e),
            },
    {
        let ghost pool = self@;
        let mut i = idx;
        let mut fuel: usize = self.consts.len();
        while fuel > 0
            invariant
                pool == self@,
                fuel <= self.consts@.len(),
                resolve_name(pool, idx as int) == resolve_chain(pool, i as int, fuel as nat),
            decreases fuel,
        {
            if i == 0 || i as usize > self.consts.len() {
                return Err(VmError::ConstantPoolError);
            }
            assert(pool[i - 1] == self.consts@[i - 1]@);
            match &self.consts[i as usize - 1] {
                Const::Str(s) => return Ok(s.clone()),
                Const::Class(j) => {
                    i = *j;
                },
                _ => return Err(VmError::ConstantPoolError),
            }
            fuel = fuel - 1;
        }
        Err(VmError::ConstantPoolError)
    }
}

/// A named attribute with its raw payload.
#[derive(Debug)]
pub struct Attribute {
    pub name: String,
    pub data: Vec<u8>,
}

/// An attribute with its name as characters.
pub struct AttributeModel {
    pub name: Seq<char>,
    pub data: Seq<u8>,
}

impl View for Attribute {
    type V = AttributeModel;

    open spec fn view(&self) -> AttributeModel {
        AttributeModel { name: self.name@, data: self.data@ }
    }
}

/// A field or a method, with the single value slot that field access reads and writes.
#[derive(Debug)]
pub struct Field {
    pub flags: u16,
    pub name: String,
    pub desc: String,
    pub attr: Vec<Attribute>,
    pub value: Option<Types>,
}

/// A member as the class file gives it: flags, name, descriptor and attributes.
pub struct MemberModel {
    pub flags: u16,
    pub name: Seq<char>,
    pub desc: Seq<char>,
    pub attr: Seq<AttributeModel>,
}

impl View for Field {
    type V = MemberModel;

    open spec fn view(&self) -> MemberModel {
        MemberModel {
            flags: self.flags,
            name: self.name@,
            desc: self.desc@,
            attr: self.attr@.map_values(|a: Attribute| a@),
        }
    }
}

/// Access flags of a method, one per bit.
#[allow(non_snake_case)]
pub struct MethodAccessFlags {
    pub PUBLIC: bool,
    pub PRIVATE: bool,
    pub PROTECTED: bool,
    pub STATIC: bool,
    pub FINAL: bool,
    pub SYNCHRONIZED: bool,
    pub BRIDGE: bool,
    pub VARARGS: bool,
    pub NATIVE: bool,
    pub ABSTRACT: bool,
    pub STRICT: bool,
    pub SYNTHETIC: bool,
}

/// At most one of the public, private and protected bits is set.
pub open spec fn valid_method_flags(flags: u16) -> bool {
    !((flags & 0x1 != 0 && flags & 0x2 != 0) || (flags & 0x1 != 0 && flags & 0x4 != 0) || (
    flags & 0x2 != 0 && flags & 0x4 != 0))
}

impl MethodAccessFlags {
    /// Whether `flags` sets at most one of public, private and protected.
    pub fn is_valid(flags: u16) -> (r: bool)
        ensures
            r == valid_method_flags(flags),
    {
        let public = flags & 0x1 != 0;
        let private = flags & 0x2 != 0;
        let protected = flags & 0x4 != 0;
        !(public && private || public && protected || private && protected)
    }

    /// Splits the access flags of a method into their bits.
    pub fn new(flags: u16) -> (r: Self)
        requires
            valid_method_flags(flags),
        ensures
            r.PUBLIC == (flags & 0x1 != 0),
            r.PRIVATE == (flags & 0x2 != 0),
            r.PROTECTED == (flags & 0x4 != 0),
            r.STATIC == (flags & 0x8 != 0),
            r.FINAL == (flags & 0x10 != 0),
            r.SYNCHRONIZED == (flags & 0x20 != 0),
            r.BRIDGE == (flags & 0x40 != 0),
            r.VARARGS == (flags & 0x80 != 0),
            r.NATIVE == (flags & 0x100 != 0),
            r.ABSTRACT == (flags & 0x400 != 0),
            r.STRICT == (flags & 0x800 != 0),
            r.SYNTHETIC == (flags & 0x1000 != 0),
    {
        MethodAccessFlags {
            PUBLIC: flags & 0x1 != 0,
            PRIVATE: flags & 0x2 != 0,
            PROTECTED: flags & 0x4 != 0,
            STATIC: flags & 0x8 != 0,
            FINAL: flags & 0x10 != 0,
            SYNCHRONIZED: flags & 0x20 != 0,
            BRIDGE: flags & 0x40 != 0,
            VARARGS: flags & 0x80 != 0,
            NATIVE: flags & 0x100 != 0,
            ABSTRACT: flags & 0x400 != 0,
            STRICT: flags & 0x800 != 0,
            SYNTHETIC: flags & 0x1000 != 0,
        }
    }
}

} // verus!
