use crate::class::Class;
use crate::host::Host;
use crate::format::{
    attribute_at, attributes_at, attributes_from, body_at, bytes_at, bytes_u2_at, bytes_u4_at,
    entry_at, interfaces_at, member_at, members_at, members_from, name_at, names_from, parse_class,
    parse_class_at, pool_at, pool_from, pool_slots, super_at, u1_at, u2_at, u4_at, u8_at, ClassModel,
    MAGIC,
};
use crate::types::{Attribute, Const, ConstModel, ConstPool, Field, MemberModel, Types, VmError};
use vstd::prelude::*;
use vstd::utf8::{decode_utf8, valid_utf8};

verus! {

/// Relies on `String::from_utf8`: it succeeds exactly on valid UTF-8 and then
/// holds the characters that the bytes encode.
#[verifier::external_body]
fn string_from_utf8(b: Vec<u8>) -> (r: Option<String>)
    ensures
        match r {
            Some(s) => valid_utf8(b@) && s@ == decode_utf8(b@),
            None => !valid_utf8(b@),
        },
{
    String::from_utf8(b).ok()
}

/// Reads class files and keeps the classes loaded so far, keyed by their names.
pub struct Loader {
    /// The bytes being parsed.
    pub r: Vec<u8>,
    /// The read position in `r`.
    pub pos: usize,
    pub loaded_classes: Vec<Class>,
}

impl Loader {
    /// The bytes and the classes are those of `old`; only the position may differ.
    pub open spec fn keeps(self, old: Loader) -> bool {
        self.r@ == old.r@ && self.loaded_classes@ == old.loaded_classes@
    }

    /// The read position of `self` is `q`, and nothing else differs from `old`.
    pub open spec fn moved(self, old: Loader, q: int) -> bool {
        self.keeps(old) && self.pos == q
    }

    /// A loader with no bytes to read and no classes.
    pub fn new() -> (r: Loader)
        ensures
            r.r@.len() == 0,
            r.pos == 0,
            r.loaded_classes@.len() == 0,
            r.wf(),
    {
        Loader { r: Vec::new(), pos: 0, loaded_classes: Vec::new() }
    }

    /// Reads one byte.
    pub fn u1(&mut self) -> (r: Result<u8, VmError>)
        ensures
            match u1_at(old(self).r@, old(self).pos as int) {
                Ok((v, q)) => r == Ok::<u8, VmError>(v) && final(self).moved(*old(self), q),
                Err(e) => r == Err::<u8, VmError>(e) && *final(self) == *old(self),
            },
    {
        if self.pos < self.r.len() {
            let v = self.r[self.pos];
            self.pos = self.pos + 1;
            Ok(v)
        } else {
            Err(VmError::ClassFormatError)
        }
    }

    /// Reads a big-endian u16.
    pub fn u2(&mut self) -> (r: Result<u16, VmError>)
        ensures
            match u2_at(old(self).r@, old(self).pos as int) {
                Ok((v, q)) => r == Ok::<u16, VmError>(v) && final(self).moved(*old(self), q),
                Err(e) => r == Err::<u16, VmError>(e) && *final(self) == *old(self),
            },
    {
        if self.pos < self.r.len() && self.r.len() - self.pos >= 2 {
            let a = self.r[self.pos];
            let b = self.r[self.pos + 1];
            self.pos = self.pos + 2;
            Ok(a as u16 * 0x100 + b as u16)
        } else {
            Err(VmError::ClassFormatError)
        }
    }

    /// Reads a big-endian u32.
    pub fn u4(&mut self) -> (r: Result<u32, VmError>)
        ensures
            match u4_at(old(self).r@, old(self).pos as int) {
                Ok((v, q)) => r == Ok::<u32, VmError>(v) && final(self).moved(*old(self), q),
                Err(e) => r == Err::<u32, VmError>(e) && *final(self) == *old(self),
            },
    {
        if self.pos < self.r.len() && self.r.len() - self.pos >= 4 {
            let a = self.r[self.pos];
            let b = self.r[self.pos + 1];
            let c = self.r[self.pos + 2];
            let d = self.r[self.pos + 3];
            self.pos = self.pos + 4;
            Ok(a as u32 * 0x1000000 + b as u32 * 0x10000 + c as u32 * 0x100 + d as u32)
        } else {
            Err(VmError::ClassFormatError)
        }
    }

    /// Reads a big-endian u64.
    fn long_bits(&mut self) -> (r: Result<u64, VmError>)
        ensures
            match u8_at(old(self).r@, old(self).pos as int) {
                Ok((v, q)) => r == Ok::<u64, VmError>(v) && final(self).moved(*old(self), q),
                Err(e) => r == Err::<u64, VmError>(e) && final(self).keeps(*old(self)),
            },
    {
        let hi = match self.u4() {
            Ok(v) => v,
            Err(e) => return Err(e),
        };
        let lo = match self.u4() {
            Ok(v) => v,
            Err(e) => return Err(e),
        };
        Ok(hi as u64 * 0x1_0000_0000 + lo as u64)
    }

    /// Reads `N` bytes into an array.
    pub fn bytes<const N: usize>(&mut self) -> (r: Result<[u8; N], VmError>)
        ensures
            match bytes_at(old(self).r@, old(self).pos as int, N as int) {
                Ok((b, q)) => r matches Ok(a) && a@ == b && final(self).moved(*old(self), q),
                Err(e) => r == Err::<[u8; N], VmError>(e) && *final(self) == *old(self),
            },
    {
        if self.pos > self.r.len() || self.r.len() - self.pos < N {
            return Err(VmError::ClassFormatError);
        }
        let mut buf = [0u8; N];
        let mut i: usize = 0;
        while i < N
            invariant
                i <= N,
                self.pos + N <= self.r@.len() <= usize::MAX,
                buf@.len() == N,
                forall|j: int| 0 <= j < i ==> buf@[j] == self.r@[self.pos + j],
            decreases N - i,
        {
            buf[i] = self.r[self.pos + i];
            i = i + 1;
        }
        proof {
            assert(buf@ =~= self.r@.subrange(self.pos as int, self.pos + N));
        }
        self.pos = self.pos + N;
        Ok(buf)
    }

    /// Reads `n` bytes.
    pub fn vec_bytes(&mut self, n: usize) -> (r: Result<Vec<u8>, VmError>)
        ensures
            match bytes_at(old(self).r@, old(self).pos as int, n as int) {
                Ok((b, q)) => r matches Ok(v) && v@ == b && final(self).moved(*old(self), q),
                Err(e) => r == Err::<Vec<u8>, VmError>(e) && *final(self) == *old(self),
            },
    {
        if self.pos > self.r.len() || self.r.len() - self.pos < n {
            return Err(VmError::ClassFormatError);
        }
        let mut v: Vec<u8> = Vec::with_capacity(n);
        let mut i: usize = 0;
        while i < n
            invariant
                i <= n,
                self.pos + n <= self.r@.len() <= usize::MAX,
                v@ =~= self.r@.subrange(self.pos as int, self.pos + i),
            decreases n - i,
        {
            v.push(self.r[self.pos + i]);
            i = i + 1;
        }
        self.pos = self.pos + n;
        Ok(v)
    }

    /// Reads a block of bytes preceded by its length as a u32.
    pub fn vec_bytes_u4(&mut self) -> (r: Result<Vec<u8>, VmError>)
        ensures
            match bytes_u4_at(old(self).r@, old(self).pos as int) {
                Ok((b, q)) => r matches Ok(v) && v@ == b && final(self).moved(*old(self), q),
                Err(e) => r == Err::<Vec<u8>, VmError>(e) && final(self).keeps(*old(self)),
            },
    {
        let n = match self.u4() {
            Ok(n) => n,
            Err(e) => return Err(e),
        };
        self.vec_bytes(n as usize)
    }

    /// Reads a block of bytes preceded by its length as a u16.
    pub fn vec_bytes_u2(&mut self) -> (r: Result<Vec<u8>, VmError>)
        ensures
            match bytes_u2_at(old(self).r@, old(self).pos as int) {
                Ok((b, q)) => r matches Ok(v) && v@ == b && final(self).moved(*old(self), q),
                Err(e) => r == Err::<Vec<u8>, VmError>(e) && final(self).keeps(*old(self)),
            },
    {
        let n = match self.u2() {
            Ok(n) => n,
            Err(e) => return Err(e),
        };
        self.vec_bytes(n as usize)
    }

    /// Reads one constant-pool entry: its tag, then its payload.
    fn entry(&mut self) -> (r: Result<Const, VmError>)
        ensures
            final(self).keeps(*old(self)),
            match entry_at(old(self).r@, old(self).pos as int) {
                Ok((c, q)) => r matches Ok(x) && x@ == c && final(self).pos == q,
                Err(e) => r == Err::<Const, VmError>(e),
            },
    {
        let tag = match self.u1() {
            Ok(t) => t,
            Err(e) => return Err(e),
        };
        if tag == 0x01 {
            let b = match self.vec_bytes_u2() {
                Ok(b) => b,
                Err(e) => return Err(e),
            };
            match string_from_utf8(b) {
                Some(s) => Ok(Const::Str(s)),
                None => Err(VmError::ClassFormatError),
            }
        } else if tag == 0x03 || tag == 0x04 {
            let v = match self.u4() {
                Ok(v) => v,
                Err(e) => return Err(e),
            };
            if tag == 0x03 {
                Ok(Const::Int(#[verifier::truncate] (v as i32)))
            } else {
                Ok(Const::Float(v))
            }
        } else if tag == 0x05 || tag == 0x06 {
            let v = match self.long_bits() {
                Ok(v) => v,
                Err(e) => return Err(e),
            };
            if tag == 0x05 {
                Ok(Const::Long(#[verifier::truncate] (v as i64)))
            } else {
                Ok(Const::Double(v))
            }
        } else if tag == 0x07 || tag == 0x08 {
            let i = match self.u2() {
                Ok(v) => v,
                Err(e) => return Err(e),
            };
            if tag == 0x07 {
                Ok(Const::Class(i))
            } else {
                Ok(Const::StrIndex(i))
            }
        } else if tag == 0x09 || tag == 0x0a || tag == 0x0c {
            let a = match self.u2() {
                Ok(v) => v,
                Err(e) => return Err(e),
            };
            let b = match self.u2() {
                Ok(v) => v,
                Err(e) => return Err(e),
            };
            if tag == 0x0c {
                Ok(Const::NameAndType(a, b))
            } else {
                Ok(Const::FMIRef(a, b))
            }
        } else {
            Err(VmError::ClassFormatError)
        }
    }

    /// Reads the constant pool: a u16 count `n`, then `n - 1` slots, where a long or
    /// a double fills its own slot and leaves the next one `Invalid`.
    pub fn cpinfo(&mut self) -> (r: Result<ConstPool, VmError>)
        ensures
            final(self).keeps(*old(self)),
            match pool_at(old(self).r@, old(self).pos as int) {
                Ok((cp, q)) => r matches Ok(x) && x@ == cp && final(self).pos == q,
                Err(e) => r matches Err(f) && f == e,
            },
    {
        let ghost s = self.r@;
        let n = match self.u2() {
            Ok(n) => n,
            Err(e) => return Err(e),
        };
        let k: u16 = if n == 0 { 0 } else { n - 1 };
        let ghost p0 = self.pos as int;
        let mut consts: Vec<Const> = Vec::new();
        assert(consts@.map_values(|c: Const| c@) =~= Seq::empty());
        let mut wide = false;
        let mut i: u16 = 0;
        while i < k
            invariant
                i <= k,
                k == pool_slots(n),
                self.keeps(*old(self)),
                s == self.r@,
                u2_at(s, old(self).pos as int) == Ok::<(u16, int), VmError>((n, p0)),
                pool_from(s, p0, k as nat, false, Seq::empty()) == pool_from(
                    s,
                    self.pos as int,
                    (k - i) as nat,
                    wide,
                    consts@.map_values(|c: Const| c@),
                ),
            decreases k - i,
        {
            let ghost acc = consts@.map_values(|c: Const| c@);
            if wide {
                consts.push(Const::Invalid);
                wide = false;
                assert(consts@.map_values(|c: Const| c@) =~= acc.push(ConstModel::Invalid));
            } else {
                let c = match self.entry() {
                    Ok(c) => c,
                    Err(e) => return Err(e),
                };
                wide = match &c {
                    Const::Long(_) | Const::Double(_) => true,
                    _ => false,
                };
                let ghost cm = c@;
                consts.push(c);
                assert(consts@.map_values(|c: Const| c@) =~= acc.push(cm));
            }
            i = i + 1;
        }
        if wide {
            return Err(VmError::ClassFormatError);
        }
        Ok(ConstPool { consts })
    }

    /// Reads a u16 pool index and resolves it to the string it names.
    fn resolve_u2(&mut self, cp: &ConstPool) -> (r: Result<String, VmError>)
        ensures
            final(self).keeps(*old(self)),
            match name_at(old(self).r@, old(self).pos as int, cp@) {
                Ok((n, q)) => r matches Ok(x) && x@ == n && final(self).pos == q,
                Err(e) => r matches Err(f) && f == e,
            },
    {
        let idx = match self.u2() {
            Ok(i) => i,
            Err(e) => return Err(e),
        };
        cp.resolve(idx)
    }

    /// Reads the superclass index: 0 gives the empty string.
    fn resolve_super(&mut self, cp: &ConstPool) -> (r: Result<String, VmError>)
        ensures
            final(self).keeps(*old(self)),
            match super_at(old(self).r@, old(self).pos as int, cp@) {
                Ok((n, q)) => r matches Ok(x) && x@ == n && final(self).pos == q,
                Err(e) => r matches Err(f) && f == e,
            },
    {
        let idx = match self.u2() {
            Ok(i) => i,
            Err(e) => return Err(e),
        };
        if idx == 0 {
            Ok(String::new())
        } else {
            cp.resolve(idx)
        }
    }

    /// Reads the interface list: a u16 count, then one class index each.
    fn interfaces(&mut self, cp: &ConstPool) -> (r: Result<Vec<String>, VmError>)
        ensures
            final(self).keeps(*old(self)),
            match interfaces_at(old(self).r@, old(self).pos as int, cp@) {
                Ok((v, q)) => r matches Ok(x) && x@.map_values(|s: String| s@) == v && final(self).pos == q,
                Err(e) => r matches Err(f) && f == e,
            },
    {
        let ghost s = self.r@;
        let n = match self.u2() {
            Ok(n) => n,
            Err(e) => return Err(e),
        };
        let ghost p0 = self.pos as int;
        let mut v: Vec<String> = Vec::new();
        assert(v@.map_values(|x: String| x@) =~= Seq::empty());
        let mut i: u16 = 0;
        while i < n
            invariant
                i <= n,
                self.keeps(*old(self)),
                s == self.r@,
                u2_at(s, old(self).pos as int) == Ok::<(u16, int), VmError>((n, p0)),
                names_from(s, p0, cp@, n as nat, Seq::empty()) == names_from(
                    s,
                    self.pos as int,
                    cp@,
                    (n - i) as nat,
                    v@.map_values(|x: String| x@),
                ),
            decreases n - i,
        {
            let ghost acc = v@.map_values(|x: String| x@);
            let name = match self.resolve_u2(cp) {
                Ok(x) => x,
                Err(e) => return Err(e),
            };
            let ghost nm = name@;
            v.push(name);
            assert(v@.map_values(|x: String| x@) =~= acc.push(nm));
            i = i + 1;
        }
        Ok(v)
    }

    /// Reads one attribute: its name index, then a block with a u32 length.
    fn attribute(&mut self, cp: &ConstPool) -> (r: Result<Attribute, VmError>)
        ensures
            final(self).keeps(*old(self)),
            match attribute_at(old(self).r@, old(self).pos as int, cp@) {
                Ok((a, q)) => r matches Ok(x) && x@ == a && final(self).pos == q,
                Err(e) => r matches Err(f) && f == e,
            },
    {
        let name = match self.resolve_u2(cp) {
            Ok(x) => x,
            Err(e) => return Err(e),
        };
        let data = match self.vec_bytes_u4() {
            Ok(x) => x,
            Err(e) => return Err(e),
        };
        Ok(Attribute { name, data })
    }

    /// Reads an attribute list: a u16 count, then the attributes.
    fn attributes(&mut self, cp: &ConstPool) -> (r: Result<Vec<Attribute>, VmError>)
        ensures
            final(self).keeps(*old(self)),
            match attributes_at(old(self).r@, old(self).pos as int, cp@) {
                Ok((v, q)) => r matches Ok(x) && x@.map_values(|a: Attribute| a@) == v && final(self).pos == q,
                Err(e) => r matches Err(f) && f == e,
            },
    {
        let ghost s = self.r@;
        let n = match self.u2() {
            Ok(n) => n,
            Err(e) => return Err(e),
        };
        let ghost p0 = self.pos as int;
        let mut v: Vec<Attribute> = Vec::new();
        assert(v@.map_values(|x: Attribute| x@) =~= Seq::empty());
        let mut i: u16 = 0;
        while i < n
            invariant
                i <= n,
                self.keeps(*old(self)),
                s == self.r@,
                u2_at(s, old(self).pos as int) == Ok::<(u16, int), VmError>((n, p0)),
                attributes_from(s, p0, cp@, n as nat, Seq::empty()) == attributes_from(
                    s,
                    self.pos as int,
                    cp@,
                    (n - i) as nat,
                    v@.map_values(|x: Attribute| x@),
                ),
            decreases n - i,
        {
            let ghost acc = v@.map_values(|x: Attribute| x@);
            let a = match self.attribute(cp) {
                Ok(x) => x,
                Err(e) => return Err(e),
            };
            let ghost am = a@;
            v.push(a);
            assert(v@.map_values(|x: Attribute| x@) =~= acc.push(am));
            i = i + 1;
        }
        Ok(v)
    }

    /// Reads one field or method; its value slot starts empty.
    fn member(&mut self, cp: &ConstPool) -> (r: Result<Field, VmError>)
        ensures
            final(self).keeps(*old(self)),
            match member_at(old(self).r@, old(self).pos as int, cp@) {
                Ok((m, q)) => r matches Ok(x) && x@ == m && x.value is None && final(self).pos == q,
                Err(e) => r matches Err(f) && f == e,
            },
    {
        let flags = match self.u2() {
            Ok(x) => x,
            Err(e) => return Err(e),
        };
        let name = match self.resolve_u2(cp) {
            Ok(x) => x,
            Err(e) => return Err(e),
        };
        let desc = match self.resolve_u2(cp) {
            Ok(x) => x,
            Err(e) => return Err(e),
        };
        let attr = match self.attributes(cp) {
            Ok(x) => x,
            Err(e) => return Err(e),
        };
        Ok(Field { flags, name, desc, attr, value: None })
    }

    /// Reads a list of fields or methods: a u16 count, then the members.
    fn fields(&mut self, cp: &ConstPool) -> (r: Result<Vec<Field>, VmError>)
        ensures
            final(self).keeps(*old(self)),
            match members_at(old(self).r@, old(self).pos as int, cp@) {
                Ok((v, q)) => r matches Ok(x) && x@.map_values(|f: Field| f@) == v && final(self).pos
                    == q && (forall|j: int| 0 <= j < x@.len() ==> x@[j].value is None),
                Err(e) => r matches Err(f) && f == e,
            },
    {
        let ghost s = self.r@;
        let n = match self.u2() {
            Ok(n) => n,
            Err(e) => return Err(e),
        };
        let ghost p0 = self.pos as int;
        let mut v: Vec<Field> = Vec::new();
        assert(v@.map_values(|x: Field| x@) =~= Seq::empty());
        let mut i: u16 = 0;
        while i < n
            invariant
                i <= n,
                self.keeps(*old(self)),
                s == self.r@,
                u2_at(s, old(self).pos as int) == Ok::<(u16, int), VmError>((n, p0)),
                members_from(s, p0, cp@, n as nat, Seq::empty()) == members_from(
                    s,
                    self.pos as int,
                    cp@,
                    (n - i) as nat,
                    v@.map_values(|x: Field| x@),
                ),
                forall|j: int| 0 <= j < v@.len() ==> v@[j].value is None,
            decreases n - i,
        {
            let ghost acc = v@.map_values(|x: Field| x@);
            let m = match self.member(cp) {
                Ok(x) => x,
                Err(e) => return Err(e),
            };
            let ghost mm = m@;
            v.push(m);
            assert(v@.map_values(|x: Field| x@) =~= acc.push(mm));
            i = i + 1;
        }
        Ok(v)
    }

    /// No two loaded classes share a name.
    pub open spec fn wf(self) -> bool {
        forall|i: int, j: int|
            0 <= i < self.loaded_classes@.len() && 0 <= j < self.loaded_classes@.len() && i != j
                ==> self.loaded_classes@[i].name@ != self.loaded_classes@[j].name@
    }

    /// Some loaded class is named `name`.
    pub open spec fn has_class(self, name: Seq<char>) -> bool {
        exists|i: int| 0 <= i < self.loaded_classes@.len() && self.loaded_classes@[i].name@ == name
    }

    /// `h` is the handle of the loaded class named `name`.
    pub open spec fn class_at(self, h: int, name: Seq<char>) -> bool {
        0 <= h < self.loaded_classes@.len() && self.loaded_classes@[h].name@ == name
    }

    /// The classes of `old` are still there, with the same handles, and at most one
    /// fresh class was added, one that some class file describes.
    pub open spec fn extends(self, old: Loader) -> bool {
        &&& old.loaded_classes@.len() <= self.loaded_classes@.len() <= old.loaded_classes@.len() + 1
        &&& forall|i: int| 0 <= i < old.loaded_classes@.len() ==> self.loaded_classes@[i] == old.loaded_classes@[i]
        &&& self.loaded_classes@.len() == old.loaded_classes@.len() + 1 ==> {
            let c = self.loaded_classes@[old.loaded_classes@.len() as int];
            &&& c.fresh()
            &&& !old.has_class(c.name@)
            &&& exists|b: Seq<u8>| parse_class(b) == Ok::<ClassModel, VmError>(c@)
        }
    }

    /// The handle of the loaded class named `name`, if there is one.
    pub fn find(&self, name: &String) -> (r: Option<usize>)
        ensures
            match r {
                Some(h) => self.class_at(h as int, name@),
                None => !self.has_class(name@),
            },
    {
        let mut i: usize = 0;
        while i < self.loaded_classes.len()
            invariant
                i <= self.loaded_classes@.len(),
                forall|j: int| 0 <= j < i ==> self.loaded_classes@[j].name@ != name@,
            decreases self.loaded_classes@.len() - i,
        {
            if self.loaded_classes[i].name == *name {
                return Some(i);
            }
            i = i + 1;
        }
        None
    }

    /// Parses a class from the bytes `f`, or, when `f` is `None`, from the current
    /// position, and registers it under the name that the file gives, unless a class
    /// of that name is loaded already, which is kept. Returns that name.
    pub fn load_class(&mut self, f: Option<Vec<u8>>) -> (r: Result<String, VmError>)
        requires
            old(self).wf(),
        ensures
            final(self).wf(),
            ({
                let s = match f {
                    Some(b) => b@,
                    None => old(self).r@,
                };
                let p = match f {
                    Some(_) => 0,
                    None => old(self).pos as int,
                };
                match parse_class_at(s, p) {
                    Ok(m) => (r matches Ok(n) && n@ == m.name) && if old(self).has_class(m.name) {
                        final(self).loaded_classes@ == old(self).loaded_classes@
                    } else {
                        final(self).loaded_classes@.len() == old(self).loaded_classes@.len() + 1
                            && final(self).loaded_classes@.drop_last() == old(self).loaded_classes@
                            && final(self).loaded_classes@.last()@ == m
                            && final(self).loaded_classes@.last().fresh()
                    },
                    Err(e) => (r matches Err(x) && x == e) && final(self).loaded_classes@
                        == old(self).loaded_classes@,
                }
            }),
    {
        if let Some(bytes) = f {
            self.r = bytes;
            self.pos = 0;
        }
        let ghost s = self.r@;
        let ghost p0 = self.pos as int;
        let ghost classes0 = self.loaded_classes@;
        let magic = match self.u4() {
            Ok(v) => v,
            Err(e) => return Err(e),
        };
        if magic != MAGIC {
            return Err(VmError::ClassFormatError);
        }
        let minor = match self.u2() {
            Ok(v) => v,
            Err(e) => return Err(e),
        };
        let major = match self.u2() {
            Ok(v) => v,
            Err(e) => return Err(e),
        };
        let cp = match self.cpinfo() {
            Ok(v) => v,
            Err(e) => return Err(e),
        };
        let ghost p3 = self.pos as int;
        let flags = match self.u2() {
            Ok(v) => v,
            Err(e) => return Err(e),
        };
        let name = match self.resolve_u2(&cp) {
            Ok(v) => v,
            Err(e) => return Err(e),
        };
        let supr = match self.resolve_super(&cp) {
            Ok(v) => v,
            Err(e) => return Err(e),
        };
        let interfaces = match self.interfaces(&cp) {
            Ok(v) => v,
            Err(e) => return Err(e),
        };
        let fields = match self.fields(&cp) {
            Ok(v) => v,
            Err(e) => return Err(e),
        };
        let methods = match self.fields(&cp) {
            Ok(v) => v,
            Err(e) => return Err(e),
        };
        let attributes = match self.attributes(&cp) {
            Ok(v) => v,
            Err(e) => return Err(e),
        };
        let c = Class {
            cp,
            name: name.clone(),
            supr,
            flags,
            interfaces,
            fields,
            methods,
            attributes,
            version: (minor, major),
        };
        proof {
            assert(body_at(s, p3, (minor, major), c.cp@) == Ok::<ClassModel, VmError>(c@));
        }
        match self.find(&name) {
            Some(_) => {},
            None => {
                self.loaded_classes.push(c);
                proof {
                    assert(self.loaded_classes@.drop_last() =~= classes0);
                }
            },
        }
        Ok(name)
    }

    /// Resolves a symbolic reference to the class `name`: `get_class`, where a
    /// class file that declares another class is no answer (`ClassNotFound`), though
    /// that class stays loaded.
    pub fn resolve_class<H: Host>(&mut self, name: &String, host: &mut H) -> (r: Result<usize, VmError>)
        requires
            old(self).wf(),
        ensures
            final(self).wf(),
            final(self).extends(*old(self)),
            old(self).has_class(name@) ==> (final(self).loaded_classes@ == old(self).loaded_classes@
                && (r matches Ok(h) && old(self).class_at(h as int, name@))),
            r matches Ok(h) ==> final(self).class_at(h as int, name@),
    {
        let h = match self.get_class(name, host) {
            Ok(h) => h,
            Err(e) => return Err(e),
        };
        if self.loaded_classes[h].name == *name {
            Ok(h)
        } else {
            Err(VmError::ClassNotFound)
        }
    }

    /// Takes the answer of one directory of the search path: `None` (no file) goes
    /// on to the next directory; the bytes of a file are loaded, and give the handle
    /// of the class the file declares, under its own name.
    pub fn accept_file(&mut self, found: Option<Vec<u8>>) -> (r: Option<Result<usize, VmError>>)
        requires
            old(self).wf(),
        ensures
            final(self).wf(),
            match found {
                None => r is None && final(self).loaded_classes@ == old(self).loaded_classes@,
                Some(b) => match parse_class(b@) {
                    Ok(m) => (r matches Some(Ok(h)) && final(self).class_at(h as int, m.name)) && if old(
                        self,
                    ).has_class(m.name) {
                        final(self).loaded_classes@ == old(self).loaded_classes@
                    } else {
                        final(self).loaded_classes@ == old(self).loaded_classes@.push(
                            final(self).loaded_classes@.last(),
                        ) && final(self).loaded_classes@.last()@ == m
                            && final(self).loaded_classes@.last().fresh()
                    },
                    Err(e) => r == Some(Err::<usize, VmError>(e)) && final(self).loaded_classes@
                        == old(self).loaded_classes@,
                },
            },
    {
        let bytes = match found {
            Some(b) => b,
            None => return None,
        };
        let ghost classes0 = self.loaded_classes@;
        let loaded = match self.load_class(Some(bytes)) {
            Ok(n) => n,
            Err(e) => return Some(Err(e)),
        };
        proof {
            if self.loaded_classes@.len() > classes0.len() {
                assert(self.loaded_classes@ =~= classes0.push(self.loaded_classes@.last()));
            }
        }
        match self.find(&loaded) {
            Some(h) => Some(Ok(h)),
            None => Some(Err(VmError::ClassNotFound)),
        }
    }

    /// The handle of the class named `name`. A loaded class is returned as it is.
    /// Otherwise the file `class_path(dir, name)` is asked of `host` for each
    /// directory `dir` of the search path in turn (`./`, then `./src/`), and the
    /// first file found is loaded; its class is registered and returned under the
    /// name the file gives. When no directory has the file the result is
    /// `ClassNotFound` and the registry is unchanged.
    pub fn get_class<H: Host>(&mut self, name: &String, host: &mut H) -> (r: Result<usize, VmError>)
        requires
            old(self).wf(),
        ensures
            final(self).wf(),
            final(self).extends(*old(self)),
            old(self).has_class(name@) ==> (final(self).loaded_classes@ == old(self).loaded_classes@
                && (r matches Ok(h) && old(self).class_at(h as int, name@))),
            r matches Ok(h) ==> h < final(self).loaded_classes@.len(),
            r == Err::<usize, VmError>(VmError::ClassNotFound) ==> final(self).loaded_classes@
                == old(self).loaded_classes@,
    {
        match self.find(name) {
            Some(h) => return Ok(h),
            None => {},
        }
        let ghost old_self = *self;
        let mut k: usize = 0;
        while k < 2
            invariant
                self.wf(),
                self.loaded_classes@ == old_self.loaded_classes@,
                old_self == *old(self),
                !old_self.has_class(name@),
            decreases 2 - k,
        {
            let path = class_path(search_dir(k), name);
            let found = host.read_file(&path);
            let ghost fb = found;
            match self.accept_file(found) {
                Some(res) => {
                    proof {
                        let b = fb->Some_0@;
                        if self.loaded_classes@.len() > old_self.loaded_classes@.len() {
                            assert(parse_class(b) == Ok::<ClassModel, VmError>(self.loaded_classes@.last()@));
                            assert(self.loaded_classes@[old_self.loaded_classes@.len() as int]
                                == self.loaded_classes@.last());
                        }
                        assert forall|i: int| 0 <= i < old_self.loaded_classes@.len() implies self.loaded_classes@[i]
                            == old_self.loaded_classes@[i] by {
                            if self.loaded_classes@.len() > old_self.loaded_classes@.len() {
                                assert(self.loaded_classes@.drop_last() =~= old_self.loaded_classes@);
                                assert(self.loaded_classes@[i] == self.loaded_classes@.drop_last()[i]);
                            }
                        }
                    }
                    return res;
                },
                None => {},
            }
            k = k + 1;
        }
        Err(VmError::ClassNotFound)
    }

    /// The handle of the loaded class named `name` (meaningful when there is one).
    pub open spec fn handle_of(self, name: Seq<char>) -> int {
        handle_in(self.loaded_classes@, name)
    }

    /// The slot of the first field of class `h` named `name` with descriptor `desc`;
    /// the number of fields when there is none.
    pub open spec fn field_slot(self, h: int, name: Seq<char>, desc: Seq<char>) -> int {
        first_member(self.loaded_classes@[h]@.fields, name, desc, 0)
    }

    /// What reading field `i` of class `h` gives: its value, or `Void` while unset.
    pub open spec fn field_value(self, h: int, i: int) -> Types {
        match self.loaded_classes@[h].fields@[i].value {
            Some(v) => v,
            None => Types::Void,
        }
    }

    /// `self` is `old` with `v` stored in field `i` of class `h`.
    pub open spec fn stored(self, old: Loader, h: int, i: int, v: Types) -> bool {
        &&& self.r@ == old.r@
        &&& self.pos == old.pos
        &&& self.loaded_classes@.len() == old.loaded_classes@.len()
        &&& forall|k: int| 0 <= k < self.loaded_classes@.len() && k != h ==> self.loaded_classes@[k] == old.loaded_classes@[k]
        &&& self.loaded_classes@[h]@ == old.loaded_classes@[h]@
        &&& self.loaded_classes@[h].fields@.len() == old.loaded_classes@[h].fields@.len()
        &&& forall|j: int| 0 <= j < self.loaded_classes@[h].fields@.len() && j != i
            ==> self.loaded_classes@[h].fields@[j] == old.loaded_classes@[h].fields@[j]
        &&& self.loaded_classes@[h].fields@[i].value == Some(v)
    }

    /// Every class of `old` is still loaded under the same handle with the same
    /// contents but for the value slots of its fields.
    pub open spec fn evolves(self, old: Loader) -> bool {
        &&& old.loaded_classes@.len() <= self.loaded_classes@.len()
        &&& forall|k: int| 0 <= k < old.loaded_classes@.len() ==> #[trigger] self.loaded_classes@[k]@ == old.loaded_classes@[k]@
    }

    /// The index of the first field of class `h` named `name` with descriptor `desc`.
    pub fn field_index(&self, h: usize, name: &String, desc: &String) -> (r: Option<usize>)
        requires
            h < self.loaded_classes@.len(),
        ensures
            ({
                let k = self.field_slot(h as int, name@, desc@);
                match r {
                    Some(i) => i == k && k < self.loaded_classes@[h as int].fields@.len(),
                    None => k == self.loaded_classes@[h as int].fields@.len(),
                }
            }),
    {
        let fields = &self.loaded_classes[h].fields;
        let ghost ms = self.loaded_classes@[h as int]@.fields;
        let mut i: usize = 0;
        while i < fields.len() && !(fields[i].name == *name && fields[i].desc == *desc)
            invariant
                h < self.loaded_classes@.len(),
                *fields == self.loaded_classes@[h as int].fields,
                ms == fields@.map_values(|f: Field| f@),
                i <= fields@.len(),
                first_member(ms, name@, desc@, 0) == first_member(ms, name@, desc@, i as int),
            decreases fields@.len() - i,
        {
            assert(ms[i as int] == fields@[i as int]@);
            i = i + 1;
        }
        if i < fields.len() {
            assert(ms[i as int] == fields@[i as int]@);
            Some(i)
        } else {
            None
        }
    }

    /// Reads field `i` of class `h`: its value, or `Void` while unset.
    pub fn read_field(&self, h: usize, i: usize) -> (r: Types)
        requires
            h < self.loaded_classes@.len(),
            i < self.loaded_classes@[h as int].fields@.len(),
        ensures
            r == self.field_value(h as int, i as int),
    {
        match &self.loaded_classes[h].fields[i].value {
            Some(v) => v.copy(),
            None => Types::Void,
        }
    }

    /// Stores `v` in field `i` of class `h`.
    pub fn write_field(&mut self, h: usize, i: usize, v: Types)
        requires
            old(self).wf(),
            h < old(self).loaded_classes@.len(),
            i < old(self).loaded_classes@[h as int].fields@.len(),
        ensures
            final(self).wf(),
            final(self).stored(*old(self), h as int, i as int, v),
            final(self).evolves(*old(self)),
    {
        let ghost old_classes = self.loaded_classes@;
        let mut c = self.loaded_classes.remove(h);
        let ghost old_fields = c.fields@;
        let mut f = c.fields.remove(i);
        f.value = Some(v);
        c.fields.insert(i, f);
        proof {
            assert(c.fields@.map_values(|x: Field| x@) =~= old_fields.map_values(|x: Field| x@));
        }
        self.loaded_classes.insert(h, c);
        proof {
            assert forall|k: int| 0 <= k < self.loaded_classes@.len() && k != h implies self.loaded_classes@[k]
                == old_classes[k] by {
            }
            assert forall|a: int, b: int|
                0 <= a < self.loaded_classes@.len() && 0 <= b < self.loaded_classes@.len() && a != b
                    implies self.loaded_classes@[a].name@ != self.loaded_classes@[b].name@ by {
                assert(old_classes[a].name@ != old_classes[b].name@);
            }
        }
    }
}

/// A class registry that evolves into a second one that evolves into a third has
/// evolved into the third.
pub proof fn lemma_evolves_trans(a: Loader, b: Loader, c: Loader)
    requires
        b.evolves(a),
        c.evolves(b),
    ensures
        c.evolves(a),
{
    assert forall|k: int| 0 <= k < a.loaded_classes@.len() implies #[trigger] c.loaded_classes@[k]@
        == a.loaded_classes@[k]@ by {
        assert(c.loaded_classes@[k]@ == b.loaded_classes@[k]@);
    }
}

/// A registry that only gained a class has evolved.
pub proof fn lemma_extends_evolves(a: Loader, b: Loader)
    requires
        b.extends(a),
    ensures
        b.evolves(a),
{
    assert forall|k: int| 0 <= k < a.loaded_classes@.len() implies #[trigger] b.loaded_classes@[k]@
        == a.loaded_classes@[k]@ by {
        assert(b.loaded_classes@[k] == a.loaded_classes@[k]);
    }
}

/// The index of the first member of `ms` from `i` on named `name` with descriptor
/// `desc`, or `ms.len()` when there is none.
pub open spec fn first_member(ms: Seq<MemberModel>, name: Seq<char>, desc: Seq<char>, i: int) -> int
    decreases ms.len() - i,
{
    if i < 0 || i >= ms.len() {
        ms.len() as int
    } else if ms[i].name == name && ms[i].desc == desc {
        i
    } else {
        first_member(ms, name, desc, i + 1)
    }
}

/// In a registry without two classes of one name, the class named `name` has one
/// handle.
pub proof fn lemma_handle_of(l: Loader, h: int, name: Seq<char>)
    requires
        l.wf(),
        l.class_at(h, name),
    ensures
        l.handle_of(name) == h,
{
}

/// A loaded class has a handle.
pub proof fn lemma_has_class_handle(l: Loader, name: Seq<char>)
    requires
        l.has_class(name),
    ensures
        l.class_at(l.handle_of(name), name),
{
    let w = choose|i: int| 0 <= i < l.loaded_classes@.len() && l.loaded_classes@[i].name@ == name;
    assert(l.class_at(w, name));
}

/// The directory that the search for class files looks in at step `k`.
pub open spec fn search_dir_spec(k: int) -> Seq<char> {
    if k == 0 {
        "./"@
    } else {
        "./src/"@
    }
}

/// The directories searched for class files, in order: `./`, then `./src/`.
pub fn search_dir(k: usize) -> (r: &'static str)
    requires
        k < 2,
    ensures
        r@ == search_dir_spec(k as int),
{
    if k == 0 {
        "./"
    } else {
        "./src/"
    }
}

/// The path of the class file of `name` in directory `dir`: `<dir><name>.class`.
pub fn class_path(dir: &str, name: &String) -> (r: String)
    ensures
        r@ == dir@ + name@ + ".class"@,
{
    let mut path = dir.to_owned();
    path.append(name.as_str());
    path.append(".class");
    path
}

/// The handle of a class named `name` among `cs` (meaningful when there is one).
pub open spec fn handle_in(cs: Seq<Class>, name: Seq<char>) -> int {
    choose|h: int| 0 <= h < cs.len() && cs[h].name@ == name
}

} // verus!
