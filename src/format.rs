//! The class file format, as functions from bytes to what they describe.
//!
//! Each reader takes the bytes and a position and gives the value read with the
//! position after it, or the error that stops the parse.
use crate::types::{resolve_name, AttributeModel, ConstModel, MemberModel, VmError};
use vstd::prelude::*;
use vstd::utf8::{decode_utf8, valid_utf8};

verus! {

/// The magic number that opens every class file.
pub const MAGIC: u32 = 0xCAFEBABE;

/// A class as its file describes it.
pub struct ClassModel {
    pub version: (u16, u16),
    pub cp: Seq<ConstModel>,
    pub flags: u16,
    pub name: Seq<char>,
    pub supr: Seq<char>,
    pub interfaces: Seq<Seq<char>>,
    pub fields: Seq<MemberModel>,
    pub methods: Seq<MemberModel>,
    pub attributes: Seq<AttributeModel>,
}

pub open spec fn u1_at(s: Seq<u8>, p: int) -> Result<(u8, int), VmError> {
    if 0 <= p && p + 1 <= s.len() {
        Ok((s[p], p + 1))
    } else {
        Err(VmError::ClassFormatError)
    }
}

pub open spec fn be16(a: u8, b: u8) -> u16 {
    (a as int * 0x100 + b as int) as u16
}

pub open spec fn be32(a: u8, b: u8, c: u8, d: u8) -> u32 {
    (a as int * 0x1000000 + b as int * 0x10000 + c as int * 0x100 + d as int) as u32
}

pub open spec fn u2_at(s: Seq<u8>, p: int) -> Result<(u16, int), VmError> {
    if 0 <= p && p + 2 <= s.len() {
        Ok((be16(s[p], s[p + 1]), p + 2))
    } else {
        Err(VmError::ClassFormatError)
    }
}

pub open spec fn u4_at(s: Seq<u8>, p: int) -> Result<(u32, int), VmError> {
    if 0 <= p && p + 4 <= s.len() {
        Ok((be32(s[p], s[p + 1], s[p + 2], s[p + 3]), p + 4))
    } else {
        Err(VmError::ClassFormatError)
    }
}

/// Eight bytes read as a big-endian unsigned number.
pub open spec fn u8_at(s: Seq<u8>, p: int) -> Result<(u64, int), VmError> {
    match u4_at(s, p) {
        Ok((hi, q)) => match u4_at(s, q) {
            Ok((lo, t)) => Ok(((hi as int * 0x1_0000_0000 + lo as int) as u64, t)),
            Err(e) => Err(e),
        },
        Err(e) => Err(e),
    }
}

pub open spec fn bytes_at(s: Seq<u8>, p: int, n: int) -> Result<(Seq<u8>, int), VmError> {
    if 0 <= p && 0 <= n && p + n <= s.len() {
        Ok((s.subrange(p, p + n), p + n))
    } else {
        Err(VmError::ClassFormatError)
    }
}

/// A block of bytes preceded by its length as a u16.
pub open spec fn bytes_u2_at(s: Seq<u8>, p: int) -> Result<(Seq<u8>, int), VmError> {
    match u2_at(s, p) {
        Ok((n, q)) => bytes_at(s, q, n as int),
        Err(e) => Err(e),
    }
}

/// A block of bytes preceded by its length as a u32.
pub open spec fn bytes_u4_at(s: Seq<u8>, p: int) -> Result<(Seq<u8>, int), VmError> {
    match u4_at(s, p) {
        Ok((n, q)) => bytes_at(s, q, n as int),
        Err(e) => Err(e),
    }
}

/// Two u16 values in a row.
pub open spec fn pair_at(s: Seq<u8>, p: int) -> Result<((u16, u16), int), VmError> {
    match u2_at(s, p) {
        Ok((a, q)) => match u2_at(s, q) {
            Ok((b, t)) => Ok(((a, b), t)),
            Err(e) => Err(e),
        },
        Err(e) => Err(e),
    }
}

/// The payload of a pool entry with tag `tag`, starting at `p`.
pub open spec fn payload_at(s: Seq<u8>, p: int, tag: u8) -> Result<(ConstModel, int), VmError> {
    if tag == 0x01 {
        match bytes_u2_at(s, p) {
            Ok((b, q)) => if valid_utf8(b) {
                Ok((ConstModel::Str(decode_utf8(b)), q))
            } else {
                Err(VmError::ClassFormatError)
            },
            Err(e) => Err(e),
        }
    } else if tag == 0x03 || tag == 0x04 {
        match u4_at(s, p) {
            Ok((v, q)) => if tag == 0x03 {
                Ok((ConstModel::Int(v as i32), q))
            } else {
                Ok((ConstModel::Float(v), q))
            },
            Err(e) => Err(e),
        }
    } else if tag == 0x05 || tag == 0x06 {
        match u8_at(s, p) {
            Ok((v, q)) => if tag == 0x05 {
                Ok((ConstModel::Long(v as i64), q))
            } else {
                Ok((ConstModel::Double(v), q))
            },
            Err(e) => Err(e),
        }
    } else if tag == 0x07 || tag == 0x08 {
        match u2_at(s, p) {
            Ok((i, q)) => if tag == 0x07 {
                Ok((ConstModel::Class(i), q))
            } else {
                Ok((ConstModel::StrIndex(i), q))
            },
            Err(e) => Err(e),
        }
    } else if tag == 0x09 || tag == 0x0a || tag == 0x0c {
        match pair_at(s, p) {
            Ok(((a, b), q)) => if tag == 0x0c {
                Ok((ConstModel::NameAndType(a, b), q))
            } else {
                Ok((ConstModel::FMIRef(a, b), q))
            },
            Err(e) => Err(e),
        }
    } else {
        Err(VmError::ClassFormatError)
    }
}

/// One pool entry: a tag byte and its payload.
pub open spec fn entry_at(s: Seq<u8>, p: int) -> Result<(ConstModel, int), VmError> {
    match u1_at(s, p) {
        Ok((tag, q)) => payload_at(s, q, tag),
        Err(e) => Err(e),
    }
}

/// The rest of a pool: `k` slots still to fill after `acc`. When `wide` holds the
/// entry just read was a long or a double, so the next slot is unreadable; a long
/// or a double in the last slot leaves no room for it and is malformed.
pub open spec fn pool_from(
    s: Seq<u8>,
    p: int,
    k: nat,
    wide: bool,
    acc: Seq<ConstModel>,
) -> Result<(Seq<ConstModel>, int), VmError>
    decreases k,
{
    if k == 0 {
        if wide {
            Err(VmError::ClassFormatError)
        } else {
            Ok((acc, p))
        }
    } else if wide {
        pool_from(s, p, (k - 1) as nat, false, acc.push(ConstModel::Invalid))
    } else {
        match entry_at(s, p) {
            Ok((c, q)) => pool_from(s, q, (k - 1) as nat, c.is_wide(), acc.push(c)),
            Err(e) => Err(e),
        }
    }
}

/// The number of slots of a pool whose count field is `n`.
pub open spec fn pool_slots(n: u16) -> nat {
    if n == 0 {
        0
    } else {
        (n - 1) as nat
    }
}

/// The constant pool: its count, then its entries.
pub open spec fn pool_at(s: Seq<u8>, p: int) -> Result<(Seq<ConstModel>, int), VmError> {
    match u2_at(s, p) {
        Ok((n, q)) => pool_from(s, q, pool_slots(n), false, Seq::empty()),
        Err(e) => Err(e),
    }
}

/// A u16 pool index, read and resolved to the string it names.
pub open spec fn name_at(s: Seq<u8>, p: int, pool: Seq<ConstModel>) -> Result<(Seq<char>, int), VmError> {
    match u2_at(s, p) {
        Ok((i, q)) => match resolve_name(pool, i as int) {
            Ok(n) => Ok((n, q)),
            Err(e) => Err(e),
        },
        Err(e) => Err(e),
    }
}

/// The superclass name: index 0 stands for none, given as the empty string.
pub open spec fn super_at(s: Seq<u8>, p: int, pool: Seq<ConstModel>) -> Result<(Seq<char>, int), VmError> {
    match u2_at(s, p) {
        Ok((i, q)) => if i == 0 {
            Ok((Seq::empty(), q))
        } else {
            match resolve_name(pool, i as int) {
                Ok(n) => Ok((n, q)),
                Err(e) => Err(e),
            }
        },
        Err(e) => Err(e),
    }
}

/// The rest of a list of `k` names after `acc`.
pub open spec fn names_from(
    s: Seq<u8>,
    p: int,
    pool: Seq<ConstModel>,
    k: nat,
    acc: Seq<Seq<char>>,
) -> Result<(Seq<Seq<char>>, int), VmError>
    decreases k,
{
    if k == 0 {
        Ok((acc, p))
    } else {
        match name_at(s, p, pool) {
            Ok((n, q)) => names_from(s, q, pool, (k - 1) as nat, acc.push(n)),
            Err(e) => Err(e),
        }
    }
}

/// The interface list: a u16 count, then one class index each.
pub open spec fn interfaces_at(s: Seq<u8>, p: int, pool: Seq<ConstModel>) -> Result<(Seq<Seq<char>>, int), VmError> {
    match u2_at(s, p) {
        Ok((n, q)) => names_from(s, q, pool, n as nat, Seq::empty()),
        Err(e) => Err(e),
    }
}

/// One attribute: its name index, then a block with a u32 length.
pub open spec fn attribute_at(s: Seq<u8>, p: int, pool: Seq<ConstModel>) -> Result<(AttributeModel, int), VmError> {
    match name_at(s, p, pool) {
        Ok((n, q)) => match bytes_u4_at(s, q) {
            Ok((d, t)) => Ok((AttributeModel { name: n, data: d }, t)),
            Err(e) => Err(e),
        },
        Err(e) => Err(e),
    }
}

/// The rest of a list of `k` attributes after `acc`.
pub open spec fn attributes_from(
    s: Seq<u8>,
    p: int,
    pool: Seq<ConstModel>,
    k: nat,
    acc: Seq<AttributeModel>,
) -> Result<(Seq<AttributeModel>, int), VmError>
    decreases k,
{
    if k == 0 {
        Ok((acc, p))
    } else {
        match attribute_at(s, p, pool) {
            Ok((a, q)) => attributes_from(s, q, pool, (k - 1) as nat, acc.push(a)),
            Err(e) => Err(e),
        }
    }
}

/// An attribute list: a u16 count, then the attributes.
pub open spec fn attributes_at(s: Seq<u8>, p: int, pool: Seq<ConstModel>) -> Result<(Seq<AttributeModel>, int), VmError> {
    match u2_at(s, p) {
        Ok((n, q)) => attributes_from(s, q, pool, n as nat, Seq::empty()),
        Err(e) => Err(e),
    }
}

/// One field or method: flags, name, descriptor and attributes.
pub open spec fn member_at(s: Seq<u8>, p: int, pool: Seq<ConstModel>) -> Result<(MemberModel, int), VmError> {
    match u2_at(s, p) {
        Ok((flags, q)) => match name_at(s, q, pool) {
            Ok((name, q2)) => match name_at(s, q2, pool) {
                Ok((desc, q3)) => match attributes_at(s, q3, pool) {
                    Ok((attr, q4)) => Ok((MemberModel { flags, name, desc, attr }, q4)),
                    Err(e) => Err(e),
                },
                Err(e) => Err(e),
            },
            Err(e) => Err(e),
        },
        Err(e) => Err(e),
    }
}

/// The rest of a list of `k` members after `acc`.
pub open spec fn members_from(
    s: Seq<u8>,
    p: int,
    pool: Seq<ConstModel>,
    k: nat,
    acc: Seq<MemberModel>,
) -> Result<(Seq<MemberModel>, int), VmError>
    decreases k,
{
    if k == 0 {
        Ok((acc, p))
    } else {
        match member_at(s, p, pool) {
            Ok((m, q)) => members_from(s, q, pool, (k - 1) as nat, acc.push(m)),
            Err(e) => Err(e),
        }
    }
}

/// A member list: a u16 count, then the members.
pub open spec fn members_at(s: Seq<u8>, p: int, pool: Seq<ConstModel>) -> Result<(Seq<MemberModel>, int), VmError> {
    match u2_at(s, p) {
        Ok((n, q)) => members_from(s, q, pool, n as nat, Seq::empty()),
        Err(e) => Err(e),
    }
}

/// Everything after the constant pool, from the access flags on.
pub open spec fn body_at(s: Seq<u8>, p: int, version: (u16, u16), cp: Seq<ConstModel>) -> Result<ClassModel, VmError> {
    match u2_at(s, p) {
        Ok((flags, p1)) => match name_at(s, p1, cp) {
            Ok((name, p2)) => match super_at(s, p2, cp) {
                Ok((supr, p3)) => match interfaces_at(s, p3, cp) {
                    Ok((interfaces, p4)) => match members_at(s, p4, cp) {
                        Ok((fields, p5)) => match members_at(s, p5, cp) {
                            Ok((methods, p6)) => match attributes_at(s, p6, cp) {
                                Ok((attributes, _p7)) => Ok(
                                    ClassModel {
                                        version,
                                        cp,
                                        flags,
                                        name,
                                        supr,
                                        interfaces,
                                        fields,
                                        methods,
                                        attributes,
                                    },
                                ),
                                Err(e) => Err(e),
                            },
                            Err(e) => Err(e),
                        },
                        Err(e) => Err(e),
                    },
                    Err(e) => Err(e),
                },
                Err(e) => Err(e),
            },
            Err(e) => Err(e),
        },
        Err(e) => Err(e),
    }
}

/// The class that the bytes `s` describe from position `p` on; bytes after the
/// class attributes are not read.
pub open spec fn parse_class_at(s: Seq<u8>, p: int) -> Result<ClassModel, VmError> {
    match u4_at(s, p) {
        Ok((magic, p1)) => if magic != MAGIC {
            Err(VmError::ClassFormatError)
        } else {
            match pair_at(s, p1) {
                Ok((version, p2)) => match pool_at(s, p2) {
                    Ok((cp, p3)) => body_at(s, p3, version, cp),
                    Err(e) => Err(e),
                },
                Err(e) => Err(e),
            }
        },
        Err(e) => Err(e),
    }
}

/// The class that a whole class file `s` describes.
pub open spec fn parse_class(s: Seq<u8>) -> Result<ClassModel, VmError> {
    parse_class_at(s, 0)
}

} // verus!
