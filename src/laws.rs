//! Properties that relate several operations of the machine.
use crate::format::{entry_at, parse_class, payload_at, pool_at, pool_from, pool_slots, u1_at, u2_at, ClassModel};
use crate::frame::{member_ref, run_trace, step_rel, Frame};
use crate::loader::{lemma_has_class_handle, Loader};
use crate::opcodes::decode_opcode;
use crate::semantics::code_at;
use crate::types::{ConstModel, Types, VmError};
use vstd::prelude::*;

verus! {

/// Parsing is deterministic: whatever the same bytes parse to is one class, equal
/// in its pool, names, fields, methods and attributes.
pub proof fn lemma_parse_deterministic(s: Seq<u8>, t: Seq<u8>, c1: ClassModel, c2: ClassModel)
    requires
        s == t,
        parse_class(s) == Ok::<ClassModel, VmError>(c1),
        parse_class(t) == Ok::<ClassModel, VmError>(c2),
    ensures
        c1 == c2,
{
}

/// The double-slot shape of a pool: each long or double that is not last is
/// followed by `Invalid`, and each `Invalid` follows a long or a double.
pub open spec fn slots_ok(pool: Seq<ConstModel>) -> bool {
    &&& forall|i: int| 0 <= i < pool.len() - 1 && (#[trigger] pool[i]).is_wide() ==> pool[i + 1] is Invalid
    &&& forall|i: int| 0 <= i < pool.len() && (#[trigger] pool[i]) is Invalid ==> i > 0 && pool[i - 1].is_wide()
}

/// A pool entry read from the stream is never `Invalid`.
proof fn lemma_entry_not_invalid(s: Seq<u8>, p: int)
    ensures
        entry_at(s, p) matches Ok((c, _)) ==> !(c is Invalid),
{
    match u1_at(s, p) {
        Ok((tag, q)) => {
            assert(payload_at(s, q, tag) matches Ok((c, _)) ==> !(c is Invalid));
        },
        Err(_) => {},
    }
}

proof fn lemma_pool_from_slots(
    s: Seq<u8>,
    p: int,
    k: nat,
    wide: bool,
    acc: Seq<ConstModel>,
    res: Seq<ConstModel>,
    q: int,
)
    requires
        pool_from(s, p, k, wide, acc) == Ok::<(Seq<ConstModel>, int), VmError>((res, q)),
        slots_ok(acc),
        wide <==> (acc.len() > 0 && acc.last().is_wide()),
    ensures
        res.len() == acc.len() + k,
        slots_ok(res),
        res.len() > 0 ==> !res.last().is_wide(),
    decreases k,
{
    if k > 0 {
        if wide {
            let next = acc.push(ConstModel::Invalid);
            assert forall|i: int| 0 <= i < next.len() - 1 && (#[trigger] next[i]).is_wide() implies next[i
                + 1] is Invalid by {
                if i < acc.len() - 1 {
                    assert(next[i] == acc[i]);
                }
            }
            assert forall|i: int| 0 <= i < next.len() && (#[trigger] next[i]) is Invalid implies i > 0
                && next[i - 1].is_wide() by {
                if i < acc.len() {
                    assert(next[i] == acc[i]);
                }
            }
            lemma_pool_from_slots(s, p, (k - 1) as nat, false, next, res, q);
        } else {
            lemma_entry_not_invalid(s, p);
            let (c, p2) = entry_at(s, p)->Ok_0;
            let next = acc.push(c);
            assert forall|i: int| 0 <= i < next.len() - 1 && (#[trigger] next[i]).is_wide() implies next[i
                + 1] is Invalid by {
                assert(next[i] == acc[i]);
            }
            assert forall|i: int| 0 <= i < next.len() && (#[trigger] next[i]) is Invalid implies i > 0
                && next[i - 1].is_wide() by {
                if i < acc.len() {
                    assert(next[i] == acc[i]);
                }
            }
            lemma_pool_from_slots(s, p2, (k - 1) as nat, c.is_wide(), next, res, q);
        }
    }
}

/// The double-slot rule: a pool whose count field is `n` has `n - 1` slots; a
/// long or a double is never last and makes the slot after it `Invalid`, and no
/// other slot is `Invalid`. So a pool holding one long or double has `n - 2`
/// usable entries.
pub proof fn lemma_pool_double_slot(s: Seq<u8>, p: int, pool: Seq<ConstModel>, q: int)
    requires
        pool_at(s, p) == Ok::<(Seq<ConstModel>, int), VmError>((pool, q)),
    ensures
        u2_at(s, p) matches Ok((n, _)) && pool.len() == pool_slots(n),
        forall|i: int| 0 <= i < pool.len() - 1 && (#[trigger] pool[i]).is_wide() ==> pool[i + 1] is Invalid,
        forall|i: int| 0 <= i < pool.len() && (#[trigger] pool[i]) is Invalid ==> i > 0 && pool[i - 1].is_wide(),
        pool.len() > 0 ==> !pool.last().is_wide(),
{
    let (n, p1) = u2_at(s, p)->Ok_0;
    lemma_pool_from_slots(s, p1, pool_slots(n), false, Seq::empty(), pool, q);
}

/// A value stored in a field is what the field gives when read later, also after
/// further classes were resolved in between; the class keeps its handle and the
/// field its slot, so a read through the same reference finds it.
pub proof fn lemma_field_round_trip(
    l1: Loader,
    l2: Loader,
    l3: Loader,
    name: Seq<char>,
    f: Seq<char>,
    t: Seq<char>,
    v: Types,
)
    requires
        l1.wf(),
        l1.has_class(name),
        l1.field_slot(l1.handle_of(name), f, t) < l1.loaded_classes@[l1.handle_of(name)].fields@.len(),
        l2.stored(l1, l1.handle_of(name), l1.field_slot(l1.handle_of(name), f, t), v),
        l2.wf(),
        l3.extends(l2),
    ensures
        l3.handle_of(name) == l1.handle_of(name),
        l3.field_slot(l3.handle_of(name), f, t) == l1.field_slot(l1.handle_of(name), f, t),
        l3.field_value(l3.handle_of(name), l3.field_slot(l3.handle_of(name), f, t)) == v,
{
    let h = l1.handle_of(name);
    lemma_has_class_handle(l1, name);
    assert(l2.loaded_classes@[h]@ == l1.loaded_classes@[h]@);
    assert(l3.loaded_classes@[h] == l2.loaded_classes@[h]);
    assert(l3.class_at(h, name));
    assert(l3.wf()) by {
        assert forall|a: int, b: int|
            0 <= a < l3.loaded_classes@.len() && 0 <= b < l3.loaded_classes@.len() && a != b implies l3.loaded_classes@[a].name@
            != l3.loaded_classes@[b].name@ by {
            if a < l2.loaded_classes@.len() && b < l2.loaded_classes@.len() {
                assert(l3.loaded_classes@[a] == l2.loaded_classes@[a]);
                assert(l3.loaded_classes@[b] == l2.loaded_classes@[b]);
            } else if a < l2.loaded_classes@.len() {
                assert(l3.loaded_classes@[a] == l2.loaded_classes@[a]);
                assert(l2.has_class(l3.loaded_classes@[a].name@));
            } else if b < l2.loaded_classes@.len() {
                assert(l3.loaded_classes@[b] == l2.loaded_classes@[b]);
                assert(l2.has_class(l3.loaded_classes@[b].name@));
            }
        }
    }
}

/// Resolving a loaded class is a cache hit: the class keeps its handle, and a
/// field written between two resolutions is seen through the second.
pub proof fn lemma_cache_hit(l1: Loader, l2: Loader, name: Seq<char>, i: int, v: Types)
    requires
        l1.wf(),
        l1.has_class(name),
        0 <= i < l1.loaded_classes@[l1.handle_of(name)].fields@.len(),
        l2.stored(l1, l1.handle_of(name), i, v),
    ensures
        l2.has_class(name),
        l2.handle_of(name) == l1.handle_of(name),
        l2.field_value(l2.handle_of(name), i) == v,
{
    let h = l1.handle_of(name);
    lemma_has_class_handle(l1, name);
    assert(l2.loaded_classes@[h]@ == l1.loaded_classes@[h]@);
    assert(l2.class_at(h, name));
    assert(l2.wf()) by {
        assert forall|a: int, b: int|
            0 <= a < l2.loaded_classes@.len() && 0 <= b < l2.loaded_classes@.len() && a != b implies l2.loaded_classes@[a].name@
            != l2.loaded_classes@[b].name@ by {
            if a != h {
                assert(l2.loaded_classes@[a] == l1.loaded_classes@[a]);
            } else {
                assert(l2.loaded_classes@[a]@ == l1.loaded_classes@[a]@);
            }
            if b != h {
                assert(l2.loaded_classes@[b] == l1.loaded_classes@[b]);
            } else {
                assert(l2.loaded_classes@[b]@ == l1.loaded_classes@[b]@);
            }
        }
    }
}

/// Field round trip through the interpreter: a putstatic that went on, followed
/// by a getstatic of the same field reference that went on, pushes the value that
/// the putstatic popped.
pub proof fn lemma_putstatic_getstatic(f0: Frame, f1: Frame, f2: Frame, l0: Loader, l1: Loader, l2: Loader)
    requires
        code_at(f0.code@, f0.ip as int) == Some(0xb3u8),
        step_rel(f0, f1, l0, l1, Ok(None)),
        code_at(f1.code@, f1.ip as int) == Some(0xb2u8),
        step_rel(f1, f2, l1, l2, Ok(None)),
        member_ref(f1.code@, f1.cp@, f1.ip as int) == member_ref(f0.code@, f0.cp@, f0.ip as int),
    ensures
        f0.stack@.len() >= 1,
        f2.stack@ == f0.stack@.drop_last().push(f0.stack@.last()),
{
    assert(decode_opcode(0xb3u8) is Some);
    assert(decode_opcode(0xb2u8) is Some);
    let (cn, f, t) = member_ref(f0.code@, f0.cp@, f0.ip as int)->Ok_0;
    let h = l1.handle_of(cn);
    assert(l1.class_at(h, cn));
    assert(l1.has_class(cn));
    assert(l2.loaded_classes@ == l1.loaded_classes@);
}

/// A run that reached a byte outside the instruction set failed there with
/// `UnsupportedOpcode`, and the frame it ends in is the one before that fetch,
/// operand stack included.
pub proof fn lemma_unknown_opcode_ends_run(tr: Seq<Frame>, ls: Seq<Loader>, r: Result<Types, VmError>)
    requires
        run_trace(tr, ls, r),
        tr.len() >= 2,
        code_at(tr[tr.len() - 2].code@, tr[tr.len() - 2].ip as int) matches Some(b) && decode_opcode(b) is None,
    ensures
        r == Err::<Types, VmError>(VmError::UnsupportedOpcode),
        tr.last() == tr[tr.len() - 2],
        tr.last().stack@ == tr[tr.len() - 2].stack@,
{
}

} // verus!
