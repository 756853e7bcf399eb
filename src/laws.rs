//! Laws that relate several operations of a memory space.
use vstd::prelude::*;

use vstd::bytes::{lemma_auto_spec_u64_to_from_le_bytes, spec_u64_from_le_bytes, spec_u64_to_le_bytes};
use vstd::utf8::{encode_utf8, encode_utf8_decode_utf8, encode_utf8_valid_utf8};

use std::sync::Arc;

use crate::address::{addr_space, AddrSpace, CLOSURE_ARG_MEM_START};
use crate::error::VMError;
use crate::join::{adjusted, entries_conflict, merged_entry, slot};
use crate::memory::{bindable, HandlerMemory, Idxs, SENTINEL};
use crate::wire::{cell_from_wire, cell_to_wire, decodes, encodes, WireMemory};
use crate::pascal::{chunk_value, packed, pad8, pascal_cells, pascal_decode, unpacked};

verus! {

/// Writing a fixed value at an address and then reading that address gives
/// the value back.
pub proof fn write_then_read(before: HandlerMemory, after: HandlerMemory, addr: i64, val: i64)
    requires
        before.wf(),
        bindable(addr),
        HandlerMemory::fixed_written(before, after, addr, val),
    ensures
        after.fixed_at(addr) == Ok::<i64, VMError>(val),
{
    let a = before.mem_addr;
    let b = before.block(a as int).len() as usize;
    assert(before.mems@[a as int].len() == before.block(a as int).len());
    assert(after.local_idxs(addr) == Some((a, b)));
    assert(after.idx_defined(a, b));
}

/// Unpacking the first `k` packed cells of `p` gives its first `8k` bytes.
proof fn unpacked_packed(p: Seq<u8>, k: int)
    requires
        p.len() % 8 == 0,
        0 <= k <= p.len() / 8,
    ensures
        unpacked(packed(p).subrange(0, k)) == p.subrange(0, 8 * k),
    decreases k,
{
    if k == 0 {
        assert(packed(p).subrange(0, 0) =~= Seq::<(usize, i64)>::empty());
        assert(p.subrange(0, 0) =~= Seq::<u8>::empty());
    } else {
        let cells = packed(p).subrange(0, k);
        assert(cells.drop_last() =~= packed(p).subrange(0, k - 1));
        unpacked_packed(p, k - 1);
        let c = p.subrange(8 * (k - 1), 8 * k);
        let x = spec_u64_from_le_bytes(c);
        assert(cells.last().1 == chunk_value(p, k - 1));
        assert(x as i64 as u64 == x) by (bit_vector);
        lemma_auto_spec_u64_to_from_le_bytes();
        assert(spec_u64_to_le_bytes(spec_u64_from_le_bytes(c)) == c);
        assert(p.subrange(0, 8 * (k - 1)) + c =~= p.subrange(0, 8 * k));
    }
}

/// A string encoded as length-prefixed cells decodes to the same string.
pub proof fn string_round_trip(s: Seq<char>)
    requires
        encode_utf8(s).len() <= i64::MAX,
    ensures
        pascal_decode(pascal_cells(encode_utf8(s))) == Ok::<Seq<char>, VMError>(s),
{
    let b = encode_utf8(s);
    let p = pad8(b);
    let cells = pascal_cells(b);
    assert(p.len() % 8 == 0);
    assert(cells.drop_first() =~= packed(p));
    unpacked_packed(p, (p.len() / 8) as int);
    assert(packed(p).subrange(0, (p.len() / 8) as int) =~= packed(p));
    assert(p.subrange(0, 8 * (p.len() / 8) as int) =~= p);
    assert(p.subrange(0, b.len() as int) =~= b);
    encode_utf8_valid_utf8(s);
    encode_utf8_decode_utf8(s);
}

/// A child fresh from `fork` reads every address as its parent does.
pub proof fn fork_reads_as_parent(parent: Arc<HandlerMemory>, child: HandlerMemory, addr: i64)
    requires
        (*parent).wf(),
        child.wf(),
        child.forked_from(parent),
    ensures
        child.fixed_at(addr) == (*parent).fixed_at(addr),
{
    let p = *parent;
    if addr_space(addr) != AddrSpace::Global {
        assert(child.local_idxs(addr) is None);
    }
    assert(child.find_idxs(addr) == p.find_idxs(addr));
    if let Some((a, b)) = child.find_idxs(addr) {
        let oc = child.owner(a, b);
        let op = p.owner(a, b);
        if (a as int) < oc.mems@.len() {
            assert(oc.mems@[a as int].len() == oc.block(a as int).len());
        }
        if (a as int) < op.mems@.len() {
            assert(op.mems@[a as int].len() == op.block(a as int).len());
        }
        if a != SENTINEL && child.idx_defined(a, b) {
            if a == 0 {
                if (b as int) < child.block(0).len() {
                    assert(p.idx_defined(0, b));
                    assert(p.owner(0, b) == p);
                }
            } else {
                assert(a as int == p.mems@.len() && b == SENTINEL);
                assert(child.fixed_at(addr) == Err::<i64, VMError>(VMError::IllegalAccess));
            }
        }
    }
}

/// Forking and at once joining the child back leaves every binding and
/// every block of the parent as it was; only an empty block is added.
pub proof fn fork_join_identity(parent: Arc<HandlerMemory>, child: HandlerMemory, after: HandlerMemory)
    requires
        (*parent).wf(),
        child.wf(),
        child.forked_from(parent),
        (*parent).mems@.len() < usize::MAX,
        HandlerMemory::joined(*parent, child, after, (*parent).mems@.len() as usize, 0),
    ensures
        HandlerMemory::join_shift(*parent, child) == Some(((*parent).mems@.len() as usize, 0usize)),
        !HandlerMemory::join_conflicts(*parent, child, (*parent).mems@.len() as usize, 0),
        forall|x: i64| #[trigger] after.local_idxs(x) == (*parent).local_idxs(x),
        after.mems@.len() == (*parent).mems@.len() + 1,
        forall|i: int| 0 <= i < (*parent).mems@.len() ==> #[trigger] after.block(i) == (*parent).block(i),
        after.block((*parent).mems@.len() as int).len() == 0,
{
    let p = *parent;
    let s = p.mems@.len() as usize;
    assert(child.local_idxs(CLOSURE_ARG_MEM_START) is None);
    assert(after.addr.0@ =~= p.addr.0@) by {
        assert forall|i: int| 0 <= i < after.addr.0@.len() implies #[trigger] after.addr.0@[i] == p.addr.0@[i] by {
            assert(after.addr.0@[i] == merged_entry(slot(p.addr.0@, i), slot(child.addr.0@, i), s, 0));
        }
    }
    assert forall|x: i64| #[trigger] after.local_idxs(x) == p.local_idxs(x) by {
        if addr_space(x) == AddrSpace::ClosureArg {
            assert(after.local_idxs(x) == p.local_idxs(x));
        }
    }
    assert(after.block(s as int) == crate::join::relocated(child.block(s as int), s, 0));
}

/// Two children of one parent that both rebind a normal address in their
/// own new blocks cannot both be joined: once the first is, the second
/// conflicts.
pub proof fn second_join_conflicts(
    parent: HandlerMemory,
    c1: HandlerMemory,
    c2: HandlerMemory,
    joined1: HandlerMemory,
    x: i64,
    b1: usize,
    b2: usize,
)
    requires
        parent.wf(),
        c1.wf(),
        c2.wf(),
        c1.mem_addr == parent.mems@.len(),
        c2.mem_addr == parent.mems@.len(),
        addr_space(x) == AddrSpace::Normal,
        c1.local_idxs(x) == Some((c1.mem_addr, b1)),
        c2.local_idxs(x) == Some((c2.mem_addr, b2)),
        HandlerMemory::join_shift(parent, c1) is Some,
        HandlerMemory::joined(parent, c1, joined1, c1.mem_addr, 0),
        HandlerMemory::join_shift(joined1, c2) is Some,
    ensures
        match HandlerMemory::join_shift(joined1, c2) {
            Some((s, offset)) => HandlerMemory::join_conflicts(joined1, c2, s, offset),
            None => false,
        },
{
    let s = c1.mem_addr;
    let i = x as int;
    assert(slot(c1.addr.0@, i) == Some((s, b1)));
    assert(joined1.addr.0@[i] == merged_entry(slot(parent.addr.0@, i), slot(c1.addr.0@, i), s, 0));
    assert(adjusted(s, s, 0) == s);
    assert(slot(joined1.addr.0@, i) == Some((s, b1)));
    let offset = (joined1.mems@.len() - s) as usize;
    assert(offset >= 1);
    assert(slot(c2.addr.0@, i) == Some((s, b2)));
    assert(entries_conflict(slot(joined1.addr.0@, i), c2.addr.0@[i], s, offset));
}

/// Two children forked from one parent write the same address: the writer
/// reads its own value, the parent it shares is untouched, and the other
/// child still reads what the parent holds.
pub proof fn child_writes_isolated(
    parent: Arc<HandlerMemory>,
    c1: HandlerMemory,
    c1_after: HandlerMemory,
    c2: HandlerMemory,
    addr: i64,
    val: i64,
)
    requires
        (*parent).wf(),
        c1.wf(),
        c2.wf(),
        c1.forked_from(parent),
        c2.forked_from(parent),
        bindable(addr),
        HandlerMemory::fixed_written(c1, c1_after, addr, val),
    ensures
        c1_after.fixed_at(addr) == Ok::<i64, VMError>(val),
        c1_after.parent == Some(parent),
        c2.fixed_at(addr) == (*parent).fixed_at(addr),
{
    write_then_read(c1, c1_after, addr, val);
    fork_reads_as_parent(parent, c2, addr);
}

/// `a` and `b` hold the same blocks, bindings and active block at every
/// level of their parent chains; only their identities may differ.
pub open spec fn same_content(a: HandlerMemory, b: HandlerMemory) -> bool
    decreases a,
{
    &&& a.mems@.len() == b.mems@.len()
    &&& forall|i: int| 0 <= i < a.mems@.len() ==> #[trigger] a.block(i) == b.block(i)
    &&& a.addr.0@ == b.addr.0@
    &&& a.addr.1@ == b.addr.1@
    &&& a.mem_addr == b.mem_addr
    &&& match (a.parent, b.parent) {
        (Some(pa), Some(pb)) => same_content(*pa, *pb),
        (None, None) => true,
        _ => false,
    }
}

/// Every level of `h` has `gmem` as its block 0.
pub open spec fn global_everywhere(h: HandlerMemory, gmem: Seq<(usize, i64)>) -> bool
    decreases h,
{
    &&& h.block(0) == gmem
    &&& match h.parent {
        Some(p) => global_everywhere(*p, gmem),
        None => true,
    }
}

proof fn same_content_owner(a: HandlerMemory, b: HandlerMemory, x: usize, y: usize)
    requires
        same_content(a, b),
    ensures
        same_content(a.owner(x, y), b.owner(x, y)),
    decreases a,
{
    if !a.idx_defined(x, y) {
        assert(!b.idx_defined(x, y));
        if a.parent is Some && b.parent is Some {
            let pa = *a.parent->Some_0;
            let pb = *b.parent->Some_0;
            same_content_owner(pa, pb, x, y);
        }
    } else {
        assert(b.idx_defined(x, y));
    }
}

proof fn same_content_find(a: HandlerMemory, b: HandlerMemory, addr: i64)
    requires
        same_content(a, b),
    ensures
        a.find_idxs(addr) == b.find_idxs(addr),
    decreases a,
{
    assert(a.local_idxs(addr) == b.local_idxs(addr));
    if a.local_idxs(addr) is None && a.parent is Some && b.parent is Some {
        let pa = *a.parent->Some_0;
        let pb = *b.parent->Some_0;
        same_content_find(pa, pb, addr);
    }
}

proof fn same_content_resolve(a: HandlerMemory, b: HandlerMemory, addr: i64)
    requires
        same_content(a, b),
    ensures
        a.resolve(addr) is Some <==> b.resolve(addr) is Some,
        a.resolve(addr) matches Some((p, oa)) ==> b.resolve(addr) matches Some((q, ob)) && p == q && same_content(oa, ob),
{
    same_content_find(a, b, addr);
    if let Some(p) = a.find_idxs(addr) {
        same_content_owner(a, b, p.0, p.1);
    }
}

/// Spaces with the same content read every address alike.
pub proof fn same_content_reads(a: HandlerMemory, b: HandlerMemory, addr: i64)
    requires
        same_content(a, b),
    ensures
        a.fixed_at(addr) == b.fixed_at(addr),
{
    same_content_resolve(a, b, addr);
}

proof fn wire_round_trip_content(h: HandlerMemory, w: WireMemory, back: HandlerMemory, gmem: Seq<(usize, i64)>)
    requires
        h.wf(),
        global_everywhere(h, gmem),
        encodes(w, h),
        decodes(w, back, gmem),
    ensures
        same_content(h, back),
    decreases h,
{
    assert forall|i: int| 0 <= i < h.mems@.len() implies #[trigger] h.block(i) == back.block(i) by {
        if i > 0 {
            let k = i - 1;
            assert(w.mems@[k]@ == h.block(k + 1).map_values(|c: (usize, i64)| cell_to_wire(c)));
            assert(back.block(k + 1) == w.mems@[k]@.map_values(|c: (u64, i64)| cell_from_wire(c)));
            assert forall|j: int| 0 <= j < h.block(i).len() implies #[trigger] back.block(i)[j] == h.block(i)[j] by {
                let c = h.block(i)[j];
                assert(c.0 as u64 as usize == c.0);
            }
            assert(back.block(i) =~= h.block(i));
        }
    }
    assert forall|j: int| 0 <= j < h.addr.0@.len() implies #[trigger] back.addr.0@[j] == h.addr.0@[j] by {
        let e: Option<Idxs> = h.addr.0@[j];
        if let Some((a, b)) = e {
            assert(a as u64 as usize == a && b as u64 as usize == b);
        }
    }
    assert forall|j: int| 0 <= j < h.addr.1@.len() implies #[trigger] back.addr.1@[j] == h.addr.1@[j] by {
        let e: Option<Idxs> = h.addr.1@[j];
        if let Some((a, b)) = e {
            assert(a as u64 as usize == a && b as u64 as usize == b);
        }
    }
    assert(back.addr.0@ =~= h.addr.0@);
    assert(back.addr.1@ =~= h.addr.1@);
    assert(h.mem_addr as u64 as usize == h.mem_addr);
    if w.parent is Some && h.parent is Some && back.parent is Some {
        let wp = *w.parent->Some_0;
        let hp = *h.parent->Some_0;
        let bp = *back.parent->Some_0;
        wire_round_trip_content(hp, wp, bp, gmem);
    }
}

/// A space written to the wire and read back over the same global block
/// reads every address as the space it was written from.
pub proof fn wire_round_trip(h: HandlerMemory, w: WireMemory, back: HandlerMemory, gmem: Seq<(usize, i64)>, addr: i64)
    requires
        h.wf(),
        global_everywhere(h, gmem),
        encodes(w, h),
        decodes(w, back, gmem),
    ensures
        back.fixed_at(addr) == h.fixed_at(addr),
{
    wire_round_trip_content(h, w, back, gmem);
    same_content_reads(h, back, addr);
}

} // verus!
