//! The structural wire record of a memory space: blocks without the global
//! block 0, both address tables, the active block, and the parent chain.
use std::sync::Arc;
use vstd::prelude::*;

use crate::error::{VMError, VMResult};
use crate::memory::{AddrTable, HandlerMemory, Idxs, SENTINEL};

verus! {

/// One cell on the wire: tag and value.
pub type WireCell = (u64, i64);

/// One address-table slot on the wire.
pub type WireSlot = Option<(u64, u64)>;

/// A memory space as a plain record.
#[derive(Debug)]
pub struct WireMemory {
    /// Blocks 1 and up.
    pub mems: Vec<Vec<WireCell>>,
    /// The normal address table.
    pub mem_space: Vec<WireSlot>,
    /// The closure-argument address table.
    pub mem_space_args: Vec<WireSlot>,
    /// The active block.
    pub mem_addr: u64,
    /// The parent, for a forked space.
    pub parent: Option<Box<WireMemory>>,
}

pub open spec fn cell_to_wire(c: (usize, i64)) -> WireCell {
    (c.0 as u64, c.1)
}

pub open spec fn cell_from_wire(c: WireCell) -> (usize, i64) {
    (c.0 as usize, c.1)
}

pub open spec fn slot_to_wire(e: Option<Idxs>) -> WireSlot {
    match e {
        Some((a, b)) => Some((a as u64, b as u64)),
        None => None,
    }
}

pub open spec fn slot_from_wire(e: WireSlot) -> Option<Idxs> {
    match e {
        Some((a, b)) => Some((a as usize, b as usize)),
        None => None,
    }
}

/// `w` is the wire record of `h`.
pub open spec fn encodes(w: WireMemory, h: HandlerMemory) -> bool
    decreases h,
{
    &&& w.mems@.len() + 1 == h.mems@.len()
    &&& forall|i: int| 0 <= i < w.mems@.len() ==> #[trigger] w.mems@[i]@ == h.block(i + 1).map_values(|c: (usize, i64)| cell_to_wire(c))
    &&& w.mem_space@ == h.addr.0@.map_values(|e: Option<Idxs>| slot_to_wire(e))
    &&& w.mem_space_args@ == h.addr.1@.map_values(|e: Option<Idxs>| slot_to_wire(e))
    &&& w.mem_addr == h.mem_addr as u64
    &&& match (w.parent, h.parent) {
        (Some(wp), Some(hp)) => encodes(*wp, *hp),
        (None, None) => true,
        _ => false,
    }
}

/// `h` is the space that `w` describes, with `gmem` as every level's
/// block 0.
pub open spec fn decodes(w: WireMemory, h: HandlerMemory, gmem: Seq<(usize, i64)>) -> bool
    decreases w,
{
    &&& h.mems@.len() == w.mems@.len() + 1
    &&& h.block(0) == gmem
    &&& forall|i: int| 0 <= i < w.mems@.len() ==> #[trigger] h.block(i + 1) == w.mems@[i]@.map_values(|c: WireCell| cell_from_wire(c))
    &&& h.addr.0@ == w.mem_space@.map_values(|e: WireSlot| slot_from_wire(e))
    &&& h.addr.1@ == w.mem_space_args@.map_values(|e: WireSlot| slot_from_wire(e))
    &&& h.mem_addr == w.mem_addr as usize
    &&& match (w.parent, h.parent) {
        (Some(wp), Some(hp)) => decodes(*wp, *hp, gmem),
        (None, None) => true,
        _ => false,
    }
}

/// Every level of `w` names an active block that a space can have.
pub open spec fn wire_valid(w: WireMemory) -> bool
    decreases w,
{
    &&& 1 <= w.mem_addr as usize <= w.mems@.len()
    &&& (w.mem_addr as usize) < SENTINEL
    &&& w.mems@.len() < usize::MAX
    &&& match w.parent {
        Some(p) => wire_valid(*p),
        None => true,
    }
}

impl HandlerMemory {
    /// The wire record of this space.
    pub fn to_pb(&self) -> (r: WireMemory)
        requires
            self.wf(),
        ensures
            encodes(r, *self),
        decreases self,
    {
        let mut mems: Vec<Vec<WireCell>> = Vec::new();
        set_pb_mems(self, &mut mems);
        let mem_space = complete_pb_mem_space(&self.addr.0);
        let mem_space_args = complete_pb_mem_space(&self.addr.1);
        let parent = match &self.parent {
            Some(p) => Some(Box::new(p.to_pb())),
            None => None,
        };
        WireMemory { mems, mem_space, mem_space_args, mem_addr: self.mem_addr as u64, parent }
    }

    /// The space that a wire record describes, over the global block
    /// `gmem`; `IllegalAccess` where some level's active block is not one
    /// that a space can have. The identity is fresh.
    pub fn from_pb(proto_hm: &WireMemory, gmem: &Vec<(usize, i64)>) -> (r: VMResult<HandlerMemory>)
        ensures
            r is Ok <==> wire_valid(*proto_hm),
            r is Err ==> r == Err::<HandlerMemory, VMError>(VMError::IllegalAccess),
            r matches Ok(h) ==> h.wf() && decodes(*proto_hm, h, gmem@),
        decreases proto_hm,
    {
        let mem_addr = proto_hm.mem_addr as usize;
        let n = proto_hm.mems.len();
        if mem_addr < 1 || mem_addr > n || mem_addr == SENTINEL || n == usize::MAX {
            return Err(VMError::IllegalAccess);
        }
        let parent = match &proto_hm.parent {
            Some(p) => Some(Arc::new(HandlerMemory::from_pb(p, gmem)?)),
            None => None,
        };
        let mut hm = HandlerMemory::root(gmem);
        set_mems_from_pb(proto_hm, &mut hm.mems, gmem);
        hm.addr = (complete_mem_space_from_pb(&proto_hm.mem_space), complete_mem_space_from_pb(&proto_hm.mem_space_args));
        hm.parent = parent;
        hm.mem_addr = mem_addr;
        Ok(hm)
    }
}

/// Writes blocks 1 and up of `hm` as wire blocks.
fn set_pb_mems(hm: &HandlerMemory, mems: &mut Vec<Vec<WireCell>>)
    requires
        old(mems)@.len() == 0,
        hm.mems@.len() >= 1,
    ensures
        final(mems)@.len() + 1 == hm.mems@.len(),
        forall|i: int| 0 <= i < final(mems)@.len() ==> #[trigger] final(mems)@[i]@ == hm.block(i + 1).map_values(|c: (usize, i64)| cell_to_wire(c)),
{
    let mut i: usize = 1;
    while i < hm.mems.len()
        invariant
            1 <= i,
            i <= hm.mems@.len(),
            mems@.len() == i - 1,
            forall|q: int| 0 <= q < mems@.len() ==> #[trigger] mems@[q]@ == hm.block(q + 1).map_values(|c: (usize, i64)| cell_to_wire(c)),
        decreases hm.mems@.len() - i,
    {
        let block = &hm.mems[i];
        let mut inner: Vec<WireCell> = Vec::new();
        let mut j: usize = 0;
        while j < block.len()
            invariant
                j <= block@.len(),
                inner@ == block@.subrange(0, j as int).map_values(|c: (usize, i64)| cell_to_wire(c)),
            decreases block@.len() - j,
        {
            let (a, b) = block[j];
            inner.push((a as u64, b));
            j = j + 1;
            assert(inner@ =~= block@.subrange(0, j as int).map_values(|c: (usize, i64)| cell_to_wire(c)));
        }
        assert(block@.subrange(0, j as int) =~= block@);
        mems.push(inner);
        i = i + 1;
    }
}

/// Appends the wire blocks of `proto_hm` to `mems`, which holds block 0.
fn set_mems_from_pb(proto_hm: &WireMemory, mems: &mut Vec<Vec<(usize, i64)>>, gmem: &Vec<(usize, i64)>)
    requires
        old(mems)@.len() >= 1,
    ensures
        final(mems)@.len() == proto_hm.mems@.len() + 1,
        final(mems)@[0] == old(mems)@[0],
        forall|i: int| 0 <= i < proto_hm.mems@.len() ==> #[trigger] final(mems)@[i + 1]@ == proto_hm.mems@[i]@.map_values(|c: WireCell| cell_from_wire(c)),
{
    mems.truncate(1);
    let mut i: usize = 0;
    while i < proto_hm.mems.len()
        invariant
            i <= proto_hm.mems@.len(),
            mems@.len() == i + 1,
            mems@[0] == old(mems)@[0],
            forall|q: int| 0 <= q < i ==> #[trigger] mems@[q + 1]@ == proto_hm.mems@[q]@.map_values(|c: WireCell| cell_from_wire(c)),
        decreases proto_hm.mems@.len() - i,
    {
        let block = &proto_hm.mems[i];
        let mut mem: Vec<(usize, i64)> = Vec::new();
        let mut j: usize = 0;
        while j < block.len()
            invariant
                j <= block@.len(),
                mem@ == block@.subrange(0, j as int).map_values(|c: WireCell| cell_from_wire(c)),
            decreases block@.len() - j,
        {
            let (a, b) = block[j];
            mem.push((a as usize, b));
            j = j + 1;
            assert(mem@ =~= block@.subrange(0, j as int).map_values(|c: WireCell| cell_from_wire(c)));
        }
        assert(block@.subrange(0, j as int) =~= block@);
        mems.push(mem);
        i = i + 1;
    }
}

/// An address table as wire slots.
fn complete_pb_mem_space(hm_addr: &AddrTable) -> (r: Vec<WireSlot>)
    ensures
        r@ == hm_addr@.map_values(|e: Option<Idxs>| slot_to_wire(e)),
{
    let mut r: Vec<WireSlot> = Vec::new();
    let mut i: usize = 0;
    while i < hm_addr.len()
        invariant
            i <= hm_addr@.len(),
            r@ == hm_addr@.subrange(0, i as int).map_values(|e: Option<Idxs>| slot_to_wire(e)),
        decreases hm_addr@.len() - i,
    {
        let slot = match hm_addr[i] {
            Some((a, b)) => Some((a as u64, b as u64)),
            None => None,
        };
        r.push(slot);
        i = i + 1;
        assert(r@ =~= hm_addr@.subrange(0, i as int).map_values(|e: Option<Idxs>| slot_to_wire(e)));
    }
    assert(hm_addr@.subrange(0, i as int) =~= hm_addr@);
    r
}

/// An address table read back from wire slots.
fn complete_mem_space_from_pb(proto_mem_space: &Vec<WireSlot>) -> (r: AddrTable)
    ensures
        r@ == proto_mem_space@.map_values(|e: WireSlot| slot_from_wire(e)),
{
    let mut r: AddrTable = Vec::new();
    let mut i: usize = 0;
    while i < proto_mem_space.len()
        invariant
            i <= proto_mem_space@.len(),
            r@ == proto_mem_space@.subrange(0, i as int).map_values(|e: WireSlot| slot_from_wire(e)),
        decreases proto_mem_space@.len() - i,
    {
        let slot = match proto_mem_space[i] {
            Some((a, b)) => Some((a as usize, b as usize)),
            None => None,
        };
        r.push(slot);
        i = i + 1;
        assert(r@ =~= proto_mem_space@.subrange(0, i as int).map_values(|e: WireSlot| slot_from_wire(e)));
    }
    assert(proto_mem_space@.subrange(0, i as int) =~= proto_mem_space@);
    r
}

} // verus!
