use std::sync::Arc;
use vstd::prelude::*;

use crate::address::{
    addr_space, addr_type, closure_slot, global_offset, AddrSpace, CLOSURE_ARG_MEM_END,
    CLOSURE_ARG_MEM_START,
};
use crate::error::{VMError, VMResult};
use crate::fractal::{copy_cells, FractalMemory};

verus! {

/// The tag of a cell whose value is raw data; as an offset, it marks a
/// pointer to a whole block.
pub const SENTINEL: usize = usize::MAX;

/// A location in the heap: a block index and a cell offset (or `SENTINEL`).
pub type Idxs = (usize, usize);

/// One address table: slot `i` holds where address `i` lives, if it is
/// defined in this space.
pub type AddrTable = Vec<Option<Idxs>>;

/// The heap of one handler invocation.
///
/// Block 0 is the global segment. A cell `(SENTINEL, v)` holds raw data `v`;
/// `(t, -1)` points at block `t` as a whole; `(t, o)` points at cell `o` of
/// block `t`. A forked child starts with empty blocks below `mem_addr`: an
/// empty one stands for the parent's block of that index until the child
/// copies it down.
pub struct HandlerMemory {
    /// The space this one was forked from, shared read-only.
    pub parent: Option<Arc<HandlerMemory>>,
    /// The blocks.
    pub mems: Vec<Vec<(usize, i64)>>,
    /// The normal address table and the closure-argument table.
    pub addr: (AddrTable, AddrTable),
    /// The block that new fixed values are appended to.
    pub mem_addr: usize,
    /// The identity that views read from this space carry.
    pub id: u64,
}

impl HandlerMemory {
    /// The block at index `a`, as a sequence of cells.
    pub open spec fn block(&self, a: int) -> Seq<(usize, i64)> {
        self.mems@[a]@
    }

    /// Well-formed: the active block exists, block 0 is not it, and every
    /// ancestor is well-formed too.
    pub open spec fn wf(&self) -> bool
        decreases self,
    {
        &&& 1 <= self.mem_addr < self.mems@.len()
        &&& self.mem_addr < SENTINEL
        &&& match self.parent {
            Some(p) => (*p).wf(),
            None => true,
        }
    }

    /// Whether the location `(a, b)` is backed by this space itself.
    pub open spec fn idx_defined(&self, a: usize, b: usize) -> bool {
        ||| a == SENTINEL
        ||| {
            &&& (self.mem_addr == 1 || a >= self.mem_addr || self.block(a as int).len() > 0)
            &&& (a as int) < self.mems@.len()
            &&& ((b as int) < self.block(a as int).len() || b == SENTINEL)
        }
    }

    /// The space along the parent chain whose blocks back `(a, b)`: the
    /// first that defines it, else the root.
    pub open spec fn owner(&self, a: usize, b: usize) -> HandlerMemory
        decreases self,
    {
        if self.idx_defined(a, b) {
            *self
        } else {
            match self.parent {
                Some(p) => (*p).owner(a, b),
                None => *self,
            }
        }
    }

    /// What this space's own tables say of `addr`.
    pub open spec fn local_idxs(&self, addr: i64) -> Option<Idxs> {
        match addr_space(addr) {
            AddrSpace::Normal => if (addr as int) < self.addr.0@.len() {
                self.addr.0@[addr as int]
            } else {
                None
            },
            AddrSpace::ClosureArg => if closure_slot(addr) < self.addr.1@.len() {
                self.addr.1@[closure_slot(addr)]
            } else {
                None
            },
            AddrSpace::Global => Some((0usize, global_offset(addr))),
        }
    }

    /// Where `addr` lives: this space's binding, else the nearest
    /// ancestor's; `None` where no space along the chain binds it.
    pub open spec fn find_idxs(&self, addr: i64) -> Option<Idxs>
        decreases self,
    {
        match self.local_idxs(addr) {
            Some(p) => Some(p),
            None => match self.parent {
                Some(q) => (*q).find_idxs(addr),
                None => None,
            },
        }
    }

    /// Where `addr` lives, with the space along the chain, starting from
    /// this one, whose blocks back that location.
    pub open spec fn resolve(&self, addr: i64) -> Option<(Idxs, HandlerMemory)> {
        match self.find_idxs(addr) {
            Some(p) => Some((p, self.owner(p.0, p.1))),
            None => None,
        }
    }

    /// The fixed value that `addr` reads as.
    pub open spec fn fixed_at(&self, addr: i64) -> VMResult<i64> {
        match self.resolve(addr) {
            None => Err(VMError::OrphanMemory),
            Some((p, o)) => if p.0 == SENTINEL {
                Ok(p.1 as i64)
            } else if (p.0 as int) < o.mems@.len() && (p.1 as int) < o.block(p.0 as int).len() {
                Ok(o.block(p.0 as int)[p.1 as int].1)
            } else {
                Err(VMError::IllegalAccess)
            },
        }
    }

    /// `new` is `old` with `addr` bound to `(a, b)` and nothing else changed.
    pub open spec fn addr_set(old: HandlerMemory, new: HandlerMemory, addr: i64, a: usize, b: usize) -> bool {
        &&& new.mems == old.mems
        &&& new.parent == old.parent
        &&& new.mem_addr == old.mem_addr
        &&& new.id == old.id
        &&& forall|x: i64| #[trigger]
            new.local_idxs(x) == if x == addr {
                Some((a, b))
            } else {
                old.local_idxs(x)
            }
    }

    /// `new` is `old` with `val` appended to the active block and `addr`
    /// bound to the new cell.
    pub open spec fn fixed_written(old: HandlerMemory, new: HandlerMemory, addr: i64, val: i64) -> bool {
        &&& new.mems@.len() == old.mems@.len()
        &&& new.parent == old.parent
        &&& new.mem_addr == old.mem_addr
        &&& new.id == old.id
        &&& new.block(old.mem_addr as int) == old.block(old.mem_addr as int).push((SENTINEL, val))
        &&& forall|i: int| 0 <= i < old.mems@.len() && i != old.mem_addr ==> #[trigger] new.block(i) == old.block(i)
        &&& forall|x: i64| #[trigger]
            new.local_idxs(x) == if x == addr {
                Some((old.mem_addr, old.block(old.mem_addr as int).len() as usize))
            } else {
                old.local_idxs(x)
            }
    }

    /// Whether `(a, b)` is backed by this space itself.
    pub(crate) fn is_idx_defined(&self, a: usize, b: usize) -> (r: bool)
        requires
            self.wf(),
        ensures
            r == self.idx_defined(a, b),
    {
        let is_raw = a == SENTINEL;
        let in_range = a < self.mems.len();
        let safe_mem_space = self.mem_addr == 1 || a >= self.mem_addr || (in_range && self.mems[a].len() > 0);
        let is_fixed = safe_mem_space && in_range && b < self.mems[a].len();
        let is_fractal = safe_mem_space && in_range && b == SENTINEL;
        is_raw || is_fixed || is_fractal
    }

    /// The space along the parent chain that backs `(a, b)`.
    pub(crate) fn owner_of(&self, a: usize, b: usize) -> (r: &HandlerMemory)
        requires
            self.wf(),
        ensures
            *r == self.owner(a, b),
            r.wf(),
        decreases self,
    {
        if self.is_idx_defined(a, b) {
            self
        } else {
            match &self.parent {
                Some(p) => p.owner_of(a, b),
                None => self,
            }
        }
    }
    /// Appends a cell to block `a`.
    pub(crate) fn push_cell(&mut self, a: usize, c: (usize, i64))
        requires
            (a as int) < old(self).mems@.len(),
        ensures
            final(self).mems@.len() == old(self).mems@.len(),
            final(self).block(a as int) == old(self).block(a as int).push(c),
            forall|i: int| 0 <= i < old(self).mems@.len() && i != a ==> #[trigger] final(self).block(i) == old(self).block(i),
            final(self).parent == old(self).parent,
            final(self).addr == old(self).addr,
            final(self).mem_addr == old(self).mem_addr,
            final(self).id == old(self).id,
    {
        self.mems[a].push(c);
    }

    /// Lends out block `a` for changing in place.
    pub(crate) fn block_mut(&mut self, a: usize) -> (r: &mut Vec<(usize, i64)>)
        requires
            (a as int) < old(self).mems@.len(),
        ensures
            *r == old(self).mems@[a as int],
            final(self).mems@ == old(self).mems@.update(a as int, *final(r)),
            final(self).parent == old(self).parent,
            final(self).addr == old(self).addr,
            final(self).mem_addr == old(self).mem_addr,
            final(self).id == old(self).id,
    {
        &mut self.mems[a]
    }

    /// Removes the last cell of block `a`.
    pub(crate) fn pop_cell(&mut self, a: usize) -> (r: Option<(usize, i64)>)
        requires
            (a as int) < old(self).mems@.len(),
        ensures
            final(self).mems@.len() == old(self).mems@.len(),
            old(self).block(a as int).len() == 0 ==> r is None && final(self).block(a as int) == old(self).block(a as int),
            old(self).block(a as int).len() > 0 ==> r == Some(old(self).block(a as int).last())
                && final(self).block(a as int) == old(self).block(a as int).drop_last(),
            forall|i: int| 0 <= i < old(self).mems@.len() && i != a ==> #[trigger] final(self).block(i) == old(self).block(i),
            final(self).parent == old(self).parent,
            final(self).addr == old(self).addr,
            final(self).mem_addr == old(self).mem_addr,
            final(self).id == old(self).id,
    {
        self.mems[a].pop()
    }

    /// Removes cell `idx` of block `a`.
    pub(crate) fn remove_cell(&mut self, a: usize, idx: usize) -> (r: (usize, i64))
        requires
            (a as int) < old(self).mems@.len(),
            (idx as int) < old(self).block(a as int).len(),
        ensures
            final(self).mems@.len() == old(self).mems@.len(),
            r == old(self).block(a as int)[idx as int],
            final(self).block(a as int) == old(self).block(a as int).remove(idx as int),
            forall|i: int| 0 <= i < old(self).mems@.len() && i != a ==> #[trigger] final(self).block(i) == old(self).block(i),
            final(self).parent == old(self).parent,
            final(self).addr == old(self).addr,
            final(self).mem_addr == old(self).mem_addr,
            final(self).id == old(self).id,
    {
        self.mems[a].remove(idx)
    }

    /// Looks `addr` up in this space's own tables.
    pub fn addr_to_idxs_opt(&self, addr: i64) -> (r: Option<Idxs>)
        ensures
            r == self.local_idxs(addr),
    {
        match addr_type(addr) {
            AddrSpace::Normal => {
                if (addr as u64) < (self.addr.0.len() as u64) {
                    self.addr.0[addr as usize]
                } else {
                    None
                }
            },
            AddrSpace::ClosureArg => {
                let slot = (addr - CLOSURE_ARG_MEM_START) as usize;
                if slot < self.addr.1.len() {
                    self.addr.1[slot]
                } else {
                    None
                }
            },
            AddrSpace::Global => {
                assert(CLOSURE_ARG_MEM_END < addr < 0);
                let n: i64 = -addr - 1;
                Some((0, (n / 8) as usize))
            },
        }
    }

    /// Looks `addr` up along the parent chain.
    fn find_idxs_exec(&self, addr: i64) -> (r: Option<Idxs>)
        ensures
            r == self.find_idxs(addr),
        decreases self,
    {
        match self.addr_to_idxs_opt(addr) {
            Some(res) => Some(res),
            None => match &self.parent {
                Some(p) => p.find_idxs_exec(addr),
                None => None,
            },
        }
    }

    /// Looks `addr` up along the parent chain; gives the location and the
    /// space that backs it.
    pub fn addr_to_idxs(&self, addr: i64) -> (r: VMResult<(Idxs, &HandlerMemory)>)
        requires
            self.wf(),
        ensures
            match self.resolve(addr) {
                None => r == Err::<(Idxs, &HandlerMemory), VMError>(VMError::OrphanMemory),
                Some((p, o)) => r is Ok && r->Ok_0.0 == p && *r->Ok_0.1 == o && o.wf(),
            },
    {
        match self.find_idxs_exec(addr) {
            Some(res) => Ok((res, self.owner_of(res.0, res.1))),
            None => Err(VMError::OrphanMemory),
        }
    }

    /// Reads the fixed value at `addr`: an immediate where the location is
    /// raw, else the value of the cell it names.
    pub fn read_fixed(&self, addr: i64) -> (r: VMResult<i64>)
        requires
            self.wf(),
        ensures
            r == self.fixed_at(addr),
    {
        let ((a, b), hm) = self.addr_to_idxs(addr)?;
        if a == SENTINEL {
            Ok(b as i64)
        } else if a < hm.mems.len() && b < hm.mems[a].len() {
            Ok(hm.mems[a][b].1)
        } else {
            Err(VMError::IllegalAccess)
        }
    }

    /// Binds `addr` to the location `(a, b)`. Global addresses have no
    /// table and cannot be bound.
    pub(crate) fn set_addr(&mut self, addr: i64, a: usize, b: usize) -> (r: VMResult<()>)
        ensures
            r is Ok <==> bindable(addr),
            r is Err ==> r == Err::<(), VMError>(VMError::IllegalAccess) && *final(self) == *old(self),
            r is Ok ==> Self::addr_set(*old(self), *final(self), addr, a, b),
    {
        match addr_type(addr) {
            AddrSpace::Normal => {
                if (addr as u64) > (usize::MAX as u64) {
                    return Err(VMError::IllegalAccess);
                }
                table_put(&mut self.addr.0, addr as usize, (a, b));
            },
            AddrSpace::ClosureArg => {
                table_put(&mut self.addr.1, (addr - CLOSURE_ARG_MEM_START) as usize, (a, b));
            },
            AddrSpace::Global => {
                return Err(VMError::IllegalAccess);
            },
        }
        Ok(())
    }

    /// Stores a fixed value at `addr`: appends it to the active block and
    /// binds `addr` to the new cell.
    pub fn write_fixed(&mut self, addr: i64, val: i64) -> (r: VMResult<()>)
        requires
            old(self).wf(),
        ensures
            final(self).wf(),
            r is Ok <==> bindable(addr),
            r is Err ==> r == Err::<(), VMError>(VMError::IllegalAccess) && *final(self) == *old(self),
            r is Ok ==> Self::fixed_written(*old(self), *final(self), addr, val),
    {
        if !is_bindable(addr) {
            return Err(VMError::IllegalAccess);
        }
        let a = self.mem_addr;
        let b = self.mems[a].len();
        self.push_cell(a, (SENTINEL, val));
        let ghost mid = *self;
        let r = self.set_addr(addr, a, b);
        assert forall|x: i64| #[trigger] mid.local_idxs(x) == old(self).local_idxs(x) by {}
        assert forall|i: int| 0 <= i < old(self).mems@.len() && i != old(self).mem_addr implies #[trigger] self.block(i)
            == old(self).block(i) by {
            assert(mid.block(i) == old(self).block(i));
        }
        r
    }
}

impl HandlerMemory {
    /// A root space with `gmem` as block 0 and an empty active block 1.
    pub open spec fn is_fresh_root(&self, gmem: Seq<(usize, i64)>) -> bool {
        &&& self.parent is None
        &&& self.mems@.len() == 2
        &&& self.block(0) == gmem
        &&& self.block(1) == Seq::<(usize, i64)>::empty()
        &&& self.addr.0@ == Seq::<Option<Idxs>>::empty()
        &&& self.addr.1@ == Seq::<Option<Idxs>>::empty()
        &&& self.mem_addr == 1
    }

    /// A child just forked from `parent`: nothing of its own but the global
    /// block, an empty placeholder per parent block, and an empty active
    /// block at the parent's block count.
    pub open spec fn forked_from(&self, parent: Arc<HandlerMemory>) -> bool {
        &&& self.parent == Some(parent)
        &&& self.mem_addr == (*parent).mems@.len()
        &&& self.mems@.len() == (*parent).mems@.len() + 1
        &&& self.block(0) == (*parent).block(0)
        &&& forall|i: int| 1 <= i < self.mems@.len() ==> #[trigger] self.block(i).len() == 0
        &&& self.addr.0@.len() == 0
        &&& self.addr.1@.len() == 0
    }

    /// Makes a space ready for a handler: the payload space where one is
    /// given (it must be held exclusively), else a fresh root over `gmem`.
    /// `mem_req` is the number of cells to reserve in block 1.
    pub fn new(payload_mem: Option<Arc<HandlerMemory>>, mem_req: i64, gmem: &Vec<(usize, i64)>) -> (r: VMResult<HandlerMemory>)
        requires
            payload_mem matches Some(p) ==> (*p).wf(),
        ensures
            r matches Ok(h) ==> h.wf(),
            payload_mem is None ==> r is Ok && r->Ok_0.is_fresh_root(gmem@),
            payload_mem matches Some(p) ==> match r {
                Ok(h) => h.mems@.len() == (*p).mems@.len() && h.parent == (*p).parent && h.addr == (*p).addr
                    && h.mem_addr == (*p).mem_addr && h.id == (*p).id
                    && forall|i: int| 0 <= i < h.mems@.len() ==> #[trigger] h.block(i) == (*p).block(i),
                Err(e) => e == VMError::HandMemDanglingPtr,
            },
    {
        let mut hm = match payload_mem {
            Some(payload) => HandlerMemory::into_exclusive(payload)?,
            None => HandlerMemory::root(gmem),
        };
        if mem_req > 0 {
            hm.mems[1].reserve(mem_req as usize);
        }
        Ok(hm)
    }

    /// A fresh root space over the global block `gmem`.
    pub(crate) fn root(gmem: &Vec<(usize, i64)>) -> (r: HandlerMemory)
        ensures
            r.wf(),
            r.is_fresh_root(gmem@),
    {
        let mut mems: Vec<Vec<(usize, i64)>> = Vec::new();
        mems.push(copy_cells(gmem, 0));
        mems.push(Vec::new());
        assert(mems@[0]@ =~= gmem@);
        assert(mems@[1]@ =~= Seq::<(usize, i64)>::empty());
        HandlerMemory {
            parent: None,
            mems,
            addr: (Vec::new(), Vec::new()),
            mem_addr: 1,
            id: fresh_identity(),
        }
    }

    /// The space behind `hm` where no other reference to it is alive;
    /// `HandMemDanglingPtr` where one is.
    pub fn into_exclusive(hm: Arc<HandlerMemory>) -> (r: VMResult<HandlerMemory>)
        ensures
            match r {
                Ok(h) => h == *hm,
                Err(e) => e == VMError::HandMemDanglingPtr,
            },
    {
        match try_unwrap_space(hm) {
            Ok(h) => Ok(h),
            Err(_) => Err(VMError::HandMemDanglingPtr),
        }
    }

    /// Detaches a child from its parent so that the parent can be taken
    /// back exclusively for joining; fails where `hm` is shared.
    pub fn drop_parent(hm: Arc<HandlerMemory>) -> (r: VMResult<HandlerMemory>)
        ensures
            match r {
                Ok(h) => h.parent is None && h.mems == (*hm).mems && h.addr == (*hm).addr
                    && h.mem_addr == (*hm).mem_addr && h.id == (*hm).id,
                Err(e) => e == VMError::HandMemDanglingPtr,
            },
    {
        let mut h = HandlerMemory::into_exclusive(hm)?;
        h.parent = None;
        Ok(h)
    }

    /// A child of `parent` for parallel work: it shares the parent's blocks
    /// read-only, holds an empty placeholder for each of them, and writes
    /// into a new block at the parent's block count.
    pub fn fork(parent: Arc<HandlerMemory>) -> (r: VMResult<HandlerMemory>)
        requires
            (*parent).wf(),
        ensures
            (*parent).mems@.len() < usize::MAX <==> r is Ok,
            r is Err ==> r == Err::<HandlerMemory, VMError>(VMError::IllegalAccess),
            r matches Ok(c) ==> c.wf() && c.forked_from(parent),
    {
        let s = parent.mems.len();
        if s == usize::MAX {
            return Err(VMError::IllegalAccess);
        }
        let mut mems: Vec<Vec<(usize, i64)>> = Vec::new();
        mems.push(copy_cells(&parent.mems[0], 0));
        while mems.len() < s + 1
            invariant
                1 <= mems@.len() <= s + 1,
                s < usize::MAX,
                mems@[0]@ == (*parent).block(0),
                forall|i: int| 1 <= i < mems@.len() ==> #[trigger] mems@[i]@.len() == 0,
            decreases s + 1 - mems@.len(),
        {
            mems.push(Vec::new());
        }
        Ok(HandlerMemory {
            parent: Some(parent),
            mems,
            addr: (Vec::new(), Vec::new()),
            mem_addr: s,
            id: fresh_identity(),
        })
    }

    /// The cells that a read at `addr` sees: the whole target block, or for
    /// a global address the global block from its offset on; with the
    /// identity of the space that backs it.
    pub open spec fn fractal_at(&self, addr: i64) -> VMResult<(Seq<(usize, i64)>, u64)> {
        match self.resolve(addr) {
            None => Err(VMError::OrphanMemory),
            Some((p, o)) => {
                let start = if addr_space(addr) == AddrSpace::Global { p.1 as int } else { 0 };
                if (p.0 as int) < o.mems@.len() && start <= o.block(p.0 as int).len() {
                    Ok((o.block(p.0 as int).subrange(start, o.block(p.0 as int).len() as int), o.id))
                } else {
                    Err(VMError::IllegalAccess)
                }
            },
        }
    }

    /// Reads the aggregate at `addr` as a view.
    pub fn read_fractal(&self, addr: i64) -> (r: VMResult<FractalMemory>)
        requires
            self.wf(),
        ensures
            match self.fractal_at(addr) {
                Ok((cells, id)) => r matches Ok(f) && f.block@ == cells && f.hm_id == id && f.hm_addr == Some(addr),
                Err(e) => r == Err::<FractalMemory, VMError>(e),
            },
    {
        let ((a, b), hm) = self.addr_to_idxs(addr)?;
        let start = if addr_type(addr) == AddrSpace::Global { b } else { 0 };
        if a < hm.mems.len() && start <= hm.mems[a].len() {
            Ok(FractalMemory { hm_addr: Some(addr), block: copy_cells(&hm.mems[a], start), hm_id: hm.id })
        } else {
            Err(VMError::IllegalAccess)
        }
    }

    /// The value at `addr` as a view: the one cell it names, or the whole
    /// block it points at; with `true` in the second case.
    pub open spec fn either_at(&self, addr: i64) -> VMResult<(Seq<(usize, i64)>, u64, bool)> {
        match self.resolve(addr) {
            None => Err(VMError::OrphanMemory),
            Some((p, o)) => if !((p.0 as int) < o.mems@.len()) {
                Err(VMError::IllegalAccess)
            } else if p.1 == SENTINEL {
                Ok((o.block(p.0 as int), o.id, true))
            } else if (p.1 as int) < o.block(p.0 as int).len() {
                Ok((seq![o.block(p.0 as int)[p.1 as int]], o.id, false))
            } else {
                Err(VMError::IllegalAccess)
            },
        }
    }

    /// Reads the value at `addr`, single cell or whole block, as a view,
    /// and says which it was.
    pub fn read_either(&self, addr: i64) -> (r: VMResult<(FractalMemory, bool)>)
        requires
            self.wf(),
        ensures
            match self.either_at(addr) {
                Ok((cells, id, is_fractal)) => r matches Ok((f, fr)) && f.block@ == cells && f.hm_id == id
                    && f.hm_addr == Some(addr) && fr == is_fractal,
                Err(e) => r == Err::<(FractalMemory, bool), VMError>(e),
            },
    {
        let ((a, b), hm) = self.addr_to_idxs(addr)?;
        if a >= hm.mems.len() {
            return Err(VMError::IllegalAccess);
        }
        let (block, is_fractal) = if b == SENTINEL {
            (copy_cells(&hm.mems[a], 0), true)
        } else if b < hm.mems[a].len() {
            let mut one: Vec<(usize, i64)> = Vec::new();
            one.push(hm.mems[a][b]);
            (one, false)
        } else {
            return Err(VMError::IllegalAccess);
        };
        Ok((FractalMemory { hm_addr: Some(addr), block, hm_id: hm.id }, is_fractal))
    }
}

/// Relies on `Arc::try_unwrap`: the inner value where this is the only
/// strong reference, else the same `Arc` back.
#[verifier::external_body]
fn try_unwrap_space(a: Arc<HandlerMemory>) -> (r: Result<HandlerMemory, Arc<HandlerMemory>>)
    ensures
        match r {
            Ok(h) => h == *a,
            Err(b) => b == a,
        },
{
    Arc::try_unwrap(a)
}

/// An identity for a new space: the hash of a constant under fresh random
/// keys. Nothing is known of the value.
fn fresh_identity() -> (r: u64) {
    hash_unit(&random_state())
}

/// Relies on `RandomState::new`: keys that are random per process and
/// fresh per call.
#[verifier::external_body]
fn random_state() -> (r: std::collections::hash_map::RandomState) {
    std::collections::hash_map::RandomState::new()
}

/// Relies on `BuildHasher::hash_one`: the hash of `0u8` under the keys of
/// `keys`. Nothing is known of the value.
#[verifier::external_body]
fn hash_unit(keys: &std::collections::hash_map::RandomState) -> (r: u64) {
    std::hash::BuildHasher::hash_one(keys, 0u8)
}

/// Whether `addr` has a table slot: a normal address that fits in `usize`,
/// or one of the closure-argument window.
pub open spec fn bindable(addr: i64) -> bool {
    match addr_space(addr) {
        AddrSpace::Normal => addr as int <= usize::MAX,
        AddrSpace::ClosureArg => true,
        AddrSpace::Global => false,
    }
}

pub(crate) fn is_bindable(addr: i64) -> (r: bool)
    ensures
        r == bindable(addr),
{
    match addr_type(addr) {
        AddrSpace::Normal => (addr as u64) <= (usize::MAX as u64),
        AddrSpace::ClosureArg => true,
        AddrSpace::Global => false,
    }
}

/// Sets slot `i` of a table to `v`, growing the table with empty slots.
pub(crate) fn table_put(t: &mut AddrTable, i: usize, v: Idxs)
    ensures
        final(t)@.len() == if (i as int) < old(t)@.len() { old(t)@.len() as int } else { i + 1 },
        final(t)@[i as int] == Some(v),
        forall|j: int| 0 <= j < final(t)@.len() && j != i ==> #[trigger] final(t)@[j] == if j < old(t)@.len() {
            old(t)@[j]
        } else {
            None
        },
{
    let ghost t0 = t@;
    while t.len() <= i
        invariant
            t0.len() <= t@.len(),
            t@.len() > t0.len() ==> t@.len() <= i + 1,
            forall|j: int| 0 <= j < t@.len() ==> #[trigger] t@[j] == if j < t0.len() { t0[j] } else { None },
        decreases i + 1 - t@.len(),
    {
        t.push(None);
    }
    t.set(i, Some(v));
}

} // verus!
