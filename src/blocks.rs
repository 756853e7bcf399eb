//! Operations that change blocks: copy-on-write, pushes, pops, and writes of
//! whole aggregates.
use vstd::prelude::*;

use crate::error::{VMError, VMResult};
use crate::fractal::{copy_cells, FractalMemory};
use crate::memory::{bindable, HandlerMemory, SENTINEL};

verus! {

impl HandlerMemory {
    /// The block that a mutation at `addr` works on, and the cells it holds
    /// where the space that backs it is consulted. Block 0, the global
    /// segment, is never mutable.
    pub open spec fn block_target(&self, addr: i64) -> VMResult<(usize, Seq<(usize, i64)>)> {
        match self.resolve(addr) {
            None => Err(VMError::OrphanMemory),
            Some((p, o)) => if p.0 == 0 || !((p.0 as int) < self.mems@.len()) || !((p.0 as int) < o.mems@.len()) {
                Err(VMError::IllegalAccess)
            } else {
                Ok((p.0, o.block(p.0 as int)))
            },
        }
    }

    /// `new` is `old` with block `a` replaced by `cells`.
    pub open spec fn block_replaced(old: HandlerMemory, new: HandlerMemory, a: usize, cells: Seq<(usize, i64)>) -> bool {
        &&& new.mems@.len() == old.mems@.len()
        &&& new.parent == old.parent
        &&& new.addr == old.addr
        &&& new.mem_addr == old.mem_addr
        &&& new.id == old.id
        &&& new.block(a as int) == cells
        &&& forall|i: int| 0 <= i < old.mems@.len() && i != a ==> #[trigger] new.block(i) == old.block(i)
    }

    /// `new` is `old` with `cells` appended as a new block and `addr` bound
    /// to a pointer at it.
    pub open spec fn fractal_written(old: HandlerMemory, new: HandlerMemory, addr: i64, cells: Seq<(usize, i64)>) -> bool {
        &&& new.mems@.len() == old.mems@.len() + 1
        &&& new.parent == old.parent
        &&& new.mem_addr == old.mem_addr
        &&& new.id == old.id
        &&& new.block(old.mems@.len() as int) == cells
        &&& forall|i: int| 0 <= i < old.mems@.len() ==> #[trigger] new.block(i) == old.block(i)
        &&& forall|x: i64| #[trigger]
            new.local_idxs(x) == if x == addr {
                Some((old.mems@.len() as usize, SENTINEL))
            } else {
                old.local_idxs(x)
            }
    }

    /// Makes the block at `addr` this space's own, copying it down from
    /// the ancestor that backs it where needed, and gives its index.
    pub(crate) fn own_block(&mut self, addr: i64) -> (r: VMResult<usize>)
        requires
            old(self).wf(),
        ensures
            final(self).wf(),
            match old(self).block_target(addr) {
                Ok((a, cells)) => r == Ok::<usize, VMError>(a) && Self::block_replaced(*old(self), *final(self), a, cells),
                Err(e) => r == Err::<usize, VMError>(e) && *final(self) == *old(self),
            },
    {
        let ((a, b), hm) = self.addr_to_idxs(addr)?;
        if a == 0 || a >= self.mems.len() || a >= hm.mems.len() {
            return Err(VMError::IllegalAccess);
        }
        let local = self.parent.is_none() || self.is_idx_defined(a, b);
        let ghost o = *hm;
        if !local {
            let copy = copy_cells(&hm.mems[a], 0);
            assert(copy@ =~= o.block(a as int));
            self.mems.set(a, copy);
        } else {
            assert(o == *old(self));
        }
        assert(self.block(a as int) == o.block(a as int));
        Ok(a)
    }

    /// The block at `addr` made this space's own (copied down from the
    /// ancestor that backs it where needed), for changing in place.
    pub fn read_mut_fractal(&mut self, addr: i64) -> (r: VMResult<&mut Vec<(usize, i64)>>)
        requires
            old(self).wf(),
        ensures
            match old(self).block_target(addr) {
                Ok((_, cells)) => r is Ok && (*r->Ok_0)@ == cells,
                Err(e) => r is Err && r->Err_0 == e && *final(self) == *old(self),
            },
    {
        let a = self.own_block(addr)?;
        Ok(self.block_mut(a))
    }

    /// Block `a` made this space's own (copied down from the ancestor that
    /// backs it where needed), for changing in place. Block 0, the global
    /// segment, and blocks past the end are refused.
    pub fn read_mut_fractal_by_idx(&mut self, a: usize) -> (r: VMResult<&mut Vec<(usize, i64)>>)
        requires
            old(self).wf(),
        ensures
            ({
                let o = old(self).owner(a, SENTINEL);
                if a == 0 || !((a as int) < old(self).mems@.len()) || !((a as int) < o.mems@.len()) {
                    r is Err && r->Err_0 == VMError::IllegalAccess && *final(self) == *old(self)
                } else {
                    r is Ok && (*r->Ok_0)@ == o.block(a as int)
                }
            }),
    {
        let hm = self.owner_of(a, SENTINEL);
        if a == 0 || a >= self.mems.len() || a >= hm.mems.len() {
            return Err(VMError::IllegalAccess);
        }
        let ghost o = *hm;
        if !(self.parent.is_none() || self.is_idx_defined(a, SENTINEL)) {
            let copy = copy_cells(&hm.mems[a], 0);
            assert(copy@ =~= o.block(a as int));
            self.mems.set(a, copy);
        }
        Ok(self.block_mut(a))
    }

    /// Appends a raw value to the block at `addr`.
    pub fn push_fixed(&mut self, addr: i64, val: i64) -> (r: VMResult<()>)
        requires
            old(self).wf(),
        ensures
            final(self).wf(),
            match old(self).block_target(addr) {
                Ok((a, cells)) => r is Ok && Self::block_replaced(*old(self), *final(self), a, cells.push((SENTINEL, val))),
                Err(e) => r == Err::<(), VMError>(e) && *final(self) == *old(self),
            },
    {
        let a = self.own_block(addr)?;
        let ghost mid = *self;
        self.push_cell(a, (SENTINEL, val));
        assert forall|i: int| 0 <= i < old(self).mems@.len() && i != a implies #[trigger] self.block(i) == old(self).block(i) by {
            assert(mid.block(i) == old(self).block(i));
        }
        Ok(())
    }

    /// Appends the view's cells as a new block and a pointer to it to the
    /// block at `addr`.
    pub fn push_fractal(&mut self, addr: i64, val: FractalMemory) -> (r: VMResult<()>)
        requires
            old(self).wf(),
        ensures
            final(self).wf(),
            old(self).mems@.len() == usize::MAX ==> r == Err::<(), VMError>(VMError::IllegalAccess) && *final(self) == *old(self),
            old(self).mems@.len() < usize::MAX ==> match old(self).block_target(addr) {
                Ok((a, cells)) => r is Ok && {
                    let n = old(self).mems@.len();
                    &&& final(self).mems@.len() == n + 1
                    &&& final(self).block(a as int) == cells.push((n as usize, -1i64))
                    &&& final(self).block(n as int) == val.block@
                    &&& forall|i: int| 0 <= i < n && i != a ==> #[trigger] final(self).block(i) == old(self).block(i)
                    &&& final(self).addr == old(self).addr
                    &&& final(self).parent == old(self).parent
                    &&& final(self).mem_addr == old(self).mem_addr
                },
                Err(e) => r == Err::<(), VMError>(e) && *final(self) == *old(self),
            },
    {
        let n = self.mems.len();
        if n == usize::MAX {
            return Err(VMError::IllegalAccess);
        }
        let a = self.own_block(addr)?;
        let ghost mid = *self;
        self.push_cell(a, (n, -1));
        let ghost mid2 = *self;
        self.mems.push(val.block);
        assert forall|i: int| 0 <= i < n && i != a implies #[trigger] self.block(i) == old(self).block(i) by {
            assert(mid.block(i) == old(self).block(i));
            assert(mid2.block(i) == mid.block(i));
        }
        Ok(())
    }

    /// Removes the last cell of the block at `addr` and gives it as a view.
    pub fn pop(&mut self, addr: i64) -> (r: VMResult<FractalMemory>)
        requires
            old(self).wf(),
        ensures
            final(self).wf(),
            match old(self).block_target(addr) {
                Ok((a, cells)) => if cells.len() == 0 {
                    r == Err::<FractalMemory, VMError>(VMError::EmptyBlock) && Self::block_replaced(*old(self), *final(self), a, cells)
                } else {
                    r matches Ok(f) && f.block@ == seq![cells.last()] && f.hm_id == 0 && f.hm_addr is None
                        && Self::block_replaced(*old(self), *final(self), a, cells.drop_last())
                },
                Err(e) => r == Err::<FractalMemory, VMError>(e) && *final(self) == *old(self),
            },
    {
        let a = self.own_block(addr)?;
        let ghost mid = *self;
        let popped = self.pop_cell(a);
        assert forall|i: int| 0 <= i < old(self).mems@.len() && i != a implies #[trigger] self.block(i) == old(self).block(i) by {
            assert(mid.block(i) == old(self).block(i));
        }
        match popped {
            Some(c) => {
                let mut one: Vec<(usize, i64)> = Vec::new();
                one.push(c);
                Ok(FractalMemory::new(one))
            },
            None => Err(VMError::EmptyBlock),
        }
    }

    /// Removes the cell at `idx` of the block at `addr` and gives it as a view.
    pub fn delete(&mut self, addr: i64, idx: usize) -> (r: VMResult<FractalMemory>)
        requires
            old(self).wf(),
        ensures
            final(self).wf(),
            match old(self).block_target(addr) {
                Ok((a, cells)) => if (idx as int) < cells.len() {
                    r matches Ok(f) && f.block@ == seq![cells[idx as int]] && f.hm_id == 0 && f.hm_addr is None
                        && Self::block_replaced(*old(self), *final(self), a, cells.remove(idx as int))
                } else {
                    r == Err::<FractalMemory, VMError>(VMError::IndexOutOfRange { idx, len: cells.len() as usize })
                        && Self::block_replaced(*old(self), *final(self), a, cells)
                },
                Err(e) => r == Err::<FractalMemory, VMError>(e) && *final(self) == *old(self),
            },
    {
        let a = self.own_block(addr)?;
        let len = self.mems[a].len();
        if idx < len {
            let ghost mid = *self;
            let c = self.remove_cell(a, idx);
            assert forall|i: int| 0 <= i < old(self).mems@.len() && i != a implies #[trigger] self.block(i) == old(self).block(i) by {
                assert(mid.block(i) == old(self).block(i));
            }
            let mut one: Vec<(usize, i64)> = Vec::new();
            one.push(c);
            Ok(FractalMemory::new(one))
        } else {
            Err(VMError::IndexOutOfRange { idx, len })
        }
    }

    /// Appends `cells` as a new block and binds `addr` to a pointer at it.
    fn append_block_at(&mut self, addr: i64, cells: Vec<(usize, i64)>) -> (r: VMResult<()>)
        requires
            old(self).wf(),
        ensures
            final(self).wf(),
            r is Ok <==> bindable(addr) && old(self).mems@.len() < usize::MAX,
            r is Err ==> r == Err::<(), VMError>(VMError::IllegalAccess) && *final(self) == *old(self),
            r is Ok ==> Self::fractal_written(*old(self), *final(self), addr, cells@),
    {
        let n = self.mems.len();
        if n == usize::MAX || !crate::memory::is_bindable(addr) {
            return Err(VMError::IllegalAccess);
        }
        self.mems.push(cells);
        let ghost mid = *self;
        let r = self.set_addr(addr, n, SENTINEL);
        assert forall|x: i64| #[trigger] mid.local_idxs(x) == old(self).local_idxs(x) by {}
        assert forall|i: int| 0 <= i < old(self).mems@.len() implies #[trigger] self.block(i) == old(self).block(i) by {
            assert(mid.block(i) == old(self).block(i));
        }
        r
    }

    /// Binds `addr` to a new empty block.
    pub fn init_fractal(&mut self, addr: i64) -> (r: VMResult<()>)
        requires
            old(self).wf(),
        ensures
            final(self).wf(),
            r is Ok <==> bindable(addr) && old(self).mems@.len() < usize::MAX,
            r is Err ==> r == Err::<(), VMError>(VMError::IllegalAccess) && *final(self) == *old(self),
            r is Ok ==> Self::fractal_written(*old(self), *final(self), addr, Seq::<(usize, i64)>::empty()),
    {
        let r = self.append_block_at(addr, Vec::new());
        proof {
            if r is Ok {
                assert(self.block(old(self).mems@.len() as int) =~= Seq::<(usize, i64)>::empty());
            }
        }
        r
    }

    /// Stores the view's cells as a new block bound at `addr`. The view must
    /// belong to this space.
    pub fn write_fractal(&mut self, addr: i64, fractal: &FractalMemory) -> (r: VMResult<()>)
        requires
            old(self).wf(),
        ensures
            final(self).wf(),
            !fractal.belongs_to(old(self)) ==> r == Err::<(), VMError>(VMError::MemoryNotOwned) && *final(self) == *old(self),
            fractal.belongs_to(old(self)) ==> {
                &&& r is Ok <==> bindable(addr) && old(self).mems@.len() < usize::MAX
                &&& r is Err ==> r == Err::<(), VMError>(VMError::IllegalAccess) && *final(self) == *old(self)
                &&& r is Ok ==> Self::fractal_written(*old(self), *final(self), addr, fractal.block@)
            },
    {
        if !fractal.belongs(self) {
            return Err(VMError::MemoryNotOwned);
        }
        let cells = copy_cells(&fractal.block, 0);
        assert(cells@ =~= fractal.block@);
        self.append_block_at(addr, cells)
    }

    /// Sets the raw value of cell `idx` of the view, then stores the view
    /// back at the address it was read from.
    pub fn write_fixed_in_fractal(&mut self, fractal: &mut FractalMemory, idx: usize, val: i64) -> (r: VMResult<()>)
        requires
            old(self).wf(),
            idx < old(fractal).block@.len(),
        ensures
            final(self).wf(),
            final(fractal).block@ == old(fractal).block@.update(idx as int, (old(fractal).block@[idx as int].0, val)),
            final(fractal).hm_addr == old(fractal).hm_addr,
            final(fractal).hm_id == old(fractal).hm_id,
            match old(fractal).hm_addr {
                Some(addr) if old(fractal).belongs_to(old(self)) => {
                    &&& r is Ok <==> bindable(addr) && old(self).mems@.len() < usize::MAX
                    &&& r is Err ==> r == Err::<(), VMError>(VMError::IllegalAccess) && *final(self) == *old(self)
                    &&& r is Ok ==> Self::fractal_written(*old(self), *final(self), addr, final(fractal).block@)
                },
                _ => r == Err::<(), VMError>(VMError::MemoryNotOwned) && *final(self) == *old(self),
            },
    {
        let (t, _) = fractal.block[idx];
        fractal.block.set(idx, (t, val));
        match fractal.hm_addr {
            Some(addr) => {
                if fractal.belongs(self) {
                    self.write_fractal(addr, fractal)
                } else {
                    Err(VMError::MemoryNotOwned)
                }
            },
            None => Err(VMError::MemoryNotOwned),
        }
    }

    /// What cell `idx` of `fractal` reads as in this space: the raw cell
    /// itself, the one cell it points at, or the block it points at (then
    /// with `true`).
    pub open spec fn from_fractal_at(&self, fractal: FractalMemory, idx: int) -> VMResult<(Seq<(usize, i64)>, u64, bool)> {
        let (a, b) = fractal.block@[idx];
        let o = self.owner(a, b as usize);
        if a == SENTINEL {
            Ok((seq![(a, b)], 0u64, false))
        } else if !((a as int) < o.mems@.len()) {
            Err(VMError::IllegalAccess)
        } else if b as usize == SENTINEL {
            Ok((o.block(a as int), o.id, true))
        } else if ((b as usize) as int) < o.block(a as int).len() {
            Ok((seq![o.block(a as int)[(b as usize) as int]], o.id, false))
        } else {
            Err(VMError::IllegalAccess)
        }
    }

    /// Follows cell `idx` of a view: gives the value it stands for as a new
    /// view without an address, and whether that is a whole block.
    pub fn read_from_fractal(&self, fractal: &FractalMemory, idx: usize) -> (r: VMResult<(FractalMemory, bool)>)
        requires
            self.wf(),
            idx < fractal.block@.len(),
        ensures
            match self.from_fractal_at(*fractal, idx as int) {
                Ok((cells, id, is_fractal)) => r matches Ok((f, fr)) && f.block@ == cells && f.hm_id == id
                    && f.hm_addr is None && fr == is_fractal,
                Err(e) => r == Err::<(FractalMemory, bool), VMError>(e),
            },
    {
        let (a, b) = fractal.block[idx];
        let mut one: Vec<(usize, i64)> = Vec::new();
        if a == SENTINEL {
            one.push((a, b));
            return Ok((FractalMemory::new(one), false));
        }
        let bu = b as usize;
        let hm = self.owner_of(a, bu);
        if a >= hm.mems.len() {
            return Err(VMError::IllegalAccess);
        }
        let (block, is_fractal) = if bu == SENTINEL {
            (copy_cells(&hm.mems[a], 0), true)
        } else if bu < hm.mems[a].len() {
            one.push(hm.mems[a][bu]);
            (one, false)
        } else {
            return Err(VMError::IllegalAccess);
        };
        Ok((FractalMemory { hm_addr: None, block, hm_id: hm.id }, is_fractal))
    }
}

} // verus!
