//! Pointer aliases between addresses, blocks and views, made without
//! copying the data they name.
use vstd::prelude::*;
use vstd::utf8::encode_utf8;

use crate::address::{addr_space, addr_type, AddrSpace};
use crate::error::{VMError, VMResult};
use crate::fractal::{copy_cells, FractalMemory};
use crate::memory::{bindable, HandlerMemory, SENTINEL};
use crate::pascal::{pascal_cells, pascal_decode};

verus! {

impl HandlerMemory {
    /// The outcome of binding `addr` to `(a, b)`.
    pub open spec fn bind_outcome(old: HandlerMemory, new: HandlerMemory, r: VMResult<()>, addr: i64, a: usize, b: usize) -> bool {
        &&& r is Ok <==> bindable(addr)
        &&& r is Err ==> r == Err::<(), VMError>(VMError::IllegalAccess) && new == old
        &&& r is Ok ==> Self::addr_set(old, new, addr, a, b)
    }

    /// The outcome of storing `cells` as a new block bound at `addr`.
    pub open spec fn store_outcome(old: HandlerMemory, new: HandlerMemory, r: VMResult<()>, addr: i64, cells: Seq<(usize, i64)>) -> bool {
        &&& r is Ok <==> bindable(addr) && old.mems@.len() < usize::MAX
        &&& r is Err ==> r == Err::<(), VMError>(VMError::IllegalAccess) && new == old
        &&& r is Ok ==> Self::fractal_written(old, new, addr, cells)
    }

    /// Makes `addr` an alias of `orig_addr`. A global string aliased into a
    /// variable is copied into a block of its own instead.
    pub fn register(&mut self, addr: i64, orig_addr: i64, is_variable: bool) -> (r: VMResult<()>)
        requires
            old(self).wf(),
        ensures
            final(self).wf(),
            match old(self).resolve(orig_addr) {
                None => r == Err::<(), VMError>(VMError::OrphanMemory) && *final(self) == *old(self),
                Some((p, _)) => if addr_space(orig_addr) == AddrSpace::Global && is_variable {
                    let g = old(self).block(0);
                    if (p.1 as int) > g.len() {
                        r == Err::<(), VMError>(VMError::IllegalAccess) && *final(self) == *old(self)
                    } else {
                        match pascal_decode(g.subrange(p.1 as int, g.len() as int)) {
                            Ok(chars) => Self::store_outcome(*old(self), *final(self), r, addr, pascal_cells(encode_utf8(chars))),
                            Err(e) => r == Err::<(), VMError>(e) && *final(self) == *old(self),
                        }
                    }
                } else {
                    Self::bind_outcome(*old(self), *final(self), r, addr, p.0, p.1)
                },
            },
    {
        let ((a, b), _) = self.addr_to_idxs(orig_addr)?;
        if addr_type(orig_addr) == AddrSpace::Global && is_variable {
            if b > self.mems[0].len() {
                return Err(VMError::IllegalAccess);
            }
            let string = HandlerMemory::fractal_to_string(FractalMemory::new(copy_cells(&self.mems[0], b)))?;
            let f = HandlerMemory::str_to_fractal(string.as_str());
            self.write_fractal(addr, &f)
        } else {
            self.set_addr(addr, a, b)
        }
    }

    /// Appends to the block at `addr` a pointer to what `orig_addr` names;
    /// a global value is first copied into a block of its own.
    pub fn push_register(&mut self, addr: i64, orig_addr: i64) -> (r: VMResult<()>)
        requires
            old(self).wf(),
        ensures
            final(self).wf(),
            match old(self).resolve(orig_addr) {
                None => r == Err::<(), VMError>(VMError::OrphanMemory) && *final(self) == *old(self),
                Some((p, _)) => {
                    let g = old(self).block(0);
                    let n = old(self).mems@.len();
                    if p.0 == 0 && ((p.1 as int) > g.len() || n == usize::MAX) {
                        r == Err::<(), VMError>(VMError::IllegalAccess) && *final(self) == *old(self)
                    } else {
                        match old(self).block_target(addr) {
                            Err(e) => r == Err::<(), VMError>(e) && *final(self) == *old(self),
                            Ok((t, cells)) => r is Ok && if p.0 == 0 {
                                &&& final(self).mems@.len() == n + 1
                                &&& final(self).block(t as int) == cells.push((n as usize, -1i64))
                                &&& final(self).block(n as int) == g.subrange(p.1 as int, g.len() as int)
                                &&& forall|i: int| 0 <= i < n && i != t ==> #[trigger] final(self).block(i) == old(self).block(i)
                                &&& final(self).addr == old(self).addr
                                &&& final(self).parent == old(self).parent
                                &&& final(self).mem_addr == old(self).mem_addr
                            } else {
                                Self::block_replaced(*old(self), *final(self), t, cells.push((p.0, p.1 as i64)))
                            },
                        }
                    }
                },
            },
    {
        let ((a, b), _) = self.addr_to_idxs(orig_addr)?;
        if a == 0 {
            let n = self.mems.len();
            if b > self.mems[0].len() || n == usize::MAX {
                return Err(VMError::IllegalAccess);
            }
            let strmem = copy_cells(&self.mems[0], b);
            let ghost g = self.block(0);
            let t = self.own_block(addr)?;
            let ghost mid = *self;
            self.mems.push(strmem);
            let ghost mid2 = *self;
            self.push_cell(t, (n, -1));
            assert forall|i: int| 0 <= i < n && i != t implies #[trigger] self.block(i) == old(self).block(i) by {
                assert(mid.block(i) == old(self).block(i));
                assert(mid2.block(i) == mid.block(i));
            }
            assert(self.block(n as int) == mid2.block(n as int));
            Ok(())
        } else {
            let t = self.own_block(addr)?;
            let ghost mid = *self;
            self.push_cell(t, (a, b as i64));
            assert forall|i: int| 0 <= i < old(self).mems@.len() && i != t implies #[trigger] self.block(i) == old(self).block(i) by {
                assert(mid.block(i) == old(self).block(i));
            }
            Ok(())
        }
    }

    /// Points cell `offset_addr` of the block at `fractal_addr` at what
    /// `orig_addr` names.
    pub fn register_in(&mut self, orig_addr: i64, fractal_addr: i64, offset_addr: i64) -> (r: VMResult<()>)
        requires
            old(self).wf(),
        ensures
            final(self).wf(),
            match old(self).resolve(orig_addr) {
                None => r == Err::<(), VMError>(VMError::OrphanMemory) && *final(self) == *old(self),
                Some((p, _)) => match old(self).block_target(fractal_addr) {
                    Err(e) => r == Err::<(), VMError>(e) && *final(self) == *old(self),
                    Ok((t, cells)) => if 0 <= offset_addr < cells.len() {
                        r is Ok && Self::block_replaced(*old(self), *final(self), t, cells.update(offset_addr as int, (p.0, p.1 as i64)))
                    } else {
                        r == Err::<(), VMError>(VMError::IndexOutOfRange { idx: offset_addr as usize, len: cells.len() as usize })
                            && Self::block_replaced(*old(self), *final(self), t, cells)
                    },
                },
            },
    {
        let ((a, b), _) = self.addr_to_idxs(orig_addr)?;
        let t = self.own_block(fractal_addr)?;
        let len = self.mems[t].len();
        if offset_addr < 0 || (offset_addr as u64) >= (len as u64) {
            return Err(VMError::IndexOutOfRange { idx: offset_addr as usize, len });
        }
        let ghost mid = *self;
        self.mems[t].set(offset_addr as usize, (a, b as i64));
        assert forall|i: int| 0 <= i < old(self).mems@.len() && i != t implies #[trigger] self.block(i) == old(self).block(i) by {
            assert(mid.block(i) == old(self).block(i));
        }
        Ok(())
    }

    /// Binds `out_addr` to what cell `offset_addr` of the aggregate at
    /// `fractal_addr` names: its target where it is a pointer, else the
    /// cell itself.
    pub fn register_out(&mut self, fractal_addr: i64, offset_addr: usize, out_addr: i64) -> (r: VMResult<()>)
        requires
            old(self).wf(),
        ensures
            final(self).wf(),
            match old(self).fractal_at(fractal_addr) {
                Err(e) => r == Err::<(), VMError>(e) && *final(self) == *old(self),
                Ok((cells, _)) => if (offset_addr as int) < cells.len() {
                    let (a, b) = cells[offset_addr as int];
                    let arr = match old(self).resolve(fractal_addr) {
                        Some((q, _)) => q,
                        None => (0usize, 0usize),
                    };
                    if a != SENTINEL {
                        Self::bind_outcome(*old(self), *final(self), r, out_addr, a, b as usize)
                    } else {
                        Self::bind_outcome(*old(self), *final(self), r, out_addr, arr.0, offset_addr)
                    }
                } else {
                    r == Err::<(), VMError>(VMError::IndexOutOfRange { idx: offset_addr, len: cells.len() as usize })
                        && *final(self) == *old(self)
                },
            },
    {
        let fractal = self.read_fractal(fractal_addr)?;
        let ((arr_a, _), _) = self.addr_to_idxs(fractal_addr)?;
        if offset_addr >= fractal.block.len() {
            return Err(VMError::IndexOutOfRange { idx: offset_addr, len: fractal.block.len() });
        }
        let (a, b) = fractal.block[offset_addr];
        if a != SENTINEL {
            self.set_addr(out_addr, a, b as usize)
        } else {
            self.set_addr(out_addr, arr_a, offset_addr)
        }
    }

    /// Binds `out_addr` to what cell `idx` of a view names.
    pub fn register_from_fractal(&mut self, out_addr: i64, fractal: &FractalMemory, idx: usize) -> (r: VMResult<()>)
        ensures
            (idx as int) < fractal.block@.len() ==> Self::bind_outcome(*old(self), *final(self), r, out_addr,
                fractal.block@[idx as int].0, fractal.block@[idx as int].1 as usize),
            (idx as int) >= fractal.block@.len() ==> r == Err::<(), VMError>(VMError::IndexOutOfRange { idx, len: fractal.block@.len() as usize })
                && *final(self) == *old(self),
    {
        if idx >= fractal.block.len() {
            return Err(VMError::IndexOutOfRange { idx, len: fractal.block.len() });
        }
        let (a, b) = fractal.block[idx];
        self.set_addr(out_addr, a, b as usize)
    }

    /// Appends cell `offset_addr` of a view to the block at `out_addr`.
    pub fn push_register_out(&mut self, out_addr: i64, fractal: &FractalMemory, offset_addr: usize) -> (r: VMResult<()>)
        requires
            old(self).wf(),
        ensures
            final(self).wf(),
            (offset_addr as int) >= fractal.block@.len() ==> r == Err::<(), VMError>(VMError::IndexOutOfRange { idx: offset_addr, len: fractal.block@.len() as usize })
                && *final(self) == *old(self),
            (offset_addr as int) < fractal.block@.len() ==> match old(self).block_target(out_addr) {
                Err(e) => r == Err::<(), VMError>(e) && *final(self) == *old(self),
                Ok((t, cells)) => r is Ok && Self::block_replaced(*old(self), *final(self), t, cells.push(fractal.block@[offset_addr as int])),
            },
    {
        if offset_addr >= fractal.block.len() {
            return Err(VMError::IndexOutOfRange { idx: offset_addr, len: fractal.block.len() });
        }
        let t = self.own_block(out_addr)?;
        let ghost mid = *self;
        self.push_cell(t, fractal.block[offset_addr]);
        assert forall|i: int| 0 <= i < old(self).mems@.len() && i != t implies #[trigger] self.block(i) == old(self).block(i) by {
            assert(mid.block(i) == old(self).block(i));
        }
        Ok(())
    }
}

} // verus!
