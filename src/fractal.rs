use vstd::prelude::*;

use crate::error::{VMError, VMResult};
use crate::memory::{HandlerMemory, SENTINEL};

verus! {

/// A detached copy of one block's cells, tagged with the identity of the
/// space it was read from (0 for views that belong anywhere, such as
/// literal strings) and, optionally, the address it was read at.
#[derive(Debug, Clone)]
pub struct FractalMemory {
    /// The address the view was read at, if any.
    pub hm_addr: Option<i64>,
    /// The cells.
    pub block: Vec<(usize, i64)>,
    /// The identity of the owning space; 0 for none.
    pub hm_id: u64,
}

impl FractalMemory {
    /// A view of `block` that belongs to every space and has no address.
    pub fn new(block: Vec<(usize, i64)>) -> (r: FractalMemory)
        ensures
            r.hm_addr is None,
            r.block@ == block@,
            r.hm_id == 0,
    {
        FractalMemory { hm_addr: None, block, hm_id: 0 }
    }

    /// Whether this view may be written back into `hm`.
    pub open spec fn belongs_to(&self, hm: &HandlerMemory) -> bool {
        self.hm_id == 0 || self.hm_id == hm.id
    }

    /// Whether this view was read from `hm`, or belongs to every space.
    pub fn belongs(&self, hm: &HandlerMemory) -> (r: bool)
        ensures
            r == self.belongs_to(hm),
    {
        self.hm_id == 0 || self.hm_id == hm.id
    }

    /// The number of cells.
    pub fn len(&self) -> (r: usize)
        ensures
            r == self.block@.len(),
    {
        self.block.len()
    }

    /// Whether the cells at `idx` of the two views are equal.
    pub fn compare_at(&self, idx: usize, other: &FractalMemory) -> (r: bool)
        requires
            idx < self.block@.len(),
            idx < other.block@.len(),
        ensures
            r == (self.block@[idx as int] == other.block@[idx as int]),
    {
        let (a, b) = self.block[idx];
        let (c, d) = other.block[idx];
        a == c && b == d
    }

    /// The raw value at `idx`; `IllegalAccess` where that cell is a pointer.
    pub fn read_fixed(&self, idx: usize) -> (r: VMResult<i64>)
        requires
            idx < self.block@.len(),
        ensures
            r == if self.block@[idx as int].0 == SENTINEL {
                Ok::<i64, VMError>(self.block@[idx as int].1)
            } else {
                Err(VMError::IllegalAccess)
            },
    {
        if self.block[idx].0 != SENTINEL {
            Err(VMError::IllegalAccess)
        } else {
            Ok(self.block[idx].1)
        }
    }
}

impl PartialEq for FractalMemory {
    /// Views are equal when their cells are; where they were read from does
    /// not count.
    fn eq(&self, other: &FractalMemory) -> (r: bool)
        ensures
            r == (self.block@ == other.block@),
    {
        if self.block.len() != other.block.len() {
            return false;
        }
        let mut i: usize = 0;
        while i < self.block.len()
            invariant
                self.block@.len() == other.block@.len(),
                i <= self.block@.len(),
                forall|q: int| 0 <= q < i ==> self.block@[q] == other.block@[q],
            decreases self.block@.len() - i,
        {
            let (a, b) = self.block[i];
            let (c, d) = other.block[i];
            if a != c || b != d {
                return false;
            }
            i = i + 1;
        }
        assert(self.block@ =~= other.block@);
        true
    }
}

impl vstd::std_specs::cmp::PartialEqSpecImpl for FractalMemory {
    open spec fn obeys_eq_spec() -> bool {
        true
    }

    open spec fn eq_spec(&self, other: &FractalMemory) -> bool {
        self.block@ == other.block@
    }
}

/// Copies the cells of `b` from `start` on.
pub(crate) fn copy_cells(b: &Vec<(usize, i64)>, start: usize) -> (r: Vec<(usize, i64)>)
    requires
        start <= b@.len(),
    ensures
        r@ == b@.subrange(start as int, b@.len() as int),
{
    let mut r: Vec<(usize, i64)> = Vec::new();
    let mut i: usize = start;
    while i < b.len()
        invariant
            start <= i <= b@.len(),
            r@ == b@.subrange(start as int, i as int),
        decreases b@.len() - i,
    {
        r.push(b[i]);
        i = i + 1;
    }
    r
}

} // verus!
