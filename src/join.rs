//! Merging a forked child back into its parent.
use vstd::prelude::*;

use crate::address::{addr_space, AddrSpace, CLOSURE_ARG_MEM_START};
use crate::error::{VMError, VMResult};
use crate::fractal::copy_cells;
use crate::memory::{AddrTable, HandlerMemory, Idxs, SENTINEL};

verus! {

/// Where block index `a` of a child forked at boundary `s` lands in the
/// parent: blocks from the boundary on move up by `offset`.
pub open spec fn adjusted(a: usize, s: usize, offset: usize) -> usize {
    if a != SENTINEL && a >= s && a + offset <= usize::MAX {
        (a + offset) as usize
    } else {
        a
    }
}

/// A child block's cells as they read once moved into the parent.
pub open spec fn relocated(cells: Seq<(usize, i64)>, s: usize, offset: usize) -> Seq<(usize, i64)> {
    cells.map_values(|c: (usize, i64)| (adjusted(c.0, s, offset), c.1))
}

/// Slot `i` of table `t`, empty past its end.
pub open spec fn slot(t: Seq<Option<Idxs>>, i: int) -> Option<Idxs> {
    if 0 <= i < t.len() {
        t[i]
    } else {
        None
    }
}

/// The parent entry `p` and the child entry `c` disagree, and the parent's
/// location was itself made after the fork: two writers to one address.
pub open spec fn entries_conflict(p: Option<Idxs>, c: Option<Idxs>, s: usize, offset: usize) -> bool {
    match (p, c) {
        (Some((pa, pb)), Some((ca, cb))) => (pa, pb) != (adjusted(ca, s, offset), cb) && pa != SENTINEL && pa >= s,
        _ => false,
    }
}

/// The merged entry: the child's, adjusted, where it has one.
pub open spec fn merged_entry(p: Option<Idxs>, c: Option<Idxs>, s: usize, offset: usize) -> Option<Idxs> {
    match c {
        Some((ca, cb)) => Some((adjusted(ca, s, offset), cb)),
        None => p,
    }
}

impl HandlerMemory {
    /// The fork boundary of `child` against `parent`, and how far its new
    /// blocks move; `None` where the child cannot come from this parent or
    /// the merged space would not fit.
    pub open spec fn join_shift(parent: HandlerMemory, child: HandlerMemory) -> Option<(usize, usize)> {
        let s = child.mem_addr;
        let s2 = parent.mems@.len();
        if s > s2 || s2 + (child.mems@.len() - s) > usize::MAX {
            None
        } else {
            Some((s, (s2 - s) as usize))
        }
    }

    /// Some normal address is bound differently by parent and child, where
    /// the parent's binding is newer than the fork.
    pub open spec fn join_conflicts(parent: HandlerMemory, child: HandlerMemory, s: usize, offset: usize) -> bool {
        exists|i: int| 0 <= i < child.addr.0@.len() && entries_conflict(
            #[trigger] slot(parent.addr.0@, i), child.addr.0@[i], s, offset)
    }

    /// `new` is `parent` with `child` merged in at boundary `s`, its new
    /// blocks moved up by `offset`.
    pub open spec fn joined(parent: HandlerMemory, child: HandlerMemory, new: HandlerMemory, s: usize, offset: usize) -> bool {
        let s2 = parent.mems@.len() as int;
        let escape = child.local_idxs(CLOSURE_ARG_MEM_START);
        &&& new.mems@.len() == s2 + child.mems@.len() - s
        &&& new.parent == parent.parent
        &&& new.mem_addr == parent.mem_addr
        &&& new.id == parent.id
        &&& new.block(0) == parent.block(0)
        &&& forall|i: int| 1 <= i < s ==> #[trigger] new.block(i) == if child.block(i).len() > 0 {
            child.block(i)
        } else {
            parent.block(i)
        }
        &&& forall|i: int| s <= i < s2 ==> #[trigger] new.block(i) == parent.block(i)
        &&& forall|i: int| s2 <= i < new.mems@.len() ==> #[trigger] new.block(i) == relocated(child.block(i - offset), s, offset)
        &&& new.addr.0@.len() == if parent.addr.0@.len() >= child.addr.0@.len() { parent.addr.0@.len() } else { child.addr.0@.len() }
        &&& forall|i: int| 0 <= i < new.addr.0@.len() ==> #[trigger] new.addr.0@[i] == merged_entry(
            slot(parent.addr.0@, i), slot(child.addr.0@, i), s, offset)
        &&& forall|x: i64| addr_space(x) == AddrSpace::ClosureArg ==> #[trigger] new.local_idxs(x) == match escape {
            Some((ea, eb)) if x == CLOSURE_ARG_MEM_START => Some((adjusted(ea, s, offset), eb)),
            _ => parent.local_idxs(x),
        }
    }

    /// Merges a forked child back: its copy-on-write blocks replace the
    /// parent's, its new blocks are appended and their pointers moved, its
    /// normal bindings and its escaping closure-argument binding are taken
    /// over. Fails with `MergeConflict`, changing nothing, where the child
    /// rebinds an address that the parent rebound after the fork.
    pub fn join(&mut self, hm: HandlerMemory) -> (r: VMResult<()>)
        requires
            old(self).wf(),
            hm.wf(),
        ensures
            final(self).wf(),
            match Self::join_shift(*old(self), hm) {
                None => r == Err::<(), VMError>(VMError::IllegalAccess) && *final(self) == *old(self),
                Some((s, offset)) => if Self::join_conflicts(*old(self), hm, s, offset) {
                    r == Err::<(), VMError>(VMError::MergeConflict) && *final(self) == *old(self)
                } else {
                    r is Ok && Self::joined(*old(self), hm, *final(self), s, offset)
                },
            },
    {
        let s = hm.mem_addr;
        let s2 = self.mems.len();
        if s > s2 {
            return Err(VMError::IllegalAccess);
        }
        let offset = s2 - s;
        let extra = hm.mems.len() - s;
        if s2 > usize::MAX - extra {
            return Err(VMError::IllegalAccess);
        }
        if has_conflict(&self.addr.0, &hm.addr.0, s, offset) {
            return Err(VMError::MergeConflict);
        }
        let ghost old_self = *self;
        match hm.addr_to_idxs_opt(CLOSURE_ARG_MEM_START) {
            Some((a, b)) => {
                let ghost t0 = self.addr.1@;
                crate::memory::table_put(&mut self.addr.1, 0, (adjust(a, s, offset), b));
                assert forall|x: i64| addr_space(x) == AddrSpace::ClosureArg && x != CLOSURE_ARG_MEM_START
                    implies #[trigger] self.local_idxs(x) == old_self.local_idxs(x) by {
                    assert(crate::address::closure_slot(x) != 0);
                }
            },
            None => {},
        }
        let ghost after_escape = *self;
        let mut i: usize = 1;
        while i < s
            invariant
                1 <= i <= s,
                s <= s2,
                s2 == self.mems@.len(),
                hm.wf(),
                s == hm.mem_addr,
                self.parent == old_self.parent,
                self.addr == after_escape.addr,
                self.mem_addr == old_self.mem_addr,
                self.id == old_self.id,
                self.block(0) == old_self.block(0),
                forall|q: int| 1 <= q < i ==> #[trigger] self.block(q) == if hm.block(q).len() > 0 {
                    hm.block(q)
                } else {
                    old_self.block(q)
                },
                forall|q: int| i <= q < s2 ==> #[trigger] self.block(q) == old_self.block(q),
            decreases s - i,
        {
            if hm.mems[i].len() > 0 {
                let ghost prev = *self;
                let copy = copy_cells(&hm.mems[i], 0);
                self.mems.set(i, copy);
                assert(self.block(i as int) =~= hm.block(i as int));
                assert forall|q: int| 0 <= q < s2 && q != i implies #[trigger] self.block(q) == prev.block(q) by {}
            }
            i = i + 1;
        }
        let mut k: usize = s;
        while k < hm.mems.len()
            invariant
                s <= k <= hm.mems@.len(),
                1 <= s <= s2,
                offset == s2 - s,
                s2 + (hm.mems@.len() - s) <= usize::MAX,
                self.mems@.len() == s2 + (k - s),
                self.parent == old_self.parent,
                self.addr == after_escape.addr,
                self.mem_addr == old_self.mem_addr,
                self.id == old_self.id,
                self.block(0) == old_self.block(0),
                forall|q: int| 1 <= q < s ==> #[trigger] self.block(q) == if hm.block(q).len() > 0 {
                    hm.block(q)
                } else {
                    old_self.block(q)
                },
                forall|q: int| s <= q < s2 ==> #[trigger] self.block(q) == old_self.block(q),
                forall|q: int| s2 <= q < self.mems@.len() ==> #[trigger] self.block(q) == relocated(hm.block(q - offset), s, offset),
            decreases hm.mems@.len() - k,
        {
            let ghost prev = *self;
            let moved = relocate_block(&hm.mems[k], s, offset);
            self.mems.push(moved);
            assert forall|q: int| 0 <= q < prev.mems@.len() implies #[trigger] self.block(q) == prev.block(q) by {
                assert(self.mems@[q] == prev.mems@[q]);
            }
            assert(self.block(s2 + (k - s)) == relocated(hm.block(k as int), s, offset));
            assert(self.block(0) == prev.block(0));
            k = k + 1;
        }
        let ghost before_merge = *self;
        merge_table(&mut self.addr.0, &hm.addr.0, s, offset);
        assert(self.mems == before_merge.mems);
        proof {
            assert forall|x: i64| addr_space(x) == AddrSpace::ClosureArg implies #[trigger] self.local_idxs(x)
                == after_escape.local_idxs(x) by {}
            let escape = hm.local_idxs(CLOSURE_ARG_MEM_START);
            assert forall|x: i64| addr_space(x) == AddrSpace::ClosureArg implies #[trigger] self.local_idxs(x) == match escape {
                Some((ea, eb)) if x == CLOSURE_ARG_MEM_START => Some((adjusted(ea, s, offset), eb)),
                _ => old_self.local_idxs(x),
            } by {
                assert(self.local_idxs(x) == after_escape.local_idxs(x));
            }
            let s2i = s2 as int;
            assert(self.mems@.len() == s2i + hm.mems@.len() - s);
            assert(self.block(0) == old_self.block(0));
            assert forall|i: int| s2i <= i < self.mems@.len() implies #[trigger] self.block(i) == relocated(hm.block(i - offset), s, offset) by {
                assert(before_merge.block(i) == relocated(hm.block(i - offset), s, offset));
            }
            assert(self.addr.0@.len() == if old_self.addr.0@.len() >= hm.addr.0@.len() { old_self.addr.0@.len() } else { hm.addr.0@.len() });
            assert(forall|i: int| 0 <= i < self.addr.0@.len() ==> #[trigger] self.addr.0@[i] == merged_entry(
                slot(old_self.addr.0@, i), slot(hm.addr.0@, i), s, offset));
            assert forall|i: int| 1 <= i < s implies #[trigger] self.block(i) == if hm.block(i).len() > 0 {
                hm.block(i)
            } else {
                old_self.block(i)
            } by {
                assert(before_merge.block(i) == self.block(i));
            }
            assert forall|i: int| s <= i < s2i implies #[trigger] self.block(i) == old_self.block(i) by {
                assert(before_merge.block(i) == self.block(i));
            }
            assert(Self::joined(old_self, hm, *self, s, offset));
            assert(!Self::join_conflicts(old_self, hm, s, offset));
            assert(Self::join_shift(old_self, hm) == Some((s, offset)));
        }
        Ok(())
    }
}

/// `adjusted`, computed.
fn adjust(a: usize, s: usize, offset: usize) -> (r: usize)
    ensures
        r == adjusted(a, s, offset),
{
    if a != SENTINEL && a >= s && a <= usize::MAX - offset {
        a + offset
    } else {
        a
    }
}

/// A copy of `cells` with pointers at or past `s` moved up by `offset`.
fn relocate_block(cells: &Vec<(usize, i64)>, s: usize, offset: usize) -> (r: Vec<(usize, i64)>)
    ensures
        r@ == relocated(cells@, s, offset),
{
    let mut r: Vec<(usize, i64)> = Vec::new();
    let mut j: usize = 0;
    while j < cells.len()
        invariant
            j <= cells@.len(),
            r@ == relocated(cells@.subrange(0, j as int), s, offset),
        decreases cells@.len() - j,
    {
        let (a, b) = cells[j];
        r.push((adjust(a, s, offset), b));
        j = j + 1;
        assert(relocated(cells@.subrange(0, j as int), s, offset) =~= r@);
    }
    assert(cells@.subrange(0, j as int) =~= cells@);
    r
}

/// Whether some entry of child table `c` conflicts with parent table `t`.
fn has_conflict(t: &AddrTable, c: &AddrTable, s: usize, offset: usize) -> (r: bool)
    ensures
        r == exists|i: int| 0 <= i < c@.len() && entries_conflict(#[trigger] slot(t@, i), c@[i], s, offset),
{
    let mut i: usize = 0;
    while i < c.len()
        invariant
            i <= c@.len(),
            forall|q: int| 0 <= q < i ==> !entries_conflict(#[trigger] slot(t@, q), c@[q], s, offset),
        decreases c@.len() - i,
    {
        let p = if i < t.len() { t[i] } else { None };
        match (p, c[i]) {
            (Some((pa, pb)), Some((ca, cb))) => {
                let na = adjust(ca, s, offset);
                if (pa != na || pb != cb) && pa != SENTINEL && pa >= s {
                    assert(entries_conflict(slot(t@, i as int), c@[i as int], s, offset));
                    return true;
                }
            },
            _ => {},
        }
        i = i + 1;
    }
    false
}

/// Takes the entries of child table `c` into `t`, adjusted.
fn merge_table(t: &mut AddrTable, c: &AddrTable, s: usize, offset: usize)
    ensures
        final(t)@.len() == if old(t)@.len() >= c@.len() { old(t)@.len() } else { c@.len() },
        forall|i: int| 0 <= i < final(t)@.len() ==> #[trigger] final(t)@[i] == merged_entry(slot(old(t)@, i), slot(c@, i), s, offset),
{
    let ghost t0 = t@;
    while t.len() < c.len()
        invariant
            t0.len() <= t@.len(),
            t@.len() > t0.len() ==> t@.len() <= c@.len(),
            forall|q: int| 0 <= q < t@.len() ==> #[trigger] t@[q] == slot(t0, q),
        decreases c@.len() - t@.len(),
    {
        t.push(None);
    }
    let mut i: usize = 0;
    while i < c.len()
        invariant
            i <= c@.len() <= t@.len(),
            t@.len() == if t0.len() >= c@.len() { t0.len() } else { c@.len() },
            forall|q: int| 0 <= q < i ==> #[trigger] t@[q] == merged_entry(slot(t0, q), slot(c@, q), s, offset),
            forall|q: int| i <= q < t@.len() ==> #[trigger] t@[q] == slot(t0, q),
        decreases c@.len() - i,
    {
        match c[i] {
            Some((ca, cb)) => {
                t.set(i, Some((adjust(ca, s, offset), cb)));
            },
            None => {},
        }
        i = i + 1;
    }
}

} // verus!
