//! Deep copies of values between memory spaces and within one.
use vstd::prelude::*;
use vstd::set_lib::{lemma_int_range, lemma_len_subset, set_int_range};
use vstd::utf8::encode_utf8;

use crate::error::{VMError, VMResult};
use crate::fractal::copy_cells;
use crate::memory::{bindable, HandlerMemory, SENTINEL};
use crate::pascal::{decode_cells, pascal_cells, pascal_decode};

verus! {

type Cell = (usize, i64);

/// `c` is `orig` with every pointer cell moved into blocks
/// `base .. base + n`: raw cells and pointer offsets are kept.
pub open spec fn relocated_from(c: Seq<Cell>, orig: Seq<Cell>, base: int, n: int) -> bool {
    &&& c.len() == orig.len()
    &&& forall|j: int| 0 <= j < orig.len() ==> {
        &&& (#[trigger] orig[j]).0 == SENTINEL ==> c[j] == orig[j]
        &&& orig[j].0 != SENTINEL ==> c[j].1 == orig[j].1 && base <= c[j].0 < base + n
    }
}

/// No cell of `cells` is a pointer.
pub open spec fn flat(cells: Seq<Cell>) -> bool {
    forall|j: int| 0 <= j < cells.len() ==> (#[trigger] cells[j]).0 == SENTINEL
}

/// Every pointer cell of every block of `h` names one of its blocks.
pub open spec fn pointers_in_range(h: HandlerMemory) -> bool {
    forall|i: int, j: int| 0 <= i < h.mems@.len() && 0 <= j < h.block(i).len() && (#[trigger] h.block(i)[j]).0 != SENTINEL
        ==> (h.block(i)[j].0 as int) < h.mems@.len()
}

/// Distinct block indices below `n` number at most `n`.
proof fn distinct_indices_bounded(s: Seq<usize>, n: int)
    requires
        0 <= n,
        s.no_duplicates(),
        forall|q: int| 0 <= q < s.len() ==> (#[trigger] s[q] as int) < n,
    ensures
        s.len() <= n,
{
    let t = s.map_values(|x: usize| x as int);
    assert(t.no_duplicates()) by {
        assert forall|i: int, j: int| 0 <= i < t.len() && 0 <= j < t.len() && i != j implies t[i] != t[j] by {
            assert(s[i] != s[j]);
        }
    }
    t.unique_seq_to_set();
    lemma_int_range(0, n);
    assert(t.to_set().subset_of(set_int_range(0, n))) by {
        assert forall|x: int| t.to_set().contains(x) implies set_int_range(0, n).contains(x) by {
            let q = choose|q: int| 0 <= q < t.len() && t[q] == x;
            assert(s[q] as int == x);
        }
    }
    lemma_len_subset(t.to_set(), set_int_range(0, n));
}

/// Every pointer cell of every block in `blocks` points into
/// `base .. base + blocks.len()`.
pub open spec fn self_contained(blocks: Seq<Seq<Cell>>, base: int) -> bool {
    forall|i: int, j: int| 0 <= i < blocks.len() && 0 <= j < blocks[i].len() && (#[trigger] blocks[i][j]).0 != SENTINEL
        ==> base <= blocks[i][j].0 < base + blocks.len()
}

impl HandlerMemory {
    /// `new` is `old` with a copy of an aggregate appended: its root block,
    /// a relocated copy of `root`, comes first and is bound at `addr`, and
    /// pointers in the appended blocks reach only the appended blocks.
    pub open spec fn structure_copied(old: HandlerMemory, new: HandlerMemory, addr: i64, root: Seq<Cell>) -> bool {
        let base = old.mems@.len() as int;
        let n = new.mems@.len() - base;
        &&& n >= 1
        &&& new.parent == old.parent
        &&& new.mem_addr == old.mem_addr
        &&& new.id == old.id
        &&& forall|i: int| 0 <= i < base ==> #[trigger] new.block(i) == old.block(i)
        &&& relocated_from(new.block(base), root, base, n)
        &&& self_contained(Seq::new(n as nat, |i: int| new.block(base + i)), base)
        &&& forall|x: i64| #[trigger]
            new.local_idxs(x) == if x == addr {
                Some((base as usize, SENTINEL))
            } else {
                old.local_idxs(x)
            }
    }

    /// The outcome of `write_fixed(addr, v)` on `old`.
    pub open spec fn fixed_outcome(old: HandlerMemory, new: HandlerMemory, r: VMResult<()>, addr: i64, v: i64) -> bool {
        &&& r is Ok <==> bindable(addr)
        &&& r is Err ==> r == Err::<(), VMError>(VMError::IllegalAccess) && new == old
        &&& r is Ok ==> Self::fixed_written(old, new, addr, v)
    }

    /// What a copy of the global value at offset `b` becomes: a string
    /// where the cells from `b` on decode as one of non-zero length.
    pub open spec fn global_string(cells: Seq<Cell>) -> Option<Seq<char>> {
        if cells[0].1 == 0 {
            None
        } else {
            match pascal_decode(cells) {
                Ok(chars) => Some(chars),
                Err(_) => None,
            }
        }
    }

    /// Copies the value at `orig_addr` of `origin` to `dest_addr` of `dest`.
    pub fn transfer(origin: &HandlerMemory, orig_addr: i64, dest: &mut HandlerMemory, dest_addr: i64) -> (r: VMResult<()>)
        requires
            origin.wf(),
            old(dest).wf(),
        ensures
            final(dest).wf(),
            r is Err ==> *final(dest) == *old(dest),
            match origin.resolve(orig_addr) {
                None => r == Err::<(), VMError>(VMError::OrphanMemory),
                Some((p, o)) => Self::transfer_outcome(o, p.0, p.1, *old(dest), *final(dest), dest_addr, r),
            },
    {
        let ((a, b), orig) = origin.addr_to_idxs(orig_addr)?;
        HandlerMemory::transfer_idxs(orig, a, b, dest, dest_addr)
    }

    /// The outcome of copying location `(a, b)` of `orig` to `addr`.
    pub open spec fn transfer_outcome(orig: HandlerMemory, a: usize, b: usize, old: HandlerMemory, new: HandlerMemory, addr: i64, r: VMResult<()>) -> bool {
        if a == 0 {
            if (b as int) < orig.block(0).len() {
                let cells = orig.block(0).subrange(b as int, orig.block(0).len() as int);
                match Self::global_string(cells) {
                    Some(chars) => {
                        &&& r is Ok <==> bindable(addr) && old.mems@.len() < usize::MAX
                        &&& r is Ok ==> Self::fractal_written(old, new, addr, pascal_cells(encode_utf8(chars)))
                    },
                    None => Self::fixed_outcome(old, new, r, addr, cells[0].1),
                }
            } else {
                r == Err::<(), VMError>(VMError::IllegalAccess)
            }
        } else if a == SENTINEL {
            Self::fixed_outcome(old, new, r, addr, b as i64)
        } else if !((a as int) < orig.mems@.len()) {
            r == Err::<(), VMError>(VMError::IllegalAccess)
        } else if b != SENTINEL {
            if (b as int) < orig.block(a as int).len() {
                Self::fixed_outcome(old, new, r, addr, orig.block(a as int)[b as int].1)
            } else {
                r == Err::<(), VMError>(VMError::IllegalAccess)
            }
        } else {
            &&& r is Ok ==> Self::structure_copied(old, new, addr, orig.block(a as int))
            &&& flat(orig.block(a as int)) && bindable(addr) && old.mems@.len() < usize::MAX ==> r is Ok
            &&& pointers_in_range(orig) && bindable(addr) && old.mems@.len() + orig.mems@.len() <= usize::MAX ==> r is Ok
        }
    }

    /// Copies location `(a, b)` of `orig` to `dest_addr` of `dest`: a raw
    /// value or the value pointed at as a fixed value, a global string as a
    /// new string, and an aggregate with everything it reaches.
    pub fn transfer_idxs(orig: &HandlerMemory, a: usize, b: usize, dest: &mut HandlerMemory, dest_addr: i64) -> (r: VMResult<()>)
        requires
            orig.wf(),
            old(dest).wf(),
        ensures
            final(dest).wf(),
            r is Err ==> *final(dest) == *old(dest),
            Self::transfer_outcome(*orig, a, b, *old(dest), *final(dest), dest_addr, r),
    {
        if a == 0 {
            if b >= orig.mems[0].len() {
                return Err(VMError::IllegalAccess);
            }
            let first = orig.mems[0][b].1;
            if first == 0 {
                return dest.write_fixed(dest_addr, first);
            }
            let cells = copy_cells(&orig.mems[0], b);
            return match decode_cells(&cells) {
                Some(Ok(t)) => {
                    let f = HandlerMemory::str_to_fractal(t.as_str());
                    dest.write_fractal(dest_addr, &f)
                },
                _ => dest.write_fixed(dest_addr, first),
            };
        }
        if a == SENTINEL {
            dest.write_fixed(dest_addr, b as i64)
        } else if a >= orig.mems.len() {
            Err(VMError::IllegalAccess)
        } else if b != SENTINEL {
            if b < orig.mems[a].len() {
                dest.write_fixed(dest_addr, orig.mems[a][b].1)
            } else {
                Err(VMError::IllegalAccess)
            }
        } else {
            let base = dest.mems.len();
            let root_cells = copy_cells(&orig.mems[a], 0);
            assert(root_cells@ =~= orig.block(a as int));
            let copies = copy_structure(orig, a, root_cells, base)?;
            let ghost cs = Seq::new(copies@.len(), |i: int| copies@[i]@);
            let r = dest.append_structure(copies, dest_addr);
            proof {
                if r is Ok {
                    let n = copies@.len() as int;
                    assert(dest.block(base + 0) == copies@[0]@);
                    assert forall|i: int| 0 <= i < n implies #[trigger] cs[i] == dest.block(base + i) by {
                        assert(dest.block(base + i) == copies@[i]@);
                    }
                    assert(Seq::new(n as nat, |i: int| dest.block(base + i)) =~= cs);
                }
            }
            r
        }
    }

    /// The outcome of duplicating location `(a, b)`, backed by `orig`, to
    /// `addr` within one space.
    pub open spec fn dupe_outcome(orig: HandlerMemory, a: usize, b: usize, old: HandlerMemory, new: HandlerMemory, addr: i64, r: VMResult<()>) -> bool {
        if a == SENTINEL {
            Self::fixed_outcome(old, new, r, addr, b as i64)
        } else if !((a as int) < orig.mems@.len()) {
            r == Err::<(), VMError>(VMError::IllegalAccess)
        } else if b != SENTINEL {
            if (b as int) < orig.block(a as int).len() {
                Self::fixed_outcome(old, new, r, addr, orig.block(a as int)[b as int].1)
            } else {
                r == Err::<(), VMError>(VMError::IllegalAccess)
            }
        } else {
            &&& r is Ok ==> Self::structure_copied(old, new, addr, orig.block(a as int))
            &&& flat(orig.block(a as int)) && bindable(addr) && old.mems@.len() < usize::MAX ==> r is Ok
            &&& pointers_in_range(orig) && bindable(addr) && old.mems@.len() + orig.mems@.len() <= usize::MAX ==> r is Ok
        }
    }

    /// Copies the value at `orig_addr` to `dest_addr` in this same space,
    /// an aggregate with everything it reaches.
    pub fn dupe(&mut self, orig_addr: i64, dest_addr: i64) -> (r: VMResult<()>)
        requires
            old(self).wf(),
        ensures
            final(self).wf(),
            r is Err ==> *final(self) == *old(self),
            match old(self).resolve(orig_addr) {
                None => r == Err::<(), VMError>(VMError::OrphanMemory),
                Some((p, o)) => Self::dupe_outcome(o, p.0, p.1, *old(self), *final(self), dest_addr, r),
            },
    {
        let ((a, b), hm) = self.addr_to_idxs(orig_addr)?;
        let ghost o = *hm;
        if a == SENTINEL {
            return self.write_fixed(dest_addr, b as i64);
        }
        if a >= hm.mems.len() {
            return Err(VMError::IllegalAccess);
        }
        if b != SENTINEL {
            if b < hm.mems[a].len() {
                let v = hm.mems[a][b].1;
                return self.write_fixed(dest_addr, v);
            }
            return Err(VMError::IllegalAccess);
        }
        let base = self.mems.len();
        let root_cells = copy_cells(&hm.mems[a], 0);
        assert(root_cells@ =~= o.block(a as int));
        let copies = copy_structure(hm, a, root_cells, base)?;
        let ghost cs = Seq::new(copies@.len(), |i: int| copies@[i]@);
        let r = self.append_structure(copies, dest_addr);
        proof {
            if r is Ok {
                let n = copies@.len() as int;
                assert(self.block(base + 0) == copies@[0]@);
                assert forall|i: int| 0 <= i < n implies #[trigger] cs[i] == self.block(base + i) by {
                    assert(self.block(base + i) == copies@[i]@);
                }
                assert(Seq::new(n as nat, |i: int| self.block(base + i)) =~= cs);
            }
        }
        r
    }

    /// The space that carries an event's payload out of `curr_hand_mem`:
    /// none for an event without payload (size 0), else a fresh root over
    /// the same global block with the value at `curr_addr` copied to
    /// address 0. `payload_size` is the size registered for the event, if any.
    pub fn alloc_payload(event_id: i64, payload_size: Option<i64>, curr_addr: i64, curr_hand_mem: &HandlerMemory) -> (r: VMResult<Option<HandlerMemory>>)
        requires
            curr_hand_mem.wf(),
        ensures
            payload_size is None ==> r == Err::<Option<HandlerMemory>, VMError>(VMError::EventNotDefined(event_id)),
            payload_size == Some(0i64) ==> r == Ok::<Option<HandlerMemory>, VMError>(None),
            payload_size matches Some(n) && n != 0 ==> match curr_hand_mem.resolve(curr_addr) {
                None => r == Err::<Option<HandlerMemory>, VMError>(VMError::OrphanMemory),
                Some((p, o)) => exists|fresh: HandlerMemory, h: HandlerMemory, t: VMResult<()>|
                    #[trigger] Self::transfer_outcome(o, p.0, p.1, fresh, h, 0, t)
                    && fresh.wf() && fresh.is_fresh_root(curr_hand_mem.block(0))
                    && h.wf() && r == match t {
                        Ok(_) => Ok::<Option<HandlerMemory>, VMError>(Some(h)),
                        Err(e) => Err(e),
                    },
            },
    {
        let pls = match payload_size {
            Some(n) => n,
            None => return Err(VMError::EventNotDefined(event_id)),
        };
        if pls == 0 {
            return Ok(None);
        }
        let mut hm = HandlerMemory::root(&curr_hand_mem.mems[0]);
        hm.mems[1].reserve(1);
        let ghost fresh = hm;
        let t = HandlerMemory::transfer(curr_hand_mem, curr_addr, &mut hm, 0);
        proof {
            if let Some((p, o)) = curr_hand_mem.resolve(curr_addr) {
                assert(Self::transfer_outcome(o, p.0, p.1, fresh, hm, 0, t));
            }
        }
        match t {
            Ok(_) => Ok(Some(hm)),
            Err(e) => Err(e),
        }
    }

    /// Appends relocated copies as new blocks and binds `addr` to the first.
    fn append_structure(&mut self, copies: Vec<Vec<Cell>>, addr: i64) -> (r: VMResult<()>)
        requires
            old(self).wf(),
            copies@.len() >= 1,
            old(self).mems@.len() + copies@.len() <= usize::MAX,
            self_contained(Seq::new(copies@.len(), |i: int| copies@[i]@), old(self).mems@.len() as int),
        ensures
            final(self).wf(),
            r is Ok <==> bindable(addr),
            r is Err ==> r == Err::<(), VMError>(VMError::IllegalAccess) && *final(self) == *old(self),
            r is Ok ==> {
                let base = old(self).mems@.len() as int;
                &&& final(self).mems@.len() == base + copies@.len()
                &&& final(self).parent == old(self).parent
                &&& final(self).mem_addr == old(self).mem_addr
                &&& final(self).id == old(self).id
                &&& forall|q: int| 0 <= q < base ==> #[trigger] final(self).block(q) == old(self).block(q)
                &&& forall|q: int| 0 <= q < copies@.len() ==> #[trigger] final(self).block(base + q) == copies@[q]@
                &&& forall|x: i64| #[trigger]
                    final(self).local_idxs(x) == if x == addr {
                        Some((base as usize, SENTINEL))
                    } else {
                        old(self).local_idxs(x)
                    }
            },
    {
        if !crate::memory::is_bindable(addr) {
            return Err(VMError::IllegalAccess);
        }
        let base = self.mems.len();
        let ghost old_self = *self;
        let mut i: usize = 0;
        while i < copies.len()
            invariant
                old_self.wf(),
                i <= copies@.len(),
                base == old_self.mems@.len(),
                base + copies@.len() <= usize::MAX,
                self.mems@.len() == base + i,
                self.parent == old_self.parent,
                self.addr == old_self.addr,
                self.mem_addr == old_self.mem_addr,
                self.id == old_self.id,
                forall|q: int| 0 <= q < base ==> #[trigger] self.block(q) == old_self.block(q),
                forall|q: int| 0 <= q < i ==> #[trigger] self.block(base + q) == copies@[q]@,
            decreases copies@.len() - i,
        {
            let ghost prev = *self;
            self.mems.push(copy_cells(&copies[i], 0));
            assert(self.block(base + i) =~= copies@[i as int]@);
            assert forall|q: int| 0 <= q < base + i implies #[trigger] self.block(q) == prev.block(q) by {
                assert(self.mems@[q] == prev.mems@[q]);
            }
            assert forall|q: int| 0 <= q < base implies #[trigger] self.block(q) == old_self.block(q) by {
                assert(self.block(q) == prev.block(q));
            }
            assert forall|q: int| 0 <= q < i + 1 implies #[trigger] self.block(base + q) == copies@[q]@ by {
                if q < i {
                    assert(self.block(base + q) == prev.block(base + q));
                }
            }
            i = i + 1;
        }
        let ghost mid = *self;
        let r = self.set_addr(addr, base, SENTINEL);
        assert forall|x: i64| #[trigger] mid.local_idxs(x) == old_self.local_idxs(x) by {}
        assert forall|q: int| 0 <= q < base implies #[trigger] self.block(q) == old_self.block(q) by {
            assert(mid.block(q) == old_self.block(q));
        }
        assert forall|q: int| 0 <= q < copies@.len() implies #[trigger] self.block(base + q) == copies@[q]@ by {
            assert(mid.block(base + q) == copies@[q]@);
        }
        r
    }
}

/// Finds `t` in `v`.
fn index_of(v: &Vec<usize>, t: usize) -> (r: Option<usize>)
    ensures
        r matches Some(k) ==> (k as int) < v@.len() && v@[k as int] == t,
        r is None ==> !v@.contains(t),
{
    let mut k: usize = 0;
    while k < v.len()
        invariant
            k <= v@.len(),
            forall|q: int| 0 <= q < k ==> v@[q] != t,
        decreases v@.len() - k,
    {
        if v[k] == t {
            return Some(k);
        }
        k = k + 1;
    }
    None
}

/// Copies block `root` of `src`, whose cells are `root_cells`, with every
/// block it reaches through block pointers, breadth first, and relocates the
/// copies to start at block `base` of their destination.
fn copy_structure(src: &HandlerMemory, root: usize, root_cells: Vec<Cell>, base: usize) -> (r: VMResult<Vec<Vec<Cell>>>)
    ensures
        r matches Ok(copies) ==> {
            &&& copies@.len() >= 1
            &&& base + copies@.len() <= usize::MAX
            &&& relocated_from(copies@[0]@, root_cells@, base as int, copies@.len() as int)
            &&& self_contained(Seq::new(copies@.len(), |i: int| copies@[i]@), base as int)
        },
        flat(root_cells@) && base < usize::MAX ==> (r matches Ok(copies) && copies@.len() == 1),
        pointers_in_range(*src) && (root as int) < src.mems@.len() && root_cells@ == src.block(root as int)
            && base + src.mems@.len() <= usize::MAX ==> r is Ok,
{
    let mut addrs: Vec<usize> = Vec::new();
    addrs.push(root);
    let mut copies: Vec<Vec<Cell>> = Vec::new();
    copies.push(root_cells);
    let n = src.mems.len();
    let ghost good = pointers_in_range(*src) && (root as int) < n && root_cells@ == src.block(root as int);
    let mut check_idx: usize = 0;
    while check_idx < addrs.len()
        invariant
            addrs@.len() == copies@.len(),
            1 <= addrs@.len() <= n + 1,
            check_idx <= addrs@.len(),
            n == src.mems@.len(),
            copies@[0]@ == root_cells@,
            addrs@[0] == root,
            flat(root_cells@) ==> addrs@.len() == 1,
            good == (pointers_in_range(*src) && (root as int) < n && root_cells@ == src.block(root as int)),
            addrs@.no_duplicates(),
            forall|q: int| 1 <= q < addrs@.len() ==> (#[trigger] addrs@[q] as int) < n,
            forall|q: int| 1 <= q < addrs@.len() ==> #[trigger] copies@[q]@ == src.block(addrs@[q] as int),
            forall|q: int, j: int| 0 <= q < check_idx && 0 <= j < copies@[q]@.len() && (#[trigger] copies@[q]@[j]).0 != SENTINEL
                ==> addrs@.contains(copies@[q]@[j].0),
        decreases n + 1 - addrs@.len(), addrs@.len() - check_idx,
    {
        let l = copies[check_idx].len();
        let ghost start_len = addrs@.len();
        let mut i: usize = 0;
        while i < l
            invariant
                start_len <= addrs@.len(),
                addrs@.len() == copies@.len(),
                1 <= addrs@.len() <= n + 1,
                check_idx < addrs@.len(),
                n == src.mems@.len(),
                copies@[0]@ == root_cells@,
                addrs@[0] == root,
                l == copies@[check_idx as int]@.len(),
                i <= l,
                flat(root_cells@) ==> addrs@.len() == 1 && check_idx == 0,
                good == (pointers_in_range(*src) && (root as int) < n && root_cells@ == src.block(root as int)),
                addrs@.no_duplicates(),
                forall|q: int| 1 <= q < addrs@.len() ==> (#[trigger] addrs@[q] as int) < n,
                forall|q: int| 1 <= q < addrs@.len() ==> #[trigger] copies@[q]@ == src.block(addrs@[q] as int),
                forall|q: int, j: int| 0 <= q < check_idx && 0 <= j < copies@[q]@.len() && (#[trigger] copies@[q]@[j]).0 != SENTINEL
                    ==> addrs@.contains(copies@[q]@[j].0),
                forall|j: int| 0 <= j < i && (#[trigger] copies@[check_idx as int]@[j]).0 != SENTINEL
                    ==> addrs@.contains(copies@[check_idx as int]@[j].0),
            decreases l - i,
        {
            let other = copies[check_idx][i].0;
            if other != SENTINEL {
                if index_of(&addrs, other).is_none() {
                    proof {
                        if good {
                            let q = check_idx as int;
                            let src_block = addrs@[q] as int;
                            assert(copies@[q]@ == src.block(src_block));
                            assert(src.block(src_block)[i as int].0 == other);
                            assert((other as int) < n);
                            let grown = addrs@.push(other);
                            assert forall|x: int| 0 <= x < grown.len() implies (#[trigger] grown[x] as int) < n by {
                                if x == 0 {
                                    assert(grown[x] == root);
                                }
                            }
                            assert(grown.no_duplicates()) by {
                                assert forall|x: int, y: int| 0 <= x < grown.len() && 0 <= y < grown.len() && x != y
                                    implies grown[x] != grown[y] by {
                                    if x == addrs@.len() as int {
                                        assert(addrs@[y] != other);
                                    } else if y == addrs@.len() as int {
                                        assert(addrs@[x] != other);
                                    }
                                }
                            }
                            distinct_indices_bounded(grown, n as int);
                        }
                    }
                    if other >= n || addrs.len() > n {
                        return Err(VMError::IllegalAccess);
                    }
                    let ghost before = addrs@;
                    let ghost copies_before = copies@;
                    addrs.push(other);
                    copies.push(copy_cells(&src.mems[other], 0));
                    proof {
                        assert(copies@[copies@.len() - 1]@ =~= src.block(other as int));
                        assert(addrs@.no_duplicates()) by {
                            assert forall|x: int, y: int| 0 <= x < addrs@.len() && 0 <= y < addrs@.len() && x != y
                                implies addrs@[x] != addrs@[y] by {
                                if x == before.len() as int {
                                    assert(before[y] != other);
                                } else if y == before.len() as int {
                                    assert(before[x] != other);
                                } else {
                                    assert(before[x] != before[y]);
                                }
                            }
                        }
                        assert forall|q: int, j: int| 0 <= q < check_idx && 0 <= j < copies@[q]@.len() && (#[trigger] copies@[q]@[j]).0 != SENTINEL
                            implies addrs@.contains(copies@[q]@[j].0) by {
                            assert(copies@[q] == copies_before[q]);
                            assert(before.contains(copies@[q]@[j].0));
                            let w = choose|w: int| 0 <= w < before.len() && before[w] == copies@[q]@[j].0;
                            assert(addrs@[w] == before[w]);
                        }
                        assert forall|j: int| 0 <= j < i && (#[trigger] copies@[check_idx as int]@[j]).0 != SENTINEL
                            implies addrs@.contains(copies@[check_idx as int]@[j].0) by {
                            assert(copies@[check_idx as int] == copies_before[check_idx as int]);
                            assert(before.contains(copies@[check_idx as int]@[j].0));
                            let w = choose|w: int| 0 <= w < before.len() && before[w] == copies@[check_idx as int]@[j].0;
                            assert(addrs@[w] == before[w]);
                        }
                        assert(addrs@[addrs@.len() - 1] == other);
                    }
                }
            }
            i = i + 1;
        }
        check_idx = check_idx + 1;
    }
    let count = copies.len();
    proof {
        if good {
            assert forall|q: int| 0 <= q < addrs@.len() implies (#[trigger] addrs@[q] as int) < n by {
                if q == 0 {
                    assert(addrs@[q] == root);
                }
            }
            distinct_indices_bounded(addrs@, n as int);
        }
    }
    if base > usize::MAX - count {
        return Err(VMError::IllegalAccess);
    }
    let ghost pre = copies@;
    let mut i: usize = 0;
    while i < count
        invariant
            count == copies@.len() == addrs@.len(),
            pre.len() == count,
            count >= 1,
            base + count <= usize::MAX,
            i <= count,
            pre[0]@ == root_cells@,
            flat(root_cells@) ==> count == 1,
            forall|q: int, j: int| 0 <= q < count && 0 <= j < pre[q]@.len() && (#[trigger] pre[q]@[j]).0 != SENTINEL
                ==> addrs@.contains(pre[q]@[j].0),
            forall|q: int| i <= q < count ==> #[trigger] copies@[q] == pre[q],
            forall|q: int| 0 <= q < i ==> relocated_from(#[trigger] copies@[q]@, pre[q]@, base as int, count as int),
        decreases count - i,
    {
        let l = copies[i].len();
        let mut j: usize = 0;
        while j < l
            invariant
                count == copies@.len() == addrs@.len(),
                pre.len() == count,
                base + count <= usize::MAX,
                i < count,
                j <= l,
                l == pre[i as int]@.len(),
                copies@[i as int]@.len() == l,
                flat(root_cells@) ==> i == 0 && pre[0]@ == root_cells@,
                forall|q: int, j: int| 0 <= q < count && 0 <= j < pre[q]@.len() && (#[trigger] pre[q]@[j]).0 != SENTINEL
                    ==> addrs@.contains(pre[q]@[j].0),
                forall|q: int| i < q < count ==> #[trigger] copies@[q] == pre[q],
                forall|q: int| 0 <= q < i ==> relocated_from(#[trigger] copies@[q]@, pre[q]@, base as int, count as int),
                forall|t: int| j <= t < l ==> #[trigger] copies@[i as int]@[t] == pre[i as int]@[t],
                forall|t: int| 0 <= t < j ==> {
                    &&& (#[trigger] pre[i as int]@[t]).0 == SENTINEL ==> copies@[i as int]@[t] == pre[i as int]@[t]
                    &&& pre[i as int]@[t].0 != SENTINEL ==> copies@[i as int]@[t].1 == pre[i as int]@[t].1
                        && base <= copies@[i as int]@[t].0 < base + count
                },
            decreases l - j,
        {
            let (a, b) = copies[i][j];
            assert(pre[i as int]@[j as int] == (a, b));
            if a != SENTINEL {
                match index_of(&addrs, a) {
                    Some(k) => {
                        copies[i].set(j, (base + k, b));
                    },
                    None => {
                        return Err(VMError::IllegalAccess);
                    },
                }
            }
            j = j + 1;
        }
        i = i + 1;
    }
    proof {
        assert forall|q: int, t: int| 0 <= q < count && 0 <= t < copies@[q]@.len() && (#[trigger] copies@[q]@[t]).0 != SENTINEL
            implies base <= copies@[q]@[t].0 < base + count by {
            assert(relocated_from(copies@[q]@, pre[q]@, base as int, count as int));
            if pre[q]@[t].0 == SENTINEL {
                assert(copies@[q]@[t] == pre[q]@[t]);
            }
        }
    }
    Ok(copies)
}

} // verus!
