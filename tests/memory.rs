use std::sync::Arc;

use avm::address::{addr_type, AddrSpace, CLOSURE_ARG_MEM_END, CLOSURE_ARG_MEM_START};
use avm::error::VMError;
use avm::fractal::FractalMemory;
use avm::memory::{HandlerMemory, SENTINEL};

fn global_block() -> Vec<(usize, i64)> {
    // A packed string "hi" at offset 0 (global address -1), then the integer 7.
    let hi = i64::from_le_bytes([b'h', b'i', 0, 0, 0, 0, 0, 0]);
    vec![(SENTINEL, 2), (SENTINEL, hi), (SENTINEL, 7)]
}

fn root() -> HandlerMemory {
    HandlerMemory::new(None, 4, &global_block()).unwrap()
}

#[test]
fn classifies_addresses() {
    assert_eq!(addr_type(0), AddrSpace::Normal);
    assert_eq!(addr_type(5), AddrSpace::Normal);
    assert_eq!(addr_type(-1), AddrSpace::Global);
    assert_eq!(addr_type(CLOSURE_ARG_MEM_START), AddrSpace::ClosureArg);
    assert_eq!(addr_type(CLOSURE_ARG_MEM_END), AddrSpace::ClosureArg);
    assert_eq!(addr_type(CLOSURE_ARG_MEM_END + 1), AddrSpace::Global);
}

#[test]
fn global_offset_is_eight_byte_stride() {
    let hm = root();
    assert_eq!(hm.addr_to_idxs_opt(-1), Some((0, 0)));
    assert_eq!(hm.addr_to_idxs_opt(-8), Some((0, 0)));
    assert_eq!(hm.addr_to_idxs_opt(-9), Some((0, 1)));
    assert_eq!(hm.addr_to_idxs_opt(-17), Some((0, 2)));
    assert_eq!(hm.addr_to_idxs_opt(3), None);
}

#[test]
fn write_then_read_fixed() {
    let mut hm = root();
    hm.write_fixed(5, 42).unwrap();
    assert_eq!(hm.read_fixed(5), Ok(42));
    hm.write_fixed(5, -3).unwrap();
    assert_eq!(hm.read_fixed(5), Ok(-3));
    hm.write_fixed(CLOSURE_ARG_MEM_START, 11).unwrap();
    assert_eq!(hm.read_fixed(CLOSURE_ARG_MEM_START), Ok(11));
}

#[test]
fn reads_global_values() {
    let hm = root();
    assert_eq!(hm.read_fixed(-17), Ok(7));
}

#[test]
fn unbound_address_is_orphan() {
    let hm = root();
    assert_eq!(hm.read_fixed(9), Err(VMError::OrphanMemory));
}

#[test]
fn global_address_cannot_be_written() {
    let mut hm = root();
    assert_eq!(hm.write_fixed(-1, 3), Err(VMError::IllegalAccess));
}

#[test]
fn string_round_trip() {
    for s in ["", "a", "hello, world", "exactly8", "héllo wörld ✓"] {
        let f = HandlerMemory::str_to_fractal(s);
        assert_eq!(f.read_fixed(0), Ok(s.len() as i64));
        assert_eq!(f.len(), 1 + (s.len() + 7) / 8);
        assert_eq!(HandlerMemory::fractal_to_string(f), Ok(s.to_string()));
    }
}

#[test]
fn string_encoding_packs_little_endian() {
    let f = HandlerMemory::str_to_fractal("hi");
    assert_eq!(f.block, vec![(SENTINEL, 2), (SENTINEL, 0x6968)]);
}

#[test]
fn invalid_utf8_is_invalid_string() {
    let f = FractalMemory::new(vec![(SENTINEL, 2), (SENTINEL, 0xffff)]);
    assert_eq!(HandlerMemory::fractal_to_string(f), Err(VMError::InvalidString));
}

#[test]
fn too_long_string_is_illegal() {
    let f = FractalMemory::new(vec![(SENTINEL, 9), (SENTINEL, 0x41)]);
    assert_eq!(HandlerMemory::fractal_to_string(f), Err(VMError::IllegalAccess));
}

#[test]
fn fractal_write_push_pop_delete() {
    let mut hm = root();
    hm.init_fractal(1).unwrap();
    hm.push_fixed(1, 10).unwrap();
    hm.push_fixed(1, 20).unwrap();
    hm.push_fixed(1, 30).unwrap();
    let f = hm.read_fractal(1).unwrap();
    assert_eq!(f.len(), 3);
    assert_eq!(f.read_fixed(2), Ok(30));
    let popped = hm.pop(1).unwrap();
    assert_eq!(popped.read_fixed(0), Ok(30));
    let removed = hm.delete(1, 0).unwrap();
    assert_eq!(removed.read_fixed(0), Ok(10));
    let f = hm.read_fractal(1).unwrap();
    assert_eq!(f.block, vec![(SENTINEL, 20)]);
    assert_eq!(hm.delete(1, 5).err(), Some(VMError::IndexOutOfRange { idx: 5, len: 1 }));
    hm.pop(1).unwrap();
    assert_eq!(hm.pop(1).err(), Some(VMError::EmptyBlock));
}

#[test]
fn write_fractal_checks_ownership() {
    let mut a = root();
    let mut b = root();
    a.init_fractal(1).unwrap();
    a.push_fixed(1, 4).unwrap();
    let view = a.read_fractal(1).unwrap();
    assert!(view.belongs(&a));
    a.write_fractal(2, &view).unwrap();
    assert_eq!(a.read_fractal(2).unwrap().block, vec![(SENTINEL, 4)]);
    if a.id != b.id {
        assert!(!view.belongs(&b));
        assert_eq!(b.write_fractal(2, &view), Err(VMError::MemoryNotOwned));
    }
    let literal = HandlerMemory::str_to_fractal("x");
    assert!(literal.belongs(&b));
    b.write_fractal(3, &literal).unwrap();
}

#[test]
fn write_fixed_in_fractal_updates_source() {
    let mut hm = root();
    hm.init_fractal(1).unwrap();
    hm.push_fixed(1, 1).unwrap();
    hm.push_fixed(1, 2).unwrap();
    let mut view = hm.read_fractal(1).unwrap();
    hm.write_fixed_in_fractal(&mut view, 1, 9).unwrap();
    assert_eq!(hm.read_fractal(1).unwrap().block, vec![(SENTINEL, 1), (SENTINEL, 9)]);
    let mut detached = FractalMemory::new(vec![(SENTINEL, 0)]);
    assert_eq!(hm.write_fixed_in_fractal(&mut detached, 0, 5), Err(VMError::MemoryNotOwned));
}

#[test]
fn read_either_tells_fixed_from_fractal() {
    let mut hm = root();
    hm.write_fixed(0, 8).unwrap();
    hm.init_fractal(1).unwrap();
    hm.push_fixed(1, 3).unwrap();
    let (f, is_fractal) = hm.read_either(0).unwrap();
    assert!(!is_fractal);
    assert_eq!(f.read_fixed(0), Ok(8));
    let (f, is_fractal) = hm.read_either(1).unwrap();
    assert!(is_fractal);
    assert_eq!(f.block, vec![(SENTINEL, 3)]);
}

#[test]
fn nested_fractals_and_read_from_fractal() {
    let mut hm = root();
    hm.init_fractal(1).unwrap();
    hm.push_fractal(1, FractalMemory::new(vec![(SENTINEL, 5), (SENTINEL, 6)])).unwrap();
    hm.push_fixed(1, 7).unwrap();
    let outer = hm.read_fractal(1).unwrap();
    let (inner, is_fractal) = hm.read_from_fractal(&outer, 0).unwrap();
    assert!(is_fractal);
    assert_eq!(inner.block, vec![(SENTINEL, 5), (SENTINEL, 6)]);
    let (raw, is_fractal) = hm.read_from_fractal(&outer, 1).unwrap();
    assert!(!is_fractal);
    assert_eq!(raw.read_fixed(0), Ok(7));
}

#[test]
fn transfer_copies_nested_structure_without_aliasing() {
    let mut a = root();
    a.init_fractal(1).unwrap();
    a.push_fractal(1, FractalMemory::new(vec![(SENTINEL, 5)])).unwrap();
    a.push_fixed(1, 9).unwrap();
    let mut b = root();
    b.write_fixed(0, 1).unwrap();
    HandlerMemory::transfer(&a, 1, &mut b, 3).unwrap();
    let copy = b.read_fractal(3).unwrap();
    assert_eq!(copy.len(), 2);
    let (inner, _) = b.read_from_fractal(&copy, 0).unwrap();
    assert_eq!(inner.block, vec![(SENTINEL, 5)]);
    // Mutating the origin's nested block leaves the copy alone, and back.
    let outer_a = a.read_fractal(1).unwrap();
    a.register_from_fractal(7, &outer_a, 0).unwrap();
    a.push_fixed(7, 100).unwrap();
    let (inner, _) = b.read_from_fractal(&copy, 0).unwrap();
    assert_eq!(inner.block, vec![(SENTINEL, 5)]);
    b.register_from_fractal(8, &copy, 0).unwrap();
    b.push_fixed(8, 200).unwrap();
    let (inner_a, _) = a.read_from_fractal(&outer_a, 0).unwrap();
    assert_eq!(inner_a.block, vec![(SENTINEL, 5), (SENTINEL, 100)]);
}

#[test]
fn transfer_of_fixed_and_global_values() {
    let mut a = root();
    a.write_fixed(0, 77).unwrap();
    let mut b = root();
    HandlerMemory::transfer(&a, 0, &mut b, 4).unwrap();
    assert_eq!(b.read_fixed(4), Ok(77));
    HandlerMemory::transfer(&a, -1, &mut b, 5).unwrap();
    let s = HandlerMemory::fractal_to_string(b.read_fractal(5).unwrap());
    assert_eq!(s, Ok("hi".to_string()));
    HandlerMemory::transfer(&a, -17, &mut b, 6).unwrap();
    assert_eq!(b.read_fixed(6), Ok(7));
    assert_eq!(HandlerMemory::transfer(&a, 9, &mut b, 6), Err(VMError::OrphanMemory));
}

#[test]
fn dupe_copies_within_one_space() {
    let mut hm = root();
    hm.init_fractal(1).unwrap();
    hm.push_fixed(1, 4).unwrap();
    hm.dupe(1, 2).unwrap();
    hm.push_fixed(2, 5).unwrap();
    assert_eq!(hm.read_fractal(1).unwrap().block, vec![(SENTINEL, 4)]);
    assert_eq!(hm.read_fractal(2).unwrap().block, vec![(SENTINEL, 4), (SENTINEL, 5)]);
    hm.write_fixed(3, 12).unwrap();
    hm.dupe(3, 4).unwrap();
    assert_eq!(hm.read_fixed(4), Ok(12));
}

#[test]
fn registers_alias_without_copying() {
    let mut hm = root();
    hm.write_fixed(0, 3).unwrap();
    hm.register(1, 0, false).unwrap();
    assert_eq!(hm.read_fixed(1), Ok(3));
    hm.register(2, -1, true).unwrap();
    let s = HandlerMemory::fractal_to_string(hm.read_fractal(2).unwrap());
    assert_eq!(s, Ok("hi".to_string()));
    hm.init_fractal(4).unwrap();
    hm.push_register(4, 0).unwrap();
    hm.push_register(4, -1).unwrap();
    let arr = hm.read_fractal(4).unwrap();
    assert_eq!(arr.len(), 2);
    hm.register_out(4, 0, 5).unwrap();
    assert_eq!(hm.read_fixed(5), Ok(3));
    let (g, is_fractal) = hm.read_from_fractal(&arr, 1).unwrap();
    assert!(is_fractal);
    assert_eq!(HandlerMemory::fractal_to_string(g), Ok("hi".to_string()));
    hm.write_fixed(6, 99).unwrap();
    hm.register_in(6, 4, 0).unwrap();
    hm.register_out(4, 0, 7).unwrap();
    assert_eq!(hm.read_fixed(7), Ok(99));
    assert_eq!(hm.register_in(6, 4, 9), Err(VMError::IndexOutOfRange { idx: 9, len: 2 }));
    hm.init_fractal(8).unwrap();
    hm.push_register_out(8, &arr, 0).unwrap();
    assert_eq!(hm.read_fractal(8).unwrap().len(), 1);
    assert_eq!(hm.push_register_out(8, &arr, 5), Err(VMError::IndexOutOfRange { idx: 5, len: 2 }));
}

#[test]
fn fork_reads_parent_and_copies_on_write() {
    let mut p = root();
    p.write_fixed(5, 42).unwrap();
    p.init_fractal(1).unwrap();
    p.push_fixed(1, 1).unwrap();
    let parent = Arc::new(p);
    let mut c1 = HandlerMemory::fork(parent.clone()).unwrap();
    let mut c2 = HandlerMemory::fork(parent.clone()).unwrap();
    assert_eq!(c1.read_fixed(5), Ok(42));
    c1.write_fixed(5, 99).unwrap();
    c2.write_fixed(5, 7).unwrap();
    c1.push_fixed(1, 2).unwrap();
    assert_eq!(c1.read_fixed(5), Ok(99));
    assert_eq!(c2.read_fixed(5), Ok(7));
    assert_eq!(parent.read_fixed(5), Ok(42));
    assert_eq!(c1.read_fractal(1).unwrap().block, vec![(SENTINEL, 1), (SENTINEL, 2)]);
    assert_eq!(c2.read_fractal(1).unwrap().block, vec![(SENTINEL, 1)]);
    assert_eq!(parent.read_fractal(1).unwrap().block, vec![(SENTINEL, 1)]);
}

#[test]
fn fork_then_join_leaves_parent_unchanged() {
    let mut p = root();
    p.write_fixed(5, 42).unwrap();
    p.init_fractal(1).unwrap();
    let before = p.to_pb();
    let parent = Arc::new(p);
    let child = HandlerMemory::fork(parent.clone()).unwrap();
    let child = HandlerMemory::drop_parent(Arc::new(child)).unwrap();
    let mut p = HandlerMemory::into_exclusive(parent).unwrap();
    p.join(child).unwrap();
    let after = p.to_pb();
    assert_eq!(after.mem_space, before.mem_space);
    assert_eq!(after.mem_space_args, before.mem_space_args);
    assert_eq!(&after.mems[..before.mems.len()], &before.mems[..]);
    assert_eq!(p.read_fixed(5), Ok(42));
}

#[test]
fn example_fork_write_join() {
    let mut p = root();
    p.write_fixed(5, 42).unwrap();
    let parent = Arc::new(p);
    let mut child = HandlerMemory::fork(parent.clone()).unwrap();
    child.write_fixed(5, 99).unwrap();
    assert_eq!(child.read_fixed(5), Ok(99));
    assert_eq!(parent.read_fixed(5), Ok(42));
    let child = HandlerMemory::drop_parent(Arc::new(child)).unwrap();
    let mut p = HandlerMemory::into_exclusive(parent).unwrap();
    p.join(child).unwrap();
    // Normal bindings written by the child are merged into the parent.
    assert_eq!(p.read_fixed(5), Ok(99));
}

#[test]
fn join_carries_escaping_closure_argument() {
    let p = root();
    let parent = Arc::new(p);
    let mut child = HandlerMemory::fork(parent.clone()).unwrap();
    child.init_fractal(CLOSURE_ARG_MEM_START).unwrap();
    child.push_fixed(CLOSURE_ARG_MEM_START, 8).unwrap();
    let child = HandlerMemory::drop_parent(Arc::new(child)).unwrap();
    let mut p = HandlerMemory::into_exclusive(parent).unwrap();
    p.join(child).unwrap();
    assert_eq!(p.read_fractal(CLOSURE_ARG_MEM_START).unwrap().block, vec![(SENTINEL, 8)]);
}

#[test]
fn second_join_of_same_address_conflicts() {
    let mut p = root();
    p.write_fixed(5, 42).unwrap();
    let parent = Arc::new(p);
    let mut c1 = HandlerMemory::fork(parent.clone()).unwrap();
    let mut c2 = HandlerMemory::fork(parent.clone()).unwrap();
    c1.write_fixed(5, 1).unwrap();
    c2.write_fixed(5, 2).unwrap();
    let c1 = HandlerMemory::drop_parent(Arc::new(c1)).unwrap();
    let c2 = HandlerMemory::drop_parent(Arc::new(c2)).unwrap();
    let mut p = HandlerMemory::into_exclusive(parent).unwrap();
    p.join(c1).unwrap();
    assert_eq!(p.read_fixed(5), Ok(1));
    assert_eq!(p.join(c2), Err(VMError::MergeConflict));
    assert_eq!(p.read_fixed(5), Ok(1));
}

#[test]
fn shared_space_is_not_exclusive() {
    let parent = Arc::new(root());
    let other = parent.clone();
    assert_eq!(HandlerMemory::into_exclusive(parent).err(), Some(VMError::HandMemDanglingPtr));
    assert!(HandlerMemory::into_exclusive(other).is_ok());
    let shared = Arc::new(root());
    let _keep = shared.clone();
    assert_eq!(HandlerMemory::new(Some(shared), 1, &global_block()).err(), Some(VMError::HandMemDanglingPtr));
}

#[test]
fn wire_round_trip_keeps_reads() {
    let mut p = root();
    p.write_fixed(5, 42).unwrap();
    p.init_fractal(1).unwrap();
    p.push_fixed(1, 6).unwrap();
    let parent = Arc::new(p);
    let mut child = HandlerMemory::fork(parent).unwrap();
    child.write_fixed(2, 13).unwrap();
    child.write_fixed(CLOSURE_ARG_MEM_START, 4).unwrap();
    let wire = child.to_pb();
    assert!(wire.parent.is_some());
    let back = HandlerMemory::from_pb(&wire, &global_block()).unwrap();
    for addr in [5, 2, CLOSURE_ARG_MEM_START, -17, 9] {
        assert_eq!(back.read_fixed(addr), child.read_fixed(addr));
    }
    assert_eq!(back.read_fractal(1).unwrap().block, child.read_fractal(1).unwrap().block);
    assert_eq!(back.to_pb().mems, wire.mems);
}

#[test]
fn wire_with_bad_active_block_is_refused() {
    let mut wire = root().to_pb();
    wire.mem_addr = 0;
    assert_eq!(HandlerMemory::from_pb(&wire, &global_block()).err(), Some(VMError::IllegalAccess));
}

#[test]
fn alloc_payload_cases() {
    let mut hm = root();
    hm.write_fixed(3, 21).unwrap();
    assert_eq!(HandlerMemory::alloc_payload(7, None, 3, &hm).err(), Some(VMError::EventNotDefined(7)));
    assert!(HandlerMemory::alloc_payload(7, Some(0), 3, &hm).unwrap().is_none());
    let payload = HandlerMemory::alloc_payload(7, Some(8), 3, &hm).unwrap().unwrap();
    assert_eq!(payload.read_fixed(0), Ok(21));
}

#[test]
fn fractal_compare_and_read() {
    let a = FractalMemory::new(vec![(SENTINEL, 1), (2, -1)]);
    let b = FractalMemory::new(vec![(SENTINEL, 1), (3, -1)]);
    assert!(a.compare_at(0, &b));
    assert!(!a.compare_at(1, &b));
    assert_eq!(a.read_fixed(1), Err(VMError::IllegalAccess));
}

#[test]
fn read_mut_fractal_copies_on_write() {
    let mut p = root();
    p.init_fractal(1).unwrap();
    p.push_fixed(1, 1).unwrap();
    let parent = Arc::new(p);
    let mut child = HandlerMemory::fork(parent.clone()).unwrap();
    {
        let block = child.read_mut_fractal(1).unwrap();
        assert_eq!(block, &vec![(SENTINEL, 1)]);
        block.push((SENTINEL, 2));
    }
    assert_eq!(child.read_fractal(1).unwrap().block, vec![(SENTINEL, 1), (SENTINEL, 2)]);
    assert_eq!(parent.read_fractal(1).unwrap().block, vec![(SENTINEL, 1)]);
    assert_eq!(child.read_mut_fractal(9).err(), Some(VMError::OrphanMemory));
    assert_eq!(child.read_mut_fractal(-1).err(), Some(VMError::IllegalAccess));
}

#[test]
fn read_mut_fractal_by_idx_copies_on_write() {
    let mut p = root();
    p.init_fractal(1).unwrap();
    p.push_fixed(1, 3).unwrap();
    let parent = Arc::new(p);
    let mut child = HandlerMemory::fork(parent.clone()).unwrap();
    let (_, b) = parent.addr_to_idxs(1).unwrap().0;
    assert_eq!(b, SENTINEL);
    let a = parent.addr_to_idxs_opt(1).unwrap().0;
    child.read_mut_fractal_by_idx(a).unwrap().push((SENTINEL, 4));
    assert_eq!(child.read_fractal(1).unwrap().block, vec![(SENTINEL, 3), (SENTINEL, 4)]);
    assert_eq!(parent.read_fractal(1).unwrap().block, vec![(SENTINEL, 3)]);
    assert_eq!(child.read_mut_fractal_by_idx(0).err(), Some(VMError::IllegalAccess));
    assert_eq!(child.read_mut_fractal_by_idx(100).err(), Some(VMError::IllegalAccess));
}

#[test]
fn views_compare_by_cells() {
    let mut hm = root();
    hm.init_fractal(1).unwrap();
    hm.push_fixed(1, 5).unwrap();
    let read = hm.read_fractal(1).unwrap();
    assert_eq!(read, FractalMemory::new(vec![(SENTINEL, 5)]));
    assert_ne!(read, FractalMemory::new(vec![(SENTINEL, 6)]));
}

#[test]
fn join_moves_new_blocks_and_pointers() {
    let mut p = root();
    p.init_fractal(1).unwrap();
    let parent = Arc::new(p);
    let mut child = HandlerMemory::fork(parent.clone()).unwrap();
    child.init_fractal(2).unwrap();
    child.push_fractal(2, FractalMemory::new(vec![(SENTINEL, 12)])).unwrap();
    let child = HandlerMemory::drop_parent(Arc::new(child)).unwrap();
    let mut p = HandlerMemory::into_exclusive(parent).unwrap();
    // Grow the parent so that the child's blocks land at a new offset.
    p.init_fractal(3).unwrap();
    p.join(child).unwrap();
    let outer = p.read_fractal(2).unwrap();
    let (inner, is_fractal) = p.read_from_fractal(&outer, 0).unwrap();
    assert!(is_fractal);
    assert_eq!(inner.block, vec![(SENTINEL, 12)]);
    assert_eq!(p.read_fractal(3).unwrap().len(), 0);
}

#[test]
fn join_of_mismatched_child_is_refused() {
    let small = root();
    let mut big = root();
    for i in 0..4 {
        big.init_fractal(i).unwrap();
    }
    let child = HandlerMemory::fork(Arc::new(big)).unwrap();
    let mut small = small;
    assert_eq!(small.join(child), Err(VMError::IllegalAccess));
}
