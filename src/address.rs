use vstd::prelude::*;

verus! {

/// The lowest address, where the closure-argument window starts.
pub const CLOSURE_ARG_MEM_START: i64 = -9223372036854775808;

/// The last address of the closure-argument window.
pub const CLOSURE_ARG_MEM_END: i64 = CLOSURE_ARG_MEM_START + 9001;

/// The three address spaces that an address can fall in.
#[derive(Debug, Clone, Copy, PartialEq, Eq, Structural)]
pub enum AddrSpace {
    Normal,
    ClosureArg,
    Global,
}

pub open spec fn addr_space(addr: i64) -> AddrSpace {
    if addr >= 0 {
        AddrSpace::Normal
    } else if addr <= CLOSURE_ARG_MEM_END {
        AddrSpace::ClosureArg
    } else {
        AddrSpace::Global
    }
}

/// The cell of block 0 that a global address names: values are packed at
/// an eight-byte stride.
pub open spec fn global_offset(addr: i64) -> usize {
    ((-addr - 1) / 8) as usize
}

/// The slot of the closure-argument table that an address of that window names.
pub open spec fn closure_slot(addr: i64) -> int {
    addr - CLOSURE_ARG_MEM_START
}

/// Classifies an address.
pub fn addr_type(addr: i64) -> (r: AddrSpace)
    ensures
        r == addr_space(addr),
{
    if addr >= 0 {
        AddrSpace::Normal
    } else if addr <= CLOSURE_ARG_MEM_END {
        AddrSpace::ClosureArg
    } else {
        AddrSpace::Global
    }
}

} // verus!
