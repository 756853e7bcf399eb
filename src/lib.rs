//! The memory subsystem of a handler-based virtual machine: an address-space
//! model, a block-structured heap, deep copies between memory spaces, and a
//! fork/join protocol with copy-on-write children.
use vstd::prelude::*;

pub mod address;
pub mod blocks;
pub mod error;
pub mod fractal;
pub mod join;
pub mod laws;
pub mod memory;
pub mod pascal;
pub mod registers;
pub mod transfer;
pub mod wire;
