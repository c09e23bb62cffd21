//! A Z80 instruction core: registers, flags, the instruction set with its
//! undocumented behaviour, the interrupt and reset lifecycle, and
//! per-boundary trace records.

pub mod alu;
pub mod arith;
pub mod blocks;
pub mod control;
pub mod cpu;
pub mod dispatch;
pub mod flags;
pub mod fuse;
pub mod fuse_run;
pub mod index;
pub mod index_dispatch;
pub mod io;
pub mod json;
pub mod laws;
pub mod loads;
pub mod rotate;
pub mod semantics;
pub mod machine;
pub mod state;
pub mod tap;
pub mod text;
pub mod trace;
pub mod vectors;
pub mod z80test;

pub use crate::flags::Flags;
pub use crate::machine::{Bus, Fault, PortAccess, Z80};
pub use crate::state::CpuState;
