use vstd::prelude::*;

pub mod bytes;
pub mod cart;
pub mod cpu;
pub mod instructions;
pub mod joypad;
pub mod lcd;
pub mod mbc;
pub mod memory;
pub mod render;
pub mod timer;

verus! {
} // verus!
