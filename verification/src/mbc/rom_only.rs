use vstd::prelude::*;
use crate::cart::Cartridge;
use crate::mbc::MBC;

verus! {

/// A cartridge without a bank controller: the ROM image is mapped as it is
/// and writes are ignored.
pub struct RomOnly {
    pub cart: Cartridge,
}

impl RomOnly {
    pub fn new(cart: Cartridge) -> (r: Self)
        ensures
            r.cart == cart,
    {
        Self { cart }
    }
}

impl MBC for RomOnly {
    open spec fn wf(&self) -> bool {
        true
    }

    open spec fn readable(&self, address: u16) -> bool {
        address < self.cart.data@.len()
    }

    open spec fn read_spec(&self, address: u16) -> u8 {
        self.cart.data@[address as int]
    }

    open spec fn writable(&self, address: u16) -> bool {
        true
    }

    open spec fn write_post(self, post: Self, address: u16, value: u8) -> bool {
        post == self
    }

    fn can_read(&self, address: u16) -> (r: bool) {
        (address as usize) < self.cart.data.len()
    }

    fn can_write(&self, address: u16) -> (r: bool) {
        true
    }

    fn read(&self, address: u16) -> (r: u8) {
        self.cart.data[address as usize]
    }

    fn write(&mut self, _address: u16, _value: u8) {
    }
}

} // verus!
