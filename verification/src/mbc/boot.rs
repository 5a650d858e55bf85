use vstd::prelude::*;
use crate::mbc::{MBC, Mapper};

verus! {

/// The boot ROM mapped over the start of the cartridge; the cartridge header
/// at `0x100 ..= 0x14f` still shows through.
pub struct Boot {
    pub rom: Vec<u8>,
    pub mbc: Option<Box<Mapper>>,
}

impl Boot {
    pub fn with_data(data: &[u8]) -> (r: Self)
        ensures
            r.rom@ == data@,
            r.mbc is None,
    {
        Self { rom: vstd::slice::slice_to_vec(data), mbc: None }
    }

    pub fn with_mbc(data: &[u8], mbc: Box<Mapper>) -> (r: Self)
        ensures
            r.rom@ == data@,
            r.mbc == Some(mbc),
    {
        Self { rom: vstd::slice::slice_to_vec(data), mbc: Some(mbc) }
    }

    /// The cartridge under the boot ROM.
    pub fn mbc(self) -> (r: Box<Mapper>)
        requires
            self.mbc is Some,
        ensures
            Some(r) == self.mbc,
    {
        self.mbc.unwrap()
    }
}

/// Whether an address shows the cartridge header through the boot ROM.
pub open spec fn in_header(address: u16) -> bool {
    0x100 <= address <= 0x014f
}

impl MBC for Boot {
    open spec fn wf(&self) -> bool {
        self.mbc matches Some(m) ==> m.wf()
    }

    open spec fn readable(&self, address: u16) -> bool {
        if in_header(address) {
            self.mbc matches Some(m) && m.readable(address)
        } else {
            address < self.rom@.len()
        }
    }

    open spec fn read_spec(&self, address: u16) -> u8 {
        if in_header(address) {
            self.mbc->Some_0.read_spec(address)
        } else {
            self.rom@[address as int]
        }
    }

    open spec fn writable(&self, address: u16) -> bool {
        true
    }

    open spec fn write_post(self, post: Self, address: u16, value: u8) -> bool {
        post == self
    }

    fn can_read(&self, address: u16) -> (r: bool) {
        if address >= 0x100 && address <= 0x014f {
            match &self.mbc {
                Some(m) => m.can_read(address),
                None => false,
            }
        } else {
            (address as usize) < self.rom.len()
        }
    }

    fn can_write(&self, address: u16) -> (r: bool) {
        true
    }

    fn read(&self, address: u16) -> (r: u8) {
        if address >= 0x100 && address <= 0x014f {
            match &self.mbc {
                Some(m) => m.read(address),
                None => 0,
            }
        } else {
            self.rom[address as usize]
        }
    }

    fn write(&mut self, _address: u16, _value: u8) {
    }
}

} // verus!
