use vstd::prelude::*;

pub mod boot;
pub mod mbc1;
pub mod mbc2;
pub mod mbc3;
pub mod rom_only;

pub use boot::Boot;
pub use mbc1::MBC1;
pub use mbc2::MBC2;
pub use mbc3::MBC3;
pub use rom_only::RomOnly;

verus! {

/// What the cartridge slot answers to reads and writes of the address space
/// `0x0000 ..= 0xbfff`.
pub trait MBC: Sized {
    /// What holds of every state that a controller can reach.
    spec fn wf(&self) -> bool;

    /// Whether a read of the address is answered (it is refused otherwise).
    spec fn readable(&self, address: u16) -> bool;

    /// What a read of the address gives.
    spec fn read_spec(&self, address: u16) -> u8;

    /// Whether a write to the address is accepted (it is refused otherwise).
    spec fn writable(&self, address: u16) -> bool;

    /// How a write of `value` at `address` takes the controller to `post`.
    spec fn write_post(self, post: Self, address: u16, value: u8) -> bool;

    /// Whether a read of the address is answered.
    fn can_read(&self, address: u16) -> (r: bool)
        requires
            self.wf(),
        ensures
            r == self.readable(address),
    ;

    /// Whether a write to the address is accepted.
    fn can_write(&self, address: u16) -> (r: bool)
        requires
            self.wf(),
        ensures
            r == self.writable(address),
    ;

    fn read(&self, address: u16) -> (r: u8)
        requires
            self.wf(),
            self.readable(address),
        ensures
            r == self.read_spec(address),
    ;

    fn write(&mut self, address: u16, value: u8)
        requires
            old(self).wf(),
            old(self).writable(address),
        ensures
            final(self).wf(),
            old(self).write_post(*final(self), address, value),
    ;
}

/// A cartridge with its memory bank controller.
pub enum Mapper {
    RomOnly(RomOnly),
    MBC1(MBC1),
    MBC2(MBC2),
    MBC3(MBC3),
}

impl Mapper {
    /// The cartridge behind the controller.
    pub open spec fn cart(self) -> crate::cart::Cartridge {
        match self {
            Mapper::RomOnly(m) => m.cart,
            Mapper::MBC1(m) => m.cart,
            Mapper::MBC2(m) => m.cart,
            Mapper::MBC3(m) => m.cart,
        }
    }
}

impl MBC for Mapper {
    open spec fn wf(&self) -> bool {
        match self {
            Mapper::RomOnly(m) => m.wf(),
            Mapper::MBC1(m) => m.wf(),
            Mapper::MBC2(m) => m.wf(),
            Mapper::MBC3(m) => m.wf(),
        }
    }

    open spec fn readable(&self, address: u16) -> bool {
        match self {
            Mapper::RomOnly(m) => m.readable(address),
            Mapper::MBC1(m) => m.readable(address),
            Mapper::MBC2(m) => m.readable(address),
            Mapper::MBC3(m) => m.readable(address),
        }
    }

    open spec fn read_spec(&self, address: u16) -> u8 {
        match self {
            Mapper::RomOnly(m) => m.read_spec(address),
            Mapper::MBC1(m) => m.read_spec(address),
            Mapper::MBC2(m) => m.read_spec(address),
            Mapper::MBC3(m) => m.read_spec(address),
        }
    }

    open spec fn writable(&self, address: u16) -> bool {
        match self {
            Mapper::RomOnly(m) => m.writable(address),
            Mapper::MBC1(m) => m.writable(address),
            Mapper::MBC2(m) => m.writable(address),
            Mapper::MBC3(m) => m.writable(address),
        }
    }

    open spec fn write_post(self, post: Self, address: u16, value: u8) -> bool {
        match (self, post) {
            (Mapper::RomOnly(m), Mapper::RomOnly(p)) => m.write_post(p, address, value),
            (Mapper::MBC1(m), Mapper::MBC1(p)) => m.write_post(p, address, value),
            (Mapper::MBC2(m), Mapper::MBC2(p)) => m.write_post(p, address, value),
            (Mapper::MBC3(m), Mapper::MBC3(p)) => m.write_post(p, address, value),
            _ => false,
        }
    }

    fn can_read(&self, address: u16) -> (r: bool) {
        match self {
            Mapper::RomOnly(m) => m.can_read(address),
            Mapper::MBC1(m) => m.can_read(address),
            Mapper::MBC2(m) => m.can_read(address),
            Mapper::MBC3(m) => m.can_read(address),
        }
    }

    fn can_write(&self, address: u16) -> (r: bool) {
        match self {
            Mapper::RomOnly(m) => m.can_write(address),
            Mapper::MBC1(m) => m.can_write(address),
            Mapper::MBC2(m) => m.can_write(address),
            Mapper::MBC3(m) => m.can_write(address),
        }
    }

    fn read(&self, address: u16) -> (r: u8) {
        match self {
            Mapper::RomOnly(m) => m.read(address),
            Mapper::MBC1(m) => m.read(address),
            Mapper::MBC2(m) => m.read(address),
            Mapper::MBC3(m) => m.read(address),
        }
    }

    fn write(&mut self, address: u16, value: u8) {
        match self {
            Mapper::RomOnly(m) => m.write(address, value),
            Mapper::MBC1(m) => m.write(address, value),
            Mapper::MBC2(m) => m.write(address, value),
            Mapper::MBC3(m) => m.write(address, value),
        }
    }
}

} // verus!
