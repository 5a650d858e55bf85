use vstd::prelude::*;
use crate::cart::Cartridge;
use crate::mbc::MBC;

verus! {

/// The size of the MBC2's built-in RAM, in half-bytes kept one per byte.
pub const MBC2_RAM_SIZE: usize = 512;

/// The MBC2 controller: up to 16 ROM banks and 512 four-bit RAM cells.
pub struct MBC2 {
    pub cart: Cartridge,
    pub rom_bank: usize,
    pub ram_enabled: bool,
    pub ram: Vec<u8>,
}

/// The ROM bank that a write to `0x2000 ..= 0x3fff` selects.
pub open spec fn mbc2_bank(rom_bank: usize, address: u16, value: u8) -> usize {
    (if address & 0x0100 == 0 {
        rom_bank
    } else if value & 0x0f == 0 {
        1
    } else {
        (value & 0x0f) as usize
    }) & 0x0f
}

impl MBC2 {
    /// Sets up the controller with its RAM cleared.
    pub fn new(cart: Cartridge) -> (r: Self)
        ensures
            r.wf(),
            r.cart == cart,
            r.rom_bank == 1,
            !r.ram_enabled,
            forall|i: int| 0 <= i < r.ram@.len() ==> r.ram@[i] == 0,
    {
        Self { cart, rom_bank: 1, ram_enabled: false, ram: vec![0; MBC2_RAM_SIZE] }
    }
}

impl MBC for MBC2 {
    open spec fn wf(&self) -> bool {
        &&& self.rom_bank <= 0x0f
        &&& self.ram@.len() == MBC2_RAM_SIZE
    }

    open spec fn readable(&self, address: u16) -> bool {
        if address <= 0x3fff {
            address < self.cart.data@.len()
        } else if address <= 0x7fff {
            0x4000 * self.rom_bank + (address - 0x4000) < self.cart.data@.len()
        } else if 0xa000 <= address <= 0xa1ff {
            self.ram_enabled ==> address < self.ram@.len()
        } else {
            false
        }
    }

    open spec fn read_spec(&self, address: u16) -> u8 {
        if address <= 0x3fff {
            self.cart.data@[address as int]
        } else if address <= 0x7fff {
            self.cart.data@[0x4000 * self.rom_bank + (address - 0x4000)]
        } else if self.ram_enabled {
            self.ram@[address as int] & 0x0f
        } else {
            0
        }
    }

    open spec fn writable(&self, address: u16) -> bool {
        address <= 0x3fff || 0xa000 <= address <= 0xa1ff
    }

    open spec fn write_post(self, post: Self, address: u16, value: u8) -> bool {
        if address <= 0x1fff {
            post == MBC2 {
                ram_enabled: if address & 0x0100 == 0 {
                    !self.ram_enabled
                } else {
                    self.ram_enabled
                },
                ..self
            }
        } else if address <= 0x3fff {
            post == MBC2 { rom_bank: mbc2_bank(self.rom_bank, address, value), ..self }
        } else if self.ram_enabled {
            &&& post.ram@ == self.ram@.update(address - 0xa000, value & 0x0f)
            &&& post == MBC2 { ram: post.ram, ..self }
        } else {
            post == self
        }
    }

    fn can_read(&self, address: u16) -> (r: bool) {
        if address <= 0x3fff {
            (address as usize) < self.cart.data.len()
        } else if address <= 0x7fff {
            0x4000 * self.rom_bank + (address as usize - 0x4000) < self.cart.data.len()
        } else if 0xa000 <= address && address <= 0xa1ff {
            !self.ram_enabled || (address as usize) < self.ram.len()
        } else {
            false
        }
    }

    fn can_write(&self, address: u16) -> (r: bool) {
        address <= 0x3fff || (0xa000 <= address && address <= 0xa1ff)
    }

    fn read(&self, address: u16) -> (r: u8) {
        match address {
            0x0000..=0x3fff => self.cart.data[address as usize],
            0x4000..=0x7fff => {
                let address = (0x4000 * (self.rom_bank)) + (address as usize - 0x4000);
                self.cart.data[address]
            },
            _ => {
                if self.ram_enabled {
                    self.ram[address as usize] & 0x0f
                } else {
                    0
                }
            },
        }
    }

    fn write(&mut self, address: u16, value: u8) {
        match address {
            0x0000..=0x1fff => {
                if address & 0x0100 == 0 {
                    self.ram_enabled = !self.ram_enabled;
                }
            },
            0x2000..=0x3fff => {
                let v = value as usize;
                assert((v & 0x0f) == ((value & 0x0f) as usize) && (v & 0x0f) <= 0x0f)
                    by (bit_vector)
                    requires
                        v == value as usize,
                ;
                let b = if address & 0x0100 == 0 {
                    self.rom_bank
                } else {
                    let value = value as usize & 0x0f;
                    match value {
                        0x00 | 0x20 | 0x40 | 0x60 => value + 0x01,
                        _ => value,
                    }
                };
                assert(b == (if address & 0x0100 == 0 {
                    self.rom_bank
                } else if value & 0x0f == 0 {
                    1
                } else {
                    (value & 0x0f) as usize
                }));
                assert(b & 0x0f <= 0x0f) by (bit_vector);
                self.rom_bank = b & 0x0f;
            },
            _ => {
                if self.ram_enabled {
                    let address = address - 0xa000;
                    self.ram.set(address as usize, value & 0x0f);
                }
            },
        }
    }
}

/// A write to `0x2000 ..= 0x3fff` with address bit 8 set selects ROM bank
/// `value % 16` (bank 1 for 0) for `0x4000 ..= 0x7fff`; with bit 8 clear it
/// leaves the bank.  A read of `0x4000 + offset` then gives byte `offset`
/// of the selected bank of the ROM image.
pub proof fn lemma_rom_bank_select(m: MBC2, post: MBC2, address: u16, value: u8, offset: u16)
    requires
        m.wf(),
        0x2000 <= address <= 0x3fff,
        m.write_post(post, address, value),
        offset < 0x4000,
    ensures
        post.wf(),
        address & 0x0100 != 0 ==> post.rom_bank == (if value % 16 == 0 {
            1
        } else {
            value % 16
        }),
        address & 0x0100 == 0 ==> post.rom_bank == m.rom_bank,
        post.cart == m.cart,
        post.read_spec((0x4000 + offset) as u16) == post.cart.data@[0x4000 * post.rom_bank + offset],
{
    let n: usize = if value % 16 == 0 { 1 } else { (value % 16) as usize };
    crate::bytes::lemma_bank_bits(0, m.rom_bank, value);
    crate::bytes::lemma_bank_bits(0, n, value);
    assert(value & 0x0f == value % 16) by {
        crate::bytes::lemma_byte_arith(value);
    }
}

} // verus!
