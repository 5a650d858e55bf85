use vstd::prelude::*;
use crate::cart::Cartridge;
use crate::mbc::MBC;
use crate::mbc::mbc1::{ram_index, rom_index};

verus! {

/// The largest RAM size code that gets RAM: `0x1000 << 19` bytes, the largest
/// power of two below 4 GiB, which a 32-bit size can hold.  Larger codes ask for 4 GiB
/// or more.
pub const MAX_RAM_CODE: u8 = 19;

/// The RAM size codes that `new` takes: those up to `MAX_RAM_CODE`, and
/// those from 52 to 63, for which the 64-bit shift drops every bit.
pub open spec fn ram_code_supported(code: u8) -> bool {
    code <= MAX_RAM_CODE || 52 <= code <= 63
}

/// The MBC3 controller: up to 128 ROM banks, four RAM banks and the five
/// clock registers, which are selected through the RAM bank register.
pub struct MBC3 {
    pub cart: Cartridge,
    pub rom_bank: usize,
    pub ram_enabled: bool,
    pub ram_bank: u8,
    pub ram: Vec<u8>,
    pub rtc: [u8; 5],
}

impl MBC3 {
    /// Sets up the controller with as much RAM as the header's RAM size code
    /// asks: `0x1000 << code` bytes, where a code of 52 or more shifts every bit
    /// of a 64-bit size out and leaves no RAM.
    pub fn new(cart: Cartridge) -> (r: Self)
        requires
            ram_code_supported(cart.ram_size),
        ensures
            r.wf(),
            r.cart == cart,
            r.rom_bank == 1,
            !r.ram_enabled,
            r.ram_bank == 0,
            r.ram@.len() == (if cart.ram_size == 0 || cart.ram_size > MAX_RAM_CODE {
                0
            } else {
                0x1000usize << cart.ram_size
            }),
            forall|i: int| 0 <= i < r.ram@.len() ==> r.ram@[i] == 0,
            forall|i: int| 0 <= i < 5 ==> r.rtc@[i] == 0,
    {
        let ram_size: usize = match cart.ram_size() {
            0 => 0,
            s if s > MAX_RAM_CODE => 0,
            s => {
                assert(s <= MAX_RAM_CODE ==> (0x1000usize << s) <= 0x8000_0000) by (bit_vector);
                0x1000usize << s
            },
        };
        Self {
            cart,
            rom_bank: 1,
            ram_enabled: false,
            ram_bank: 0,
            ram: vec![0; ram_size],
            rtc: [0; 5],
        }
    }
}

impl MBC for MBC3 {
    open spec fn wf(&self) -> bool {
        &&& self.rom_bank <= 0x7f
        &&& self.ram_bank <= 0x0f
    }

    open spec fn readable(&self, address: u16) -> bool {
        if address <= 0x3fff {
            address < self.cart.data@.len()
        } else if address <= 0x7fff {
            rom_index(self.rom_bank, address) < self.cart.data@.len()
        } else if 0xa000 <= address <= 0xbfff {
            self.ram_enabled ==> if self.ram_bank <= 0x03 {
                ram_index(self.ram_bank, address) < self.ram@.len()
            } else {
                0x08 <= self.ram_bank <= 0x0c
            }
        } else {
            false
        }
    }

    open spec fn read_spec(&self, address: u16) -> u8 {
        if address <= 0x3fff {
            self.cart.data@[address as int]
        } else if address <= 0x7fff {
            self.cart.data@[rom_index(self.rom_bank, address)]
        } else if !self.ram_enabled {
            0
        } else if self.ram_bank <= 0x03 {
            self.ram@[ram_index(self.ram_bank, address)]
        } else {
            self.rtc@[self.ram_bank - 0x08]
        }
    }

    open spec fn writable(&self, address: u16) -> bool {
        address <= 0x7fff || (0xa000 <= address <= 0xbfff && (self.ram_enabled && self.ram_bank
            <= 0x03 ==> ram_index(self.ram_bank, address) < self.ram@.len()))
    }

    open spec fn write_post(self, post: Self, address: u16, value: u8) -> bool {
        if address <= 0x1fff {
            post == MBC3 { ram_enabled: (value & 0x0f) == 0x0a, ..self }
        } else if address <= 0x3fff {
            post == MBC3 { rom_bank: (self.rom_bank & 0x80) | ((value & 0x7f) as usize), ..self }
        } else if address <= 0x5fff {
            post == MBC3 { ram_bank: value & 0x0f, ..self }
        } else if address <= 0x7fff {
            post == self
        } else if self.ram_enabled && self.ram_bank <= 0x03 {
            &&& post.ram@ == self.ram@.update(ram_index(self.ram_bank, address), value)
            &&& post == MBC3 { ram: post.ram, ..self }
        } else if self.ram_enabled && 0x08 <= self.ram_bank <= 0x0c {
            &&& post.rtc@ == self.rtc@.update(self.ram_bank - 0x08, value)
            &&& post == MBC3 { rtc: post.rtc, ..self }
        } else {
            post == self
        }
    }

    fn can_read(&self, address: u16) -> (r: bool) {
        if address <= 0x3fff {
            (address as usize) < self.cart.data.len()
        } else if address <= 0x7fff {
            0x4000 * self.rom_bank + (address as usize - 0x4000) < self.cart.data.len()
        } else if 0xa000 <= address && address <= 0xbfff {
            !self.ram_enabled || if self.ram_bank <= 0x03 {
                0x1000 * (self.ram_bank as usize) + (address as usize - 0xa000) < self.ram.len()
            } else {
                0x08 <= self.ram_bank && self.ram_bank <= 0x0c
            }
        } else {
            false
        }
    }

    fn can_write(&self, address: u16) -> (r: bool) {
        address <= 0x7fff || (0xa000 <= address && address <= 0xbfff && (!(self.ram_enabled
            && self.ram_bank <= 0x03) || 0x1000 * (self.ram_bank as usize) + (address as usize
            - 0xa000) < self.ram.len()))
    }

    fn read(&self, address: u16) -> (r: u8) {
        match address {
            0x0000..=0x3fff => self.cart.data[address as usize],
            0x4000..=0x7fff => {
                let address = (0x4000 * (self.rom_bank)) + (address as usize - 0x4000);
                self.cart.data[address]
            },
            _ => {
                if self.ram_enabled {
                    match self.ram_bank {
                        0x00..=0x03 => {
                            let address = (0x1000 * self.ram_bank as u16) + (address - 0xa000);
                            self.ram[address as usize]
                        },
                        _ => self.rtc[self.ram_bank as usize - 0x08],
                    }
                } else {
                    0
                }
            },
        }
    }

    fn write(&mut self, address: u16, value: u8) {
        match address {
            0x0000..=0x1fff => self.ram_enabled = (value & 0x0f) == 0x0a,
            0x2000..=0x3fff => {
                let b = self.rom_bank;
                let v = value as usize;
                assert((b <= 0x7f ==> (b & 0x80) | (v & 0x7f) <= 0x7f) && ((value & 0x7f) as usize) == v
                    & 0x7f) by (bit_vector)
                    requires
                        v == value as usize,
                ;
                self.rom_bank = (self.rom_bank & 0x80) | (value as usize & 0x7f)
            },
            0x4000..=0x5fff => {
                proof {
                    crate::bytes::lemma_masks(value);
                }
                self.ram_bank = value & 0x0f
            },
            0x6000..=0x7fff => {},
            _ => {
                if self.ram_enabled {
                    match self.ram_bank {
                        0x00..=0x03 => {
                            let address = (0x1000 * self.ram_bank as u16) + (address - 0xa000);
                            self.ram.set(address as usize, value);
                        },
                        0x08..=0x0c => self.rtc[self.ram_bank as usize - 0x08] = value,
                        _ => {},
                    }
                }
            },
        }
    }
}

/// A write to `0x2000 ..= 0x3fff` selects ROM bank `value % 128` for
/// `0x4000 ..= 0x7fff`; a read of `0x4000 + offset` then gives byte
/// `offset` of that bank of the ROM image.
pub proof fn lemma_rom_bank_select(m: MBC3, post: MBC3, address: u16, value: u8, offset: u16)
    requires
        m.wf(),
        0x2000 <= address <= 0x3fff,
        m.write_post(post, address, value),
        offset < 0x4000,
    ensures
        post.wf(),
        post.rom_bank == value % 128,
        post.cart == m.cart,
        post.read_spec((0x4000 + offset) as u16) == post.cart.data@[0x4000 * (value % 128)
            + offset],
{
    crate::bytes::lemma_bank_bits(m.rom_bank, 0, value);
    assert(((value & 0x7f) as usize) == (value as usize) & 0x7f) by {
        crate::bytes::lemma_masks(value);
    }
}

/// A byte written to enabled cartridge RAM, or to a selected clock
/// register, is what a read of the same address then gives.
pub proof fn lemma_ram_write_read(m: MBC3, post: MBC3, address: u16, value: u8)
    requires
        m.wf(),
        m.ram_enabled,
        0xa000 <= address <= 0xbfff,
        m.readable(address),
        m.write_post(post, address, value),
    ensures
        post.readable(address),
        post.read_spec(address) == value,
{
}

} // verus!
