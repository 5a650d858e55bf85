use vstd::prelude::*;
use crate::cart::Cartridge;
use crate::mbc::MBC;

verus! {

/// The largest RAM size code that gets RAM: `0x800 << 20` bytes, the largest
/// power of two below 4 GiB, which a 32-bit size can hold.  Larger codes ask for 4 GiB
/// or more.
pub const MAX_RAM_CODE: u8 = 20;

/// The RAM size codes that `new` takes: those up to `MAX_RAM_CODE`, and
/// those from 53 to 63, for which the 64-bit shift drops every bit.
pub open spec fn ram_code_supported(code: u8) -> bool {
    code <= MAX_RAM_CODE || 53 <= code <= 63
}

/// The index into banked RAM that an address of `0xa000 ..= 0xbfff` selects.
pub open spec fn ram_index(ram_bank: u8, address: u16) -> int {
    0x1000 * ram_bank + (address - 0xa000)
}

/// The index into the ROM image that an address of `0x4000 ..= 0x7fff` selects.
pub open spec fn rom_index(rom_bank: usize, address: u16) -> int {
    0x4000 * rom_bank + (address - 0x4000)
}

/// The low five bits of a bank number written to `0x2000 ..= 0x3fff`; bank 0
/// selects bank 1.
pub open spec fn low_bank(value: u8) -> usize {
    if value & 0x1f == 0 {
        1
    } else {
        (value & 0x1f) as usize
    }
}

/// The MBC1 controller: up to 128 ROM banks and four RAM banks.
pub struct MBC1 {
    pub cart: Cartridge,
    pub rom_bank: usize,
    pub rom_ram_mode: u8,
    pub ram_enabled: bool,
    pub ram_bank: u8,
    pub ram: Vec<u8>,
}

impl MBC1 {
    /// Sets up the controller with as much RAM as the header's RAM size code
    /// asks: `0x800 << code` bytes, where a code of 53 or more shifts every bit
    /// of a 64-bit size out and leaves no RAM.
    pub fn new(cart: Cartridge) -> (r: Self)
        requires
            ram_code_supported(cart.ram_size),
        ensures
            r.wf(),
            r.cart == cart,
            r.rom_bank == 1,
            r.rom_ram_mode == 0,
            !r.ram_enabled,
            r.ram_bank == 0,
            r.ram@.len() == (if cart.ram_size == 0 || cart.ram_size > MAX_RAM_CODE {
                0
            } else {
                0x800usize << cart.ram_size
            }),
            forall|i: int| 0 <= i < r.ram@.len() ==> r.ram@[i] == 0,
    {
        let ram_size: usize = match cart.ram_size() {
            0 => 0,
            s if s > MAX_RAM_CODE => 0,
            s => {
                assert(s <= MAX_RAM_CODE ==> (0x800usize << s) <= 0x8000_0000) by (bit_vector);
                0x800usize << s
            },
        };
        Self {
            cart,
            rom_bank: 1,
            rom_ram_mode: 0,
            ram_enabled: false,
            ram_bank: 0,
            ram: vec![0; ram_size],
        }
    }
}

impl MBC for MBC1 {
    open spec fn wf(&self) -> bool {
        &&& self.rom_bank <= 0x7f
        &&& self.ram_bank <= 3
    }

    open spec fn readable(&self, address: u16) -> bool {
        if address <= 0x3fff {
            address < self.cart.data@.len()
        } else if address <= 0x7fff {
            rom_index(self.rom_bank, address) < self.cart.data@.len()
        } else if 0xa000 <= address <= 0xbfff {
            self.ram_enabled ==> ram_index(self.ram_bank, address) < self.ram@.len()
        } else {
            false
        }
    }

    open spec fn read_spec(&self, address: u16) -> u8 {
        if address <= 0x3fff {
            self.cart.data@[address as int]
        } else if address <= 0x7fff {
            self.cart.data@[rom_index(self.rom_bank, address)]
        } else if self.ram_enabled {
            self.ram@[ram_index(self.ram_bank, address)]
        } else {
            0
        }
    }

    open spec fn writable(&self, address: u16) -> bool {
        address <= 0x7fff || (0xa000 <= address <= 0xbfff && (self.ram_enabled ==> ram_index(
            self.ram_bank,
            address,
        ) < self.ram@.len()))
    }

    open spec fn write_post(self, post: Self, address: u16, value: u8) -> bool {
        if address <= 0x1fff {
            post == MBC1 { ram_enabled: (value & 0x0f) == 0x0a, ..self }
        } else if address <= 0x3fff {
            post == MBC1 { rom_bank: (self.rom_bank & 0xe0) | low_bank(value), ..self }
        } else if address <= 0x5fff {
            if self.rom_ram_mode == 0x01 {
                post == MBC1 { ram_bank: value & 0x03, ..self }
            } else {
                post == MBC1 {
                    rom_bank: (self.rom_bank & 0xcf) | (((value & 0x03) as usize) << 4usize),
                    ..self
                }
            }
        } else if address <= 0x7fff {
            if value & 0x01 == 0 {
                post == MBC1 { rom_ram_mode: 0, ram_bank: 0, ..self }
            } else {
                post == MBC1 { rom_ram_mode: 1, rom_bank: self.rom_bank & 0x1f, ..self }
            }
        } else if self.ram_enabled {
            &&& post.ram@ == self.ram@.update(ram_index(self.ram_bank, address), value)
            &&& post == MBC1 { ram: post.ram, ..self }
        } else {
            post == self
        }
    }

    fn can_read(&self, address: u16) -> (r: bool) {
        if address <= 0x3fff {
            (address as usize) < self.cart.data.len()
        } else if address <= 0x7fff {
            0x4000 * self.rom_bank + (address as usize - 0x4000) < self.cart.data.len()
        } else if 0xa000 <= address && address <= 0xbfff {
            !self.ram_enabled || 0x1000 * (self.ram_bank as usize) + (address as usize - 0xa000)
                < self.ram.len()
        } else {
            false
        }
    }

    fn can_write(&self, address: u16) -> (r: bool) {
        address <= 0x7fff || (0xa000 <= address && address <= 0xbfff && (!self.ram_enabled || 0x1000
            * (self.ram_bank as usize) + (address as usize - 0xa000) < self.ram.len()))
    }

    fn read(&self, address: u16) -> (r: u8) {
        match address {
            0x0000..=0x3fff => self.cart.data[address as usize],
            0x4000..=0x7fff => {
                let address = (0x4000 * (self.rom_bank)) + (address as usize - 0x4000);
                self.cart.data[address]
            },
            _ => {
                if self.ram_enabled {
                    let address = (0x1000 * self.ram_bank as u16) + (address - 0xa000);
                    self.ram[address as usize]
                } else {
                    0
                }
            },
        }
    }

    fn write(&mut self, address: u16, value: u8) {
        match address {
            0x0000..=0x1fff => {
                self.ram_enabled = (value & 0x0f) == 0x0a;
            },
            0x2000..=0x3fff => {
                let mut bank = value & 0x1f;
                proof {
                    crate::bytes::lemma_masks(value);
                }
                bank = match bank {
                    0x00 | 0x20 | 0x40 | 0x60 => bank + 0x01,
                    _ => bank,
                };
                let b = self.rom_bank;
                let v = bank as usize;
                assert(v <= 0x1f ==> v & 0x1f == v && (b <= 0x7f ==> (b & 0xe0) | v <= 0x7f))
                    by (bit_vector);
                assert(v == low_bank(value));
                self.rom_bank = (self.rom_bank & 0xe0) | (bank as usize & 0x1f)
            },
            0x4000..=0x5fff => {
                if self.rom_ram_mode == 0x01 {
                    proof {
                        crate::bytes::lemma_masks(value);
                    }
                    self.ram_bank = value & 0x03;
                } else {
                    let b = self.rom_bank;
                    let v = value as usize;
                    assert((b <= 0x7f ==> (b & 0xcf) | ((v & 0x03) << 4usize) <= 0x7f) && ((value
                        & 0x03) as usize) == v & 0x03) by (bit_vector)
                        requires
                            v == value as usize,
                    ;
                    self.rom_bank = (self.rom_bank & 0xcf) | ((value as usize & 0x03) << 4usize);
                }
            },
            0x6000..=0x7fff => {
                proof {
                    crate::bytes::lemma_masks(value);
                }
                self.rom_ram_mode = value & 0x01;
                if self.rom_ram_mode == 0x00 {
                    self.ram_bank = 0;
                } else {
                    let b = self.rom_bank;
                    assert(b & 0x1f <= 0x7f) by (bit_vector);
                    self.rom_bank &= 0x1f;
                }
            },
            _ => {
                if self.ram_enabled {
                    let address = (0x1000 * self.ram_bank as u16) + (address - 0xa000);
                    self.ram.set(address as usize, value);
                }
            },
        }
    }
}

/// A write to `0x2000 ..= 0x3fff` selects the low five bits of the ROM
/// bank: they become the value's low five bits, or 1 where those are 0,
/// and the upper bank bits stay.  A read of `0x4000 + offset` then gives
/// byte `offset` of that bank of the ROM image.
pub proof fn lemma_rom_bank_select(m: MBC1, post: MBC1, address: u16, value: u8, offset: u16)
    requires
        m.wf(),
        0x2000 <= address <= 0x3fff,
        m.write_post(post, address, value),
        offset < 0x4000,
    ensures
        post.wf(),
        post.rom_bank % 32 == (if value % 32 == 0 {
            1
        } else {
            value % 32
        }),
        post.rom_bank / 32 == m.rom_bank / 32,
        post.cart == m.cart,
        post.readable((0x4000 + offset) as u16) <==> 0x4000 * post.rom_bank + offset
            < post.cart.data@.len(),
        post.read_spec((0x4000 + offset) as u16) == post.cart.data@[0x4000 * post.rom_bank
            + offset],
{
    let b = m.rom_bank;
    let lb = low_bank(value);
    assert(value & 0x1f == value % 32) by (bit_vector);
    assert(1 <= lb <= 31);
    assert(((b & 0xe0) | lb) % 32 == lb && ((b & 0xe0) | lb) / 32 == b / 32 && ((b & 0xe0) | lb)
        <= 0x7f) by (bit_vector)
        requires
            b <= 0x7f,
            1 <= lb <= 31,
    ;
}

/// A byte written to enabled cartridge RAM is what a read of the same
/// address then gives.
pub proof fn lemma_ram_write_read(m: MBC1, post: MBC1, address: u16, value: u8)
    requires
        m.wf(),
        m.ram_enabled,
        0xa000 <= address <= 0xbfff,
        m.writable(address),
        m.write_post(post, address, value),
    ensures
        post.readable(address),
        post.read_spec(address) == value,
{
}

} // verus!
