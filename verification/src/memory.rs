use vstd::prelude::*;
use crate::cart::{Cartridge, Controller};
use crate::mbc::{self, Boot, MBC, Mapper};

verus! {

/// What answers the cartridge part of the address space: nothing yet, the
/// boot ROM (over a cartridge or over nothing), or a cartridge.
pub enum State {
    Empty,
    Boot(Boot),
    MBC(Box<Mapper>),
}

impl MBC for State {
    open spec fn wf(&self) -> bool {
        match self {
            State::Empty => true,
            State::Boot(b) => b.wf(),
            State::MBC(m) => m.wf(),
        }
    }

    open spec fn readable(&self, address: u16) -> bool {
        match self {
            State::Empty => false,
            State::Boot(b) => b.readable(address),
            State::MBC(m) => m.readable(address),
        }
    }

    open spec fn read_spec(&self, address: u16) -> u8 {
        match self {
            State::Empty => 0,
            State::Boot(b) => b.read_spec(address),
            State::MBC(m) => m.read_spec(address),
        }
    }

    open spec fn writable(&self, address: u16) -> bool {
        match self {
            State::Empty => false,
            State::Boot(b) => b.writable(address),
            State::MBC(m) => m.writable(address),
        }
    }

    open spec fn write_post(self, post: Self, address: u16, value: u8) -> bool {
        match (self, post) {
            (State::Boot(b), State::Boot(p)) => b.write_post(p, address, value),
            (State::MBC(m), State::MBC(p)) => (*m).write_post(*p, address, value),
            _ => false,
        }
    }

    fn can_read(&self, address: u16) -> (r: bool) {
        match self {
            State::MBC(m) => m.can_read(address),
            State::Boot(b) => b.can_read(address),
            State::Empty => false,
        }
    }

    fn can_write(&self, address: u16) -> (r: bool) {
        match self {
            State::MBC(m) => m.can_write(address),
            State::Boot(b) => b.can_write(address),
            State::Empty => false,
        }
    }

    fn read(&self, address: u16) -> (r: u8) {
        match self {
            State::MBC(m) => m.read(address),
            State::Boot(b) => b.read(address),
            State::Empty => {
                proof {
                    assert(false);
                }
                0
            },
        }
    }

    fn write(&mut self, address: u16, value: u8) {
        match self {
            State::MBC(m) => m.write(address, value),
            State::Boot(b) => b.write(address, value),
            State::Empty => {
                proof {
                    assert(false);
                }
            },
        }
    }
}

/// The address that an echo-RAM address mirrors.
pub open spec fn unecho(address: u16) -> u16 {
    if 0xe000 <= address <= 0xfdff {
        (address - 0x2000) as u16
    } else {
        address
    }
}

/// Whether the address is plain RAM of the console: work RAM, its echo,
/// and high RAM.
pub open spec fn plain_ram(address: u16) -> bool {
    (0xc000 <= address <= 0xfdff) || (0xff80 <= address <= 0xfffe)
}

/// The address space outside the video hardware and the CPU's own registers.
pub struct Memory {
    pub state: State,
    pub work_ram: Vec<u8>,
    pub high_ram: [u8; 0x7f],
    pub io: [u8; 0x80],
    pub work_ram_bank: usize,
    pub cgb_mode: bool,
}

impl Memory {
    pub open spec fn wf(&self) -> bool {
        &&& 1 <= self.work_ram_bank <= 7
        &&& self.cgb_mode ==> self.work_ram@.len() == 0x8000
        &&& !self.cgb_mode ==> self.work_ram@.len() == 0x2000 && self.work_ram_bank == 1
        &&& self.state.wf()
    }

    /// The index into work RAM that an address of `0xc000 ..= 0xdfff` selects.
    pub open spec fn wram_index(&self, address: u16) -> int {
        if address <= 0xcfff {
            address - 0xc000
        } else {
            self.work_ram_bank * 0x1000 + (address - 0xd000)
        }
    }

    /// Whether a read of the address is answered.
    pub open spec fn readable(&self, address: u16) -> bool {
        if address <= 0xbfff {
            self.state.readable(address)
        } else {
            !(0xfe00 <= address <= 0xfe9f) && address != 0xffff
        }
    }

    /// What a read of the address gives.
    pub open spec fn read_spec(&self, address: u16) -> u8 {
        if address <= 0xbfff {
            self.state.read_spec(address)
        } else if address <= 0xfdff {
            self.work_ram@[self.wram_index(unecho(address))]
        } else if 0xfea0 <= address <= 0xfeff {
            0xff
        } else if address == 0xff70 {
            if self.cgb_mode {
                self.work_ram_bank as u8
            } else {
                0xff
            }
        } else if address <= 0xff7f {
            self.io@[address - 0xff00]
        } else {
            self.high_ram@[address - 0xff80]
        }
    }

    /// Whether a write to the address is accepted.
    pub open spec fn writable(&self, address: u16) -> bool {
        if address <= 0xbfff {
            self.state.writable(address)
        } else {
            !(0xfe00 <= address <= 0xfe9f) && address != 0xffff
        }
    }

    /// How a write of `value` at `address` takes the memory to `post`.
    pub open spec fn write_post(self, post: Memory, address: u16, value: u8) -> bool {
        if address <= 0xbfff {
            &&& self.state.write_post(post.state, address, value)
            &&& post == Memory { state: post.state, ..self }
        } else if address <= 0xfdff {
            &&& post.work_ram@ == self.work_ram@.update(self.wram_index(unecho(address)), value)
            &&& post == Memory { work_ram: post.work_ram, ..self }
        } else if 0xfea0 <= address <= 0xfeff {
            post == self
        } else if address == 0xff70 {
            if self.cgb_mode {
                post == Memory {
                    work_ram_bank: if value & 0x07 == 0 {
                        1
                    } else {
                        (value & 0x07) as usize
                    },
                    ..self
                }
            } else {
                post == self
            }
        } else if address <= 0xff7f {
            &&& post.io@ == self.io@.update(address - 0xff00, value)
            &&& post == Memory { io: post.io, ..self }
        } else {
            &&& post.high_ram@ == self.high_ram@.update(address - 0xff80, value)
            &&& post == Memory { high_ram: post.high_ram, ..self }
        }
    }

    pub fn new() -> (r: Self)
        ensures
            r.wf(),
            r.state is Empty,
            r.work_ram_bank == 1,
            !r.cgb_mode,
            forall|i: int| 0 <= i < r.work_ram@.len() ==> r.work_ram@[i] == 0,
            forall|i: int| 0 <= i < 0x7f ==> r.high_ram@[i] == 0,
            forall|i: int| 0 <= i < 0x80 ==> r.io@[i] == 0,
    {
        Self {
            state: State::Empty,
            high_ram: [0;0x7f],
            io: [0;0x80],
            work_ram_bank: 1,
            work_ram: vec![0; 0x2000],
            cgb_mode: false,
        }
    }

    /// Whether `with_cartridge` can map the cartridge.
    pub open spec fn supports(cart: Cartridge) -> bool {
        &&& cart.cart_type.controller != Controller::MBC4
        &&& cart.cart_type.controller != Controller::MBC5
        &&& cart.cart_type.controller == Controller::MBC1 ==> mbc::mbc1::ram_code_supported(
            cart.ram_size,
        )
        &&& cart.cart_type.controller == Controller::MBC3 ==> mbc::mbc3::ram_code_supported(
            cart.ram_size,
        )
    }

    /// Maps a cartridge behind the controller that its header names; colour
    /// games get all eight work RAM banks.
    pub fn with_cartridge(cart: Cartridge) -> (r: Self)
        requires
            Self::supports(cart),
        ensures
            r.wf(),
            r.cgb_mode == cart.cgb,
            cart.from_header() ==> r.cgb_mode == crate::cart::cgb_flag(cart.data@),
            r.state matches State::MBC(m) && m.cart() == cart,
            forall|a: u16|
                #![trigger r.read_spec(a)]
                a <= 0x3fff && a < cart.data@.len() ==> r.readable(a) && r.read_spec(a)
                    == cart.data@[a as int],
            r.work_ram@.len() == (if cart.cgb { 0x8000int } else { 0x2000 }),
            r.work_ram_bank == 1,
            (r.state matches State::MBC(m) && match *m {
                Mapper::RomOnly(c) => cart.cart_type.controller == Controller::RomOnly && c.cart
                    == cart,
                Mapper::MBC1(c) => cart.cart_type.controller == Controller::MBC1 && c.cart == cart,
                Mapper::MBC2(c) => cart.cart_type.controller == Controller::MBC2 && c.cart == cart,
                Mapper::MBC3(c) => cart.cart_type.controller == Controller::MBC3 && c.cart == cart,
            }),
    {
        let mut mem = Self::new();
        mem.cgb_mode = cart.cgb();
        if mem.cgb_mode {
            mem.work_ram = vec![0; 0x8000];
        }
        let m = match cart.cart_type().controller {
            Controller::RomOnly => Mapper::RomOnly(mbc::RomOnly::new(cart)),
            Controller::MBC1 => Mapper::MBC1(mbc::MBC1::new(cart)),
            Controller::MBC2 => Mapper::MBC2(mbc::MBC2::new(cart)),
            _ => Mapper::MBC3(mbc::MBC3::new(cart)),
        };
        mem.state = State::MBC(Box::new(m));
        mem
    }

    /// Maps the boot ROM over what is mapped so far.
    pub fn with_bootrom(self, data: &[u8]) -> (r: Self)
        requires
            self.wf(),
            !(self.state is Boot),
        ensures
            r.wf(),
            (r.state matches State::Boot(b) && b.rom@ == data@ && match self.state {
                State::MBC(m) => b.mbc == Some(m),
                _ => b.mbc is None,
            }),
            r == (Memory { state: r.state, ..self }),
    {
        let mut s = self;
        let mut old_state = State::Empty;
        std::mem::swap(&mut old_state, &mut s.state);
        s.state = match old_state {
            State::MBC(m) => State::Boot(mbc::Boot::with_mbc(data, m)),
            _ => State::Boot(mbc::Boot::with_data(data)),
        };
        s
    }

    pub fn cgb_mode(&self) -> (r: bool)
        ensures
            r == self.cgb_mode,
    {
        self.cgb_mode
    }

    pub fn read(&self, address: u16) -> (r: u8)
        requires
            self.wf(),
            self.readable(address),
        ensures
            r == self.read_spec(address),
        decreases address,
    {
        match address {
            0x0000..=0xbfff => self.state.read(address),
            0xc000..=0xcfff => self.work_ram[address as usize - 0xc000],
            0xd000..=0xdfff => {
                self.work_ram[(self.work_ram_bank * 0x1000) + (address as usize - 0xd000)]
            },
            0xe000..=0xfdff => self.read(address - 0x2000),
            0xfea0..=0xfeff => 0xff,
            0xff70 => {
                if self.cgb_mode {
                    self.work_ram_bank as u8
                } else {
                    0xff
                }
            },
            0xff00..=0xff7f => self.io[address as usize - 0xff00],
            _ => self.high_ram[address as usize - 0xff80],
        }
    }

    pub fn write(&mut self, address: u16, value: u8)
        requires
            old(self).wf(),
            old(self).writable(address),
        ensures
            final(self).wf(),
            old(self).write_post(*final(self), address, value),
        decreases address,
    {
        match address {
            0x0000..=0xbfff => self.state.write(address, value),
            0xc000..=0xcfff => self.work_ram.set(address as usize - 0xc000, value),
            0xd000..=0xdfff => {
                self.work_ram.set((self.work_ram_bank * 0x1000) + (address as usize - 0xd000), value)
            },
            0xe000..=0xfdff => self.write(address - 0x2000, value),
            0xfea0..=0xfeff => {},
            0xff70 => {
                if self.cgb_mode {
                    proof {
                        crate::bytes::lemma_masks(value);
                    }
                    self.work_ram_bank = match value & 0x07 {
                        0 => 1,
                        n => n as usize,
                    }
                }
            },
            0xff00..=0xff6f | 0xff71..=0xff7f => self.io[address as usize - 0xff00] = value,
            _ => self.high_ram[address as usize - 0xff80] = value,
        }
    }

    /// What the bus gives for a read of the address: the byte there, or
    /// 0xff where nothing answers.
    pub open spec fn load_spec(&self, address: u16) -> u8 {
        if self.readable(address) {
            self.read_spec(address)
        } else {
            0xff
        }
    }

    /// Whether a read of the address is answered.
    pub fn can_read(&self, address: u16) -> (r: bool)
        requires
            self.wf(),
        ensures
            r == self.readable(address),
    {
        if address <= 0xbfff {
            self.state.can_read(address)
        } else {
            !(0xfe00 <= address && address <= 0xfe9f) && address != 0xffff
        }
    }

    /// Whether a write to the address is accepted.
    pub fn can_write(&self, address: u16) -> (r: bool)
        requires
            self.wf(),
        ensures
            r == self.writable(address),
    {
        if address <= 0xbfff {
            self.state.can_write(address)
        } else {
            !(0xfe00 <= address && address <= 0xfe9f) && address != 0xffff
        }
    }

    /// A read over the bus: the byte at the address, or 0xff where nothing
    /// answers.
    pub fn load(&self, address: u16) -> (r: u8)
        requires
            self.wf(),
        ensures
            r == self.load_spec(address),
    {
        if self.can_read(address) {
            self.read(address)
        } else {
            0xff
        }
    }

    /// A write over the bus: it is dropped where nothing accepts it.
    pub fn store(&mut self, address: u16, value: u8)
        requires
            old(self).wf(),
        ensures
            final(self).wf(),
            old(self).writable(address) ==> old(self).write_post(*final(self), address, value),
            !old(self).writable(address) ==> *final(self) == *old(self),
    {
        if self.can_write(address) {
            self.write(address, value)
        }
    }

    pub fn has_bootrom(&self) -> (r: bool)
        ensures
            r == (self.state is Boot),
    {
        match self.state {
            State::Boot(_) => true,
            _ => false,
        }
    }

    /// The memory with the boot ROM unmapped and the cartridge under it
    /// mapped in its place.
    pub open spec fn unbooted(self) -> Memory {
        Memory {
            state: match self.state {
                State::Boot(b) => State::MBC(b.mbc->Some_0),
                s => s,
            },
            ..self
        }
    }

    /// Whether the boot ROM, if mapped, has a cartridge under it.
    pub open spec fn boot_removable(&self) -> bool {
        self.state matches State::Boot(b) ==> b.mbc is Some
    }

    /// Whether `disable_booting` can unmap the boot ROM.
    pub fn can_disable_booting(&self) -> (r: bool)
        ensures
            r == self.boot_removable(),
    {
        match &self.state {
            State::Boot(b) => b.mbc.is_some(),
            _ => true,
        }
    }

    /// Unmaps the boot ROM, leaving the cartridge that was under it.
    pub fn disable_booting(&mut self)
        requires
            old(self).wf(),
            old(self).boot_removable(),
        ensures
            final(self).wf(),
            *final(self) == old(self).unbooted(),
    {
        let mut state = State::Empty;
        std::mem::swap(&mut state, &mut self.state);
        self.state = match state {
            State::Boot(b) => State::MBC(b.mbc()),
            _ => state,
        }
    }
}

/// In colour mode a write to `0xff70` selects work RAM bank `value % 8`
/// (bank 1 for 0) for `0xd000 ..= 0xdfff`, and a read of `0xff70` gives the
/// bank back; the work RAM itself is untouched.  Outside colour mode the
/// write changes nothing.
pub proof fn lemma_work_ram_bank_select(m: Memory, post: Memory, value: u8, offset: u16)
    requires
        m.wf(),
        m.write_post(post, 0xff70, value),
        offset < 0x1000,
    ensures
        m.cgb_mode ==> post.work_ram_bank == (if value % 8 == 0 {
            1
        } else {
            value % 8
        }),
        m.cgb_mode ==> post.read_spec(0xff70) == (if value % 8 == 0 {
            1
        } else {
            value % 8
        }),
        m.cgb_mode ==> post.read_spec((0xd000 + offset) as u16) == m.work_ram@[(if value % 8 == 0 {
            1
        } else {
            value % 8
        }) * 0x1000 + offset],
        !m.cgb_mode ==> post == m,
        post.work_ram == m.work_ram,
{
    assert(value & 0x07 == value % 8) by (bit_vector);
}

/// A byte written to plain RAM is what a read of the same address then gives.
pub proof fn lemma_ram_write_read(m: Memory, post: Memory, address: u16, value: u8)
    requires
        m.wf(),
        plain_ram(address),
        m.write_post(post, address, value),
    ensures
        post.wf(),
        post.readable(address),
        post.read_spec(address) == value,
{
}

/// A write to plain RAM leaves every other plain RAM cell as it was (an
/// echo address and the address it mirrors are the same cell).
pub proof fn lemma_ram_write_other(
    m: Memory,
    post: Memory,
    address: u16,
    value: u8,
    other: u16,
)
    requires
        m.wf(),
        plain_ram(address),
        plain_ram(other),
        unecho(address) != unecho(other),
        m.write_post(post, address, value),
    ensures
        post.read_spec(other) == m.read_spec(other),
{
}

/// While the boot ROM is mapped, a write leaves the boot ROM and the
/// cartridge under it as they were: the boot ROM takes no writes.
pub proof fn lemma_boot_keeps_cartridge(m: Memory, post: Memory, address: u16, value: u8)
    requires
        m.wf(),
        m.state is Boot,
        m.write_post(post, address, value),
    ensures
        post.state == m.state,
{
}

/// Unmapping the boot ROM over a cartridge shows the cartridge's first bank
/// below `0x4000`, leaves work RAM, high RAM, the I/O bytes and the colour
/// mode as they were, and unmapping once more changes nothing.
pub proof fn lemma_unbooted_shows_cartridge(m: Memory, cart: Cartridge, address: u16)
    requires
        m.wf(),
        m.state matches State::Boot(b) && b.mbc matches Some(x) && x.cart() == cart,
        address <= 0x3fff,
        address < cart.data@.len(),
    ensures
        !(m.unbooted().state is Boot),
        m.unbooted().boot_removable(),
        m.unbooted().unbooted() == m.unbooted(),
        m.unbooted().readable(address),
        m.unbooted().read_spec(address) == cart.data@[address as int],
        m.unbooted().work_ram == m.work_ram,
        m.unbooted().work_ram_bank == m.work_ram_bank,
        m.unbooted().high_ram == m.high_ram,
        m.unbooted().io == m.io,
        m.unbooted().cgb_mode == m.cgb_mode,
{
}

/// Over a boot ROM mapped on a cartridge, any run of writes leaves the
/// boot ROM and the cartridge as they were, so unmapping the boot ROM at the
/// end shows the cartridge's first bank below `0x4000` and keeps the RAM and
/// I/O bytes that the writes left.
pub proof fn lemma_boot_run_shows_cartridge(
    ms: Seq<Memory>,
    addresses: Seq<u16>,
    values: Seq<u8>,
    cart: Cartridge,
    address: u16,
)
    requires
        ms.len() >= 1,
        addresses.len() == ms.len() - 1,
        values.len() == ms.len() - 1,
        forall|i: int| 0 <= i < ms.len() ==> (#[trigger] ms[i]).wf(),
        forall|i: int|
            0 <= i < ms.len() - 1 ==> (#[trigger] ms[i]).write_post(
                ms[i + 1],
                addresses[i],
                values[i],
            ),
        ms[0].state matches State::Boot(b) && b.mbc matches Some(x) && x.cart() == cart,
        address <= 0x3fff,
        address < cart.data@.len(),
    ensures
        ms.last().state == ms[0].state,
        !(ms.last().unbooted().state is Boot),
        ms.last().unbooted().readable(address),
        ms.last().unbooted().read_spec(address) == cart.data@[address as int],
        ms.last().unbooted().unbooted() == ms.last().unbooted(),
        ms.last().unbooted().work_ram == ms.last().work_ram,
        ms.last().unbooted().high_ram == ms.last().high_ram,
        ms.last().unbooted().io == ms.last().io,
    decreases ms.len(),
{
    if ms.len() > 1 {
        let n = ms.len() - 1;
        let front = ms.subrange(0, n as int);
        lemma_boot_run_shows_cartridge(
            front,
            addresses.subrange(0, n - 1),
            values.subrange(0, n - 1),
            cart,
            address,
        );
        assert(front.last() == ms[n - 1]);
        assert(ms[n - 1].write_post(ms[n as int], addresses[n - 1], values[n - 1]));
        lemma_boot_keeps_cartridge(ms[n - 1], ms[n as int], addresses[n - 1], values[n - 1]);
    }
    lemma_unbooted_shows_cartridge(ms.last(), cart, address);
}

} // verus!
