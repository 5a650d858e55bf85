use vstd::prelude::*;
use vstd::utf8::{valid_utf8, decode_utf8};
use std::borrow::ToOwned;

verus! {

/// The smallest image that can hold a cartridge header and its first bank.
pub const MIN_ROM_SIZE: usize = 16384;

/// The bytes of the header that hold the title.
pub open spec fn title_bytes(data: Seq<u8>) -> Seq<u8> {
    data.subrange(0x134int, 0x13fint)
}

/// The header check value accumulated over the bytes `0x134 .. end`:
/// each byte, and one more, is subtracted modulo 256.
pub open spec fn checksum_upto(data: Seq<u8>, end: int) -> u8
    decreases end,
{
    if end <= 0x134 {
        0
    } else {
        ((checksum_upto(data, end - 1) - data[end - 1] - 1) % 256) as u8
    }
}

/// Whether the header check value over `0x134 ..= 0x14c` matches the byte at `0x14d`.
pub open spec fn checksum_ok(data: Seq<u8>) -> bool {
    checksum_upto(data, 0x14d) == data[0x14d]
}

/// Drops every leading NUL character.
pub open spec fn trim_start_nul(s: Seq<char>) -> Seq<char>
    decreases s.len(),
{
    if s.len() > 0 && s[0] == '\0' {
        trim_start_nul(s.drop_first())
    } else {
        s
    }
}

/// Drops every trailing NUL character.
pub open spec fn trim_end_nul(s: Seq<char>) -> Seq<char>
    decreases s.len(),
{
    if s.len() > 0 && s.last() == '\0' {
        trim_end_nul(s.drop_last())
    } else {
        s
    }
}

/// Drops the NUL characters at both ends.
pub open spec fn trim_nul(s: Seq<char>) -> Seq<char> {
    trim_end_nul(trim_start_nul(s))
}

/// Wraps std's `String::from_utf8`: it succeeds exactly when the bytes are
/// valid UTF-8, and the string then holds the characters that they encode.
#[verifier::external_body]
fn string_from_utf8(bytes: Vec<u8>) -> (r: Option<String>)
    ensures
        r is Some <==> valid_utf8(bytes@),
        r matches Some(s) ==> s@ == decode_utf8(bytes@),
{
    String::from_utf8(bytes).ok()
}

/// Wraps std's `str::trim_matches` with the NUL character as the pattern:
/// the slice without the NUL characters at either end.
#[verifier::external_body]
fn trim_matches_nul(s: &str) -> (r: &str)
    ensures
        r@ == trim_nul(s@),
{
    s.trim_matches(char::from(0))
}

/// The memory bank controller that a cartridge carries.
#[derive(Clone, Copy, Debug, PartialEq, Eq, Structural)]
pub enum Controller {
    RomOnly,
    MBC1,
    MBC2,
    MBC3,
    MBC4,
    MBC5,
}

/// The cartridge type byte of the header, decoded.
#[derive(Clone, Copy, Debug, PartialEq, Eq, Structural)]
pub struct CartType {
    pub controller: Controller,
    pub ram: bool,
    pub battery: bool,
    pub timer: bool,
    pub rumble: bool,
}

/// A cartridge type with the given controller and no extras.
pub open spec fn plain(controller: Controller) -> CartType {
    CartType { controller, ram: false, battery: false, timer: false, rumble: false }
}

/// Whether the header's cartridge type byte is one that this emulator knows.
pub open spec fn known_cart_type(t: u8) -> bool {
    t == 0x00 || t == 0x01 || t == 0x02 || t == 0x03 || t == 0x05 || t == 0x06 || t == 0x08 || t
        == 0x09 || (0x0f <= t <= 0x13) || (0x15 <= t <= 0x17) || (0x19 <= t <= 0x1e)
}

/// The decoding of each known cartridge type byte.
pub open spec fn cart_type_of(t: u8) -> CartType {
    let c = if t <= 0x03 || t == 0x08 || t == 0x09 {
        if t == 0x00 || t == 0x08 || t == 0x09 {
            Controller::RomOnly
        } else {
            Controller::MBC1
        }
    } else if t == 0x05 || t == 0x06 {
        Controller::MBC2
    } else if t <= 0x13 {
        Controller::MBC3
    } else if t <= 0x17 {
        Controller::MBC4
    } else {
        Controller::MBC5
    };
    CartType {
        controller: c,
        ram: t == 0x02 || t == 0x03 || t == 0x08 || t == 0x09 || t == 0x10 || t == 0x12 || t
            == 0x13 || t == 0x16 || t == 0x17 || t == 0x1a || t == 0x1b || t == 0x1d || t == 0x1e,
        battery: t == 0x03 || t == 0x06 || t == 0x09 || t == 0x0f || t == 0x10 || t == 0x13 || t
            == 0x17 || t == 0x1b || t == 0x1e,
        timer: t == 0x0f || t == 0x10,
        rumble: t == 0x1c || t == 0x1d || t == 0x1e,
    }
}

impl CartType {
    fn new(controller: Controller) -> (r: Self)
        ensures
            r == plain(controller),
    {
        Self { controller, ram: false, battery: false, timer: false, rumble: false }
    }

    fn with_ram(self) -> (r: Self)
        ensures
            r == (CartType { ram: true, ..self }),
    {
        let mut s = self;
        s.ram = true;
        s
    }

    fn with_battery(self) -> (r: Self)
        ensures
            r == (CartType { battery: true, ..self }),
    {
        let mut s = self;
        s.battery = true;
        s
    }

    fn with_timer(self) -> (r: Self)
        ensures
            r == (CartType { timer: true, ..self }),
    {
        let mut s = self;
        s.timer = true;
        s
    }

    fn with_rumble(self) -> (r: Self)
        ensures
            r == (CartType { rumble: true, ..self }),
    {
        let mut s = self;
        s.rumble = true;
        s
    }

    /// Whether the cartridge type byte is one that `from` decodes.
    pub fn is_known(t: u8) -> (r: bool)
        ensures
            r == known_cart_type(t),
    {
        t == 0x00 || t == 0x01 || t == 0x02 || t == 0x03 || t == 0x05 || t == 0x06 || t == 0x08
            || t == 0x09 || (0x0f <= t && t <= 0x13) || (0x15 <= t && t <= 0x17) || (0x19 <= t
            && t <= 0x1e)
    }

    /// Decodes the header's cartridge type byte.
    pub fn from(t: u8) -> (r: CartType)
        requires
            known_cart_type(t),
        ensures
            r == cart_type_of(t),
    {
        match t {
            0x00 => CartType::new(Controller::RomOnly),
            0x01 => CartType::new(Controller::MBC1),
            0x02 => CartType::new(Controller::MBC1).with_ram(),
            0x03 => CartType::new(Controller::MBC1).with_ram().with_battery(),
            0x05 => CartType::new(Controller::MBC2),
            0x06 => CartType::new(Controller::MBC2).with_battery(),
            0x08 => CartType::new(Controller::RomOnly).with_ram(),
            0x09 => CartType::new(Controller::RomOnly).with_ram().with_battery(),
            0x0f => CartType::new(Controller::MBC3).with_timer().with_battery(),
            0x10 => CartType::new(Controller::MBC3).with_timer().with_ram().with_battery(),
            0x11 => CartType::new(Controller::MBC3),
            0x12 => CartType::new(Controller::MBC3).with_ram(),
            0x13 => CartType::new(Controller::MBC3).with_ram().with_battery(),
            0x15 => CartType::new(Controller::MBC4),
            0x16 => CartType::new(Controller::MBC4).with_ram(),
            0x17 => CartType::new(Controller::MBC4).with_ram().with_battery(),
            0x19 => CartType::new(Controller::MBC5),
            0x1a => CartType::new(Controller::MBC5).with_ram(),
            0x1b => CartType::new(Controller::MBC5).with_ram().with_battery(),
            0x1c => CartType::new(Controller::MBC5).with_rumble(),
            0x1d => CartType::new(Controller::MBC5).with_rumble().with_ram(),
            _ => CartType::new(Controller::MBC5).with_rumble().with_ram().with_battery(),
        }
    }
}

/// Why a ROM image was refused.
#[derive(Clone, Copy, Debug, PartialEq, Eq, Structural)]
pub enum Error {
    InvalidRom,
    ChecksumFailed,
    Io,
    Str,
}

/// Whether the header byte at `0x143` marks a game for the colour console.
pub open spec fn cgb_flag(data: Seq<u8>) -> bool {
    data[0x143] == 0x80 || data[0x143] == 0xc0
}

/// A cartridge: its header fields and the whole ROM image.
pub struct Cartridge {
    pub title: String,
    pub cart_type: CartType,
    pub ram_size: u8,
    pub cgb: bool,
    pub sgb: bool,
    pub data: Vec<u8>,
}

impl Cartridge {
    /// Whether the header fields are those that the ROM image's header holds,
    /// as `with_data` reads them.
    pub open spec fn from_header(self) -> bool {
        let data = self.data@;
        &&& data.len() >= MIN_ROM_SIZE
        &&& self.title@ == trim_nul(decode_utf8(title_bytes(data)))
        &&& self.cart_type == cart_type_of(data[0x147])
        &&& self.ram_size == data[0x149]
        &&& self.cgb == cgb_flag(data)
        &&& self.sgb == (data[0x146] == 0x03)
    }

    pub fn new() -> (r: Self)
        ensures
            r.title@ == "EMPTY"@,
            r.cart_type == plain(Controller::RomOnly),
            r.ram_size == 9,
            !r.cgb,
            !r.sgb,
            r.data@.len() == 0,
    {
        Self {
            title: "EMPTY".to_owned(),
            cart_type: CartType::new(Controller::RomOnly),
            ram_size: 9,
            cgb: false,
            sgb: false,
            data: Vec::new(),
        }
    }

    /// Reads the header of a ROM image.  The image is refused when it is
    /// shorter than one bank, when its header check value fails, or when its
    /// title is not UTF-8; in that order.
    pub fn with_data(self, data: &[u8]) -> (r: Result<Self, Error>)
        requires
            data@.len() >= MIN_ROM_SIZE && checksum_ok(data@) && valid_utf8(title_bytes(data@))
                ==> known_cart_type(data@[0x147]),
        ensures
            data@.len() < MIN_ROM_SIZE ==> r == Err::<Self, Error>(Error::InvalidRom),
            data@.len() >= MIN_ROM_SIZE && !checksum_ok(data@) ==> r == Err::<Self, Error>(
                Error::ChecksumFailed,
            ),
            data@.len() >= MIN_ROM_SIZE && checksum_ok(data@) && !valid_utf8(title_bytes(data@))
                ==> r == Err::<Self, Error>(Error::Str),
            r is Ok <==> (data@.len() >= MIN_ROM_SIZE && checksum_ok(data@) && valid_utf8(
                title_bytes(data@),
            )),
            r matches Ok(c) ==> c.data@ == data@ && c.from_header(),
    {
        if data.len() < MIN_ROM_SIZE {
            return Err(Error::InvalidRom);
        }
        match Self::verify_checksum(data) {
            Err(e) => {
                return Err(e);
            },
            Ok(()) => {},
        }
        let mut raw: Vec<u8> = Vec::new();
        let mut i: usize = 0x134;
        while i < 0x134 + 11
            invariant
                0x134 <= i <= 0x134 + 11,
                data@.len() >= MIN_ROM_SIZE,
                raw@ == data@.subrange(0x134, i as int),
            decreases 0x134 + 11 - i,
        {
            raw.push(data[i]);
            i = i + 1;
        }
        let decoded = match string_from_utf8(raw) {
            Some(s) => s,
            None => {
                return Err(Error::Str);
            },
        };
        let title = trim_matches_nul(decoded.as_str()).to_owned();
        let cart_type = CartType::from(data[0x0147]);
        let cgb = match data[0x0143] {
            0x80 | 0xc0 => true,
            _ => false,
        };
        let sgb = data[0x0146] == 0x03;
        let bytes = vstd::slice::slice_to_vec(data);
        Ok(Cartridge { title, cart_type, ram_size: data[0x149], cgb, sgb, data: bytes })
    }

    pub fn title(&self) -> (r: &String)
        ensures
            r@ == self.title@,
    {
        &self.title
    }

    pub fn cart_type(&self) -> (r: CartType)
        ensures
            r == self.cart_type,
    {
        self.cart_type
    }

    pub fn data(&self) -> (r: &Vec<u8>)
        ensures
            r@ == self.data@,
    {
        &self.data
    }

    pub fn ram_size(&self) -> (r: u8)
        ensures
            r == self.ram_size,
    {
        self.ram_size
    }

    /// Whether the header marks the game as made for the colour console.
    pub fn cgb(&self) -> (r: bool)
        ensures
            r == self.cgb,
    {
        self.cgb
    }

    /// Checks the header check value at `0x14d` against the bytes `0x134 ..= 0x14c`.
    pub fn verify_checksum(data: &[u8]) -> (r: Result<(), Error>)
        requires
            data@.len() > 0x14d,
        ensures
            r is Ok <==> checksum_ok(data@),
            r is Err ==> r == Err::<(), Error>(Error::ChecksumFailed),
    {
        let mut x: u8 = 0;
        let mut i: usize = 0x134;
        while i < 0x14d
            invariant
                0x134 <= i <= 0x14d,
                data@.len() > 0x14d,
                x == checksum_upto(data@, i as int),
            decreases 0x14d - i,
        {
            x = x.wrapping_sub(data[i]).wrapping_sub(1);
            proof {
                let prev = checksum_upto(data@, i as int);
                assert(checksum_upto(data@, i + 1) == ((prev - data@[i as int] - 1) % 256) as u8);
            }
            i = i + 1;
        }
        if x != data[0x014d] {
            Err(Error::ChecksumFailed)
        } else {
            Ok(())
        }
    }
}

} // verus!
