use vstd::prelude::*;

verus! {

/// The high byte of a 16-bit word.
pub open spec fn high_byte(value: u16) -> u8 {
    (value / 256) as u8
}

/// The low byte of a 16-bit word.
pub open spec fn low_byte(value: u16) -> u8 {
    (value % 256) as u8
}

/// The 16-bit word made of a high and a low byte.
pub open spec fn word(high: u8, low: u8) -> u16 {
    (high * 256 + low) as u16
}

/// Splits a word into its high and its low byte.
pub fn extract(value: u16) -> (r: (u8, u8))
    ensures
        r.0 == high_byte(value),
        r.1 == low_byte(value),
{
    let high = ((value & 0xff00) >> 8) as u8;
    let low = (value & 0x00ff) as u8;
    proof {
        lemma_word_arith(value);
    }
    (high, low)
}

/// Joins a high and a low byte into a word.
pub fn assemble(high: u8, low: u8) -> (r: u16)
    ensures
        r == word(high, low),
{
    let h = high as u16;
    let l = low as u16;
    assert(h < 256 && l < 256 ==> ((h << 8) | l) == h * 256 + l) by (bit_vector);
    (h << 8) | l
}

/// Splitting the word made of two bytes gives those two bytes back.
pub proof fn lemma_extract_assemble(high: u8, low: u8)
    ensures
        high_byte(word(high, low)) == high,
        low_byte(word(high, low)) == low,
{
}

/// Joining the two bytes of a word gives the word back.
pub proof fn lemma_assemble_extract(value: u16)
    ensures
        word(high_byte(value), low_byte(value)) == value,
{
}

/// The bounds of the low-bit masks of a byte.
pub proof fn lemma_masks(x: u8)
    ensures
        x & 0x01 < 2,
        x & 0x03 < 4,
        x & 0x07 < 8,
        x & 0x0f < 16,
        x & 0x1f < 32,
        x & 0x3f < 64,
        x & 0x7f < 128,
{
    assert(x & 0x01 < 2 && x & 0x03 < 4 && x & 0x07 < 8 && x & 0x0f < 16 && x & 0x1f < 32 && x
        & 0x3f < 64 && x & 0x7f < 128) by (bit_vector);
}

/// The bit operations on a byte that the instructions and registers use,
/// stated as arithmetic.
pub proof fn lemma_byte_arith(x: u8)
    ensures
        x & 0x0f == x % 16,
        (x & 0x01 != 0) == (x % 2 == 1),
        (x & 0x80 != 0) == (x >= 128),
        x & 0x04 != 0 ==> x >= 4,
        x << 1 == (x * 2) % 256,
        x >> 1 == x / 2,
        x >> 2 == x / 4,
        x >> 4 == x / 16,
        x >> 6 == x / 64,
        ((x >> 1) | (x & 0x80)) == x / 2 + (if x >= 128 { 128u8 } else { 0u8 }),
        ((x << 4) | (x >> 4)) == (x % 16) * 16 + x / 16,
        x <= 3 ==> x & 0x03 == x,
        x <= 7 ==> x & 0x3f == x,
        (x & 0x08) >> 3 <= 1,
        (x >> 2) & 0x03 < 4,
        (x >> 4) & 0x03 < 4,
        (x >> 6) & 0x03 < 4,
        (x & 0x03) & 0x03 == x & 0x03,
        ((x >> 2) & 0x03) & 0x03 == (x >> 2) & 0x03,
        ((x >> 4) & 0x03) & 0x03 == (x >> 4) & 0x03,
        ((x >> 6) & 0x03) & 0x03 == (x >> 6) & 0x03,
        (((x >> 6) & 0x03) * 64 + ((x >> 4) & 0x03) * 16 + ((x >> 2) & 0x03) * 4 + (x & 0x03)) as u8
            == x,
        x % 2 == 0 ==> (x | 0x01) == x + 1,
        (x | 0) == x,
        x == 0 ==> (x | 0x06) == 6,
        (x == 0 || x == 6) ==> (x | 0x60) == x + 0x60,
{
    assert({
        &&& x & 0x0f == x % 16
        &&& (x & 0x01 != 0) == (x % 2 == 1)
        &&& (x & 0x80 != 0) == (x >= 128)
        &&& x & 0x04 != 0 ==> x >= 4
        &&& x << 1 == (x * 2) % 256
        &&& x >> 1 == x / 2
        &&& x >> 2 == x / 4
        &&& x >> 4 == x / 16
        &&& x >> 6 == x / 64
        &&& ((x >> 1) | (x & 0x80)) == x / 2 + (if x >= 128 { 128u8 } else { 0u8 })
        &&& ((x << 4) | (x >> 4)) == (x % 16) * 16 + x / 16
        &&& x <= 3 ==> x & 0x03 == x
        &&& x <= 7 ==> x & 0x3f == x
        &&& (x & 0x08) >> 3 <= 1
        &&& (x >> 2) & 0x03 < 4
        &&& (x >> 4) & 0x03 < 4
        &&& (x >> 6) & 0x03 < 4
        &&& (x & 0x03) & 0x03 == x & 0x03
        &&& ((x >> 2) & 0x03) & 0x03 == (x >> 2) & 0x03
        &&& ((x >> 4) & 0x03) & 0x03 == (x >> 4) & 0x03
        &&& ((x >> 6) & 0x03) & 0x03 == (x >> 6) & 0x03
        &&& (((x >> 6) & 0x03) * 64 + ((x >> 4) & 0x03) * 16 + ((x >> 2) & 0x03) * 4 + (x & 0x03)) as u8 == x
        &&& x % 2 == 0 ==> (x | 0x01) == x + 1
        &&& (x | 0) == x
        &&& x == 0 ==> (x | 0x06) == 6
        &&& (x == 0 || x == 6) ==> (x | 0x60) == x + 0x60
    }) by (bit_vector);
}

/// A byte read as a two's complement number.
pub proof fn lemma_signed_byte(x: u8)
    ensures
        (x as i8) as i16 == (if x >= 128 { x - 256 } else { x as int }),
{
    assert(x >= 128 ==> (x as i8) as i16 == (x as i16) - 256i16) by (bit_vector);
    assert(x < 128 ==> (x as i8) as i16 == x as i16) by (bit_vector);
}

/// Shifting a byte by one place and setting the bit that comes in.
pub proof fn lemma_shift_in(x: u8, c: u8)
    ensures
        c <= 1 ==> ((x << 1) | c) == (x * 2) % 256 + c,
        (c == 0 || c == 0x80) ==> ((x >> 1) | c) == x / 2 + c,
{
    assert({
        &&& c <= 1 ==> ((x << 1) | c) == (x * 2) % 256 + c
        &&& (c == 0 || c == 0x80) ==> ((x >> 1) | c) == x / 2 + c
    }) by (bit_vector);
}

/// The bit operations on a word that the instructions and registers use,
/// stated as arithmetic.
pub proof fn lemma_word_arith(v: u16)
    ensures
        ((v & 0xff00) >> 8) == v / 256,
        (v & 0x00ff) == v % 256,
        (v & 0x07ff) == v % 0x800,
        (v & 0x0fff) == v % 0x1000,
        (v & 0x000f) == v % 16,
        (v & 0x001f) == v % 32,
        ((v & 0x03e0) >> 5) == (v / 32) % 32,
        ((v & 0x7c00) >> 10) == (v / 1024) % 32,
{
    assert({
        &&& ((v & 0xff00) >> 8) == v / 256
        &&& (v & 0x00ff) == v % 256
        &&& (v & 0x07ff) == v % 0x800
        &&& (v & 0x0fff) == v % 0x1000
        &&& (v & 0x000f) == v % 16
        &&& (v & 0x001f) == v % 32
        &&& ((v & 0x03e0) >> 5) == (v / 32) % 32
        &&& ((v & 0x7c00) >> 10) == (v / 1024) % 32
    }) by (bit_vector);
}

/// The masks with which the cartridge controllers select ROM banks.
pub proof fn lemma_bank_bits(b: usize, n: usize, v: u8)
    ensures
        b <= 0x7f ==> ((b & 0x80) | ((v as usize) & 0x7f)) == (v % 128) as usize,
        n <= 0x0f ==> n & 0x0f == n,
{
    assert((b <= 0x7f ==> ((b & 0x80) | ((v as usize) & 0x7f)) == (v % 128) as usize) && (n <= 0x0f
        ==> n & 0x0f == n)) by (bit_vector);
}

} // verus!
