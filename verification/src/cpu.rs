use vstd::prelude::*;
use crate::bytes::{self, high_byte, low_byte, word};
use crate::joypad::{Joypad, Selection};
use crate::lcd::{self, LCD, lcd_address};
use crate::memory::{self, Memory, State, plain_ram, unecho};
use crate::timer::{self, Timer, Timing, SubTimer, TAC, tac_byte, tac_of, clock_rate};

verus! {

/// The interrupt master enable, the IE register and the IF register.
pub struct Interrupts {
    pub enabled: bool,
    pub enable: u8,
    pub flag: u8,
}

impl Interrupts {
    pub fn default() -> (r: Self)
        ensures
            r == (Interrupts { enabled: false, enable: 0, flag: 0 }),
    {
        Self { enabled: false, enable: 0, flag: 0 }
    }
}

/// The flags register, decoded.
#[derive(Clone, Copy, PartialEq, Eq, Structural)]
pub struct Flags {
    pub zero: bool,
    pub add_sub: bool,
    pub half_carry: bool,
    pub carry: bool,
}

/// The flags that a byte loaded into F sets.
pub open spec fn flags_of(f: u8) -> Flags {
    Flags {
        zero: f & 0x80 != 0,
        add_sub: f & 0x40 != 0,
        half_carry: f & 0x20 != 0,
        carry: f & 0x10 != 0,
    }
}

/// The byte that F holds for the flags.
pub open spec fn flags_byte(f: Flags) -> u8 {
    (lcd::bit(f.zero, 0x80) + lcd::bit(f.add_sub, 0x40) + lcd::bit(f.half_carry, 0x20) + lcd::bit(
        f.carry,
        0x10,
    )) as u8
}

impl Flags {
    pub fn default() -> (r: Self)
        ensures
            r == (Flags { zero: false, add_sub: false, half_carry: false, carry: false }),
    {
        Flags { zero: false, add_sub: false, half_carry: false, carry: false }
    }
}

impl From<u8> for Flags {
    fn from(f: u8) -> (r: Flags) {
        Flags {
            zero: f & 0x80 != 0,
            add_sub: f & 0x40 != 0,
            half_carry: f & 0x20 != 0,
            carry: f & 0x10 != 0,
        }
    }
}

impl vstd::std_specs::convert::FromSpecImpl<u8> for Flags {
    open spec fn obeys_from_spec() -> bool {
        true
    }

    open spec fn from_spec(f: u8) -> Flags {
        flags_of(f)
    }
}

impl From<Flags> for u8 {
    fn from(f: Flags) -> (r: u8) {
        proof {
            let (a, b, c, d) = (
                lcd::bit(f.zero, 0x80),
                lcd::bit(f.add_sub, 0x40),
                lcd::bit(f.half_carry, 0x20),
                lcd::bit(f.carry, 0x10),
            );
            assert((a == 0 || a == 0x80) && (b == 0 || b == 0x40) && (c == 0 || c == 0x20) && (d
                == 0 || d == 0x10) ==> (a | b | c | d) == (a + b + c + d) as u8) by (bit_vector);
        }
        (if f.zero { 0x80u8 } else { 0 }) | (if f.add_sub { 0x40u8 } else { 0 }) | (if f.half_carry {
            0x20u8
        } else {
            0
        }) | (if f.carry { 0x10u8 } else { 0 })
    }
}

impl vstd::std_specs::convert::FromSpecImpl<Flags> for u8 {
    open spec fn obeys_from_spec() -> bool {
        true
    }

    open spec fn from_spec(f: Flags) -> u8 {
        flags_byte(f)
    }
}

/// A byte loaded into F keeps its high nibble; the low nibble reads as 0.
pub proof fn lemma_flags_round_trip(v: u8)
    ensures
        flags_byte(flags_of(v)) == v & 0xf0,
{
    assert((lcd::bit(v & 0x80 != 0, 0x80) + lcd::bit(v & 0x40 != 0, 0x40) + lcd::bit(
        v & 0x20 != 0,
        0x20,
    ) + lcd::bit(v & 0x10 != 0, 0x10)) as u8 == v & 0xf0) by (bit_vector);
}

/// Flags survive a trip through F.
pub proof fn lemma_flags_byte_round_trip(f: Flags)
    ensures
        flags_of(flags_byte(f)) == f,
{
    let (z, n, h, c) = (f.zero, f.add_sub, f.half_carry, f.carry);
    assert(({
        let b = (lcd::bit(z, 0x80) + lcd::bit(n, 0x40) + lcd::bit(h, 0x20) + lcd::bit(c, 0x10)) as u8;
        &&& (b & 0x80 != 0) == z
        &&& (b & 0x40 != 0) == n
        &&& (b & 0x20 != 0) == h
        &&& (b & 0x10 != 0) == c
    })) by (bit_vector);
}

/// The eight 8-bit registers; F is kept decoded.
#[derive(Clone, Copy)]
pub struct Registers {
    pub a: u8,
    pub f: Flags,
    pub b: u8,
    pub c: u8,
    pub d: u8,
    pub e: u8,
    pub h: u8,
    pub l: u8,
}

impl Registers {
    pub open spec fn spec_af(self) -> u16 {
        word(self.a, flags_byte(self.f))
    }

    pub open spec fn spec_bc(self) -> u16 {
        word(self.b, self.c)
    }

    pub open spec fn spec_de(self) -> u16 {
        word(self.d, self.e)
    }

    pub open spec fn spec_hl(self) -> u16 {
        word(self.h, self.l)
    }

    /// The registers as the boot ROM leaves them.
    pub fn new_boot() -> (r: Self)
        ensures
            r.a == 0x01 && r.b == 0x00 && r.c == 0x13 && r.d == 0x00 && r.e == 0xd8 && r.h == 0x14
                && r.l == 0x4d,
            r.f == flags_of(0xb0),
    {
        Self { a: 0x01, f: Flags::from(0xb0), b: 0x00, c: 0x13, d: 0x00, e: 0xd8, h: 0x14, l: 0x4d }
    }

    pub fn default() -> (r: Self)
        ensures
            r.a == 0 && r.b == 0 && r.c == 0 && r.d == 0 && r.e == 0 && r.h == 0 && r.l == 0,
            r.f == flags_of(0),
    {
        Self { a: 0, f: Flags::from(0), b: 0, c: 0, d: 0, e: 0, h: 0, l: 0 }
    }

    pub fn af(&self) -> (r: u16)
        ensures
            r == self.spec_af(),
    {
        bytes::assemble(self.a, u8::from(self.f))
    }

    pub fn set_af(&mut self, af: u16)
        ensures
            *final(self) == (Registers {
                a: high_byte(af),
                f: flags_of(low_byte(af)),
                ..*old(self)
            }),
    {
        let (a, f) = bytes::extract(af);
        self.a = a;
        self.f = Flags::from(f);
    }

    pub fn bc(&self) -> (r: u16)
        ensures
            r == self.spec_bc(),
    {
        bytes::assemble(self.b, self.c)
    }

    pub fn set_bc(&mut self, bc: u16)
        ensures
            *final(self) == (Registers { b: high_byte(bc), c: low_byte(bc), ..*old(self) }),
    {
        let (b, c) = bytes::extract(bc);
        self.b = b;
        self.c = c;
    }

    pub fn de(&self) -> (r: u16)
        ensures
            r == self.spec_de(),
    {
        bytes::assemble(self.d, self.e)
    }

    pub fn set_de(&mut self, de: u16)
        ensures
            *final(self) == (Registers { d: high_byte(de), e: low_byte(de), ..*old(self) }),
    {
        let (d, e) = bytes::extract(de);
        self.d = d;
        self.e = e;
    }

    pub fn hl(&self) -> (r: u16)
        ensures
            r == self.spec_hl(),
    {
        bytes::assemble(self.h, self.l)
    }

    pub fn set_hl(&mut self, hl: u16)
        ensures
            *final(self) == (Registers { h: high_byte(hl), l: low_byte(hl), ..*old(self) }),
    {
        let (h, l) = bytes::extract(hl);
        self.h = h;
        self.l = l;
    }
}

/// A register pair reads back what was set into it; AF keeps only the
/// flag bits of its low byte.
pub proof fn lemma_pair_set_get(r: Registers, v: u16)
    ensures
        (Registers { b: high_byte(v), c: low_byte(v), ..r }).spec_bc() == v,
        (Registers { d: high_byte(v), e: low_byte(v), ..r }).spec_de() == v,
        (Registers { h: high_byte(v), l: low_byte(v), ..r }).spec_hl() == v,
        (Registers { a: high_byte(v), f: flags_of(low_byte(v)), ..r }).spec_af() == v & 0xfff0,
{
    lemma_flags_round_trip(low_byte(v));
    let lo = low_byte(v);
    assert(word(high_byte(v), lo & 0xf0) == v & 0xfff0) by (bit_vector)
        requires
            lo == low_byte(v),
    ;
}

/// How the interrupt check at the start of a step takes the console from
/// `cpu` to `post`, with the ticks `r` that it takes if it does anything:
/// the lowest interrupt both requested and enabled is serviced when the
/// master switch is on (its request is cleared, the switch turned off, the
/// program counter pushed and set to the interrupt's vector); a halted CPU
/// with the switch off wakes on any request.
pub open spec fn interrupts_handled(cpu: CPU, post: CPU, r: Option<u16>) -> bool {
    let i = cpu.interrupts;
    let pending = i.enable & i.flag != 0;
    if !i.enabled || !pending {
        if !i.enabled && i.flag > 0 && cpu.halt {
            r == Some(4u16) && post == (CPU { halt: false, ..cpu })
        } else {
            r is None && post == cpu
        }
    } else {
        let n = lowest_request(i.flag);
        &&& r == Some(12u16)
        &&& n < 5 ==> {
            let bit = request_bit(n);
            let cleared = CPU {
                interrupts: Interrupts { flag: i.flag & !bit, enabled: false, ..i },
                ..cpu
            };
            &&& post.pc == 0x40 + n * 0x08
            &&& !post.halt
            &&& cleared.pushed(CPU { pc: cpu.pc, halt: cpu.halt, ..post }, cpu.pc)
        }
        &&& n == 5 ==> post == cpu
    }
}

/// The number of the lowest of the five interrupt request bits that is set
/// (5 when none is).
pub open spec fn lowest_request(flag: u8) -> int {
    if flag & request_bit(0) != 0 {
        0
    } else if flag & request_bit(1) != 0 {
        1
    } else if flag & request_bit(2) != 0 {
        2
    } else if flag & request_bit(3) != 0 {
        3
    } else if flag & request_bit(4) != 0 {
        4
    } else {
        5
    }
}

fn request_mask(i: u8) -> (r: u8)
    requires
        i <= 4,
    ensures
        r == request_bit(i as int),
{
    assert(i <= 4 ==> (0x01u8 << i) == (if i == 0 {
        0x01u8
    } else if i == 1 {
        0x02u8
    } else if i == 2 {
        0x04u8
    } else if i == 3 {
        0x08u8
    } else {
        0x10u8
    })) by (bit_vector);
    0x01 << i
}

/// The request bit of interrupt `n`.
pub open spec fn request_bit(n: int) -> u8 {
    if n == 0 {
        0x01
    } else if n == 1 {
        0x02
    } else if n == 2 {
        0x04
    } else if n == 3 {
        0x08
    } else {
        0x10
    }
}

/// The byte of the speed switch register.
pub open spec fn speed_byte(speed: u8, prepare: bool) -> u8 {
    ((if speed == 1 {
        0x00int
    } else {
        0x80
    }) + (if prepare {
        0x01int
    } else {
        0
    })) as u8
}

/// The console: the CPU with everything on its bus.
pub struct CPU {
    pub memory: Memory,
    pub lcd: LCD,
    pub joypad: Joypad,
    pub regs: Registers,
    pub interrupts: Interrupts,
    pub timer: Timer,
    pub serial: Vec<u8>,
    pub halt: bool,
    pub sp: u16,
    pub pc: u16,
    pub sb: u8,
    pub sc: u8,
    pub speed: u8,
    pub prepare_speed: bool,
}

/// An address one below, on the 16-bit address space.
pub open spec fn dec16(a: u16) -> u16 {
    ((a + 0xffff) % 0x10000) as u16
}

/// An address one above, on the 16-bit address space.
pub open spec fn inc16(a: u16) -> u16 {
    ((a + 1) % 0x10000) as u16
}

impl CPU {
    pub open spec fn wf(&self) -> bool {
        &&& self.memory.wf()
        &&& self.lcd.wf()
        &&& self.timer.wf()
        &&& self.speed == 1 || self.speed == 2
        &&& self.lcd.mode_timing <= 4583
    }

    /// What a read of the address gives the CPU.
    pub open spec fn bus_read(&self, address: u16) -> u8 {
        if address == 0xff00 {
            self.joypad.register()
        } else if address == 0xff01 {
            self.sb
        } else if address == 0xff02 {
            self.sc
        } else if address == 0xff04 {
            self.timer.div.value
        } else if address == 0xff05 {
            self.timer.tima.value
        } else if address == 0xff06 {
            self.timer.tma
        } else if address == 0xff07 {
            tac_byte(self.timer.tac)
        } else if address == 0xff0f {
            self.interrupts.flag
        } else if lcd_address(address) {
            self.lcd.read_spec(address)
        } else if address == 0xff4d {
            speed_byte(self.speed, self.prepare_speed)
        } else if address == 0xff50 {
            0
        } else if address == 0xffff {
            self.interrupts.enable
        } else {
            self.memory.load_spec(address)
        }
    }

    /// How a write of `value` at `address` takes the console to `post`.
    pub open spec fn wrote(self, post: CPU, address: u16, value: u8) -> bool {
        if address == 0xff00 {
            &&& self.joypad.selected(post.joypad, value)
            &&& post == CPU { joypad: post.joypad, ..self }
        } else if address == 0xff01 {
            post == CPU { sb: value, ..self }
        } else if address == 0xff02 {
            &&& post.serial@ == self.serial@.push(self.sb)
            &&& post == CPU {
                serial: post.serial,
                interrupts: Interrupts { flag: self.interrupts.flag | 0x08, ..self.interrupts },
                ..self
            }
        } else if address == 0xff04 {
            post == CPU {
                timer: Timer { div: SubTimer { value: 0, ..self.timer.div }, ..self.timer },
                ..self
            }
        } else if address == 0xff05 {
            post == CPU {
                timer: Timer { tima: SubTimer { value, ..self.timer.tima }, ..self.timer },
                ..self
            }
        } else if address == 0xff06 {
            post == CPU { timer: Timer { tma: value, ..self.timer }, ..self }
        } else if address == 0xff07 {
            post == CPU {
                timer: Timer {
                    tac: tac_of(value),
                    tima: SubTimer { rate: clock_rate(tac_of(value).clock), ..self.timer.tima },
                    ..self.timer
                },
                ..self
            }
        } else if address == 0xff0f {
            post == CPU { interrupts: Interrupts { flag: value & 0x1f, ..self.interrupts }, ..self }
        } else if lcd_address(address) {
            &&& self.lcd.write_post(post.lcd, self.memory, address, value)
            &&& post == CPU { lcd: post.lcd, ..self }
        } else if address == 0xff4d {
            post == CPU { prepare_speed: value == 0x01, ..self }
        } else if address == 0xff50 {
            if value != 0 && self.memory.boot_removable() {
                &&& post.memory == Memory {
                    state: match self.memory.state {
                        State::Boot(b) => State::MBC(b.mbc->Some_0),
                        s => s,
                    },
                    ..self.memory
                }
                &&& post == CPU { memory: post.memory, ..self }
            } else {
                post == self
            }
        } else if address == 0xffff {
            post == CPU { interrupts: Interrupts { enable: value & 0x1f, ..self.interrupts }, ..self }
        } else {
            &&& if self.memory.writable(address) {
                self.memory.write_post(post.memory, address, value)
            } else {
                post.memory == self.memory
            }
            &&& post == CPU { memory: post.memory, ..self }
        }
    }

    /// How pushing `value` takes the console to `post`: the stack pointer
    /// steps down twice, with the high byte written first.
    pub open spec fn pushed(self, post: CPU, value: u16) -> bool {
        let s1 = dec16(self.sp);
        let s2 = dec16(s1);
        &&& post.sp == s2
        &&& exists|mid: CPU|
            (CPU { sp: s1, ..self }).wrote(mid, s1, high_byte(value)) && (CPU {
                sp: s2,
                ..mid
            }).wrote(post, s2, low_byte(value))
    }

    /// The console as the boot ROM, or the cartridge when there is no boot
    /// ROM, starts it.
    pub fn new(memory: Memory, lcd: LCD) -> (r: Self)
        requires
            memory.wf(),
            lcd.wf(),
            lcd.mode_timing <= 4583,
        ensures
            r.wf(),
            r.memory == memory,
            r.lcd == lcd,
            r.sp == 0xfffe,
            r.pc == (if memory.state is Boot {
                0u16
            } else {
                0x0100u16
            }),
            !r.halt,
            r.speed == 1,
            !r.prepare_speed,
            r.interrupts == (Interrupts { enabled: false, enable: 0, flag: 0 }),
            r.serial@.len() == 0,
            r.sb == 0 && r.sc == 0,
            r.regs.a == 0x01 && r.regs.b == 0x00 && r.regs.c == 0x13 && r.regs.d == 0x00 && r.regs.e
                == 0xd8 && r.regs.h == 0x14 && r.regs.l == 0x4d,
            r.regs.f == flags_of(0xb0),
            r.joypad.selection == Selection::Direction,
            forall|i: int| 0 <= i < 8 ==> !r.joypad.buttons@[i],
            r.joypad.flag == 0xff,
            r.timer.div == (SubTimer { timer: 0, value: 0, rate: 256 }),
            r.timer.tima == (SubTimer { timer: 0, value: 0, rate: 1024 }),
            r.timer.tma == 0,
            r.timer.tac == (TAC { start: false, clock: 0 }),
    {
        let has_bootrom = memory.has_bootrom();
        Self {
            memory,
            lcd,
            joypad: Joypad::new(),
            regs: Registers::new_boot(),
            interrupts: Interrupts::default(),
            timer: Timer::new(),
            serial: Vec::new(),
            halt: false,
            sp: 0xfffe,
            pc: if has_bootrom {
                0
            } else {
                0x0100
            },
            sb: 0,
            sc: 0,
            speed: 1,
            prepare_speed: false,
        }
    }

    pub fn lcd(&self) -> (r: &LCD)
        ensures
            *r == self.lcd,
    {
        &self.lcd
    }

    pub fn joypad(&mut self) -> (r: &mut Joypad)
        ensures
            *r == old(self).joypad,
            *final(self) == (CPU { joypad: *final(r), ..*old(self) }),
    {
        &mut self.joypad
    }

    /// The bytes sent out of the serial port so far.
    pub fn serial(&self) -> (r: &Vec<u8>)
        ensures
            r@ == self.serial@,
    {
        &self.serial
    }

    /// A read over the CPU's bus.
    pub fn read(&self, address: u16) -> (r: u8)
        requires
            self.wf(),
        ensures
            r == self.bus_read(address),
    {
        match address {
            0xff00 => self.joypad.value(),
            0xff01 => self.sb,
            0xff02 => self.sc,
            0xff04 => self.timer.div(),
            0xff05 => self.timer.tima(),
            0xff06 => self.timer.tma(),
            0xff07 => self.timer.tac(),
            0xff0f => self.interrupts.flag,
            0x8000..=0x9fff | 0xfe00..=0xfe9f | 0xff40..=0xff4b | 0xff4f | 0xff51..=0xff55
            | 0xff68..=0xff6b => self.lcd.handle_read(address),
            0xff4d => {
                proof {
                    bytes::lemma_byte_arith(0x00);
                    bytes::lemma_byte_arith(0x80);
                }
                (if self.speed == 1 {
                    0x00u8
                } else {
                    0x80u8
                }) | (if self.prepare_speed {
                    0x01u8
                } else {
                    0x0u8
                })
            },
            0xff50 => 0,
            0xffff => self.interrupts.enable,
            _ => self.memory.load(address),
        }
    }

    /// Reads the byte at the program counter and steps past it.
    pub fn read_pc(&mut self) -> (r: u8)
        requires
            old(self).wf(),
        ensures
            r == old(self).bus_read(old(self).pc),
            *final(self) == (CPU { pc: inc16(old(self).pc), ..*old(self) }),
    {
        let value = self.read(self.pc);
        self.pc = self.pc.wrapping_add(1);
        value
    }

    /// A write over the CPU's bus.
    pub fn write(&mut self, address: u16, value: u8)
        requires
            old(self).wf(),
        ensures
            final(self).wf(),
            old(self).wrote(*final(self), address, value),
    {
        proof {
            timer::lemma_tac_round_trip(value);
        }
        match address {
            0xff00 => self.joypad.select(value),
            0xff01 => self.sb = value,
            0xff02 => {
                self.serial.push(self.sb);
                self.interrupts.flag |= 0x08;
            },
            0xff04 => self.timer.reset_div(),
            0xff05 => self.timer.set_tima(value),
            0xff06 => self.timer.set_tma(value),
            0xff07 => self.timer.set_tac(value),
            0xff0f => self.interrupts.flag = value & 0x1f,
            0x8000..=0x9fff | 0xfe00..=0xfe9f | 0xff40..=0xff4b | 0xff4f | 0xff51..=0xff55
            | 0xff68..=0xff6b => self.lcd.handle_write(&self.memory, address, value),
            0xff4d => self.prepare_speed = value == 0x01,
            0xff50 => {
                if value != 0 && self.memory.can_disable_booting() {
                    self.memory.disable_booting()
                }
            },
            0xffff => self.interrupts.enable = value & 0x1f,
            _ => self.memory.store(address, value),
        }
    }
}

/// The byte that `n` stands for as a signed offset, sign-extended to 16 bits.
pub open spec fn sext16(n: u8) -> u16 {
    if n < 0x80 {
        n as u16
    } else {
        (n + 0xff00) as u16
    }
}

/// The console with new flags.
pub open spec fn with_flags(c: CPU, f: Flags) -> CPU {
    CPU { regs: Registers { f, ..c.regs }, ..c }
}

/// The console with new flags and a new accumulator.
pub open spec fn with_a(c: CPU, a: u8, f: Flags) -> CPU {
    CPU { regs: Registers { a, f, ..c.regs }, ..c }
}

/// The console after the decimal adjustment of A that follows a BCD
/// addition or subtraction.
pub open spec fn decimal_adjusted(c: CPU) -> CPU {
    let f = c.regs.f;
    let a = c.regs.a;
    let low = f.half_carry || (!f.add_sub && a % 16 > 9);
    let high = f.carry || (!f.add_sub && a > 0x99);
    let adjust = (if low {
        0x06int
    } else {
        0
    }) + (if high {
        0x60int
    } else {
        0
    });
    let a2 = (if f.add_sub {
        a - adjust + 256
    } else {
        a + adjust
    }) % 256;
    with_a(c, a2 as u8, Flags { zero: a2 == 0, half_carry: false, carry: high, ..f })
}

/// The console after a 16-bit value is added into HL: half carry out of
/// bit 11, carry out of bit 15, zero kept.
pub open spec fn added_to_hl(c: CPU, value: u16) -> CPU {
    let hl = c.regs.spec_hl();
    let sum = ((hl + value) % 0x10000) as u16;
    CPU {
        regs: Registers {
            h: high_byte(sum),
            l: low_byte(sum),
            f: Flags {
                add_sub: false,
                half_carry: hl % 0x1000 + value % 0x1000 > 0xfff,
                carry: hl + value > 0xffff,
                ..c.regs.f
            },
            ..c.regs
        },
        ..c
    }
}

/// The console after the signed offset that follows at the program
/// counter is added to SP: carry and half carry come from the low byte.
pub open spec fn added_to_sp(c: CPU) -> CPU {
    let sp = c.sp;
    let value = sext16(c.bus_read(c.pc));
    CPU {
        pc: inc16(c.pc),
        sp: ((sp + value) % 0x10000) as u16,
        regs: Registers {
            f: Flags {
                zero: false,
                add_sub: false,
                half_carry: sp % 16 + value % 16 > 0x0f,
                carry: sp % 256 + value % 256 > 0xff,
            },
            ..c.regs
        },
        ..c
    }
}

/// The flags of a logic operation: only zero can be set, and half carry as given.
pub open spec fn logic_flags(result: u8, half: bool) -> Flags {
    Flags { zero: result == 0, add_sub: false, half_carry: half, carry: false }
}

/// The flags of a shift or rotation.
pub open spec fn shift_flags(result: u8, carry: bool) -> Flags {
    Flags { zero: result == 0, add_sub: false, half_carry: false, carry }
}

impl CPU {
    pub fn op_push(&mut self, value: u16) -> (r: Timing)
        requires
            old(self).wf(),
        ensures
            final(self).wf(),
            r == 16,
            old(self).pushed(*final(self), value),
    {
        let (high, low) = bytes::extract(value);
        self.sp = self.sp.wrapping_sub(1);
        let ghost s1 = *self;
        self.write(self.sp, high);
        let ghost mid = *self;
        self.sp = self.sp.wrapping_sub(1);
        self.write(self.sp, low);
        proof {
            assert(s1 == (CPU { sp: dec16(old(self).sp), ..*old(self) }));
            assert(s1.wrote(mid, s1.sp, high));
        }
        16
    }

    pub fn op_pop(&mut self) -> (r: (u16, Timing))
        requires
            old(self).wf(),
        ensures
            r.0 == word(old(self).bus_read(inc16(old(self).sp)), old(self).bus_read(old(self).sp)),
            r.1 == 12,
            *final(self) == (CPU { sp: inc16(inc16(old(self).sp)), ..*old(self) }),
    {
        let low = self.read(self.sp);
        self.sp = self.sp.wrapping_add(1);
        let high = self.read(self.sp);
        self.sp = self.sp.wrapping_add(1);
        (bytes::assemble(high, low), 12)
    }

    /// A relative jump by the signed offset that follows, taken or not.
    pub fn op_jr(&mut self, jump: bool) -> (r: Timing)
        requires
            old(self).wf(),
        ensures
            r == (if jump { 12u16 } else { 8u16 }),
            *final(self) == (CPU {
                pc: if jump {
                    ((inc16(old(self).pc) + sext16(old(self).bus_read(old(self).pc))) % 0x10000) as u16
                } else {
                    inc16(old(self).pc)
                },
                ..*old(self)
            }),
    {
        let address = self.read_pc();
        if jump {
            let p = self.pc;
            let n = address;
            let t = (p as i16).wrapping_add(n as i8 as i16) as u16;
            assert(t == ((p + sext16(n)) % 0x10000) as u16) by (bit_vector)
                requires
                    t == (p as i16).wrapping_add(n as i8 as i16) as u16,
            ;
            self.pc = t;
            12
        } else {
            8
        }
    }

    /// The 16-bit immediate that follows, low byte first.
    pub fn op_ld_16(&mut self) -> (r: (u16, Timing))
        requires
            old(self).wf(),
        ensures
            r.0 == word(old(self).bus_read(inc16(old(self).pc)), old(self).bus_read(old(self).pc)),
            r.1 == 12,
            *final(self) == (CPU { pc: inc16(inc16(old(self).pc)), ..*old(self) }),
    {
        let low = self.read_pc();
        let high = self.read_pc();
        (bytes::assemble(high, low), 12)
    }

    /// Stores A at the 16-bit address that follows.
    pub(crate) fn op_write_16_data(&mut self) -> (r: Timing)
        requires
            old(self).wf(),
        ensures
            final(self).wf(),
            r == 16,
            (CPU { pc: inc16(inc16(old(self).pc)), ..*old(self) }).wrote(
                *final(self),
                word(old(self).bus_read(inc16(old(self).pc)), old(self).bus_read(old(self).pc)),
                old(self).regs.a,
            ),
    {
        let low = self.read_pc();
        let high = self.read_pc();
        self.write(bytes::assemble(high, low), self.regs.a);
        16
    }

    /// Loads A from the 16-bit address that follows.
    pub(crate) fn op_load_16_data(&mut self) -> (r: Timing)
        requires
            old(self).wf(),
        ensures
            r == 16,
            *final(self) == (CPU {
                pc: inc16(inc16(old(self).pc)),
                regs: Registers {
                    a: old(self).bus_read(
                        word(old(self).bus_read(inc16(old(self).pc)), old(self).bus_read(old(self).pc)),
                    ),
                    ..old(self).regs
                },
                ..*old(self)
            }),
    {
        let low = self.read_pc();
        let high = self.read_pc();
        self.regs.a = self.read(bytes::assemble(high, low));
        16
    }

    pub fn op_inc(&mut self, value: u8) -> (r: (u8, Timing))
        ensures
            r.0 == (value + 1) % 256,
            r.1 == 4,
            *final(self) == with_flags(
                *old(self),
                Flags {
                    zero: r.0 == 0,
                    add_sub: false,
                    half_carry: value & 0x0f == 0x0f,
                    carry: old(self).regs.f.carry,
                },
            ),
    {
        self.regs.f.add_sub = false;
        self.regs.f.half_carry = (value & 0x0f) == 0x0f;
        let value = value.wrapping_add(1);
        self.regs.f.zero = value == 0;
        (value, 4)
    }

    pub fn op_dec(&mut self, value: u8) -> (r: (u8, Timing))
        ensures
            r.0 == (value + 255) % 256,
            r.1 == 4,
            *final(self) == with_flags(
                *old(self),
                Flags {
                    zero: r.0 == 0,
                    add_sub: true,
                    half_carry: value & 0x0f == 0x00,
                    carry: old(self).regs.f.carry,
                },
            ),
    {
        self.regs.f.add_sub = true;
        self.regs.f.half_carry = (value & 0x0f) == 0x00;
        let value = value.wrapping_sub(1);
        self.regs.f.zero = value == 0;
        (value, 4)
    }

    /// Rotates left; bit 7 goes to both carry and bit 0.
    pub fn op_rl(&mut self, value: u8) -> (r: (u8, Timing))
        ensures
            r.0 == (value * 2) % 256 + value / 128,
            r.1 == 8,
            *final(self) == with_flags(*old(self), shift_flags(r.0, value >= 128)),
    {
        self.regs.f.carry = value & 0x80 != 0;
        let c: u8 = if self.regs.f.carry { 1 } else { 0 };
        proof {
            bytes::lemma_byte_arith(value);
            bytes::lemma_shift_in(value, c);
        }
        let value = (value << 1) | c;
        self.regs.f.zero = value == 0;
        self.regs.f.add_sub = false;
        self.regs.f.half_carry = false;
        (value, 8)
    }

    /// Rotates left through the carry flag.
    pub fn op_rlc(&mut self, value: u8) -> (r: (u8, Timing))
        ensures
            r.0 == (value * 2) % 256 + (if old(self).regs.f.carry { 1int } else { 0 }),
            r.1 == 8,
            *final(self) == with_flags(*old(self), shift_flags(r.0, value >= 128)),
    {
        let carry = self.regs.f.carry;
        self.regs.f.carry = value & 0x80 != 0;
        let c: u8 = if carry { 1 } else { 0 };
        proof {
            bytes::lemma_byte_arith(value);
            bytes::lemma_shift_in(value, c);
        }
        let value = (value << 1) | c;
        self.regs.f.zero = value == 0;
        self.regs.f.add_sub = false;
        self.regs.f.half_carry = false;
        (value, 8)
    }

    /// Rotates right; bit 0 goes to both carry and bit 7.
    pub fn op_rr(&mut self, value: u8) -> (r: (u8, Timing))
        ensures
            r.0 == value / 2 + (value % 2) * 128,
            r.1 == 8,
            *final(self) == with_flags(*old(self), shift_flags(r.0, value % 2 == 1)),
    {
        self.regs.f.carry = value & 0x01 != 0;
        let c: u8 = if self.regs.f.carry { 0x80 } else { 0x00 };
        proof {
            bytes::lemma_byte_arith(value);
            bytes::lemma_shift_in(value, c);
        }
        let value = (value >> 1) | c;
        self.regs.f.zero = value == 0;
        self.regs.f.add_sub = false;
        self.regs.f.half_carry = false;
        (value, 8)
    }

    /// Rotates right through the carry flag.
    pub fn op_rrc(&mut self, value: u8) -> (r: (u8, Timing))
        ensures
            r.0 == value / 2 + (if old(self).regs.f.carry { 128int } else { 0 }),
            r.1 == 8,
            *final(self) == with_flags(*old(self), shift_flags(r.0, value % 2 == 1)),
    {
        let carry = self.regs.f.carry;
        self.regs.f.carry = value & 0x01 != 0;
        let c: u8 = if carry { 0x80 } else { 0x00 };
        proof {
            bytes::lemma_byte_arith(value);
            bytes::lemma_shift_in(value, c);
        }
        let value = (value >> 1) | c;
        self.regs.f.zero = value == 0;
        self.regs.f.add_sub = false;
        self.regs.f.half_carry = false;
        (value, 8)
    }

    /// Decimal adjustment of A after a BCD addition or subtraction.
    pub fn op_daa(&mut self) -> (r: Timing)
        ensures
            r == 4,
            *final(self) == decimal_adjusted(*old(self)),
    {
        let mut adjust: u8 = 0;
        let mut carry = false;
        let a = self.regs.a;
        assert(a & 0x0f == a % 16) by {
            bytes::lemma_byte_arith(a);
        }
        assert((0u8 | 0x06u8) == 6u8 && (0u8 | 0x60u8) == 0x60u8 && (6u8 | 0x60u8) == 0x66u8) by {
            bytes::lemma_byte_arith(0);
            bytes::lemma_byte_arith(6);
        }
        if self.regs.f.half_carry || (!self.regs.f.add_sub && (self.regs.a & 0x0f) > 0x09) {
            adjust |= 0x06;
        }
        if self.regs.f.carry || (!self.regs.f.add_sub && (self.regs.a > 0x99)) {
            adjust |= 0x60;
            carry = true;
        }
        self.regs.a = if self.regs.f.add_sub {
            self.regs.a.wrapping_sub(adjust)
        } else {
            self.regs.a.wrapping_add(adjust)
        };
        self.regs.f.half_carry = false;
        self.regs.f.carry = carry;
        self.regs.f.zero = self.regs.a == 0;
        4
    }

    /// Adds a 16-bit value into HL.
    pub fn op_add_hl(&mut self, value: u16) -> (r: Timing)
        ensures
            r == 8,
            *final(self) == added_to_hl(*old(self), value),
    {
        let hl = self.regs.hl();
        let result = hl.wrapping_add(value);
        let carry = (hl as u32) + (value as u32) > 0xffff;
        self.regs.f.add_sub = false;
        assert((hl & 0x0fff) == hl % 0x1000 && (value & 0x0fff) == value % 0x1000) by {
            bytes::lemma_word_arith(hl);
            bytes::lemma_word_arith(value);
        }
        self.regs.f.half_carry = (self.regs.hl() & 0x0fff) + (value & 0x0fff) > 0x0fff;
        self.regs.f.carry = carry;
        self.regs.set_hl(result);
        8
    }

    pub fn op_add(&mut self, value: u8) -> (r: Timing)
        ensures
            r == 4,
            ({
                let a = old(self).regs.a;
                let sum = (a + value) % 256;
                *final(self) == with_a(
                    *old(self),
                    sum as u8,
                    Flags {
                        zero: sum == 0,
                        add_sub: false,
                        half_carry: a % 16 + value % 16 > 0x0f,
                        carry: a + value > 0xff,
                    },
                )
            }),
    {
        self.regs.f.carry = false;
        self.op_adc(value);
        4
    }

    /// Adds a byte and the carry flag into A.
    pub fn op_adc(&mut self, value: u8) -> (r: Timing)
        ensures
            r == 4,
            ({
                let a = old(self).regs.a;
                let c: int = if old(self).regs.f.carry { 1 } else { 0 };
                let sum = (a + value + c) % 256;
                *final(self) == with_a(
                    *old(self),
                    sum as u8,
                    Flags {
                        zero: sum == 0,
                        add_sub: false,
                        half_carry: a % 16 + value % 16 + c > 0x0f,
                        carry: a + value + c > 0xff,
                    },
                )
            }),
    {
        let c: u8 = if self.regs.f.carry { 1 } else { 0 };
        let a = self.regs.a;
        assert((a & 0x0f) == a % 16 && (value & 0x0f) == value % 16) by {
            bytes::lemma_byte_arith(a);
            bytes::lemma_byte_arith(value);
        }
        self.regs.f.add_sub = false;
        self.regs.f.carry = (self.regs.a as u16) + (value as u16) + (c as u16) > 0xff;
        self.regs.f.half_carry = (self.regs.a & 0x0f) + (value & 0x0f) + c > 0x0f;
        self.regs.a = self.regs.a.wrapping_add(value).wrapping_add(c);
        self.regs.f.zero = self.regs.a == 0;
        4
    }

    pub fn op_sub(&mut self, value: u8) -> (r: Timing)
        ensures
            r == 4,
            ({
                let a = old(self).regs.a;
                let diff = (a - value + 256) % 256;
                *final(self) == with_a(
                    *old(self),
                    diff as u8,
                    Flags {
                        zero: diff == 0,
                        add_sub: true,
                        half_carry: a % 16 < value % 16,
                        carry: a < value,
                    },
                )
            }),
    {
        self.regs.f.carry = false;
        self.op_sbc(value);
        4
    }

    /// Subtracts a byte and the carry flag from A.
    pub fn op_sbc(&mut self, value: u8) -> (r: Timing)
        ensures
            r == 4,
            ({
                let a = old(self).regs.a;
                let c: int = if old(self).regs.f.carry { 1 } else { 0 };
                let diff = (a - value - c + 512) % 256;
                *final(self) == with_a(
                    *old(self),
                    diff as u8,
                    Flags {
                        zero: diff == 0,
                        add_sub: true,
                        half_carry: a % 16 < value % 16 + c,
                        carry: a < value + c,
                    },
                )
            }),
    {
        let c: u8 = if self.regs.f.carry { 1 } else { 0 };
        let a = self.regs.a;
        assert((a & 0x0f) == a % 16 && (value & 0x0f) == value % 16) by {
            bytes::lemma_byte_arith(a);
            bytes::lemma_byte_arith(value);
        }
        self.regs.f.add_sub = true;
        self.regs.f.carry = (self.regs.a as u16) < (value as u16) + (c as u16);
        self.regs.f.half_carry = (self.regs.a & 0x0f) < (value & 0x0f) + c;
        self.regs.a = self.regs.a.wrapping_sub(value).wrapping_sub(c);
        self.regs.f.zero = self.regs.a == 0;
        4
    }

    pub fn op_and(&mut self, value: u8) -> (r: Timing)
        ensures
            r == 4,
            *final(self) == with_a(
                *old(self),
                old(self).regs.a & value,
                logic_flags(old(self).regs.a & value, true),
            ),
    {
        self.regs.a = self.regs.a & value;
        self.regs.f.zero = self.regs.a == 0;
        self.regs.f.add_sub = false;
        self.regs.f.half_carry = true;
        self.regs.f.carry = false;
        4
    }

    pub fn op_xor(&mut self, value: u8) -> (r: Timing)
        ensures
            r == 4,
            *final(self) == with_a(
                *old(self),
                old(self).regs.a ^ value,
                logic_flags(old(self).regs.a ^ value, false),
            ),
    {
        self.regs.a = self.regs.a ^ value;
        self.regs.f.zero = self.regs.a == 0;
        self.regs.f.add_sub = false;
        self.regs.f.half_carry = false;
        self.regs.f.carry = false;
        4
    }

    pub fn op_or(&mut self, value: u8) -> (r: Timing)
        ensures
            r == 4,
            *final(self) == with_a(
                *old(self),
                old(self).regs.a | value,
                logic_flags(old(self).regs.a | value, false),
            ),
    {
        self.regs.a = self.regs.a | value;
        self.regs.f.zero = self.regs.a == 0;
        self.regs.f.add_sub = false;
        self.regs.f.half_carry = false;
        self.regs.f.carry = false;
        4
    }

    /// Compares A with a byte: the flags of the subtraction, A unchanged.
    pub fn op_cp(&mut self, value: u8) -> (r: Timing)
        ensures
            r == 4,
            ({
                let a = old(self).regs.a;
                *final(self) == with_flags(
                    *old(self),
                    Flags {
                        zero: a == value,
                        add_sub: true,
                        half_carry: a % 16 < value % 16,
                        carry: a < value,
                    },
                )
            }),
    {
        let a = self.regs.a;
        self.op_sub(value);
        self.regs.a = a;
        4
    }
}

impl CPU {
    /// Returns from a call, if `jump`.
    pub fn op_ret(&mut self, jump: bool) -> (r: Timing)
        requires
            old(self).wf(),
        ensures
            r == (if jump { 20u16 } else { 8u16 }),
            *final(self) == (if jump {
                CPU {
                    sp: inc16(inc16(old(self).sp)),
                    pc: word(old(self).bus_read(inc16(old(self).sp)), old(self).bus_read(old(self).sp)),
                    ..*old(self)
                }
            } else {
                *old(self)
            }),
    {
        if jump {
            self.pc = self.op_pop().0;
            20
        } else {
            8
        }
    }

    /// Jumps to the 16-bit address that follows, if `jump`.
    pub fn op_jp(&mut self, jump: bool) -> (r: Timing)
        requires
            old(self).wf(),
        ensures
            r == (if jump { 16u16 } else { 12u16 }),
            *final(self) == (CPU {
                pc: if jump {
                    word(old(self).bus_read(inc16(old(self).pc)), old(self).bus_read(old(self).pc))
                } else {
                    inc16(inc16(old(self).pc))
                },
                ..*old(self)
            }),
    {
        let low = self.read_pc();
        let high = self.read_pc();
        if jump {
            self.pc = bytes::assemble(high, low);
            16
        } else {
            12
        }
    }

    /// Calls the 16-bit address that follows, if `jump`: the address of the
    /// next instruction is pushed.
    pub fn op_call(&mut self, jump: bool) -> (r: Timing)
        requires
            old(self).wf(),
        ensures
            final(self).wf(),
            r == (if jump { 24u16 } else { 12u16 }),
            ({
                let next = inc16(inc16(old(self).pc));
                let target = word(old(self).bus_read(inc16(old(self).pc)), old(self).bus_read(old(self).pc));
                if jump {
                    &&& final(self).pc == target
                    &&& (CPU { pc: next, ..*old(self) }).pushed(CPU { pc: next, ..*final(self) }, next)
                } else {
                    *final(self) == (CPU { pc: next, ..*old(self) })
                }
            }),
    {
        let low = self.read_pc();
        let high = self.read_pc();
        if jump {
            self.op_push(self.pc);
            self.pc = bytes::assemble(high, low);
            24
        } else {
            12
        }
    }

    /// Calls a fixed address: the program counter is pushed.
    pub fn op_rst(&mut self, offset: u8) -> (r: Timing)
        requires
            old(self).wf(),
        ensures
            final(self).wf(),
            r == 16,
            final(self).pc == offset as u16,
            old(self).pushed(CPU { pc: old(self).pc, ..*final(self) }, old(self).pc),
    {
        self.op_push(self.pc);
        self.pc = offset as u16;
        16
    }

    /// Adds the signed offset that follows to SP; carry and half carry come
    /// from the low byte.
    pub fn op_add_sp(&mut self) -> (r: Timing)
        requires
            old(self).wf(),
        ensures
            r == 16,
            *final(self) == added_to_sp(*old(self)),
    {
        let n = self.read_pc();
        let value = n as i8 as i16 as u16;
        let sp = self.sp;
        assert(value == sext16(n)) by (bit_vector)
            requires
                value == n as i8 as i16 as u16,
        ;
        assert((sp & 0x00ff) == sp % 256 && (value & 0x00ff) == value % 256 && (sp & 0x000f) == sp
            % 16 && (value & 0x000f) == value % 16) by {
            bytes::lemma_word_arith(sp);
            bytes::lemma_word_arith(value);
        }
        self.regs.f.carry = (self.sp & 0x00ff) + (value & 0x00ff) > 0x00ff;
        self.regs.f.half_carry = (self.sp & 0x000f) + (value & 0x000f) > 0x000f;
        self.regs.f.zero = false;
        self.regs.f.add_sub = false;
        self.sp = self.sp.wrapping_add(value);
        16
    }

    /// Shifts left; bit 7 goes to carry.
    pub fn op_sll(&mut self, value: u8) -> (r: (u8, Timing))
        ensures
            r.0 == (value * 2) % 256,
            r.1 == 8,
            *final(self) == with_flags(*old(self), shift_flags(r.0, value >= 128)),
    {
        proof {
            bytes::lemma_byte_arith(value);
        }
        self.regs.f.carry = (value & 0x80) != 0;
        let value = value << 1;
        self.regs.f.zero = value == 0;
        self.regs.f.add_sub = false;
        self.regs.f.half_carry = false;
        (value, 8)
    }

    /// Shifts right; bit 0 goes to carry, bit 7 becomes 0.
    pub fn op_srl(&mut self, value: u8) -> (r: (u8, Timing))
        ensures
            r.0 == value / 2,
            r.1 == 8,
            *final(self) == with_flags(*old(self), shift_flags(r.0, value % 2 == 1)),
    {
        proof {
            bytes::lemma_byte_arith(value);
        }
        self.regs.f.carry = (value & 0x01) != 0;
        let value = value >> 1;
        self.regs.f.zero = value == 0;
        self.regs.f.add_sub = false;
        self.regs.f.half_carry = false;
        (value, 8)
    }

    /// Shifts right keeping bit 7; bit 0 goes to carry.
    pub fn op_sr(&mut self, value: u8) -> (r: (u8, Timing))
        ensures
            r.0 == value / 2 + (if value >= 128 { 128int } else { 0 }),
            r.1 == 8,
            *final(self) == with_flags(*old(self), shift_flags(r.0, value % 2 == 1)),
    {
        proof {
            bytes::lemma_byte_arith(value);
        }
        self.regs.f.carry = (value & 0x01) != 0;
        let value = (value >> 1) | (value & 0x80);
        self.regs.f.zero = value == 0;
        self.regs.f.add_sub = false;
        self.regs.f.half_carry = false;
        (value, 8)
    }

    /// Swaps the two nibbles.
    pub fn op_swap(&mut self, value: u8) -> (r: (u8, Timing))
        ensures
            r.0 == (value % 16) * 16 + value / 16,
            r.1 == 8,
            *final(self) == with_flags(*old(self), logic_flags(r.0, false)),
    {
        proof {
            bytes::lemma_byte_arith(value);
        }
        let value = (value << 4) | (value >> 4);
        self.regs.f.zero = value == 0;
        self.regs.f.add_sub = false;
        self.regs.f.half_carry = false;
        self.regs.f.carry = false;
        (value, 8)
    }

    /// Tests bit `bit`: zero is set when it is clear.
    pub fn op_bit(&mut self, value: u8, bit: u8) -> (r: Timing)
        requires
            bit < 8,
        ensures
            r == 8,
            *final(self) == with_flags(
                *old(self),
                Flags {
                    zero: (value >> bit) & 0x01 == 0,
                    add_sub: false,
                    half_carry: true,
                    carry: old(self).regs.f.carry,
                },
            ),
    {
        self.regs.f.zero = ((value >> bit) & 0x01) == 0;
        self.regs.f.add_sub = false;
        self.regs.f.half_carry = true;
        8
    }

    /// Clears bit `bit`.
    pub fn op_res(&mut self, value: u8, bit: u8) -> (r: (u8, Timing))
        requires
            bit < 8,
        ensures
            r == (value & !(0x01u8 << bit), 8u16),
            *final(self) == *old(self),
    {
        (value & !(0x01 << bit), 8)
    }

    /// Sets bit `bit`.
    pub fn op_set(&mut self, value: u8, bit: u8) -> (r: (u8, Timing))
        requires
            bit < 8,
        ensures
            r == (value | (0x01u8 << bit), 8u16),
            *final(self) == *old(self),
    {
        (value | (0x01 << bit), 8)
    }

    /// Services the lowest requested interrupt when interrupts are enabled
    /// and one is both requested and enabled; a halted CPU with interrupts
    /// disabled wakes on any request.  Returns the ticks taken, if any.
    pub(crate) fn handle_interrupts(&mut self) -> (r: Option<Timing>)
        requires
            old(self).wf(),
        ensures
            final(self).wf(),
            interrupts_handled(*old(self), *final(self), r),
    {
        let has_interrupt = (self.interrupts.enable & self.interrupts.flag) != 0;
        if !self.interrupts.enabled || !has_interrupt {
            if !self.interrupts.enabled && self.interrupts.flag > 0 && self.halt {
                self.halt = false;
                return Some(4);
            }
            return None;
        }
        let ghost flag = self.interrupts.flag;
        let mut i: u8 = 0;
        while i <= 4 && self.interrupts.flag & request_mask(i) == 0
            invariant
                i <= 5,
                flag == self.interrupts.flag,
                forall|j: int| 0 <= j < i ==> flag & #[trigger] request_bit(j) == 0,
            decreases 5 - i,
        {
            i = i + 1;
        }
        if i <= 4 {
            assert(lowest_request(flag) == i);
            let bit = request_mask(i);
            self.interrupts.flag &= !bit;
            self.interrupts.enabled = false;
            self.op_push(self.pc);
            self.pc = 0x40 + (i as u16) * 0x08;
            self.halt = false;
        } else {
            assert(lowest_request(flag) == 5);
        }
        Some(12)
    }
}

/// A byte written over the bus to work RAM, its echo or high RAM is what a
/// read of the same address over the bus then gives.
pub proof fn lemma_bus_write_read(c: CPU, post: CPU, address: u16, value: u8)
    requires
        c.wf(),
        plain_ram(address),
        c.wrote(post, address, value),
    ensures
        post.bus_read(address) == value,
{
    memory::lemma_ram_write_read(c.memory, post.memory, address, value);
}

/// Popping right after a push gives back the pushed word and the stack
/// pointer, when the two stack bytes are plain RAM.
pub proof fn lemma_push_pop(c: CPU, post: CPU, value: u16)
    requires
        c.wf(),
        c.pushed(post, value),
        plain_ram(dec16(c.sp)),
        plain_ram(dec16(dec16(c.sp))),
    ensures
        inc16(inc16(post.sp)) == c.sp,
        word(post.bus_read(inc16(post.sp)), post.bus_read(post.sp)) == value,
{
    let s1 = dec16(c.sp);
    let s2 = dec16(s1);
    let mid = choose|mid: CPU|
        (CPU { sp: s1, ..c }).wrote(mid, s1, high_byte(value)) && (CPU { sp: s2, ..mid }).wrote(
            post,
            s2,
            low_byte(value),
        );
    memory::lemma_ram_write_read(c.memory, mid.memory, s1, high_byte(value));
    memory::lemma_ram_write_read(mid.memory, post.memory, s2, low_byte(value));
    memory::lemma_ram_write_other(mid.memory, post.memory, s2, low_byte(value), s1);
    crate::bytes::lemma_assemble_extract(value);
}

} // verus!
