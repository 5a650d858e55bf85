use vstd::prelude::*;
use crate::bytes;
use crate::bytes::{high_byte, low_byte, word};
use crate::cpu::{
    CPU, Flags, Interrupts, Registers, added_to_hl, added_to_sp, dec16, decimal_adjusted, flags_of,
    inc16, interrupts_handled, logic_flags, lowest_request, sext16, shift_flags, with_a, with_flags,
};
use crate::timer::{SubTimer, Timer};
use crate::timer::Timing;

verus! {

/// Whether the instruction set defines the opcode.
pub open spec fn defined_opcode(op: u8) -> bool {
    !(op == 0xd3 || op == 0xdb || op == 0xdd || op == 0xe3 || op == 0xe4 || op == 0xeb || op == 0xec
        || op == 0xed || op == 0xf4 || op == 0xfc || op == 0xfd)
}

/// Whether the opcode is defined.
pub fn is_defined_opcode(op: u8) -> (r: bool)
    ensures
        r == defined_opcode(op),
{
    !(op == 0xd3 || op == 0xdb || op == 0xdd || op == 0xe3 || op == 0xe4 || op == 0xeb || op == 0xec
        || op == 0xed || op == 0xf4 || op == 0xfc || op == 0xfd)
}

/// The 8-bit operand that three bits of an opcode name: B, C, D, E, H, L,
/// the byte at HL, A.
pub open spec fn operand(cpu: CPU, i: int) -> u8 {
    if i == 0 {
        cpu.regs.b
    } else if i == 1 {
        cpu.regs.c
    } else if i == 2 {
        cpu.regs.d
    } else if i == 3 {
        cpu.regs.e
    } else if i == 4 {
        cpu.regs.h
    } else if i == 5 {
        cpu.regs.l
    } else if i == 6 {
        cpu.bus_read(cpu.regs.spec_hl())
    } else {
        cpu.regs.a
    }
}

/// The registers with the one that index `i` (other than 6) names set to `v`.
pub open spec fn with_register(regs: Registers, i: int, v: u8) -> Registers {
    if i == 0 {
        Registers { b: v, ..regs }
    } else if i == 1 {
        Registers { c: v, ..regs }
    } else if i == 2 {
        Registers { d: v, ..regs }
    } else if i == 3 {
        Registers { e: v, ..regs }
    } else if i == 4 {
        Registers { h: v, ..regs }
    } else if i == 5 {
        Registers { l: v, ..regs }
    } else {
        Registers { a: v, ..regs }
    }
}

/// How storing `v` into operand `i` takes the console from `cpu` to `post`.
pub open spec fn stored(cpu: CPU, post: CPU, i: int, v: u8) -> bool {
    if i == 6 {
        cpu.wrote(post, cpu.regs.spec_hl(), v)
    } else {
        post == CPU { regs: with_register(cpu.regs, i, v), ..cpu }
    }
}

/// The console after the 8-bit operation `kind` of A with `value`: add,
/// add with carry, subtract, subtract with carry, and, xor, or, compare.
pub open spec fn alu(cpu: CPU, kind: int, value: u8) -> CPU {
    let a = cpu.regs.a;
    let c: int = if cpu.regs.f.carry { 1 } else { 0 };
    if kind == 0 {
        let sum = (a + value) % 256;
        with_a(
            cpu,
            sum as u8,
            Flags {
                zero: sum == 0,
                add_sub: false,
                half_carry: a % 16 + value % 16 > 0x0f,
                carry: a + value > 0xff,
            },
        )
    } else if kind == 1 {
        let sum = (a + value + c) % 256;
        with_a(
            cpu,
            sum as u8,
            Flags {
                zero: sum == 0,
                add_sub: false,
                half_carry: a % 16 + value % 16 + c > 0x0f,
                carry: a + value + c > 0xff,
            },
        )
    } else if kind == 2 {
        let diff = (a - value + 256) % 256;
        with_a(
            cpu,
            diff as u8,
            Flags {
                zero: diff == 0,
                add_sub: true,
                half_carry: a % 16 < value % 16,
                carry: a < value,
            },
        )
    } else if kind == 3 {
        let diff = (a - value - c + 512) % 256;
        with_a(
            cpu,
            diff as u8,
            Flags {
                zero: diff == 0,
                add_sub: true,
                half_carry: a % 16 < value % 16 + c,
                carry: a < value + c,
            },
        )
    } else if kind == 4 {
        with_a(cpu, a & value, logic_flags(a & value, true))
    } else if kind == 5 {
        with_a(cpu, a ^ value, logic_flags(a ^ value, false))
    } else if kind == 6 {
        with_a(cpu, a | value, logic_flags(a | value, false))
    } else {
        with_flags(
            cpu,
            Flags { zero: a == value, add_sub: true, half_carry: a % 16 < value % 16, carry: a < value },
        )
    }
}

/// ADD and SUB of A: SUB undoes ADD, ADD gives the sum modulo 256 and
/// carries exactly when it wraps, SUB borrows exactly when the subtrahend is
/// the larger and gives zero exactly when the two are equal.
pub proof fn lemma_add_sub(cpu: CPU, v: u8)
    ensures
        ({
            let a = cpu.regs.a;
            let add = alu(cpu, 0, v);
            let sub = alu(cpu, 2, v);
            &&& alu(add, 2, v).regs.a == a
            &&& add.regs.a == (a + v) % 256
            &&& add.regs.f.carry == (add.regs.a < a)
            &&& add.regs.f.zero == (add.regs.a == 0)
            &&& sub.regs.a == (a + 256 - v) % 256
            &&& sub.regs.f.carry == (a < v)
            &&& sub.regs.f.zero == (a == v)
        }),
{
    let a = cpu.regs.a;
    let add = alu(cpu, 0, v);
    let s = add.regs.a;
    assert(s == (a + v) % 256);
    assert(a + v < 256 ==> s == a + v);
    assert(a + v >= 256 ==> s == a + v - 256);
    assert(alu(add, 2, v).regs.a == (s - v + 256) % 256);
}

/// CP sets the flags of SUB but keeps A; ADC and SBC are ADD and SUB when
/// carry is clear, and add or take one more when it is set.
#[verifier::spinoff_prover]
#[verifier::rlimit(30)]
pub proof fn lemma_cp_adc_sbc(cpu: CPU, v: u8)
    ensures
        ({
            let a = cpu.regs.a;
            let add = alu(cpu, 0, v);
            let sub = alu(cpu, 2, v);
            &&& alu(cpu, 7, v).regs.a == a && alu(cpu, 7, v).regs.f == sub.regs.f
            &&& !cpu.regs.f.carry ==> alu(cpu, 1, v) == add && alu(cpu, 3, v) == sub
            &&& cpu.regs.f.carry ==> alu(cpu, 1, v).regs.a == (add.regs.a + 1) % 256
                && alu(cpu, 3, v).regs.a == (sub.regs.a + 255) % 256
        }),
{
    let a = cpu.regs.a;
    let c: int = if cpu.regs.f.carry { 1 } else { 0 };
    assert((a + v + c) % 256 == ((a + v) % 256 + c) % 256);
    assert((a - v - c + 512) % 256 == ((a - v + 256) % 256 + 256 - c) % 256);
}

/// XOR of A with itself clears A; AND with `0xff` and OR with 0 keep it.
pub proof fn lemma_logic_identities(cpu: CPU)
    ensures
        alu(cpu, 5, cpu.regs.a).regs.a == 0 && alu(cpu, 5, cpu.regs.a).regs.f.zero,
        alu(cpu, 4, 0xff).regs.a == cpu.regs.a,
        alu(cpu, 6, 0).regs.a == cpu.regs.a,
{
    let a = cpu.regs.a;
    assert(a ^ a == 0 && a & 0xff == a && a | 0 == a) by (bit_vector);
}

/// No 8-bit operation of A changes anything but A and the flags.
pub proof fn lemma_alu_frame(cpu: CPU, v: u8, k: int)
    requires
        0 <= k < 8,
    ensures
        alu(cpu, k, v) == (CPU {
            regs: Registers { a: alu(cpu, k, v).regs.a, f: alu(cpu, k, v).regs.f, ..cpu.regs },
            ..cpu
        }),
{
}

/// How the rotations and shifts of the 0xcb prefix relate: SWAP undone by
/// SWAP, RLC by RRC, RL by RR given the carry that RL put out; the carry put
/// out is the bit that falls off (bit 7 to the left, bit 0 to the right), and
/// the rotations without carry bring it back in at the other end; SLA and
/// SRL are RL and RR with the carry clear, and SRA keeps bit 7.
pub proof fn lemma_shift_relations(v: u8, c: bool, c2: bool)
    ensures
        shifted(6, shifted(6, v, c), c2) == v,
        shifted(1, shifted(0, v, c), c2) == v,
        shifted(3, shifted(2, v, c), v >= 128) == v,
        forall|k: int|
            0 <= k < 8 && k != 6 ==> (#[trigger] shifted_flags(k, v, shifted(k, v, c))).carry == (
            if k == 0 || k == 2 || k == 4 {
                v >= 128
            } else {
                v % 2 == 1
            }),
        shifted(0, v, c) % 2 == (if v >= 128 { 1int } else { 0 }),
        shifted(1, v, c) >= 128 <==> v % 2 == 1,
        shifted(4, v, c) == shifted(2, v, false),
        shifted(7, v, c) == shifted(3, v, false),
        shifted(5, v, c) >= 128 <==> v >= 128,
        shifted(5, v, c) % 128 == v / 2 % 128,
{
}

/// BIT reports in zero whether the bit of the operand is clear and changes
/// no register but F; RES clears and SET sets the bit of a register operand
/// and keep its other bits.
pub proof fn lemma_bit_ops(cpu: CPU, post: CPU, cb: u8, j: u8)
    requires
        cb >= 0x40,
        cb % 8 != 6,
        cb_post(cpu, post, cb),
        j < 8,
    ensures
        ({
            let i = (cb % 8) as int;
            let bit = ((cb / 8) % 8) as u8;
            let v = operand(cpu, i);
            let w = operand(post, i);
            &&& cb <= 0x7f ==> post.regs.f.zero == ((v >> bit) % 2 == 0) && w == v
                && post.regs.a == cpu.regs.a
            &&& cb >= 0x80 ==> (w >> bit) % 2 == (if cb >= 0xc0 { 1int } else { 0 })
            &&& cb >= 0x80 && j != bit ==> (w >> j) % 2 == (v >> j) % 2
        }),
{
    let i = (cb % 8) as int;
    let bit = ((cb / 8) % 8) as u8;
    let v = operand(cpu, i);
    assert(bit < 8);
    assert({
        &&& (v >> bit) & 0x01 == (v >> bit) % 2
        &&& ((v & !(0x01u8 << bit)) >> bit) % 2 == 0
        &&& ((v | (0x01u8 << bit)) >> bit) % 2 == 1
        &&& j != bit ==> ((v & !(0x01u8 << bit)) >> j) % 2 == (v >> j) % 2
        &&& j != bit ==> ((v | (0x01u8 << bit)) >> j) % 2 == (v >> j) % 2
    }) by (bit_vector)
        requires
            bit < 8,
            j < 8,
    ;
}

/// Whether both nibbles of a byte are decimal digits (packed BCD).
pub open spec fn is_bcd(x: u8) -> bool {
    x / 16 <= 9 && x % 16 <= 9
}

/// The number below 100 that a packed BCD byte stands for.
pub open spec fn bcd_value(x: u8) -> int {
    (x / 16) * 10 + x % 16
}

/// The packed BCD byte of a number below 100.
pub open spec fn bcd_byte(n: int) -> u8 {
    ((n / 10) * 16 + n % 10) as u8
}

/// DAA right after ADD of two packed BCD bytes leaves in A the BCD digits
/// of the decimal sum modulo 100, sets carry when the sum reaches 100 and
/// zero when A is 0, and clears half carry and the subtraction flag.
pub proof fn lemma_daa_after_bcd_add(cpu: CPU, b: u8)
    requires
        is_bcd(cpu.regs.a),
        is_bcd(b),
    ensures
        ({
            let n = bcd_value(cpu.regs.a) + bcd_value(b);
            let r = bcd_byte(n % 100);
            decimal_adjusted(alu(cpu, 0, b)) == with_a(
                cpu,
                r,
                Flags { zero: r == 0, add_sub: false, half_carry: false, carry: n >= 100 },
            )
        }),
{
    lemma_daa_add_byte(cpu.regs.a, b);
}

/// DAA right after SUB of two packed BCD bytes leaves in A the BCD digits
/// of the decimal difference modulo 100, sets carry when the subtrahend is
/// the larger and zero when A is 0, clears half carry and keeps the
/// subtraction flag.
pub proof fn lemma_daa_after_bcd_sub(cpu: CPU, b: u8)
    requires
        is_bcd(cpu.regs.a),
        is_bcd(b),
    ensures
        ({
            let n = bcd_value(cpu.regs.a) + 100 - bcd_value(b);
            let r = bcd_byte(n % 100);
            decimal_adjusted(alu(cpu, 2, b)) == with_a(
                cpu,
                r,
                Flags {
                    zero: r == 0,
                    add_sub: true,
                    half_carry: false,
                    carry: bcd_value(cpu.regs.a) < bcd_value(b),
                },
            )
        }),
{
    lemma_daa_sub_byte(cpu.regs.a, b);
}

/// The byte arithmetic of DAA after ADD of two packed BCD bytes.
proof fn lemma_daa_add_byte(a: u8, b: u8)
    requires
        a / 16 <= 9 && a % 16 <= 9 && b / 16 <= 9 && b % 16 <= 9,
    ensures
        ({
            let s = ((a + b) % 256) as u8;
            let low = a % 16 + b % 16 > 0x0f || s % 16 > 9;
            let high = a + b > 0xff || s > 0x99;
            let adjust = (if low { 0x06int } else { 0 }) + (if high { 0x60int } else { 0 });
            let n = (a / 16) * 10 + a % 16 + (b / 16) * 10 + b % 16;
            &&& (((s + adjust) % 256) as u8) == (((n % 100) / 10) * 16 + (n % 100) % 10) as u8
            &&& high == (n >= 100)
        }),
{
    assert({
        let s = ((a + b) % 256) as u8;
        let low = a % 16 + b % 16 > 0x0f || s % 16 > 9;
        let high = a + b > 0xff || s > 0x99;
        let adjust = (if low { 0x06int } else { 0 }) + (if high { 0x60int } else { 0 });
        let n = (a / 16) * 10 + a % 16 + (b / 16) * 10 + b % 16;
        &&& (((s + adjust) % 256) as u8) == (((n % 100) / 10) * 16 + (n % 100) % 10) as u8
        &&& high == (n >= 100)
    }) by (bit_vector)
        requires
            a / 16 <= 9 && a % 16 <= 9 && b / 16 <= 9 && b % 16 <= 9,
    ;
}

/// The byte arithmetic of DAA after SUB of two packed BCD bytes.
proof fn lemma_daa_sub_byte(a: u8, b: u8)
    requires
        a / 16 <= 9 && a % 16 <= 9 && b / 16 <= 9 && b % 16 <= 9,
    ensures
        ({
            let s = ((a - b + 256) % 256) as u8;
            let low = a % 16 < b % 16;
            let high = a < b;
            let adjust = (if low { 0x06int } else { 0 }) + (if high { 0x60int } else { 0 });
            let n = (a / 16) * 10 + a % 16 + 100 - ((b / 16) * 10 + b % 16);
            &&& (((s - adjust + 256) % 256) as u8) == (((n % 100) / 10) * 16 + (n % 100) % 10) as u8
            &&& high == ((a / 16) * 10 + a % 16 < (b / 16) * 10 + b % 16)
        }),
{
    assert({
        let s = ((a - b + 256) % 256) as u8;
        let low = a % 16 < b % 16;
        let high = a < b;
        let adjust = (if low { 0x06int } else { 0 }) + (if high { 0x60int } else { 0 });
        let n = (a / 16) * 10 + a % 16 + 100 - ((b / 16) * 10 + b % 16);
        &&& (((s - adjust + 256) % 256) as u8) == (((n % 100) / 10) * 16 + (n % 100) % 10) as u8
        &&& high == ((a / 16) * 10 + a % 16 < (b / 16) * 10 + b % 16)
    }) by (bit_vector)
        requires
            a / 16 <= 9 && a % 16 <= 9 && b / 16 <= 9 && b % 16 <= 9,
    ;
}

/// How incrementing operand `i` takes the console from `cpu` to `post`.
pub open spec fn incremented(cpu: CPU, post: CPU, i: int) -> bool {
    let v = operand(cpu, i);
    let res = ((v + 1) % 256) as u8;
    let f = Flags {
        zero: res == 0,
        add_sub: false,
        half_carry: v & 0x0f == 0x0f,
        carry: cpu.regs.f.carry,
    };
    stored(with_flags(cpu, f), post, i, res)
}

/// How decrementing operand `i` takes the console from `cpu` to `post`.
pub open spec fn decremented(cpu: CPU, post: CPU, i: int) -> bool {
    let v = operand(cpu, i);
    let res = ((v + 255) % 256) as u8;
    let f = Flags {
        zero: res == 0,
        add_sub: true,
        half_carry: v & 0x0f == 0x00,
        carry: cpu.regs.f.carry,
    };
    stored(with_flags(cpu, f), post, i, res)
}

/// How executing the instruction at the program counter takes the console
/// from `cpu` to `post`, in `r` ticks: an opcode that the instruction set
/// leaves undefined is skipped in four ticks.
pub open spec fn executed(cpu: CPU, post: CPU, r: u16) -> bool {
    let op = cpu.bus_read(cpu.pc);
    let fetched = CPU { pc: inc16(cpu.pc), ..cpu };
    if defined_opcode(op) {
        decoded_effect(fetched, post, op, r)
    } else {
        post == fetched && r == 4
    }
}

/// How the CPU part of a step takes the console from `cpu` to `post`, in
/// `r` ticks: an interrupt is serviced, or a halted CPU wakes or idles, or
/// the instruction at the program counter is executed.
pub open spec fn dispatched(cpu: CPU, post: CPU, r: u16) -> bool {
    let i = cpu.interrupts;
    let handled = (i.enabled && i.enable & i.flag != 0) || (!i.enabled && i.flag > 0 && cpu.halt);
    if handled {
        interrupts_handled(cpu, post, Some(r))
    } else if cpu.halt {
        post == cpu && r == 4
    } else {
        executed(cpu, post, r)
    }
}

/// How the timer (at the CPU's speed) and the display controller, running
/// for the `timing` ticks of a step, take the console from `cpu` to `post`.
pub open spec fn hardware_ran(cpu: CPU, post: CPU, timing: u16) -> bool {
    let ticks = if cpu.speed == 1 {
        timing
    } else {
        (timing * 2) as u16
    };
    let t = cpu.timer;
    let overflow = t.tac.start && t.tima.inc_overflows(ticks);
    let flag = if overflow {
        cpu.interrupts.flag | 0x04
    } else {
        cpu.interrupts.flag
    };
    &&& post.timer == Timer {
        div: t.div.after_inc(ticks),
        tima: if !t.tac.start {
            t.tima
        } else if overflow {
            SubTimer { value: t.tma, ..t.tima.after_inc(ticks) }
        } else {
            t.tima.after_inc(ticks)
        },
        ..t
    }
    &&& cpu.lcd.advanced(post.lcd, flag, post.interrupts.flag, cpu.memory, timing)
    &&& post == CPU {
        lcd: post.lcd,
        timer: post.timer,
        interrupts: Interrupts { flag: post.interrupts.flag, ..cpu.interrupts },
        ..cpu
    }
}

/// How one step takes the console from `cpu` to `post`: the CPU part,
/// then the timer and the display controller for the ticks that it took.
#[verifier::opaque]
pub open spec fn stepped(cpu: CPU, post: CPU) -> bool {
    exists|mid: CPU, t: u16| dispatched(cpu, mid, t) && #[trigger] hardware_ran(mid, post, t)
}

/// Whether the states `states[i]` and `states[i + 1]` are one step apart.
pub open spec fn step_at(states: Seq<CPU>, i: int) -> bool {
    stepped(states[i], states[i + 1])
}

/// Whether `n` steps take the console from `cpu` to `post`, with no step
/// but the last one finishing a frame.
pub open spec fn ran_steps(cpu: CPU, post: CPU, n: nat) -> bool {
    exists|states: Seq<CPU>|
        #![trigger states.len()]
        {
            &&& states.len() == n + 1
            &&& states[0] == cpu
            &&& states[n as int] == post
            &&& forall|i: int| 0 <= i < n ==> #[trigger] step_at(states, i)
            &&& forall|i: int| 1 <= i < n ==> !(#[trigger] states[i]).lcd.done_frame
        }
}

/// One more step extends a run of steps whose last state has not finished
/// a frame.
proof fn lemma_ran_one_more(cpu: CPU, mid: CPU, post: CPU, n: nat)
    requires
        ran_steps(cpu, mid, n),
        n > 0 ==> !mid.lcd.done_frame,
        stepped(mid, post),
    ensures
        ran_steps(cpu, post, n + 1),
{
    let states = choose|states: Seq<CPU>|
        {
            &&& states.len() == n + 1
            &&& states[0] == cpu
            &&& states[n as int] == mid
            &&& forall|i: int| 0 <= i < n ==> #[trigger] step_at(states, i)
            &&& forall|i: int| 1 <= i < n ==> !(#[trigger] states[i]).lcd.done_frame
        };
    let more = states.push(post);
    assert forall|i: int| 0 <= i < n + 1 implies #[trigger] step_at(more, i) by {
        if i < n {
            assert(step_at(states, i));
        }
    }
    assert forall|i: int| 1 <= i < n + 1 implies !(#[trigger] more[i]).lcd.done_frame by {
        if i < n {
            assert(!states[i].lcd.done_frame);
        }
    }
    assert(more.len() == n + 2 && more[0] == cpu && more[(n + 1) as int] == post);
}

/// No step at all leaves the console as it is.
proof fn lemma_ran_none(cpu: CPU)
    ensures
        ran_steps(cpu, cpu, 0),
{
    let states = seq![cpu];
    assert(states.len() == 1 && states[0] == cpu);
}

/// The condition that bits 3..=4 of a conditional jump, call or return
/// name: not zero, zero, no carry, carry.
pub open spec fn condition(cpu: CPU, k: int) -> bool {
    if k == 0 {
        !cpu.regs.f.zero
    } else if k == 1 {
        cpu.regs.f.zero
    } else if k == 2 {
        !cpu.regs.f.carry
    } else {
        cpu.regs.f.carry
    }
}

/// The 16-bit operand that follows at the program counter, low byte first.
pub open spec fn immediate16(cpu: CPU) -> u16 {
    word(cpu.bus_read(inc16(cpu.pc)), cpu.bus_read(cpu.pc))
}

/// The 16-bit word on top of the stack, low byte first.
pub open spec fn stack_top(cpu: CPU) -> u16 {
    word(cpu.bus_read(inc16(cpu.sp)), cpu.bus_read(cpu.sp))
}

/// The register pair that bits 4..=5 of a push or pop name: BC, DE, HL, AF.
pub open spec fn pair(regs: Registers, k: int) -> u16 {
    if k == 0 {
        regs.spec_bc()
    } else if k == 1 {
        regs.spec_de()
    } else if k == 2 {
        regs.spec_hl()
    } else {
        regs.spec_af()
    }
}

/// The registers with the pair that bits 4..=5 of a pop name set to `v`;
/// F keeps only the flag bits.
pub open spec fn with_pair(regs: Registers, k: int, v: u16) -> Registers {
    if k == 0 {
        Registers { b: high_byte(v), c: low_byte(v), ..regs }
    } else if k == 1 {
        Registers { d: high_byte(v), e: low_byte(v), ..regs }
    } else if k == 2 {
        Registers { h: high_byte(v), l: low_byte(v), ..regs }
    } else {
        Registers { a: high_byte(v), f: flags_of(low_byte(v)), ..regs }
    }
}

/// A relative jump, if `jump`, by the signed offset that follows.
pub open spec fn jumped_relative(cpu: CPU, post: CPU, jump: bool, r: u16) -> bool {
    &&& r == (if jump {
        12u16
    } else {
        8u16
    })
    &&& post == CPU {
        pc: if jump {
            ((inc16(cpu.pc) + sext16(cpu.bus_read(cpu.pc))) % 0x10000) as u16
        } else {
            inc16(cpu.pc)
        },
        ..cpu
    }
}

/// An absolute jump, if `jump`, to the address that follows.
pub open spec fn jumped(cpu: CPU, post: CPU, jump: bool, r: u16) -> bool {
    &&& r == (if jump {
        16u16
    } else {
        12u16
    })
    &&& post == CPU {
        pc: if jump {
            immediate16(cpu)
        } else {
            inc16(inc16(cpu.pc))
        },
        ..cpu
    }
}

/// A call, if `jump`, of the address that follows: the address of the next
/// instruction is pushed.
pub open spec fn called(cpu: CPU, post: CPU, jump: bool, r: u16) -> bool {
    let next = inc16(inc16(cpu.pc));
    &&& r == (if jump {
        24u16
    } else {
        12u16
    })
    &&& if jump {
        &&& post.pc == immediate16(cpu)
        &&& (CPU { pc: next, ..cpu }).pushed(CPU { pc: next, ..post }, next)
    } else {
        post == CPU { pc: next, ..cpu }
    }
}

/// A return, if `jump`: the program counter is popped.
pub open spec fn returned(cpu: CPU, post: CPU, jump: bool) -> bool {
    post == (if jump {
        CPU { sp: inc16(inc16(cpu.sp)), pc: stack_top(cpu), ..cpu }
    } else {
        cpu
    })
}

/// Whether the opcode is a jump, call, return, restart, push, pop, a
/// switch of interrupts, or NOP.
pub open spec fn is_control(op: u8) -> bool {
    ||| op == 0x00 || op == 0x18 || op == 0x20 || op == 0x28 || op == 0x30 || op == 0x38
    ||| op == 0xc0 || op == 0xc8 || op == 0xd0 || op == 0xd8 || op == 0xc9 || op == 0xd9
    ||| op == 0xc2 || op == 0xca || op == 0xd2 || op == 0xda || op == 0xc3
    ||| op == 0xc4 || op == 0xcc || op == 0xd4 || op == 0xdc || op == 0xcd
    ||| op >= 0xc0 && (op % 8 == 7 || op % 16 == 5 || op % 16 == 1)
    ||| op == 0xf3 || op == 0xfb || op == 0xe9
}

/// What the jumps, calls, returns, restarts, pushes and pops do, with the
/// ticks `r` that they take, and the switching of interrupts.
#[verifier::opaque]
pub open spec fn control_effect(cpu: CPU, post: CPU, op: u8, r: u16) -> bool {
    let j = ((op / 8) % 8) as int;
    if op == 0x18 || op == 0x20 || op == 0x28 || op == 0x30 || op == 0x38 {
        jumped_relative(cpu, post, op == 0x18 || condition(cpu, j - 4), r)
    } else if op == 0xc0 || op == 0xc8 || op == 0xd0 || op == 0xd8 {
        let jump = condition(cpu, j);
        returned(cpu, post, jump) && r == (if jump {
            20u16
        } else {
            8u16
        })
    } else if op == 0xc9 {
        returned(cpu, post, true) && r == 16
    } else if op == 0xd9 {
        &&& returned(cpu, CPU { interrupts: cpu.interrupts, ..post }, true)
        &&& post.interrupts == Interrupts { enabled: true, ..cpu.interrupts }
        &&& r == 16
    } else if op == 0xc2 || op == 0xca || op == 0xd2 || op == 0xda || op == 0xc3 {
        jumped(cpu, post, op == 0xc3 || condition(cpu, j), r)
    } else if op == 0xc4 || op == 0xcc || op == 0xd4 || op == 0xdc || op == 0xcd {
        called(cpu, post, op == 0xcd || condition(cpu, j), r)
    } else if op >= 0xc0 && op % 8 == 7 {
        &&& post.pc == (op - 0xc7) as u16
        &&& cpu.pushed(CPU { pc: cpu.pc, ..post }, cpu.pc)
        &&& r == 16
    } else if op >= 0xc0 && op % 16 == 5 {
        cpu.pushed(post, pair(cpu.regs, (op - 0xc5) / 16)) && r == 16
    } else if op >= 0xc0 && op % 16 == 1 {
        &&& post == CPU {
            sp: inc16(inc16(cpu.sp)),
            regs: with_pair(cpu.regs, (op - 0xc1) / 16, stack_top(cpu)),
            ..cpu
        }
        &&& r == 12
    } else if op == 0xf3 || op == 0xfb {
        &&& post == CPU { interrupts: Interrupts { enabled: op == 0xfb, ..cpu.interrupts }, ..cpu }
        &&& r == 4
    } else if op == 0xe9 {
        post == CPU { pc: cpu.regs.spec_hl(), ..cpu } && r == 4
    } else if op == 0x00 {
        post == cpu && r == 4
    } else {
        true
    }
}

/// The 16-bit register that bits 4..=5 of a 16-bit load, increment,
/// decrement or addition name: BC, DE, HL, SP.
pub open spec fn wide(cpu: CPU, k: int) -> u16 {
    if k == 3 {
        cpu.sp
    } else {
        pair(cpu.regs, k)
    }
}

/// The console with the 16-bit register that bits 4..=5 name set to `v`.
pub open spec fn with_wide(cpu: CPU, k: int, v: u16) -> CPU {
    if k == 3 {
        CPU { sp: v, ..cpu }
    } else {
        CPU { regs: with_pair(cpu.regs, k, v), ..cpu }
    }
}

/// The address that the loads and stores of A through BC, DE, HL+ and HL-
/// use.
pub open spec fn indirect_address(cpu: CPU, k: int) -> u16 {
    if k == 0 {
        cpu.regs.spec_bc()
    } else if k == 1 {
        cpu.regs.spec_de()
    } else {
        cpu.regs.spec_hl()
    }
}

/// The registers after the loads and stores through HL+ and HL- step HL.
pub open spec fn hl_stepped(regs: Registers, k: int) -> Registers {
    if k == 2 {
        with_pair(regs, 2, inc16(regs.spec_hl()))
    } else if k == 3 {
        with_pair(regs, 2, dec16(regs.spec_hl()))
    } else {
        regs
    }
}

/// The loads and stores through HL+ (`0x22`, `0x2a`) step HL up by one and
/// those through HL- (`0x32`, `0x3a`) step it down by one, wrapping at
/// `0x10000`; the stores write A at the old HL, the loads read A from it.
pub proof fn lemma_hl_post_step(cpu: CPU, post: CPU, op: u8, r: u16)
    requires
        op == 0x22 || op == 0x2a || op == 0x32 || op == 0x3a,
        decoded_effect(cpu, post, op, r),
    ensures
        op == 0x22 || op == 0x2a ==> post.regs.spec_hl() == (cpu.regs.spec_hl() + 1) % 0x10000,
        op == 0x32 || op == 0x3a ==> post.regs.spec_hl() == (cpu.regs.spec_hl() + 0xffff)
            % 0x10000,
        op == 0x2a || op == 0x3a ==> post.regs.a == cpu.bus_read(cpu.regs.spec_hl()),
        op == 0x22 || op == 0x32 ==> cpu.wrote(
            CPU { regs: cpu.regs, ..post },
            cpu.regs.spec_hl(),
            cpu.regs.a,
        ),
        r == 8,
{
    reveal(data_effect);
    reveal(indirect_effect);
    assert(!is_control(op) && is_data(op));
    let hl = cpu.regs.spec_hl();
    crate::cpu::lemma_pair_set_get(cpu.regs, inc16(hl));
    crate::cpu::lemma_pair_set_get(cpu.regs, dec16(hl));
    let loaded = Registers { a: cpu.bus_read(hl), ..cpu.regs };
    crate::cpu::lemma_pair_set_get(loaded, inc16(hl));
    crate::cpu::lemma_pair_set_get(loaded, dec16(hl));
}

/// JR and its conditional forms (`0x18`, and `0x20`, `0x28`, `0x30`, `0x38`
/// on NZ, Z, NC, C) jump by the signed byte that follows, counted from the
/// next instruction, exactly when their condition holds, and take 12 ticks
/// then and 8 otherwise; nothing but the program counter changes.
pub proof fn lemma_relative_jumps(cpu: CPU, post: CPU, op: u8, r: u16)
    requires
        op == 0x18 || op == 0x20 || op == 0x28 || op == 0x30 || op == 0x38,
        decoded_effect(cpu, post, op, r),
    ensures
        ({
            let f = cpu.regs.f;
            let taken = op == 0x18 || (op == 0x20 && !f.zero) || (op == 0x28 && f.zero) || (op
                == 0x30 && !f.carry) || (op == 0x38 && f.carry);
            let b = cpu.bus_read(cpu.pc);
            let offset: int = if b < 128 { b as int } else { b - 256 };
            &&& post.pc == (if taken {
                (cpu.pc + 1 + offset + 0x10000) % 0x10000
            } else {
                (cpu.pc + 1) % 0x10000
            })
            &&& r == (if taken { 12u16 } else { 8u16 })
            &&& post == CPU { pc: post.pc, ..cpu }
        }),
{
    assert(is_control(op));
    let j = ((op / 8) % 8) as int;
    let jump = op == 0x18 || condition(cpu, j - 4);
    assert(control_effect(cpu, post, op, r));
    assert(jumped_relative(cpu, post, jump, r)) by {
        reveal(control_effect);
    }
    let f = cpu.regs.f;
    assert(jump == (op == 0x18 || (op == 0x20 && !f.zero) || (op == 0x28 && f.zero) || (op == 0x30
        && !f.carry) || (op == 0x38 && f.carry)));
    lemma_jump_target(cpu.pc, cpu.bus_read(cpu.pc));
}

/// The target of a relative jump: the next instruction's address plus the
/// signed offset, wrapping at `0x10000`.
proof fn lemma_jump_target(pc: u16, b: u8)
    ensures
        ({
            let offset: int = if b < 128 { b as int } else { b - 256 };
            (((inc16(pc) + sext16(b)) % 0x10000) as u16) as int == (pc + 1 + offset + 0x10000)
                % 0x10000
        }),
{
    let offset: int = if b < 128 { b as int } else { b - 256 };
    let n = inc16(pc);
    assert(n == (pc + 1) % 0x10000);
    if b < 128 {
        assert(sext16(b) == b);
    } else {
        assert(sext16(b) == b + 0xff00);
    }
    assert((n + sext16(b)) % 0x10000 == (pc + 1 + offset + 0x10000) % 0x10000);
}

/// INC and DEC of a register: DEC undoes INC; INC sets zero exactly when
/// the register wraps to 0 and half carry exactly when its low nibble wraps
/// to 0; DEC sets half carry exactly when its low nibble wraps to 0xf; both
/// keep carry.
pub proof fn lemma_inc_dec(cpu: CPU, mid: CPU, post: CPU, i: int)
    requires
        0 <= i < 8,
        i != 6,
        incremented(cpu, mid, i),
        decremented(mid, post, i),
    ensures
        operand(post, i) == operand(cpu, i),
        operand(mid, i) == (operand(cpu, i) + 1) % 256,
        mid.regs.f.zero == (operand(mid, i) == 0),
        mid.regs.f.half_carry == (operand(mid, i) % 16 == 0),
        post.regs.f.half_carry == (operand(post, i) % 16 == 15),
        mid.regs.f.carry == cpu.regs.f.carry && post.regs.f.carry == cpu.regs.f.carry,
        !mid.regs.f.add_sub && post.regs.f.add_sub,
{
    let v = operand(cpu, i);
    let w = ((v + 1) % 256) as u8;
    assert(v & 0x0f == v % 16) by {
        crate::bytes::lemma_byte_arith(v);
    }
    assert(w & 0x0f == w % 16) by {
        crate::bytes::lemma_byte_arith(w);
    }
    assert(operand(mid, i) == w && mid.regs.f.half_carry == (v % 16 == 15));
    assert(operand(post, i) == ((w + 255) % 256) as u8);
}

/// CALL then RET: the call jumps to the address that follows it, and the
/// return comes back to the instruction after the call (two operand bytes
/// past the program counter) with the stack pointer where it was, when the
/// two stack bytes are plain RAM.
#[verifier::spinoff_prover]
#[verifier::rlimit(60)]
pub proof fn lemma_call_return(cpu: CPU, mid: CPU, post: CPU, r1: u16, r2: u16)
    requires
        cpu.wf(),
        crate::memory::plain_ram(dec16(cpu.sp)),
        crate::memory::plain_ram(dec16(dec16(cpu.sp))),
        decoded_effect(cpu, mid, 0xcd, r1),
        decoded_effect(mid, post, 0xc9, r2),
    ensures
        mid.pc == immediate16(cpu),
        post.pc == (cpu.pc + 2) % 0x10000,
        post.sp == cpu.sp,
        r1 == 24 && r2 == 16,
{
    assert(is_control(0xcd) && is_control(0xc9));
    assert(control_effect(cpu, mid, 0xcd, r1));
    assert(control_effect(mid, post, 0xc9, r2));
    let next = inc16(inc16(cpu.pc));
    let c = CPU { pc: next, ..cpu };
    let m = CPU { pc: next, ..mid };
    assert(called(cpu, mid, true, r1)) by {
        reveal(control_effect);
    }
    assert(c.pushed(m, next));
    crate::cpu::lemma_push_pop(c, m, next);
    assert(stack_top(mid) == stack_top(m));
    assert(returned(mid, post, true) && r2 == 16) by {
        reveal(control_effect);
    }
}

/// The rotation of the 0xcb prefix that a rotation of A uses.
pub open spec fn rotation_of(op: u8) -> int {
    if op == 0x07 {
        0
    } else if op == 0x0f {
        1
    } else if op == 0x17 {
        2
    } else {
        3
    }
}

/// Whether the opcode moves or computes data outside the regular groups:
/// 16-bit loads, increments, decrements and additions, loads and stores of
/// A through BC, DE, HL+, HL-, the high page or an address, the rotations
/// of A, DAA, the flag operations, STOP, and the additions to SP.
pub open spec fn is_data(op: u8) -> bool {
    ||| op <= 0x3f && (op % 16 == 1 || op % 16 == 3 || op % 16 == 0xb || op % 16 == 9 || op % 16
        == 2 || op % 16 == 0xa)
    ||| op == 0x07 || op == 0x17 || op == 0x0f || op == 0x1f || op == 0x27 || op == 0x37 || op
        == 0x3f || op == 0x2f || op == 0x08 || op == 0x10
    ||| op == 0xe0 || op == 0xf0 || op == 0xe2 || op == 0xf2 || op == 0xe8 || op == 0xf8 || op
        == 0xf9 || op == 0xea || op == 0xfa
}

/// What the 16-bit loads, increments, decrements and additions into HL do
/// (opcodes `0x01`, `0x03`, `0x09`, `0x0b` and their rows), in `r` ticks.
#[verifier::opaque]
pub open spec fn wide_effect(cpu: CPU, post: CPU, op: u8, r: u16) -> bool {
    let k = (op / 16) as int;
    let lo = op % 16;
    if lo == 1 {
        post == with_wide(CPU { pc: inc16(inc16(cpu.pc)), ..cpu }, k, immediate16(cpu)) && r == 12
    } else if lo == 3 {
        post == with_wide(cpu, k, inc16(wide(cpu, k))) && r == 8
    } else if lo == 0xb {
        post == with_wide(cpu, k, dec16(wide(cpu, k))) && r == 8
    } else {
        post == added_to_hl(cpu, wide(cpu, k)) && r == 8
    }
}

/// What the stores (`0x02` and its row) and loads (`0x0a` and its row) of
/// A through BC, DE, HL+ and HL- do, in `r` ticks.
#[verifier::opaque]
pub open spec fn indirect_effect(cpu: CPU, post: CPU, op: u8, r: u16) -> bool {
    let k = (op / 16) as int;
    if op % 16 == 2 {
        &&& cpu.wrote(CPU { regs: cpu.regs, ..post }, indirect_address(cpu, k), cpu.regs.a)
        &&& post.regs == hl_stepped(cpu.regs, k)
        &&& r == 8
    } else {
        let regs = Registers { a: cpu.bus_read(indirect_address(cpu, k)), ..cpu.regs };
        post == CPU { regs: hl_stepped(regs, k), ..cpu } && r == 8
    }
}

/// What the rotations of A do, in `r` ticks: as those of the 0xcb prefix,
/// but zero is cleared.
#[verifier::opaque]
pub open spec fn rotate_a_effect(cpu: CPU, post: CPU, op: u8, r: u16) -> bool {
    let kind = rotation_of(op);
    let a = cpu.regs.a;
    let res = shifted(kind, a, cpu.regs.f.carry);
    post == with_a(cpu, res, Flags { zero: false, ..shifted_flags(kind, a, res) }) && r == 4
}

/// What DAA, the flag operations, the store of SP (`0x08`) and STOP do, in
/// `r` ticks.
#[verifier::opaque]
pub open spec fn misc_effect(cpu: CPU, post: CPU, op: u8, r: u16) -> bool {
    let a = cpu.regs.a;
    let f = cpu.regs.f;
    if op == 0x27 {
        post == decimal_adjusted(cpu) && r == 4
    } else if op == 0x37 || op == 0x3f {
        let carry = if op == 0x37 {
            true
        } else {
            !f.carry
        };
        post == with_flags(cpu, Flags { add_sub: false, half_carry: false, carry, ..f }) && r == 4
    } else if op == 0x2f {
        post == with_a(cpu, !a, Flags { add_sub: true, half_carry: true, ..f }) && r == 4
    } else if op == 0x08 {
        let at = immediate16(cpu);
        &&& exists|mid: CPU|
            (CPU { pc: inc16(inc16(cpu.pc)), ..cpu }).wrote(mid, at, low_byte(cpu.sp))
                && #[trigger] mid.wrote(post, ((at + 1) % 0x10000) as u16, high_byte(cpu.sp))
        &&& r == 20
    } else {
        post == stopped(cpu) && r == 4
    }
}

/// What STOP does: it skips its operand byte, then switches the speed if a
/// switch was prepared, and otherwise halts.
pub open spec fn stopped(cpu: CPU) -> CPU {
    let fetched = CPU { pc: inc16(cpu.pc), ..cpu };
    if cpu.prepare_speed {
        CPU {
            speed: if cpu.speed == 1 {
                2
            } else {
                1
            },
            prepare_speed: false,
            ..fetched
        }
    } else {
        CPU { halt: true, ..fetched }
    }
}

/// What the loads and stores of the high page and of an address, and the
/// additions to SP (`0xe0`, `0xf0`, `0xe2`, `0xf2`, `0xe8`, `0xf8`,
/// `0xf9`, `0xea`, `0xfa`) do, in `r` ticks.
#[verifier::opaque]
pub open spec fn high_effect(cpu: CPU, post: CPU, op: u8, r: u16) -> bool {
    let a = cpu.regs.a;
    let fetched = CPU { pc: inc16(cpu.pc), ..cpu };
    let fetched2 = CPU { pc: inc16(inc16(cpu.pc)), ..cpu };
    if op == 0xe0 {
        fetched.wrote(post, (0xff00 + cpu.bus_read(cpu.pc)) as u16, a) && r == 12
    } else if op == 0xf0 {
        let at = (0xff00 + cpu.bus_read(cpu.pc)) as u16;
        post == CPU { regs: Registers { a: fetched.bus_read(at), ..cpu.regs }, ..fetched } && r == 12
    } else if op == 0xe2 {
        cpu.wrote(post, (0xff00 + cpu.regs.c) as u16, a) && r == 8
    } else if op == 0xf2 {
        let at = (0xff00 + cpu.regs.c) as u16;
        post == CPU { regs: Registers { a: cpu.bus_read(at), ..cpu.regs }, ..cpu } && r == 8
    } else if op == 0xe8 {
        post == added_to_sp(cpu) && r == 16
    } else if op == 0xf8 {
        let s = added_to_sp(cpu);
        post == CPU { sp: cpu.sp, regs: with_pair(s.regs, 2, s.sp), ..s } && r == 12
    } else if op == 0xf9 {
        post == CPU { sp: cpu.regs.spec_hl(), ..cpu } && r == 8
    } else if op == 0xea {
        fetched2.wrote(post, immediate16(cpu), a) && r == 16
    } else {
        post == CPU { regs: Registers { a: cpu.bus_read(immediate16(cpu)), ..cpu.regs }, ..fetched2 }
            && r == 16
    }
}

/// What the opcodes of `is_data` do, with the ticks `r` that they take.
#[verifier::opaque]
pub open spec fn data_effect(cpu: CPU, post: CPU, op: u8, r: u16) -> bool {
    let lo = op % 16;
    if op <= 0x3f && (lo == 1 || lo == 3 || lo == 0xb || lo == 9) {
        wide_effect(cpu, post, op, r)
    } else if op <= 0x3f && (lo == 2 || lo == 0xa) {
        indirect_effect(cpu, post, op, r)
    } else if op == 0x07 || op == 0x17 || op == 0x0f || op == 0x1f {
        rotate_a_effect(cpu, post, op, r)
    } else if op <= 0x3f {
        misc_effect(cpu, post, op, r)
    } else {
        high_effect(cpu, post, op, r)
    }
}

/// What an opcode does, with the ticks `r` that it takes, where its
/// operands (if any) follow at the program counter (which is already past
/// the opcode): the loads between the eight operands and HALT, the 8-bit
/// operations of A with an operand or an immediate byte, the increments,
/// decrements and immediate loads of an operand, the instructions of the
/// 0xcb prefix, and those of `control_effect` and `data_effect`.
pub open spec fn decoded_effect(cpu: CPU, post: CPU, op: u8, r: u16) -> bool {
    let fetched = CPU { pc: inc16(cpu.pc), ..cpu };
    let next = cpu.bus_read(cpu.pc);
    let i = (op % 8) as int;
    let j = ((op / 8) % 8) as int;
    if is_control(op) {
        control_effect(cpu, post, op, r)
    } else if is_data(op) {
        data_effect(cpu, post, op, r)
    } else if op <= 0x3f && 4 <= i <= 5 {
        &&& i == 4 ==> incremented(cpu, post, j)
        &&& i == 5 ==> decremented(cpu, post, j)
        &&& r == (if j == 6 { 12u16 } else { 4u16 })
    } else if op <= 0x3f && i == 6 {
        &&& stored(fetched, post, j, next)
        &&& r == (if j == 6 { 12u16 } else { 8u16 })
    } else if 0x40 <= op <= 0x7f && op != 0x76 {
        &&& stored(cpu, post, j, operand(cpu, i))
        &&& r == (if i == 6 || j == 6 { 8u16 } else { 4u16 })
    } else if op == 0x76 {
        &&& post == CPU { halt: true, ..cpu }
        &&& r == 4
    } else if 0x80 <= op <= 0xbf {
        &&& post == alu(cpu, j, operand(cpu, i))
        &&& r == (if i == 6 { 8u16 } else { 4u16 })
    } else if op >= 0xc0 && i == 6 {
        &&& post == alu(fetched, j, next)
        &&& r == 8
    } else if op == 0xcb {
        &&& cb_post(fetched, post, next)
        &&& r == cb_timing(next)
    } else {
        true
    }
}

/// The byte that the rotation, shift or swap `kind` of the 0xcb prefix
/// makes of `value`: rotate left, rotate right, rotate left through carry,
/// rotate right through carry, shift left, arithmetic shift right, swap
/// nibbles, logical shift right.
pub open spec fn shifted(kind: int, value: u8, carry: bool) -> u8 {
    if kind == 0 {
        ((value * 2) % 256 + value / 128) as u8
    } else if kind == 1 {
        (value / 2 + (value % 2) * 128) as u8
    } else if kind == 2 {
        ((value * 2) % 256 + (if carry { 1int } else { 0 })) as u8
    } else if kind == 3 {
        (value / 2 + (if carry { 128int } else { 0 })) as u8
    } else if kind == 4 {
        ((value * 2) % 256) as u8
    } else if kind == 5 {
        (value / 2 + (if value >= 128 { 128int } else { 0 })) as u8
    } else if kind == 6 {
        ((value % 16) * 16 + value / 16) as u8
    } else {
        (value / 2) as u8
    }
}

/// The flags that the rotation, shift or swap `kind` sets.
pub open spec fn shifted_flags(kind: int, value: u8, result: u8) -> Flags {
    if kind == 6 {
        logic_flags(result, false)
    } else if kind == 0 || kind == 2 || kind == 4 {
        shift_flags(result, value >= 128)
    } else {
        shift_flags(result, value % 2 == 1)
    }
}

/// How the instruction `cb` of the 0xcb prefix takes the console from `cpu`
/// to `post`.
pub open spec fn cb_post(cpu: CPU, post: CPU, cb: u8) -> bool {
    let i = cb % 8;
    let v = operand(cpu, i as int);
    let bit = ((cb / 8) % 8) as u8;
    if cb <= 0x3f {
        let kind = (cb / 8) as int;
        let res = shifted(kind, v, cpu.regs.f.carry);
        stored(with_flags(cpu, shifted_flags(kind, v, res)), post, i as int, res)
    } else if cb <= 0x7f {
        post == with_flags(
            cpu,
            Flags {
                zero: (v >> bit) & 0x01 == 0,
                add_sub: false,
                half_carry: true,
                carry: cpu.regs.f.carry,
            },
        )
    } else if cb <= 0xbf {
        stored(cpu, post, i as int, v & !(0x01u8 << bit))
    } else {
        stored(cpu, post, i as int, v | (0x01u8 << bit))
    }
}

/// The ticks that the instruction `cb` of the 0xcb prefix takes.
pub open spec fn cb_timing(cb: u8) -> u16 {
    if cb % 8 != 6 {
        8
    } else if 0x40 <= cb <= 0x7f {
        12
    } else {
        16
    }
}

/// The most steps that `cycle` runs while waiting for the end of a frame:
/// a frame lasts 70224 ticks, and no step takes fewer than four.
pub const FRAME_STEP_LIMIT: u32 = 70224;

impl CPU {
    /// Runs the console until the display controller finishes a frame, or
    /// for at most `FRAME_STEP_LIMIT` steps (a display that is switched off
    /// finishes none).
    pub fn cycle(&mut self)
        requires
            old(self).wf(),
        ensures
            final(self).wf(),
            exists|n: nat|
                1 <= n <= FRAME_STEP_LIMIT && #[trigger] ran_steps(*old(self), *final(self), n) && (
                final(self).lcd.done_frame || n == FRAME_STEP_LIMIT),
    {
        let mut n: u32 = 0;
        proof {
            lemma_ran_none(*self);
        }
        while n < FRAME_STEP_LIMIT
            invariant_except_break
                self.wf(),
                n <= FRAME_STEP_LIMIT,
                ran_steps(*old(self), *self, n as nat),
                n > 0 ==> !self.lcd.done_frame,
            ensures
                self.wf(),
                exists|k: nat|
                    1 <= k <= FRAME_STEP_LIMIT && #[trigger] ran_steps(*old(self), *self, k) && (
                    self.lcd.done_frame || k == FRAME_STEP_LIMIT),
            decreases FRAME_STEP_LIMIT - n,
        {
            let ghost prev = *self;
            self.step();
            proof {
                lemma_ran_one_more(*old(self), prev, *self, n as nat);
            }
            if self.lcd.done_frame() {
                break;
            }
            n = n + 1;
        }
    }

    /// Runs one step: an interrupt is serviced, or a halted CPU idles, or an
    /// instruction is executed; then the timer and the display controller
    /// run for the ticks that took.
    pub fn step(&mut self)
        requires
            old(self).wf(),
        ensures
            final(self).wf(),
            stepped(*old(self), *final(self)),
            ({
                let i = old(self).interrupts;
                let n = lowest_request(i.flag);
                i.enabled && i.enable & i.flag != 0 && n < 5 ==> {
                    &&& final(self).pc == 0x40 + n * 0x08
                    &&& !final(self).interrupts.enabled
                    &&& !final(self).halt
                }
            }),
    {
        let timing = self.dispatch();
        let ghost mid = *self;
        self.run_hardware(timing);
        proof {
            reveal(stepped);
            assert(dispatched(*old(self), mid, timing) && hardware_ran(mid, *self, timing));
        }
    }

    /// The CPU part of a step; returns the ticks that it took.
    fn dispatch(&mut self) -> (r: Timing)
        requires
            old(self).wf(),
        ensures
            final(self).wf(),
            4 <= r <= 24,
            dispatched(*old(self), *final(self), r),
            ({
                let i = old(self).interrupts;
                let n = lowest_request(i.flag);
                i.enabled && i.enable & i.flag != 0 && n < 5 ==> {
                    &&& final(self).pc == 0x40 + n * 0x08
                    &&& !final(self).interrupts.enabled
                    &&& !final(self).halt
                }
            }),
    {
        match self.handle_interrupts() {
            Some(timing) => timing,
            None => {
                if self.halt {
                    4
                } else {
                    self.handle_instruction()
                }
            },
        }
    }

    /// Runs the timer and the display controller for the ticks of a step.
    fn run_hardware(&mut self, timing: Timing)
        requires
            old(self).wf(),
            4 <= timing <= 24,
        ensures
            final(self).wf(),
            hardware_ran(*old(self), *final(self), timing),
    {
        let ticks: u16 = if self.speed == 1 {
            timing
        } else {
            timing * 2
        };
        if self.timer.advance(ticks) {
            self.interrupts.flag |= 0x04;
        }
        self.lcd.advance(&mut self.interrupts, &self.memory, timing);
    }

    /// Fetches and executes the instruction at the program counter; an
    /// opcode that the instruction set leaves undefined takes four ticks and
    /// does nothing more.
    fn handle_instruction(&mut self) -> (r: Timing)
        requires
            old(self).wf(),
        ensures
            final(self).wf(),
            4 <= r <= 24,
            executed(*old(self), *final(self), r),
    {
        let op = self.read_pc();
        if is_defined_opcode(op) {
            self.handle_op(op)
        } else {
            4
        }
    }

    /// Executes the instruction with the given opcode, whose operands follow
    /// at the program counter; returns the ticks that it takes.
    pub fn handle_op(&mut self, op: u8) -> (r: Timing)
        requires
            old(self).wf(),
            defined_opcode(op),
        ensures
            final(self).wf(),
            4 <= r <= 24,
            decoded_effect(*old(self), *final(self), op, r),
    {
        if op <= 0x3f {
            self.op_group_misc(op)
        } else if op <= 0x7f {
            self.op_group_ld(op)
        } else if op <= 0xbf {
            self.op_group_alu(op)
        } else {
            self.op_group_ctl(op)
        }
    }

    /// Executes an opcode of 0x00 ..= 0x3f: loads, increments, rotations of A and relative jumps.
    fn op_group_misc(&mut self, op: u8) -> (r: Timing)
        requires
            old(self).wf(),
            0x00 <= op <= 0x3f,
            defined_opcode(op),
        ensures
            final(self).wf(),
            4 <= r <= 24,
            decoded_effect(*old(self), *final(self), op, r),
    {
        if Self::is_control_op(op) {
            return self.op_control(op);
        }
        if Self::is_data_op(op) {
            return self.op_misc_rest(op);
        }
        if 4 <= op % 8 && op % 8 <= 6 {
            assert((op / 8) % 8 == op / 8);
            return self.misc_operand_op(op);
        }
        self.op_misc_rest(op)
    }

    /// The other opcodes of 0x00 ..= 0x3f: 16-bit loads, increments,
    /// decrements and additions, loads through BC, DE and HL, the
    /// rotations of A, DAA, the flag operations and STOP.
    fn op_misc_rest(&mut self, op: u8) -> (r: Timing)
        requires
            old(self).wf(),
            0x00 <= op <= 0x3f,
            is_data(op),
        ensures
            final(self).wf(),
            4 <= r <= 24,
            data_effect(*old(self), *final(self), op, r),
    {
        reveal(data_effect);
        let lo = op % 16;
        if lo == 1 || lo == 3 || lo == 0xb || lo == 9 {
            self.op_wide(op)
        } else if lo == 2 || lo == 0xa {
            self.op_indirect(op)
        } else if op == 0x07 || op == 0x17 || op == 0x0f || op == 0x1f {
            self.op_rotate_a(op)
        } else {
            self.op_misc_other(op)
        }
    }

    /// The 16-bit loads, increments, decrements and additions into HL.
    #[verifier::rlimit(60)]
    fn op_wide(&mut self, op: u8) -> (r: Timing)
        requires
            old(self).wf(),
            op <= 0x3f,
            op % 16 == 1 || op % 16 == 3 || op % 16 == 0xb || op % 16 == 9,
        ensures
            final(self).wf(),
            4 <= r <= 24,
            wide_effect(*old(self), *final(self), op, r),
    {
        reveal(wide_effect);
        let k = op / 16;
        let lo = op % 16;
        if lo == 1 {
            let (value, t) = self.op_ld_16();
            self.set_wide(k, value);
            t
        } else if lo == 3 {
            let value = self.wide_value(k);
            assert(value.wrapping_add(1) == inc16(value));
            self.set_wide(k, value.wrapping_add(1));
            8
        } else if lo == 0xb {
            let value = self.wide_value(k);
            assert(value.wrapping_sub(1) == dec16(value));
            self.set_wide(k, value.wrapping_sub(1));
            8
        } else {
            let value = self.wide_value(k);
            self.op_add_hl(value)
        }
    }

    /// The 16-bit register that bits 4..=5 of a 16-bit opcode name.
    fn wide_value(&self, k: u8) -> (r: u16)
        requires
            k < 4,
        ensures
            r == wide(*self, k as int),
    {
        match k {
            0 => self.regs.bc(),
            1 => self.regs.de(),
            2 => self.regs.hl(),
            _ => self.sp,
        }
    }

    /// Sets the 16-bit register that bits 4..=5 of a 16-bit opcode name.
    fn set_wide(&mut self, k: u8, value: u16)
        requires
            k < 4,
        ensures
            *final(self) == with_wide(*old(self), k as int, value),
    {
        match k {
            0 => self.regs.set_bc(value),
            1 => self.regs.set_de(value),
            2 => self.regs.set_hl(value),
            _ => self.sp = value,
        }
    }

    /// The loads and stores of A through BC, DE, HL+ and HL-.
    #[verifier::rlimit(60)]
    fn op_indirect(&mut self, op: u8) -> (r: Timing)
        requires
            old(self).wf(),
            op <= 0x3f,
            op % 16 == 2 || op % 16 == 0xa,
        ensures
            final(self).wf(),
            4 <= r <= 24,
            indirect_effect(*old(self), *final(self), op, r),
    {
        reveal(indirect_effect);
        let k = op / 16;
        let at = match k {
            0 => self.regs.bc(),
            1 => self.regs.de(),
            _ => self.regs.hl(),
        };
        assert(at == indirect_address(*old(self), k as int));
        if op % 16 == 2 {
            self.write(at, self.regs.a);
        } else {
            self.regs.a = self.read(at);
        }
        self.step_hl(k);
        8
    }

    /// Steps HL after a load or store through HL+ (`k` = 2) or HL- (`k` = 3).
    fn step_hl(&mut self, k: u8)
        ensures
            *final(self) == (CPU { regs: hl_stepped(old(self).regs, k as int), ..*old(self) }),
    {
        if k == 2 {
            self.regs.set_hl(self.regs.hl().wrapping_add(1));
        } else if k == 3 {
            self.regs.set_hl(self.regs.hl().wrapping_sub(1));
        }
    }

    /// The rotations of A: as those of the 0xcb prefix, but zero is cleared.
    fn op_rotate_a(&mut self, op: u8) -> (r: Timing)
        requires
            old(self).wf(),
            op == 0x07 || op == 0x17 || op == 0x0f || op == 0x1f,
        ensures
            final(self).wf(),
            4 <= r <= 24,
            rotate_a_effect(*old(self), *final(self), op, r),
    {
        reveal(rotate_a_effect);
        let kind: u8 = if op == 0x07 {
            0
        } else if op == 0x0f {
            1
        } else if op == 0x17 {
            2
        } else {
            3
        };
        let (value, _) = self.shift_op(kind, self.regs.a);
        self.regs.a = value;
        self.regs.f.zero = false;
        4
    }

    /// STOP: skips its operand, then switches the speed or halts.
    fn op_stop(&mut self)
        requires
            old(self).wf(),
        ensures
            final(self).wf(),
            *final(self) == stopped(*old(self)),
    {
        self.read_pc();
        if self.prepare_speed {
            self.speed = if self.speed == 1 {
                2
            } else {
                1
            };
            self.prepare_speed = false;
        } else {
            self.halt = true;
        }
    }

    /// DAA, the flag operations, the store of SP and STOP.
    #[verifier::rlimit(30)]
    fn op_misc_other(&mut self, op: u8) -> (r: Timing)
        requires
            old(self).wf(),
            op == 0x27 || op == 0x37 || op == 0x3f || op == 0x2f || op == 0x08 || op == 0x10,
        ensures
            final(self).wf(),
            4 <= r <= 24,
            misc_effect(*old(self), *final(self), op, r),
    {
        let ghost cpu = *old(self);
        if op == 0x10 {
            self.op_stop();
            assert(misc_effect(cpu, *self, op, 4)) by {
                reveal(misc_effect);
            }
            4
        } else if op == 0x27 {
            let r = self.op_daa();
            assert(misc_effect(cpu, *self, op, 4)) by {
                reveal(misc_effect);
            }
            r
        } else if op == 0x37 || op == 0x3f {
            self.regs.f.add_sub = false;
            self.regs.f.half_carry = false;
            self.regs.f.carry = op == 0x37 || !self.regs.f.carry;
            assert(misc_effect(cpu, *self, op, 4)) by {
                reveal(misc_effect);
            }
            4
        } else if op == 0x2f {
            self.regs.f.add_sub = true;
            self.regs.f.half_carry = true;
            self.regs.a = !self.regs.a;
            assert(misc_effect(cpu, *self, op, 4)) by {
                reveal(misc_effect);
            }
            4
        } else {
            let low = self.read_pc();
            let high = self.read_pc();
            let address = bytes::assemble(high, low);
            let (high, low) = bytes::extract(self.sp);
            let ghost before = *self;
            assert(address == immediate16(cpu));
            assert(before == CPU { pc: inc16(inc16(cpu.pc)), ..cpu });
            self.write(address, low);
            let ghost mid = *self;
            self.write(address.wrapping_add(1), high);
            assert(before.wrote(mid, address, low_byte(cpu.sp)));
            assert(mid.wrote(*self, ((address + 1) % 0x10000) as u16, high_byte(cpu.sp)));
            assert(misc_effect(cpu, *self, op, 20)) by {
                reveal(misc_effect);
            }
            20
        }
    }

    /// The opcodes of 0x00 ..= 0x3f that increment, decrement or load an
    /// immediate byte into the operand that bits 3..=5 name.
    fn misc_operand_op(&mut self, op: u8) -> (r: Timing)
        requires
            old(self).wf(),
            op <= 0x3f,
            4 <= op % 8 <= 6,
        ensures
            final(self).wf(),
            op % 8 == 4 ==> incremented(*old(self), *final(self), (op / 8) as int),
            op % 8 == 5 ==> decremented(*old(self), *final(self), (op / 8) as int),
            op % 8 == 4 || op % 8 == 5 ==> r == (if op / 8 == 6 { 12u16 } else { 4u16 }),
            op % 8 == 6 ==> stored(
                CPU { pc: inc16(old(self).pc), ..*old(self) },
                *final(self),
                (op / 8) as int,
                old(self).bus_read(old(self).pc),
            ) && r == (if op / 8 == 6 { 12u16 } else { 8u16 }),
    {
        let i = op / 8;
        if op % 8 == 6 {
            let value = self.read_pc();
            self.write_operand(i, value);
            return if i == 6 {
                12
            } else {
                8
            };
        }
        let value = self.read_operand(i);
        let (value, timing) = if op % 8 == 4 {
            self.op_inc(value)
        } else {
            self.op_dec(value)
        };
        self.write_operand(i, value);
        if i == 6 {
            12
        } else {
            timing
        }
    }

    /// Executes an opcode of 0x40 ..= 0x7f: 8-bit register and memory loads, and HALT.
    fn op_group_ld(&mut self, op: u8) -> (r: Timing)
        requires
            old(self).wf(),
            0x40 <= op <= 0x7f,
            defined_opcode(op),
        ensures
            final(self).wf(),
            decoded_effect(*old(self), *final(self), op, r),
    {
        if op == 0x76 {
            self.halt = true;
            return 4;
        }
        let (i, j) = (op % 8, (op / 8) % 8);
        let value = self.read_operand(i);
        self.write_operand(j, value);
        if i == 6 || j == 6 {
            8
        } else {
            4
        }
    }

    /// Executes an opcode of 0x80 ..= 0xbf: 8-bit arithmetic and logic on A.
    fn op_group_alu(&mut self, op: u8) -> (r: Timing)
        requires
            old(self).wf(),
            0x80 <= op <= 0xbf,
            defined_opcode(op),
        ensures
            final(self).wf(),
            decoded_effect(*old(self), *final(self), op, r),
    {
        assert((op - 0x80) / 8 == (op / 8) % 8);
        let i = op % 8;
        let value = self.read_operand(i);
        let timing = self.alu_op((op - 0x80) / 8, value);
        if i == 6 {
            timing + 4
        } else {
            timing
        }
    }

    /// Reads the operand that three bits of an opcode name.
    fn read_operand(&self, i: u8) -> (r: u8)
        requires
            self.wf(),
            i < 8,
        ensures
            r == operand(*self, i as int),
    {
        match i {
            0 => self.regs.b,
            1 => self.regs.c,
            2 => self.regs.d,
            3 => self.regs.e,
            4 => self.regs.h,
            5 => self.regs.l,
            6 => self.read(self.regs.hl()),
            _ => self.regs.a,
        }
    }

    /// Stores a byte into the operand that three bits of an opcode name.
    fn write_operand(&mut self, i: u8, value: u8)
        requires
            old(self).wf(),
            i < 8,
        ensures
            final(self).wf(),
            stored(*old(self), *final(self), i as int, value),
    {
        match i {
            0 => self.regs.b = value,
            1 => self.regs.c = value,
            2 => self.regs.d = value,
            3 => self.regs.e = value,
            4 => self.regs.h = value,
            5 => self.regs.l = value,
            6 => self.write(self.regs.hl(), value),
            _ => self.regs.a = value,
        }
    }

    /// Runs the 8-bit operation `kind` of A with `value`.
    fn alu_op(&mut self, kind: u8, value: u8) -> (r: Timing)
        requires
            kind < 8,
        ensures
            *final(self) == alu(*old(self), kind as int, value),
            r == 4,
    {
        match kind {
            0 => self.op_add(value),
            1 => self.op_adc(value),
            2 => self.op_sub(value),
            3 => self.op_sbc(value),
            4 => self.op_and(value),
            5 => self.op_xor(value),
            6 => self.op_or(value),
            _ => self.op_cp(value),
        }
    }

    /// Executes an opcode of 0xc0 ..= 0xff: jumps, calls, returns, stack, high-page loads and immediates.
    fn op_group_ctl(&mut self, op: u8) -> (r: Timing)
        requires
            old(self).wf(),
            0xc0 <= op <= 0xff,
            defined_opcode(op),
        ensures
            final(self).wf(),
            4 <= r <= 24,
            decoded_effect(*old(self), *final(self), op, r),
    {
        if Self::is_control_op(op) {
            return self.op_control(op);
        }
        if Self::is_data_op(op) {
            return self.op_ctl_rest(op);
        }
        if op % 8 == 6 {
            assert((op - 0xc6) / 8 == (op / 8) % 8);
            let value = self.read_pc();
            return self.alu_op((op - 0xc6) / 8, value) + 4;
        }
        if op == 0xcb {
            let cb = self.read_pc();
            return self.handle_op_cb(cb);
        }
        self.op_ctl_rest(op)
    }

    /// The other opcodes of 0xc0 ..= 0xff: the loads of the high page and of
    /// a 16-bit address, and the additions of an offset to SP.
    fn op_ctl_rest(&mut self, op: u8) -> (r: Timing)
        requires
            old(self).wf(),
            0xc0 <= op <= 0xff,
            is_data(op),
        ensures
            final(self).wf(),
            4 <= r <= 24,
            data_effect(*old(self), *final(self), op, r),
    {
        let r = self.op_high(op);
        proof {
            reveal(data_effect);
        }
        r
    }

    /// The loads of the high page and of a 16-bit address, and the
    /// additions of an offset to SP.
    #[verifier::rlimit(30)]
    fn op_high(&mut self, op: u8) -> (r: Timing)
        requires
            old(self).wf(),
            0xc0 <= op <= 0xff,
            is_data(op),
        ensures
            final(self).wf(),
            4 <= r <= 24,
            high_effect(*old(self), *final(self), op, r),
    {
        reveal(high_effect);
        match op {
            0xe0 => { let word = self.read_pc() as u16; self.write(0xff00 + word, self.regs.a); 12 },
            0xf0 => { let word = self.read_pc() as u16; self.regs.a = self.read(0xff00 + word); 12 },
            0xe2 => { self.write(0xff00 + self.regs.c as u16, self.regs.a); 8 },
            0xf2 => { self.regs.a = self.read(0xff00 + self.regs.c as u16); 8 },
            0xe8 => self.op_add_sp(),
            0xf8 => { let prev = self.sp; self.op_add_sp(); self.regs.set_hl(self.sp); self.sp = prev; 12 },
            0xf9 => { self.sp = self.regs.hl(); 8 },
            0xea => self.op_write_16_data(),
            0xfa => self.op_load_16_data(),
            _ => {
                proof {
                    assert(false);
                }
                4
            },
        }
    }

    /// Whether the opcode is one of `is_data`.
    fn is_data_op(op: u8) -> (r: bool)
        ensures
            r == is_data(op),
    {
        (op <= 0x3f && (op % 16 == 1 || op % 16 == 3 || op % 16 == 0xb || op % 16 == 9 || op % 16
            == 2 || op % 16 == 0xa)) || op == 0x07 || op == 0x17 || op == 0x0f || op == 0x1f || op
            == 0x27 || op == 0x37 || op == 0x3f || op == 0x2f || op == 0x08 || op == 0x10 || op
            == 0xe0 || op == 0xf0 || op == 0xe2 || op == 0xf2 || op == 0xe8 || op == 0xf8 || op
            == 0xf9 || op == 0xea || op == 0xfa
    }

    /// Whether the opcode is one that `op_control` runs.
    fn is_control_op(op: u8) -> (r: bool)
        ensures
            r == is_control(op),
    {
        op == 0x00 || op == 0x18 || op == 0x20 || op == 0x28 || op == 0x30 || op == 0x38 || op
            == 0xc0 || op == 0xc8 || op == 0xd0 || op == 0xd8 || op == 0xc9 || op == 0xd9 || op
            == 0xc2 || op == 0xca || op == 0xd2 || op == 0xda || op == 0xc3 || op == 0xc4 || op
            == 0xcc || op == 0xd4 || op == 0xdc || op == 0xcd || (op >= 0xc0 && (op % 8 == 7 || op
            % 16 == 5 || op % 16 == 1)) || op == 0xf3 || op == 0xfb || op == 0xe9
    }

    /// Executes a jump, call, return, restart, push, pop, a switch of
    /// interrupts, or NOP.
    #[verifier::rlimit(40)]
    fn op_control(&mut self, op: u8) -> (r: Timing)
        requires
            old(self).wf(),
            is_control(op),
        ensures
            final(self).wf(),
            4 <= r <= 24,
            control_effect(*old(self), *final(self), op, r),
    {
        reveal(control_effect);
        let j = (op / 8) % 8;
        if op == 0x00 {
            4
        } else if op == 0x18 || op == 0x20 || op == 0x28 || op == 0x30 || op == 0x38 {
            let jump = if op == 0x18 {
                true
            } else {
                self.condition_holds(j - 4)
            };
            self.op_jr(jump)
        } else if op == 0xc0 || op == 0xc8 || op == 0xd0 || op == 0xd8 {
            let jump = self.condition_holds(j);
            self.op_ret(jump)
        } else if op == 0xc9 {
            self.op_ret(true);
            16
        } else if op == 0xd9 {
            self.op_ret(true);
            self.interrupts.enabled = true;
            16
        } else if op == 0xc2 || op == 0xca || op == 0xd2 || op == 0xda || op == 0xc3 {
            let jump = if op == 0xc3 {
                true
            } else {
                self.condition_holds(j)
            };
            self.op_jp(jump)
        } else if op == 0xc4 || op == 0xcc || op == 0xd4 || op == 0xdc || op == 0xcd {
            let jump = if op == 0xcd {
                true
            } else {
                self.condition_holds(j)
            };
            self.op_call(jump)
        } else if op % 8 == 7 {
            self.op_rst(op - 0xc7)
        } else if op % 16 == 5 {
            let value = self.pair_value((op - 0xc5) / 16);
            self.op_push(value)
        } else if op % 16 == 1 {
            let (value, timing) = self.op_pop();
            self.set_pair((op - 0xc1) / 16, value);
            timing
        } else if op == 0xf3 || op == 0xfb {
            self.interrupts.enabled = op == 0xfb;
            4
        } else {
            self.pc = self.regs.hl();
            4
        }
    }

    /// Whether the condition that bits 3..=4 of a conditional jump name holds.
    fn condition_holds(&self, k: u8) -> (r: bool)
        requires
            k < 4,
        ensures
            r == condition(*self, k as int),
    {
        match k {
            0 => !self.regs.f.zero,
            1 => self.regs.f.zero,
            2 => !self.regs.f.carry,
            _ => self.regs.f.carry,
        }
    }

    /// The register pair that bits 4..=5 of a push name.
    fn pair_value(&self, k: u8) -> (r: u16)
        requires
            k < 4,
        ensures
            r == pair(self.regs, k as int),
    {
        match k {
            0 => self.regs.bc(),
            1 => self.regs.de(),
            2 => self.regs.hl(),
            _ => self.regs.af(),
        }
    }

    /// Sets the register pair that bits 4..=5 of a pop name.
    fn set_pair(&mut self, k: u8, value: u16)
        requires
            k < 4,
        ensures
            *final(self) == (CPU { regs: with_pair(old(self).regs, k as int, value), ..*old(self) }),
    {
        match k {
            0 => self.regs.set_bc(value),
            1 => self.regs.set_de(value),
            2 => self.regs.set_hl(value),
            _ => self.regs.set_af(value),
        }
    }

    /// Executes the instruction that follows the 0xcb prefix.
    pub fn handle_op_cb(&mut self, cb: u8) -> (r: Timing)
        requires
            old(self).wf(),
        ensures
            final(self).wf(),
            cb_post(*old(self), *final(self), cb),
            r == cb_timing(cb),
    {
        if cb <= 0x3f {
            self.cb_shift(cb)
        } else {
            self.cb_bits(cb)
        }
    }

    /// The rotations, shifts and swaps of 0xcb 0x00 ..= 0x3f.
    fn cb_shift(&mut self, cb: u8) -> (r: Timing)
        requires
            old(self).wf(),
            cb <= 0x3f,
        ensures
            final(self).wf(),
            cb_post(*old(self), *final(self), cb),
            r == cb_timing(cb),
    {
        let i = cb % 8;
        let value = self.read_operand(i);
        let (value, timing) = self.shift_op(cb / 8, value);
        self.write_operand(i, value);
        if i == 6 {
            16
        } else {
            timing
        }
    }

    /// Runs the rotation, shift or swap `kind` on `value`.
    fn shift_op(&mut self, kind: u8, value: u8) -> (r: (u8, Timing))
        requires
            kind < 8,
        ensures
            r.0 == shifted(kind as int, value, old(self).regs.f.carry),
            r.1 == 8,
            *final(self) == with_flags(*old(self), shifted_flags(kind as int, value, r.0)),
    {
        match kind {
            0 => self.op_rl(value),
            1 => self.op_rr(value),
            2 => self.op_rlc(value),
            3 => self.op_rrc(value),
            4 => self.op_sll(value),
            5 => self.op_sr(value),
            6 => self.op_swap(value),
            _ => self.op_srl(value),
        }
    }

    /// The bit tests, resets and sets of 0xcb 0x40 ..= 0xff.
    fn cb_bits(&mut self, cb: u8) -> (r: Timing)
        requires
            old(self).wf(),
            cb >= 0x40,
        ensures
            final(self).wf(),
            cb_post(*old(self), *final(self), cb),
            r == cb_timing(cb),
    {
        let i = cb % 8;
        let bit = (cb / 8) % 8;
        let value = self.read_operand(i);
        if cb <= 0x7f {
            let timing = self.op_bit(value, bit);
            if i == 6 {
                timing + 4
            } else {
                timing
            }
        } else if cb <= 0xbf {
            let (value, timing) = self.op_res(value, bit);
            self.write_operand(i, value);
            if i == 6 {
                16
            } else {
                timing
            }
        } else {
            let (value, timing) = self.op_set(value, bit);
            self.write_operand(i, value);
            if i == 6 {
                16
            } else {
                timing
            }
        }
    }
}

} // verus!
