use geebee::cpu::{Flags, Registers, CPU};
use geebee::lcd::LCD;
use geebee::memory::Memory;

fn new_cpu(data: &[u8]) -> CPU {
    let mut cpu = CPU::new(Memory::new().with_bootrom(data), LCD::new(false));
    cpu.sp = 0xfffe;
    cpu.pc = 0;
    cpu
}

#[test]
fn registers() {
    let mut r = Registers::new_boot();
    r.set_af(0x1230);
    r.set_bc(0x2345);
    r.set_de(0x3456);
    r.set_hl(0x4567);

    assert_eq!(r.a, 0x12);
    assert_eq!(u8::from(r.f), 0x30);
    assert_eq!(r.af(), 0x1230);

    assert_eq!(r.b, 0x23);
    assert_eq!(r.c, 0x45);
    assert_eq!(r.bc(), 0x2345);

    assert_eq!(r.d, 0x34);
    assert_eq!(r.e, 0x56);
    assert_eq!(r.de(), 0x3456);

    assert_eq!(r.h, 0x45);
    assert_eq!(r.l, 0x67);
    assert_eq!(r.hl(), 0x4567);
}

#[test]
fn op_push_pop() {
    let mut cpu = new_cpu(&[]);
    cpu.sp = 0xfffe;
    cpu.op_push(0x0102);
    assert_eq!(cpu.sp, 0xfffc);
    assert_eq!(cpu.op_pop().0, 0x0102);
    assert_eq!(cpu.sp, 0xfffe);
}

#[test]
fn op_jr() {
    let mut cpu = new_cpu(&[0x12, 0xfd]);
    assert_eq!(cpu.op_jr(false), 8);
    assert_eq!(cpu.pc, 0x0001);

    cpu.pc = 0;
    assert_eq!(cpu.op_jr(true), 12);
    assert_eq!(cpu.pc, 0x0013);

    cpu.pc = 0x01;
    cpu.op_jr(true);
    assert_eq!(cpu.pc, 0xffff);
}

#[test]
fn op_ld_16() {
    let mut cpu = new_cpu(&[0x12, 0xfd]);
    let res = cpu.op_ld_16();
    assert_eq!(res.0, 0xfd12);
    assert_eq!(cpu.pc, 0x0002);
}

#[test]
fn op_inc() {
    let mut cpu = new_cpu(&[]);

    assert_eq!(cpu.op_inc(0x01).0, 0x02);
    assert_eq!(cpu.regs.f.zero, false);
    assert_eq!(cpu.regs.f.add_sub, false);
    assert_eq!(cpu.regs.f.half_carry, false);

    assert_eq!(cpu.op_inc(0x0f).0, 0x10);
    assert_eq!(cpu.regs.f.zero, false);
    assert_eq!(cpu.regs.f.add_sub, false);
    assert_eq!(cpu.regs.f.half_carry, true);

    assert_eq!(cpu.op_inc(0xff).0, 0x00);
    assert_eq!(cpu.regs.f.zero, true);
    assert_eq!(cpu.regs.f.add_sub, false);
    assert_eq!(cpu.regs.f.half_carry, true);
}

#[test]
fn op_dec() {
    let mut cpu = new_cpu(&[]);
    assert_eq!(cpu.op_dec(0x01).0, 0x00);
    assert_eq!(cpu.regs.f.zero, true);
    assert_eq!(cpu.regs.f.add_sub, true);
    assert_eq!(cpu.regs.f.half_carry, false);

    assert_eq!(cpu.op_dec(0x00).0, 0xff);
    assert_eq!(cpu.regs.f.zero, false);
    assert_eq!(cpu.regs.f.add_sub, true);
    assert_eq!(cpu.regs.f.half_carry, true);

    assert_eq!(cpu.op_dec(0xf0).0, 0xef);
    assert_eq!(cpu.regs.f.zero, false);
    assert_eq!(cpu.regs.f.add_sub, true);
    assert_eq!(cpu.regs.f.half_carry, true);
}

#[test]
fn op_sp_hl() {
    let mut cpu = new_cpu(&[0xff]);
    cpu.sp = 0xffff;
    cpu.op_add_sp();
    assert_eq!(cpu.sp, 0xfffe);
    assert_eq!(cpu.regs.f.half_carry, true);
    assert_eq!(cpu.regs.f.carry, true);
}

#[test]
fn flags_keep_the_high_nibble() {
    for v in [0x00u8, 0x0f, 0x10, 0x5a, 0xf0, 0xff] {
        assert_eq!(u8::from(Flags::from(v)), v & 0xf0);
    }
    let f = Flags::from(0xa0);
    assert!(f.zero && !f.add_sub && f.half_carry && !f.carry);
}

#[test]
fn push_then_pop_in_work_ram() {
    let mut cpu = new_cpu(&[]);
    cpu.sp = 0xd000;
    assert_eq!(cpu.op_push(0xbeef), 16);
    assert_eq!(cpu.sp, 0xcffe);
    assert_eq!(cpu.read(0xcfff), 0xbe);
    assert_eq!(cpu.read(0xcffe), 0xef);
    assert_eq!(cpu.op_pop(), (0xbeef, 12));
    assert_eq!(cpu.sp, 0xd000);
}

#[test]
fn alu_examples() {
    let mut cpu = new_cpu(&[]);
    cpu.regs.a = 0x3a;
    cpu.regs.f = Flags::from(0x00);
    assert_eq!(cpu.op_add(0xc6), 4);
    assert_eq!(cpu.regs.a, 0x00);
    assert!(cpu.regs.f.zero && cpu.regs.f.half_carry && cpu.regs.f.carry && !cpu.regs.f.add_sub);

    cpu.regs.a = 0x3e;
    cpu.op_sub(0x3e);
    assert_eq!(cpu.regs.a, 0);
    assert!(cpu.regs.f.zero && cpu.regs.f.add_sub && !cpu.regs.f.carry);

    cpu.regs.a = 0x3b;
    cpu.regs.f.carry = true;
    cpu.op_sbc(0x2a);
    assert_eq!(cpu.regs.a, 0x10);

    cpu.regs.a = 0x45;
    cpu.regs.f = Flags::from(0x00);
    cpu.op_add(0x38);
    cpu.op_daa();
    assert_eq!(cpu.regs.a, 0x83);
    assert!(!cpu.regs.f.carry);

    cpu.regs.a = 0x3c;
    cpu.op_cp(0x2f);
    assert_eq!(cpu.regs.a, 0x3c);
    assert!(!cpu.regs.f.zero && cpu.regs.f.half_carry && !cpu.regs.f.carry);

    cpu.regs.a = 0x5a;
    cpu.op_and(0x3f);
    assert_eq!(cpu.regs.a, 0x1a);
    assert!(cpu.regs.f.half_carry);
    cpu.op_xor(0x1a);
    assert_eq!(cpu.regs.a, 0);
    assert!(cpu.regs.f.zero);
    cpu.op_or(0x81);
    assert_eq!(cpu.regs.a, 0x81);
}

#[test]
fn rotation_examples() {
    let mut cpu = new_cpu(&[]);
    cpu.regs.f = Flags::from(0x00);
    assert_eq!(cpu.op_rl(0x85), (0x0b, 8));
    assert!(cpu.regs.f.carry);
    assert_eq!(cpu.op_rlc(0x00), (0x01, 8));
    assert!(!cpu.regs.f.carry);
    assert_eq!(cpu.op_rr(0x01), (0x80, 8));
    assert!(cpu.regs.f.carry);
    assert_eq!(cpu.op_rrc(0x02), (0x81, 8));
    assert!(!cpu.regs.f.carry);
    assert_eq!(cpu.op_sll(0x80), (0x00, 8));
    assert!(cpu.regs.f.carry && cpu.regs.f.zero);
    assert_eq!(cpu.op_srl(0x01), (0x00, 8));
    assert_eq!(cpu.op_sr(0x8a), (0xc5, 8));
    assert_eq!(cpu.op_swap(0xf1), (0x1f, 8));
    assert_eq!(cpu.op_res(0xff, 3), (0xf7, 8));
    assert_eq!(cpu.op_set(0x00, 7), (0x80, 8));
    cpu.op_bit(0x10, 4);
    assert!(!cpu.regs.f.zero);
    cpu.op_bit(0x10, 3);
    assert!(cpu.regs.f.zero);
}

#[test]
fn add_hl_carries() {
    let mut cpu = new_cpu(&[]);
    cpu.regs.set_hl(0x8a23);
    cpu.op_add_hl(0x8a23);
    assert_eq!(cpu.regs.hl(), 0x1446);
    // Bits 0..=11 of 0x8a23 are 0xa23, and 0xa23 + 0xa23 carries out of bit 11.
    assert!(cpu.regs.f.carry && cpu.regs.f.half_carry && !cpu.regs.f.add_sub);
    cpu.regs.set_hl(0x0800);
    cpu.op_add_hl(0x0800);
    assert_eq!(cpu.regs.hl(), 0x1000);
    assert!(!cpu.regs.f.carry && cpu.regs.f.half_carry);
    cpu.regs.set_hl(0x0700);
    cpu.op_add_hl(0x0800);
    assert_eq!(cpu.regs.hl(), 0x0f00);
    assert!(!cpu.regs.f.carry && !cpu.regs.f.half_carry);
    cpu.regs.set_hl(0x0fff);
    cpu.op_add_hl(0x0001);
    assert_eq!(cpu.regs.hl(), 0x1000);
    assert!(!cpu.regs.f.carry && cpu.regs.f.half_carry);
}

#[test]
fn program_runs() {
    // LD A,0x42; LD (0xc000),A; LD B,A; INC B; CALL 0x0010; HALT; ...; at 0x10: RET
    let mut rom = vec![0u8; 0x20];
    rom[..11].copy_from_slice(&[0x3e, 0x42, 0xea, 0x00, 0xc0, 0x47, 0x04, 0xcd, 0x10, 0x00, 0x76]);
    rom[0x10] = 0xc9;
    let mut cpu = new_cpu(&rom);
    for _ in 0..7 {
        cpu.step();
    }
    assert_eq!(cpu.regs.a, 0x42);
    assert_eq!(cpu.read(0xc000), 0x42);
    assert_eq!(cpu.read(0xe000), 0x42);
    assert_eq!(cpu.regs.b, 0x43);
    assert_eq!(cpu.pc, 0x0b);
    assert!(cpu.halt);
    assert_eq!(cpu.sp, 0xfffe);
}

#[test]
fn interrupt_is_serviced() {
    let mut cpu = new_cpu(&[0x00; 0x100]);
    cpu.pc = 0x0050;
    cpu.write(0xffff, 0x05);
    cpu.write(0xff0f, 0x04);
    cpu.interrupts.enabled = true;
    cpu.step();
    assert_eq!(cpu.pc, 0x0050);
    assert!(!cpu.interrupts.enabled);
    assert_eq!(cpu.interrupts.flag & 0x04, 0);
    assert_eq!(cpu.sp, 0xfffc);
    assert_eq!(cpu.read(0xfffc), 0x50);
    assert_eq!(cpu.read(0xfffd), 0x00);
}

#[test]
fn cb_prefixed_instructions() {
    // LD B,0x81; CB 0x00 (rotate B left); CB 0x78 (BIT 7,B); CB 0xc0 (SET 0,B)
    let mut cpu = new_cpu(&[0x06, 0x81, 0xcb, 0x00, 0xcb, 0x78, 0xcb, 0xc0, 0xcb, 0x80]);
    assert_eq!(cpu.handle_op(0x00), 4);
    cpu.pc = 0;
    cpu.step();
    assert_eq!(cpu.regs.b, 0x81);
    cpu.step();
    assert_eq!(cpu.regs.b, 0x03);
    assert!(cpu.regs.f.carry);
    cpu.step();
    assert!(cpu.regs.f.zero);
    cpu.step();
    assert_eq!(cpu.regs.b, 0x03);
    cpu.step();
    assert_eq!(cpu.regs.b, 0x02);
}

#[test]
fn serial_and_speed_registers() {
    let mut cpu = new_cpu(&[]);
    cpu.write(0xff01, b'h');
    cpu.write(0xff02, 0x81);
    assert_eq!(cpu.serial(), &vec![b'h']);
    assert_eq!(cpu.read(0xff0f) & 0x08, 0x08);
    assert_eq!(cpu.read(0xff4d), 0x00);
    cpu.write(0xff4d, 0x01);
    assert_eq!(cpu.read(0xff4d), 0x01);
    assert_eq!(cpu.read(0xff50), 0);
}

#[test]
fn operands_through_hl() {
    // LD HL,0xc000; LD B,0x12; LD (HL),B; LD A,0x21; ADD A,(HL); CB SWAP (HL);
    // CB BIT 0,(HL); CB RES 1,(HL); INC (HL); LD C,(HL)
    let program = [
        0x21, 0x00, 0xc0, 0x06, 0x12, 0x70, 0x3e, 0x21, 0x86, 0xcb, 0x36, 0xcb, 0x46, 0xcb, 0x8e,
        0x34, 0x4e,
    ];
    let mut cpu = new_cpu(&program);
    cpu.step();
    cpu.step();
    assert_eq!(cpu.regs.hl(), 0xc000);
    assert_eq!(cpu.regs.b, 0x12);
    cpu.step();
    assert_eq!(cpu.read(0xc000), 0x12);
    cpu.step();
    cpu.step();
    assert_eq!(cpu.regs.a, 0x33);
    assert!(!cpu.regs.f.zero && !cpu.regs.f.carry && !cpu.regs.f.half_carry);
    cpu.step();
    assert_eq!(cpu.read(0xc000), 0x21);
    cpu.step();
    // Bit 0 of 0x21 is set.
    assert!(!cpu.regs.f.zero && cpu.regs.f.half_carry);
    cpu.step();
    assert_eq!(cpu.read(0xc000), 0x21);
    cpu.step();
    assert_eq!(cpu.read(0xc000), 0x22);
    cpu.step();
    assert_eq!(cpu.regs.c, 0x22);
    assert_eq!(cpu.pc, program.len() as u16);
}

#[test]
fn instruction_timings() {
    let mut cpu = new_cpu(&[]);
    cpu.regs.set_hl(0xc000);
    // LD B,C; LD B,(HL); LD (HL),B; HALT
    assert_eq!(cpu.handle_op(0x41), 4);
    assert_eq!(cpu.handle_op(0x46), 8);
    assert_eq!(cpu.handle_op(0x70), 8);
    // ADD A,B; ADD A,(HL); INC B; INC (HL); DEC (HL)
    assert_eq!(cpu.handle_op(0x80), 4);
    assert_eq!(cpu.handle_op(0x86), 8);
    assert_eq!(cpu.handle_op(0x04), 4);
    assert_eq!(cpu.handle_op(0x34), 12);
    assert_eq!(cpu.handle_op(0x35), 12);
    // CB prefix: register, BIT (HL), SET (HL)
    assert_eq!(cpu.handle_op_cb(0x11), 8);
    assert_eq!(cpu.handle_op_cb(0x46), 12);
    assert_eq!(cpu.handle_op_cb(0xc6), 16);
    assert_eq!(cpu.handle_op(0x76), 4);
    assert!(cpu.halt);
}

#[test]
fn undefined_opcode_is_skipped() {
    let mut cpu = new_cpu(&[0xd3, 0x00]);
    let a = cpu.regs.a;
    cpu.step();
    assert_eq!(cpu.pc, 1);
    assert_eq!(cpu.regs.a, a);
}

#[test]
fn conditional_control_flow() {
    // XOR A (zero set); JR NZ,+2 (not taken); JR Z,+2 (taken, skips two NOPs);
    // NOP; NOP; CALL 0x0010; HALT ... at 0x10: PUSH BC; POP DE; RET
    let mut rom = vec![0u8; 0x20];
    rom[..11].copy_from_slice(&[0xaf, 0x20, 0x02, 0x28, 0x02, 0x00, 0x00, 0xcd, 0x10, 0x00, 0x76]);
    rom[0x10..0x13].copy_from_slice(&[0xc5, 0xd1, 0xc9]);
    let mut cpu = new_cpu(&rom);
    cpu.regs.set_bc(0xbeef);
    cpu.step();
    assert!(cpu.regs.f.zero);
    cpu.step();
    assert_eq!(cpu.pc, 3);
    cpu.step();
    assert_eq!(cpu.pc, 7);
    cpu.step();
    assert_eq!(cpu.pc, 0x10);
    assert_eq!(cpu.sp, 0xfffc);
    assert_eq!(cpu.read(0xfffc), 0x0a);
    cpu.step();
    cpu.step();
    assert_eq!(cpu.regs.de(), 0xbeef);
    cpu.step();
    assert_eq!(cpu.pc, 0x0a);
    assert_eq!(cpu.sp, 0xfffe);
    cpu.step();
    assert!(cpu.halt);
}

#[test]
fn restart_and_interrupt_switches() {
    let mut cpu = new_cpu(&[0xfb, 0xf3, 0xef]);
    cpu.step();
    assert!(cpu.interrupts.enabled);
    cpu.step();
    assert!(!cpu.interrupts.enabled);
    cpu.step();
    assert_eq!(cpu.pc, 0x28);
    assert_eq!(cpu.read(0xfffc), 0x03);
}

#[test]
fn store_sp_and_stop() {
    // LD (0xc000),SP; STOP; STOP
    let mut cpu = new_cpu(&[0x08, 0x00, 0xc0, 0x10, 0x00, 0x10, 0x00]);
    cpu.step();
    assert_eq!(cpu.read(0xc000), 0xfe);
    assert_eq!(cpu.read(0xc001), 0xff);
    assert_eq!(cpu.pc, 3);
    // Without a prepared switch, STOP halts.
    let op = cpu.read_pc();
    assert_eq!(cpu.handle_op(op), 4);
    assert!(cpu.halt);
    assert_eq!(cpu.pc, 5);
    // With one, it switches the speed and clears the request.
    cpu.halt = false;
    let speed = cpu.speed;
    cpu.write(0xff4d, 0x01);
    let op = cpu.read_pc();
    assert_eq!(cpu.handle_op(op), 4);
    assert!(!cpu.halt);
    assert!(!cpu.prepare_speed);
    assert_ne!(cpu.speed, speed);
    assert_eq!(cpu.pc, 7);
}

#[test]
fn daa_gives_decimal_results() {
    let mut cpu = new_cpu(&[]);
    for (a, b, sum, diff) in [
        (0x45u8, 0x38u8, 0x83u8, 0x07u8),
        (0x99, 0x01, 0x00, 0x98),
        (0x12, 0x34, 0x46, 0x78),
        (0x50, 0x50, 0x00, 0x00),
    ] {
        let (da, db) = ((a >> 4) * 10 + (a & 0x0f), (b >> 4) * 10 + (b & 0x0f));
        cpu.regs.a = a;
        cpu.op_add(b);
        assert_eq!(cpu.op_daa(), 4);
        assert_eq!(cpu.regs.a, sum);
        assert_eq!(cpu.regs.f.carry, da as u16 + db as u16 >= 100);
        assert_eq!(cpu.regs.f.zero, sum == 0);
        assert!(!cpu.regs.f.half_carry);
        cpu.regs.a = a;
        cpu.op_sub(b);
        assert_eq!(cpu.op_daa(), 4);
        assert_eq!(cpu.regs.a, diff);
        assert_eq!(cpu.regs.f.carry, da < db);
        assert_eq!(cpu.regs.f.zero, diff == 0);
        assert!(cpu.regs.f.add_sub);
    }
}
