use geebee::timer::{SubTimer, Timer, TAC};

#[test]
fn subtimer() {
    let mut st = SubTimer::new(16);
    assert_eq!(u8::from(st), 0);
    assert_eq!(st.inc(8), false);
    assert_eq!(u8::from(st), 0);
    assert_eq!(st.inc(8), false);
    assert_eq!(u8::from(st), 0);
    assert_eq!(st.inc(16), false);
    assert_eq!(u8::from(st), 1);
    st.set_timer(250);
    assert_eq!(u8::from(st), 250);

    st.set_rate(4);
    assert_eq!(u8::from(st), 250);
    assert_eq!(st.inc(4), false);
    assert_eq!(u8::from(st), 254);

    st.set_rate(1);
    assert_eq!(u8::from(st), 254);
    assert_eq!(st.inc(2), true);
    assert_eq!(u8::from(st), 3);
    assert_eq!(st.inc(0xff), true);
    assert_eq!(u8::from(st), 2);
}

#[test]
fn tac_reads_back_three_bits() {
    for v in [0x00u8, 0x03, 0x04, 0x05, 0x07, 0xf8, 0xff] {
        assert_eq!(u8::from(TAC::from(v)), v & 0x07);
    }
    assert_eq!(TAC::from(0x04).rate(), 1024);
    assert_eq!(TAC::from(0x05).rate(), 16);
    assert_eq!(TAC::from(0x06).rate(), 64);
    assert_eq!(TAC::from(0x07).rate(), 256);
}

#[test]
fn timer_stopped_counts_div_only() {
    let mut t = Timer::new();
    assert_eq!(t.advance(257), false);
    assert_eq!(t.div(), 1);
    assert_eq!(t.tima(), 0);
}

#[test]
fn timer_overflow_reloads_tma() {
    let mut t = Timer::new();
    t.set_tac(0x05);
    assert_eq!(t.tac(), 0x05);
    t.set_tma(0x42);
    assert_eq!(t.tma(), 0x42);
    t.set_tima(0xff);
    assert_eq!(t.tima(), 0xff);
    // At 16 ticks a step, 17 ticks step TIMA once: it wraps and is reloaded.
    assert_eq!(t.advance(17), true);
    assert_eq!(t.tima(), 0x42);
    t.reset_div();
    assert_eq!(t.div(), 0);
}
