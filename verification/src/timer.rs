use vstd::prelude::*;
use vstd::arithmetic::div_mod::lemma_fundamental_div_mod_converse;

verus! {

/// A number of machine clock ticks.
pub type Timing = u16;

/// How many times a counter with the given rate steps when its accumulator
/// reaches `total`: it steps while the accumulator is above the rate.
pub open spec fn steps(total: int, rate: int) -> int {
    if total <= rate {
        0
    } else {
        (total - 1) / rate
    }
}

/// The clock rate that the two low bits of TAC select.
pub open spec fn clock_rate(clock: u8) -> u32 {
    if clock == 0 {
        1024
    } else if clock == 1 {
        16
    } else if clock == 2 {
        64
    } else {
        256
    }
}

/// A counter that advances its 8-bit value once for every `rate` ticks.
#[derive(Clone, Copy)]
pub struct SubTimer {
    pub timer: u32,
    pub value: u8,
    pub rate: u32,
}

impl SubTimer {
    /// The counter after `ticks` more ticks.
    pub open spec fn after_inc(self, ticks: Timing) -> SubTimer {
        let total = self.timer + ticks;
        let n = steps(total, self.rate as int);
        SubTimer {
            timer: (total - n * self.rate) as u32,
            value: ((self.value + n) % 256) as u8,
            rate: self.rate,
        }
    }

    /// Whether the 8-bit value wraps past 0 during `ticks` more ticks.
    pub open spec fn inc_overflows(self, ticks: Timing) -> bool {
        self.value + steps(self.timer + ticks, self.rate as int) >= 256
    }

    pub fn new(rate: u32) -> (r: Self)
        ensures
            r == (SubTimer { timer: 0, value: 0, rate }),
    {
        Self { timer: 0, value: 0, rate }
    }

    pub fn set_timer(&mut self, value: u8)
        ensures
            *final(self) == (SubTimer { value, ..*old(self) }),
    {
        self.value = value;
    }

    pub fn set_rate(&mut self, rate: u32)
        ensures
            *final(self) == (SubTimer { rate, ..*old(self) }),
    {
        self.rate = rate;
    }

    /// Adds `value` ticks; returns whether the counter wrapped past 0.
    pub fn inc(&mut self, value: Timing) -> (overflow: bool)
        requires
            old(self).rate > 0,
            old(self).timer + value <= u32::MAX,
        ensures
            *final(self) == old(self).after_inc(value),
            final(self).timer <= final(self).rate,
            overflow == old(self).inc_overflows(value),
    {
        let ghost start = *self;
        let ghost total: int = self.timer + value;
        let ghost rate: int = self.rate as int;
        let mut overflow = false;
        self.timer = self.timer + value as u32;
        let ghost mut k: int = 0;
        while self.timer > self.rate
            invariant
                self.rate == start.rate,
                rate > 0,
                rate == self.rate,
                k >= 0,
                self.timer == total - k * rate,
                k > 0 ==> self.timer > 0,
                self.value == (start.value + k) % 256,
                overflow == (start.value + k >= 256),
            decreases self.timer,
        {
            let ghost prev: int = self.timer as int;
            self.timer = self.timer - self.rate;
            self.value = self.value.wrapping_add(1);
            proof {
                let kk = k;
                assert(prev - rate == total - (kk + 1) * rate) by (nonlinear_arith)
                    requires
                        prev == total - kk * rate,
                ;
                k = k + 1;
            }
            if self.value == 0 {
                overflow = true;
            }
        }
        proof {
            if k > 0 {
                assert(k * rate >= rate) by (nonlinear_arith)
                    requires
                        k >= 1,
                        rate > 0,
                ;
                assert(total - 1 == k * rate + (self.timer - 1));
                lemma_fundamental_div_mod_converse(total - 1, rate, k, self.timer - 1);
            }
            assert(k == steps(total, rate));
        }
        overflow
    }
}

impl From<SubTimer> for u8 {
    fn from(timer: SubTimer) -> (r: u8) {
        timer.value
    }
}

impl vstd::std_specs::convert::FromSpecImpl<SubTimer> for u8 {
    open spec fn obeys_from_spec() -> bool {
        true
    }

    open spec fn from_spec(timer: SubTimer) -> u8 {
        timer.value
    }
}

/// The timer control register: whether TIMA runs, and its clock select.
#[derive(Clone, Copy)]
pub struct TAC {
    pub start: bool,
    pub clock: u8,
}

impl TAC {
    pub open spec fn wf(self) -> bool {
        self.clock < 4
    }

    pub fn rate(self) -> (r: u32)
        requires
            self.wf(),
        ensures
            r == clock_rate(self.clock),
    {
        match self.clock {
            0x00 => 1024,
            0x01 => 16,
            0x02 => 64,
            _ => 256,
        }
    }
}

/// The TAC register that a byte written to it sets.
pub open spec fn tac_of(other: u8) -> TAC {
    TAC { start: (other & 0x04) != 0, clock: other & 0x03 }
}

/// The byte that reading the TAC register gives.
pub open spec fn tac_byte(other: TAC) -> u8 {
    (other.clock | (if other.start { 0x04u8 } else { 0x00u8 })) as u8
}

impl From<u8> for TAC {
    fn from(other: u8) -> (r: TAC) {
        TAC { start: (other & 0x04) != 0, clock: other & 0x03 }
    }
}

impl vstd::std_specs::convert::FromSpecImpl<u8> for TAC {
    open spec fn obeys_from_spec() -> bool {
        true
    }

    open spec fn from_spec(other: u8) -> TAC {
        tac_of(other)
    }
}

impl From<TAC> for u8 {
    fn from(other: TAC) -> (r: u8) {
        other.clock | (if other.start { 0x04 } else { 0x00 })
    }
}

impl vstd::std_specs::convert::FromSpecImpl<TAC> for u8 {
    open spec fn obeys_from_spec() -> bool {
        true
    }

    open spec fn from_spec(other: TAC) -> u8 {
        tac_byte(other)
    }
}

/// Counting steps in two parts counts them as in one: the steps of `x`
/// ticks and then of `t` more from what is left over are the steps of
/// `x + t`, with the same ticks left over.
proof fn lemma_steps_split(x: int, t: int, rate: int)
    requires
        rate > 0,
        x >= 0,
        t >= 0,
    ensures
        ({
            let n1 = steps(x, rate);
            let r1 = x - n1 * rate;
            &&& 0 <= r1 <= (if x <= rate { x } else { rate })
            &&& n1 + steps(r1 + t, rate) == steps(x + t, rate)
            &&& r1 + t - steps(r1 + t, rate) * rate == x + t - steps(x + t, rate) * rate
        }),
{
    let n1 = steps(x, rate);
    let r1 = x - n1 * rate;
    if x > rate {
        let m = (x - 1) % rate;
        vstd::arithmetic::div_mod::lemma_fundamental_div_mod(x - 1, rate);
        assert(x - 1 == rate * n1 + m);
        assert(r1 == m + 1) by (nonlinear_arith)
            requires
                x - 1 == rate * n1 + m,
                r1 == x - n1 * rate,
        ;
        assert(0 <= m < rate);
        let u = r1 + t - 1;
        let q2 = u / rate;
        let m2 = u % rate;
        vstd::arithmetic::div_mod::lemma_fundamental_div_mod(u, rate);
        assert(x + t - 1 == (n1 + q2) * rate + m2) by (nonlinear_arith)
            requires
                u == rate * q2 + m2,
                u == r1 + t - 1,
                x - 1 == rate * n1 + m,
                r1 == m + 1,
        ;
        vstd::arithmetic::div_mod::lemma_fundamental_div_mod_converse(x + t - 1, rate, n1 + q2, m2);
        if r1 + t <= rate {
            assert(q2 == 0) by {
                vstd::arithmetic::div_mod::lemma_fundamental_div_mod_converse(u, rate, 0, u);
            }
        }
        assert(n1 * rate + q2 * rate == (n1 + q2) * rate) by (nonlinear_arith);
    }
}

/// Running a counter for `t1` ticks and then `t2` more is running it for
/// `t1 + t2` ticks at once; the ticks left over stay within one period,
/// and a wrap in either part is a wrap of the whole.
pub proof fn lemma_inc_in_parts(s: SubTimer, t1: Timing, t2: Timing)
    requires
        s.rate > 0,
        s.timer <= s.rate,
        t1 + t2 <= u16::MAX,
    ensures
        s.after_inc(t1).after_inc(t2) == s.after_inc((t1 + t2) as u16),
        s.after_inc(t1).timer <= s.rate,
        s.inc_overflows(t1) || s.after_inc(t1).inc_overflows(t2) ==> s.inc_overflows(
            (t1 + t2) as u16,
        ),
{
    lemma_steps_split(s.timer + t1, t2 as int, s.rate as int);
    let n1 = steps(s.timer + t1, s.rate as int);
    let n2 = steps(s.timer + t1 - n1 * s.rate + t2, s.rate as int);
    assert(((s.value + n1) % 256 + n2) % 256 == (s.value + n1 + n2) % 256) by {
        vstd::arithmetic::div_mod::lemma_add_mod_noop_right(n2, s.value + n1, 256);
    }
}

/// A TAC decoded from a byte is well formed, and reads back as the three
/// low bits of that byte.
pub proof fn lemma_tac_round_trip(v: u8)
    ensures
        tac_of(v).wf(),
        tac_byte(tac_of(v)) == v & 0x07,
{
    crate::bytes::lemma_masks(v);
    assert(((v & 0x03) | (if (v & 0x04) != 0 { 0x04u8 } else { 0x00u8 })) == v & 0x07)
        by (bit_vector);
}

/// A well-formed TAC survives a trip through its byte.
pub proof fn lemma_tac_byte_round_trip(t: TAC)
    requires
        t.wf(),
    ensures
        tac_of(tac_byte(t)) == t,
{
    let c = t.clock;
    let s = t.start;
    assert(c < 4 ==> ((c | (if s { 0x04u8 } else { 0x00u8 })) & 0x03) == c && ((((c | (if s {
        0x04u8
    } else {
        0x00u8
    })) & 0x04) != 0) == s)) by (bit_vector);
}

/// The timer unit: the DIV counter, the TIMA counter with its reload value
/// TMA, and the TAC control register.
pub struct Timer {
    pub div: SubTimer,
    pub tima: SubTimer,
    pub tma: u8,
    pub tac: TAC,
}

impl Timer {
    pub open spec fn wf(&self) -> bool {
        &&& self.tac.wf()
        &&& self.div.rate == 256
        &&& self.tima.rate == clock_rate(self.tac.clock)
        &&& self.div.timer <= 1024
        &&& self.tima.timer <= 1024
    }

    pub fn new() -> (r: Self)
        ensures
            r.wf(),
            r.div == (SubTimer { timer: 0, value: 0, rate: 256 }),
            r.tima == (SubTimer { timer: 0, value: 0, rate: 1024 }),
            r.tma == 0,
            r.tac == (TAC { start: false, clock: 0 }),
    {
        let t3 = TAC::from(0x03);
        let t0 = TAC::from(0x00);
        proof {
            lemma_tac_round_trip(0x03);
            lemma_tac_round_trip(0x00);
            crate::bytes::lemma_byte_arith(0x03);
            crate::bytes::lemma_byte_arith(0x00);
        }
        Self {
            div: SubTimer::new(t3.rate()),
            tima: SubTimer::new(t0.rate()),
            tma: 0,
            tac: TAC::from(0),
        }
    }

    /// Runs the timer for `timing` ticks; returns whether TIMA overflowed,
    /// in which case TIMA has been reloaded from TMA.
    pub fn advance(&mut self, timing: Timing) -> (overflow: bool)
        requires
            old(self).wf(),
        ensures
            final(self).wf(),
            final(self).div == old(self).div.after_inc(timing),
            final(self).tma == old(self).tma,
            final(self).tac == old(self).tac,
            overflow == (old(self).tac.start && old(self).tima.inc_overflows(timing)),
            !old(self).tac.start ==> final(self).tima == old(self).tima,
            old(self).tac.start ==> final(self).tima == (if overflow {
                SubTimer { value: old(self).tma, ..old(self).tima.after_inc(timing) }
            } else {
                old(self).tima.after_inc(timing)
            }),
    {
        self.div.inc(timing);
        if !self.tac.start {
            return false;
        }
        let overflow = self.tima.inc(timing);
        if overflow {
            self.tima.set_timer(self.tma);
        }
        overflow
    }

    pub fn reset_div(&mut self)
        ensures
            *final(self) == (Timer { div: SubTimer { value: 0, ..old(self).div }, ..*old(self) }),
    {
        self.div.set_timer(0)
    }

    pub fn div(&self) -> (r: u8)
        ensures
            r == self.div.value,
    {
        u8::from(self.div)
    }

    pub fn set_tima(&mut self, value: u8)
        ensures
            *final(self) == (Timer { tima: SubTimer { value, ..old(self).tima }, ..*old(self) }),
    {
        self.tima.set_timer(value)
    }

    pub fn tima(&self) -> (r: u8)
        ensures
            r == self.tima.value,
    {
        u8::from(self.tima)
    }

    pub fn set_tma(&mut self, value: u8)
        ensures
            *final(self) == (Timer { tma: value, ..*old(self) }),
    {
        self.tma = value;
    }

    pub fn tma(&self) -> (r: u8)
        ensures
            r == self.tma,
    {
        self.tma
    }

    pub fn set_tac(&mut self, value: u8)
        requires
            old(self).wf(),
        ensures
            final(self).wf(),
            *final(self) == (Timer {
                tac: tac_of(value),
                tima: SubTimer { rate: clock_rate(tac_of(value).clock), ..old(self).tima },
                ..*old(self)
            }),
    {
        proof {
            lemma_tac_round_trip(value);
        }
        self.tac = TAC::from(value);
        let rate = self.tac.rate();
        self.tima.set_rate(rate);
    }

    pub fn tac(&self) -> (r: u8)
        ensures
            r == tac_byte(self.tac),
    {
        u8::from(self.tac)
    }
}

} // verus!
