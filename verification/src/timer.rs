use vstd::prelude::*;

verus! {

/// The divider and the programmable timer (DIV, TIMA, TMA, TAC).
///
/// `div` is the free-running 16-bit system counter; DIV is its high byte.
/// TIMA is clocked by the falling edge of one bit of `div`, selected by TAC,
/// and when it overflows it is reloaded from TMA four cycles later.
pub struct Timer {
    pub div: u16,
    pub tima: u8,
    pub tma: u8,
    pub tac: u8,
    pub reload: Option<u8>,
}

impl Timer {
    /// The timer is consistent: a pending reload counts down from 4 to 1.
    pub open spec fn wf(self) -> bool {
        match self.reload {
            Some(n) => 1 <= n <= 4,
            None => true,
        }
    }

    /// The mask of the `div` bit that clocks TIMA for a clock select value.
    pub open spec fn tap_mask(tac: u8) -> u16 {
        let sel = tac & 3;
        if sel == 0 {
            0x200
        } else if sel == 1 {
            0x8
        } else if sel == 2 {
            0x20
        } else {
            0x80
        }
    }

    /// The input of the TIMA edge detector: timer enabled and the tapped bit set.
    pub open spec fn signal_spec(self) -> bool {
        self.tac & 4 != 0 && self.div & Self::tap_mask(self.tac) != 0
    }

    /// One TIMA increment; overflow wraps to 0 and schedules a reload.
    pub open spec fn increment_spec(self) -> Timer {
        if self.tima == 0xff {
            Timer { tima: 0, reload: Some(4u8), ..self }
        } else {
            Timer { tima: (self.tima + 1) as u8, ..self }
        }
    }

    /// Increments TIMA when the signal fell from `old_signal` to the current value.
    pub open spec fn edge_spec(self, old_signal: bool) -> Timer {
        if old_signal && !self.signal_spec() {
            self.increment_spec()
        } else {
            self
        }
    }

    /// The state after a write to DIV.
    pub open spec fn write_div_spec(self) -> Timer {
        Timer { div: 0, ..self }.edge_spec(self.signal_spec())
    }

    /// The state after a write of `v` to TAC.
    pub open spec fn write_tac_spec(self, v: u8) -> Timer {
        Timer { tac: v & 7, ..self }.edge_spec(self.signal_spec())
    }

    /// One machine cycle: the new state and whether the timer interrupt is raised.
    pub open spec fn tick_spec(self) -> (Timer, bool) {
        let t = Timer { div: ((self.div + 1) % 0x10000) as u16, ..self }.edge_spec(
            self.signal_spec(),
        );
        match t.reload {
            Some(n) => if n == 1 {
                (Timer { tima: t.tma, reload: None, ..t }, true)
            } else {
                (Timer { reload: Some((n - 1) as u8), ..t }, false)
            },
            None => (t, false),
        }
    }

    /// DIV: the high byte of the system counter.
    pub fn read_div(&self) -> (r: u8)
        ensures
            r == self.div / 256,
    {
        (self.div / 256) as u8
    }

    /// A write to DIV clears the counter; the falling edge this may cause clocks TIMA.
    pub fn write_div(&mut self)
        ensures
            *final(self) == old(self).write_div_spec(),
    {
        let old = self.signal();
        self.div = 0;
        if old && !self.signal() {
            self.increment();
        }
    }

    /// A write to TAC keeps its low three bits; a falling edge it causes clocks TIMA.
    pub fn write_tac(&mut self, v: u8)
        ensures
            *final(self) == old(self).write_tac_spec(v),
    {
        let old = self.signal();
        self.tac = v & 7;
        if old && !self.signal() {
            self.increment();
        }
    }

    fn signal(&self) -> (r: bool)
        ensures
            r == self.signal_spec(),
    {
        self.tac & 4 != 0 && self.div & (match self.tac & 3 {
            0 => 0x200u16,
            1 => 0x8,
            2 => 0x20,
            _ => 0x80,
        }) != 0
    }

    fn increment(&mut self)
        ensures
            *final(self) == old(self).increment_spec(),
    {
        if self.tima == 0xff {
            self.tima = 0;
            self.reload = Some(4);
        } else {
            self.tima += 1;
        }
    }

    /// Advances the timer by one cycle; returns whether TIMA was just reloaded,
    /// which is when the timer interrupt is requested.
    pub fn tick(&mut self) -> (irq: bool)
        requires
            old(self).wf(),
        ensures
            (*final(self), irq) == old(self).tick_spec(),
            final(self).wf(),
    {
        let old = self.signal();
        self.div = self.div.wrapping_add(1);
        if old && !self.signal() {
            self.increment();
        }
        if let Some(n) = self.reload {
            if n == 1 {
                self.tima = self.tma;
                self.reload = None;
                return true;
            }
            self.reload = Some(n - 1);
        }
        false
    }
}

/// Law: a write to DIV makes DIV read 0 and changes neither TMA nor TAC.
pub proof fn lemma_div_write_clears(t: Timer)
    ensures
        t.write_div_spec().div / 256 == 0,
        t.write_div_spec().tma == t.tma,
        t.write_div_spec().tac == t.tac,
{
}

/// Law: the timer interrupt is raised only when a pending reload completes, and then
/// TIMA holds TMA; a tick keeps the timer consistent.
pub proof fn lemma_interrupt_reloads(t: Timer)
    requires
        t.wf(),
    ensures
        t.tick_spec().1 ==> t.tick_spec().0.tima == t.tma,
        t.tick_spec().1 ==> t.reload == Some(1u8),
        t.tick_spec().0.wf(),
{
}

/// Law: when TIMA overflows on a tick (no reload pending), it reads 0 for the next
/// three ticks with no interrupt, and on the fourth tick, counting the overflowing one,
/// it is reloaded from TMA and the timer interrupt is raised.
pub proof fn lemma_overflow_reload_delay(t: Timer)
    requires
        t.reload is None,
        t.tima == 0xff,
        t.signal_spec(),
        !(Timer { div: ((t.div + 1) % 0x10000) as u16, ..t }).signal_spec(),
    ensures
        ({
            let (t1, i1) = t.tick_spec();
            let (t2, i2) = t1.tick_spec();
            let (t3, i3) = t2.tick_spec();
            let (t4, i4) = t3.tick_spec();
            &&& !i1 && !i2 && !i3 && i4
            &&& t1.tima == 0 && t2.tima <= 1 && t3.tima <= 2
            &&& t4.tima == t.tma
        }),
{
    let (t1, i1) = t.tick_spec();
    assert(t1.reload == Some(3u8) && t1.tima == 0);
    let (t2, i2) = t1.tick_spec();
    assert(t2.reload == Some(2u8) && t2.tima <= 1);
    let (t3, i3) = t2.tick_spec();
    assert(t3.reload == Some(1u8) && t3.tima <= 2);
}

/// Law: with the timer enabled, TIMA counts once per timer period (1024, 16, 64 or 256
/// cycles for clock selects 0-3): a tick advances it exactly when it takes the divider to a
/// multiple of the period; with the timer disabled ticks never advance it (no reload pending
/// and TIMA below 0xff).
pub proof fn lemma_timer_period(t: Timer)
    requires
        t.reload is None,
        t.tima < 0xff,
    ensures
        t.tick_spec().0.tima == t.tima + if t.tac & 4 != 0 && (t.div + 1) % (2 * Timer::tap_mask(
            t.tac,
        )) == 0 {
            1int
        } else {
            0
        },
        t.tick_spec().0.div == (t.div + 1) % 0x10000,
        !t.tick_spec().1,
{
    let d = t.div;
    let m = Timer::tap_mask(t.tac);
    let n = ((d + 1) % 0x10000) as u16;
    assert(m == 0x200 || m == 8 || m == 0x20 || m == 0x80);
    let m2: u16 = (2 * m) as u16;
    assert(n == ((d as int + 1) % 0x10000) as u16);
    assert((d & m != 0 && n & m == 0) == (n % m2 == 0)) by (bit_vector)
        requires
            m == 0x200u16 || m == 8u16 || m == 0x20u16 || m == 0x80u16,
            m2 == ((m as int) * 2) as u16,
            n == ((d as int + 1) % 0x10000) as u16,
    ;
    let q: int = if m == 0x200 {
        64
    } else if m == 8 {
        4096
    } else if m == 0x20 {
        1024
    } else {
        256
    };
    assert(m2 as int == 2 * m && m2 as int * q == 0x10000);
    vstd::arithmetic::div_mod::lemma_mod_mod(d as int + 1, m2 as int, q);
}

impl Default for Timer {
    fn default() -> (t: Timer)
        ensures
            t == (Timer { div: 0, tima: 0, tma: 0, tac: 0, reload: None }),
    {
        Timer { div: 0, tima: 0, tma: 0, tac: 0, reload: None }
    }
}

} // verus!
