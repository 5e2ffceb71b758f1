use vstd::prelude::*;

verus! {

/// The P1 joypad register.
///
/// `buttons` holds one bit per button, set while it is held: bits 0-3 are the
/// directions (right, left, up, down) and bits 4-7 the actions (A, B, select,
/// start). `select` holds the two group-select bits written by the program.
pub struct Joypad {
    pub select: u8,
    pub buttons: u8,
    pub previous: u8,
}

impl Joypad {
    /// The state after power-on: nothing held, both groups selected.
    pub open spec fn power_on() -> Joypad {
        Joypad { select: 0, buttons: 0, previous: 0 }
    }

    /// The group-select bits, as last written.
    pub open spec fn select_spec(self) -> u8 {
        self.select
    }

    /// The held buttons, one bit each.
    pub open spec fn buttons_spec(self) -> u8 {
        self.buttons
    }

    /// The four input lines, active low: a line reads 0 while a button of a
    /// selected group on that line is held.
    pub open spec fn lines_spec(self) -> u8 {
        let dirs: u8 = if self.select & 0x10 == 0 { self.buttons & 0x0f } else { 0 };
        let acts: u8 = if self.select & 0x20 == 0 { (self.buttons >> 4u8) & 0x0f } else { 0 };
        0x0f & !dirs & !acts
    }

    /// The value a program reads from P1.
    pub open spec fn read_spec(self) -> u8 {
        0xc0 | self.select_spec() | self.lines_spec()
    }

    /// The state after the program writes `value` to P1: only the select bits are kept.
    pub open spec fn write_spec(self, value: u8) -> Joypad {
        Joypad { select: value & 0x30, ..self }
    }

    /// The state after a button changes, and whether a line fell from 1 to 0,
    /// which is when the joypad interrupt is requested.
    pub open spec fn set_spec(self, bit: u8, down: bool) -> (Joypad, bool) {
        let previous = self.lines_spec();
        let buttons: u8 = if down {
            self.buttons | (1u8 << bit)
        } else {
            self.buttons & !(1u8 << bit)
        };
        let next = Joypad { buttons, previous, ..self };
        (next, previous & !next.lines_spec() != 0)
    }

    /// The value of P1.
    pub fn read(&self) -> (r: u8)
        ensures
            r == self.read_spec(),
    {
        0xc0 | self.select | self.lines()
    }

    /// A program write to P1.
    pub fn write(&mut self, value: u8)
        ensures
            *final(self) == old(self).write_spec(value),
            old(self).wf() ==> final(self).wf(),
    {
        self.select = value & 0x30;
        proof {
            lemma_select_bits();
        }
    }

    /// Presses or releases button `bit` (0-7); returns whether a selected line went low.
    pub fn set(&mut self, bit: u8, down: bool) -> (irq: bool)
        requires
            bit < 8,
        ensures
            (*final(self), irq) == old(self).set_spec(bit, down),
            old(self).wf() ==> final(self).wf(),
    {
        self.previous = self.lines();
        if down {
            self.buttons |= 1 << bit
        } else {
            self.buttons &= !(1 << bit)
        }
        self.previous & !self.lines() != 0
    }

    fn lines(&self) -> (r: u8)
        ensures
            r == self.lines_spec(),
    {
        let mut out = 0x0f;
        if self.select & 0x10 == 0 {
            out &= !(self.buttons & 0x0f);
        }
        if self.select & 0x20 == 0 {
            out &= !((self.buttons >> 4) & 0x0f);
        }
        proof {
            let s = self.select;
            let b = self.buttons;
            assert(out == (0x0fu8 & !(if s & 0x10 == 0 { b & 0x0f } else { 0u8 }) & !(if s & 0x20
                == 0 {
                (b >> 4u8) & 0x0f
            } else {
                0u8
            }))) by (bit_vector)
                requires
                    out == if s & 0x20 == 0 {
                        (if s & 0x10 == 0 { 0x0fu8 & !(b & 0x0f) } else { 0x0fu8 }) & !((b >> 4u8)
                            & 0x0f)
                    } else {
                        if s & 0x10 == 0 { 0x0fu8 & !(b & 0x0f) } else { 0x0fu8 }
                    },
            ;
        }
        out
    }

    /// Only the two group-select bits of `select` are ever set.
    pub open spec fn wf(self) -> bool {
        self.select & 0xcf == 0
    }

    /// A program write keeps only the select bits.
    pub proof fn lemma_write_wf(self, value: u8)
        ensures
            self.write_spec(value).wf(),
    {
        lemma_select_bits();
    }

    /// Law: a held button reads as 0 on its line while its group is selected,
    /// and with neither group selected every line reads 1.
    pub proof fn lemma_held_button_reads_low(self, bit: u8)
        requires
            self.wf(),
            bit < 8,
        ensures
            bit < 4 && self.select_spec() & 0x10 == 0 && self.buttons_spec() & (1u8 << bit) != 0
                ==> self.read_spec() & (1u8 << bit) == 0,
            4 <= bit && self.select_spec() & 0x20 == 0 && self.buttons_spec() & (1u8 << bit) != 0
                ==> self.read_spec() & (1u8 << (bit - 4) as u8) == 0,
            self.select_spec() & 0x30 == 0x30 ==> self.read_spec() & 0x0f == 0x0f,
    {
        let s = self.select;
        let b = self.buttons;
        let l = self.lines_spec();
        let r = self.read_spec();
        assert({
            &&& (bit < 4 && s & 0x10 == 0 && b & (1u8 << bit) != 0 ==> r & (1u8 << bit) == 0)
            &&& (4 <= bit < 8 && s & 0x20 == 0 && b & (1u8 << bit) != 0 ==> r & (1u8 << (bit
                - 4) as u8) == 0)
            &&& (s & 0x30 == 0x30 ==> r & 0x0f == 0x0f)
        }) by (bit_vector)
            requires
                s & 0xcf == 0,
                r == 0xc0 | s | l,
                l == 0x0fu8 & !(if s & 0x10 == 0 { b & 0x0f } else { 0u8 }) & !(if s & 0x20 == 0 {
                    (b >> 4u8) & 0x0f
                } else {
                    0u8
                }),
        ;
    }
}

impl Joypad {
    /// Law: at power-on, with nothing held and both groups selected, P1 reads 0xcf.
    pub proof fn lemma_power_on_reads()
        ensures
            Joypad::power_on().read_spec() == 0xcf,
    {
        let p = Joypad::power_on();
        let l = p.lines_spec();
        let s = p.select;
        let b = p.buttons;
        assert(l == 0x0f && 0xc0u8 | 0u8 | 0x0fu8 == 0xcf) by (bit_vector)
            requires
                s == 0,
                b == 0,
                l == 0x0fu8 & !(if s & 0x10 == 0 { b & 0x0f } else { 0u8 }) & !(if s & 0x20 == 0 {
                    (b >> 4u8) & 0x0f
                } else {
                    0u8
                }),
        ;
    }

    /// Law: pressing or releasing a button leaves P1's high nibble as it was, and
    /// reports true exactly when one of P1's input lines fell from 1 to 0; a release
    /// never reports one.
    pub proof fn lemma_set_reports_falling_line(self, bit: u8, down: bool)
        requires
            self.wf(),
            bit < 8,
        ensures
            ({
                let (next, irq) = self.set_spec(bit, down);
                let before = self.read_spec() & 0x0f;
                let after = next.read_spec() & 0x0f;
                &&& irq == (before & !after != 0)
                &&& next.read_spec() & 0xf0 == self.read_spec() & 0xf0
                &&& !down ==> !irq
            }),
    {
        let (next, irq) = self.set_spec(bit, down);
        let s = self.select;
        let b0 = self.buttons;
        let b1 = next.buttons;
        let l0 = self.lines_spec();
        let l1 = next.lines_spec();
        assert({
            &&& l0 <= 0x0f && l1 <= 0x0f
            &&& (0xc0 | s | l0) & 0x0f == (s & 0x0f) | l0
            &&& (0xc0 | s | l1) & 0x0f == (s & 0x0f) | l1
            &&& (0xc0 | s | l0) & 0xf0 == (0xc0 | s | l1) & 0xf0
            &&& (!down ==> l0 & !l1 == 0)
            &&& (((s & 0x0f) | l0) & !((s & 0x0f) | l1) != 0 <==> l0 & !l1 != 0)
        }) by (bit_vector)
            requires
                bit < 8,
                s & 0xcf == 0,
                b1 == if down { b0 | (1u8 << bit) } else { b0 & !(1u8 << bit) },
                l0 == 0x0fu8 & !(if s & 0x10 == 0 { b0 & 0x0f } else { 0u8 }) & !(if s & 0x20 == 0 {
                    (b0 >> 4u8) & 0x0f
                } else {
                    0u8
                }),
                l1 == 0x0fu8 & !(if s & 0x10 == 0 { b1 & 0x0f } else { 0u8 }) & !(if s & 0x20 == 0 {
                    (b1 >> 4u8) & 0x0f
                } else {
                    0u8
                }),
        ;
    }
}

/// Only the select bits of a write survive, and nothing selected is consistent.
proof fn lemma_select_bits()
    ensures
        forall|v: u8| #[trigger] (v & 0x30) & 0xcf == 0,
        0u8 & 0xcf == 0,
{
    assert((forall|v: u8| #[trigger] (v & 0x30) & 0xcf == 0) && 0u8 & 0xcf == 0) by (bit_vector);
}

impl Default for Joypad {
    fn default() -> (j: Joypad)
        ensures
            j == Joypad::power_on(),
            j.wf(),
    {
        proof {
            lemma_select_bits();
        }
        Joypad { select: 0, buttons: 0, previous: 0 }
    }
}

} // verus!
