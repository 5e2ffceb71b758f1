use vstd::prelude::*;

verus! {

/// The eight buttons packed into a byte, button `i` in bit `i`.
pub open spec fn pack_buttons(buttons: Seq<bool>, n: nat) -> nat
    decreases n,
{
    if n == 0 {
        0
    } else {
        pack_buttons(buttons, (n - 1) as nat) + if buttons[n - 1] {
            vstd::arithmetic::power2::pow2((n - 1) as nat)
        } else {
            0
        }
    }
}

/// A standard controller: eight buttons and the shift register the program reads
/// them through, one bit per read.
pub struct Controller {
    pub buttons: [bool; 8],
    pub shift: u8,
    pub strobe: bool,
}

/// The abstract state of a controller.
pub struct ControllerState {
    pub buttons: Seq<bool>,
    pub shift: u8,
    pub strobe: bool,
}

impl View for Controller {
    type V = ControllerState;

    open spec fn view(&self) -> ControllerState {
        ControllerState { buttons: self.buttons@, shift: self.shift, strobe: self.strobe }
    }
}

impl ControllerState {
    /// The state after latching: the shift register holds the buttons.
    pub open spec fn latch_spec(self) -> ControllerState {
        ControllerState { shift: pack_buttons(self.buttons, 8) as u8, ..self }
    }

    /// The state after the program writes `value` to the strobe register.
    pub open spec fn write_spec(self, value: u8) -> ControllerState {
        let c = ControllerState { strobe: value & 1 != 0, ..self };
        if c.strobe {
            c.latch_spec()
        } else {
            c
        }
    }

    /// A read: the next button bit in bit 0 (with open-bus bit 6 set), and the state
    /// after it; while strobing the register keeps reloading, else it shifts in ones.
    pub open spec fn read_spec(self) -> (ControllerState, u8) {
        let c = if self.strobe {
            self.latch_spec()
        } else {
            self
        };
        let r = c.shift % 2;
        let next = if c.strobe {
            c
        } else {
            ControllerState { shift: (c.shift / 2 + 0x80) as u8, ..c }
        };
        (next, (r + 0x40) as u8)
    }
}

/// The state after `n` reads.
pub open spec fn reads(c: ControllerState, n: nat) -> ControllerState
    decreases n,
{
    if n == 0 {
        c
    } else {
        reads(c.read_spec().0, (n - 1) as nat)
    }
}

/// The shift register after `k` reads without strobe: shifted right, ones shifted in.
pub open spec fn shifted(s: int, k: nat) -> int
    decreases k,
{
    if k == 0 {
        s
    } else {
        shifted(s, (k - 1) as nat) / 2 + 128
    }
}

/// Reads without strobe only shift the register.
proof fn lemma_reads_shift(c: ControllerState, k: nat)
    requires
        !c.strobe,
    ensures
        reads(c, k).shift == shifted(c.shift as int, k),
        !reads(c, k).strobe,
        reads(c, k).buttons == c.buttons,
    decreases k,
{
    if k > 0 {
        lemma_reads_shift(c, (k - 1) as nat);
        lemma_reads_split(c, (k - 1) as nat);
        assert(shifted(c.shift as int, (k - 1) as nat) / 2 + 128 < 256);
    }
}

/// Law: once the buttons are latched and the strobe is released, the reads report
/// button 0 (right) through 7 (start) in turn, 1 for pressed, in bit 0 with bit 6 set;
/// every read after the eighth reports 1.
pub proof fn lemma_reads_report_buttons(c: ControllerState, k: nat)
    requires
        c.buttons.len() == 8,
        !c.strobe,
        c.shift == pack_buttons(c.buttons, 8),
    ensures
        reads(c, k).read_spec().1 == 0x40 + if k >= 8 || c.buttons[k as int] {
            1int
        } else {
            0
        },
{
    if k >= 8 {
        lemma_reads_after_eight(c, k);
    } else {
        lemma_reads_shift(c, k);
        vstd::arithmetic::power2::lemma2_to64();
        reveal_with_fuel(pack_buttons, 9);
        reveal_with_fuel(shifted, 9);
        let bs = c.buttons;
        let s = c.shift;
        let (b0, b1, b2, b3, b4, b5, b6, b7) = (bs[0], bs[1], bs[2], bs[3], bs[4], bs[5], bs[6], bs[7]);
        assert(s as int == (if b0 { 1int } else { 0 }) + (if b1 { 2int } else { 0 }) + (if b2 {
            4int
        } else {
            0
        }) + (if b3 { 8int } else { 0 }) + (if b4 { 16int } else { 0 }) + (if b5 { 32int } else {
            0
        }) + (if b6 { 64int } else { 0 }) + (if b7 { 128int } else { 0 }));
        assert({
            &&& (s % 2 == 1) == b0
            &&& ((s / 2 + 128) % 2 == 1) == b1
            &&& (((s / 2 + 128) / 2 + 128) % 2 == 1) == b2
            &&& ((((s / 2 + 128) / 2 + 128) / 2 + 128) % 2 == 1) == b3
            &&& (((((s / 2 + 128) / 2 + 128) / 2 + 128) / 2 + 128) % 2 == 1) == b4
            &&& ((((((s / 2 + 128) / 2 + 128) / 2 + 128) / 2 + 128) / 2 + 128) % 2 == 1) == b5
            &&& (((((((s / 2 + 128) / 2 + 128) / 2 + 128) / 2 + 128) / 2 + 128) / 2 + 128) % 2
                == 1) == b6
            &&& ((((((((s / 2 + 128) / 2 + 128) / 2 + 128) / 2 + 128) / 2 + 128) / 2 + 128) / 2
                + 128) % 2 == 1) == b7
        }) by (bit_vector)
            requires
                s as int == (if b0 { 1int } else { 0 }) + (if b1 { 2int } else { 0 }) + (if b2 {
                    4int
                } else {
                    0
                }) + (if b3 { 8int } else { 0 }) + (if b4 { 16int } else { 0 }) + (if b5 {
                    32int
                } else {
                    0
                }) + (if b6 { 64int } else { 0 }) + (if b7 { 128int } else { 0 }),
        ;
    }
}

/// After eight reads the register holds all ones and keeps reading 1.
proof fn lemma_reads_after_eight(c: ControllerState, k: nat)
    requires
        !c.strobe,
        k >= 8,
    ensures
        reads(c, k).shift == 0xff,
        !reads(c, k).strobe,
        reads(c, k).read_spec().1 == 0x41,
    decreases k,
{
    if k == 8 {
        reveal_with_fuel(reads, 9);
    } else {
        lemma_reads_after_eight(c, (k - 1) as nat);
        lemma_reads_split(c, (k - 1) as nat);
    }
}

/// `n + 1` reads are `n` reads followed by one more.
proof fn lemma_reads_split(c: ControllerState, n: nat)
    ensures
        reads(c, n + 1) == reads(c, n).read_spec().0,
    decreases n,
{
    reveal_with_fuel(reads, 2);
    if n > 0 {
        lemma_reads_split(c.read_spec().0, (n - 1) as nat);
    }
}

pub(crate) proof fn lemma_pack_bound(buttons: Seq<bool>, n: nat)
    requires
        n <= 8,
    ensures
        pack_buttons(buttons, n) < vstd::arithmetic::power2::pow2(n),
    decreases n,
{
    vstd::arithmetic::power2::lemma2_to64();
    if n > 0 {
        lemma_pack_bound(buttons, (n - 1) as nat);
        vstd::arithmetic::power2::lemma_pow2_unfold(n);
    }
}

impl Default for Controller {
    fn default() -> (c: Controller)
        ensures
            c@ == (ControllerState { buttons: Seq::new(8, |i: int| false), shift: 0, strobe: false }),
    {
        let c = Controller { buttons: [false; 8], shift: 0, strobe: false };
        assert(c@.buttons =~= Seq::new(8, |i: int| false));
        c
    }
}

impl Controller {
    /// A write to the strobe register: bit 0 set keeps the buttons latched.
    pub fn write(&mut self, value: u8)
        ensures
            final(self)@ == old(self)@.write_spec(value),
    {
        self.strobe = value & 1 != 0;
        if self.strobe {
            self.latch();
        }
    }

    /// Loads the buttons into the shift register.
    pub fn latch(&mut self)
        ensures
            final(self)@ == old(self)@.latch_spec(),
    {
        proof {
            vstd::arithmetic::power2::lemma2_to64();
            lemma_pack_bound(self.buttons@, 8);
        }
        let mut shift: u16 = 0;
        let mut bit: u16 = 1;
        let mut i: usize = 0;
        while i < 8
            invariant
                i <= 8,
                shift == pack_buttons(self.buttons@, i as nat),
                bit == vstd::arithmetic::power2::pow2(i as nat),
            decreases 8 - i,
        {
            proof {
                vstd::arithmetic::power2::lemma2_to64();
                lemma_pack_bound(self.buttons@, (i + 1) as nat);
                vstd::arithmetic::power2::lemma_pow2_unfold((i + 1) as nat);
            }
            if self.buttons[i] {
                shift += bit;
            }
            bit *= 2;
            i += 1;
        }
        self.shift = shift as u8;
    }

    /// A read of the controller port.
    pub fn read(&mut self) -> (r: u8)
        ensures
            (final(self)@, r) == old(self)@.read_spec(),
    {
        if self.strobe {
            self.latch();
        }
        let r = self.shift % 2;
        if !self.strobe {
            self.shift = self.shift / 2 + 0x80;
        }
        r + 0x40
    }
}

} // verus!
