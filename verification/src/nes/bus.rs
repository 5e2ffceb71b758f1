use vstd::prelude::*;

use super::cartridge::{Cartridge, NesCartState};
use super::controller::{Controller, ControllerState};
use super::ppu::{Ppu, NesPpuState, power_on_ppu, lemma_tick_beam, frame_dots, vblank_dot, prerender_dot};

verus! {

/// The abstract state of the CPU bus and what is mapped on it.
pub struct NesBusState {
    pub ram: Seq<u8>,
    pub prg: Seq<u8>,
    pub ppu: NesPpuState,
    pub pad: ControllerState,
    pub pad2: ControllerState,
    pub dma_stall: u16,
}

/// `n` dots of the PPU.
pub open spec fn ppu_ticks(p: NesPpuState, n: nat) -> NesPpuState
    decreases n,
{
    if n == 0 {
        p
    } else {
        ppu_ticks(p.tick_spec(), (n - 1) as nat)
    }
}

/// The bus at power-on with cartridge `cart`.
pub open spec fn power_on_nes_bus(cart: NesCartState) -> NesBusState {
    NesBusState {
        ram: Seq::new(0x800, |i: int| 0u8),
        prg: cart.prg,
        ppu: power_on_ppu(cart),
        pad: ControllerState { buttons: Seq::new(8, |i: int| false), shift: 0, strobe: false },
        pad2: ControllerState { buttons: Seq::new(8, |i: int| false), shift: 0, strobe: false },
        dma_stall: 0,
    }
}

impl NesBusState {
    /// Memory sizes are fixed, PRG ROM is present and a DMA stall is at most 513 cycles.
    pub open spec fn wf(self) -> bool {
        &&& self.ram.len() == 0x800
        &&& 0 < self.prg.len()
        &&& self.ppu.wf()
        &&& self.pad.buttons.len() == 8
        &&& self.pad2.buttons.len() == 8
        &&& self.dma_stall <= 513
    }

    /// A CPU read of `a`: the state after it (PPU registers and controllers have
    /// read side effects) and the byte read; unmapped addresses read 0.
    #[verifier::opaque]
    pub open spec fn read_spec(self, a: u16) -> (NesBusState, u8) {
        if a <= 0x1fff {
            (self, self.ram[(a % 0x800) as int])
        } else if a <= 0x3fff {
            let (ppu, v) = self.ppu.read_reg_spec(a);
            (NesBusState { ppu, ..self }, v)
        } else if a == 0x4016 {
            let (pad, v) = self.pad.read_spec();
            (NesBusState { pad, ..self }, v)
        } else if a == 0x4017 {
            let (pad2, v) = self.pad2.read_spec();
            (NesBusState { pad2, ..self }, v)
        } else if a >= 0x8000 {
            (self, self.prg[((a - 0x8000) as nat % self.prg.len()) as int])
        } else {
            (self, 0)
        }
    }

    /// OAM DMA from page `base`, from byte `i` on: each byte is read through the bus and
    /// stored at OAMADDR + i.
    pub open spec fn dma_spec(self, base: u16, i: nat) -> NesBusState
        decreases 256 - i,
    {
        if i >= 256 {
            self
        } else {
            let (b1, byte) = self.read_spec((base + i) as u16);
            let k = (b1.ppu.oam_addr + i) % 256;
            let b2 = NesBusState { ppu: NesPpuState { oam: b1.ppu.oam.update(k, byte), ..b1.ppu }, ..b1 };
            b2.dma_spec(base, i + 1)
        }
    }

    /// A CPU write of `v` to `a`.
    #[verifier::opaque]
    pub open spec fn write_spec(self, a: u16, v: u8) -> NesBusState {
        if a <= 0x1fff {
            NesBusState { ram: self.ram.update((a % 0x800) as int, v), ..self }
        } else if a <= 0x3fff {
            NesBusState { ppu: self.ppu.write_reg_spec(a, v), ..self }
        } else if a == 0x4014 {
            NesBusState { dma_stall: 513, ..self.dma_spec((v as u16 * 256) as u16, 0) }
        } else if a == 0x4016 {
            NesBusState { pad: self.pad.write_spec(v), pad2: self.pad2.write_spec(v), ..self }
        } else {
            self
        }
    }

    /// The little-endian word at `a` and `a + 1` (wrapping), read in that order.
    pub open spec fn read16_spec(self, a: u16) -> (NesBusState, u16) {
        let (b1, lo) = self.read_spec(a);
        let (b2, hi) = b1.read_spec(((a + 1) % 0x10000) as u16);
        (b2, (lo + 256 * hi) as u16)
    }

    /// `n` CPU cycles: three PPU dots each.
    #[verifier::opaque]
    pub open spec fn tick_spec(self, n: nat) -> NesBusState {
        NesBusState { ppu: ppu_ticks(self.ppu, 3 * n), ..self }
    }
}

/// Law: the 2 KiB of RAM repeat through 0x0000-0x1fff, reading RAM has no side effect,
/// a byte written there reads back, and other RAM cells keep their values.
pub proof fn lemma_ram(b: NesBusState, a: u16, other: u16, v: u8)
    requires
        b.wf(),
        a <= 0x1fff,
        other <= 0x1fff,
    ensures
        b.read_spec(a) == (b, b.ram[(a % 0x800) as int]),
        b.read_spec(a).1 == b.read_spec(a % 0x800).1,
        b.write_spec(a, v).read_spec(a).1 == v,
        b.write_spec(a, v).wf(),
        a % 0x800 != other % 0x800 ==> b.write_spec(a, v).read_spec(other).1 == b.read_spec(
            other,
        ).1,
{
    reveal(NesBusState::read_spec);
    reveal(NesBusState::write_spec);
}

/// The bus after `n` reads of controller port 1 ($4016).
pub open spec fn port_reads(b: NesBusState, n: nat) -> NesBusState
    decreases n,
{
    if n == 0 {
        b
    } else {
        port_reads(b.read_spec(0x4016).0, (n - 1) as nat)
    }
}

/// Reads of $4016 are reads of controller 1.
proof fn lemma_port_reads_pad(b: NesBusState, n: nat)
    ensures
        port_reads(b, n).pad == super::controller::reads(b.pad, n),
        port_reads(b, n).read_spec(0x4016).1 == port_reads(b, n).pad.read_spec().1,
    decreases n,
{
    reveal(NesBusState::read_spec);
    if n > 0 {
        lemma_port_reads_pad(b.read_spec(0x4016).0, (n - 1) as nat);
    }
}

/// Law: once the program strobes controller 1 (writes 1, then 0, to $4016), its reads of
/// $4016 report the held buttons right, left, up, down, A, B, select, start in turn,
/// 1 for held, in bit 0 with bit 6 set, and 1 from the ninth read on.
#[verifier::rlimit(50)]
pub proof fn lemma_port_reports_buttons(b: NesBusState, k: nat)
    requires
        b.pad.buttons.len() == 8,
    ensures
        ({
            let s = b.write_spec(0x4016, 1).write_spec(0x4016, 0);
            port_reads(s, k).read_spec(0x4016).1 == 0x40 + if k >= 8 || b.pad.buttons[k as int] {
                1int
            } else {
                0
            }
        }),
{
    reveal(NesBusState::write_spec);
    let s = b.write_spec(0x4016, 1).write_spec(0x4016, 0);
    super::controller::lemma_pack_bound(b.pad.buttons, 8);
    vstd::arithmetic::power2::lemma2_to64();
    assert(1u8 & 1 != 0 && 0u8 & 1 == 0) by (bit_vector);
    assert(s.pad.buttons == b.pad.buttons && !s.pad.strobe);
    assert(s.pad.shift == super::controller::pack_buttons(b.pad.buttons, 8));
    lemma_port_reads_pad(s, k);
    super::controller::lemma_reads_report_buttons(s.pad, k);
}

/// Reading PRG ROM has no side effect.
pub proof fn lemma_rom_read(b: NesBusState, a: u16)
    requires
        a >= 0x8000,
    ensures
        b.read_spec(a).0 == b,
{
    reveal(NesBusState::read_spec);
}

/// The NES CPU bus: 2 KiB of RAM, PRG ROM, the PPU, two controllers and the DMA stall.
pub struct Bus {
    pub ram: [u8; 0x800],
    pub prg: Vec<u8>,
    pub ppu: Ppu,
    pub pad: Controller,
    pub pad2: Controller,
    pub dma_stall: u16,
}

impl View for Bus {
    type V = NesBusState;

    open spec fn view(&self) -> NesBusState {
        NesBusState {
            ram: self.ram@,
            prg: self.prg@,
            ppu: self.ppu@,
            pad: self.pad@,
            pad2: self.pad2@,
            dma_stall: self.dma_stall,
        }
    }
}

impl Bus {
    /// A bus at power-on around `cart`.
    #[verifier::spinoff_prover]
    pub fn new(cart: Cartridge) -> (b: Bus)
        requires
            0 < cart@.prg.len(),
            0x2000 <= cart@.chr.len() <= 0x200000,
        ensures
            b@ == power_on_nes_bus(cart@),
            b@.wf(),
    {
        let ppu = Ppu::new(&cart);
        let b = Bus {
            ram: [0; 0x800],
            prg: cart.prg,
            ppu,
            pad: Controller::default(),
            pad2: Controller::default(),
            dma_stall: 0,
        };
        assert(b@.ram =~= Seq::new(0x800, |i: int| 0u8));
        b
    }

    /// A CPU read.
    #[verifier::spinoff_prover]
    pub fn read(&mut self, a: u16) -> (r: u8)
        requires
            old(self)@.wf(),
        ensures
            (final(self)@, r) == old(self)@.read_spec(a),
            final(self)@.wf(),
            old(self)@.ppu.same_beam(final(self)@.ppu),
    {
        reveal(NesBusState::read_spec);
        match a {
            0..=0x1fff => self.ram[(a % 0x800) as usize],
            0x2000..=0x3fff => self.ppu.read_reg(a),
            0x4016 => self.pad.read(),
            0x4017 => self.pad2.read(),
            0x8000..=0xffff => self.prg[(a as usize - 0x8000) % self.prg.len()],
            _ => 0,
        }
    }

    /// A CPU write; a write to 0x4014 copies a page to OAM and stalls the CPU.
    #[verifier::spinoff_prover]
    pub fn write(&mut self, a: u16, v: u8)
        requires
            old(self)@.wf(),
        ensures
            final(self)@ == old(self)@.write_spec(a, v),
            final(self)@.wf(),
            old(self)@.ppu.same_beam(final(self)@.ppu),
    {
        reveal(NesBusState::write_spec);
        match a {
            0..=0x1fff => self.ram[(a % 0x800) as usize] = v,
            0x2000..=0x3fff => self.ppu.write_reg(a, v),
            0x4014 => {
                let base = (v as u16) * 256;
                let mut i: u16 = 0;
                while i < 256
                    invariant
                        i <= 256,
                        base == v as u16 * 256,
                        self@.wf(),
                        old(self)@.dma_spec(base, 0) == self@.dma_spec(base, i as nat),
                        old(self)@.ppu.same_beam(self@.ppu),
                    decreases 256 - i,
                {
                    let b = self.read(base + i);
                    let k = self.ppu.oam_addr.wrapping_add(i as u8) as usize;
                    self.ppu.oam[k] = b;
                    i += 1;
                }
                self.dma_stall = 513
            },
            0x4016 => {
                self.pad.write(v);
                self.pad2.write(v)
            },
            _ => {},
        }
    }

    /// The little-endian word at `a`.
    #[verifier::spinoff_prover]
    pub fn read16(&mut self, a: u16) -> (r: u16)
        requires
            old(self)@.wf(),
        ensures
            (final(self)@, r) == old(self)@.read16_spec(a),
            final(self)@.wf(),
            old(self)@.ppu.same_beam(final(self)@.ppu),
    {
        let lo = self.read(a) as u16;
        lo + (self.read(a.wrapping_add(1)) as u16) * 256
    }

    /// Runs the PPU for `n` CPU cycles.
    #[verifier::spinoff_prover]
    pub fn tick(&mut self, n: u16)
        requires
            old(self)@.wf(),
            n <= 0x5555,
        ensures
            final(self)@ == old(self)@.tick_spec(n as nat),
            final(self)@.wf(),
            final(self)@ == (NesBusState { ppu: ppu_ticks(old(self)@.ppu, 3 * n as nat), ..old(self)@ }),
    {
        reveal(NesBusState::tick_spec);
        let mut k: u16 = 0;
        while k < n * 3
            invariant
                n <= 0x5555,
                k <= n * 3,
                self@.wf(),
                self@ == (NesBusState { ppu: ppu_ticks(old(self)@.ppu, k as nat), ..old(self)@ }),
            decreases n * 3 - k,
        {
            self.ppu.tick();
            proof {
                lemma_ppu_ticks_step(old(self)@.ppu, k as nat);
            }
            k += 1;
        }
    }
}

/// `n` dots from a state that is not ready: the beam advances by `n`, and the ready
/// flag rises exactly when vertical blank is reached and stays up for the 6820 dots
/// until the pre-render line.
pub proof fn lemma_ticks_frame(p: NesPpuState, n: nat)
    requires
        p.wf(),
        !p.frame_ready,
    ensures
        ppu_ticks(p, n).wf(),
        ppu_ticks(p, n).beam() == (p.beam() + n) % frame_dots(),
        n <= p.dots_to_vblank() ==> !ppu_ticks(p, n).frame_ready,
        n <= p.dots_to_vblank() ==> ppu_ticks(p, n).dots_to_vblank() == p.dots_to_vblank() - n,
        p.dots_to_vblank() < n <= p.dots_to_vblank() + 6820 ==> ppu_ticks(p, n).frame_ready,
    decreases n,
{
    if n > 0 {
        lemma_ticks_frame(p, (n - 1) as nat);
        lemma_ppu_ticks_step(p, (n - 1) as nat);
        let q = ppu_ticks(p, (n - 1) as nat);
        lemma_tick_beam(q);
        let b = p.beam();
        let d = p.dots_to_vblank();
        let k = n - 1;
        assert(0 <= b < frame_dots());
        assert(d == if b <= vblank_dot() {
            vblank_dot() - b
        } else {
            vblank_dot() - b + frame_dots()
        });
        assert(q.beam() == (b + k) % frame_dots());
        if k < 2 * frame_dots() {
            assert((b + k) % frame_dots() == if b + k < frame_dots() {
                b + k
            } else if b + k < 2 * frame_dots() {
                b + k - frame_dots()
            } else {
                b + k - 2 * frame_dots()
            });
        }
    } else {
        assert(ppu_ticks(p, 0) == p);
    }
}

/// One more dot after `n` dots.
proof fn lemma_ppu_ticks_step(p: NesPpuState, n: nat)
    ensures
        ppu_ticks(p, n + 1) == ppu_ticks(p, n).tick_spec(),
    decreases n,
{
    reveal_with_fuel(ppu_ticks, 2);
    if n > 0 {
        lemma_ppu_ticks_step(p.tick_spec(), (n - 1) as nat);
    }
}

} // verus!
