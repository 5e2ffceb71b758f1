use vstd::prelude::*;

use super::cartridge::Cartridge;

verus! {

/// Pixels in a frame: 256 x 240.
pub const FRAME_PIXELS: usize = 61440;

/// The abstract state of the picture processing unit.
pub struct NesPpuState {
    pub chr: Seq<u8>,
    pub chr_ram: bool,
    pub vertical: bool,
    pub nt: Seq<u8>,
    pub pal: Seq<u8>,
    pub oam: Seq<u8>,
    pub frame: Seq<u8>,
    pub ctrl: u8,
    pub mask: u8,
    pub status: u8,
    pub oam_addr: u8,
    pub bus: u8,
    pub v: u16,
    pub t: u16,
    pub fine_x: u8,
    pub latch: bool,
    pub buffer: u8,
    pub scanline: i16,
    pub dot: u16,
    pub frame_ready: bool,
    pub nmi: bool,
}

impl NesPpuState {
    /// Memory sizes are fixed and the beam stays inside the 262 x 341 frame.
    pub open spec fn wf(self) -> bool {
        &&& 0x2000 <= self.chr.len() <= 0x200000
        &&& self.nt.len() == 0x800
        &&& self.pal.len() == 32
        &&& self.oam.len() == 256
        &&& self.frame.len() == FRAME_PIXELS
        &&& 0 <= self.scanline <= 261
        &&& self.dot <= 340
    }

    /// The offset in the 2 KiB of nametable RAM that PPU address `a` (0x2000-0x3eff)
    /// selects, with vertical or horizontal mirroring.
    pub open spec fn mirror_spec(self, a: u16) -> int {
        let off = (a - 0x2000) % 0x1000;
        let table = off / 0x400;
        let t = if self.vertical {
            table % 2
        } else {
            table / 2
        };
        t * 0x400 + off % 0x400
    }

    /// The palette entry PPU address `a` (0x3f00-0x3fff) selects; the backdrop entries of
    /// the sprite palettes mirror those of the background palettes.
    pub open spec fn pal_addr_spec(a: u16) -> int {
        let i = (a - 0x3f00) % 32;
        if i == 0x10 || i == 0x14 || i == 0x18 || i == 0x1c {
            i - 0x10
        } else {
            i
        }
    }

    /// A read of PPU address `a` (14-bit): pattern tables, nametables, palettes.
    pub open spec fn read_mem_spec(self, a: u16) -> u8 {
        let a = (a % 0x4000) as u16;
        if a < 0x2000 {
            self.chr[a as int]
        } else if a < 0x3f00 {
            self.nt[self.mirror_spec(a)]
        } else {
            self.pal[Self::pal_addr_spec(a)] & 0x3f
        }
    }

    /// A write of PPU address `a`: pattern tables only when they are RAM.
    pub open spec fn write_mem_spec(self, a: u16, val: u8) -> NesPpuState {
        let a = (a % 0x4000) as u16;
        if a < 0x2000 {
            if self.chr_ram {
                NesPpuState { chr: self.chr.update(a as int, val), ..self }
            } else {
                self
            }
        } else if a < 0x3f00 {
            NesPpuState { nt: self.nt.update(self.mirror_spec(a), val), ..self }
        } else {
            NesPpuState { pal: self.pal.update(Self::pal_addr_spec(a), val & 0x3f), ..self }
        }
    }

    /// The VRAM address increment of PPUDATA accesses: 32 or 1.
    pub open spec fn step_v(self) -> u16 {
        ((self.v + if self.ctrl & 4 != 0 {
            32int
        } else {
            1int
        }) % 0x10000) as u16
    }

    /// A CPU read of PPU register `a & 7`: the value and the state after it.
    pub open spec fn read_reg_spec(self, a: u16) -> (NesPpuState, u8) {
        let r = a % 8;
        if r == 2 {
            let v = (self.status & 0xe0) | (self.bus & 0x1f);
            (NesPpuState { status: self.status & !0x80u8, latch: false, bus: v, ..self }, v)
        } else if r == 4 {
            let v = self.oam[self.oam_addr as int];
            (NesPpuState { bus: v, ..self }, v)
        } else if r == 7 {
            let old = self.v;
            let (v, buffer) = if old % 0x4000 >= 0x3f00 {
                (self.read_mem_spec(old), self.read_mem_spec((old - 0x1000) as u16))
            } else {
                (self.buffer, self.read_mem_spec(old))
            };
            (NesPpuState { buffer, v: self.step_v(), bus: v, ..self }, v)
        } else {
            (self, self.bus)
        }
    }

    /// A CPU write of `val` to PPU register `a & 7`.
    pub open spec fn write_reg_spec(self, a: u16, val: u8) -> NesPpuState {
        let s = NesPpuState { bus: val, ..self };
        let r = a % 8;
        if r == 0 {
            NesPpuState { ctrl: val, t: (s.t & 0xf3ff) | ((val as u16 & 3) << 10u16), ..s }
        } else if r == 1 {
            NesPpuState { mask: val, ..s }
        } else if r == 3 {
            NesPpuState { oam_addr: val, ..s }
        } else if r == 4 {
            NesPpuState {
                oam: s.oam.update(s.oam_addr as int, val),
                oam_addr: ((s.oam_addr + 1) % 256) as u8,
                ..s
            }
        } else if r == 5 {
            if !s.latch {
                NesPpuState {
                    fine_x: val & 7,
                    t: (s.t & 0xffe0) | (val as u16 >> 3u16),
                    latch: true,
                    ..s
                }
            } else {
                let t1 = (s.t & 0x8fff) | ((val as u16 & 7) << 12u16);
                NesPpuState { t: (t1 & 0xfc1f) | ((val as u16 & 0xf8) << 2u16), latch: false, ..s }
            }
        } else if r == 6 {
            if !s.latch {
                NesPpuState { t: (s.t & 0xff) | ((val as u16 & 0x3f) << 8u16), latch: true, ..s }
            } else {
                let t1 = (s.t & 0xff00) | val as u16;
                NesPpuState { t: t1, v: t1, latch: false, ..s }
            }
        } else if r == 7 {
            let w = s.write_mem_spec(s.v, val);
            NesPpuState { v: s.step_v(), ..w }
        } else {
            s
        }
    }

    /// Coarse X increment, wrapping into the horizontally adjacent nametable.
    pub open spec fn inc_x_spec(self) -> NesPpuState {
        if self.v & 0x1f == 31 {
            NesPpuState { v: (self.v & !0x1fu16) ^ 0x400, ..self }
        } else {
            NesPpuState { v: (self.v + 1) as u16, ..self }
        }
    }

    /// Fine Y increment, carrying into coarse Y and the vertically adjacent nametable.
    pub open spec fn inc_y_spec(self) -> NesPpuState {
        if self.v & 0x7000 != 0x7000 {
            NesPpuState { v: (self.v + 0x1000) as u16, ..self }
        } else {
            let v1 = self.v & !0x7000u16;
            let y = (v1 & 0x3e0) >> 5u16;
            let (y2, v2) = if y == 29 {
                (0u16, v1 ^ 0x800)
            } else if y == 31 {
                (0u16, v1)
            } else {
                ((y + 1) as u16, v1)
            };
            NesPpuState { v: (v2 & !0x3e0u16) | (y2 << 5u16), ..self }
        }
    }

    /// The background palette index (0 for transparent) at pixel `px` of the line.
    pub open spec fn bg_spec(self, px: int) -> u8 {
        if self.mask & 8 == 0 || (px < 8 && self.mask & 2 == 0) {
            0
        } else {
            let fx = (px + self.fine_x) % 8;
            let v = self.v;
            let tile = self.read_mem_spec(0x2000 | (v & 0xfff));
            let attr = self.read_mem_spec(0x23c0 | (v & 0xc00) | ((v >> 4u16) & 0x38) | ((v >> 2u16) & 7));
            let shift = ((v >> 4u16) & 4) | (v & 2);
            let hi = (attr >> shift) & 3;
            let pat = (if self.ctrl & 0x10 != 0 {
                0x1000int
            } else {
                0
            }) + tile * 16 + ((v >> 12u16) & 7);
            let bit = (7 - fx) as u8;
            let p = ((self.read_mem_spec(pat as u16) >> bit) & 1) | (((self.read_mem_spec(
                (pat + 8) as u16,
            ) >> bit) & 1) << 1u8);
            if p == 0 {
                0
            } else {
                (hi << 2u8) | p
            }
        }
    }

    /// Sprite height in lines: 16 in 8x16 mode, else 8.
    pub open spec fn sprite_height(self) -> int {
        if self.ctrl & 0x20 != 0 {
            16
        } else {
            8
        }
    }

    /// The 2-bit pattern of sprite `i` at column `col` and row `row` of its box
    /// (after flipping).
    pub open spec fn sprite_pattern(self, i: int, col: int, row: int) -> u8 {
        let tile = self.oam[4 * i + 1];
        let h = self.sprite_height();
        let (base, tile2, row2) = if h == 16 {
            (
                (tile & 1) as int * 0x1000,
                (tile & 0xfe) as int + if row >= 8 {
                    1int
                } else {
                    0
                },
                if row >= 8 {
                    row - 8
                } else {
                    row
                },
            )
        } else if self.ctrl & 8 != 0 {
            (0x1000int, tile as int, row)
        } else {
            (0int, tile as int, row)
        };
        let addr = base + tile2 * 16 + row2;
        let bit = (7 - col) as u8;
        ((self.read_mem_spec(addr as u16) >> bit) & 1) | (((self.read_mem_spec((addr + 8) as u16)
            >> bit) & 1) << 1u8)
    }

    /// Scans OAM from entry `i`, `found` sprites of the line seen so far (at most eight
    /// are considered): whether sprite 0 hits and the sprite palette index at pixel
    /// (`px`, `py`) over a background that is opaque when `bg`.
    pub open spec fn sprite_scan(self, px: int, py: int, bg: bool, i: nat, found: nat) -> (bool, u8)
        decreases 64 - i,
    {
        if i >= 64 {
            (false, 0)
        } else {
            let sy = self.oam[4 * i as int] as int;
            let attr = self.oam[4 * i as int + 2];
            let sx = self.oam[4 * i as int + 3] as int;
            let h = self.sprite_height();
            let row = py - sy - 1;
            if row < 0 || row >= h {
                self.sprite_scan(px, py, bg, i + 1, found)
            } else if found + 1 > 8 {
                (false, 0)
            } else {
                let col = px - sx;
                if !(0 <= col < 8) {
                    self.sprite_scan(px, py, bg, i + 1, found + 1)
                } else {
                    let col2 = if attr & 0x40 != 0 {
                        7 - col
                    } else {
                        col
                    };
                    let row2 = if attr & 0x80 != 0 {
                        h - 1 - row
                    } else {
                        row
                    };
                    let p = self.sprite_pattern(i as int, col2, row2);
                    if p == 0 {
                        self.sprite_scan(px, py, bg, i + 1, found + 1)
                    } else {
                        let hit = i == 0 && bg && px != 255;
                        if attr & 0x20 != 0 && bg {
                            (hit, 0)
                        } else {
                            (hit, 0x10 | ((attr & 3) << 2u8) | p)
                        }
                    }
                }
            }
        }
    }

    /// Whether sprite 0 hits and the sprite palette index at pixel (`px`, `py`).
    pub open spec fn sprite_spec(self, px: int, py: int, bg: bool) -> (bool, u8) {
        if self.mask & 0x10 == 0 || (px < 8 && self.mask & 4 == 0) {
            (false, 0)
        } else {
            self.sprite_scan(px, py, bg, 0, 0)
        }
    }

    /// Draws the pixel at the current dot of a visible line.
    pub open spec fn draw_spec(self) -> NesPpuState {
        let px = self.dot - 1;
        let bg = self.bg_spec(px);
        let (hit, sp) = self.sprite_spec(px, self.scanline as int, bg != 0);
        let idx = if sp != 0 {
            sp
        } else {
            bg
        };
        let s = NesPpuState {
            status: if hit {
                self.status | 0x40
            } else {
                self.status
            },
            ..self
        };
        NesPpuState {
            frame: s.frame.update(
                self.scanline * 256 + px,
                s.read_mem_spec((0x3f00 + idx) as u16) & 0x3f,
            ),
            ..s
        }
    }

    /// One dot: drawing, scroll updates, vertical blank and the beam advance.
    #[verifier::opaque]
    pub open spec fn tick_spec(self) -> NesPpuState {
        let rendering = self.mask & 0x18 != 0;
        let visible = 0 <= self.scanline < 240 && 1 <= self.dot <= 256;
        let p1 = if visible {
            let d = self.draw_spec();
            let d2 = if rendering && (self.dot - 1 + self.fine_x) % 8 == 7 {
                d.inc_x_spec()
            } else {
                d
            };
            if rendering && self.dot == 256 {
                d2.inc_y_spec()
            } else {
                d2
            }
        } else {
            self
        };
        let p2 = if rendering && self.scanline < 240 && self.dot == 257 {
            NesPpuState { v: (p1.v & !0x41fu16) | (p1.t & 0x41f), ..p1 }
        } else {
            p1
        };
        let p3 = if rendering && self.scanline == 261 && 280 <= self.dot <= 304 {
            NesPpuState { v: (p2.v & !0x7be0u16) | (p2.t & 0x7be0), ..p2 }
        } else {
            p2
        };
        let p4 = if self.scanline == 241 && self.dot == 1 {
            NesPpuState { status: p3.status | 0x80, frame_ready: true, nmi: p3.ctrl & 0x80 != 0, ..p3 }
        } else {
            p3
        };
        let p5 = if self.scanline == 261 && self.dot == 1 {
            NesPpuState { status: p4.status & !0xe0u8, frame_ready: false, ..p4 }
        } else {
            p4
        };
        if self.dot + 1 > 340 {
            NesPpuState {
                dot: 0,
                scanline: if self.scanline + 1 > 261 {
                    0
                } else {
                    (self.scanline + 1) as i16
                },
                ..p5
            }
        } else {
            NesPpuState { dot: (self.dot + 1) as u16, ..p5 }
        }
    }
}

/// The NES picture processing unit.
pub struct Ppu {
    pub chr: Vec<u8>,
    pub chr_ram: bool,
    pub vertical: bool,
    pub nt: [u8; 0x800],
    pub pal: [u8; 32],
    pub oam: [u8; 256],
    pub frame: Vec<u8>,
    pub ctrl: u8,
    pub mask: u8,
    pub status: u8,
    pub oam_addr: u8,
    pub bus: u8,
    pub v: u16,
    pub t: u16,
    pub fine_x: u8,
    pub latch: bool,
    pub buffer: u8,
    pub scanline: i16,
    pub dot: u16,
    pub frame_ready: bool,
    pub nmi: bool,
}

impl View for Ppu {
    type V = NesPpuState;

    open spec fn view(&self) -> NesPpuState {
        NesPpuState {
            chr: self.chr@,
            chr_ram: self.chr_ram,
            vertical: self.vertical,
            nt: self.nt@,
            pal: self.pal@,
            oam: self.oam@,
            frame: self.frame@,
            ctrl: self.ctrl,
            mask: self.mask,
            status: self.status,
            oam_addr: self.oam_addr,
            bus: self.bus,
            v: self.v,
            t: self.t,
            fine_x: self.fine_x,
            latch: self.latch,
            buffer: self.buffer,
            scanline: self.scanline,
            dot: self.dot,
            frame_ready: self.frame_ready,
            nmi: self.nmi,
        }
    }
}

/// Bit-field bounds used by the PPU's address arithmetic.
proof fn lemma_ppu_fields()
    ensures
        forall|v: u16| #[trigger] ((v >> 12u16) & 7) <= 7,
        forall|v: u16| #[trigger] (((v >> 4u16) & 4) | (v & 2)) <= 6,
        forall|v: u16| #[trigger] (v & 0x1f) != 31 ==> v < 0xffff,
        forall|v: u16| #[trigger] (v & 0x7000) != 0x7000 ==> v < 0xf000,
        forall|x: u8| #[trigger] (x & 0xfe) <= 254,
        forall|x: u8| #[trigger] (x & 3) <= 3,
        forall|x: u8| #[trigger] (x & 1) <= 1,
        forall|v: u16| #[trigger] ((v & 0x3e0) >> 5u16) <= 31,
{
    assert({
        &&& (forall|x: u8| #[trigger] (x & 1) <= 1)
        &&& (forall|v: u16| #[trigger] ((v & 0x3e0) >> 5u16) <= 31)
        &&& (forall|v: u16| #[trigger] ((v >> 12u16) & 7) <= 7)
        &&& (forall|v: u16| #[trigger] (((v >> 4u16) & 4) | (v & 2)) <= 6)
        &&& (forall|v: u16| #[trigger] (v & 0x1f) != 31 ==> v < 0xffff)
        &&& (forall|v: u16| #[trigger] (v & 0x7000) != 0x7000 ==> v < 0xf000)
        &&& (forall|x: u8| #[trigger] (x & 0xfe) <= 254)
        &&& (forall|x: u8| #[trigger] (x & 3) <= 3)
    }) by (bit_vector);
}

/// The PPU at power-on, holding the cartridge's pattern memory.
pub open spec fn power_on_ppu(cart: super::cartridge::NesCartState) -> NesPpuState {
    NesPpuState {
        chr: cart.chr,
        chr_ram: cart.chr_ram,
        vertical: cart.vertical,
        nt: Seq::new(0x800, |i: int| 0u8),
        pal: Seq::new(32, |i: int| 0u8),
        oam: Seq::new(256, |i: int| 0u8),
        frame: Seq::new(FRAME_PIXELS as nat, |i: int| 0u8),
        ctrl: 0,
        mask: 0,
        status: 0,
        oam_addr: 0,
        bus: 0,
        v: 0,
        t: 0,
        fine_x: 0,
        latch: false,
        buffer: 0,
        scanline: 261,
        dot: 0,
        frame_ready: false,
        nmi: false,
    }
}

/// Dots in a frame: 262 lines of 341 dots.
pub open spec fn frame_dots() -> int {
    89342
}

/// The beam position at which vertical blank starts and the frame is reported ready.
pub open spec fn vblank_dot() -> int {
    82182
}

/// The beam position at which the pre-render line clears the ready flag.
pub open spec fn prerender_dot() -> int {
    89002
}

impl NesPpuState {
    /// The beam position within the frame: line times 341 plus dot.
    pub open spec fn beam(self) -> int {
        self.scanline * 341 + self.dot
    }

    /// Whether two states have the same beam position and ready flag.
    pub open spec fn same_beam(self, other: NesPpuState) -> bool {
        self.scanline == other.scanline && self.dot == other.dot && self.frame_ready
            == other.frame_ready
    }

    /// Dots until vertical blank next starts.
    pub open spec fn dots_to_vblank(self) -> int {
        (vblank_dot() - self.beam()) % frame_dots()
    }
}

/// One dot advances the beam by one position, wrapping at the end of the frame; the
/// ready flag is set at the start of vertical blank and cleared on the pre-render line.
pub proof fn lemma_tick_beam(p: NesPpuState)
    requires
        p.wf(),
    ensures
        p.tick_spec().wf(),
        p.tick_spec().beam() == (p.beam() + 1) % frame_dots(),
        p.tick_spec().frame_ready == if p.beam() == vblank_dot() {
            true
        } else if p.beam() == prerender_dot() {
            false
        } else {
            p.frame_ready
        },
{
    reveal(NesPpuState::tick_spec);
}

/// The nametable and attribute addresses a background fetch uses lie in nametable space.
proof fn lemma_bg_fetch_addresses()
    ensures
        forall|v: u16|
            #![trigger 0x2000u16 | (v & 0xfff)]
            0x2000 <= (0x2000u16 | (v & 0xfff)) < 0x3000,
        forall|v: u16|
            #![trigger 0x23c0u16 | (v & 0xc00) | ((v >> 4u16) & 0x38) | ((v >> 2u16) & 7)]
            0x2000 <= (0x23c0u16 | (v & 0xc00) | ((v >> 4u16) & 0x38) | ((v >> 2u16) & 7))
                < 0x3000,
{
    assert({
        &&& (forall|v: u16|
            #![trigger 0x2000u16 | (v & 0xfff)]
            0x2000 <= (0x2000u16 | (v & 0xfff)) < 0x3000)
        &&& (forall|v: u16|
            #![trigger 0x23c0u16 | (v & 0xc00) | ((v >> 4u16) & 0x38) | ((v >> 2u16) & 7)]
            0x2000 <= (0x23c0u16 | (v & 0xc00) | ((v >> 4u16) & 0x38) | ((v >> 2u16) & 7))
                < 0x3000)
    }) by (bit_vector);
}

/// The first byte of the pattern table PPUCTRL bit 4 selects for the background.
pub open spec fn bg_table(ctrl: u8) -> int {
    if ctrl & 0x10 != 0 {
        0x1000
    } else {
        0
    }
}

/// Law: the background reads its patterns only from the pattern table that PPUCTRL bit 4
/// selects (0x1000-0x1fff when set, 0x0000-0x0fff when clear): pattern memory outside it
/// does not change any background pixel.
#[verifier::rlimit(50)]
pub proof fn lemma_bg_pattern_table(p: NesPpuState, q: NesPpuState, px: int)
    requires
        p.wf(),
        q == (NesPpuState { chr: q.chr, ..p }),
        q.chr.len() == p.chr.len(),
        forall|i: int| bg_table(p.ctrl) <= i < bg_table(p.ctrl) + 0x1000 ==> p.chr[i] == q.chr[i],
    ensures
        p.bg_spec(px) == q.bg_spec(px),
{
    lemma_ppu_fields();
    lemma_bg_fetch_addresses();
}

/// Law: of PPUCTRL, the background depends only on bit 4; in particular the sprite
/// pattern table bit 3 does not change any background pixel.
pub proof fn lemma_bg_ignores_other_ctrl_bits(p: NesPpuState, ctrl: u8, px: int)
    requires
        ctrl & 0x10 == p.ctrl & 0x10,
    ensures
        (NesPpuState { ctrl, ..p }).bg_spec(px) == p.bg_spec(px),
{
}

/// Law: the PPU registers seen from the CPU: reading PPUSTATUS reports the vertical-blank
/// flag in bit 7 and then clears it and the write latch; two PPUADDR writes (high byte,
/// then low byte) set the VRAM address to `(hi mod 64) * 256 + lo`; a PPUDATA read or write
/// moves the address on by 32 when PPUCTRL bit 2 is set and by 1 otherwise; an OAMDATA
/// write stores at OAMADDR and moves OAMADDR on by one.
#[verifier::rlimit(50)]
pub proof fn lemma_register_effects(p: NesPpuState, hi: u8, lo: u8, val: u8)
    requires
        p.wf(),
    ensures
        ({
            let (s, r) = p.read_reg_spec(0x2002);
            &&& (r & 0x80 != 0) == (p.status & 0x80 != 0)
            &&& s.status & 0x80 == 0 && s.status & 0x7f == p.status & 0x7f && !s.latch
        }),
        !p.latch ==> p.write_reg_spec(0x2006, hi).write_reg_spec(0x2006, lo).v == (hi % 64) * 256
            + lo,
        !p.latch ==> !p.write_reg_spec(0x2006, hi).write_reg_spec(0x2006, lo).latch,
        p.write_reg_spec(0x2007, val).v == (p.v + if p.ctrl & 4 != 0 { 32int } else { 1 }) % 0x10000,
        p.read_reg_spec(0x2007).0.v == (p.v + if p.ctrl & 4 != 0 { 32int } else { 1 }) % 0x10000,
        p.write_reg_spec(0x2004, val).oam[p.oam_addr as int] == val,
        p.write_reg_spec(0x2004, val).oam_addr == (p.oam_addr + 1) % 256,
{
    let st = p.status;
    let b = p.bus;
    let r = (st & 0xe0) | (b & 0x1f);
    let st2 = st & !0x80u8;
    let t0 = p.t;
    let t1 = (t0 & 0xff) | ((hi as u16 & 0x3f) << 8u16);
    let t2 = (t1 & 0xff00) | lo as u16;
    assert((r & 0x80 != 0) == (st & 0x80 != 0) && st2 & 0x80 == 0 && st2 & 0x7f == st & 0x7f && t2
        == (hi % 64) as u16 * 256 + lo as u16) by (bit_vector)
        requires
            r == (st & 0xe0) | (b & 0x1f),
            st2 == st & !0x80u8,
            t1 == (t0 & 0xff) | ((hi as u16 & 0x3f) << 8u16),
            t2 == (t1 & 0xff00) | lo as u16,
    ;
}

/// Law: the sprite palettes' backdrop entries are the background palettes' ones, and the
/// 32 palette bytes repeat through 0x3f00-0x3fff.
pub proof fn lemma_palette_mirrors(a: u16, k: u16)
    requires
        0x3f00 <= a <= 0x3fff,
        k < 4,
    ensures
        NesPpuState::pal_addr_spec((0x3f10 + 4 * k) as u16) == NesPpuState::pal_addr_spec(
            (0x3f00 + 4 * k) as u16,
        ),
        a + 32 <= 0x3fff ==> NesPpuState::pal_addr_spec(a) == NesPpuState::pal_addr_spec(
            (a + 32) as u16,
        ),
        0 <= NesPpuState::pal_addr_spec(a) < 32,
{
}

/// Law: the four logical nametables map onto 2 KiB of RAM; with vertical mirroring
/// 0x2000 and 0x2800 share RAM, with horizontal mirroring 0x2000 and 0x2400 do, and
/// 0x3000-0x3eff repeats 0x2000-0x2eff.
pub proof fn lemma_nametable_mirrors(p: NesPpuState, a: u16)
    requires
        0x2000 <= a < 0x2400,
    ensures
        p.vertical ==> p.mirror_spec(a) == p.mirror_spec((a + 0x800) as u16),
        !p.vertical ==> p.mirror_spec(a) == p.mirror_spec((a + 0x400) as u16),
        p.mirror_spec(a) == p.mirror_spec((a + 0x1000) as u16),
        0 <= p.mirror_spec(a) < 0x800,
        0 <= p.mirror_spec((a + 0x400) as u16) < 0x800,
{
}

/// Law: a byte written to a nametable address through PPUADDR and PPUDATA reads back
/// through PPUDATA after setting the address again, on the second read (the first
/// returns the read buffer), unless the address increment reaches the palette first.
pub proof fn lemma_ppudata_round_trip(p: NesPpuState, addr: u16, val: u8)
    requires
        p.wf(),
        !p.latch,
        0x2000 <= addr < 0x3ee0,
    ensures
        ({
            let hi = (addr / 256) as u8;
            let lo = (addr % 256) as u8;
            let p1 = p.write_reg_spec(0x2006, hi).write_reg_spec(0x2006, lo).write_reg_spec(
                0x2007,
                val,
            );
            let p2 = p1.write_reg_spec(0x2006, hi).write_reg_spec(0x2006, lo);
            let (p3, _) = p2.read_reg_spec(0x2007);
            p3.read_reg_spec(0x2007).1 == val
        }),
{
    let hi = (addr / 256) as u8;
    let lo = (addr % 256) as u8;
    let t0 = p.t;
    let t1 = (t0 & 0xff) | ((hi as u16 & 0x3f) << 8u16);
    let t2 = (t1 & 0xff00) | lo as u16;
    assert(t2 == addr) by (bit_vector)
        requires
            t1 == (t0 & 0xff) | ((hi as u16 & 0x3f) << 8u16),
            t2 == (t1 & 0xff00) | lo as u16,
            hi as u16 == addr / 256,
            lo as u16 == addr % 256,
            0x2000 <= addr < 0x3f00,
    ;
    let q1 = p.write_reg_spec(0x2006, hi);
    let q2 = q1.write_reg_spec(0x2006, lo);
    assert(q2.v == addr && !q2.latch);
    let q3 = q2.write_reg_spec(0x2007, val);
    assert(q3.nt == p.nt.update(p.mirror_spec(addr), val));
    let r1 = q3.write_reg_spec(0x2006, hi);
    let t3 = (q3.t & 0xff) | ((hi as u16 & 0x3f) << 8u16);
    let t4 = (t3 & 0xff00) | lo as u16;
    let t5 = q3.t;
    assert(t4 == addr) by (bit_vector)
        requires
            t3 == (t5 & 0xff) | ((hi as u16 & 0x3f) << 8u16),
            t4 == (t3 & 0xff00) | lo as u16,
            hi as u16 == addr / 256,
            lo as u16 == addr % 256,
            0x2000 <= addr < 0x3f00,
    ;
    let r2 = r1.write_reg_spec(0x2006, lo);
    assert(r2.v == addr);
    let (r3, _) = r2.read_reg_spec(0x2007);
    assert(r3.buffer == val);
}

impl Ppu {
    /// A PPU at power-on, sharing the cartridge's pattern memory.
    #[verifier::spinoff_prover]
    pub fn new(cart: &Cartridge) -> (p: Ppu)
        requires
            0x2000 <= cart@.chr.len() <= 0x200000,
        ensures
            p@ == power_on_ppu(cart@),
            p@.wf(),
    {
        let chr = cart.chr.clone();
        assert(chr@ =~= cart.chr@);
        let frame = vec![0u8; FRAME_PIXELS];
        let p = Ppu {
            chr,
            chr_ram: cart.chr_ram,
            vertical: cart.vertical,
            nt: [0; 0x800],
            pal: [0; 32],
            oam: [0; 256],
            frame,
            ctrl: 0,
            mask: 0,
            status: 0,
            oam_addr: 0,
            bus: 0,
            v: 0,
            t: 0,
            fine_x: 0,
            latch: false,
            buffer: 0,
            scanline: 261,
            dot: 0,
            frame_ready: false,
            nmi: false,
        };
        assert(p@.nt =~= Seq::new(0x800, |i: int| 0u8));
        assert(p@.pal =~= Seq::new(32, |i: int| 0u8));
        assert(p@.oam =~= Seq::new(256, |i: int| 0u8));
        assert(p@.frame =~= Seq::new(FRAME_PIXELS as nat, |i: int| 0u8));
        p
    }

    /// The nametable RAM offset for PPU address `a`.
    #[verifier::spinoff_prover]
    fn mirror(&self, a: u16) -> (i: usize)
        requires
            0x2000 <= a < 0x3f00,
        ensures
            i == self@.mirror_spec(a),
            i < 0x800,
    {
        let off = (a - 0x2000) % 0x1000;
        let table = off / 0x400;
        let table = if self.vertical {
            table % 2
        } else {
            table / 2
        };
        (table * 0x400 + off % 0x400) as usize
    }

    /// The palette RAM index for PPU address `a`.
    #[verifier::spinoff_prover]
    fn pal_addr(a: u16) -> (i: usize)
        requires
            a >= 0x3f00,
        ensures
            i == NesPpuState::pal_addr_spec(a),
            i < 32,
    {
        let mut i = ((a - 0x3f00) % 32) as usize;
        if i == 0x10 || i == 0x14 || i == 0x18 || i == 0x1c {
            i -= 0x10
        }
        i
    }

    /// A read of PPU memory.
    #[verifier::spinoff_prover]
    fn read_mem(&self, a: u16) -> (v: u8)
        requires
            self@.wf(),
        ensures
            v == self@.read_mem_spec(a),
    {
        let a = a % 0x4000;
        if a < 0x2000 {
            self.chr[a as usize]
        } else if a < 0x3f00 {
            self.nt[self.mirror(a)]
        } else {
            self.pal[Self::pal_addr(a)] & 0x3f
        }
    }

    /// A write of PPU memory.
    #[verifier::spinoff_prover]
    fn write_mem(&mut self, a: u16, val: u8)
        requires
            old(self)@.wf(),
        ensures
            final(self)@ == old(self)@.write_mem_spec(a, val),
            final(self)@.wf(),
    {
        let a = a % 0x4000;
        if a < 0x2000 {
            if self.chr_ram {
                self.chr[a as usize] = val
            }
        } else if a < 0x3f00 {
            let i = self.mirror(a);
            self.nt[i] = val
        } else {
            self.pal[Self::pal_addr(a)] = val & 0x3f
        }
    }

    /// A CPU read of a PPU register.
    #[verifier::spinoff_prover]
    pub fn read_reg(&mut self, a: u16) -> (r: u8)
        requires
            old(self)@.wf(),
        ensures
            (final(self)@, r) == old(self)@.read_reg_spec(a),
            final(self)@.wf(),
    {
        match a % 8 {
            2 => {
                let r = (self.status & 0xe0) | (self.bus & 0x1f);
                self.status &= !0x80;
                self.latch = false;
                self.bus = r;
                r
            },
            4 => {
                self.bus = self.oam[self.oam_addr as usize];
                self.bus
            },
            7 => {
                let old = self.v;
                let r = if old % 0x4000 >= 0x3f00 {
                    let r = self.read_mem(old);
                    self.buffer = self.read_mem(old - 0x1000);
                    r
                } else {
                    let r = self.buffer;
                    self.buffer = self.read_mem(old);
                    r
                };
                self.v = self.v.wrapping_add(if self.ctrl & 4 != 0 {
                    32
                } else {
                    1
                });
                self.bus = r;
                r
            },
            _ => self.bus,
        }
    }

    /// A CPU write of a PPU register.
    #[verifier::spinoff_prover]
    pub fn write_reg(&mut self, a: u16, val: u8)
        requires
            old(self)@.wf(),
        ensures
            final(self)@ == old(self)@.write_reg_spec(a, val),
            final(self)@.wf(),
    {
        self.bus = val;
        match a % 8 {
            0 => {
                self.ctrl = val;
                self.t = (self.t & 0xf3ff) | ((val as u16 & 3) << 10)
            },
            1 => self.mask = val,
            3 => self.oam_addr = val,
            4 => {
                self.oam[self.oam_addr as usize] = val;
                self.oam_addr = self.oam_addr.wrapping_add(1)
            },
            5 => {
                if !self.latch {
                    self.fine_x = val & 7;
                    self.t = (self.t & 0xffe0) | (val as u16 >> 3)
                } else {
                    self.t = (self.t & 0x8fff) | ((val as u16 & 7) << 12);
                    self.t = (self.t & 0xfc1f) | ((val as u16 & 0xf8) << 2)
                }
                self.latch = !self.latch
            },
            6 => {
                if !self.latch {
                    self.t = (self.t & 0xff) | ((val as u16 & 0x3f) << 8)
                } else {
                    self.t = (self.t & 0xff00) | val as u16;
                    self.v = self.t
                }
                self.latch = !self.latch
            },
            7 => {
                let v = self.v;
                self.write_mem(v, val);
                self.v = self.v.wrapping_add(if self.ctrl & 4 != 0 {
                    32
                } else {
                    1
                })
            },
            _ => {},
        }
    }

    /// Coarse X increment.
    #[verifier::spinoff_prover]
    fn inc_x(&mut self)
        ensures
            final(self)@ == old(self)@.inc_x_spec(),
    {
        proof {
            lemma_ppu_fields();
        }
        if self.v & 0x1f == 31 {
            self.v &= !0x1f;
            self.v ^= 0x400
        } else {
            self.v += 1
        }
    }

    /// Fine Y increment.
    #[verifier::spinoff_prover]
    fn inc_y(&mut self)
        ensures
            final(self)@ == old(self)@.inc_y_spec(),
    {
        proof {
            lemma_ppu_fields();
        }
        if self.v & 0x7000 != 0x7000 {
            self.v += 0x1000
        } else {
            self.v &= !0x7000;
            let mut y = (self.v & 0x3e0) >> 5;
            if y == 29 {
                y = 0;
                self.v ^= 0x800
            } else if y == 31 {
                y = 0
            } else {
                y = y.wrapping_add(1)
            }
            self.v = (self.v & !0x3e0) | (y << 5)
        }
    }

    /// The background palette index at pixel `px` of the current line.
    #[verifier::spinoff_prover]
    fn bg(&self, px: usize) -> (r: u8)
        requires
            self@.wf(),
            px < 256,
        ensures
            r == self@.bg_spec(px as int),
    {
        if self.mask & 8 == 0 || (px < 8 && self.mask & 2 == 0) {
            return 0;
        }
        proof {
            lemma_ppu_fields();
        }
        let fx = (px + self.fine_x as usize) % 8;
        let v = self.v;
        let tile = self.read_mem(0x2000 | (v & 0xfff));
        let attr = self.read_mem(0x23c0 | (v & 0xc00) | ((v >> 4) & 0x38) | ((v >> 2) & 7));
        let shift = ((v >> 4) & 4) | (v & 2);
        let hi = (attr >> shift) & 3;
        let pat = (if self.ctrl & 0x10 != 0 {
            0x1000u16
        } else {
            0
        }) + tile as u16 * 16 + ((v >> 12) & 7);
        let bit = 7 - fx as u8;
        let p = ((self.read_mem(pat) >> bit) & 1) | (((self.read_mem(pat + 8) >> bit) & 1) << 1);
        if p == 0 {
            0
        } else {
            hi << 2 | p
        }
    }

    /// The 2-bit pattern of sprite `i` at `col`, `row` of its box.
    #[verifier::spinoff_prover]
    fn sprite_pattern(&self, i: usize, col: i16, row: i16) -> (p: u8)
        requires
            self@.wf(),
            i < 64,
            0 <= col < 8,
            0 <= row < self@.sprite_height(),
        ensures
            p == self@.sprite_pattern(i as int, col as int, row as int),
    {
        proof {
            lemma_ppu_fields();
        }
        let mut tile = self.oam[i * 4 + 1];
        let mut row = row;
        let base: u16 = if self.ctrl & 0x20 != 0 {
            let b = (tile & 1) as u16 * 0x1000;
            tile = tile & 0xfe;
            if row >= 8 {
                tile += 1;
                row -= 8
            }
            b
        } else if self.ctrl & 8 != 0 {
            0x1000
        } else {
            0
        };
        let bit = 7 - col as u8;
        let addr = base + tile as u16 * 16 + row as u16;
        ((self.read_mem(addr) >> bit) & 1) | (((self.read_mem(addr + 8) >> bit) & 1) << 1)
    }

    /// The sprite palette index at pixel (`px`, `py`); sets the sprite 0 hit flag when
    /// sprite 0 shows over an opaque background.
    #[verifier::spinoff_prover]
    fn sprite(&mut self, px: usize, py: usize, bg: bool) -> (r: u8)
        requires
            old(self)@.wf(),
            px < 256,
            py < 240,
        ensures
            ({
                let (hit, v) = old(self)@.sprite_spec(px as int, py as int, bg);
                &&& r == v
                &&& final(self)@ == NesPpuState {
                    status: if hit {
                        old(self)@.status | 0x40
                    } else {
                        old(self)@.status
                    },
                    ..old(self)@
                }
            }),
    {
        if self.mask & 0x10 == 0 || (px < 8 && self.mask & 4 == 0) {
            return 0;
        }
        proof {
            lemma_ppu_fields();
        }
        let h: i16 = if self.ctrl & 0x20 != 0 {
            16
        } else {
            8
        };
        let mut found: usize = 0;
        let mut i: usize = 0;
        while i < 64
            invariant
                self@ == old(self)@,
                self@.wf(),
                px < 256,
                py < 240,
                i <= 64,
                found <= 8,
                h == self@.sprite_height(),
                old(self)@.sprite_spec(px as int, py as int, bg) == self@.sprite_scan(
                    px as int,
                    py as int,
                    bg,
                    i as nat,
                    found as nat,
                ),
            decreases 64 - i,
        {
            let sy = self.oam[i * 4] as i16;
            let attr = self.oam[i * 4 + 2];
            let sx = self.oam[i * 4 + 3] as i16;
            let mut row = py as i16 - sy - 1;
            if 0 <= row && row < h {
                found += 1;
                if found > 8 {
                    return 0;
                }
                let mut col = px as i16 - sx;
                if 0 <= col && col < 8 {
                    if attr & 0x40 != 0 {
                        col = 7 - col
                    }
                    if attr & 0x80 != 0 {
                        row = h - 1 - row
                    }
                    let p = self.sprite_pattern(i, col, row);
                    if p != 0 {
                        if i == 0 && bg && px != 255 {
                            self.status |= 0x40
                        }
                        if attr & 0x20 != 0 && bg {
                            return 0;
                        }
                        return 0x10 | ((attr & 3) << 2) | p;
                    }
                }
            }
            i += 1;
        }
        0
    }

    /// Draws the pixel at the current dot of a visible line.
    #[verifier::spinoff_prover]
    fn draw(&mut self)
        requires
            old(self)@.wf(),
            0 <= old(self).scanline < 240,
            1 <= old(self).dot <= 256,
        ensures
            final(self)@ == old(self)@.draw_spec(),
            final(self)@.wf(),
    {
        let px = self.dot as usize - 1;
        let bg = self.bg(px);
        let sp = self.sprite(px, self.scanline as usize, bg != 0);
        let idx = if sp != 0 {
            sp
        } else {
            bg
        };
        let c = self.read_mem(0x3f00 + idx as u16) & 0x3f;
        self.frame.set(self.scanline as usize * 256 + px, c);
    }

    /// One dot of the PPU.
    #[verifier::spinoff_prover]
    #[verifier::rlimit(40)]
    pub fn tick(&mut self)
        requires
            old(self)@.wf(),
        ensures
            final(self)@ == old(self)@.tick_spec(),
            final(self)@.wf(),
    {
        reveal(NesPpuState::tick_spec);
        let rendering = self.mask & 0x18 != 0;
        if 0 <= self.scanline && self.scanline < 240 && 1 <= self.dot && self.dot <= 256 {
            let px = self.dot as usize - 1;
            self.draw();
            if rendering && (px + self.fine_x as usize) % 8 == 7 {
                self.inc_x()
            }
            if rendering && self.dot == 256 {
                self.inc_y()
            }
        }
        if rendering && self.scanline < 240 && self.dot == 257 {
            self.v = (self.v & !0x41f) | (self.t & 0x41f)
        }
        if rendering && self.scanline == 261 && 280 <= self.dot && self.dot <= 304 {
            self.v = (self.v & !0x7be0) | (self.t & 0x7be0)
        }
        if self.scanline == 241 && self.dot == 1 {
            self.status |= 0x80;
            self.frame_ready = true;
            self.nmi = self.ctrl & 0x80 != 0
        }
        if self.scanline == 261 && self.dot == 1 {
            self.status &= !0xe0;
            self.frame_ready = false
        }
        self.dot += 1;
        if self.dot > 340 {
            self.dot = 0;
            self.scanline += 1;
            if self.scanline > 261 {
                self.scanline = 0
            }
        }
    }
}

} // verus!
