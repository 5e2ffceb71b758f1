use vstd::prelude::*;

verus! {

/// Visible pixels per line.
pub const WIDTH: usize = 160;

/// Visible lines per frame.
pub const HEIGHT: usize = 144;

/// Pixels per frame.
pub const FRAME_LEN: usize = 23040;

/// The abstract state of the picture processing unit.
pub struct PpuState {
    pub vram: Seq<u8>,
    pub oam: Seq<u8>,
    pub lcdc: u8,
    pub stat: u8,
    pub scy: u8,
    pub scx: u8,
    pub ly: u8,
    pub lyc: u8,
    pub bgp: u8,
    pub obp0: u8,
    pub obp1: u8,
    pub wy: u8,
    pub wx: u8,
    pub dots: u16,
    pub window_line: u8,
    pub frame_ready: bool,
    pub framebuffer: Seq<u8>,
}

/// The 2-bit color of pixel (`x`, `y`) of the 8x8 tile whose 16 bytes start at `base`.
pub open spec fn tile_pixel_spec(vram: Seq<u8>, base: int, x: u8, y: u8) -> u8 {
    let i = base + y * 2;
    let bit = (7 - x) as u8;
    ((vram[i] >> bit) & 1) | (((vram[i + 1] >> bit) & 1) << 1u8)
}

/// The shade a palette register assigns to a 2-bit color.
pub open spec fn palette_spec(p: u8, color: u8) -> u8 {
    (p >> (color * 2) as u8) & 3
}

/// A tile number read as a signed byte.
pub open spec fn signed_tile(tile: u8) -> int {
    if tile < 128 {
        tile as int
    } else {
        tile - 256
    }
}

/// The first ten entries of `s`.
pub open spec fn first_ten(s: Seq<usize>) -> Seq<usize> {
    if s.len() > 10 {
        s.take(10)
    } else {
        s
    }
}

impl PpuState {
    /// The dot counter stays within a line (456 dots) and LY can still advance; a tick
    /// from a line past 153 wraps to line 0.
    pub open spec fn wf(self) -> bool {
        &&& self.vram.len() == 0x2000
        &&& self.oam.len() == 0xa0
        &&& self.framebuffer.len() == FRAME_LEN
        &&& self.dots < 456
        &&& self.ly <= 254
    }

    /// The STAT mode: 0 off or horizontal blank, 1 vertical blank, 2 OAM scan, 3 drawing.
    pub open spec fn mode_spec(self) -> u8 {
        if self.lcdc & 0x80 == 0 {
            0
        } else if self.ly >= 144 {
            1
        } else if self.dots < 80 {
            2
        } else if self.dots < 252 {
            3
        } else {
            0
        }
    }

    /// The value of STAT: bit 7 set, the interrupt enables, the LY=LYC flag and the mode.
    pub open spec fn read_stat_spec(self) -> u8 {
        0x80 | (self.stat & 0x78) | (if self.ly == self.lyc { 4u8 } else { 0u8 }) | self.mode_spec()
    }

    /// The state after a write to LCDC; switching the display off restarts the frame.
    pub open spec fn write_lcdc_spec(self, value: u8) -> PpuState {
        if self.lcdc & 0x80 != 0 && value & 0x80 == 0 {
            PpuState { ly: 0, dots: 0, window_line: 0, lcdc: value, ..self }
        } else {
            PpuState { lcdc: value, ..self }
        }
    }

    /// Whether the window covers part of the current line.
    pub open spec fn window_active(self) -> bool {
        self.lcdc & 0x20 != 0 && self.ly >= self.wy && self.wx <= 166
    }

    /// The 2-bit background or window color at map coordinates (`x`, `y`).
    pub open spec fn bg_pixel_spec(self, x: u8, y: u8, window: bool) -> u8 {
        let map: int = if window {
            if self.lcdc & 0x40 != 0 {
                0x1c00
            } else {
                0x1800
            }
        } else if self.lcdc & 8 != 0 {
            0x1c00
        } else {
            0x1800
        };
        let tile = self.vram[map + (y / 8) * 32 + x / 8];
        let base: int = if self.lcdc & 0x10 != 0 {
            tile * 16
        } else {
            0x1000 + signed_tile(tile) * 16
        };
        tile_pixel_spec(self.vram, base, x % 8, y % 8)
    }

    /// The 2-bit background color of column `x` of the current line, taken from the
    /// window right of WX-7 when the window is active, else from the scrolled background.
    pub open spec fn bg_color_spec(self, x: int) -> u8 {
        let use_window = self.window_active() && x + 7 >= self.wx;
        let px: u8 = if use_window {
            (x + 7 - self.wx) as u8
        } else {
            ((x + self.scx) % 256) as u8
        };
        let py: u8 = if use_window {
            self.window_line
        } else {
            ((self.ly + self.scy) % 256) as u8
        };
        if self.lcdc & 1 == 0 {
            0
        } else {
            self.bg_pixel_spec(px, py, use_window)
        }
    }

    /// Sprite height in lines: 16 in 8x16 mode, else 8.
    pub open spec fn sprite_height(self) -> int {
        if self.lcdc & 4 != 0 {
            16
        } else {
            8
        }
    }

    /// Whether OAM entry `i` covers line `y`.
    pub open spec fn on_line(self, i: int, y: int) -> bool {
        self.oam[4 * i] - 16 <= y < self.oam[4 * i] - 16 + self.sprite_height()
    }

    /// The OAM entries below `n` that cover line `y`, in OAM order.
    pub open spec fn line_candidates(self, y: int, n: nat) -> Seq<usize>
        decreases n,
    {
        if n == 0 {
            Seq::empty()
        } else {
            let prev = self.line_candidates(y, (n - 1) as nat);
            if self.on_line(n - 1, y) {
                prev.push((n - 1) as usize)
            } else {
                prev
            }
        }
    }

    /// The sprites drawn on line `y`: the first ten OAM entries that cover it.
    pub open spec fn line_sprites(self, y: int) -> Seq<usize> {
        first_ten(self.line_candidates(y, 40))
    }

    /// The 2-bit color sprite `j` gives column `x` of line `y` (0 where it is transparent
    /// or does not cover the column).
    pub open spec fn sprite_color_spec(self, j: int, y: int, x: int) -> u8 {
        let flags = self.oam[4 * j + 3];
        let col = x + 8 - self.oam[4 * j + 1];
        if !(0 <= col < 8) {
            0
        } else {
            let h = self.sprite_height();
            let r = y - (self.oam[4 * j] - 16);
            let row = if flags & 0x40 != 0 {
                h - 1 - r
            } else {
                r
            };
            let tile = if h == 16 {
                self.oam[4 * j + 2] & 0xfe
            } else {
                self.oam[4 * j + 2]
            };
            let bitx = if flags & 0x20 != 0 {
                7 - col
            } else {
                col
            };
            tile_pixel_spec(self.vram, tile * 16 + row * 2, bitx as u8, 0)
        }
    }

    /// Whether sprite `j` shows at column `x` over background color `bgc`: it is opaque
    /// there and not hidden behind a nonzero background color.
    pub open spec fn sprite_shows(self, j: int, y: int, x: int, bgc: u8) -> bool {
        self.sprite_color_spec(j, y, x) != 0 && !(self.oam[4 * j + 3] & 0x80 != 0 && bgc != 0)
    }

    /// Drawing priority: the sprite with the smaller X coordinate wins, then the
    /// smaller OAM index.
    pub open spec fn sprite_before(self, a: int, b: int) -> bool {
        self.oam[4 * a + 1] < self.oam[4 * b + 1] || (self.oam[4 * a + 1] == self.oam[4 * b + 1]
            && a < b)
    }

    /// Among the first `k` entries of `sel`, the sprite that shows at column `x` and
    /// comes first in drawing priority.
    pub open spec fn top_sprite(self, sel: Seq<usize>, k: nat, y: int, x: int, bgc: u8) -> Option<
        usize,
    >
        decreases k,
    {
        if k == 0 {
            None
        } else {
            let best = self.top_sprite(sel, (k - 1) as nat, y, x, bgc);
            let j = sel[k - 1];
            if self.sprite_shows(j as int, y, x, bgc) && (best is None || self.sprite_before(
                j as int,
                best.unwrap() as int,
            )) {
                Some(j)
            } else {
                best
            }
        }
    }

    /// The palette register of sprite `j`.
    pub open spec fn sprite_palette(self, j: int) -> u8 {
        if self.oam[4 * j + 3] & 0x10 != 0 {
            self.obp1
        } else {
            self.obp0
        }
    }

    /// The shade of column `x` of the current line.
    pub open spec fn line_pixel(self, x: int) -> u8 {
        let bgc = self.bg_color_spec(x);
        let y = self.ly as int;
        let sel = self.line_sprites(y);
        if self.lcdc & 2 != 0 {
            match self.top_sprite(sel, sel.len(), y, x, bgc) {
                Some(j) => palette_spec(
                    self.sprite_palette(j as int),
                    self.sprite_color_spec(j as int, y, x),
                ),
                None => palette_spec(self.bgp, bgc),
            }
        } else {
            palette_spec(self.bgp, bgc)
        }
    }

    /// The state after drawing the current line (a visible line only).
    pub open spec fn render_line_spec(self) -> PpuState {
        if self.ly >= 144 {
            self
        } else {
            let start = self.ly * 160;
            PpuState {
                framebuffer: Seq::new(
                    FRAME_LEN as nat,
                    |i: int|
                        if start <= i < start + 160 {
                            self.line_pixel(i - start)
                        } else {
                            self.framebuffer[i]
                        },
                ),
                window_line: if self.window_active() {
                    ((self.window_line + 1) % 256) as u8
                } else {
                    self.window_line
                },
                ..self
            }
        }
    }

    /// One dot: the new state and the interrupt bits raised (bit 0 vertical blank,
    /// bit 1 STAT).
    pub open spec fn tick_spec(self) -> (PpuState, u8) {
        if self.lcdc & 0x80 == 0 {
            (self, 0)
        } else {
            let old_mode = self.mode_spec();
            let old_equal = self.ly == self.lyc;
            let p1 = PpuState { dots: (self.dots + 1) as u16, ..self };
            let p2 = if p1.dots == 252 && p1.ly < 144 {
                p1.render_line_spec()
            } else {
                p1
            };
            let wrapped = p2.dots >= 456;
            let next_ly = p2.ly + 1;
            let p3 = if !wrapped {
                p2
            } else if next_ly > 153 {
                PpuState { dots: 0, ly: 0, window_line: 0, ..p2 }
            } else if next_ly == 144 {
                PpuState { dots: 0, ly: next_ly as u8, frame_ready: true, ..p2 }
            } else {
                PpuState { dots: 0, ly: next_ly as u8, ..p2 }
            };
            let vblank: u8 = if wrapped && next_ly == 144 {
                1
            } else {
                0
            };
            let mode = p3.mode_spec();
            let mode_irq = mode != old_mode && ((mode == 0 && self.stat & 8 != 0) || (mode == 1
                && self.stat & 0x10 != 0) || (mode == 2 && self.stat & 0x20 != 0));
            let lyc_irq = !old_equal && p3.ly == p3.lyc && self.stat & 0x40 != 0;
            (p3, vblank | if mode_irq || lyc_irq {
                2u8
            } else {
                0u8
            })
        }
    }
}

/// A 2-bit tile color is at most 3.
proof fn lemma_tile_pixel_bound(a: u8, b: u8, bit: u8)
    requires
        bit < 8,
    ensures
        ((a >> bit) & 1) | (((b >> bit) & 1) << 1u8) <= 3,
{
    assert(((a >> bit) & 1) | (((b >> bit) & 1) << 1u8) <= 3) by (bit_vector)
        requires
            bit < 8,
    ;
}

/// The picture processing unit: video memory, sprite attributes, LCD registers,
/// the dot counter and the frame being drawn.
pub struct Ppu {
    pub vram: [u8; 0x2000],
    pub oam: [u8; 0xa0],
    pub lcdc: u8,
    pub stat: u8,
    pub scy: u8,
    pub scx: u8,
    pub ly: u8,
    pub lyc: u8,
    pub bgp: u8,
    pub obp0: u8,
    pub obp1: u8,
    pub wy: u8,
    pub wx: u8,
    pub dots: u16,
    pub window_line: u8,
    pub frame_ready: bool,
    pub framebuffer: [u8; FRAME_LEN],
}

impl View for Ppu {
    type V = PpuState;

    open spec fn view(&self) -> PpuState {
        PpuState {
            vram: self.vram@,
            oam: self.oam@,
            lcdc: self.lcdc,
            stat: self.stat,
            scy: self.scy,
            scx: self.scx,
            ly: self.ly,
            lyc: self.lyc,
            bgp: self.bgp,
            obp0: self.obp0,
            obp1: self.obp1,
            wy: self.wy,
            wx: self.wx,
            dots: self.dots,
            window_line: self.window_line,
            frame_ready: self.frame_ready,
            framebuffer: self.framebuffer@,
        }
    }
}

/// The OAM entries that cover a line are distinct in-range indices that do cover it.
proof fn lemma_line_candidates(p: PpuState, y: int, n: nat)
    requires
        n <= 40,
    ensures
        forall|k: int|
            0 <= k < p.line_candidates(y, n).len() ==> #[trigger] p.line_candidates(y, n)[k] < n
                && p.on_line(p.line_candidates(y, n)[k] as int, y),
        p.line_candidates(y, n).len() <= n,
    decreases n,
{
    if n > 0 {
        lemma_line_candidates(p, y, (n - 1) as nat);
    }
}

impl PpuState {
    /// The beam position: dots since the start of line 0.
    pub open spec fn beam(self) -> int {
        self.ly * 456 + self.dots
    }
}

/// Law: with the LCD on, each dot moves the beam one position on, wrapping after 154
/// lines of 456 dots; the vertical-blank interrupt is raised exactly when the beam
/// enters line 144, which is when the frame is marked ready, so a frame completes every
/// 70224 dots. With the LCD off a dot changes nothing and raises nothing.
pub proof fn lemma_tick_beam(p: PpuState)
    requires
        p.wf(),
        p.ly <= 153,
    ensures
        ({
            let (q, irq) = p.tick_spec();
            &&& q.wf()
            &&& q.ly <= 153
            &&& q.lcdc == p.lcdc
            &&& irq <= 3
            &&& p.lcdc & 0x80 == 0 ==> q == p && irq == 0
            &&& p.lcdc & 0x80 != 0 ==> {
                &&& q.beam() == (p.beam() + 1) % 70224
                &&& (irq & 1 != 0) == (q.beam() == 144 * 456)
                &&& q.frame_ready == (p.frame_ready || q.beam() == 144 * 456)
            }
        }),
{
    if p.lcdc & 0x80 != 0 {
        let p1 = PpuState { dots: (p.dots + 1) as u16, ..p };
        let p2 = if p1.dots == 252 && p1.ly < 144 {
            p1.render_line_spec()
        } else {
            p1
        };
        assert(p2.ly == p.ly && p2.dots == p.dots + 1 && p2.frame_ready == p.frame_ready);
        let (q, irq) = p.tick_spec();
        let vblank: u8 = if p2.dots >= 456 && p2.ly + 1 == 144 { 1 } else { 0 };
        assert(irq & 1 == vblank && irq <= 3) by {
            assert(irq == vblank | 0u8 || irq == vblank | 2u8);
            lemma_irq_bits();
        }
    }
}

/// How the vertical-blank bit and the STAT bit combine in a dot's interrupt bits, and
/// a palette lookup gives a 2-bit shade.
proof fn lemma_irq_bits()
    ensures
        forall|v: u8|
            v <= 1 ==> (v | 0u8) & 1 == v && (v | 2u8) & 1 == v && (v | 0u8) <= 3 && (v | 2u8) <= 3,
        forall|x: u8, k: u8| #[trigger] ((x >> k) & 3) <= 3,
{
    assert({
        &&& (forall|v: u8|
            v <= 1 ==> (v | 0u8) & 1 == v && (v | 2u8) & 1 == v && (v | 0u8) <= 3 && (v | 2u8)
                <= 3)
        &&& (forall|x: u8, k: u8| #[trigger] ((x >> k) & 3) <= 3)
    }) by (bit_vector);
}

/// Whether every pixel of the frame is a 2-bit shade.
pub open spec fn shades_only(p: PpuState) -> bool {
    forall|i: int| 0 <= i < p.framebuffer.len() ==> p.framebuffer[i] <= 3
}

/// Law: the frame buffer only ever holds shades 0-3: a dot keeps that so.
pub proof fn lemma_frame_shades(p: PpuState)
    requires
        p.wf(),
        shades_only(p),
    ensures
        shades_only(p.tick_spec().0),
{
    lemma_irq_bits();
}

/// A dot raises at most the vertical-blank and STAT interrupt bits.
pub proof fn lemma_tick_irq_bits(p: PpuState)
    ensures
        p.tick_spec().1 <= 3,
{
    lemma_irq_bits();
}

/// The PPU after `n` dots.
pub open spec fn ppu_after(p: PpuState, n: nat) -> PpuState
    decreases n,
{
    if n == 0 {
        p
    } else {
        ppu_after(p, (n - 1) as nat).tick_spec().0
    }
}

/// Law: with the LCD on, over any number of dots the beam advances one position per dot
/// modulo 70224, and the vertical-blank interrupt is raised on the `n`-th dot exactly when
/// the beam then enters line 144; from the start of line 0 that is on dots 65664,
/// 65664 + 70224, and so on, and the frame is marked ready on just those dots. A dot
/// raises no interrupt bits but 0 and 1, and LY stays within 0-153.
#[verifier::rlimit(50)]
pub proof fn lemma_frame_timing(p: PpuState, n: nat)
    requires
        p.wf(),
        p.ly <= 153,
        p.lcdc & 0x80 != 0,
    ensures
        ppu_after(p, n).wf(),
        ppu_after(p, n).ly <= 153,
        ppu_after(p, n).lcdc == p.lcdc,
        ppu_after(p, n).beam() == (p.beam() + n) % 70224,
        n >= 1 ==> {
            let irq = ppu_after(p, (n - 1) as nat).tick_spec().1;
            &&& irq <= 3
            &&& (irq & 1 != 0) == ((p.beam() + n) % 70224 == 144 * 456)
            &&& ppu_after(p, n).frame_ready == (ppu_after(p, (n - 1) as nat).frame_ready || (p.beam()
                + n) % 70224 == 144 * 456)
        },
    decreases n,
{
    if n == 0 {
        vstd::arithmetic::div_mod::lemma_small_mod(p.beam() as nat, 70224);
    } else {
        lemma_frame_timing(p, (n - 1) as nat);
        let q = ppu_after(p, (n - 1) as nat);
        lemma_tick_beam(q);
        vstd::arithmetic::div_mod::lemma_add_mod_noop(p.beam() + n - 1, 1, 70224);
    }
}

/// Law: STAT always reads bit 7 set, reports the mode in bits 0-1 and the LY=LYC
/// coincidence in bit 2.
pub proof fn lemma_stat_reports(p: PpuState)
    ensures
        p.read_stat_spec() & 0x80 != 0,
        p.read_stat_spec() & 3 == p.mode_spec(),
        (p.read_stat_spec() & 4 != 0) == (p.ly == p.lyc),
        p.mode_spec() <= 3,
{
    let m = p.mode_spec();
    let st = p.stat;
    let e: u8 = if p.ly == p.lyc {
        4
    } else {
        0
    };
    assert(m <= 3 ==> (0x80 | (st & 0x78) | e | m) & 0x80 != 0 && (0x80 | (st & 0x78) | e | m) & 3
        == m && ((0x80 | (st & 0x78) | e | m) & 4 != 0) == (e == 4)) by (bit_vector)
        requires
            e == 0 || e == 4,
    ;
}

/// Law: a palette register maps color `c` (0-3) to the shade in its bits `2c` and
/// `2c + 1`.
pub proof fn lemma_palette_shade(pal: u8, c: u8)
    requires
        c <= 3,
    ensures
        palette_spec(pal, c) == (pal as int / (if c == 0 {
            1int
        } else if c == 1 {
            4
        } else if c == 2 {
            16
        } else {
            64
        })) % 4,
{
    let k = (c * 2) as u8;
    assert({
        &&& (k == 0 ==> (pal >> k) & 3 == pal % 4)
        &&& (k == 2 ==> (pal >> k) & 3 == (pal / 4) % 4)
        &&& (k == 4 ==> (pal >> k) & 3 == (pal / 16) % 4)
        &&& (k == 6 ==> (pal >> k) & 3 == (pal / 64) % 4)
    }) by (bit_vector);
}

/// Law: the shade of a pixel comes from the sprite shown there, through OBP1 when its OAM
/// attribute has bit 4 set and through OBP0 when not, or else from the background color
/// through BGP; with sprites off (LCDC bit 1 clear) always from the background.
#[verifier::rlimit(50)]
pub proof fn lemma_pixel_shade(p: PpuState, x: int)
    ensures
        ({
            let bgc = p.bg_color_spec(x);
            let y = p.ly as int;
            let sel = p.line_sprites(y);
            match p.top_sprite(sel, sel.len(), y, x, bgc) {
                Some(j) if p.lcdc & 2 != 0 => p.line_pixel(x) == palette_spec(
                    if p.oam[4 * j + 3] & 0x10 != 0 {
                        p.obp1
                    } else {
                        p.obp0
                    },
                    p.sprite_color_spec(j as int, y, x),
                ),
                _ => p.line_pixel(x) == palette_spec(p.bgp, bgc),
            }
        }),
{
}

/// Law: OAM attribute bit 5 mirrors a sprite left to right: with only that bit changed,
/// the color at a column equals the color the unflipped sprite has at the mirrored
/// column (`x` and `x2` lie symmetrically about the sprite's middle).
pub proof fn lemma_sprite_x_flip(p: PpuState, q: PpuState, j: int, y: int, x: int, x2: int)
    requires
        0 <= j < 40,
        p.oam.len() == 0xa0,
        q == (PpuState { oam: p.oam.update(4 * j + 3, q.oam[4 * j + 3]), ..p }),
        (q.oam[4 * j + 3] & 0x20 != 0) != (p.oam[4 * j + 3] & 0x20 != 0),
        (q.oam[4 * j + 3] & 0x40 != 0) == (p.oam[4 * j + 3] & 0x40 != 0),
        x + x2 == 2 * (p.oam[4 * j + 1] - 8) + 7,
    ensures
        q.sprite_color_spec(j, y, x) == p.sprite_color_spec(j, y, x2),
{
}

/// Law: OAM attribute bit 6 mirrors a sprite top to bottom: with only that bit changed,
/// the color on a line equals the color the unflipped sprite has on the mirrored line
/// (`y` and `y2` lie symmetrically about the sprite's middle, for its height).
pub proof fn lemma_sprite_y_flip(p: PpuState, q: PpuState, j: int, y: int, y2: int, x: int)
    requires
        0 <= j < 40,
        p.oam.len() == 0xa0,
        q == (PpuState { oam: p.oam.update(4 * j + 3, q.oam[4 * j + 3]), ..p }),
        (q.oam[4 * j + 3] & 0x40 != 0) != (p.oam[4 * j + 3] & 0x40 != 0),
        (q.oam[4 * j + 3] & 0x20 != 0) == (p.oam[4 * j + 3] & 0x20 != 0),
        y + y2 == 2 * (p.oam[4 * j] - 16) + p.sprite_height() - 1,
    ensures
        q.sprite_color_spec(j, y, x) == p.sprite_color_spec(j, y2, x),
{
}

/// Law: a sprite pixel is drawn only where the sprite is opaque, and never over a
/// nonzero background color when its OAM attribute bit 7 (behind background) is set;
/// when no sprite qualifies, the background is drawn.
#[verifier::rlimit(50)]
pub proof fn lemma_sprite_behind_background(p: PpuState, x: int)
    ensures
        ({
            let bgc = p.bg_color_spec(x);
            let y = p.ly as int;
            let sel = p.line_sprites(y);
            match p.top_sprite(sel, sel.len(), y, x, bgc) {
                Some(j) => p.sprite_color_spec(j as int, y, x) != 0 && (p.oam[4 * j + 3] & 0x80
                    == 0 || bgc == 0),
                None => forall|i: int|
                    0 <= i < sel.len() ==> p.sprite_color_spec(sel[i] as int, y, x) == 0 || (
                    p.oam[4 * sel[i] + 3] & 0x80 != 0 && bgc != 0),
            }
        }),
{
    let bgc = p.bg_color_spec(x);
    let y = p.ly as int;
    let sel = p.line_sprites(y);
    lemma_sprite_priority(p, sel, sel.len(), y, x, bgc);
    if p.top_sprite(sel, sel.len(), y, x, bgc) is None {
        assert forall|i: int| 0 <= i < sel.len() implies p.sprite_color_spec(sel[i] as int, y, x)
            == 0 || (p.oam[4 * sel[i] + 3] & 0x80 != 0 && bgc != 0) by {
            assert(!p.sprite_shows(sel[i] as int, y, x, bgc));
        }
    }
}

/// Law: scrolling: with the window off, raising SCX by one moves the background one
/// pixel left, and raising SCY by one shows on a line what the next line showed.
#[verifier::rlimit(50)]
pub proof fn lemma_scroll(p: PpuState, x: int)
    requires
        p.lcdc & 0x20 == 0,
        p.ly < 255,
    ensures
        (PpuState { scx: ((p.scx + 1) % 256) as u8, ..p }).bg_color_spec(x) == p.bg_color_spec(
            x + 1,
        ),
        (PpuState { scy: ((p.scy + 1) % 256) as u8, ..p }).bg_color_spec(x) == (PpuState {
            ly: (p.ly + 1) as u8,
            ..p
        }).bg_color_spec(x),
{
    vstd::arithmetic::div_mod::lemma_add_mod_noop(x + p.scx, 1, 256);
    vstd::arithmetic::div_mod::lemma_add_mod_noop(x, p.scx + 1, 256);
    vstd::arithmetic::div_mod::lemma_mod_mod(p.scx + 1, 256, 1);
    vstd::arithmetic::div_mod::lemma_add_mod_noop(p.ly as int, p.scy + 1, 256);
    vstd::arithmetic::div_mod::lemma_mod_mod(p.scy + 1, 256, 1);
    assert(((x + (p.scx + 1) % 256) % 256) == (x + 1 + p.scx) % 256) by {
        vstd::arithmetic::div_mod::lemma_add_mod_noop(x, p.scx + 1, 256);
        vstd::arithmetic::div_mod::lemma_mod_twice(x, 256);
        vstd::arithmetic::div_mod::lemma_add_mod_noop(x, (p.scx + 1) % 256, 256);
        vstd::arithmetic::div_mod::lemma_mod_twice(p.scx + 1, 256);
    }
    assert(((p.ly + (p.scy + 1) % 256) % 256) == (p.ly + 1 + p.scy) % 256) by {
        vstd::arithmetic::div_mod::lemma_add_mod_noop(p.ly as int, (p.scy + 1) % 256, 256);
        vstd::arithmetic::div_mod::lemma_mod_twice(p.scy + 1, 256);
        vstd::arithmetic::div_mod::lemma_add_mod_noop(p.ly as int, p.scy + 1, 256);
        vstd::arithmetic::div_mod::lemma_mod_twice(p.ly as int, 256);
    }
}

/// Law: the window starts at column WX - 7: raising WX by one moves the window one
/// pixel right, so a column inside the window then shows what the column to its left
/// showed before.
pub proof fn lemma_window_position(p: PpuState, x: int)
    requires
        p.window_active(),
        p.wx < 166,
        x + 7 >= p.wx,
    ensures
        (PpuState { wx: (p.wx + 1) as u8, ..p }).bg_color_spec(x + 1) == p.bg_color_spec(x),
{
}

/// Law: a background or window pixel depends on video RAM only through the tile map
/// LCDC selects (bit 6 for the window, bit 3 for the background: 0x9c00 when set, else
/// 0x9800) and the tile data LCDC bit 4 selects (0x8000-0x8fff with unsigned tile
/// numbers when set, 0x8800-0x97ff with signed ones around 0x9000 when clear).
pub proof fn lemma_bg_vram_regions(p: PpuState, q: PpuState, x: u8, y: u8, window: bool)
    requires
        p.vram.len() == 0x2000,
        q == (PpuState { vram: q.vram, ..p }),
        q.vram.len() == 0x2000,
        ({
            let m: int = if (window && p.lcdc & 0x40 != 0) || (!window && p.lcdc & 8 != 0) {
                0x1c00
            } else {
                0x1800
            };
            let d: int = if p.lcdc & 0x10 != 0 {
                0
            } else {
                0x800
            };
            forall|i: int|
                (m <= i < m + 0x400 || d <= i < d + 0x1000) ==> #[trigger] p.vram[i] == q.vram[i]
        }),
    ensures
        p.bg_pixel_spec(x, y, window) == q.bg_pixel_spec(x, y, window),
{
}

/// Law: the sprite shown at a pixel is one of the line's sprites that is opaque there and
/// not hidden behind the background, and every other such sprite has a larger X
/// coordinate, or the same X and a larger OAM index; when no sprite qualifies the
/// background shows.
pub proof fn lemma_sprite_priority(p: PpuState, sel: Seq<usize>, k: nat, y: int, x: int, bgc: u8)
    requires
        k <= sel.len(),
    ensures
        match p.top_sprite(sel, k, y, x, bgc) {
            Some(j) => {
                &&& exists|i: int| 0 <= i < k && sel[i] == j
                &&& p.sprite_shows(j as int, y, x, bgc)
                &&& forall|i: int|
                    0 <= i < k && #[trigger] p.sprite_shows(sel[i] as int, y, x, bgc) ==> !p.sprite_before(
                        sel[i] as int,
                        j as int,
                    )
            },
            None => forall|i: int| 0 <= i < k ==> !#[trigger] p.sprite_shows(sel[i] as int, y, x, bgc),
        },
    decreases k,
{
    if k > 0 {
        lemma_sprite_priority(p, sel, (k - 1) as nat, y, x, bgc);
        let best = p.top_sprite(sel, (k - 1) as nat, y, x, bgc);
        let j = sel[k - 1];
        match p.top_sprite(sel, k, y, x, bgc) {
            Some(w) => {
                if w == j && p.sprite_shows(j as int, y, x, bgc) && (best is None || p.sprite_before(
                    j as int,
                    best.unwrap() as int,
                )) {
                    assert(sel[k - 1] == w);
                } else {
                    let i0 = choose|i: int| 0 <= i < k - 1 && sel[i] == w;
                    assert(sel[i0] == w);
                }
            },
            None => {},
        }
    }
}

impl Ppu {
    /// The finished frame: one shade (0-3) per pixel, row by row.
    #[verifier::spinoff_prover]
    pub fn framebuffer(&self) -> (f: &[u8; FRAME_LEN])
        ensures
            f@ == self@.framebuffer,
    {
        &self.framebuffer
    }

    /// Whether a frame was completed since the last call; clears the flag.
    #[verifier::spinoff_prover]
    pub fn take_frame_ready(&mut self) -> (r: bool)
        ensures
            r == old(self).frame_ready,
            final(self)@ == (PpuState { frame_ready: false, ..old(self)@ }),
    {
        let r = self.frame_ready;
        self.frame_ready = false;
        r
    }

    /// The current STAT mode.
    #[verifier::spinoff_prover]
    pub fn mode(&self) -> (m: u8)
        ensures
            m == self@.mode_spec(),
    {
        if self.lcdc & 0x80 == 0 {
            0
        } else if self.ly >= 144 {
            1
        } else if self.dots < 80 {
            2
        } else if self.dots < 252 {
            3
        } else {
            0
        }
    }

    /// The value of the STAT register.
    #[verifier::spinoff_prover]
    pub fn read_stat(&self) -> (r: u8)
        ensures
            r == self@.read_stat_spec(),
    {
        0x80 | (self.stat & 0x78) | (if self.ly == self.lyc {
            4
        } else {
            0
        }) | self.mode()
    }

    /// A write to LCDC; turning the display off resets the line and dot counters.
    #[verifier::spinoff_prover]
    pub fn write_lcdc(&mut self, value: u8)
        ensures
            final(self)@ == old(self)@.write_lcdc_spec(value),
    {
        if self.lcdc & 0x80 != 0 && value & 0x80 == 0 {
            self.ly = 0;
            self.dots = 0;
            self.window_line = 0;
        }
        self.lcdc = value;
    }

    /// Advances one dot, drawing a line when its drawing period ends; returns the
    /// interrupt bits raised (bit 0 vertical blank, bit 1 STAT).
    #[verifier::spinoff_prover]
    pub fn tick(&mut self) -> (irq: u8)
        requires
            old(self)@.wf(),
        ensures
            (final(self)@, irq) == old(self)@.tick_spec(),
            final(self)@.wf(),
    {
        if self.lcdc & 0x80 == 0 {
            return 0;
        }
        let old_mode = self.mode();
        let old_equal = self.ly == self.lyc;
        self.dots += 1;
        if self.dots == 252 && self.ly < 144 {
            self.render_line();
        }
        let wrapped = self.dots >= 456;
        let mut vblank = false;
        if wrapped {
            self.dots = 0;
            self.ly += 1;
            if self.ly == 144 {
                self.frame_ready = true;
                vblank = true;
            }
            if self.ly > 153 {
                self.ly = 0;
                self.window_line = 0;
            }
        }
        let mode = self.mode();
        let mode_irq = mode != old_mode && ((mode == 0 && self.stat & 8 != 0) || (mode == 1
            && self.stat & 0x10 != 0) || (mode == 2 && self.stat & 0x20 != 0));
        let lyc_irq = !old_equal && self.ly == self.lyc && self.stat & 0x40 != 0;
        (if vblank {
            1u8
        } else {
            0u8
        }) | (if mode_irq || lyc_irq {
            2u8
        } else {
            0u8
        })
    }

    /// Draws the current line into the frame buffer.
    #[verifier::spinoff_prover]
    fn render_line(&mut self)
        requires
            old(self)@.wf(),
        ensures
            final(self)@ == old(self)@.render_line_spec(),
    {
        let y = self.ly as usize;
        if y >= HEIGHT {
            return;
        }
        let window = self.lcdc & 0x20 != 0 && self.ly >= self.wy && self.wx <= 166;
        let sel = self.select_sprites(y);
        let mut row: Vec<u8> = Vec::new();
        let mut x: usize = 0;
        while x < WIDTH
            invariant
                x <= WIDTH,
                y == self.ly,
                y < HEIGHT,
                self@.wf(),
                window == self@.window_active(),
                sel@ == self@.line_sprites(y as int),
                row@.len() == x,
                forall|i: int| 0 <= i < x ==> row@[i] == self@.line_pixel(i),
            decreases WIDTH - x,
        {
            let v = self.line_pixel(&sel, x, window);
            row.push(v);
            x += 1;
        }
        let start = y * WIDTH;
        let mut k: usize = 0;
        assert(self@.framebuffer =~= Seq::new(
            FRAME_LEN as nat,
            |i: int|
                if start <= i < start + 0 {
                    row@[i - start]
                } else {
                    old(self)@.framebuffer[i]
                },
        ));
        while k < WIDTH
            invariant
                k <= WIDTH,
                start == y * WIDTH,
                y < HEIGHT,
                row@.len() == WIDTH,
                self@ == (PpuState {
                    framebuffer: Seq::new(
                        FRAME_LEN as nat,
                        |i: int|
                            if start <= i < start + k {
                                row@[i - start]
                            } else {
                                old(self)@.framebuffer[i]
                            },
                    ),
                    ..old(self)@
                }),
            decreases WIDTH - k,
        {
            self.framebuffer[start + k] = row[k];
            k += 1;
            assert(self@.framebuffer =~= Seq::new(
                FRAME_LEN as nat,
                |i: int|
                    if start <= i < start + k {
                        row@[i - start]
                    } else {
                        old(self)@.framebuffer[i]
                    },
            ));
        }
        if window {
            self.window_line = self.window_line.wrapping_add(1);
        }
        assert(self@.framebuffer =~= old(self)@.render_line_spec().framebuffer);
    }

    /// The shade of column `x` of the current line.
    #[verifier::spinoff_prover]
    fn line_pixel(&self, sel: &Vec<usize>, x: usize, window: bool) -> (v: u8)
        requires
            self@.wf(),
            self.ly < 144,
            x < WIDTH,
            window == self@.window_active(),
            sel@ == self@.line_sprites(self.ly as int),
        ensures
            v == self@.line_pixel(x as int),
    {
        let bgc = self.bg_color(x, window);
        if self.lcdc & 2 != 0 {
            if let Some(j) = self.top_sprite(sel, self.ly as usize, x, bgc) {
                let c = self.sprite_color(j, self.ly as usize, x);
                let pal = if self.oam[j * 4 + 3] & 0x10 != 0 {
                    self.obp1
                } else {
                    self.obp0
                };
                return palette(pal, c);
            }
        }
        palette(self.bgp, bgc)
    }

    /// The 2-bit background color of column `x` of the current line.
    #[verifier::spinoff_prover]
    fn bg_color(&self, x: usize, window: bool) -> (c: u8)
        requires
            self@.wf(),
            x < WIDTH,
            window == self@.window_active(),
        ensures
            c == self@.bg_color_spec(x as int),
            c <= 3,
    {
        let use_window = window && x + 7 >= self.wx as usize;
        let px: u8;
        let py: u8;
        if use_window {
            px = (x + 7 - self.wx as usize) as u8;
            py = self.window_line;
        } else {
            px = (x as u8).wrapping_add(self.scx);
            py = self.ly.wrapping_add(self.scy);
        }
        if self.lcdc & 1 == 0 {
            0
        } else {
            self.bg_pixel(px, py, use_window)
        }
    }

    /// The 2-bit color at map coordinates (`x`, `y`) of the background or window map.
    #[verifier::spinoff_prover]
    fn bg_pixel(&self, x: u8, y: u8, window: bool) -> (c: u8)
        requires
            self@.wf(),
        ensures
            c == self@.bg_pixel_spec(x, y, window),
            c <= 3,
    {
        let map: usize = if window {
            if self.lcdc & 0x40 != 0 {
                0x1c00
            } else {
                0x1800
            }
        } else if self.lcdc & 8 != 0 {
            0x1c00
        } else {
            0x1800
        };
        let tile = self.vram[map + (y as usize / 8) * 32 + x as usize / 8];
        let base: usize = if self.lcdc & 0x10 != 0 {
            tile as usize * 16
        } else if tile < 128 {
            0x1000 + tile as usize * 16
        } else {
            tile as usize * 16
        };
        tile_pixel(&self.vram, base, x % 8, y % 8)
    }

    /// The sprites drawn on line `y`, in OAM order.
    #[verifier::spinoff_prover]
    fn select_sprites(&self, y: usize) -> (sel: Vec<usize>)
        requires
            self@.wf(),
            y < HEIGHT,
        ensures
            sel@ == self@.line_sprites(y as int),
    {
        let h: usize = if self.lcdc & 4 != 0 {
            16
        } else {
            8
        };
        let mut sel: Vec<usize> = Vec::new();
        let mut i: usize = 0;
        while i < 40
            invariant
                i <= 40,
                y < HEIGHT,
                self@.wf(),
                h == self@.sprite_height(),
                sel@ == first_ten(self@.line_candidates(y as int, i as nat)),
            decreases 40 - i,
        {
            let sy = self.oam[i * 4] as usize;
            if y + 16 >= sy && y + 16 < sy + h && sel.len() < 10 {
                sel.push(i);
            }
            i += 1;
            assert(sel@ =~= first_ten(self@.line_candidates(y as int, i as nat)));
        }
        sel
    }

    /// The 2-bit color sprite `j` gives column `x` of line `y`.
    #[verifier::spinoff_prover]
    fn sprite_color(&self, j: usize, y: usize, x: usize) -> (c: u8)
        requires
            self@.wf(),
            j < 40,
            y < HEIGHT,
            x < WIDTH,
            self@.on_line(j as int, y as int),
        ensures
            c == self@.sprite_color_spec(j as int, y as int, x as int),
            c <= 3,
    {
        let flags = self.oam[j * 4 + 3];
        let ox = self.oam[j * 4 + 1] as usize;
        if !(x + 8 >= ox && x + 8 < ox + 8) {
            return 0;
        }
        let col = x + 8 - ox;
        let h: usize = if self.lcdc & 4 != 0 {
            16
        } else {
            8
        };
        let r = y + 16 - self.oam[j * 4] as usize;
        let row = if flags & 0x40 != 0 {
            h - 1 - r
        } else {
            r
        };
        let tile = if h == 16 {
            self.oam[j * 4 + 2] & 0xfe
        } else {
            self.oam[j * 4 + 2]
        };
        let bitx = if flags & 0x20 != 0 {
            7 - col
        } else {
            col
        };
        tile_pixel(&self.vram, tile as usize * 16 + row * 2, bitx as u8, 0)
    }

    /// The sprite of `sel` shown at column `x` of line `y` over background color `bgc`.
    #[verifier::spinoff_prover]
    fn top_sprite(&self, sel: &Vec<usize>, y: usize, x: usize, bgc: u8) -> (r: Option<usize>)
        requires
            self@.wf(),
            y < HEIGHT,
            x < WIDTH,
            sel@ == self@.line_sprites(y as int),
        ensures
            r == self@.top_sprite(sel@, sel@.len(), y as int, x as int, bgc),
            r matches Some(j) ==> j < 40 && self@.on_line(j as int, y as int),
    {
        proof {
            lemma_line_candidates(self@, y as int, 40);
        }
        let mut best: Option<usize> = None;
        let mut k: usize = 0;
        while k < sel.len()
            invariant
                k <= sel@.len(),
                self@.wf(),
                y < HEIGHT,
                x < WIDTH,
                sel@ == self@.line_sprites(y as int),
                forall|i: int|
                    0 <= i < sel@.len() ==> #[trigger] sel@[i] < 40 && self@.on_line(
                        sel@[i] as int,
                        y as int,
                    ),
                best == self@.top_sprite(sel@, k as nat, y as int, x as int, bgc),
                best matches Some(j) ==> j < 40 && self@.on_line(j as int, y as int),
            decreases sel@.len() - k,
        {
            let j = sel[k];
            let c = self.sprite_color(j, y, x);
            let shows = c != 0 && !(self.oam[j * 4 + 3] & 0x80 != 0 && bgc != 0);
            let before = match best {
                None => true,
                Some(b) => self.oam[j * 4 + 1] < self.oam[b * 4 + 1] || (self.oam[j * 4 + 1]
                    == self.oam[b * 4 + 1] && j < b),
            };
            if shows && before {
                best = Some(j);
            }
            k += 1;
        }
        best
    }
}

/// The 2-bit color of pixel (`x`, `y`) of the tile whose data starts at `base`.
#[verifier::spinoff_prover]
fn tile_pixel(vram: &[u8], base: usize, x: u8, y: u8) -> (c: u8)
    requires
        base < 0x10000,
        base + y * 2 + 1 < vram@.len(),
        x < 8,
        y < 8,
    ensures
        c == tile_pixel_spec(vram@, base as int, x, y),
        c <= 3,
{
    let i = base + y as usize * 2;
    let bit = 7 - x;
    proof {
        lemma_tile_pixel_bound(vram@[i as int], vram@[i + 1], bit);
    }
    ((vram[i] >> bit) & 1) | (((vram[i + 1] >> bit) & 1) << 1)
}

/// The shade palette register `p` assigns to a 2-bit color.
#[verifier::spinoff_prover]
fn palette(p: u8, color: u8) -> (v: u8)
    requires
        color <= 3,
    ensures
        v == palette_spec(p, color),
{
    (p >> (color * 2)) & 3
}

impl Default for Ppu {
    #[verifier::spinoff_prover]
    fn default() -> (p: Ppu)
        ensures
            p@.vram == Seq::new(0x2000, |i: int| 0u8),
            p@.oam == Seq::new(0xa0, |i: int| 0u8),
            p@.framebuffer == Seq::new(FRAME_LEN as nat, |i: int| 0u8),
            p.lcdc == 0x91 && p.stat == 0x80 && p.scy == 0 && p.scx == 0 && p.ly == 0,
            p.lyc == 0 && p.bgp == 0xfc && p.obp0 == 0xff && p.obp1 == 0xff,
            p.wy == 0 && p.wx == 0 && p.dots == 0 && p.window_line == 0 && !p.frame_ready,
            p@.wf(),
    {
        let p = Ppu {
            vram: [0; 0x2000],
            oam: [0; 0xa0],
            lcdc: 0x91,
            stat: 0x80,
            scy: 0,
            scx: 0,
            ly: 0,
            lyc: 0,
            bgp: 0xfc,
            obp0: 0xff,
            obp1: 0xff,
            wy: 0,
            wx: 0,
            dots: 0,
            window_line: 0,
            frame_ready: false,
            framebuffer: [0; FRAME_LEN],
        };
        assert(p@.vram =~= Seq::new(0x2000, |i: int| 0u8));
        assert(p@.oam =~= Seq::new(0xa0, |i: int| 0u8));
        assert(p@.framebuffer =~= Seq::new(FRAME_LEN as nat, |i: int| 0u8));
        p
    }
}

} // verus!
