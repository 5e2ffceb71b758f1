use vstd::prelude::*;

use crate::cartridge::{CartState, Cartridge};
use crate::joypad::Joypad;
use crate::ppu::{Ppu, PpuState};
use crate::timer::Timer;

verus! {

/// The abstract state of the memory bus and everything mapped on it.
pub struct BusState {
    pub cart: CartState,
    pub ppu: PpuState,
    pub timer: Timer,
    pub joypad: Joypad,
    pub wram: Seq<u8>,
    pub hram: Seq<u8>,
    pub io: Seq<u8>,
    pub interrupt_enable: u8,
    pub interrupt_flags: u8,
    pub serial: Seq<u8>,
    pub dma: Option<(u16, u16)>,
}

impl BusState {
    /// The components' invariants hold and a running OAM transfer has a source below 0xff01.
    pub open spec fn wf(self) -> bool {
        &&& self.ppu.wf()
        &&& self.timer.wf()
        &&& self.joypad.wf()
        &&& self.wram.len() == 0x2000
        &&& self.hram.len() == 0x7f
        &&& self.io.len() == 0x80
        &&& match self.dma {
            Some((src, n)) => src <= 0xff00,
            None => true,
        }
    }

    /// The byte a CPU read of `addr` returns.
    #[verifier::opaque]
    pub open spec fn read8_spec(self, addr: u16) -> u8 {
        if addr <= 0x7fff || (0xa000 <= addr <= 0xbfff) {
            self.cart.read_spec(addr)
        } else if addr <= 0x9fff {
            self.ppu.vram[addr - 0x8000]
        } else if addr <= 0xdfff {
            self.wram[addr - 0xc000]
        } else if addr <= 0xfdff {
            self.wram[addr - 0xe000]
        } else if addr <= 0xfe9f {
            self.ppu.oam[addr - 0xfe00]
        } else if addr <= 0xfeff {
            0xff
        } else if addr == 0xff00 {
            self.joypad.read_spec()
        } else if addr == 0xff04 {
            (self.timer.div / 256) as u8
        } else if addr == 0xff05 {
            self.timer.tima
        } else if addr == 0xff06 {
            self.timer.tma
        } else if addr == 0xff07 {
            self.timer.tac | 0xf8
        } else if addr == 0xff0f {
            self.interrupt_flags | 0xe0
        } else if addr == 0xff40 {
            self.ppu.lcdc
        } else if addr == 0xff41 {
            self.ppu.read_stat_spec()
        } else if addr == 0xff42 {
            self.ppu.scy
        } else if addr == 0xff43 {
            self.ppu.scx
        } else if addr == 0xff44 {
            self.ppu.ly
        } else if addr == 0xff45 {
            self.ppu.lyc
        } else if addr == 0xff47 {
            self.ppu.bgp
        } else if addr == 0xff48 {
            self.ppu.obp0
        } else if addr == 0xff49 {
            self.ppu.obp1
        } else if addr == 0xff4a {
            self.ppu.wy
        } else if addr == 0xff4b {
            self.ppu.wx
        } else if addr <= 0xff7f {
            self.io[addr - 0xff00]
        } else if addr <= 0xfffe {
            self.hram[addr - 0xff80]
        } else {
            self.interrupt_enable
        }
    }

    /// The state after a CPU write of `value` to `addr`.
    #[verifier::opaque]
    pub open spec fn write8_spec(self, addr: u16, value: u8) -> BusState {
        let ppu = self.ppu;
        if addr <= 0x7fff || (0xa000 <= addr <= 0xbfff) {
            BusState { cart: self.cart.write_spec(addr, value), ..self }
        } else if addr <= 0x9fff {
            BusState { ppu: PpuState { vram: ppu.vram.update(addr - 0x8000, value), ..ppu }, ..self }
        } else if addr <= 0xdfff {
            BusState { wram: self.wram.update(addr - 0xc000, value), ..self }
        } else if addr <= 0xfdff {
            BusState { wram: self.wram.update(addr - 0xe000, value), ..self }
        } else if addr <= 0xfe9f {
            BusState { ppu: PpuState { oam: ppu.oam.update(addr - 0xfe00, value), ..ppu }, ..self }
        } else if addr <= 0xfeff {
            self
        } else if addr == 0xff00 {
            BusState { joypad: self.joypad.write_spec(value), ..self }
        } else if addr == 0xff01 {
            BusState { io: self.io.update(1, value), ..self }
        } else if addr == 0xff02 {
            if value == 0x81 {
                BusState {
                    io: self.io.update(2, 1),
                    serial: self.serial.push(self.io[1]),
                    interrupt_flags: self.interrupt_flags | 8,
                    ..self
                }
            } else {
                BusState { io: self.io.update(2, value), ..self }
            }
        } else if addr == 0xff04 {
            BusState { timer: self.timer.write_div_spec(), ..self }
        } else if addr == 0xff05 {
            BusState { timer: Timer { tima: value, ..self.timer }, ..self }
        } else if addr == 0xff06 {
            BusState { timer: Timer { tma: value, ..self.timer }, ..self }
        } else if addr == 0xff07 {
            BusState { timer: self.timer.write_tac_spec(value), ..self }
        } else if addr == 0xff0f {
            BusState { interrupt_flags: value & 0x1f, ..self }
        } else if addr == 0xff40 {
            BusState { ppu: ppu.write_lcdc_spec(value), ..self }
        } else if addr == 0xff41 {
            BusState { ppu: PpuState { stat: value & 0x78, ..ppu }, ..self }
        } else if addr == 0xff42 {
            BusState { ppu: PpuState { scy: value, ..ppu }, ..self }
        } else if addr == 0xff43 {
            BusState { ppu: PpuState { scx: value, ..ppu }, ..self }
        } else if addr == 0xff44 {
            self
        } else if addr == 0xff45 {
            BusState { ppu: PpuState { lyc: value, ..ppu }, ..self }
        } else if addr == 0xff46 {
            BusState { dma: Some(((value as u16 * 256) as u16, 0u16)), ..self }
        } else if addr == 0xff47 {
            BusState { ppu: PpuState { bgp: value, ..ppu }, ..self }
        } else if addr == 0xff48 {
            BusState { ppu: PpuState { obp0: value, ..ppu }, ..self }
        } else if addr == 0xff49 {
            BusState { ppu: PpuState { obp1: value, ..ppu }, ..self }
        } else if addr == 0xff4a {
            BusState { ppu: PpuState { wy: value, ..ppu }, ..self }
        } else if addr == 0xff4b {
            BusState { ppu: PpuState { wx: value, ..ppu }, ..self }
        } else if addr <= 0xff7f {
            BusState { io: self.io.update(addr - 0xff00, value), ..self }
        } else if addr <= 0xfffe {
            BusState { hram: self.hram.update(addr - 0xff80, value), ..self }
        } else {
            BusState { interrupt_enable: value, ..self }
        }
    }

    /// The little-endian word at `a` and `a + 1` (wrapping).
    pub open spec fn read16_spec(self, a: u16) -> u16 {
        (self.read8_spec(a) + 256 * self.read8_spec(((a + 1) % 0x10000) as u16)) as u16
    }

    /// The state after writing the word `v` little-endian at `a` and `a + 1` (wrapping).
    pub open spec fn write16_spec(self, a: u16, v: u16) -> BusState {
        self.write8_spec(a, (v % 256) as u8).write8_spec(((a + 1) % 0x10000) as u16, (v / 256) as u8)
    }

    /// One machine cycle: the timer, the PPU and a running OAM transfer advance.
    #[verifier::opaque]
    pub open spec fn tick1_spec(self) -> BusState {
        let (timer, fired) = self.timer.tick_spec();
        let flags = if fired {
            self.interrupt_flags | 4
        } else {
            self.interrupt_flags
        };
        let (ppu, irq) = self.ppu.tick_spec();
        let b = BusState { timer, ppu, interrupt_flags: flags | irq, ..self };
        match b.dma {
            Some((src, n)) => {
                let copied = if n < 160 && n % 4 == 0 {
                    let byte = b.read8_spec((src + n / 4) as u16);
                    BusState { ppu: PpuState { oam: b.ppu.oam.update((n / 4) as int, byte), ..b.ppu }, ..b }
                } else {
                    b
                };
                BusState {
                    dma: if n >= 639 {
                        None
                    } else {
                        Some((src, (n + 1) as u16))
                    },
                    ..copied
                }
            },
            None => b,
        }
    }

    /// `n` machine cycles.
    pub open spec fn ticks_spec(self, n: nat) -> BusState
        decreases n,
    {
        if n == 0 {
            self
        } else {
            self.tick1_spec().ticks_spec((n - 1) as nat)
        }
    }
}

/// The Game Boy memory bus: cartridge, PPU, timer, joypad, work and high RAM,
/// I/O registers, interrupt registers, the serial output log and OAM DMA.
pub struct Bus {
    pub cart: Cartridge,
    pub ppu: Ppu,
    pub timer: Timer,
    pub joypad: Joypad,
    pub wram: [u8; 0x2000],
    pub hram: [u8; 0x7f],
    pub io: [u8; 0x80],
    pub interrupt_enable: u8,
    pub interrupt_flags: u8,
    pub serial: Vec<u8>,
    pub dma: Option<(u16, u16)>,
}

impl View for Bus {
    type V = BusState;

    open spec fn view(&self) -> BusState {
        BusState {
            cart: self.cart@,
            ppu: self.ppu@,
            timer: self.timer,
            joypad: self.joypad,
            wram: self.wram@,
            hram: self.hram@,
            io: self.io@,
            interrupt_enable: self.interrupt_enable,
            interrupt_flags: self.interrupt_flags,
            serial: self.serial@,
            dma: self.dma,
        }
    }
}

/// The bus right after power-on, holding cartridge `cart`.
pub open spec fn power_on_bus(cart: CartState) -> BusState {
    BusState {
        cart,
        ppu: PpuState {
            vram: Seq::new(0x2000, |i: int| 0u8),
            oam: Seq::new(0xa0, |i: int| 0u8),
            lcdc: 0x91,
            stat: 0x80,
            scy: 0,
            scx: 0,
            ly: 0,
            lyc: 0,
            bgp: 0xfc,
            obp0: 0xff,
            obp1: 0xff,
            wy: 0,
            wx: 0,
            dots: 0,
            window_line: 0,
            frame_ready: false,
            framebuffer: Seq::new(crate::ppu::FRAME_LEN as nat, |i: int| 0u8),
        },
        timer: Timer { div: 0, tima: 0, tma: 0, tac: 0, reload: None },
        joypad: Joypad::power_on(),
        wram: Seq::new(0x2000, |i: int| 0u8),
        hram: Seq::new(0x7f, |i: int| 0u8),
        io: Seq::new(0x80, |i: int| 0xffu8),
        interrupt_enable: 0,
        interrupt_flags: 0xe1,
        serial: Seq::empty(),
        dma: None,
    }
}

/// Whether `addr` is plain RAM on the bus: video RAM, work RAM, its echo, OAM or high RAM.
pub open spec fn is_ram(addr: u16) -> bool {
    (0x8000 <= addr <= 0x9fff) || (0xc000 <= addr <= 0xfdff) || (0xfe00 <= addr <= 0xfe9f) || (
    0xff80 <= addr <= 0xfffe)
}

/// The storage cell a RAM address selects: the echo range 0xe000-0xfdff names the work RAM
/// cell 0x2000 lower.
pub open spec fn ram_cell(addr: u16) -> int {
    if 0xe000 <= addr <= 0xfdff {
        addr - 0x2000
    } else {
        addr as int
    }
}

/// Law: the serial log only grows: a write appends SB's value exactly when it writes
/// 0x81 to SC (0xff02) and otherwise leaves the log as it is; a word write appends at
/// most one byte per half; machine cycles leave it unchanged (`lemma_ticks_set_flags`).
pub proof fn lemma_serial_log_grows(b: BusState, addr: u16, v: u8, w: u16)
    ensures
        b.write8_spec(addr, v).serial == if addr == 0xff02 && v == 0x81 {
            b.serial.push(b.read8_spec(0xff01))
        } else {
            b.serial
        },
        b.serial.is_prefix_of(b.write8_spec(addr, v).serial),
        b.serial.is_prefix_of(b.write16_spec(addr, w).serial),
{
    reveal(BusState::read8_spec);
    reveal(BusState::write8_spec);
    let next = ((addr + 1) % 0x10000) as u16;
    let b1 = b.write8_spec(addr, (w % 256) as u8);
    let b2 = b1.write8_spec(next, (w / 256) as u8);
    assert(b.serial.is_prefix_of(b1.serial));
    assert(b1.serial.is_prefix_of(b2.serial));
    assert(b.serial.is_prefix_of(b2.serial)) by {
        assert forall|i: int| 0 <= i < b.serial.len() implies b.serial[i] == b2.serial[i] by {
            assert(b.serial[i] == b1.serial[i]);
        }
    }
}

/// Machine cycles leave work RAM and high RAM as they were.
pub proof fn lemma_ticks_keep_ram(b: BusState, n: nat, a: u16)
    requires
        0xc000 <= a <= 0xdfff || 0xff80 <= a <= 0xfffe,
    ensures
        b.ticks_spec(n).read8_spec(a) == b.read8_spec(a),
    decreases n,
{
    if n > 0 {
        reveal(BusState::tick1_spec);
        reveal(BusState::read8_spec);
        lemma_ticks_keep_ram(b.tick1_spec(), (n - 1) as nat, a);
    }
}

/// Law: the I/O registers read back what the program wrote: TIMA, TMA, LCDC, SCY, SCX,
/// LYC, BGP, OBP0, OBP1, WY, WX and IE the whole byte, TAC its low three bits (the others
/// read 1) and IF its low five bits (the others read 1); a write to DIV makes it read 0
/// and a write to LY changes nothing.
pub proof fn lemma_io_registers(b: BusState, addr: u16, v: u8)
    ensures
        (addr == 0xff05 || addr == 0xff06 || addr == 0xff40 || addr == 0xff42 || addr == 0xff43
            || addr == 0xff45 || addr == 0xff47 || addr == 0xff48 || addr == 0xff49 || addr
            == 0xff4a || addr == 0xff4b || addr == 0xffff) ==> b.write8_spec(addr, v).read8_spec(
            addr,
        ) == v,
        b.write8_spec(0xff07, v).read8_spec(0xff07) == v % 8 + 0xf8,
        b.write8_spec(0xff0f, v).read8_spec(0xff0f) == v % 32 + 0xe0,
        b.write8_spec(0xff04, v).read8_spec(0xff04) == 0,
        b.write8_spec(0xff44, v) == b,
{
    reveal(BusState::read8_spec);
    reveal(BusState::write8_spec);
    assert((v & 7) | 0xf8 == v % 8 + 0xf8 && (v & 0x1f) | 0xe0 == v % 32 + 0xe0) by (bit_vector);
}

/// Facts about flag bytes that only gain bits 0-2.
proof fn lemma_flag_bits()
    ensures
        forall|f: u8, x: u8|
            #![trigger f | x]
            x <= 7 ==> (f | x) & f == f && ((f | x) & !f) & 0xf8 == 0,
        forall|f: u8, g: u8, h: u8|
            #![trigger g & f, h & g]
            g & f == f && (g & !f) & 0xf8 == 0 && h & g == g && (h & !g) & 0xf8 == 0 ==> h & f == f
                && (h & !f) & 0xf8 == 0,
        forall|f: u8, g: u8| #![trigger g & f] g == f ==> g & f == f && (g & !f) & 0xf8 == 0,
{
    assert({
        &&& (forall|f: u8, x: u8| #![trigger f | x] x <= 7 ==> (f | x) & f == f && ((f | x) & !f) & 0xf8 == 0)
        &&& (forall|f: u8, g: u8, h: u8|
            #![trigger g & f, h & g]
            g & f == f && (g & !f) & 0xf8 == 0 && h & g == g && (h & !g) & 0xf8 == 0 ==> h & f == f
                && (h & !f) & 0xf8 == 0)
        &&& (forall|f: u8, g: u8| #![trigger g & f] g == f ==> g & f == f && (g & !f) & 0xf8 == 0)
    }) by (bit_vector);
}

/// Law: machine cycles only ever set interrupt-flag bits 0-2 (vertical blank, STAT,
/// timer) and never clear one, and they leave the serial log as it is; zero cycles
/// change nothing.
pub proof fn lemma_ticks_set_flags(b: BusState, n: nat)
    ensures
        b.ticks_spec(n).interrupt_flags & b.interrupt_flags == b.interrupt_flags,
        (b.ticks_spec(n).interrupt_flags & !b.interrupt_flags) & 0xf8 == 0,
        b.ticks_spec(n).serial == b.serial,
        b.ticks_spec(0) == b,
    decreases n,
{
    lemma_flag_bits();
    let f = b.interrupt_flags;
    if n == 0 {
        let g = b.ticks_spec(0).interrupt_flags;
        assert(g & f == f && (g & !f) & 0xf8 == 0);
    } else {
        let b1 = b.tick1_spec();
        reveal(BusState::tick1_spec);
        crate::ppu::lemma_tick_irq_bits(b.ppu);
        let (timer, fired) = b.timer.tick_spec();
        let irq = b.ppu.tick_spec().1;
        let g0: u8 = if fired { f | 4 } else { f };
        let x: u8 = if fired { 4u8 | irq } else { irq };
        assert(b1.interrupt_flags == g0 | irq);
        let g = b1.interrupt_flags;
        assert(g & f == f && (g & !f) & 0xf8 == 0) by {
            if fired {
                assert((f | 4u8) & f == f && ((f | 4u8) & !f) & 0xf8 == 0);
                assert(((f | 4u8) | irq) & (f | 4u8) == (f | 4u8) && (((f | 4u8) | irq) & !(f
                    | 4u8)) & 0xf8 == 0);
            } else {
                assert((f | irq) & f == f && ((f | irq) & !f) & 0xf8 == 0);
            }
        }
        lemma_ticks_set_flags(b1, (n - 1) as nat);
        let h = b1.ticks_spec((n - 1) as nat).interrupt_flags;
        assert(h & g == g && (h & !g) & 0xf8 == 0);
    }
}

/// Law: a byte written to RAM reads back, and a write to one RAM cell leaves every other
/// RAM cell as it was.
pub proof fn lemma_ram_write_then_read(b: BusState, addr: u16, other: u16, v: u8)
    requires
        b.wf(),
        is_ram(addr),
        is_ram(other),
        ram_cell(addr) != ram_cell(other),
    ensures
        b.write8_spec(addr, v).read8_spec(addr) == v,
        b.write8_spec(addr, v).read8_spec(other) == b.read8_spec(other),
{
    reveal(BusState::read8_spec);
    reveal(BusState::write8_spec);
}

/// Law: the echo range 0xe000-0xfdff reads the work RAM 0x2000 below it.
pub proof fn lemma_echo_ram(b: BusState, addr: u16)
    requires
        0xe000 <= addr <= 0xfdff,
    ensures
        b.read8_spec(addr) == b.read8_spec((addr - 0x2000) as u16),
{
    reveal(BusState::read8_spec);
}

/// Law: a word written little-endian to RAM reads back.
pub proof fn lemma_word_write_then_read(b: BusState, addr: u16, v: u16)
    requires
        b.wf(),
        is_ram(addr),
        is_ram(((addr + 1) % 0x10000) as u16),
        ram_cell(addr) != ram_cell(((addr + 1) % 0x10000) as u16),
    ensures
        b.write16_spec(addr, v).read16_spec(addr) == v,
{
    let next = ((addr + 1) % 0x10000) as u16;
    let b1 = b.write8_spec(addr, (v % 256) as u8);
    lemma_ram_write_then_read(b, addr, next, (v % 256) as u8);
    lemma_write8_wf(b, addr, (v % 256) as u8);
    lemma_ram_write_then_read(b1, next, addr, (v / 256) as u8);
}

/// A write keeps the bus consistent.
pub proof fn lemma_write8_wf(b: BusState, addr: u16, v: u8)
    requires
        b.wf(),
    ensures
        b.write8_spec(addr, v).wf(),
{
    reveal(BusState::write8_spec);
    b.joypad.lemma_write_wf(v);
}

/// Law: sending a byte over the serial port (writing 0x81 to SC) appends SB to the serial
/// log, reports the transfer finished and requests the serial interrupt.
pub proof fn lemma_serial_transfer(b: BusState)
    requires
        b.wf(),
    ensures
        b.write8_spec(0xff02, 0x81).serial == b.serial.push(b.read8_spec(0xff01)),
        b.write8_spec(0xff02, 0x81).read8_spec(0xff02) == 1,
        b.write8_spec(0xff02, 0x81).interrupt_flags & 8 != 0,
{
    reveal(BusState::read8_spec);
    reveal(BusState::write8_spec);
    let f = b.interrupt_flags;
    assert((f | 8) & 8 != 0) by (bit_vector);
}

impl Bus {
    /// A bus with `cart` inserted and every other component in its power-on state.
    #[verifier::spinoff_prover]
    pub fn new(cart: Cartridge) -> (b: Bus)
        ensures
            b@ == power_on_bus(cart@),
            b@.wf(),
    {
        let b = Bus {
            cart,
            ppu: Ppu::default(),
            timer: Timer::default(),
            joypad: Joypad::default(),
            wram: [0; 0x2000],
            hram: [0; 0x7f],
            io: [0xff; 0x80],
            interrupt_enable: 0,
            interrupt_flags: 0xe1,
            serial: Vec::new(),
            dma: None,
        };
        assert(b@.wram =~= Seq::new(0x2000, |i: int| 0u8));
        assert(b@.hram =~= Seq::new(0x7f, |i: int| 0u8));
        assert(b@.io =~= Seq::new(0x80, |i: int| 0xffu8));
        assert(b@.ppu =~= power_on_bus(b@.cart).ppu);
        b
    }

    /// The bytes the program has sent over the serial port.
    #[verifier::spinoff_prover]
    pub fn serial_output(&self) -> (s: &[u8])
        ensures
            s@ == self@.serial,
    {
        self.serial.as_slice()
    }

    /// A CPU read.
    #[verifier::spinoff_prover]
    pub fn read8(&self, addr: u16) -> (r: u8)
        ensures
            r == self@.read8_spec(addr),
    {
        reveal(BusState::read8_spec);
        match addr {
            0x0000..=0x7fff | 0xa000..=0xbfff => self.cart.read(addr),
            0x8000..=0x9fff => self.ppu.vram[(addr - 0x8000) as usize],
            0xc000..=0xdfff => self.wram[(addr - 0xc000) as usize],
            0xe000..=0xfdff => self.wram[(addr - 0xe000) as usize],
            0xfe00..=0xfe9f => self.ppu.oam[(addr - 0xfe00) as usize],
            0xfea0..=0xfeff => 0xff,
            0xff00 => self.joypad.read(),
            0xff04 => self.timer.read_div(),
            0xff05 => self.timer.tima,
            0xff06 => self.timer.tma,
            0xff07 => self.timer.tac | 0xf8,
            0xff0f => self.interrupt_flags | 0xe0,
            0xff40 => self.ppu.lcdc,
            0xff41 => self.ppu.read_stat(),
            0xff42 => self.ppu.scy,
            0xff43 => self.ppu.scx,
            0xff44 => self.ppu.ly,
            0xff45 => self.ppu.lyc,
            0xff47 => self.ppu.bgp,
            0xff48 => self.ppu.obp0,
            0xff49 => self.ppu.obp1,
            0xff4a => self.ppu.wy,
            0xff4b => self.ppu.wx,
            0xff01..=0xff7f => self.io[(addr - 0xff00) as usize],
            0xff80..=0xfffe => self.hram[(addr - 0xff80) as usize],
            0xffff => self.interrupt_enable,
        }
    }

    /// A CPU write.
    #[verifier::spinoff_prover]
    pub fn write8(&mut self, addr: u16, value: u8)
        requires
            old(self)@.wf(),
        ensures
            final(self)@ == old(self)@.write8_spec(addr, value),
            final(self)@.wf(),
    {
        reveal(BusState::write8_spec);
        match addr {
            0x0000..=0x7fff | 0xa000..=0xbfff => self.cart.write(addr, value),
            0x8000..=0x9fff => self.ppu.vram[(addr - 0x8000) as usize] = value,
            0xc000..=0xdfff => self.wram[(addr - 0xc000) as usize] = value,
            0xe000..=0xfdff => self.wram[(addr - 0xe000) as usize] = value,
            0xfe00..=0xfe9f => self.ppu.oam[(addr - 0xfe00) as usize] = value,
            0xfea0..=0xfeff => {},
            0xff00 => self.joypad.write(value),
            0xff01 => self.io[1] = value,
            0xff02 => {
                self.io[2] = value;
                if value == 0x81 {
                    self.serial.push(self.io[1]);
                    self.io[2] = 1;
                    self.interrupt_flags |= 8;
                }
            },
            0xff04 => self.timer.write_div(),
            0xff05 => self.timer.tima = value,
            0xff06 => self.timer.tma = value,
            0xff07 => self.timer.write_tac(value),
            0xff0f => self.interrupt_flags = value & 0x1f,
            0xff40 => self.ppu.write_lcdc(value),
            0xff41 => self.ppu.stat = value & 0x78,
            0xff42 => self.ppu.scy = value,
            0xff43 => self.ppu.scx = value,
            0xff44 => {},
            0xff45 => self.ppu.lyc = value,
            0xff46 => self.dma = Some(((value as u16) * 256, 0)),
            0xff47 => self.ppu.bgp = value,
            0xff48 => self.ppu.obp0 = value,
            0xff49 => self.ppu.obp1 = value,
            0xff4a => self.ppu.wy = value,
            0xff4b => self.ppu.wx = value,
            0xff03..=0xff7f => self.io[(addr - 0xff00) as usize] = value,
            0xff80..=0xfffe => self.hram[(addr - 0xff80) as usize] = value,
            0xffff => self.interrupt_enable = value,
        }
        proof {
            let o = old(self)@;
            if addr == 0xff02 {
                assert(self@.io =~= o.write8_spec(addr, value).io);
            }
        }
    }

    /// The little-endian word at `a`.
    #[verifier::spinoff_prover]
    pub fn read16(&self, a: u16) -> (r: u16)
        ensures
            r == self@.read16_spec(a),
    {
        self.read8(a) as u16 + (self.read8(a.wrapping_add(1)) as u16) * 256
    }

    /// Writes the word `v` little-endian at `a`.
    #[verifier::spinoff_prover]
    pub fn write16(&mut self, a: u16, v: u16)
        requires
            old(self)@.wf(),
        ensures
            final(self)@ == old(self)@.write16_spec(a, v),
            final(self)@.wf(),
    {
        self.write8(a, (v % 256) as u8);
        self.write8(a.wrapping_add(1), (v / 256) as u8);
    }

    /// Runs `cycles` machine cycles of the timer, the PPU and OAM DMA, collecting
    /// the interrupts they raise in IF.
    #[verifier::spinoff_prover]
    pub fn tick(&mut self, cycles: u8)
        requires
            old(self)@.wf(),
        ensures
            final(self)@ == old(self)@.ticks_spec(cycles as nat),
            final(self)@.wf(),
    {
        let mut i: u8 = 0;
        while i < cycles
            invariant
                i <= cycles,
                self@.wf(),
                old(self)@.ticks_spec(cycles as nat) == self@.ticks_spec((cycles - i) as nat),
            decreases cycles - i,
        {
            let ghost before = self@;
            proof {
                reveal(BusState::tick1_spec);
            }
            if self.timer.tick() {
                self.interrupt_flags |= 4
            }
            let irq = self.ppu.tick();
            self.interrupt_flags |= irq;
            if let Some((src, n)) = self.dma {
                if n < 160 && n % 4 == 0 {
                    let b = self.read8(src + n / 4);
                    self.ppu.oam[(n / 4) as usize] = b;
                }
                self.dma = if n >= 639 {
                    None
                } else {
                    Some((src, n + 1))
                };
            }
            assert(self@ == before.tick1_spec());
            i += 1;
        }
    }
}

} // verus!
