//! An NES (NTSC 2A03 / 2C02) emulator core for iNES mapper 0 (NROM) cartridges.

use vstd::prelude::*;

pub mod bus;
pub mod cartridge;
pub mod controller;
pub mod cpu;
pub mod ppu;

pub use cartridge::{NesCartState, RomError, parse_spec};

use bus::{Bus, NesBusState, power_on_nes_bus};
use cartridge::Cartridge;
use cpu::Cpu;
use ppu::NesPpuState;

verus! {

/// Pixels per line.
pub const WIDTH: usize = 256;

/// Lines per frame.
pub const HEIGHT: usize = 240;

/// The abstract state of the machine.
pub struct NesState {
    pub cpu: Cpu,
    pub bus: NesBusState,
}

impl NesState {
    /// The state after one processor step.
    pub open spec fn step_spec(self) -> NesState {
        let (cpu, bus) = self.cpu.step_spec(self.bus);
        NesState { cpu, bus }
    }

    /// Steps, at most `fuel` times, until the PPU reports a finished frame.
    pub open spec fn run_spec(self, fuel: nat) -> Option<NesState>
        decreases fuel,
    {
        if self.bus.ppu.frame_ready {
            Some(self)
        } else if fuel == 0 {
            None
        } else {
            self.step_spec().run_spec((fuel - 1) as nat)
        }
    }

    /// The state after `k` processor steps.
    pub open spec fn iterate(self, k: nat) -> NesState
        decreases k,
    {
        if k == 0 {
            self
        } else {
            self.step_spec().iterate((k - 1) as nat)
        }
    }

    /// The state with the frame-ready flag cleared.
    pub open spec fn frame_cleared(self) -> NesState {
        NesState { bus: NesBusState { ppu: NesPpuState { frame_ready: false, ..self.bus.ppu }, ..self.bus }, ..self }
    }

    /// Whether the next frame completes.
    pub open spec fn completes_frame(self) -> bool {
        exists|fuel: nat| self.frame_cleared().run_spec(fuel) is Some
    }

    /// The state when the next frame is finished.
    pub open spec fn run_frame_spec(self) -> NesState {
        self.frame_cleared().run_spec(
            choose|fuel: nat| self.frame_cleared().run_spec(fuel) is Some,
        ).unwrap()
    }

    /// The machine after controller 1 button `button` is pressed (`down`) or released;
    /// numbers from 8 on change nothing.
    pub open spec fn with_button(self, button: usize, down: bool) -> NesState {
        if button < 8 {
            NesState {
                bus: NesBusState {
                    pad: controller::ControllerState {
                        buttons: self.bus.pad.buttons.update(button as int, down),
                        ..self.bus.pad
                    },
                    ..self.bus
                },
                ..self
            }
        } else {
            self
        }
    }

    /// The machine after power-on and reset with cartridge `cart`.
    pub open spec fn boot(cart: cartridge::NesCartState) -> NesState {
        let (cpu, bus) = (Cpu { a: 0, x: 0, y: 0, s: 0, p: 0, pc: 0 }).reset_spec(
            power_on_nes_bus(cart),
        );
        NesState { cpu, bus }
    }
}

/// `k + 1` steps are `k` steps followed by one more.
proof fn lemma_iterate_split(s: NesState, k: nat)
    ensures
        s.iterate(k + 1) == s.iterate(k).step_spec(),
    decreases k,
{
    reveal_with_fuel(NesState::iterate, 2);
    if k > 0 {
        lemma_iterate_split(s.step_spec(), (k - 1) as nat);
    }
}

/// When the first ready state among the iterates is the `k`-th, running with fuel `k`
/// finds it.
proof fn lemma_run_finds(s: NesState, k: nat)
    requires
        s.iterate(k).bus.ppu.frame_ready,
        forall|j: nat| j < k ==> !(#[trigger] s.iterate(j)).bus.ppu.frame_ready,
    ensures
        s.run_spec(k) == Some(s.iterate(k)),
    decreases k,
{
    if k > 0 {
        assert(!s.iterate(0).bus.ppu.frame_ready);
        assert forall|j: nat| j < k - 1 implies !(#[trigger] s.step_spec().iterate(j)).bus.ppu.frame_ready by {
            assert(s.iterate(j + 1) == s.step_spec().iterate(j));
        }
        assert(s.iterate(k) == s.step_spec().iterate((k - 1) as nat));
        lemma_run_finds(s.step_spec(), (k - 1) as nat);
    }
}

/// Any two fuels that find a frame find the same state.
proof fn lemma_run_unique(s: NesState, f1: nat, f2: nat)
    requires
        s.run_spec(f1) is Some,
        s.run_spec(f2) is Some,
    ensures
        s.run_spec(f1) == s.run_spec(f2),
    decreases f1,
{
    if !s.bus.ppu.frame_ready && f1 > 0 && f2 > 0 {
        lemma_run_unique(s.step_spec(), (f1 - 1) as nat, (f2 - 1) as nat);
    }
}

/// A step from a state that is not ready either finishes the frame or brings vertical
/// blank closer.
proof fn lemma_step_progress(before: NesPpuState, after: NesPpuState)
    requires
        !before.frame_ready,
        exists|q: NesPpuState, m: nat|
            q.wf() && q.same_beam(before) && 3 <= m <= 1539 && after == bus::ppu_ticks(q, m),
    ensures
        after.frame_ready || after.dots_to_vblank() < before.dots_to_vblank(),
{
    let (q, m) = choose|q: NesPpuState, m: nat|
        q.wf() && q.same_beam(before) && 3 <= m <= 1539 && after == bus::ppu_ticks(q, m);
    bus::lemma_ticks_frame(q, m);
}

/// Law: after `set_button(button, down)`, a program that strobes controller 1 reads
/// `down` for that button, at its place in the order right, left, up, down, A, B,
/// select, start, and the other buttons as they were.
pub proof fn lemma_set_button_reads(s: NesState, button: usize, down: bool, k: nat)
    requires
        s.bus.pad.buttons.len() == 8,
        button < 8,
    ensures
        ({
            let b = s.with_button(button, down).bus.write_spec(0x4016, 1).write_spec(0x4016, 0);
            let held = if k == button { down } else { k < 8 && s.bus.pad.buttons[k as int] };
            bus::port_reads(b, k).read_spec(0x4016).1 == 0x40 + if k >= 8 || held {
                1int
            } else {
                0
            }
        }),
{
    bus::lemma_port_reports_buttons(s.with_button(button, down).bus, k);
}

/// An NES with an NROM cartridge inserted.
pub struct Emulator {
    cpu: Cpu,
    bus: Bus,
}

impl View for Emulator {
    type V = NesState;

    closed spec fn view(&self) -> NesState {
        NesState { cpu: self.cpu, bus: self.bus@ }
    }
}

impl Emulator {
    /// Whether the machine's components are consistent.
    pub closed spec fn wf(self) -> bool {
        self.bus@.wf()
    }

    /// Loads an iNES image and resets the machine.
    pub fn new(rom: &[u8]) -> (r: Result<Emulator, RomError>)
        ensures
            match (r, parse_spec(rom@)) {
                (Ok(e), Ok(cart)) => e@ == NesState::boot(cart) && e.wf(),
                (Err(e), Err(f)) => e == f,
                _ => false,
            },
    {
        let cart = match Cartridge::new(rom) {
            Ok(c) => c,
            Err(e) => return Err(e),
        };
        let mut bus = Bus::new(cart);
        let mut cpu = Cpu::default();
        cpu.reset(&mut bus);
        Ok(Emulator { cpu, bus })
    }

    /// Runs until the PPU finishes a frame; every frame finishes, since the PPU's beam
    /// advances on every step and reaches vertical blank within a frame's worth of dots.
    pub fn run_frame(&mut self)
        requires
            old(self).wf(),
        ensures
            old(self)@.completes_frame(),
            final(self)@ == old(self)@.run_frame_spec(),
            final(self).wf(),
    {
        self.bus.ppu.frame_ready = false;
        let ghost start = self@;
        assert(start == old(self)@.frame_cleared());
        let ghost mut k: nat = 0;
        while !self.bus.ppu.frame_ready
            invariant
                self.wf(),
                self@ == start.iterate(k),
                forall|j: nat| j < k ==> !(#[trigger] start.iterate(j)).bus.ppu.frame_ready,
            decreases if self@.bus.ppu.frame_ready {
                0
            } else {
                self@.bus.ppu.dots_to_vblank() + 1
            },
        {
            let ghost before = self@;
            self.cpu.step(&mut self.bus);
            proof {
                lemma_iterate_split(start, k);
                lemma_step_progress(before.bus.ppu, self@.bus.ppu);
                assert forall|j: nat| j < k + 1 implies !(#[trigger] start.iterate(j)).bus.ppu.frame_ready by {
                    if j == k {
                        assert(start.iterate(j) == before);
                    }
                }
                k = k + 1;
            }
        }
        proof {
            lemma_run_finds(start, k);
            let fuel = choose|fuel: nat| start.run_spec(fuel) is Some;
            lemma_run_unique(start, k, fuel);
        }
    }

    /// The last frame: one palette index (0-63) per pixel, row by row.
    pub fn framebuffer(&self) -> (f: &[u8])
        ensures
            f@ == self@.bus.ppu.frame,
    {
        self.bus.ppu.frame.as_slice()
    }

    /// Presses or releases controller 1 button `button` (0 right, 1 left, 2 up, 3 down,
    /// 4 A, 5 B, 6 select, 7 start); other numbers are ignored.
    pub fn set_button(&mut self, button: usize, down: bool)
        requires
            old(self).wf(),
        ensures
            final(self)@ == old(self)@.with_button(button, down),
            final(self).wf(),
    {
        if button < 8 {
            self.bus.pad.buttons[button] = down;
        }
    }

    /// The program counter.
    pub fn pc(&self) -> (pc: u16)
        ensures
            pc == self@.cpu.pc,
    {
        self.cpu.pc
    }
}

} // verus!
