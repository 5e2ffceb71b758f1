use vstd::prelude::*;

use crate::bus::{Bus, BusState, power_on_bus};
use crate::cartridge::{Cartridge, CartState};
use crate::cpu::Cpu;
use crate::ppu::{PpuState, FRAME_LEN};
use crate::verdict::{Verdict, frames_complete, run_frames, verdict};

verus! {

/// Machine cycles in one frame (154 lines of 456 dots).
pub const FRAME_CYCLES: u32 = 70_224;

/// A joypad button.
#[derive(Clone, Copy, Debug)]
pub enum Button {
    Right,
    Left,
    Up,
    Down,
    A,
    B,
    Select,
    Start,
}

impl Button {
    /// The button's bit in the joypad state: directions 0-3, then A, B, select, start.
    pub open spec fn bit_spec(self) -> u8 {
        match self {
            Button::Right => 0,
            Button::Left => 1,
            Button::Up => 2,
            Button::Down => 3,
            Button::A => 4,
            Button::B => 5,
            Button::Select => 6,
            Button::Start => 7,
        }
    }

    /// The button's bit in the joypad state.
    pub fn bit(self) -> (b: u8)
        ensures
            b == self.bit_spec(),
            b < 8,
    {
        match self {
            Button::Right => 0,
            Button::Left => 1,
            Button::Up => 2,
            Button::Down => 3,
            Button::A => 4,
            Button::B => 5,
            Button::Select => 6,
            Button::Start => 7,
        }
    }
}

/// The abstract state of the whole machine.
pub struct EmuState {
    pub cpu: Cpu,
    pub bus: BusState,
    pub cycles: u64,
}

impl EmuState {
    /// One processor step: the new state and the cycles taken.
    pub open spec fn step_spec(self) -> (EmuState, u8) {
        let (cpu, bus, n) = self.cpu.step_spec(self.bus);
        (EmuState { cpu, bus, cycles: (self.cycles + n) as u64 }, n)
    }

    /// Whether the cycle counter stays in range through the next step.
    pub open spec fn step_fits(self) -> bool {
        self.cycles + self.step_spec().1 <= u64::MAX
    }

    /// The state with the frame-ready flag cleared.
    pub open spec fn frame_taken(self) -> EmuState {
        EmuState { bus: BusState { ppu: PpuState { frame_ready: false, ..self.bus.ppu }, ..self.bus }, ..self }
    }

    /// The machine just after power-on with a cartridge whose state is `cart`.
    pub open spec fn boot(cart: CartState) -> EmuState {
        EmuState { cpu: Cpu::boot_state(), bus: power_on_bus(cart), cycles: 0 }
    }

    /// The machine after `button` is pressed (`down`) or released; a joypad line newly
    /// pulled low requests the joypad interrupt.
    pub open spec fn with_button(self, button: Button, down: bool) -> EmuState {
        let (joypad, irq) = self.bus.joypad.set_spec(button.bit_spec(), down);
        EmuState {
            bus: BusState {
                joypad,
                interrupt_flags: if irq {
                    self.bus.interrupt_flags | 0x10
                } else {
                    self.bus.interrupt_flags
                },
                ..self.bus
            },
            ..self
        }
    }

    /// Steps until a frame completes, within `fuel` steps: the state then, or `None`
    /// when no frame completes in time or the cycle counter would overflow first.
    pub open spec fn run_spec(self, fuel: nat) -> Option<EmuState>
        decreases fuel,
    {
        if fuel == 0 || !self.step_fits() {
            None
        } else {
            let s1 = self.step_spec().0;
            if s1.bus.ppu.frame_ready {
                Some(s1.frame_taken())
            } else {
                s1.frame_taken().run_spec((fuel - 1) as nat)
            }
        }
    }

    /// Whether some frame completes from this state.
    pub open spec fn completes_frame(self) -> bool {
        exists|fuel: nat| self.run_spec(fuel) is Some
    }

    /// The state right after the next frame completes.
    pub open spec fn run_frame_spec(self) -> EmuState {
        self.run_spec(choose|fuel: nat| self.run_spec(fuel) is Some).unwrap()
    }
}

/// A Game Boy: processor, bus and the count of machine cycles run.
pub struct Emulator {
    pub cpu: Cpu,
    pub bus: Bus,
    cycles: u64,
}

impl View for Emulator {
    type V = EmuState;

    closed spec fn view(&self) -> EmuState {
        EmuState { cpu: self.cpu, bus: self.bus@, cycles: self.cycles }
    }
}

impl Emulator {
    /// Whether the machine's components are consistent.
    pub closed spec fn wf(self) -> bool {
        self.bus@.wf()
    }

    /// A machine with `cart` inserted, in the state the boot ROM leaves behind.
    pub fn new(cart: Cartridge) -> (e: Emulator)
        ensures
            e@ == EmuState::boot(cart@),
            e.wf(),
    {
        Emulator { cpu: Cpu::default(), bus: Bus::new(cart), cycles: 0 }
    }

    /// Runs one processor step; returns the cycles it took.
    pub fn step(&mut self) -> (n: u8)
        requires
            old(self).wf(),
            old(self)@.step_fits(),
        ensures
            (final(self)@, n) == old(self)@.step_spec(),
            final(self).wf(),
            crate::cpu::valid_cycles(n),
    {
        proof {
            crate::cpu::lemma_step_cycles(self.cpu, self.bus@);
        }
        let c = self.cpu.step(&mut self.bus);
        self.cycles += c as u64;
        c
    }

    /// Runs until the PPU completes a frame.
    pub fn run_frame(&mut self)
        requires
            old(self).wf(),
            old(self)@.completes_frame(),
        ensures
            final(self)@ == old(self)@.run_frame_spec(),
            final(self).wf(),
    {
        let ghost fuel = choose|fuel: nat| old(self)@.run_spec(fuel) is Some;
        let ghost k: nat = 0;
        loop
            invariant_except_break
                k <= fuel,
                self@.run_spec((fuel - k) as nat) == old(self)@.run_spec(fuel),
            invariant
                self.wf(),
                old(self)@.run_spec(fuel) is Some,
            ensures
                Some(self@) == old(self)@.run_spec(fuel),
            decreases fuel - k,
        {
            self.step();
            let ready = self.bus.ppu.take_frame_ready();
            proof {
                k = k + 1;
            }
            if ready {
                break;
            }
        }
    }

    /// The last completed frame: one shade (0-3) per pixel, row by row.
    pub fn framebuffer(&self) -> (f: &[u8; FRAME_LEN])
        ensures
            f@ == self@.bus.ppu.framebuffer,
    {
        self.bus.ppu.framebuffer()
    }

    /// Presses or releases a button; a newly low joypad line requests the joypad interrupt.
    pub fn set_button(&mut self, button: Button, down: bool)
        requires
            old(self).wf(),
        ensures
            final(self)@ == old(self)@.with_button(button, down),
            final(self).wf(),
    {
        if self.bus.joypad.set(button.bit(), down) {
            self.bus.interrupt_flags |= 0x10
        }
    }

    /// The machine cycles run so far.
    pub fn cycles(&self) -> (n: u64)
        ensures
            n == self@.cycles,
    {
        self.cycles
    }
}

/// Runs frames until the program prints "Passed" or "Failed", at most `limit` frames;
/// returns the verdict, or `None` when none came within the limit.
pub fn run_until_verdict(emu: &mut Emulator, limit: u64) -> (v: Option<Verdict>)
    requires
        old(emu).wf(),
        frames_complete(old(emu)@, limit as nat),
    ensures
        final(emu).wf(),
        (final(emu)@, v) == run_frames(old(emu)@, limit as nat),
{
    let mut left = limit;
    while left > 0
        invariant
            emu.wf(),
            frames_complete(emu@, left as nat),
            run_frames(emu@, left as nat) == run_frames(old(emu)@, limit as nat),
        decreases left,
    {
        emu.run_frame();
        let v = verdict(emu.bus.serial_output());
        if v.is_some() {
            return v;
        }
        left = left - 1;
    }
    None
}

} // verus!
