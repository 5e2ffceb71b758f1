//! The browser front end's logic: choosing a system by name, mapping button names,
//! and turning a frame of palette indices into RGBA pixels.

use vstd::prelude::*;

use crate::cartridge::{Cartridge, CartridgeError, from_bytes_spec, loadable};
use crate::emulator::{Button, EmuState, Emulator as GbEmulator};
use crate::nes::{Emulator as NesEmulator, NesState, RomError, parse_spec};

verus! {

/// The NES's 64 colours as RGB.
pub const NES_PALETTE: [[u8; 3]; 64] = [
    [84, 84, 84],
    [0, 30, 116],
    [8, 16, 144],
    [48, 0, 136],
    [68, 0, 100],
    [92, 0, 48],
    [84, 4, 0],
    [60, 24, 0],
    [32, 42, 0],
    [8, 58, 0],
    [0, 64, 0],
    [0, 60, 0],
    [0, 50, 60],
    [0, 0, 0],
    [0, 0, 0],
    [0, 0, 0],
    [152, 150, 152],
    [8, 76, 196],
    [48, 50, 236],
    [92, 30, 228],
    [136, 20, 176],
    [160, 20, 100],
    [152, 34, 32],
    [120, 60, 0],
    [84, 90, 0],
    [40, 114, 0],
    [8, 124, 0],
    [0, 118, 40],
    [0, 102, 120],
    [0, 0, 0],
    [0, 0, 0],
    [0, 0, 0],
    [236, 238, 236],
    [76, 154, 236],
    [120, 124, 236],
    [176, 98, 236],
    [228, 84, 236],
    [236, 88, 180],
    [236, 106, 100],
    [212, 136, 32],
    [160, 170, 0],
    [116, 196, 0],
    [76, 208, 32],
    [56, 204, 108],
    [56, 180, 204],
    [60, 60, 60],
    [0, 0, 0],
    [0, 0, 0],
    [236, 238, 236],
    [168, 204, 236],
    [188, 188, 236],
    [212, 178, 236],
    [236, 174, 236],
    [236, 174, 212],
    [236, 180, 176],
    [228, 196, 144],
    [204, 210, 120],
    [180, 222, 120],
    [168, 226, 144],
    [152, 226, 180],
    [160, 214, 228],
    [160, 162, 160],
    [0, 0, 0],
    [0, 0, 0],
];

/// Game Boy shades 0-3 as RGB, lightest first.
pub const GAME_BOY_PALETTE: [[u8; 3]; 4] = [[224, 248, 208], [136, 192, 112], [52, 104, 86], [8, 24, 32]];

/// Whether two strings hold the same characters.
fn same_text(name: &str, word: &str) -> (r: bool)
    ensures
        r == (name@ == word@),
{
    let n = name.unicode_len();
    if n != word.unicode_len() {
        return false;
    }
    let mut i: usize = 0;
    while i < n
        invariant
            n == name@.len(),
            n == word@.len(),
            i <= n,
            forall|j: int| 0 <= j < i ==> name@[j] == word@[j],
        decreases n - i,
    {
        if name.get_char(i) != word.get_char(i) {
            return false;
        }
        i = i + 1;
    }
    assert(name@ =~= word@);
    true
}

/// An emulated console.
#[derive(Clone, Copy, PartialEq, Eq, Structural, Debug)]
pub enum System {
    Nes,
    GameBoy,
}

impl System {
    /// The system a name picks: "nes" or "gb".
    pub open spec fn named(name: Seq<char>) -> Option<System> {
        if name == "nes"@ {
            Some(System::Nes)
        } else if name == "gb"@ {
            Some(System::GameBoy)
        } else {
            None
        }
    }

    /// Picks a system by name; `None` for any other name.
    pub fn parse(name: &str) -> (r: Option<System>)
        ensures
            r == System::named(name@),
    {
        if same_text(name, "nes") {
            Some(System::Nes)
        } else if same_text(name, "gb") {
            Some(System::GameBoy)
        } else {
            None
        }
    }

    /// The system's screen: its size, palette and the bits of a pixel that index it.
    pub fn video_spec(self) -> (v: VideoSpec)
        ensures
            v.wf(),
            self == System::Nes ==> v.width == 256 && v.height == 240 && v.palette@ == NES_PALETTE@
                && v.pixel_mask == 0x3f,
            self == System::GameBoy ==> v.width == 160 && v.height == 144 && v.palette@
                == GAME_BOY_PALETTE@ && v.pixel_mask == 0x03,
    {
        match self {
            System::Nes => VideoSpec { width: 256, height: 240, palette: &NES_PALETTE, pixel_mask: 0x3f },
            System::GameBoy => VideoSpec {
                width: 160,
                height: 144,
                palette: &GAME_BOY_PALETTE,
                pixel_mask: 0x03,
            },
        }
    }
}

/// A screen's geometry and colours.
#[derive(Clone, Copy)]
pub struct VideoSpec {
    pub width: u32,
    pub height: u32,
    pub palette: &'static [[u8; 3]],
    pub pixel_mask: u8,
}

impl VideoSpec {
    /// Whether every masked pixel value has a colour and a frame of RGBA bytes fits in memory.
    pub open spec fn wf(self) -> bool {
        &&& self.pixel_mask < self.palette@.len()
        &&& self.width * self.height * 4 <= usize::MAX
    }

    /// Pixels per frame.
    pub fn pixel_count(self) -> (n: usize)
        requires
            self.width * self.height <= usize::MAX,
        ensures
            n == self.width * self.height,
    {
        self.width as usize * self.height as usize
    }

    /// The RGBA bytes of a frame of palette indices: four per pixel, alpha opaque.
    pub open spec fn rgba_of(self, pixels: Seq<u8>) -> Seq<u8> {
        Seq::new(
            pixels.len() * 4,
            |k: int|
                if k % 4 == 3 {
                    0xffu8
                } else {
                    self.palette@[(pixels[k / 4] & self.pixel_mask) as int][k % 4]
                },
        )
    }
}

/// The RGBA picture handed to the browser.
pub struct VideoFrame {
    pub spec: VideoSpec,
    pub rgba: Vec<u8>,
}

impl VideoFrame {
    /// Whether the buffer holds one RGBA quadruple per pixel.
    pub open spec fn wf(self) -> bool {
        &&& self.spec.wf()
        &&& self.rgba@.len() == self.spec.width * self.spec.height * 4
    }

    /// A black, transparent frame for `spec`.
    pub fn new(spec: VideoSpec) -> (f: VideoFrame)
        requires
            spec.wf(),
        ensures
            f.wf(),
            f.spec == spec,
            f.rgba@ == Seq::new((spec.width * spec.height * 4) as nat, |i: int| 0u8),
    {
        assert(spec.width * spec.height <= spec.width * spec.height * 4) by (nonlinear_arith);
        let n = spec.pixel_count() * 4;
        let mut rgba: Vec<u8> = Vec::new();
        while rgba.len() < n
            invariant
                rgba@.len() <= n,
                forall|i: int| 0 <= i < rgba@.len() ==> rgba@[i] == 0,
            decreases n - rgba@.len(),
        {
            rgba.push(0);
        }
        assert(rgba@ =~= Seq::new((spec.width * spec.height * 4) as nat, |i: int| 0u8));
        VideoFrame { spec, rgba }
    }

    /// Pixels per line.
    pub fn width(&self) -> (w: u32)
        ensures
            w == self.spec.width,
    {
        self.spec.width
    }

    /// Lines per frame.
    pub fn height(&self) -> (h: u32)
        ensures
            h == self.spec.height,
    {
        self.spec.height
    }

    /// Colours a frame of palette indices into the RGBA buffer.
    pub fn update(&mut self, pixels: &[u8])
        requires
            old(self).wf(),
            pixels@.len() == old(self).spec.width * old(self).spec.height,
        ensures
            final(self).wf(),
            final(self).spec == old(self).spec,
            final(self).rgba@ == old(self).spec.rgba_of(pixels@),
    {
        let ghost target = self.spec.rgba_of(pixels@);
        let n = pixels.len();
        let mut i: usize = 0;
        while i < n
            invariant
                n == pixels@.len(),
                self.wf(),
                self.spec == old(self).spec,
                target == self.spec.rgba_of(pixels@),
                self.rgba@.len() == n * 4,
                i <= n,
                forall|k: int| 0 <= k < i * 4 ==> self.rgba@[k] == target[k],
            decreases n - i,
        {
            let p = pixels[i];
            let mask = self.spec.pixel_mask;
            assert(p & mask <= mask) by (bit_vector);
            let idx = (p & mask) as usize;
            let color = self.spec.palette[idx];
            let k = i * 4;
            self.rgba.set(k, color[0]);
            self.rgba.set(k + 1, color[1]);
            self.rgba.set(k + 2, color[2]);
            self.rgba.set(k + 3, 0xff);
            proof {
                assert forall|j: int| 0 <= j < (i + 1) * 4 implies self.rgba@[j] == target[j] by {
                    if j >= i * 4 {
                        assert(j / 4 == i && j % 4 == j - i * 4);
                    }
                }
            }
            i = i + 1;
        }
        assert(self.rgba@ =~= target);
    }

    /// A copy of the RGBA buffer.
    pub fn rgba(&self) -> (v: Vec<u8>)
        ensures
            v@ == self.rgba@,
    {
        let v = self.rgba.clone();
        assert(v@ =~= self.rgba@);
        v
    }
}

/// A button named by the page.
#[derive(Clone, Copy, PartialEq, Eq, Structural, Debug)]
pub enum ButtonName {
    A,
    B,
    Select,
    Start,
    Up,
    Down,
    Left,
    Right,
}

impl ButtonName {
    /// The button a name picks: "a", "b", "select", "start", "up", "down", "left", "right".
    pub open spec fn named(name: Seq<char>) -> Option<ButtonName> {
        if name == "a"@ {
            Some(ButtonName::A)
        } else if name == "b"@ {
            Some(ButtonName::B)
        } else if name == "select"@ {
            Some(ButtonName::Select)
        } else if name == "start"@ {
            Some(ButtonName::Start)
        } else if name == "up"@ {
            Some(ButtonName::Up)
        } else if name == "down"@ {
            Some(ButtonName::Down)
        } else if name == "left"@ {
            Some(ButtonName::Left)
        } else if name == "right"@ {
            Some(ButtonName::Right)
        } else {
            None
        }
    }

    /// Picks a button by name; `None` for any other name.
    pub fn parse(name: &str) -> (r: Option<ButtonName>)
        ensures
            r == ButtonName::named(name@),
    {
        if same_text(name, "a") {
            Some(ButtonName::A)
        } else if same_text(name, "b") {
            Some(ButtonName::B)
        } else if same_text(name, "select") {
            Some(ButtonName::Select)
        } else if same_text(name, "start") {
            Some(ButtonName::Start)
        } else if same_text(name, "up") {
            Some(ButtonName::Up)
        } else if same_text(name, "down") {
            Some(ButtonName::Down)
        } else if same_text(name, "left") {
            Some(ButtonName::Left)
        } else if same_text(name, "right") {
            Some(ButtonName::Right)
        } else {
            None
        }
    }

    /// The NES controller bit: right, left, up, down, A, B, select, start.
    pub open spec fn nes_index_spec(self) -> usize {
        match self {
            ButtonName::Right => 0,
            ButtonName::Left => 1,
            ButtonName::Up => 2,
            ButtonName::Down => 3,
            ButtonName::A => 4,
            ButtonName::B => 5,
            ButtonName::Select => 6,
            ButtonName::Start => 7,
        }
    }

    /// The NES controller bit of the button.
    pub fn nes_index(self) -> (i: usize)
        ensures
            i == self.nes_index_spec(),
    {
        match self {
            ButtonName::Right => 0,
            ButtonName::Left => 1,
            ButtonName::Up => 2,
            ButtonName::Down => 3,
            ButtonName::A => 4,
            ButtonName::B => 5,
            ButtonName::Select => 6,
            ButtonName::Start => 7,
        }
    }

    /// The Game Boy button of the same name.
    pub open spec fn game_boy_spec(self) -> Button {
        match self {
            ButtonName::Right => Button::Right,
            ButtonName::Left => Button::Left,
            ButtonName::Up => Button::Up,
            ButtonName::Down => Button::Down,
            ButtonName::A => Button::A,
            ButtonName::B => Button::B,
            ButtonName::Select => Button::Select,
            ButtonName::Start => Button::Start,
        }
    }

    /// The Game Boy button of the same name.
    pub fn game_boy(self) -> (b: Button)
        ensures
            b == self.game_boy_spec(),
    {
        match self {
            ButtonName::Right => Button::Right,
            ButtonName::Left => Button::Left,
            ButtonName::Up => Button::Up,
            ButtonName::Down => Button::Down,
            ButtonName::A => Button::A,
            ButtonName::B => Button::B,
            ButtonName::Select => Button::Select,
            ButtonName::Start => Button::Start,
        }
    }
}

/// Why a ROM could not be started.
#[derive(Clone, Copy, PartialEq, Eq, Structural, Debug)]
pub enum MachineError {
    Nes(RomError),
    GameBoy(CartridgeError),
}

/// One of the two emulators, with its ROM loaded.
pub enum Machine {
    Nes(Box<NesEmulator>),
    GameBoy(Box<GbEmulator>),
}

impl Machine {
    /// Whether the emulator inside is consistent.
    pub open spec fn wf(self) -> bool {
        match self {
            Machine::Nes(e) => e.wf(),
            Machine::GameBoy(e) => e.wf(),
        }
    }

    /// Whether the next frame completes (every NES frame does; a Game Boy program that
    /// keeps the LCD off never finishes one).
    pub open spec fn completes_frame(self) -> bool {
        match self {
            Machine::Nes(e) => true,
            Machine::GameBoy(e) => e@.completes_frame(),
        }
    }

    /// Starts `system` with the ROM image `rom`.
    pub fn new(system: System, rom: &[u8]) -> (r: Result<Machine, MachineError>)
        requires
            system == System::GameBoy ==> loadable(rom@),
        ensures
            match r {
                Ok(m) => m.wf() && match (system, m) {
                    (System::Nes, Machine::Nes(e)) => parse_spec(rom@) is Ok && e@ == NesState::boot(
                        parse_spec(rom@)->Ok_0,
                    ),
                    (System::GameBoy, Machine::GameBoy(e)) => from_bytes_spec(rom@) is Ok
                        && e@ == EmuState::boot(from_bytes_spec(rom@)->Ok_0),
                    _ => false,
                },
                Err(MachineError::Nes(e)) => system == System::Nes && parse_spec(rom@) == Err::<
                    crate::nes::NesCartState,
                    RomError,
                >(e),
                Err(MachineError::GameBoy(e)) => system == System::GameBoy && from_bytes_spec(rom@)
                    == Err::<crate::cartridge::CartState, CartridgeError>(e),
            },
    {
        match system {
            System::Nes => match NesEmulator::new(rom) {
                Ok(e) => Ok(Machine::Nes(Box::new(e))),
                Err(e) => Err(MachineError::Nes(e)),
            },
            System::GameBoy => match Cartridge::from_bytes(vstd::slice::slice_to_vec(rom)) {
                Ok(c) => Ok(Machine::GameBoy(Box::new(GbEmulator::new(c)))),
                Err(e) => Err(MachineError::GameBoy(e)),
            },
        }
    }

    /// Runs the emulator to the end of its next frame.
    pub fn run_frame(&mut self)
        requires
            old(self).wf(),
            old(self).completes_frame(),
        ensures
            final(self).wf(),
            match (*old(self), *final(self)) {
                (Machine::Nes(a), Machine::Nes(b)) => b@ == a@.run_frame_spec(),
                (Machine::GameBoy(a), Machine::GameBoy(b)) => b@ == a@.run_frame_spec(),
                _ => false,
            },
    {
        match self {
            Machine::Nes(e) => e.run_frame(),
            Machine::GameBoy(e) => e.run_frame(),
        }
    }

    /// The last frame's pixels: NES palette indices or Game Boy shades.
    pub fn framebuffer(&self) -> (f: &[u8])
        ensures
            f@ == match *self {
                Machine::Nes(e) => e@.bus.ppu.frame,
                Machine::GameBoy(e) => e@.bus.ppu.framebuffer,
            },
    {
        match self {
            Machine::Nes(e) => e.framebuffer(),
            Machine::GameBoy(e) => e.framebuffer().as_slice(),
        }
    }

    /// Presses or releases the named button; unknown names are ignored.
    pub fn set_button(&mut self, name: &str, down: bool)
        requires
            old(self).wf(),
        ensures
            final(self).wf(),
            match ButtonName::named(name@) {
                None => *final(self) == *old(self),
                Some(b) => match (*old(self), *final(self)) {
                    (Machine::Nes(x), Machine::Nes(y)) => y@ == x@.with_button(b.nes_index_spec(), down),
                    (Machine::GameBoy(x), Machine::GameBoy(y)) => y@ == x@.with_button(b.game_boy_spec(), down),
                    _ => false,
                },
            },
    {
        let button = match ButtonName::parse(name) {
            Some(b) => b,
            None => return,
        };
        match self {
            Machine::Nes(e) => e.set_button(button.nes_index(), down),
            Machine::GameBoy(e) => e.set_button(button.game_boy(), down),
        }
    }
}

} // verus!
