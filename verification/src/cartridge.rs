use vstd::prelude::*;

verus! {

/// The memory bank controller a cartridge header declares.
#[derive(Clone, Copy, Debug, PartialEq, Eq, Structural)]
pub enum Mapper {
    Rom,
    Mbc1,
    Mbc2,
    Mbc3,
    Mbc5,
}

/// Why a ROM image cannot be used as a cartridge.
#[derive(Clone, Copy, Debug, PartialEq, Eq, Structural)]
pub enum CartridgeError {
    /// The image is shorter than the 0x150-byte header area.
    TooSmall,
    /// The cartridge type byte (0x147) names an unsupported controller.
    UnsupportedType(u8),
}

/// The abstract contents and banking registers of a cartridge.
pub struct CartState {
    pub rom: Seq<u8>,
    pub ram: Seq<u8>,
    pub mapper: Mapper,
    pub ram_enabled: bool,
    pub rom_bank: u16,
    pub ram_bank: u8,
    pub mode: u8,
    pub rtc_select: u8,
    pub title: Seq<char>,
}

/// The controller named by header byte 0x147, if supported.
pub open spec fn mapper_of(kind: u8) -> Option<Mapper> {
    if kind == 0x00 || kind == 0x08 || kind == 0x09 {
        Some(Mapper::Rom)
    } else if 0x01 <= kind <= 0x03 {
        Some(Mapper::Mbc1)
    } else if kind == 0x05 || kind == 0x06 {
        Some(Mapper::Mbc2)
    } else if 0x0f <= kind <= 0x13 {
        Some(Mapper::Mbc3)
    } else if 0x19 <= kind <= 0x1e {
        Some(Mapper::Mbc5)
    } else {
        None
    }
}

/// The ROM size declared by header byte 0x148: 32 KiB shifted left by the code,
/// computed in `usize` (the image length when the shift is too wide).
pub open spec fn declared_rom_len(code: u8, len: nat) -> nat {
    if (code as u32) < usize::BITS {
        (0x8000usize << code) as nat
    } else {
        len
    }
}

/// The external RAM size declared by header byte 0x149.
pub open spec fn ram_len_of(code: u8) -> nat {
    if code == 1 {
        0x800
    } else if code == 2 {
        0x2000
    } else if code == 3 {
        0x8000
    } else if code == 4 {
        0x20000
    } else if code == 5 {
        0x10000
    } else {
        0
    }
}

/// The characters of a NUL-terminated byte string, each byte read as a char.
pub open spec fn title_of(bytes: Seq<u8>) -> Seq<char>
    decreases bytes.len(),
{
    if bytes.len() == 0 || bytes[0] == 0 {
        Seq::empty()
    } else {
        seq![bytes[0] as char] + title_of(bytes.drop_first())
    }
}

/// The image after padding with 0xff up to the declared ROM size.
pub open spec fn padded_rom(rom: Seq<u8>) -> Seq<u8> {
    let expected = declared_rom_len(rom[0x148], rom.len());
    if expected > rom.len() {
        rom + Seq::new((expected - rom.len()) as nat, |i: int| 0xffu8)
    } else {
        rom
    }
}

/// The accepted header values: the image is large enough and the padded image fits
/// in memory.
pub open spec fn loadable(rom: Seq<u8>) -> bool {
    rom.len() <= isize::MAX && (rom.len() >= 0x150 && mapper_of(rom[0x147]) is Some
        ==> declared_rom_len(rom[0x148], rom.len()) <= isize::MAX)
}

/// The cartridge `from_bytes` builds from a ROM image with a valid header.
pub open spec fn cart_of(rom: Seq<u8>) -> CartState {
    let mapper = mapper_of(rom[0x147]).unwrap();
    let padded = padded_rom(rom);
    CartState {
        rom: padded,
        ram: Seq::new(
            if mapper == Mapper::Mbc2 { 512 } else { ram_len_of(padded[0x149]) },
            |i: int| 0xffu8,
        ),
        mapper,
        ram_enabled: false,
        rom_bank: 1,
        ram_bank: 0,
        mode: 0,
        rtc_select: 0,
        title: title_of(padded.subrange(0x134, 0x144)),
    }
}

/// What `from_bytes` returns for an image: the error it reports, or the cartridge.
pub open spec fn from_bytes_spec(rom: Seq<u8>) -> Result<CartState, CartridgeError> {
    if rom.len() < 0x150 {
        Err(CartridgeError::TooSmall)
    } else if mapper_of(rom[0x147]) is None {
        Err(CartridgeError::UnsupportedType(rom[0x147]))
    } else {
        Ok(cart_of(rom))
    }
}

impl CartState {
    /// A usable cartridge: ROM present and everything addressable in `usize`.
    pub open spec fn wf(self) -> bool {
        &&& 0 < self.rom.len() <= isize::MAX
        &&& self.ram.len() <= isize::MAX
    }

    /// The number of 16 KiB ROM banks, at least 1.
    pub open spec fn rom_banks(self) -> nat {
        if self.rom.len() / 0x4000 > 1 {
            self.rom.len() / 0x4000
        } else {
            1
        }
    }

    /// The bank mapped at 0x4000-0x7fff; only MBC5 can map bank 0 there.
    pub open spec fn effective_rom_bank(self) -> nat {
        let b = self.rom_bank as nat % self.rom_banks();
        if b == 0 && self.mapper != Mapper::Mbc5 {
            1
        } else {
            b
        }
    }

    /// The offset in external RAM that a CPU address 0xa000-0xbfff selects.
    pub open spec fn ram_offset(self, addr: u16) -> nat {
        if self.mapper == Mapper::Mbc2 {
            (addr & 0x1ff) as nat
        } else {
            let bank: nat = if self.mapper == Mapper::Mbc1 && self.mode == 0 {
                0
            } else {
                self.ram_bank as nat
            };
            (bank * 0x2000 + addr - 0xa000) as nat
        }
    }

    /// The byte a CPU read of `addr` returns.
    pub open spec fn read_spec(self, addr: u16) -> u8 {
        if addr <= 0x3fff {
            let bank: nat = if self.mapper == Mapper::Mbc1 && self.mode != 0 {
                (self.ram_bank as nat * 32) % self.rom_banks()
            } else {
                0
            };
            self.rom[((bank * 0x4000 + addr) as nat % self.rom.len()) as int]
        } else if addr <= 0x7fff {
            self.rom[((self.effective_rom_bank() * 0x4000 + addr - 0x4000) as nat
                % self.rom.len()) as int]
        } else if 0xa000 <= addr <= 0xbfff && self.ram_enabled && self.ram.len() > 0 {
            if self.mapper == Mapper::Mbc3 && 0x08 <= self.rtc_select <= 0x0c {
                0
            } else {
                self.ram[(self.ram_offset(addr) % self.ram.len()) as int]
            }
        } else {
            0xff
        }
    }

    /// The state after a CPU write of `value` to external RAM.
    pub open spec fn write_ram_spec(self, addr: u16, value: u8) -> CartState {
        if !self.ram_enabled || self.ram.len() == 0 {
            self
        } else {
            let i = self.ram_offset(addr) % self.ram.len();
            CartState {
                ram: self.ram.update(
                    i as int,
                    if self.mapper == Mapper::Mbc2 { value | 0xf0 } else { value },
                ),
                ..self
            }
        }
    }

    /// The state after a CPU write of `value` to `addr` (banking registers or RAM).
    pub open spec fn write_spec(self, addr: u16, value: u8) -> CartState {
        let m = self.mapper;
        if m == Mapper::Rom && 0xa000 <= addr <= 0xbfff {
            self.write_ram_spec(addr, value)
        } else if m == Mapper::Mbc2 && addr <= 0x3fff && addr & 0x100 == 0 {
            CartState { ram_enabled: value & 0x0f == 0x0a, ..self }
        } else if m == Mapper::Mbc2 && addr <= 0x3fff {
            CartState { rom_bank: if value & 0x0f == 0 { 1 } else { (value & 0x0f) as u16 }, ..self }
        } else if addr <= 0x1fff {
            CartState { ram_enabled: value & 0x0f == 0x0a, ..self }
        } else if m == Mapper::Mbc1 && addr <= 0x3fff {
            let low: u16 = if value as u16 & 0x1f == 0 { 1 } else { value as u16 & 0x1f };
            CartState { rom_bank: (self.rom_bank & 0x60) | low, ..self }
        } else if m == Mapper::Mbc1 && addr <= 0x5fff {
            CartState {
                ram_bank: value & 3,
                rom_bank: (self.rom_bank & 0x1f) | ((value as u16 & 3) << 5u16),
                ..self
            }
        } else if m == Mapper::Mbc1 && addr <= 0x7fff {
            CartState { mode: value & 1, ..self }
        } else if m == Mapper::Mbc3 && addr <= 0x3fff {
            CartState { rom_bank: if value & 0x7f == 0 { 1 } else { (value & 0x7f) as u16 }, ..self }
        } else if m == Mapper::Mbc3 && 0x4000 <= addr <= 0x5fff {
            CartState { ram_bank: value & 3, rtc_select: value, ..self }
        } else if m == Mapper::Mbc5 && addr <= 0x2fff {
            CartState { rom_bank: (self.rom_bank & 0x100) | value as u16, ..self }
        } else if m == Mapper::Mbc5 && addr <= 0x3fff {
            CartState { rom_bank: (self.rom_bank & 0xff) | ((value as u16 & 1) << 8u16), ..self }
        } else if m == Mapper::Mbc5 && 0x4000 <= addr <= 0x5fff {
            CartState { ram_bank: value & 0x0f, ..self }
        } else if 0xa000 <= addr <= 0xbfff {
            self.write_ram_spec(addr, value)
        } else {
            self
        }
    }
}

/// Law: while external RAM is enabled (and no clock register is selected), a byte
/// written to 0xa000-0xbfff reads back as written; MBC2's 4-bit RAM reads back with
/// the high nibble set.
pub proof fn lemma_ram_write_then_read(c: CartState, addr: u16, value: u8)
    requires
        c.wf(),
        0xa000 <= addr <= 0xbfff,
        c.ram_enabled,
        c.ram.len() > 0,
        !(c.mapper == Mapper::Mbc3 && 0x08 <= c.rtc_select <= 0x0c),
    ensures
        c.write_spec(addr, value).read_spec(addr) == if c.mapper == Mapper::Mbc2 {
            value | 0xf0
        } else {
            value
        },
{
}

/// The ROM bank number a write of `value` to 0x2000-0x2fff selects on MBC1, MBC3 and MBC5.
pub open spec fn selected_bank(m: Mapper, value: u8) -> nat {
    if m == Mapper::Mbc1 {
        (value & 0x1f) as nat
    } else if m == Mapper::Mbc3 {
        (value & 0x7f) as nat
    } else {
        value as nat
    }
}

/// Law: on MBC1, MBC3 and MBC5, writing a nonzero bank number that the ROM has to
/// 0x2000-0x2fff maps that bank at 0x4000-0x7fff (MBC1 with its upper bank bits clear,
/// MBC5 with its ninth bank bit clear).
pub proof fn lemma_bank_switch(c: CartState, addr: u16, value: u8, offset: u16)
    requires
        c.wf(),
        c.mapper == Mapper::Mbc1 || c.mapper == Mapper::Mbc3 || c.mapper == Mapper::Mbc5,
        c.mapper == Mapper::Mbc1 ==> c.rom_bank & 0x60 == 0,
        c.mapper == Mapper::Mbc5 ==> c.rom_bank & 0x100 == 0,
        0x2000 <= addr <= 0x2fff,
        0 < selected_bank(c.mapper, value) < c.rom_banks(),
        offset < 0x4000,
    ensures
        c.write_spec(addr, value).read_spec((0x4000 + offset) as u16) == c.rom[selected_bank(
            c.mapper,
            value,
        ) * 0x4000 + offset],
{
    let n = selected_bank(c.mapper, value);
    let d = c.write_spec(addr, value);
    let rb = c.rom_bank;
    if c.mapper == Mapper::Mbc1 {
        let low: u16 = if value as u16 & 0x1f == 0 { 1 } else { value as u16 & 0x1f };
        assert(value as u16 & 0x1f == (value & 0x1f) as u16) by (bit_vector);
        assert((rb & 0x60) | low == low) by (bit_vector)
            requires
                rb & 0x60 == 0,
        ;
    } else if c.mapper == Mapper::Mbc5 {
        assert((rb & 0x100) | value as u16 == value as u16) by (bit_vector)
            requires
                rb & 0x100 == 0,
        ;
    }
    assert(d.rom_bank == n);
    vstd::arithmetic::div_mod::lemma_small_mod(n, d.rom_banks());
    assert(d.effective_rom_bank() == n);
    assert(c.rom_banks() * 0x4000 <= c.rom.len()) by {
        if c.rom.len() / 0x4000 > 1 {
            vstd::arithmetic::div_mod::lemma_fundamental_div_mod(c.rom.len() as int, 0x4000);
        }
    }
    assert(n * 0x4000 + offset < c.rom.len()) by (nonlinear_arith)
        requires
            n < c.rom_banks(),
            c.rom_banks() * 0x4000 <= c.rom.len(),
            offset < 0x4000,
    ;
    vstd::arithmetic::div_mod::lemma_small_mod((n * 0x4000 + offset) as nat, c.rom.len());
}

/// Law: on MBC2, writing a nonzero bank number (its low four bits) that the ROM has to an
/// address in 0x0000-0x3fff with bit 8 set maps that bank at 0x4000-0x7fff.
pub proof fn lemma_mbc2_bank_switch(c: CartState, addr: u16, value: u8, offset: u16)
    requires
        c.wf(),
        c.mapper == Mapper::Mbc2,
        addr <= 0x3fff,
        addr & 0x100 != 0,
        0 < value & 0x0f < c.rom_banks(),
        offset < 0x4000,
    ensures
        c.write_spec(addr, value).read_spec((0x4000 + offset) as u16) == c.rom[(value & 0x0f) * 0x4000
            + offset],
{
    let n = (value & 0x0f) as nat;
    let d = c.write_spec(addr, value);
    assert(d.rom_bank == n);
    vstd::arithmetic::div_mod::lemma_small_mod(n, d.rom_banks());
    assert(d.effective_rom_bank() == n);
    assert(c.rom_banks() * 0x4000 <= c.rom.len()) by {
        if c.rom.len() / 0x4000 > 1 {
            vstd::arithmetic::div_mod::lemma_fundamental_div_mod(c.rom.len() as int, 0x4000);
        }
    }
    assert(n * 0x4000 + offset < c.rom.len()) by (nonlinear_arith)
        requires
            n < c.rom_banks(),
            c.rom_banks() * 0x4000 <= c.rom.len(),
            offset < 0x4000,
    ;
    vstd::arithmetic::div_mod::lemma_small_mod((n * 0x4000 + offset) as nat, c.rom.len());
}

/// Law: the bank controller registers: writing to 0x0000-0x1fff (on MBC2 only with
/// address bit 8 clear) enables external RAM exactly when the value's low nibble is 0xa;
/// on MBC1 a write to 0x4000-0x5fff selects RAM bank `value mod 4` and puts the same two
/// bits above the low five of the ROM bank number, and a write to 0x6000-0x7fff sets the
/// banking mode to `value mod 2`; on MBC5 a write to 0x3000-0x3fff sets bit 8 of the ROM
/// bank number to `value mod 2` and one to 0x4000-0x5fff selects RAM bank `value mod 16`.
pub proof fn lemma_bank_registers(c: CartState, addr: u16, value: u8)
    ensures
        addr <= 0x1fff && (c.mapper != Mapper::Mbc2 || addr & 0x100 == 0) ==> c.write_spec(
            addr,
            value,
        ).ram_enabled == (value % 16 == 10),
        c.mapper == Mapper::Mbc1 && 0x4000 <= addr <= 0x5fff ==> c.write_spec(addr, value).ram_bank
            == value % 4 && c.write_spec(addr, value).rom_bank == c.rom_bank % 32 + 32 * (value % 4),
        c.mapper == Mapper::Mbc1 && 0x6000 <= addr <= 0x7fff ==> c.write_spec(addr, value).mode
            == value % 2,
        c.mapper == Mapper::Mbc5 && 0x3000 <= addr <= 0x3fff ==> c.write_spec(addr, value).rom_bank
            == c.rom_bank % 256 + 256 * (value % 2),
        c.mapper == Mapper::Mbc5 && 0x4000 <= addr <= 0x5fff ==> c.write_spec(addr, value).ram_bank
            == value % 16,
{
    let rb = c.rom_bank;
    assert({
        &&& (value & 0x0f == 0x0a) == (value % 16 == 10)
        &&& value & 3 == value % 4 && value & 1 == value % 2 && value & 0x0f == value % 16
        &&& (rb & 0x1f) | ((value as u16 & 3) << 5u16) == rb % 32 + 32 * (value as u16 % 4)
        &&& (rb & 0xff) | ((value as u16 & 1) << 8u16) == rb % 256 + 256 * (value as u16 % 2)
    }) by (bit_vector);
}

/// Law: a cartridge that `from_bytes` accepts starts with RAM disabled, ROM bank 1
/// mapped at 0x4000 (MBC5 maps bank 0 there when the ROM has a single bank), the
/// image is a prefix of the padded ROM, and its title has no NUL and at most 16 characters.
pub proof fn lemma_fresh_cartridge(rom: Seq<u8>)
    requires
        rom.len() >= 0x150,
        mapper_of(rom[0x147]) is Some,
    ensures
        !cart_of(rom).ram_enabled,
        cart_of(rom).mapper != Mapper::Mbc5 || cart_of(rom).rom_banks() >= 2
            ==> cart_of(rom).effective_rom_bank() == 1,
        cart_of(rom).title.len() <= 16,
        forall|i: int| 0 <= i < cart_of(rom).title.len() ==> cart_of(rom).title[i] != '\0',
        cart_of(rom).rom.len() >= rom.len(),
        cart_of(rom).rom.subrange(0, rom.len() as int) == rom,
{
    let padded = padded_rom(rom);
    assert(padded.subrange(0, rom.len() as int) =~= rom);
    if cart_of(rom).rom_banks() >= 2 {
        vstd::arithmetic::div_mod::lemma_small_mod(1, cart_of(rom).rom_banks());
    }
    lemma_title_bounded(padded.subrange(0x134, 0x144));
}

proof fn lemma_title_bounded(bytes: Seq<u8>)
    ensures
        title_of(bytes).len() <= bytes.len(),
        forall|i: int| 0 <= i < title_of(bytes).len() ==> title_of(bytes)[i] != '\0',
    decreases bytes.len(),
{
    if bytes.len() > 0 && bytes[0] != 0 {
        lemma_title_bounded(bytes.drop_first());
        let t = title_of(bytes);
        assert forall|i: int| 0 <= i < t.len() implies t[i] != '\0' by {
            if i > 0 {
                assert(t[i] == title_of(bytes.drop_first())[i - 1]);
            } else {
                assert(t[0] == bytes[0] as char);
                assert(bytes[0] != 0 ==> bytes[0] as char != '\0');
            }
        }
    }
}

/// Calls std's `String::push`. Trusted: the contract claims that afterwards the string
/// holds its old characters followed by `c`, as the documentation of `push` says.
#[verifier::external_body]
fn push_char(s: &mut String, c: char)
    ensures
        final(s)@ == old(s)@.push(c),
{
    s.push(c)
}

/// A Game Boy cartridge: ROM, external RAM and the bank controller's registers.
pub struct Cartridge {
    rom: Vec<u8>,
    ram: Vec<u8>,
    mapper: Mapper,
    ram_enabled: bool,
    rom_bank: u16,
    ram_bank: u8,
    mode: u8,
    rtc_select: u8,
    title: String,
}

impl View for Cartridge {
    type V = CartState;

    closed spec fn view(&self) -> CartState {
        CartState {
            rom: self.rom@,
            ram: self.ram@,
            mapper: self.mapper,
            ram_enabled: self.ram_enabled,
            rom_bank: self.rom_bank,
            ram_bank: self.ram_bank,
            mode: self.mode,
            rtc_select: self.rtc_select,
            title: self.title@,
        }
    }
}

impl Cartridge {
    #[verifier::type_invariant]
    closed spec fn inv(self) -> bool {
        self@.wf()
    }

    /// Whether `from_bytes` can take the image: the ROM size its header declares fits
    /// in memory.
    pub fn is_loadable(rom: &[u8]) -> (b: bool)
        ensures
            b == loadable(rom@),
    {
        if rom.len() > isize::MAX as usize {
            return false;
        }
        if rom.len() < 0x150 {
            return true;
        }
        let kind = rom[0x147];
        let supported = match kind {
            0x00 | 0x08 | 0x09 | 0x01..=0x03 | 0x05 | 0x06 | 0x0f..=0x13 | 0x19..=0x1e => true,
            _ => false,
        };
        if !supported {
            return true;
        }
        let code = rom[0x148];
        let expected = if (code as u32) < usize::BITS {
            0x8000usize << code
        } else {
            rom.len()
        };
        expected <= isize::MAX as usize
    }

    /// Parses a ROM image: checks the header, pads the ROM to its declared size
    /// and allocates the declared external RAM, filled with 0xff.
    pub fn from_bytes(rom: Vec<u8>) -> (r: Result<Cartridge, CartridgeError>)
        requires
            loadable(rom@),
        ensures
            match (r, from_bytes_spec(rom@)) {
                (Ok(c), Ok(s)) => c@ == s,
                (Err(e), Err(f)) => e == f,
                _ => false,
            },
    {
        let mut rom = rom;
        if rom.len() < 0x150 {
            return Err(CartridgeError::TooSmall);
        }
        let kind = rom[0x147];
        let mapper = match kind {
            0x00 | 0x08 | 0x09 => Mapper::Rom,
            0x01..=0x03 => Mapper::Mbc1,
            0x05 | 0x06 => Mapper::Mbc2,
            0x0f..=0x13 => Mapper::Mbc3,
            0x19..=0x1e => Mapper::Mbc5,
            _ => return Err(CartridgeError::UnsupportedType(kind)),
        };
        let code = rom[0x148];
        let expected = if (code as u32) < usize::BITS {
            0x8000usize << code
        } else {
            rom.len()
        };
        let ghost image = rom@;
        if expected > rom.len() {
            rom.resize(expected, 0xff);
            proof {
                assert(rom@ =~= padded_rom(image)) by {
                    assert forall|i: int| 0 <= i < rom@.len() implies rom@[i] == padded_rom(
                        image,
                    )[i] by {
                        if i < image.len() {
                            assert(rom@.subrange(0, image.len() as int)[i] == rom@[i]);
                        }
                    }
                }
            }
        }
        assert(rom@ == padded_rom(image));
        let ram_len: usize = match rom[0x149] {
            0 => 0,
            1 => 0x800,
            2 => 0x2000,
            3 => 0x8000,
            4 => 0x20000,
            5 => 0x10000,
            _ => 0,
        };
        let mut title = String::new();
        let mut i: usize = 0x134;
        while i <= 0x143 && rom[i] != 0
            invariant
                0x134 <= i <= 0x144,
                rom@.len() >= 0x150,
                title_of(rom@.subrange(0x134, 0x144)) == title@ + title_of(
                    rom@.subrange(i as int, 0x144),
                ),
            decreases 0x144 - i,
        {
            let ghost rest = rom@.subrange(i as int, 0x144);
            assert(rest.drop_first() =~= rom@.subrange(i + 1, 0x144));
            push_char(&mut title, rom[i] as char);
            i += 1;
            assert(title_of(rom@.subrange(0x134, 0x144)) =~= title@ + title_of(
                rom@.subrange(i as int, 0x144),
            ));
        }
        assert(title_of(rom@.subrange(i as int, 0x144)) =~= Seq::<char>::empty());
        let ram = vec![0xffu8; if mapper == Mapper::Mbc2 { 512 } else { ram_len }];
        assert(ram@ =~= cart_of(image).ram);
        let c = Cartridge {
            rom,
            ram,
            mapper,
            ram_enabled: false,
            rom_bank: 1,
            ram_bank: 0,
            mode: 0,
            rtc_select: 0,
            title,
        };
        assert(c@ =~= cart_of(image));
        Ok(c)
    }

    /// The title from the header, up to its first NUL byte.
    pub fn title(&self) -> (t: &str)
        ensures
            t@ == self@.title,
    {
        self.title.as_str()
    }

    /// The external RAM.
    pub fn ram(&self) -> (r: &[u8])
        ensures
            r@ == self@.ram,
    {
        self.ram.as_slice()
    }

    /// Copies as much of `data` as fits into the start of external RAM.
    pub fn load_ram(&mut self, data: &[u8])
        ensures
            final(self)@ == (CartState {
                ram: if data@.len() < old(self)@.ram.len() {
                    data@ + old(self)@.ram.skip(data@.len() as int)
                } else {
                    data@.take(old(self)@.ram.len() as int)
                },
                ..old(self)@
            }),
    {
        let n = if data.len() < self.ram.len() {
            data.len()
        } else {
            self.ram.len()
        };
        let mut i: usize = 0;
        assert(self.ram@ =~= data@.take(0) + old(self)@.ram.skip(0));
        while i < n
            invariant
                n <= data@.len(),
                n <= old(self)@.ram.len(),
                n == data@.len() || n == old(self)@.ram.len(),
                i <= n,
                self@ == (CartState {
                    ram: data@.take(i as int) + old(self)@.ram.skip(i as int),
                    ..old(self)@
                }),
            decreases n - i,
        {
            proof {
                use_type_invariant(&*self);
            }
            self.ram[i] = data[i];
            i += 1;
            assert(self.ram@ =~= data@.take(i as int) + old(self)@.ram.skip(i as int));
        }
        assert(self.ram@ =~= (if data@.len() < old(self)@.ram.len() {
            data@ + old(self)@.ram.skip(data@.len() as int)
        } else {
            data@.take(old(self)@.ram.len() as int)
        }));
    }

    /// The byte at `addr` in the cartridge's address ranges (0x0000-0x7fff, 0xa000-0xbfff).
    pub fn read(&self, addr: u16) -> (r: u8)
        ensures
            r == self@.read_spec(addr),
    {
        proof {
            use_type_invariant(self);
        }
        match addr {
            0x0000..=0x3fff => {
                let bank = if self.mapper == Mapper::Mbc1 && self.mode != 0 {
                    ((self.ram_bank as usize) * 32) % self.rom_banks()
                } else {
                    0
                };
                self.rom[(bank * 0x4000 + addr as usize) % self.rom.len()]
            },
            0x4000..=0x7fff => {
                let bank = self.effective_rom_bank();
                self.rom[(bank * 0x4000 + addr as usize - 0x4000) % self.rom.len()]
            },
            0xa000..=0xbfff if self.ram_enabled && self.ram.len() > 0 => {
                if self.mapper == Mapper::Mbc3 && 0x08 <= self.rtc_select && self.rtc_select <= 0x0c {
                    return 0;
                }
                let i = self.ram_offset(addr);
                self.ram[i % self.ram.len()]
            },
            _ => 0xff,
        }
    }

    /// A CPU write: updates a banking register or stores into external RAM.
    pub fn write(&mut self, addr: u16, value: u8)
        ensures
            final(self)@ == old(self)@.write_spec(addr, value),
    {
        proof {
            use_type_invariant(&*self);
        }
        match (self.mapper, addr) {
            (Mapper::Rom, 0xa000..=0xbfff) => self.write_ram(addr, value),
            (Mapper::Mbc2, 0x0000..=0x3fff) if addr & 0x100 == 0 => {
                self.ram_enabled = value & 0x0f == 0x0a
            },
            (Mapper::Mbc2, 0x0000..=0x3fff) => {
                self.rom_bank = if value & 0x0f == 0 { 1 } else { (value & 0x0f) as u16 }
            },
            (_, 0x0000..=0x1fff) => self.ram_enabled = value & 0x0f == 0x0a,
            (Mapper::Mbc1, 0x2000..=0x3fff) => {
                let low = if value as u16 & 0x1f == 0 { 1 } else { value as u16 & 0x1f };
                self.rom_bank = (self.rom_bank & 0x60) | low
            },
            (Mapper::Mbc1, 0x4000..=0x5fff) => {
                self.ram_bank = value & 3;
                self.rom_bank = (self.rom_bank & 0x1f) | ((value as u16 & 3) << 5);
            },
            (Mapper::Mbc1, 0x6000..=0x7fff) => self.mode = value & 1,
            (Mapper::Mbc3, 0x2000..=0x3fff) => {
                self.rom_bank = if value & 0x7f == 0 { 1 } else { (value & 0x7f) as u16 }
            },
            (Mapper::Mbc3, 0x4000..=0x5fff) => {
                self.ram_bank = value & 3;
                self.rtc_select = value;
            },
            (Mapper::Mbc5, 0x2000..=0x2fff) => {
                self.rom_bank = (self.rom_bank & 0x100) | value as u16
            },
            (Mapper::Mbc5, 0x3000..=0x3fff) => {
                self.rom_bank = (self.rom_bank & 0xff) | ((value as u16 & 1) << 8)
            },
            (Mapper::Mbc5, 0x4000..=0x5fff) => self.ram_bank = value & 0x0f,
            (_, 0xa000..=0xbfff) => self.write_ram(addr, value),
            _ => {},
        }
    }

    fn rom_banks(&self) -> (n: usize)
        ensures
            n == self@.rom_banks(),
    {
        let n = self.rom.len() / 0x4000;
        if n > 1 {
            n
        } else {
            1
        }
    }

    fn effective_rom_bank(&self) -> (b: usize)
        ensures
            b == self@.effective_rom_bank(),
            b <= self@.rom_banks(),
    {
        let b = self.rom_bank as usize % self.rom_banks();
        if b == 0 && self.mapper != Mapper::Mbc5 {
            1
        } else {
            b
        }
    }

    fn ram_offset(&self, addr: u16) -> (i: usize)
        requires
            0xa000 <= addr <= 0xbfff,
        ensures
            i == self@.ram_offset(addr),
    {
        if self.mapper == Mapper::Mbc2 {
            (addr & 0x1ff) as usize
        } else {
            let bank = if self.mapper == Mapper::Mbc1 && self.mode == 0 {
                0
            } else {
                self.ram_bank as usize
            };
            bank * 0x2000 + addr as usize - 0xa000
        }
    }

    fn write_ram(&mut self, addr: u16, value: u8)
        requires
            0xa000 <= addr <= 0xbfff,
        ensures
            final(self)@ == old(self)@.write_ram_spec(addr, value),
    {
        proof {
            use_type_invariant(&*self);
        }
        if !self.ram_enabled || self.ram.len() == 0 {
            return;
        }
        let i = self.ram_offset(addr) % self.ram.len();
        let v = if self.mapper == Mapper::Mbc2 {
            value | 0xf0
        } else {
            value
        };
        self.ram[i] = v;
    }
}

} // verus!
