use vstd::prelude::*;

verus! {

/// Why an image cannot be loaded as an NES cartridge.
#[derive(Clone, Copy, Debug, PartialEq, Eq, Structural)]
pub enum RomError {
    /// No iNES header: shorter than 16 bytes or the magic "NES\x1a" is missing.
    NotINes,
    /// The header names a mapper other than 0 (NROM).
    UnsupportedMapper(u8),
    /// The image is shorter than its header declares, or declares no PRG ROM.
    Truncated,
}

/// The abstract contents of an NROM cartridge.
pub struct NesCartState {
    pub prg: Seq<u8>,
    pub chr: Seq<u8>,
    pub chr_ram: bool,
    pub vertical: bool,
}

/// Whether the image starts with the iNES magic.
pub open spec fn has_magic(data: Seq<u8>) -> bool {
    data.len() >= 16 && data[0] == 0x4e && data[1] == 0x45 && data[2] == 0x53 && data[3] == 0x1a
}

/// The mapper number of an iNES header.
pub open spec fn mapper_number(data: Seq<u8>) -> u8 {
    (data[6] >> 4u8) | (data[7] & 0xf0)
}

/// Where PRG ROM starts: after the header and the optional 512-byte trainer.
pub open spec fn prg_start(data: Seq<u8>) -> nat {
    if data[6] & 4 != 0 {
        16 + 512
    } else {
        16
    }
}

/// PRG ROM bytes declared by the header (16 KiB units).
pub open spec fn prg_len(data: Seq<u8>) -> nat {
    data[4] as nat * 0x4000
}

/// CHR ROM bytes declared by the header (8 KiB units).
pub open spec fn chr_len(data: Seq<u8>) -> nat {
    data[5] as nat * 0x2000
}

/// What loading an image gives: the error, or the cartridge. A cartridge without
/// CHR ROM gets 8 KiB of zeroed CHR RAM.
pub open spec fn parse_spec(data: Seq<u8>) -> Result<NesCartState, RomError> {
    if !has_magic(data) {
        Err(RomError::NotINes)
    } else if mapper_number(data) != 0 {
        Err(RomError::UnsupportedMapper(mapper_number(data)))
    } else if prg_len(data) == 0 || data.len() < prg_start(data) + prg_len(data) + chr_len(data) {
        Err(RomError::Truncated)
    } else {
        let start = prg_start(data);
        let prg_end = start + prg_len(data);
        Ok(NesCartState {
            prg: data.subrange(start as int, prg_end as int),
            chr: if chr_len(data) == 0 {
                Seq::new(0x2000, |i: int| 0u8)
            } else {
                data.subrange(prg_end as int, (prg_end + chr_len(data)) as int)
            },
            chr_ram: chr_len(data) == 0,
            vertical: data[6] & 1 != 0,
        })
    }
}

/// An NROM cartridge: PRG ROM, CHR ROM (or RAM) and the nametable mirroring.
pub struct Cartridge {
    pub prg: Vec<u8>,
    pub chr: Vec<u8>,
    pub chr_ram: bool,
    pub vertical: bool,
}

impl View for Cartridge {
    type V = NesCartState;

    open spec fn view(&self) -> NesCartState {
        NesCartState { prg: self.prg@, chr: self.chr@, chr_ram: self.chr_ram, vertical: self.vertical }
    }
}

/// The bytes `data[from..to]` as a vector.
fn copy_range(data: &[u8], from: usize, to: usize) -> (v: Vec<u8>)
    requires
        from <= to <= data@.len(),
    ensures
        v@ == data@.subrange(from as int, to as int),
{
    let mut v: Vec<u8> = Vec::new();
    let mut i = from;
    while i < to
        invariant
            from <= i <= to <= data@.len(),
            v@ == data@.subrange(from as int, i as int),
        decreases to - i,
    {
        v.push(data[i]);
        i += 1;
        assert(v@ =~= data@.subrange(from as int, i as int));
    }
    v
}

impl Cartridge {
    /// Parses an iNES image of an NROM cartridge.
    pub fn new(data: &[u8]) -> (r: Result<Cartridge, RomError>)
        ensures
            match (r, parse_spec(data@)) {
                (Ok(c), Ok(s)) => c@ == s,
                (Err(e), Err(f)) => e == f,
                _ => false,
            },
    {
        if data.len() < 16 || data[0] != 0x4e || data[1] != 0x45 || data[2] != 0x53 || data[3]
            != 0x1a {
            return Err(RomError::NotINes);
        }
        let mapper = (data[6] >> 4) | (data[7] & 0xf0);
        if mapper != 0 {
            return Err(RomError::UnsupportedMapper(mapper));
        }
        let trainer: usize = if data[6] & 4 != 0 {
            512
        } else {
            0
        };
        let prg_len = data[4] as usize * 0x4000;
        let chr_len = data[5] as usize * 0x2000;
        let start = 16 + trainer;
        if prg_len == 0 || data.len() < start + prg_len + chr_len {
            return Err(RomError::Truncated);
        }
        let prg = copy_range(data, start, start + prg_len);
        let chr = if chr_len == 0 {
            let z = vec![0u8; 0x2000];
            assert(z@ =~= Seq::new(0x2000, |i: int| 0u8));
            z
        } else {
            copy_range(data, start + prg_len, start + prg_len + chr_len)
        };
        Ok(Cartridge { prg, chr, chr_ram: chr_len == 0, vertical: data[6] & 1 != 0 })
    }
}

} // verus!
