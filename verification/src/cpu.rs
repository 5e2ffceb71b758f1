use vstd::prelude::*;

use crate::bus::{Bus, BusState};

verus! {

/// Flag register bit: the result was zero.
pub const Z: u8 = 0x80;

/// Flag register bit: the last operation was a subtraction.
pub const N: u8 = 0x40;

/// Flag register bit: carry out of the low nibble.
pub const H: u8 = 0x20;

/// Flag register bit: carry out of the byte (or word).
pub const C: u8 = 0x10;

/// A byte read as a two's complement offset.
pub open spec fn signed_byte(e: u8) -> int {
    if e < 128 {
        e as int
    } else {
        e - 256
    }
}

/// An integer reduced to a 16-bit address.
pub open spec fn wrap16(x: int) -> u16 {
    (x % 0x10000) as u16
}

/// An integer reduced to a byte.
pub open spec fn wrap8(x: int) -> u8 {
    (x % 0x100) as u8
}

/// The flag byte with Z set when `zero` and C set when `carry`.
pub open spec fn zc_flags_spec(zero: bool, carry: bool) -> u8 {
    (if zero {
        Z
    } else {
        0u8
    }) | (if carry {
        C
    } else {
        0u8
    })
}

/// `a + v + ci` as a byte, and the flags of the addition: Z, H (carry out of bit 3),
/// C (carry out of bit 7).
pub open spec fn add8_spec(a: u8, v: u8, ci: u8) -> (u8, u8) {
    let r = wrap8(a + v + ci);
    (r, (if r == 0 {
        Z
    } else {
        0u8
    }) | (if (a & 15) + (v & 15) + ci > 15 {
        H
    } else {
        0u8
    }) | (if a + v + ci > 255 {
        C
    } else {
        0u8
    }))
}

/// `a - v - ci` as a byte, and the flags of the subtraction: N, Z, H (borrow from
/// bit 4), C (borrow).
pub open spec fn sub8_spec(a: u8, v: u8, ci: u8) -> (u8, u8) {
    let r = wrap8(a - v - ci);
    (r, N | (if r == 0 {
        Z
    } else {
        0u8
    }) | (if (a & 15) < (v & 15) + ci {
        H
    } else {
        0u8
    }) | (if a < v + ci {
        C
    } else {
        0u8
    }))
}

/// The result of the CB-prefixed shift or rotate `kind` on `v`, and the bit shifted out.
pub open spec fn shift_spec(kind: u8, v: u8, carry_in: u8) -> (u8, u8) {
    if kind == 0 {
        ((v % 128 * 2 + v / 128) as u8, v / 128)
    } else if kind == 1 {
        ((v / 2 + v % 2 * 128) as u8, v % 2)
    } else if kind == 2 {
        ((v % 128 * 2 + carry_in) as u8, v / 128)
    } else if kind == 3 {
        ((v / 2 + carry_in * 128) as u8, v % 2)
    } else if kind == 4 {
        ((v % 128 * 2) as u8, v / 128)
    } else if kind == 5 {
        ((v / 2 + v / 128 * 128) as u8, v % 2)
    } else if kind == 6 {
        ((v % 16 * 16 + v / 16) as u8, 0)
    } else {
        ((v / 2) as u8, v % 2)
    }
}

/// What the CB rotate or shift `kind` (RLC, RRC, RL, RR, SLA, SRA, SWAP, SRL) must do
/// to `v`, with carry `ci` going in, to give `out` with `carry` coming out.
pub open spec fn shift_law(kind: u8, v: u8, ci: u8, out: u8, carry: u8) -> bool {
    if kind == 0 {
        // rotate left: every bit moves up one place, bit 7 comes round to bit 0
        out == (2 * v + v / 128) % 256 && carry == v / 128
    } else if kind == 1 {
        // rotate right: rotating the result left gives the operand back
        (2 * out + out / 128) % 256 == v && carry == v % 2
    } else if kind == 2 {
        // rotate left through carry
        out == (2 * v + ci) % 256 && carry == v / 128
    } else if kind == 3 {
        // rotate right through carry: the operand is the result shifted back, with the carry
        (2 * out + carry) % 256 == v && out / 128 == ci && carry == v % 2
    } else if kind == 4 {
        // arithmetic shift left: doubled, modulo 256
        out == (2 * v) % 256 && carry == v / 128
    } else if kind == 5 {
        // arithmetic shift right: the signed value halved, rounding down
        signed_byte(out) == signed_byte(v) / 2 && carry == v % 2
    } else if kind == 6 {
        // swap the nibbles
        out / 16 == v % 16 && out % 16 == v / 16 && carry == 0
    } else {
        // logical shift right: the unsigned value halved, rounding down
        out == v / 2 && carry == v % 2
    }
}

/// Law: each CB rotate and shift does what its name says (see `shift_law`).
pub proof fn lemma_shift_law(kind: u8, v: u8, ci: u8)
    requires
        kind < 8,
        ci <= 1,
    ensures
        shift_law(kind, v, ci, shift_spec(kind, v, ci).0, shift_spec(kind, v, ci).1),
{
}

/// Law: CB rotate or shift `kind` (0 RLC, 1 RRC, 2 RL, 3 RR, 4 SLA, 5 SRA, 6 SWAP, 7 SRL)
/// of register `r` (B, C, D, E, H, L or A) replaces the register as `shift_law` says,
/// with C from the bit shifted out, Z exactly when the result is 0, N and H clear, takes
/// 8 cycles and leaves the bus alone.
#[verifier::rlimit(50)]
pub proof fn lemma_cb_shift(c: Cpu, bus: BusState, kind: u8, r: u8)
    requires
        kind < 8,
        r < 8,
        r != 6,
        bus.read8_spec(c.pc) == kind * 8 + r,
    ensures
        ({
            let (c2, b2, n) = c.cb_spec(bus);
            let v = c.r8_spec(bus, r);
            let out = c2.r8_spec(b2, r);
            &&& shift_law(kind, v, c.carry_in(), out, if c2.f & C != 0 { 1 } else { 0 })
            &&& (c2.f & Z != 0) == (out == 0)
            &&& c2.f & (N | H) == 0
            &&& b2 == bus
            &&& n == 8
        }),
{
    lemma_cb_fields(0, kind, r);
    lemma_zc_flag_bits();
    let ci = c.carry_in();
    lemma_shift_law(kind, c.r8_spec(bus, r), ci);
}

/// The fields of a CB-prefixed opcode: group, bit or operation, register.
proof fn lemma_cb_fields(g: u8, k: u8, r: u8)
    requires
        g < 4,
        k < 8,
        r < 8,
    ensures
        ({
            let op = (g * 64 + k * 8 + r) as u8;
            op == g * 64 + k * 8 + r && op & 7 == r && (op >> 3u8) & 7 == k && op >> 6u8 == g
        }),
{
    let op = (g * 64 + k * 8 + r) as u8;
    assert(op == g * 64 + k * 8 + r && op & 7 == r && (op >> 3u8) & 7 == k && op >> 6u8 == g)
        by (bit_vector)
        requires
            g < 4,
            k < 8,
            r < 8,
            op == (g * 64 + k * 8 + r) as u8,
    ;
}

/// Law: CB BIT, RES and SET `b` of register `r` (B, C, D, E, H, L or A): BIT sets Z
/// exactly when bit `b` of the register is 0, sets H, clears N, keeps C and the register;
/// RES and SET clear or set bit `b` and keep every other bit and every flag. Each takes
/// 8 cycles and leaves the bus alone.
#[verifier::rlimit(50)]
pub proof fn lemma_cb_bit_ops(c: Cpu, bus: BusState, group: u8, b: u8, r: u8)
    requires
        1 <= group <= 3,
        b < 8,
        r < 8,
        r != 6,
        bus.read8_spec(c.pc) == group * 64 + b * 8 + r,
    ensures
        ({
            let (c2, b2, n) = c.cb_spec(bus);
            let v = c.r8_spec(bus, r);
            let out = c2.r8_spec(b2, r);
            &&& b2 == bus
            &&& n == 8
            &&& group == 1 ==> out == v && flags_are(c2.f, (v >> b) & 1 == 0, false, true, c.f & C
                != 0)
            &&& group >= 2 ==> c2.f == c.f && (out >> b) & 1 == (if group == 3 { 1u8 } else { 0u8 })
                && forall|k: u8| k < 8 && k != b ==> (out >> k) & 1 == (v >> k) & 1
        }),
{
    lemma_cb_fields(group, b, r);
    let v = c.r8_spec(bus, r);
    let f = c.f;
    let res = v & !(1u8 << b);
    let set = v | (1u8 << b);
    let fb: u8 = (f & C) | H | if v & (1u8 << b) == 0 { Z } else { 0u8 };
    assert({
        &&& flags_are(fb, (v >> b) & 1 == 0, false, true, f & C != 0)
        &&& (res >> b) & 1 == 0 && (set >> b) & 1 == 1
        &&& (forall|k: u8| k < 8 && k != b ==> (res >> k) & 1 == (v >> k) & 1 && (set >> k) & 1 == (v
            >> k) & 1)
    }) by (bit_vector)
        requires
            b < 8,
            res == v & !(1u8 << b),
            set == v | (1u8 << b),
            fb == (f & C) | H | if v & (1u8 << b) == 0 { Z } else { 0u8 },
    ;
}

/// How Z and C read back from a flag byte built by `zc_flags_spec`.
proof fn lemma_zc_flag_bits()
    ensures
        forall|z: bool, cy: bool|
            #![trigger zc_flags_spec(z, cy)]
            (zc_flags_spec(z, cy) & Z != 0) == z && (zc_flags_spec(z, cy) & C != 0) == cy
                && zc_flags_spec(z, cy) & (N | H) == 0 && zc_flags_spec(z, cy) & N == 0
                && zc_flags_spec(z, cy) & H == 0,
{
    assert(forall|z: bool, cy: bool|
        #![trigger zc_flags_spec(z, cy)]
        (zc_flags_spec(z, cy) & Z != 0) == z && (zc_flags_spec(z, cy) & C != 0) == cy
            && zc_flags_spec(z, cy) & (N | H) == 0 && zc_flags_spec(z, cy) & N == 0
            && zc_flags_spec(z, cy) & H == 0) by (bit_vector);
}

/// Whether flag byte `f` has Z, N, H and C set exactly as given.
pub open spec fn flags_are(f: u8, z: bool, n: bool, h: bool, c: bool) -> bool {
    &&& (f & Z != 0) == z
    &&& (f & N != 0) == n
    &&& (f & H != 0) == h
    &&& (f & C != 0) == c
}

/// Law: the eight ALU operations on A and `v` (carry `ci` in):
/// ADD and ADC give `(a + v [+ ci]) mod 256` with H the carry out of the low nibble and
/// C the carry out of the byte; SUB, SBC and CP compute `a - v [- ci]` with N set, H the
/// borrow from the high nibble and C the borrow (CP keeps A); AND, XOR and OR give the
/// bitwise result with H set for AND only; every operation sets Z exactly when the result
/// is 0 and clears what it does not set.
#[verifier::rlimit(50)]
pub proof fn lemma_alu_law(c: Cpu, v: u8)
    ensures
        ({
            let a = c.a;
            let ci: int = if c.f & C != 0 { 1 } else { 0 };
            let add = c.alu_spec(0, v);
            let adc = c.alu_spec(1, v);
            let sub = c.alu_spec(2, v);
            let sbc = c.alu_spec(3, v);
            let and = c.alu_spec(4, v);
            let xor = c.alu_spec(5, v);
            let or = c.alu_spec(6, v);
            let cp = c.alu_spec(7, v);
            &&& add.a == (a + v) % 256
            &&& flags_are(add.f, add.a == 0, false, a % 16 + v % 16 > 15, a + v > 255)
            &&& adc.a == (a + v + ci) % 256
            &&& flags_are(adc.f, adc.a == 0, false, a % 16 + v % 16 + ci > 15, a + v + ci > 255)
            &&& sub.a == (a - v) % 256
            &&& flags_are(sub.f, sub.a == 0, true, a % 16 < v % 16, a < v)
            &&& sbc.a == (a - v - ci) % 256
            &&& flags_are(sbc.f, sbc.a == 0, true, a % 16 < v % 16 + ci, a < v + ci)
            &&& and.a == a & v && flags_are(and.f, and.a == 0, false, true, false)
            &&& xor.a == a ^ v && flags_are(xor.f, xor.a == 0, false, false, false)
            &&& or.a == a | v && flags_are(or.f, or.a == 0, false, false, false)
            &&& cp.a == a && flags_are(cp.f, a == v, true, a % 16 < v % 16, a < v)
            &&& add.b == c.b && add.sp == c.sp && add.pc == c.pc
        }),
{
    let a = c.a;
    let ci: u8 = if c.f & C != 0 { 1 } else { 0 };
    let (r0, f0) = add8_spec(a, v, 0);
    let (r1, f1) = add8_spec(a, v, ci);
    let (r2, f2) = sub8_spec(a, v, 0);
    let (r3, f3) = sub8_spec(a, v, ci);
    let r4 = a & v;
    let f4: u8 = if r4 == 0 { Z | H } else { H };
    lemma_zc_flag_bits();
    assert({
        &&& a & 15 == a % 16 && v & 15 == v % 16
        &&& flags_are(f0, r0 == 0, false, (a & 15) + (v & 15) > 15, a as int + v as int > 255)
        &&& flags_are(f1, r1 == 0, false, (a & 15) + (v & 15) + ci > 15, a as int + v as int
            + ci as int > 255)
        &&& flags_are(f2, r2 == 0, true, (a & 15) < (v & 15), (a as int) < v as int)
        &&& flags_are(f3, r3 == 0, true, (a & 15) < (v & 15) + ci, (a as int) < v as int
            + ci as int)
        &&& flags_are(f4, r4 == 0, false, true, false)
    }) by (bit_vector)
        requires
            ci <= 1,
            f0 == (if r0 == 0 { Z } else { 0u8 }) | (if (a & 15) + (v & 15) + 0u8 > 15 { H } else {
                0u8
            }) | (if a as int + v as int + 0 > 255 { C } else { 0u8 }),
            f1 == (if r1 == 0 { Z } else { 0u8 }) | (if (a & 15) + (v & 15) + ci > 15 { H } else {
                0u8
            }) | (if a as int + v as int + ci as int > 255 { C } else { 0u8 }),
            f2 == N | (if r2 == 0 { Z } else { 0u8 }) | (if (a & 15) < (v & 15) + 0u8 { H } else {
                0u8
            }) | (if (a as int) < v as int + 0 { C } else { 0u8 }),
            f3 == N | (if r3 == 0 { Z } else { 0u8 }) | (if (a & 15) < (v & 15) + ci { H } else {
                0u8
            }) | (if (a as int) < v as int + ci as int { C } else { 0u8 }),
            f4 == if r4 == 0 { Z | H } else { H },
    ;
}

/// Law: INC of `v` gives `(v + 1) mod 256` with H set when the low nibble carries, DEC
/// gives `(v - 1) mod 256` with N set and H when the low nibble borrows; both set Z
/// exactly for 0 and keep C.
#[verifier::rlimit(50)]
pub proof fn lemma_inc_dec_law(c: Cpu, v: u8)
    ensures
        ({
            let (ci, ri) = c.inc_spec(v);
            let (cd, rd) = c.dec_spec(v);
            let carry = c.f & C != 0;
            &&& ri == (v + 1) % 256 && flags_are(ci.f, ri == 0, false, v % 16 == 15, carry)
            &&& rd == (v - 1) % 256 && flags_are(cd.f, rd == 0, true, v % 16 == 0, carry)
        }),
{
    let f = c.f;
    let (ci, ri) = c.inc_spec(v);
    let (cd, rd) = c.dec_spec(v);
    let fi = ci.f;
    let fd = cd.f;
    assert(flags_are(fi, ri == 0, false, v % 16 == 15, f & C != 0) && flags_are(fd, rd == 0, true,
        v % 16 == 0, f & C != 0)) by (bit_vector)
        requires
            fi == (f & C) | (if ri == 0 { Z } else { 0u8 }) | (if v & 15 == 15 { H } else { 0u8 }),
            fd == (f & C) | N | (if rd == 0 { Z } else { 0u8 }) | (if v & 15 == 0 { H } else { 0u8 }),
    ;
}

/// Law: the accumulator rotates RLCA, RRCA, RLA and RRA rotate A as the CB rotates do
/// (see `shift_law`) but always clear Z, N and H; CPL complements A and sets N and H; SCF
/// sets C and CCF complements it, both clearing N and H and keeping Z. None touches the bus.
#[verifier::rlimit(50)]
pub proof fn lemma_acc_law(c: Cpu, bus: BusState)
    ensures
        ({
            let a = c.a;
            let ci: u8 = if c.f & C != 0 { 1 } else { 0 };
            let z = c.f & Z != 0;
            let cy = c.f & C != 0;
            &&& forall|k: u8|
                #![trigger c.acc_spec(bus, (k * 8 + 7) as u8)]
                k < 4 ==> {
                    let (d, b2, n) = c.acc_spec(bus, (k * 8 + 7) as u8);
                    &&& shift_law(k, a, ci, d.a, if d.f & C != 0 { 1 } else { 0 })
                    &&& flags_are(d.f, false, false, false, d.f & C != 0)
                    &&& b2 == bus && n == 4
                }
            &&& c.acc_spec(bus, 0x2f).0.a == 255 - a
            &&& flags_are(c.acc_spec(bus, 0x2f).0.f, z, true, true, cy)
            &&& flags_are(c.acc_spec(bus, 0x37).0.f, z, false, false, true)
            &&& flags_are(c.acc_spec(bus, 0x3f).0.f, z, false, false, !cy)
        }),
{
    lemma_zc_flag_bits();
    assert forall|k: u8| k < 4 implies {
        let (d, b2, n) = #[trigger] c.acc_spec(bus, (k * 8 + 7) as u8);
        &&& shift_law(k, c.a, ci_of(c), d.a, if d.f & C != 0 { 1 } else { 0 })
        &&& flags_are(d.f, false, false, false, d.f & C != 0)
        &&& b2 == bus && n == 4
    } by {
        lemma_shift_law(k, c.a, ci_of(c));
    }
    let f = c.f;
    let a = c.a;
    assert(flags_are(f | N | H, f & Z != 0, true, true, f & C != 0) && flags_are((f & Z) | C, f & Z
        != 0, false, false, true) && flags_are((f & Z) | (if f & C == 0 { C } else { 0u8 }), f & Z
        != 0, false, false, !(f & C != 0)) && !a == 255 - a) by (bit_vector);
}

/// The carry flag as 0 or 1.
spec fn ci_of(c: Cpu) -> u8 {
    if c.f & C != 0 {
        1
    } else {
        0
    }
}

/// The low nibble of a byte is at most 15.
proof fn lemma_low_nibble()
    ensures
        forall|x: u8| #[trigger] (x & 15) <= 15,
{
    lemma_bit_field_bounds();
}

/// The register and operation fields of an opcode are in range.
proof fn lemma_op_fields()
    ensures
        forall|x: u8| #[trigger] ((x >> 3u8) & 7) < 8,
        forall|x: u8| #[trigger] ((x >> 4u8) & 3) < 4,
        forall|x: u8| #[trigger] (x & 7) < 8,
{
    lemma_bit_field_bounds();
}

/// Masked bit fields are bounded by their masks.
proof fn lemma_bit_field_bounds()
    ensures
        forall|x: u8| #[trigger] (x & 15) <= 15,
        forall|x: u8| #[trigger] ((x >> 3u8) & 7) < 8,
        forall|x: u8| #[trigger] ((x >> 4u8) & 3) < 4,
        forall|x: u8| #[trigger] (x & 7) < 8,
        forall|x: u16| #[trigger] (x & 0xfff) <= 0xfff,
        forall|x: u16| #[trigger] (x & 15) <= 15,
        forall|x: u16| #[trigger] (x & 255) <= 255,
{
    assert({
        &&& (forall|x: u8| #[trigger] (x & 15) <= 15)
        &&& (forall|x: u8| #[trigger] ((x >> 3u8) & 7) < 8)
        &&& (forall|x: u8| #[trigger] ((x >> 4u8) & 3) < 4)
        &&& (forall|x: u8| #[trigger] (x & 7) < 8)
        &&& (forall|x: u16| #[trigger] (x & 0xfff) <= 0xfff)
        &&& (forall|x: u16| #[trigger] (x & 15) <= 15)
        &&& (forall|x: u16| #[trigger] (x & 255) <= 255)
    }) by (bit_vector);
}

/// The Sharp SM83 processor: registers, interrupt master enable and halt state.
#[derive(Clone, Debug)]
pub struct Cpu {
    pub a: u8,
    pub f: u8,
    pub b: u8,
    pub c: u8,
    pub d: u8,
    pub e: u8,
    pub h: u8,
    pub l: u8,
    pub sp: u16,
    pub pc: u16,
    pub ime: bool,
    pub halted: bool,
    pub ime_delay: u8,
}

/// A step's outcome: processor, bus and the cycles taken.
pub type Outcome = (Cpu, BusState, u8);

impl Cpu {
    /// The register state after the boot ROM hands over to the cartridge at 0x100.
    pub open spec fn boot_state() -> Cpu {
        Cpu {
            a: 0x01,
            f: 0xb0,
            b: 0,
            c: 0x13,
            d: 0,
            e: 0xd8,
            h: 0x01,
            l: 0x4d,
            sp: 0xfffe,
            pc: 0x0100,
            ime: false,
            halted: false,
            ime_delay: 0,
        }
    }

    pub open spec fn af_spec(self) -> u16 {
        (self.a * 256 + self.f) as u16
    }

    pub open spec fn bc_spec(self) -> u16 {
        (self.b * 256 + self.c) as u16
    }

    pub open spec fn de_spec(self) -> u16 {
        (self.d * 256 + self.e) as u16
    }

    pub open spec fn hl_spec(self) -> u16 {
        (self.h * 256 + self.l) as u16
    }

    /// AF after loading `v`: the low nibble of F always reads 0.
    pub open spec fn set_af_spec(self, v: u16) -> Cpu {
        Cpu { a: (v / 256) as u8, f: ((v % 256) as u8) & 0xf0, ..self }
    }

    pub open spec fn set_bc_spec(self, v: u16) -> Cpu {
        Cpu { b: (v / 256) as u8, c: (v % 256) as u8, ..self }
    }

    pub open spec fn set_de_spec(self, v: u16) -> Cpu {
        Cpu { d: (v / 256) as u8, e: (v % 256) as u8, ..self }
    }

    pub open spec fn set_hl_spec(self, v: u16) -> Cpu {
        Cpu { h: (v / 256) as u8, l: (v % 256) as u8, ..self }
    }

    /// The 8-bit operand `n` of the register encoding B, C, D, E, H, L, (HL), A.
    pub open spec fn r8_spec(self, bus: BusState, n: u8) -> u8 {
        if n == 0 {
            self.b
        } else if n == 1 {
            self.c
        } else if n == 2 {
            self.d
        } else if n == 3 {
            self.e
        } else if n == 4 {
            self.h
        } else if n == 5 {
            self.l
        } else if n == 6 {
            bus.read8_spec(self.hl_spec())
        } else {
            self.a
        }
    }

    /// Stores `v` into the 8-bit operand `n`.
    pub open spec fn w8_spec(self, bus: BusState, n: u8, v: u8) -> (Cpu, BusState) {
        if n == 0 {
            (Cpu { b: v, ..self }, bus)
        } else if n == 1 {
            (Cpu { c: v, ..self }, bus)
        } else if n == 2 {
            (Cpu { d: v, ..self }, bus)
        } else if n == 3 {
            (Cpu { e: v, ..self }, bus)
        } else if n == 4 {
            (Cpu { h: v, ..self }, bus)
        } else if n == 5 {
            (Cpu { l: v, ..self }, bus)
        } else if n == 6 {
            (self, bus.write8_spec(self.hl_spec(), v))
        } else {
            (Cpu { a: v, ..self }, bus)
        }
    }

    /// The 16-bit register `n` of the encoding BC, DE, HL, SP.
    pub open spec fn rr_spec(self, n: u8) -> u16 {
        if n == 0 {
            self.bc_spec()
        } else if n == 1 {
            self.de_spec()
        } else if n == 2 {
            self.hl_spec()
        } else {
            self.sp
        }
    }

    pub open spec fn wr_spec(self, n: u8, v: u16) -> Cpu {
        if n == 0 {
            self.set_bc_spec(v)
        } else if n == 1 {
            self.set_de_spec(v)
        } else if n == 2 {
            self.set_hl_spec(v)
        } else {
            Cpu { sp: v, ..self }
        }
    }

    /// Reads the byte at PC and advances PC.
    pub open spec fn fetch8_spec(self, bus: BusState) -> (Cpu, u8) {
        (Cpu { pc: wrap16(self.pc + 1), ..self }, bus.read8_spec(self.pc))
    }

    /// Reads the little-endian word at PC and advances PC by two.
    pub open spec fn fetch16_spec(self, bus: BusState) -> (Cpu, u16) {
        let (c1, lo) = self.fetch8_spec(bus);
        let (c2, hi) = c1.fetch8_spec(bus);
        (c2, (lo + 256 * hi) as u16)
    }

    /// Pushes `v`: SP drops by two and the word is stored there.
    pub open spec fn push_spec(self, bus: BusState, v: u16) -> (Cpu, BusState) {
        let sp = wrap16(self.sp - 2);
        (Cpu { sp, ..self }, bus.write16_spec(sp, v))
    }

    /// Pops a word: read at SP, then SP rises by two.
    pub open spec fn pop_spec(self, bus: BusState) -> (Cpu, u16) {
        (Cpu { sp: wrap16(self.sp + 2), ..self }, bus.read16_spec(self.sp))
    }

    /// The branch condition `n` of the encoding NZ, Z, NC, C.
    pub open spec fn cond_spec(self, n: u8) -> bool {
        if n == 0 {
            self.f & Z == 0
        } else if n == 1 {
            self.f & Z != 0
        } else if n == 2 {
            self.f & C == 0
        } else {
            self.f & C != 0
        }
    }

    /// The carry flag as 0 or 1.
    pub open spec fn carry_in(self) -> u8 {
        if self.f & C != 0 {
            1
        } else {
            0
        }
    }

    /// The 8-bit ALU operation `op` (ADD, ADC, SUB, SBC, AND, XOR, OR, CP) of A and `v`.
    pub open spec fn alu_spec(self, op: u8, v: u8) -> Cpu {
        let a = self.a;
        let ci = self.carry_in();
        if op == 0 || op == 1 {
            let (r, f) = add8_spec(a, v, if op == 1 { ci } else { 0 });
            Cpu { a: r, f, ..self }
        } else if op == 2 || op == 3 {
            let (r, f) = sub8_spec(a, v, if op == 3 { ci } else { 0 });
            Cpu { a: r, f, ..self }
        } else if op == 4 {
            let r = a & v;
            Cpu {
                a: r,
                f: if r == 0 {
                    Z | H
                } else {
                    H
                },
                ..self
            }
        } else if op == 5 {
            let r = a ^ v;
            Cpu { a: r, f: zc_flags_spec(r == 0, false), ..self }
        } else if op == 6 {
            let r = a | v;
            Cpu { a: r, f: zc_flags_spec(r == 0, false), ..self }
        } else {
            Cpu { f: sub8_spec(a, v, 0).1, ..self }
        }
    }

    /// INC of `v`: the result, with Z and H set from it and C kept.
    pub open spec fn inc_spec(self, v: u8) -> (Cpu, u8) {
        let r = wrap8(v + 1);
        (
            Cpu {
                f: (self.f & C) | (if r == 0 {
                    Z
                } else {
                    0u8
                }) | (if v & 15 == 15 {
                    H
                } else {
                    0u8
                }),
                ..self
            },
            r,
        )
    }

    /// DEC of `v`: the result, with N set, Z and H from it and C kept.
    pub open spec fn dec_spec(self, v: u8) -> (Cpu, u8) {
        let r = wrap8(v - 1);
        (
            Cpu {
                f: (self.f & C) | N | (if r == 0 {
                    Z
                } else {
                    0u8
                }) | (if v & 15 == 0 {
                    H
                } else {
                    0u8
                }),
                ..self
            },
            r,
        )
    }

    /// The cycles an instruction with operand `r` takes: `mem` when `r` is (HL), else `reg`.
    pub open spec fn hl_cost(r: u8, mem: u8, reg: u8) -> u8 {
        if r == 6 {
            mem
        } else {
            reg
        }
    }

    /// 0x40-0x7f: HALT (0x76) and LD r, r'.
    pub open spec fn ld_block_spec(self, bus: BusState, op: u8) -> Outcome {
        if op == 0x76 {
            (Cpu { halted: true, ..self }, bus, 4)
        } else {
            let d = (op >> 3u8) & 7;
            let s = op & 7;
            let (c1, b1) = self.w8_spec(bus, d, self.r8_spec(bus, s));
            (c1, b1, if d == 6 || s == 6 {
                8
            } else {
                4
            })
        }
    }

    /// 0x80-0xbf: the ALU operation of A with a register or (HL).
    pub open spec fn alu_block_spec(self, bus: BusState, op: u8) -> Outcome {
        let s = op & 7;
        (self.alu_spec((op >> 3u8) & 7, self.r8_spec(bus, s)), bus, Self::hl_cost(s, 8, 4))
    }

    /// INC r and DEC r.
    pub open spec fn inc_dec_spec(self, bus: BusState, op: u8) -> Outcome {
        let r = (op >> 3u8) & 7;
        let v = self.r8_spec(bus, r);
        let (c1, v1) = if op & 7 == 4 {
            self.inc_spec(v)
        } else {
            self.dec_spec(v)
        };
        let (c2, b2) = c1.w8_spec(bus, r, v1);
        (c2, b2, Self::hl_cost(r, 12, 4))
    }

    /// LD r, n.
    pub open spec fn ld_r_n_spec(self, bus: BusState, op: u8) -> Outcome {
        let r = (op >> 3u8) & 7;
        let (c1, v) = self.fetch8_spec(bus);
        let (c2, b2) = c1.w8_spec(bus, r, v);
        (c2, b2, Self::hl_cost(r, 12, 8))
    }

    /// The 16-bit register group: LD rr, nn; INC rr; DEC rr; ADD HL, rr.
    pub open spec fn rr_block_spec(self, bus: BusState, op: u8) -> Outcome {
        let n = (op >> 4u8) & 3;
        if op & 0xcf == 0x01 {
            let (c1, v) = self.fetch16_spec(bus);
            (c1.wr_spec(n, v), bus, 12)
        } else if op & 0xcf == 0x03 {
            (self.wr_spec(n, wrap16(self.rr_spec(n) + 1)), bus, 8)
        } else if op & 0xcf == 0x0b {
            (self.wr_spec(n, wrap16(self.rr_spec(n) - 1)), bus, 8)
        } else {
            let v = self.rr_spec(n);
            let hl = self.hl_spec();
            let f = (self.f & Z) | (if (hl & 0xfff) + (v & 0xfff) > 0xfff {
                H
            } else {
                0u8
            }) | (if hl + v > 0xffff {
                C
            } else {
                0u8
            });
            (Cpu { f, ..self }.set_hl_spec(wrap16(hl + v)), bus, 8)
        }
    }

    /// Conditional and unconditional control transfers: JR cc, RET cc, JP cc, CALL cc, RST.
    pub open spec fn branch_spec(self, bus: BusState, op: u8) -> Outcome {
        let cc = (op >> 3u8) & 3;
        if op & 0xe7 == 0x20 {
            let (c1, e) = self.fetch8_spec(bus);
            if c1.cond_spec(cc) {
                (Cpu { pc: wrap16(c1.pc + signed_byte(e)), ..c1 }, bus, 12)
            } else {
                (c1, bus, 8)
            }
        } else if op & 0xe7 == 0xc0 {
            if self.cond_spec(cc) {
                let (c1, v) = self.pop_spec(bus);
                (Cpu { pc: v, ..c1 }, bus, 20)
            } else {
                (self, bus, 8)
            }
        } else if op & 0xe7 == 0xc2 {
            let (c1, a) = self.fetch16_spec(bus);
            if c1.cond_spec(cc) {
                (Cpu { pc: a, ..c1 }, bus, 16)
            } else {
                (c1, bus, 12)
            }
        } else if op & 0xe7 == 0xc4 {
            let (c1, a) = self.fetch16_spec(bus);
            if c1.cond_spec(cc) {
                let (c2, b2) = c1.push_spec(bus, c1.pc);
                (Cpu { pc: a, ..c2 }, b2, 24)
            } else {
                (c1, bus, 12)
            }
        } else {
            let (c1, b1) = self.push_spec(bus, self.pc);
            (Cpu { pc: (op & 0x38) as u16, ..c1 }, b1, 16)
        }
    }

    /// POP rr and PUSH rr (the encoding BC, DE, HL, AF).
    pub open spec fn stack_spec(self, bus: BusState, op: u8) -> Outcome {
        let n = (op >> 4u8) & 3;
        if op & 0xcf == 0xc1 {
            let (c1, v) = self.pop_spec(bus);
            (if n == 3 {
                c1.set_af_spec(v)
            } else {
                c1.wr_spec(n, v)
            }, bus, 12)
        } else {
            let v = if n == 3 {
                self.af_spec()
            } else {
                self.rr_spec(n)
            };
            let (c1, b1) = self.push_spec(bus, v);
            (c1, b1, 16)
        }
    }

    /// The loads and stores outside the regular blocks.
    pub open spec fn load_spec(self, bus: BusState, op: u8) -> Outcome {
        if op == 0x02 {
            (self, bus.write8_spec(self.bc_spec(), self.a), 8)
        } else if op == 0x12 {
            (self, bus.write8_spec(self.de_spec(), self.a), 8)
        } else if op == 0x0a {
            (Cpu { a: bus.read8_spec(self.bc_spec()), ..self }, bus, 8)
        } else if op == 0x1a {
            (Cpu { a: bus.read8_spec(self.de_spec()), ..self }, bus, 8)
        } else if op == 0x08 {
            let (c1, a) = self.fetch16_spec(bus);
            (c1, bus.write16_spec(a, self.sp), 20)
        } else if op == 0x22 || op == 0x32 {
            let a = self.hl_spec();
            let next = if op == 0x22 {
                wrap16(a + 1)
            } else {
                wrap16(a - 1)
            };
            (self.set_hl_spec(next), bus.write8_spec(a, self.a), 8)
        } else if op == 0x2a || op == 0x3a {
            let a = self.hl_spec();
            let next = if op == 0x2a {
                wrap16(a + 1)
            } else {
                wrap16(a - 1)
            };
            (Cpu { a: bus.read8_spec(a), ..self }.set_hl_spec(next), bus, 8)
        } else if op == 0xe0 {
            let (c1, n) = self.fetch8_spec(bus);
            (c1, bus.write8_spec((0xff00 + n) as u16, self.a), 12)
        } else if op == 0xf0 {
            let (c1, n) = self.fetch8_spec(bus);
            (Cpu { a: bus.read8_spec((0xff00 + n) as u16), ..c1 }, bus, 12)
        } else if op == 0xe2 {
            (self, bus.write8_spec((0xff00 + self.c) as u16, self.a), 8)
        } else if op == 0xf2 {
            (Cpu { a: bus.read8_spec((0xff00 + self.c) as u16), ..self }, bus, 8)
        } else if op == 0xea {
            let (c1, a) = self.fetch16_spec(bus);
            (c1, bus.write8_spec(a, self.a), 16)
        } else if op == 0xfa {
            let (c1, a) = self.fetch16_spec(bus);
            (Cpu { a: bus.read8_spec(a), ..c1 }, bus, 16)
        } else {
            (Cpu { sp: self.hl_spec(), ..self }, bus, 8)
        }
    }

    /// Whether `op` is one of the loads of `load_spec`.
    pub open spec fn is_load(op: u8) -> bool {
        op == 0x02 || op == 0x12 || op == 0x0a || op == 0x1a || op == 0x08 || op == 0x22 || op
            == 0x2a || op == 0x32 || op == 0x3a || op == 0xe0 || op == 0xf0 || op == 0xe2 || op
            == 0xf2 || op == 0xea || op == 0xfa || op == 0xf9
    }

    /// The accumulator group: rotates of A, DAA, CPL, SCF, CCF and ALU with an immediate.
    pub open spec fn acc_spec(self, bus: BusState, op: u8) -> Outcome {
        let a = self.a;
        let ci = self.carry_in();
        if op == 0x07 {
            (Cpu { a: ((a % 128) * 2 + a / 128) as u8, f: zc_flags_spec(false, a / 128 != 0), ..self }, bus, 4)
        } else if op == 0x0f {
            (Cpu { a: (a / 2 + (a % 2) * 128) as u8, f: zc_flags_spec(false, a % 2 != 0), ..self }, bus, 4)
        } else if op == 0x17 {
            (Cpu { a: ((a % 128) * 2 + ci) as u8, f: zc_flags_spec(false, a / 128 != 0), ..self }, bus, 4)
        } else if op == 0x1f {
            (Cpu { a: (a / 2 + ci * 128) as u8, f: zc_flags_spec(false, a % 2 != 0), ..self }, bus, 4)
        } else if op == 0x27 {
            (self.daa_spec(), bus, 4)
        } else if op == 0x2f {
            (Cpu { a: !a, f: self.f | N | H, ..self }, bus, 4)
        } else if op == 0x37 {
            (Cpu { f: (self.f & Z) | C, ..self }, bus, 4)
        } else if op == 0x3f {
            (Cpu {
                f: (self.f & Z) | if self.f & C == 0 {
                    C
                } else {
                    0u8
                },
                ..self
            }, bus, 4)
        } else {
            let (c1, v) = self.fetch8_spec(bus);
            (c1.alu_spec((op >> 3u8) & 7, v), bus, 8)
        }
    }

    /// DAA: A adjusted to packed BCD after an addition (N clear) or subtraction (N set).
    pub open spec fn daa_spec(self) -> Cpu {
        let a = self.a;
        let carry = self.f & C != 0;
        let (r, carry_out) = if self.f & N == 0 {
            let lo: u8 = if self.f & H != 0 || a & 15 > 9 {
                6
            } else {
                0
            };
            let up = carry || a > 0x99;
            let hi: u8 = if up {
                0x60
            } else {
                0
            };
            (wrap8(a + lo + hi), up)
        } else {
            let lo: u8 = if self.f & H != 0 {
                6
            } else {
                0
            };
            let hi: u8 = if carry {
                0x60
            } else {
                0
            };
            (wrap8(a - lo - hi), carry)
        };
        Cpu { a: r, f: (self.f & N) | zc_flags_spec(r == 0, carry_out), ..self }
    }

    /// Whether `op` is one of the instructions of `acc_spec`.
    pub open spec fn is_acc(op: u8) -> bool {
        op == 0x07 || op == 0x0f || op == 0x17 || op == 0x1f || op == 0x27 || op == 0x2f || op
            == 0x37 || op == 0x3f || op == 0xc6 || op == 0xce || op == 0xd6 || op == 0xde || op
            == 0xe6 || op == 0xee || op == 0xf6 || op == 0xfe
    }

    /// SP plus a signed offset byte, with H and C from the low nibble and byte.
    pub open spec fn sp_offset_spec(self, e: u8) -> (u16, u8) {
        let sp = self.sp;
        (
            wrap16(sp + signed_byte(e)),
            (if (sp & 15) + (e & 15) > 15 {
                H
            } else {
                0u8
            }) | (if (sp & 255) + e > 255 {
                C
            } else {
                0u8
            }),
        )
    }

    /// The remaining control instructions (NOP, STOP, JR, JP, RET, RETI, CALL, JP HL, DI,
    /// EI, ADD SP, LD HL SP+e); any other opcode takes 4 cycles and does nothing.
    pub open spec fn control_spec(self, bus: BusState, op: u8) -> Outcome {
        if op == 0x10 {
            (self.fetch8_spec(bus).0, bus, 4)
        } else if op == 0x18 {
            let (c1, e) = self.fetch8_spec(bus);
            (Cpu { pc: wrap16(c1.pc + signed_byte(e)), ..c1 }, bus, 12)
        } else if op == 0xc3 {
            let (c1, a) = self.fetch16_spec(bus);
            (Cpu { pc: a, ..c1 }, bus, 16)
        } else if op == 0xc9 || op == 0xd9 {
            let (c1, v) = self.pop_spec(bus);
            (Cpu { pc: v, ime: if op == 0xd9 { true } else { c1.ime }, ..c1 }, bus, 16)
        } else if op == 0xcd {
            let (c1, a) = self.fetch16_spec(bus);
            let (c2, b2) = c1.push_spec(bus, c1.pc);
            (Cpu { pc: a, ..c2 }, b2, 24)
        } else if op == 0xe9 {
            (Cpu { pc: self.hl_spec(), ..self }, bus, 4)
        } else if op == 0xf3 {
            (Cpu { ime: false, ime_delay: 0, ..self }, bus, 4)
        } else if op == 0xfb {
            (Cpu { ime_delay: 2, ..self }, bus, 4)
        } else if op == 0xe8 {
            let (c1, e) = self.fetch8_spec(bus);
            let (sp, f) = c1.sp_offset_spec(e);
            (Cpu { sp, f, ..c1 }, bus, 16)
        } else if op == 0xf8 {
            let (c1, e) = self.fetch8_spec(bus);
            let (v, f) = c1.sp_offset_spec(e);
            (Cpu { f, ..c1 }.set_hl_spec(v), bus, 12)
        } else {
            (self, bus, 4)
        }
    }

    /// The CB-prefixed instructions: rotates and shifts, BIT, RES and SET.
    pub open spec fn cb_spec(self, bus: BusState) -> Outcome {
        let (c1, op) = self.fetch8_spec(bus);
        let r = op & 7;
        let v = c1.r8_spec(bus, r);
        let group = op >> 6u8;
        let bit = (op >> 3u8) & 7;
        if group == 1 {
            (Cpu {
                f: (c1.f & C) | H | if v & (1u8 << bit) == 0 {
                    Z
                } else {
                    0u8
                },
                ..c1
            }, bus, Self::hl_cost(r, 12, 8))
        } else if group >= 2 {
            let out = if group == 2 {
                v & !(1u8 << bit)
            } else {
                v | (1u8 << bit)
            };
            let (c2, b2) = c1.w8_spec(bus, r, out);
            (c2, b2, Self::hl_cost(r, 16, 8))
        } else {
            let (out, carry) = shift_spec(bit, v, c1.carry_in());
            let (c2, b2) = c1.w8_spec(bus, r, out);
            (Cpu { f: zc_flags_spec(out == 0, carry != 0), ..c2 }, b2, Self::hl_cost(r, 16, 8))
        }
    }

    /// One instruction with opcode `op`, already fetched.
    pub open spec fn exec_spec(self, bus: BusState, op: u8) -> Outcome {
        if 0x40 <= op <= 0x7f {
            self.ld_block_spec(bus, op)
        } else if 0x80 <= op <= 0xbf {
            self.alu_block_spec(bus, op)
        } else if op & 0xc7 == 0x04 || op & 0xc7 == 0x05 {
            self.inc_dec_spec(bus, op)
        } else if op & 0xc7 == 0x06 {
            self.ld_r_n_spec(bus, op)
        } else if op & 0xcf == 0x01 || op & 0xcf == 0x03 || op & 0xcf == 0x0b || op & 0xcf == 0x09 {
            self.rr_block_spec(bus, op)
        } else if op & 0xe7 == 0x20 || op & 0xe7 == 0xc0 || op & 0xe7 == 0xc2 || op & 0xe7 == 0xc4
            || op & 0xc7 == 0xc7 {
            self.branch_spec(bus, op)
        } else if op & 0xcf == 0xc1 || op & 0xcf == 0xc5 {
            self.stack_spec(bus, op)
        } else if op == 0xcb {
            self.cb_spec(bus)
        } else if Self::is_load(op) {
            self.load_spec(bus, op)
        } else if Self::is_acc(op) {
            self.acc_spec(bus, op)
        } else {
            self.control_spec(bus, op)
        }
    }

    /// One step: an interrupt dispatch, a halted wait, or one instruction; the bus then
    /// runs for the cycles taken. EI takes effect after the following instruction.
    pub open spec fn step_spec(self, bus: BusState) -> Outcome {
        let pending = bus.interrupt_enable & bus.interrupt_flags & 0x1f;
        let c0 = if pending != 0 {
            Cpu { halted: false, ..self }
        } else {
            self
        };
        if pending != 0 && self.ime {
            let bit = vstd::std_specs::bits::u8_trailing_zeros(pending);
            let b1 = BusState { interrupt_flags: bus.interrupt_flags & !(1u8 << bit as u8), ..bus };
            let (c2, b2) = Cpu { ime: false, ..c0 }.push_spec(b1, c0.pc);
            (Cpu { pc: (0x40 + bit * 8) as u16, ..c2 }, b2.ticks_spec(20), 20)
        } else if c0.halted {
            (c0, bus.ticks_spec(4), 4)
        } else {
            let (c1, op) = c0.fetch8_spec(bus);
            let (c2, b2, cycles) = c1.exec_spec(bus, op);
            let c3 = if c2.ime_delay == 1 {
                Cpu { ime_delay: 0, ime: true, ..c2 }
            } else if c2.ime_delay > 1 {
                Cpu { ime_delay: (c2.ime_delay - 1) as u8, ..c2 }
            } else {
                c2
            };
            (c3, b2.ticks_spec(cycles as nat), cycles)
        }
    }
}

/// Whether a push can store its two bytes below `sp` in RAM.
pub open spec fn stack_in_ram(sp: u16) -> bool {
    let lo = wrap16(sp - 2);
    let hi = wrap16(sp - 1);
    crate::bus::is_ram(lo) && crate::bus::is_ram(hi) && crate::bus::ram_cell(lo)
        != crate::bus::ram_cell(hi)
}

/// Law: AF reads back what was loaded, except the low nibble of F, which is always 0.
pub proof fn lemma_af_round_trip(c: Cpu, v: u16)
    ensures
        c.set_af_spec(v).af_spec() == v & 0xfff0,
{
    assert(((v / 256) as u8) as int * 256 + (((v % 256) as u8) & 0xf0) as int == (v & 0xfff0)
        as int) by (bit_vector);
}

/// Law: BC, DE, HL and SP read back what was loaded.
pub proof fn lemma_pair_round_trip(c: Cpu, n: u8, v: u16)
    ensures
        c.wr_spec(n, v).rr_spec(n) == v,
{
}

/// Law: a pushed word pops back and SP returns to where it was, when the two stack
/// bytes are RAM.
pub proof fn lemma_push_then_pop(c: Cpu, bus: BusState, v: u16)
    requires
        bus.wf(),
        stack_in_ram(c.sp),
    ensures
        ({
            let (c1, b1) = c.push_spec(bus, v);
            let (c2, r) = c1.pop_spec(b1);
            r == v && c2 == c
        }),
{
    let sp = wrap16(c.sp - 2);
    assert(wrap16(sp + 1) == wrap16(c.sp - 1));
    crate::bus::lemma_word_write_then_read(bus, sp, v);
}

/// Law: CALL nn pushes the address after it and jumps to nn, taking 24 cycles; a RET
/// reached with SP back where the CALL left it and the two stack bytes intact returns
/// there with SP restored, taking 16 cycles. CALL followed directly by RET leaves every
/// register as before. The stack must be RAM.
#[verifier::rlimit(50)]
pub proof fn lemma_call_then_return(c: Cpu, bus: BusState, mid: Cpu, mid_bus: BusState)
    requires
        bus.wf(),
        stack_in_ram(c.sp),
    ensures
        ({
            let (c1, b1, n1) = c.exec_spec(bus, 0xcd);
            &&& n1 == 24
            &&& c1 == Cpu { pc: bus.read16_spec(c.pc), sp: wrap16(c.sp - 2), ..c }
            &&& b1.read16_spec(c1.sp) == wrap16(c.pc + 2)
            &&& mid.sp == c1.sp && mid_bus.read16_spec(mid.sp) == b1.read16_spec(c1.sp) ==> {
                let (c2, b2, n2) = mid.exec_spec(mid_bus, 0xc9);
                &&& n2 == 16
                &&& c2 == Cpu { pc: wrap16(c.pc + 2), sp: c.sp, ..mid }
                &&& b2 == mid_bus
            }
            &&& {
                let (c2, b2, n2) = c1.exec_spec(b1, 0xc9);
                c2 == Cpu { pc: wrap16(c.pc + 2), ..c }
            }
        }),
{
    let (c1, b1, n1) = c.exec_spec(bus, 0xcd);
    lemma_call_ret_decode(c, bus);
    lemma_call_ret_decode(mid, mid_bus);
    lemma_call_ret_decode(c1, b1);
    lemma_call_effect(c, bus);
    lemma_ret_effect(mid, mid_bus);
    lemma_ret_effect(c1, b1);
}

/// Whether the two bytes below `sp` are work RAM or high RAM, where machine cycles
/// change nothing.
pub open spec fn stack_in_work_ram(sp: u16) -> bool {
    let lo = wrap16(sp - 2);
    let hi = wrap16(sp - 1);
    &&& 0xc000 <= lo < hi <= 0xdfff || 0xff80 <= lo < hi <= 0xfffe
}

/// Law: as whole steps, with interrupts disabled, a CALL nn whose target holds RET
/// takes 24 cycles to reach the target and the RET 16 more to come back to the
/// instruction after the CALL, with every register as before.
#[verifier::spinoff_prover]
#[verifier::rlimit(80)]
pub proof fn lemma_call_then_return_steps(c: Cpu, bus: BusState)
    requires
        bus.wf(),
        stack_in_work_ram(c.sp),
        !c.ime,
        !c.halted,
        c.ime_delay == 0,
        bus.read8_spec(c.pc) == 0xcd,
    ensures
        ({
            let (c1, b1, n1) = c.step_spec(bus);
            &&& n1 == 24
            &&& c1.pc == bus.read16_spec(wrap16(c.pc + 1))
            &&& b1.read8_spec(c1.pc) == 0xc9 ==> {
                let (c2, b2, n2) = c1.step_spec(b1);
                &&& n2 == 16
                &&& c2 == Cpu { pc: wrap16(c.pc + 3), ..c }
            }
        }),
{
    let (cf, op) = c.fetch8_spec(bus);
    let (ce, be, ne) = cf.exec_spec(bus, 0xcd);
    assert(stack_in_ram(cf.sp));
    lemma_call_then_return(cf, bus, ce, be);
    lemma_step_runs_instruction(c, bus);
    let (c1, b1, n1) = c.step_spec(bus);
    assert(c1 == ce && b1 == be.ticks_spec(24) && n1 == 24);
    let lo = ce.sp;
    let hi = wrap16(ce.sp + 1);
    assert(lo == wrap16(c.sp - 2) && hi == wrap16(c.sp - 1));
    crate::bus::lemma_ticks_keep_ram(be, 24, lo);
    crate::bus::lemma_ticks_keep_ram(be, 24, ((ce.sp + 1) % 0x10000) as u16);
    assert(b1.read16_spec(ce.sp) == be.read16_spec(ce.sp));
    if b1.read8_spec(c1.pc) == 0xc9 {
        let (cg, op2) = c1.fetch8_spec(b1);
        lemma_step_runs_instruction(c1, b1);
        lemma_call_then_return(cf, bus, cg, b1);
        lemma_ret_effect(cg, b1);
    }
}

/// With interrupts disabled and no EI pending, a step fetches and runs one instruction
/// other than DI, EI and RETI, then runs the bus for its cycles.
#[verifier::spinoff_prover]
#[verifier::rlimit(40)]
proof fn lemma_step_runs_instruction(c: Cpu, bus: BusState)
    requires
        !c.ime,
        !c.halted,
        c.ime_delay == 0,
        bus.read8_spec(c.pc) != 0xf3 && bus.read8_spec(c.pc) != 0xfb && bus.read8_spec(c.pc)
            != 0xd9,
    ensures
        ({
            let (c1, op) = c.fetch8_spec(bus);
            let (c2, b2, n) = c1.exec_spec(bus, op);
            c.step_spec(bus) == (c2, b2.ticks_spec(n as nat), n)
        }),
{
    let (c1, op) = c.fetch8_spec(bus);
    lemma_exec_keeps_ime(c1, bus, op);
}

/// Law: the branch conditions NZ, Z, NC and C of JR, JP, CALL and RET hold exactly when
/// the Z or C flag is clear, set, clear or set.
pub proof fn lemma_conditions(c: Cpu)
    ensures
        c.cond_spec(0) == (c.f & 0x80 == 0),
        c.cond_spec(1) == (c.f & 0x80 != 0),
        c.cond_spec(2) == (c.f & 0x10 == 0),
        c.cond_spec(3) == (c.f & 0x10 != 0),
{
}

/// Law: when IME is set and an enabled interrupt is requested, a step serves the
/// lowest-numbered one `i` (0 vertical blank, 1 STAT, 2 timer, 3 serial, 4 joypad): it
/// pushes PC, jumps to 0x40 + 8 i with IME cleared and not halted, and takes 20 cycles.
#[verifier::spinoff_prover]
#[verifier::rlimit(80)]
pub proof fn lemma_interrupt_dispatch(c: Cpu, bus: BusState)
    requires
        bus.wf(),
        c.ime,
        bus.interrupt_enable & bus.interrupt_flags & 0x1f != 0,
        stack_in_work_ram(c.sp),
    ensures
        ({
            let pending = bus.interrupt_enable & bus.interrupt_flags & 0x1f;
            let (c1, b1, n) = c.step_spec(bus);
            &&& n == 20
            &&& !c1.ime && !c1.halted
            &&& c1.sp == wrap16(c.sp - 2)
            &&& b1.read16_spec(c1.sp) == c.pc
            &&& exists|i: u8|
                i < 5 && c1.pc == 0x40 + 8 * i && (pending >> i) & 1 == 1 && forall|k: u8|
                    k < i ==> #[trigger] ((pending >> k) & 1) == 0
        }),
{
    let pending = bus.interrupt_enable & bus.interrupt_flags & 0x1f;
    lemma_lowest_pending(bus.interrupt_enable, bus.interrupt_flags);
    let bit = vstd::std_specs::bits::u8_trailing_zeros(pending);
    let b0 = BusState { interrupt_flags: bus.interrupt_flags & !(1u8 << bit as u8), ..bus };
    lemma_dispatch_step(c, bus);
    lemma_dispatch_stack(c, b0);
}

/// The return address a dispatch pushes survives the machine cycles that follow.
proof fn lemma_dispatch_stack(c: Cpu, b0: BusState)
    requires
        b0.wf(),
        stack_in_work_ram(c.sp),
    ensures
        ({
            let (c2, b2) = (Cpu { ime: false, halted: false, ..c }).push_spec(b0, c.pc);
            &&& c2.sp == wrap16(c.sp - 2)
            &&& b2.ticks_spec(20).read16_spec(c2.sp) == c.pc
        }),
{
    let c0 = Cpu { ime: false, halted: false, ..c };
    let (c2, b2) = c0.push_spec(b0, c.pc);
    let sp = c2.sp;
    let next = ((sp + 1) % 0x10000) as u16;
    assert(sp == wrap16(c.sp - 2) && next == wrap16(c.sp - 1));
    crate::bus::lemma_word_write_then_read(b0, sp, c.pc);
    crate::bus::lemma_ticks_keep_ram(b2, 20, sp);
    crate::bus::lemma_ticks_keep_ram(b2, 20, next);
}

/// A step with IME set and an enabled interrupt pending is a dispatch.
#[verifier::spinoff_prover]
#[verifier::rlimit(40)]
proof fn lemma_dispatch_step(c: Cpu, bus: BusState)
    requires
        c.ime,
        bus.interrupt_enable & bus.interrupt_flags & 0x1f != 0,
    ensures
        ({
            let pending = bus.interrupt_enable & bus.interrupt_flags & 0x1f;
            let bit = vstd::std_specs::bits::u8_trailing_zeros(pending);
            let b0 = BusState { interrupt_flags: bus.interrupt_flags & !(1u8 << bit as u8), ..bus };
            let (c2, b2) = (Cpu { ime: false, halted: false, ..c }).push_spec(b0, c.pc);
            c.step_spec(bus) == (Cpu { pc: (0x40 + bit * 8) as u16, ..c2 }, b2.ticks_spec(20), 20u8)
        }),
{
}

/// The interrupt a dispatch serves is the lowest-numbered pending one.
proof fn lemma_lowest_pending(ie: u8, iflags: u8)
    requires
        ie & iflags & 0x1f != 0,
    ensures
        ({
            let pending = ie & iflags & 0x1f;
            let i = vstd::std_specs::bits::u8_trailing_zeros(pending);
            &&& i < 5
            &&& (pending >> i as u8) & 1 == 1
            &&& forall|k: u8| k < i ==> #[trigger] ((pending >> k) & 1) == 0
        }),
{
    broadcast use vstd::std_specs::bits::axiom_u8_trailing_zeros;

    let pending = ie & iflags & 0x1f;
    let bit = vstd::std_specs::bits::u8_trailing_zeros(pending);
    assert(pending & 0xe0 == 0 && (pending != 0 ==> (pending >> 0u8) & 1 != 0 || (pending >> 1u8)
        & 1 != 0 || (pending >> 2u8) & 1 != 0 || (pending >> 3u8) & 1 != 0 || (pending >> 4u8) & 1
        != 0)) by (bit_vector)
        requires
            pending == ie & iflags & 0x1f,
    ;
    assert(bit < 5) by {
        if bit >= 5 {
            assert((pending >> 0u8) & 1u8 == 0u8);
            assert((pending >> 1u8) & 1u8 == 0u8);
            assert((pending >> 2u8) & 1u8 == 0u8);
            assert((pending >> 3u8) & 1u8 == 0u8);
            assert((pending >> 4u8) & 1u8 == 0u8);
        }
    }
}

/// Law: the loads through HL with post-increment and post-decrement store or load A at
/// HL and then move HL by one (modulo 0x10000); LDH (n) and LDH (C) address 0xff00 plus
/// the operand byte or C. Each takes the cycles the instruction is documented with.
#[verifier::rlimit(50)]
pub proof fn lemma_load_law(c: Cpu, bus: BusState)
    ensures
        ({
            let hl = c.hl_spec();
            let n = bus.read8_spec(c.pc);
            let (s1, b1, k1) = c.load_spec(bus, 0x22);
            let (s2, b2, k2) = c.load_spec(bus, 0x32);
            let (s3, b3, k3) = c.load_spec(bus, 0x2a);
            let (s4, b4, k4) = c.load_spec(bus, 0x3a);
            let (s5, b5, k5) = c.load_spec(bus, 0xe0);
            let (s6, b6, k6) = c.load_spec(bus, 0xf0);
            let (s7, b7, k7) = c.load_spec(bus, 0xe2);
            let (s8, b8, k8) = c.load_spec(bus, 0xf2);
            &&& b1 == bus.write8_spec(hl, c.a) && s1.hl_spec() == (hl + 1) % 0x10000 && s1.a == c.a
                && k1 == 8
            &&& b2 == bus.write8_spec(hl, c.a) && s2.hl_spec() == (hl - 1) % 0x10000 && s2.a == c.a
                && k2 == 8
            &&& b3 == bus && s3.a == bus.read8_spec(hl) && s3.hl_spec() == (hl + 1) % 0x10000 && k3
                == 8
            &&& b4 == bus && s4.a == bus.read8_spec(hl) && s4.hl_spec() == (hl - 1) % 0x10000 && k4
                == 8
            &&& b5 == bus.write8_spec((0xff00 + n) as u16, c.a) && s5.pc == (c.pc + 1) % 0x10000
                && k5 == 12
            &&& b6 == bus && s6.a == bus.read8_spec((0xff00 + n) as u16) && s6.pc == (c.pc + 1)
                % 0x10000 && k6 == 12
            &&& b7 == bus.write8_spec((0xff00 + c.c) as u16, c.a) && k7 == 8
            &&& b8 == bus && s8.a == bus.read8_spec((0xff00 + c.c) as u16) && k8 == 8
        }),
{
}

/// Law: the conditional transfers with condition `cc` (0 NZ, 1 Z, 2 NC, 3 C; see
/// `lemma_conditions`): JR cc,e moves PC past the offset and, when the condition holds,
/// by the signed offset (12 cycles, else 8); JP cc,nn jumps to nn when it holds (16, else
/// 12); CALL cc,nn also pushes the return address (24, else 12); RET cc pops PC when it
/// holds (20, else 8). RST k pushes PC and jumps to 8 k (16 cycles).
#[verifier::rlimit(50)]
pub proof fn lemma_branch_law(c: Cpu, bus: BusState, cc: u8, k: u8)
    requires
        cc < 4,
        k < 8,
    ensures
        ({
            let taken = c.cond_spec(cc);
            let e = bus.read8_spec(c.pc);
            let nn = bus.read16_spec(c.pc);
            let after1 = wrap16(c.pc + 1);
            let after2 = wrap16(c.pc + 2);
            let (j1, jb1, jn1) = c.branch_spec(bus, (0x20 + 8 * cc) as u8);
            let (j2, jb2, jn2) = c.branch_spec(bus, (0xc2 + 8 * cc) as u8);
            let (j3, jb3, jn3) = c.branch_spec(bus, (0xc4 + 8 * cc) as u8);
            let (j4, jb4, jn4) = c.branch_spec(bus, (0xc0 + 8 * cc) as u8);
            let (j5, jb5, jn5) = c.branch_spec(bus, (0xc7 + 8 * k) as u8);
            &&& j1.pc == (if taken { wrap16(after1 + signed_byte(e)) } else { after1 }) && jb1 == bus
                && jn1 == (if taken { 12u8 } else { 8 })
            &&& j2.pc == (if taken { nn } else { after2 }) && jb2 == bus && jn2 == (if taken { 16u8 } else {
                12
            })
            &&& j3.pc == (if taken { nn } else { after2 }) && jn3 == (if taken { 24u8 } else { 12 })
            &&& taken ==> j3.sp == wrap16(c.sp - 2) && jb3 == bus.write16_spec(wrap16(c.sp - 2), after2)
            &&& j4.pc == (if taken { bus.read16_spec(c.sp) } else { c.pc }) && jb4 == bus && jn4 == (
            if taken { 20u8 } else { 8 })
            &&& j5.pc == 8 * k && j5.sp == wrap16(c.sp - 2) && jb5 == bus.write16_spec(wrap16(c.sp - 2),
                c.pc) && jn5 == 16
        }),
{
    assert({
        &&& ((0x20 + 8 * cc) as u8) & 0xe7 == 0x20 && ((0x20 + 8 * cc) as u8 >> 3u8) & 3 == cc
        &&& ((0xc2 + 8 * cc) as u8) & 0xe7 == 0xc2 && ((0xc2 + 8 * cc) as u8 >> 3u8) & 3 == cc
        &&& ((0xc4 + 8 * cc) as u8) & 0xe7 == 0xc4 && ((0xc4 + 8 * cc) as u8 >> 3u8) & 3 == cc
        &&& ((0xc0 + 8 * cc) as u8) & 0xe7 == 0xc0 && ((0xc0 + 8 * cc) as u8 >> 3u8) & 3 == cc
        &&& ((0xc7 + 8 * k) as u8) & 0xe7 != 0x20 && ((0xc7 + 8 * k) as u8) & 0xe7 != 0xc0
        &&& ((0xc7 + 8 * k) as u8) & 0xe7 != 0xc2 && ((0xc7 + 8 * k) as u8) & 0xe7 != 0xc4
        &&& ((0xc7 + 8 * k) as u8) & 0x38 == 8 * k
    }) by (bit_vector)
        requires
            cc < 4,
            k < 8,
    ;
}

/// Law: HALT stops the processor (4 cycles); while it is halted and no enabled
/// interrupt is requested, each step changes no register and only runs the bus for 4
/// cycles.
#[verifier::rlimit(50)]
pub proof fn lemma_halt(c: Cpu, bus: BusState)
    ensures
        c.exec_spec(bus, 0x76) == (Cpu { halted: true, ..c }, bus, 4u8),
        c.halted && bus.interrupt_enable & bus.interrupt_flags & 0x1f == 0 ==> c.step_spec(bus) == (
        c, bus.ticks_spec(4), 4u8),
{
}

/// Law: LD r, r' (opcode 0x40 + 8 r + r', other than HALT) copies the operand `r'` into
/// `r`, where operand 6 is the byte at HL: a register destination then holds the source
/// value, a memory destination is written with it. It takes 8 cycles when memory is
/// involved and 4 otherwise.
#[verifier::rlimit(50)]
pub proof fn lemma_ld_law(c: Cpu, bus: BusState, d: u8, s: u8)
    requires
        d < 8,
        s < 8,
        !(d == 6 && s == 6),
    ensures
        ({
            let (c2, b2, n) = c.exec_spec(bus, (0x40 + 8 * d + s) as u8);
            let v = c.r8_spec(bus, s);
            &&& d != 6 ==> c2.r8_spec(b2, d) == v && b2 == bus
            &&& d == 6 ==> b2 == bus.write8_spec(c.hl_spec(), v) && c2 == c
            &&& n == if d == 6 || s == 6 { 8u8 } else { 4u8 }
        }),
{
    lemma_cb_fields(1, d, s);
}

/// Law: the 16-bit register group for pair `n` (0 BC, 1 DE, 2 HL, 3 SP): LD rr,nn loads
/// the operand word (12 cycles); INC rr and DEC rr count modulo 0x10000 and keep the flags
/// (8 cycles); ADD HL,rr adds modulo 0x10000 with H the carry out of bit 11 and C the
/// carry out of bit 15, clears N and keeps Z (8 cycles).
#[verifier::rlimit(50)]
pub proof fn lemma_pair_ops_law(c: Cpu, bus: BusState, n: u8)
    requires
        n < 4,
    ensures
        ({
            let r = c.rr_spec(n);
            let hl = c.hl_spec();
            let (c1, b1, k1) = c.exec_spec(bus, (0x01 + 16 * n) as u8);
            let (c2, b2, k2) = c.exec_spec(bus, (0x03 + 16 * n) as u8);
            let (c3, b3, k3) = c.exec_spec(bus, (0x0b + 16 * n) as u8);
            let (c4, b4, k4) = c.exec_spec(bus, (0x09 + 16 * n) as u8);
            &&& c1.rr_spec(n) == bus.read16_spec(c.pc) && b1 == bus && k1 == 12
            &&& c2.rr_spec(n) == (r + 1) % 0x10000 && c2.f == c.f && b2 == bus && k2 == 8
            &&& c3.rr_spec(n) == (r - 1) % 0x10000 && c3.f == c.f && b3 == bus && k3 == 8
            &&& c4.hl_spec() == (hl + r) % 0x10000 && b4 == bus && k4 == 8
            &&& flags_are(c4.f, c.f & Z != 0, false, hl % 0x1000 + r % 0x1000 > 0xfff, hl + r
                > 0xffff)
        }),
{
    let o1 = (0x01 + 16 * n) as u8;
    let o3 = (0x03 + 16 * n) as u8;
    let ob = (0x0b + 16 * n) as u8;
    let o9 = (0x09 + 16 * n) as u8;
    let r = c.rr_spec(n);
    let hl = c.hl_spec();
    let f = c.f;
    let f4 = (f & Z) | (if (hl & 0xfff) + (r & 0xfff) > 0xfff { H } else { 0u8 }) | (if hl as int
        + r as int > 0xffff { C } else { 0u8 });
    assert({
        &&& o1 & 0xcf == 0x01 && o3 & 0xcf == 0x03 && ob & 0xcf == 0x0b && o9 & 0xcf == 0x09
        &&& (o1 >> 4u8) & 3 == n && (o3 >> 4u8) & 3 == n && (ob >> 4u8) & 3 == n && (o9 >> 4u8)
            & 3 == n
        &&& o1 & 0xc7 == 0x01 && o3 & 0xc7 == 0x03 && ob & 0xc7 == 0x03 && o9 & 0xc7 == 0x01
        &&& hl & 0xfff == hl % 0x1000 && r & 0xfff == r % 0x1000
        &&& flags_are(f4, f & Z != 0, false, (hl & 0xfff) + (r & 0xfff) > 0xfff, hl as int + r as int
            > 0xffff)
    }) by (bit_vector)
        requires
            n < 4,
            o1 == (0x01 + 16 * n) as u8,
            o3 == (0x03 + 16 * n) as u8,
            ob == (0x0b + 16 * n) as u8,
            o9 == (0x09 + 16 * n) as u8,
            f4 == (f & Z) | (if (hl & 0xfff) + (r & 0xfff) > 0xfff { H } else { 0u8 }) | (if hl as int
                + r as int > 0xffff { C } else { 0u8 }),
    ;
    assert(c.exec_spec(bus, o1) == c.rr_block_spec(bus, o1));
    assert(c.exec_spec(bus, o3) == c.rr_block_spec(bus, o3));
    assert(c.exec_spec(bus, ob) == c.rr_block_spec(bus, ob));
    assert(c.exec_spec(bus, o9) == c.rr_block_spec(bus, o9));
}

/// What CALL nn does, as a control transfer.
proof fn lemma_call_effect(c: Cpu, bus: BusState)
    requires
        bus.wf(),
        stack_in_ram(c.sp),
    ensures
        ({
            let (c1, b1, n1) = c.control_spec(bus, 0xcd);
            &&& n1 == 24
            &&& c1 == Cpu { pc: bus.read16_spec(c.pc), sp: wrap16(c.sp - 2), ..c }
            &&& b1.read16_spec(c1.sp) == wrap16(c.pc + 2)
            &&& wrap16(c1.sp + 2) == c.sp
        }),
{
    let (c1, a) = c.fetch16_spec(bus);
    assert(c1.pc == wrap16(c.pc + 2));
    lemma_push_then_pop(c1, bus, c1.pc);
}

/// What RET does, as a control transfer.
proof fn lemma_ret_effect(c: Cpu, bus: BusState)
    ensures
        ({
            let (c2, b2, n2) = c.control_spec(bus, 0xc9);
            &&& n2 == 16
            &&& c2 == Cpu { pc: bus.read16_spec(c.sp), sp: wrap16(c.sp + 2), ..c }
            &&& b2 == bus
        }),
{
}

/// CALL nn and RET are decoded as control transfers.
proof fn lemma_call_ret_decode(c: Cpu, bus: BusState)
    ensures
        c.exec_spec(bus, 0xcd) == c.control_spec(bus, 0xcd),
        c.exec_spec(bus, 0xc9) == c.control_spec(bus, 0xc9),
{
    lemma_control_opcode_fields();
}

/// Whether an outcome leaves the interrupt master enable and the EI delay as in `c`.
spec fn keeps_ime(c: Cpu, o: Outcome) -> bool {
    o.0.ime == c.ime && o.0.ime_delay == c.ime_delay
}

/// Only DI, EI and RETI change the interrupt master enable or the pending EI delay.
proof fn lemma_exec_keeps_ime(c: Cpu, bus: BusState, op: u8)
    requires
        op != 0xf3 && op != 0xfb && op != 0xd9,
    ensures
        keeps_ime(c, c.exec_spec(bus, op)),
{
    lemma_ld_block_keeps_ime(c, bus, op);
    lemma_alu_block_keeps_ime(c, bus, op);
    lemma_inc_dec_keeps_ime(c, bus, op);
    lemma_ld_r_n_keeps_ime(c, bus, op);
    lemma_rr_block_keeps_ime(c, bus, op);
    lemma_branch_keeps_ime(c, bus, op);
    lemma_stack_keeps_ime(c, bus, op);
    lemma_load_keeps_ime(c, bus, op);
    lemma_acc_keeps_ime(c, bus, op);
    lemma_cb_keeps_ime(c, bus);
    lemma_control_keeps_ime(c, bus, op);
}

proof fn lemma_ld_block_keeps_ime(c: Cpu, bus: BusState, op: u8)
    ensures
        keeps_ime(c, c.ld_block_spec(bus, op)),
{
    lemma_op_fields();
}

proof fn lemma_alu_block_keeps_ime(c: Cpu, bus: BusState, op: u8)
    ensures
        keeps_ime(c, c.alu_block_spec(bus, op)),
{
    lemma_op_fields();
}

proof fn lemma_inc_dec_keeps_ime(c: Cpu, bus: BusState, op: u8)
    ensures
        keeps_ime(c, c.inc_dec_spec(bus, op)),
{
    lemma_op_fields();
}

proof fn lemma_ld_r_n_keeps_ime(c: Cpu, bus: BusState, op: u8)
    ensures
        keeps_ime(c, c.ld_r_n_spec(bus, op)),
{
    lemma_op_fields();
}

proof fn lemma_rr_block_keeps_ime(c: Cpu, bus: BusState, op: u8)
    ensures
        keeps_ime(c, c.rr_block_spec(bus, op)),
{
    lemma_op_fields();
}

proof fn lemma_branch_keeps_ime(c: Cpu, bus: BusState, op: u8)
    ensures
        keeps_ime(c, c.branch_spec(bus, op)),
{
    lemma_op_fields();
}

proof fn lemma_stack_keeps_ime(c: Cpu, bus: BusState, op: u8)
    ensures
        keeps_ime(c, c.stack_spec(bus, op)),
{
    lemma_op_fields();
}

proof fn lemma_load_keeps_ime(c: Cpu, bus: BusState, op: u8)
    ensures
        keeps_ime(c, c.load_spec(bus, op)),
{
    lemma_op_fields();
}

proof fn lemma_acc_keeps_ime(c: Cpu, bus: BusState, op: u8)
    ensures
        keeps_ime(c, c.acc_spec(bus, op)),
{
    lemma_op_fields();
}

proof fn lemma_cb_keeps_ime(c: Cpu, bus: BusState)
    ensures
        keeps_ime(c, c.cb_spec(bus)),
{
    lemma_op_fields();
}

proof fn lemma_control_keeps_ime(c: Cpu, bus: BusState, op: u8)
    requires
        op != 0xf3 && op != 0xfb && op != 0xd9,
    ensures
        keeps_ime(c, c.control_spec(bus, op)),
{
}

/// Whether `n` is a cycle count an instruction can take: a multiple of 4 from 4 to 24.
pub open spec fn valid_cycles(n: u8) -> bool {
    n == 4 || n == 8 || n == 12 || n == 16 || n == 20 || n == 24
}

/// Law: every step (an instruction, a halted wait or an interrupt dispatch) takes 4,
/// 8, 12, 16, 20 or 24 cycles.
#[verifier::rlimit(50)]
pub proof fn lemma_step_cycles(c: Cpu, bus: BusState)
    ensures
        valid_cycles(c.step_spec(bus).2),
{
    let pending = bus.interrupt_enable & bus.interrupt_flags & 0x1f;
    let c0 = if pending != 0 { Cpu { halted: false, ..c } } else { c };
    let (c1, op) = c0.fetch8_spec(bus);
    lemma_exec_cycles(c1, bus, op);
}

/// Every instruction takes one of the valid cycle counts.
proof fn lemma_exec_cycles(c: Cpu, bus: BusState, op: u8)
    ensures
        valid_cycles(c.exec_spec(bus, op).2),
{
    lemma_ld_block_cycles(c, bus, op);
    lemma_alu_block_cycles(c, bus, op);
    lemma_inc_dec_cycles(c, bus, op);
    lemma_ld_r_n_cycles(c, bus, op);
    lemma_rr_block_cycles(c, bus, op);
    lemma_branch_cycles(c, bus, op);
    lemma_stack_cycles(c, bus, op);
    lemma_load_cycles(c, bus, op);
    lemma_acc_cycles(c, bus, op);
    lemma_control_cycles(c, bus, op);
    lemma_cb_cycles(c, bus);
}

proof fn lemma_ld_block_cycles(c: Cpu, bus: BusState, op: u8)
    ensures
        valid_cycles(c.ld_block_spec(bus, op).2),
{
    lemma_op_fields();
}

proof fn lemma_alu_block_cycles(c: Cpu, bus: BusState, op: u8)
    ensures
        valid_cycles(c.alu_block_spec(bus, op).2),
{
    lemma_op_fields();
}

proof fn lemma_inc_dec_cycles(c: Cpu, bus: BusState, op: u8)
    ensures
        valid_cycles(c.inc_dec_spec(bus, op).2),
{
    lemma_op_fields();
}

proof fn lemma_ld_r_n_cycles(c: Cpu, bus: BusState, op: u8)
    ensures
        valid_cycles(c.ld_r_n_spec(bus, op).2),
{
    lemma_op_fields();
}

proof fn lemma_rr_block_cycles(c: Cpu, bus: BusState, op: u8)
    ensures
        valid_cycles(c.rr_block_spec(bus, op).2),
{
    lemma_op_fields();
}

proof fn lemma_branch_cycles(c: Cpu, bus: BusState, op: u8)
    ensures
        valid_cycles(c.branch_spec(bus, op).2),
{
    lemma_op_fields();
}

proof fn lemma_stack_cycles(c: Cpu, bus: BusState, op: u8)
    ensures
        valid_cycles(c.stack_spec(bus, op).2),
{
    lemma_op_fields();
}

proof fn lemma_load_cycles(c: Cpu, bus: BusState, op: u8)
    ensures
        valid_cycles(c.load_spec(bus, op).2),
{
    lemma_op_fields();
}

proof fn lemma_acc_cycles(c: Cpu, bus: BusState, op: u8)
    ensures
        valid_cycles(c.acc_spec(bus, op).2),
{
    lemma_op_fields();
}

proof fn lemma_control_cycles(c: Cpu, bus: BusState, op: u8)
    ensures
        valid_cycles(c.control_spec(bus, op).2),
{
    lemma_op_fields();
}

proof fn lemma_cb_cycles(c: Cpu, bus: BusState)
    ensures
        valid_cycles(c.cb_spec(bus).2),
{
    lemma_op_fields();
}

/// How the low nibble of a flag byte combines.
proof fn lemma_nibble_facts()
    ensures
        forall|x: u8, y: u8| #[trigger] ((x | y) & 15) == (x & 15) | (y & 15),
        forall|x: u8, m: u8| m & 15 == 0 ==> #[trigger] ((x & m) & 15) == 0,
        Z & 15 == 0 && N & 15 == 0 && H & 15 == 0 && C & 15 == 0,
        0u8 & 15 == 0 && 0u8 | 0u8 == 0 && 0xf0u8 & 15 == 0,
{
    assert({
        &&& (forall|x: u8, y: u8| #[trigger] ((x | y) & 15) == (x & 15) | (y & 15))
        &&& (forall|x: u8, m: u8| m & 15 == 0 ==> #[trigger] ((x & m) & 15) == 0)
        &&& Z & 15 == 0 && N & 15 == 0 && H & 15 == 0 && C & 15 == 0
        &&& 0u8 & 15 == 0 && 0u8 | 0u8 == 0 && 0xf0u8 & 15 == 0
    }) by (bit_vector);
}

/// Whether the low nibble of F is clear before and after an outcome.
spec fn keeps_nibble(c: Cpu, o: Outcome) -> bool {
    c.f & 15 == 0 ==> o.0.f & 15 == 0
}

/// Law: the low nibble of F always reads 0: no step sets any of its bits.
#[verifier::rlimit(50)]
pub proof fn lemma_flags_low_nibble(c: Cpu, bus: BusState)
    requires
        c.f & 15 == 0,
    ensures
        c.step_spec(bus).0.f & 15 == 0,
{
    let pending = bus.interrupt_enable & bus.interrupt_flags & 0x1f;
    let c0 = if pending != 0 { Cpu { halted: false, ..c } } else { c };
    let (c1, op) = c0.fetch8_spec(bus);
    lemma_exec_keeps_nibble(c1, bus, op);
}

/// No instruction sets a bit of F's low nibble.
proof fn lemma_exec_keeps_nibble(c: Cpu, bus: BusState, op: u8)
    ensures
        keeps_nibble(c, c.exec_spec(bus, op)),
{
    lemma_ld_block_keeps_nibble(c, bus, op);
    lemma_alu_block_keeps_nibble(c, bus, op);
    lemma_inc_dec_keeps_nibble(c, bus, op);
    lemma_ld_r_n_keeps_nibble(c, bus, op);
    lemma_rr_block_keeps_nibble(c, bus, op);
    lemma_branch_keeps_nibble(c, bus, op);
    lemma_stack_keeps_nibble(c, bus, op);
    lemma_load_keeps_nibble(c, bus, op);
    lemma_acc_keeps_nibble(c, bus, op);
    lemma_control_keeps_nibble(c, bus, op);
    lemma_cb_keeps_nibble(c, bus);
}

proof fn lemma_ld_block_keeps_nibble(c: Cpu, bus: BusState, op: u8)
    ensures
        keeps_nibble(c, c.ld_block_spec(bus, op)),
{
    lemma_op_fields();
    lemma_nibble_facts();
}

proof fn lemma_alu_block_keeps_nibble(c: Cpu, bus: BusState, op: u8)
    ensures
        keeps_nibble(c, c.alu_block_spec(bus, op)),
{
    lemma_op_fields();
    lemma_nibble_facts();
}

proof fn lemma_inc_dec_keeps_nibble(c: Cpu, bus: BusState, op: u8)
    ensures
        keeps_nibble(c, c.inc_dec_spec(bus, op)),
{
    lemma_op_fields();
    lemma_nibble_facts();
}

proof fn lemma_ld_r_n_keeps_nibble(c: Cpu, bus: BusState, op: u8)
    ensures
        keeps_nibble(c, c.ld_r_n_spec(bus, op)),
{
    lemma_op_fields();
    lemma_nibble_facts();
}

proof fn lemma_rr_block_keeps_nibble(c: Cpu, bus: BusState, op: u8)
    ensures
        keeps_nibble(c, c.rr_block_spec(bus, op)),
{
    lemma_op_fields();
    lemma_nibble_facts();
}

proof fn lemma_branch_keeps_nibble(c: Cpu, bus: BusState, op: u8)
    ensures
        keeps_nibble(c, c.branch_spec(bus, op)),
{
    lemma_op_fields();
    lemma_nibble_facts();
}

proof fn lemma_stack_keeps_nibble(c: Cpu, bus: BusState, op: u8)
    ensures
        keeps_nibble(c, c.stack_spec(bus, op)),
{
    lemma_op_fields();
    lemma_nibble_facts();
}

proof fn lemma_load_keeps_nibble(c: Cpu, bus: BusState, op: u8)
    ensures
        keeps_nibble(c, c.load_spec(bus, op)),
{
    lemma_op_fields();
    lemma_nibble_facts();
}

proof fn lemma_acc_keeps_nibble(c: Cpu, bus: BusState, op: u8)
    ensures
        keeps_nibble(c, c.acc_spec(bus, op)),
{
    lemma_op_fields();
    lemma_nibble_facts();
}

proof fn lemma_control_keeps_nibble(c: Cpu, bus: BusState, op: u8)
    ensures
        keeps_nibble(c, c.control_spec(bus, op)),
{
    lemma_op_fields();
    lemma_nibble_facts();
}

proof fn lemma_cb_keeps_nibble(c: Cpu, bus: BusState)
    ensures
        keeps_nibble(c, c.cb_spec(bus)),
{
    lemma_op_fields();
    lemma_nibble_facts();
}

/// Whether the serial log after an outcome extends the one in `bus`.
spec fn extends_log(bus: BusState, o: Outcome) -> bool {
    bus.serial.is_prefix_of(o.1.serial)
}

/// Every bus write keeps the serial log as a prefix.
proof fn lemma_writes_extend_log()
    ensures
        forall|b: BusState, a: u16, v: u8| #[trigger]
            b.serial.is_prefix_of(b.write8_spec(a, v).serial),
        forall|b: BusState, a: u16, v: u16| #[trigger]
            b.serial.is_prefix_of(b.write16_spec(a, v).serial),
        forall|b: BusState| #[trigger] b.serial.is_prefix_of(b.serial),
{
    assert forall|b: BusState, a: u16, v: u8|
        #[trigger] b.serial.is_prefix_of(b.write8_spec(a, v).serial) by {
        crate::bus::lemma_serial_log_grows(b, a, v, 0);
    }
    assert forall|b: BusState, a: u16, v: u16|
        #[trigger] b.serial.is_prefix_of(b.write16_spec(a, v).serial) by {
        crate::bus::lemma_serial_log_grows(b, a, 0, v);
    }
    assert forall|b: BusState| #[trigger] b.serial.is_prefix_of(b.serial) by {
        assert(b.serial.subrange(0, b.serial.len() as int) =~= b.serial);
    }
}

/// Law: a processor step only ever appends to the serial log.
#[verifier::spinoff_prover]
#[verifier::rlimit(80)]
pub proof fn lemma_step_extends_log(c: Cpu, bus: BusState)
    ensures
        bus.serial.is_prefix_of(c.step_spec(bus).1.serial),
{
    let pending = bus.interrupt_enable & bus.interrupt_flags & 0x1f;
    let c0 = if pending != 0 { Cpu { halted: false, ..c } } else { c };
    let (c1, op) = c0.fetch8_spec(bus);
    lemma_exec_extends_log(c1, bus, op);
    let (c2, b2, n) = c1.exec_spec(bus, op);
    crate::bus::lemma_ticks_set_flags(b2, n as nat);
    crate::bus::lemma_ticks_set_flags(bus, 4);
    assert(bus.serial.subrange(0, bus.serial.len() as int) =~= bus.serial);
    if pending != 0 && c.ime {
        let bit = vstd::std_specs::bits::u8_trailing_zeros(pending);
        let b1 = BusState { interrupt_flags: bus.interrupt_flags & !(1u8 << bit as u8), ..bus };
        let (c3, b3) = Cpu { ime: false, ..c0 }.push_spec(b1, c0.pc);
        crate::bus::lemma_serial_log_grows(b1, wrap16(c0.sp - 2), 0, c0.pc);
        crate::bus::lemma_ticks_set_flags(b3, 20);
    }
}

/// No instruction does more to the serial log than append to it.
proof fn lemma_exec_extends_log(c: Cpu, bus: BusState, op: u8)
    ensures
        extends_log(bus, c.exec_spec(bus, op)),
{
    lemma_ld_block_extends_log(c, bus, op);
    lemma_alu_block_extends_log(c, bus, op);
    lemma_inc_dec_extends_log(c, bus, op);
    lemma_ld_r_n_extends_log(c, bus, op);
    lemma_rr_block_extends_log(c, bus, op);
    lemma_branch_extends_log(c, bus, op);
    lemma_stack_extends_log(c, bus, op);
    lemma_load_extends_log(c, bus, op);
    lemma_acc_extends_log(c, bus, op);
    lemma_control_extends_log(c, bus, op);
    lemma_cb_extends_log(c, bus);
}

proof fn lemma_ld_block_extends_log(c: Cpu, bus: BusState, op: u8)
    ensures
        extends_log(bus, c.ld_block_spec(bus, op)),
{
    lemma_op_fields();
    lemma_writes_extend_log();
}

proof fn lemma_alu_block_extends_log(c: Cpu, bus: BusState, op: u8)
    ensures
        extends_log(bus, c.alu_block_spec(bus, op)),
{
    lemma_op_fields();
    lemma_writes_extend_log();
}

proof fn lemma_inc_dec_extends_log(c: Cpu, bus: BusState, op: u8)
    ensures
        extends_log(bus, c.inc_dec_spec(bus, op)),
{
    lemma_op_fields();
    lemma_writes_extend_log();
}

proof fn lemma_ld_r_n_extends_log(c: Cpu, bus: BusState, op: u8)
    ensures
        extends_log(bus, c.ld_r_n_spec(bus, op)),
{
    lemma_op_fields();
    lemma_writes_extend_log();
}

proof fn lemma_rr_block_extends_log(c: Cpu, bus: BusState, op: u8)
    ensures
        extends_log(bus, c.rr_block_spec(bus, op)),
{
    lemma_op_fields();
    lemma_writes_extend_log();
}

proof fn lemma_branch_extends_log(c: Cpu, bus: BusState, op: u8)
    ensures
        extends_log(bus, c.branch_spec(bus, op)),
{
    lemma_op_fields();
    lemma_writes_extend_log();
}

proof fn lemma_stack_extends_log(c: Cpu, bus: BusState, op: u8)
    ensures
        extends_log(bus, c.stack_spec(bus, op)),
{
    lemma_op_fields();
    lemma_writes_extend_log();
}

proof fn lemma_load_extends_log(c: Cpu, bus: BusState, op: u8)
    ensures
        extends_log(bus, c.load_spec(bus, op)),
{
    lemma_op_fields();
    lemma_writes_extend_log();
}

proof fn lemma_acc_extends_log(c: Cpu, bus: BusState, op: u8)
    ensures
        extends_log(bus, c.acc_spec(bus, op)),
{
    lemma_op_fields();
    lemma_writes_extend_log();
}

proof fn lemma_control_extends_log(c: Cpu, bus: BusState, op: u8)
    ensures
        extends_log(bus, c.control_spec(bus, op)),
{
    lemma_op_fields();
    lemma_writes_extend_log();
}

proof fn lemma_cb_extends_log(c: Cpu, bus: BusState)
    ensures
        extends_log(bus, c.cb_spec(bus)),
{
    lemma_op_fields();
    lemma_writes_extend_log();
}

/// EI is decoded as a control instruction.
proof fn lemma_ei_decode(c: Cpu, bus: BusState)
    ensures
        c.exec_spec(bus, 0xfb) == c.control_spec(bus, 0xfb),
{
    lemma_control_opcode_fields();
}

/// The opcode fields of CALL nn, RET and EI match none of the regular blocks.
proof fn lemma_control_opcode_fields()
    ensures
        0xcdu8 & 0xc7 == 0xc5 && 0xcdu8 & 0xcf == 0xcd && 0xcdu8 & 0xe7 == 0xc5,
        0xc9u8 & 0xc7 == 0xc1 && 0xc9u8 & 0xcf == 0xc9 && 0xc9u8 & 0xe7 == 0xc1,
        0xfbu8 & 0xc7 == 0xc3 && 0xfbu8 & 0xcf == 0xcb && 0xfbu8 & 0xe7 == 0xe3,
{
    assert(0xcdu8 & 0xc7 == 0xc5 && 0xcdu8 & 0xcf == 0xcd && 0xcdu8 & 0xe7 == 0xc5 && 0xc9u8
        & 0xc7 == 0xc1 && 0xc9u8 & 0xcf == 0xc9 && 0xc9u8 & 0xe7 == 0xc1 && 0xfbu8 & 0xc7 == 0xc3
        && 0xfbu8 & 0xcf == 0xcb && 0xfbu8 & 0xe7 == 0xe3) by (bit_vector);
}

/// Law: EI takes effect one instruction late: the step that runs EI leaves interrupts
/// disabled, so no interrupt is taken before the next instruction, and after that next
/// instruction (unless it is DI, EI or RETI) interrupts are enabled.
#[verifier::rlimit(50)]
pub proof fn lemma_ei_delay(c: Cpu, bus: BusState)
    requires
        !c.ime,
        !c.halted,
        bus.read8_spec(c.pc) == 0xfb,
    ensures
        ({
            let (c1, b1, n1) = c.step_spec(bus);
            let op = b1.read8_spec(c1.pc);
            &&& n1 == 4
            &&& !c1.ime
            &&& c1.ime_delay == 1
            &&& !c1.halted
            &&& op != 0xf3 && op != 0xfb && op != 0xd9 ==> {
                let (c2, b2, n2) = c1.step_spec(b1);
                c2.ime
            }
        }),
{
    let pending = bus.interrupt_enable & bus.interrupt_flags & 0x1f;
    let (cf, op0) = c.fetch8_spec(bus);
    lemma_ei_decode(cf, bus);
    let (c1, b1, n1) = c.step_spec(bus);
    let (c1f, op) = c1.fetch8_spec(b1);
    if op != 0xf3 && op != 0xfb && op != 0xd9 {
        lemma_exec_keeps_ime(c1f, b1, op);
    }
}

/// Law: ADC with carry clear is ADD, SBC with carry clear is SUB, and CP sets the flags
/// of SUB while leaving A unchanged.
pub proof fn lemma_alu_relations(c: Cpu, v: u8)
    ensures
        c.f & C == 0 ==> c.alu_spec(1, v) == c.alu_spec(0, v),
        c.f & C == 0 ==> c.alu_spec(3, v) == c.alu_spec(2, v),
        c.alu_spec(7, v) == (Cpu { f: c.alu_spec(2, v).f, ..c }),
{
}

/// Law: XOR A clears A and leaves only Z set; SUB A clears A and sets Z and N.
pub proof fn lemma_clear_a(c: Cpu)
    ensures
        c.alu_spec(5, c.a).a == 0 && c.alu_spec(5, c.a).f == Z,
        c.alu_spec(2, c.a).a == 0 && c.alu_spec(2, c.a).f == N | Z,
{
    let a = c.a;
    assert(a ^ a == 0 && (0x80u8 | 0u8) == 0x80u8 && (0x40u8 | 0x80u8 | 0u8 | 0u8) == 0x40u8
        | 0x80u8) by (bit_vector);
}

/// Whether a byte holds two decimal digits in packed BCD.
pub open spec fn is_bcd(x: u8) -> bool {
    x % 16 <= 9 && x / 16 <= 9
}

/// The number 0-99 a packed-BCD byte holds.
pub open spec fn bcd_value(x: u8) -> int {
    (x / 16) * 10 + x % 16
}

/// Law: after ADD of two packed-BCD bytes, DAA leaves their decimal sum modulo 100 in A
/// as packed BCD, with C set exactly when the sum reached 100.
pub proof fn lemma_daa_after_add(c: Cpu, v: u8)
    requires
        is_bcd(c.a),
        is_bcd(v),
    ensures
        ({
            let d = c.alu_spec(0, v).daa_spec();
            &&& is_bcd(d.a)
            &&& bcd_value(d.a) == (bcd_value(c.a) + bcd_value(v)) % 100
            &&& (d.f & C != 0) == (bcd_value(c.a) + bcd_value(v) >= 100)
        }),
{
    let a = c.a;
    let s1 = c.alu_spec(0, v);
    let r = s1.a;
    let f = s1.f;
    assert(r == ((a as int + v as int) % 256) as u8);
    assert(f == (if r == 0 { 0x80u8 } else { 0u8 }) | (if (a & 15) + (v & 15) > 15 { 0x20u8 } else { 0u8 }) | (if a as int + v as int > 255 { 0x10u8 } else { 0u8 }));
    let d = s1.daa_spec();
    assert(f & 0x40 == 0 && (f & 0x20 != 0) == ((a & 15) + (v & 15) > 15) && (f & 0x10 != 0)
        == (a as int + v as int > 255)) by (bit_vector)
        requires
            f == (if r == 0 { 0x80u8 } else { 0u8 }) | (if (a & 15) + (v & 15) > 15 { 0x20u8 } else { 0u8 }) | (if a as int + v as int > 255 { 0x10u8 } else { 0u8 }),
    ;
    let h = (a & 15) + (v & 15) > 15;
    let cy = a as int + v as int > 255;
    let lo: u8 = if h || r & 15 > 9 { 6 } else { 0 };
    let up = cy || r > 0x99;
    let hi: u8 = if up { 0x60 } else { 0 };
    let res = ((r as int + lo + hi) % 256) as u8;
    assert(d.a == res);
    let dfl = d.f;
    assert(is_bcd(res) && bcd_value(res) == (bcd_value(a) + bcd_value(v)) % 100 && up == (
    bcd_value(a) + bcd_value(v) >= 100) && (dfl & 0x10 != 0) == up) by (bit_vector)
        requires
            dfl == (f & 0x40) | ((if res == 0 { 0x80u8 } else { 0u8 }) | (if up { 0x10u8 } else { 0u8 })),
            a % 16 <= 9,
            a / 16 <= 9,
            v % 16 <= 9,
            v / 16 <= 9,
            r == ((a as int + v as int) % 256) as u8,
            h == ((a & 15) + (v & 15) > 15),
            cy == (a as int + v as int > 255),
            lo == if h || r & 15 > 9 { 6u8 } else { 0u8 },
            up == (cy || r > 0x99),
            hi == if up { 0x60u8 } else { 0u8 },
            res == ((r as int + lo + hi) % 256) as u8,
    ;
}

/// Law: after SUB of two packed-BCD bytes, DAA leaves their decimal difference modulo
/// 100 in A as packed BCD, with C set exactly when the subtraction borrowed.
pub proof fn lemma_daa_after_sub(c: Cpu, v: u8)
    requires
        is_bcd(c.a),
        is_bcd(v),
    ensures
        ({
            let d = c.alu_spec(2, v).daa_spec();
            &&& is_bcd(d.a)
            &&& bcd_value(d.a) == (bcd_value(c.a) - bcd_value(v)) % 100
            &&& (d.f & C != 0) == (bcd_value(c.a) < bcd_value(v))
        }),
{
    let a = c.a;
    let s1 = c.alu_spec(2, v);
    let r = s1.a;
    let f = s1.f;
    let h = (a & 15) < (v & 15);
    let cy = a < v;
    assert(r == ((a as int - v as int) % 256) as u8);
    assert(f == 0x40u8 | (if r == 0 { 0x80u8 } else { 0u8 }) | (if h { 0x20u8 } else { 0u8 }) | (
    if cy { 0x10u8 } else { 0u8 }));
    assert(f & 0x40 != 0 && (f & 0x20 != 0) == h && (f & 0x10 != 0) == cy) by (bit_vector)
        requires
            f == 0x40u8 | (if r == 0 { 0x80u8 } else { 0u8 }) | (if h { 0x20u8 } else { 0u8 }) | (
            if cy { 0x10u8 } else { 0u8 }),
    ;
    let d = s1.daa_spec();
    let lo: u8 = if h { 6 } else { 0 };
    let hi: u8 = if cy { 0x60 } else { 0 };
    let res = ((r as int - lo - hi) % 256) as u8;
    assert(d.a == res);
    let dfl = d.f;
    assert(is_bcd(res) && bcd_value(res) == (bcd_value(a) - bcd_value(v)) % 100 && (dfl & 0x10
        != 0) == cy) by (bit_vector)
        requires
            dfl == (f & 0x40) | ((if res == 0 { 0x80u8 } else { 0u8 }) | (if cy { 0x10u8 } else { 0u8 })),
            a % 16 <= 9,
            a / 16 <= 9,
            v % 16 <= 9,
            v / 16 <= 9,
            r == ((a as int - v as int) % 256) as u8,
            h == ((a & 15) < (v & 15)),
            cy == (a < v),
            lo == if h { 6u8 } else { 0u8 },
            hi == if cy { 0x60u8 } else { 0u8 },
            res == ((r as int - lo - hi) % 256) as u8,
    ;
    assert(cy == (bcd_value(a) < bcd_value(v))) by (nonlinear_arith)
        requires
            a % 16 <= 9,
            v % 16 <= 9,
            cy == (a < v),
    ;
}

/// Adds with carry in: the byte result and its flags.
#[verifier::spinoff_prover]
fn add8(a: u8, v: u8, ci: u8) -> (r: (u8, u8))
    requires
        ci <= 1,
    ensures
        r == add8_spec(a, v, ci),
{
    proof {
        lemma_low_nibble();
    }
    let r = a.wrapping_add(v).wrapping_add(ci);
    (r, (if r == 0 {
        Z
    } else {
        0
    }) | (if (a & 15) + (v & 15) + ci > 15 {
        H
    } else {
        0
    }) | (if a as u16 + v as u16 + ci as u16 > 255 {
        C
    } else {
        0
    }))
}

/// Subtracts with borrow in: the byte result and its flags.
#[verifier::spinoff_prover]
fn sub8(a: u8, v: u8, ci: u8) -> (r: (u8, u8))
    requires
        ci <= 1,
    ensures
        r == sub8_spec(a, v, ci),
{
    proof {
        lemma_low_nibble();
    }
    let r = a.wrapping_sub(v).wrapping_sub(ci);
    (r, N | (if r == 0 {
        Z
    } else {
        0
    }) | (if (a & 15) < (v & 15) + ci {
        H
    } else {
        0
    }) | (if (a as u16) < v as u16 + ci as u16 {
        C
    } else {
        0
    }))
}

/// The flag byte with Z set when `zero` and C set when `carry`.
#[verifier::spinoff_prover]
fn zc_flags(zero: bool, carry: bool) -> (f: u8)
    ensures
        f == zc_flags_spec(zero, carry),
{
    (if zero {
        Z
    } else {
        0
    }) | (if carry {
        C
    } else {
        0
    })
}

/// `pc` moved by the signed offset `e`.
#[verifier::spinoff_prover]
fn add_offset(pc: u16, e: u8) -> (r: u16)
    ensures
        r == wrap16(pc + signed_byte(e)),
{
    if e < 128 {
        pc.wrapping_add(e as u16)
    } else {
        pc.wrapping_sub(256 - e as u16)
    }
}

/// The CB-prefixed shift or rotate `kind` of `v`: the result and the bit shifted out.
#[verifier::spinoff_prover]
fn shift(kind: u8, v: u8, carry_in: u8) -> (r: (u8, u8))
    requires
        carry_in <= 1,
    ensures
        r == shift_spec(kind, v, carry_in),
{
    match kind {
        0 => ((v % 128) * 2 + v / 128, v / 128),
        1 => (v / 2 + (v % 2) * 128, v % 2),
        2 => ((v % 128) * 2 + carry_in, v / 128),
        3 => (v / 2 + carry_in * 128, v % 2),
        4 => ((v % 128) * 2, v / 128),
        5 => (v / 2 + (v / 128) * 128, v % 2),
        6 => ((v % 16) * 16 + v / 16, 0),
        _ => (v / 2, v % 2),
    }
}

impl Default for Cpu {
    #[verifier::spinoff_prover]
    fn default() -> (c: Cpu)
        ensures
            c == Cpu::boot_state(),
    {
        Cpu {
            a: 0x01,
            f: 0xb0,
            b: 0,
            c: 0x13,
            d: 0,
            e: 0xd8,
            h: 0x01,
            l: 0x4d,
            sp: 0xfffe,
            pc: 0x0100,
            ime: false,
            halted: false,
            ime_delay: 0,
        }
    }
}

impl Cpu {
    /// The register pair AF.
    #[verifier::spinoff_prover]
    pub fn af(&self) -> (r: u16)
        ensures
            r == self.af_spec(),
    {
        self.a as u16 * 256 + self.f as u16
    }

    /// The register pair BC.
    #[verifier::spinoff_prover]
    pub fn bc(&self) -> (r: u16)
        ensures
            r == self.bc_spec(),
    {
        self.b as u16 * 256 + self.c as u16
    }

    /// The register pair DE.
    #[verifier::spinoff_prover]
    pub fn de(&self) -> (r: u16)
        ensures
            r == self.de_spec(),
    {
        self.d as u16 * 256 + self.e as u16
    }

    /// The register pair HL.
    #[verifier::spinoff_prover]
    pub fn hl(&self) -> (r: u16)
        ensures
            r == self.hl_spec(),
    {
        self.h as u16 * 256 + self.l as u16
    }

    /// Loads AF; the low nibble of F is not writable.
    #[verifier::spinoff_prover]
    pub fn set_af(&mut self, v: u16)
        ensures
            *final(self) == old(self).set_af_spec(v),
    {
        self.a = (v / 256) as u8;
        self.f = (v % 256) as u8 & 0xf0
    }

    #[verifier::spinoff_prover]
    fn set_bc(&mut self, v: u16)
        ensures
            *final(self) == old(self).set_bc_spec(v),
    {
        self.b = (v / 256) as u8;
        self.c = (v % 256) as u8
    }

    #[verifier::spinoff_prover]
    fn set_de(&mut self, v: u16)
        ensures
            *final(self) == old(self).set_de_spec(v),
    {
        self.d = (v / 256) as u8;
        self.e = (v % 256) as u8
    }

    #[verifier::spinoff_prover]
    fn set_hl(&mut self, v: u16)
        ensures
            *final(self) == old(self).set_hl_spec(v),
    {
        self.h = (v / 256) as u8;
        self.l = (v % 256) as u8
    }

    #[verifier::spinoff_prover]
    fn fetch8(&mut self, b: &Bus) -> (v: u8)
        ensures
            (*final(self), v) == old(self).fetch8_spec(b@),
    {
        let v = b.read8(self.pc);
        self.pc = self.pc.wrapping_add(1);
        v
    }

    #[verifier::spinoff_prover]
    fn fetch16(&mut self, b: &Bus) -> (v: u16)
        ensures
            (*final(self), v) == old(self).fetch16_spec(b@),
    {
        let lo = self.fetch8(b) as u16;
        lo + (self.fetch8(b) as u16) * 256
    }

    #[verifier::spinoff_prover]
    fn r8(&self, bus: &Bus, n: u8) -> (v: u8)
        ensures
            v == self.r8_spec(bus@, n),
    {
        match n {
            0 => self.b,
            1 => self.c,
            2 => self.d,
            3 => self.e,
            4 => self.h,
            5 => self.l,
            6 => bus.read8(self.hl()),
            _ => self.a,
        }
    }

    #[verifier::spinoff_prover]
    fn w8(&mut self, bus: &mut Bus, n: u8, v: u8)
        requires
            old(bus)@.wf(),
        ensures
            (*final(self), final(bus)@) == old(self).w8_spec(old(bus)@, n, v),
            final(bus)@.wf(),
    {
        match n {
            0 => self.b = v,
            1 => self.c = v,
            2 => self.d = v,
            3 => self.e = v,
            4 => self.h = v,
            5 => self.l = v,
            6 => bus.write8(self.hl(), v),
            _ => self.a = v,
        }
    }

    #[verifier::spinoff_prover]
    fn rr(&self, n: u8) -> (v: u16)
        ensures
            v == self.rr_spec(n),
    {
        match n {
            0 => self.bc(),
            1 => self.de(),
            2 => self.hl(),
            _ => self.sp,
        }
    }

    #[verifier::spinoff_prover]
    fn wr(&mut self, n: u8, v: u16)
        ensures
            *final(self) == old(self).wr_spec(n, v),
    {
        match n {
            0 => self.set_bc(v),
            1 => self.set_de(v),
            2 => self.set_hl(v),
            _ => self.sp = v,
        }
    }

    #[verifier::spinoff_prover]
    fn push(&mut self, b: &mut Bus, v: u16)
        requires
            old(b)@.wf(),
        ensures
            (*final(self), final(b)@) == old(self).push_spec(old(b)@, v),
            final(b)@.wf(),
    {
        self.sp = self.sp.wrapping_sub(2);
        b.write16(self.sp, v)
    }

    #[verifier::spinoff_prover]
    fn pop(&mut self, b: &Bus) -> (v: u16)
        ensures
            (*final(self), v) == old(self).pop_spec(b@),
    {
        let v = b.read16(self.sp);
        self.sp = self.sp.wrapping_add(2);
        v
    }

    #[verifier::spinoff_prover]
    fn cond(&self, n: u8) -> (r: bool)
        ensures
            r == self.cond_spec(n),
    {
        match n {
            0 => self.f & Z == 0,
            1 => self.f & Z != 0,
            2 => self.f & C == 0,
            _ => self.f & C != 0,
        }
    }

    #[verifier::spinoff_prover]
    fn alu(&mut self, op: u8, v: u8)
        requires
            op < 8,
        ensures
            *final(self) == old(self).alu_spec(op, v),
    {
        let a = self.a;
        let ci: u8 = if self.f & C != 0 {
            1
        } else {
            0
        };
        match op {
            0 | 1 => {
                let (r, f) = add8(a, v, if op == 1 {
                    ci
                } else {
                    0
                });
                self.a = r;
                self.f = f;
            },
            2 | 3 => {
                let (r, f) = sub8(a, v, if op == 3 {
                    ci
                } else {
                    0
                });
                self.a = r;
                self.f = f;
            },
            4 => {
                self.a = a & v;
                self.f = if self.a == 0 {
                    Z | H
                } else {
                    H
                }
            },
            5 => {
                self.a = a ^ v;
                self.f = zc_flags(self.a == 0, false);
            },
            6 => {
                self.a = a | v;
                self.f = zc_flags(self.a == 0, false);
            },
            _ => {
                let (_, f) = sub8(a, v, 0);
                self.f = f;
            },
        }
    }

    #[verifier::spinoff_prover]
    fn inc(&mut self, v: u8) -> (r: u8)
        ensures
            (*final(self), r) == old(self).inc_spec(v),
    {
        let r = v.wrapping_add(1);
        self.f = (self.f & C) | (if r == 0 {
            Z
        } else {
            0
        }) | (if v & 15 == 15 {
            H
        } else {
            0
        });
        r
    }

    #[verifier::spinoff_prover]
    fn dec(&mut self, v: u8) -> (r: u8)
        ensures
            (*final(self), r) == old(self).dec_spec(v),
    {
        let r = v.wrapping_sub(1);
        self.f = (self.f & C) | N | (if r == 0 {
            Z
        } else {
            0
        }) | (if v & 15 == 0 {
            H
        } else {
            0
        });
        r
    }

    /// Executes one instruction: interrupt dispatch when one is pending and enabled,
    /// otherwise the instruction at PC (nothing while halted); then runs the bus for
    /// the cycles taken and returns them.
    #[verifier::spinoff_prover]
    pub fn step(&mut self, b: &mut Bus) -> (cycles: u8)
        requires
            old(b)@.wf(),
        ensures
            (*final(self), final(b)@, cycles) == old(self).step_spec(old(b)@),
            final(b)@.wf(),
    {
        broadcast use vstd::std_specs::bits::axiom_u8_trailing_zeros;

        let pending = b.interrupt_enable & b.interrupt_flags & 0x1f;
        if pending != 0 {
            self.halted = false;
            if self.ime {
                let bit = pending.trailing_zeros() as u8;
                self.ime = false;
                b.interrupt_flags &= !(1 << bit);
                let pc = self.pc;
                self.push(b, pc);
                self.pc = 0x40 + bit as u16 * 8;
                b.tick(20);
                return 20;
            }
        }
        if self.halted {
            b.tick(4);
            return 4;
        }
        let op = self.fetch8(b);
        let cycles = self.execute(b, op);
        b.tick(cycles);
        if self.ime_delay > 0 {
            self.ime_delay -= 1;
            if self.ime_delay == 0 {
                self.ime = true
            }
        }
        cycles
    }

    /// Executes the instruction with opcode `op` (already fetched); returns its cycles.
    #[verifier::spinoff_prover]
    fn execute(&mut self, b: &mut Bus, op: u8) -> (cycles: u8)
        requires
            old(b)@.wf(),
        ensures
            (*final(self), final(b)@, cycles) == old(self).exec_spec(old(b)@, op),
            final(b)@.wf(),
    {
        proof {
            lemma_op_fields();
        }
        if 0x40 <= op && op <= 0x7f {
            return self.ld_block(b, op);
        }
        if 0x80 <= op && op <= 0xbf {
            let s = op & 7;
            let v = self.r8(b, s);
            self.alu((op >> 3) & 7, v);
            return if s == 6 {
                8
            } else {
                4
            };
        }
        if op & 0xc7 == 0x04 || op & 0xc7 == 0x05 {
            return self.inc_dec(b, op);
        }
        if op & 0xc7 == 0x06 {
            let r = (op >> 3) & 7;
            let v = self.fetch8(b);
            self.w8(b, r, v);
            return if r == 6 {
                12
            } else {
                8
            };
        }
        if op & 0xcf == 0x01 || op & 0xcf == 0x03 || op & 0xcf == 0x0b || op & 0xcf == 0x09 {
            return self.rr_block(b, op);
        }
        if op & 0xe7 == 0x20 || op & 0xe7 == 0xc0 || op & 0xe7 == 0xc2 || op & 0xe7 == 0xc4 || op
            & 0xc7 == 0xc7 {
            return self.branch(b, op);
        }
        if op & 0xcf == 0xc1 || op & 0xcf == 0xc5 {
            return self.stack(b, op);
        }
        match op {
            0xcb => self.cb(b),
            0x02 | 0x12 | 0x0a | 0x1a | 0x08 | 0x22 | 0x2a | 0x32 | 0x3a | 0xe0 | 0xf0 | 0xe2
            | 0xf2 | 0xea | 0xfa | 0xf9 => self.load(b, op),
            0x07 | 0x0f | 0x17 | 0x1f | 0x27 | 0x2f | 0x37 | 0x3f | 0xc6 | 0xce | 0xd6 | 0xde
            | 0xe6 | 0xee | 0xf6 | 0xfe => self.acc(b, op),
            _ => self.control(b, op),
        }
    }

    /// HALT and LD r, r'.
    #[verifier::spinoff_prover]
    fn ld_block(&mut self, b: &mut Bus, op: u8) -> (cycles: u8)
        requires
            old(b)@.wf(),
            0x40 <= op <= 0x7f,
        ensures
            (*final(self), final(b)@, cycles) == old(self).ld_block_spec(old(b)@, op),
            final(b)@.wf(),
    {
        if op == 0x76 {
            self.halted = true;
            return 4;
        }
        let d = (op >> 3) & 7;
        let s = op & 7;
        let v = self.r8(b, s);
        self.w8(b, d, v);
        if d == 6 || s == 6 {
            8
        } else {
            4
        }
    }

    /// INC r and DEC r.
    #[verifier::spinoff_prover]
    fn inc_dec(&mut self, b: &mut Bus, op: u8) -> (cycles: u8)
        requires
            old(b)@.wf(),
        ensures
            (*final(self), final(b)@, cycles) == old(self).inc_dec_spec(old(b)@, op),
            final(b)@.wf(),
    {
        let r = (op >> 3) & 7;
        let v = self.r8(b, r);
        let v = if op & 7 == 4 {
            self.inc(v)
        } else {
            self.dec(v)
        };
        self.w8(b, r, v);
        if r == 6 {
            12
        } else {
            4
        }
    }

    /// LD rr, nn; INC rr; DEC rr; ADD HL, rr.
    #[verifier::spinoff_prover]
    #[verifier::rlimit(40)]
    fn rr_block(&mut self, b: &mut Bus, op: u8) -> (cycles: u8)
        requires
            old(b)@.wf(),
            op & 0xcf == 0x01 || op & 0xcf == 0x03 || op & 0xcf == 0x0b || op & 0xcf == 0x09,
        ensures
            (*final(self), final(b)@, cycles) == old(self).rr_block_spec(old(b)@, op),
            final(b)@.wf(),
    {
        let n = (op >> 4) & 3;
        if op & 0xcf == 0x01 {
            let v = self.fetch16(b);
            self.wr(n, v);
            return 12;
        }
        if op & 0xcf == 0x03 {
            let v = self.rr(n).wrapping_add(1);
            self.wr(n, v);
            return 8;
        }
        if op & 0xcf == 0x0b {
            let v = self.rr(n).wrapping_sub(1);
            self.wr(n, v);
            return 8;
        }
        let v = self.rr(n);
        self.add_hl(v);
        8
    }

    /// ADD HL, v: H from bit 11, C from bit 15, Z kept, N cleared.
    #[verifier::spinoff_prover]
    fn add_hl(&mut self, v: u16)
        ensures
            ({
                let hl = old(self).hl_spec();
                let f = (old(self).f & Z) | (if (hl & 0xfff) + (v & 0xfff) > 0xfff {
                    H
                } else {
                    0u8
                }) | (if hl + v > 0xffff {
                    C
                } else {
                    0u8
                });
                *final(self) == Cpu { f, ..*old(self) }.set_hl_spec(wrap16(hl + v))
            }),
    {
        let hl = self.hl();
        proof {
            lemma_bit_field_bounds();
        }
        self.f = (self.f & Z) | (if (hl & 0xfff) + (v & 0xfff) > 0xfff {
            H
        } else {
            0
        }) | (if (hl as u32 + v as u32) > 0xffff {
            C
        } else {
            0
        });
        self.set_hl(hl.wrapping_add(v));
    }

    /// JR cc, RET cc, JP cc, CALL cc and RST.
    #[verifier::spinoff_prover]
    fn branch(&mut self, b: &mut Bus, op: u8) -> (cycles: u8)
        requires
            old(b)@.wf(),
        ensures
            (*final(self), final(b)@, cycles) == old(self).branch_spec(old(b)@, op),
            final(b)@.wf(),
    {
        let cc = (op >> 3) & 3;
        if op & 0xe7 == 0x20 {
            let e = self.fetch8(b);
            if self.cond(cc) {
                self.pc = add_offset(self.pc, e);
                return 12;
            }
            return 8;
        }
        if op & 0xe7 == 0xc0 {
            if self.cond(cc) {
                self.pc = self.pop(b);
                return 20;
            }
            return 8;
        }
        if op & 0xe7 == 0xc2 {
            let a = self.fetch16(b);
            if self.cond(cc) {
                self.pc = a;
                return 16;
            }
            return 12;
        }
        if op & 0xe7 == 0xc4 {
            let a = self.fetch16(b);
            if self.cond(cc) {
                let pc = self.pc;
                self.push(b, pc);
                self.pc = a;
                return 24;
            }
            return 12;
        }
        let pc = self.pc;
        self.push(b, pc);
        self.pc = (op & 0x38) as u16;
        16
    }

    /// POP rr and PUSH rr.
    #[verifier::spinoff_prover]
    fn stack(&mut self, b: &mut Bus, op: u8) -> (cycles: u8)
        requires
            old(b)@.wf(),
        ensures
            (*final(self), final(b)@, cycles) == old(self).stack_spec(old(b)@, op),
            final(b)@.wf(),
    {
        let n = (op >> 4) & 3;
        if op & 0xcf == 0xc1 {
            let v = self.pop(b);
            if n == 3 {
                self.set_af(v);
            } else {
                self.wr(n, v);
            }
            return 12;
        }
        let v = if n == 3 {
            self.af()
        } else {
            self.rr(n)
        };
        self.push(b, v);
        16
    }

    /// The loads and stores outside the regular blocks.
    #[verifier::spinoff_prover]
    fn load(&mut self, b: &mut Bus, op: u8) -> (cycles: u8)
        requires
            old(b)@.wf(),
            Self::is_load(op),
        ensures
            (*final(self), final(b)@, cycles) == old(self).load_spec(old(b)@, op),
            final(b)@.wf(),
    {
        match op {
            0x08 | 0xe0 | 0xf0 | 0xe2 | 0xf2 | 0xea | 0xfa => self.load_addressed(b, op),
            _ => self.load_indirect(b, op),
        }
    }

    /// The loads and stores through BC, DE and HL, and LD SP, HL.
    #[verifier::spinoff_prover]
    #[verifier::rlimit(40)]
    fn load_indirect(&mut self, b: &mut Bus, op: u8) -> (cycles: u8)
        requires
            old(b)@.wf(),
            op == 0x02 || op == 0x12 || op == 0x0a || op == 0x1a || op == 0x22 || op == 0x2a || op
                == 0x32 || op == 0x3a || op == 0xf9,
        ensures
            (*final(self), final(b)@, cycles) == old(self).load_spec(old(b)@, op),
            final(b)@.wf(),
    {
        match op {
            0x02 => {
                b.write8(self.bc(), self.a);
                8
            },
            0x12 => {
                b.write8(self.de(), self.a);
                8
            },
            0x0a => {
                self.a = b.read8(self.bc());
                8
            },
            0x1a => {
                self.a = b.read8(self.de());
                8
            },
            0x22 => {
                let a = self.hl();
                b.write8(a, self.a);
                self.set_hl(a.wrapping_add(1));
                8
            },
            0x2a => {
                let a = self.hl();
                self.a = b.read8(a);
                self.set_hl(a.wrapping_add(1));
                8
            },
            0x32 => {
                let a = self.hl();
                b.write8(a, self.a);
                self.set_hl(a.wrapping_sub(1));
                8
            },
            0x3a => {
                let a = self.hl();
                self.a = b.read8(a);
                self.set_hl(a.wrapping_sub(1));
                8
            },
            _ => {
                self.sp = self.hl();
                8
            },
        }
    }

    /// The loads and stores at an immediate or high-page address.
    #[verifier::spinoff_prover]
    #[verifier::rlimit(40)]
    fn load_addressed(&mut self, b: &mut Bus, op: u8) -> (cycles: u8)
        requires
            old(b)@.wf(),
            op == 0x08 || op == 0xe0 || op == 0xf0 || op == 0xe2 || op == 0xf2 || op == 0xea || op
                == 0xfa,
        ensures
            (*final(self), final(b)@, cycles) == old(self).load_spec(old(b)@, op),
            final(b)@.wf(),
    {
        match op {
            0x08 => {
                let a = self.fetch16(b);
                b.write16(a, self.sp);
                20
            },
            0xe0 => {
                let a = 0xff00 + self.fetch8(b) as u16;
                b.write8(a, self.a);
                12
            },
            0xf0 => {
                let a = 0xff00 + self.fetch8(b) as u16;
                self.a = b.read8(a);
                12
            },
            0xe2 => {
                b.write8(0xff00 + self.c as u16, self.a);
                8
            },
            0xf2 => {
                self.a = b.read8(0xff00 + self.c as u16);
                8
            },
            0xea => {
                let a = self.fetch16(b);
                b.write8(a, self.a);
                16
            },
            _ => {
                let a = self.fetch16(b);
                self.a = b.read8(a);
                16
            },
        }
    }

    /// Rotates of A, DAA, CPL, SCF, CCF and the ALU with an immediate operand.
    #[verifier::spinoff_prover]
    fn acc(&mut self, b: &mut Bus, op: u8) -> (cycles: u8)
        requires
            old(b)@.wf(),
            Self::is_acc(op),
        ensures
            (*final(self), final(b)@, cycles) == old(self).acc_spec(old(b)@, op),
            final(b)@.wf(),
    {
        let a = self.a;
        let ci: u8 = if self.f & C != 0 {
            1
        } else {
            0
        };
        match op {
            0x07 => {
                self.a = (a % 128) * 2 + a / 128;
                self.f = zc_flags(false, a / 128 != 0);
                4
            },
            0x0f => {
                self.a = a / 2 + (a % 2) * 128;
                self.f = zc_flags(false, a % 2 != 0);
                4
            },
            0x17 => {
                self.a = (a % 128) * 2 + ci;
                self.f = zc_flags(false, a / 128 != 0);
                4
            },
            0x1f => {
                self.a = a / 2 + ci * 128;
                self.f = zc_flags(false, a % 2 != 0);
                4
            },
            0x27 => {
                self.daa();
                4
            },
            0x2f => {
                self.a = !a;
                self.f = self.f | N | H;
                4
            },
            0x37 => {
                self.f = (self.f & Z) | C;
                4
            },
            0x3f => {
                self.f = (self.f & Z) | if self.f & C == 0 {
                    C
                } else {
                    0
                };
                4
            },
            _ => {
                let v = self.fetch8(b);
                proof {
                    lemma_op_fields();
                }
                self.alu((op >> 3) & 7, v);
                8
            },
        }
    }

    /// DAA: decimal adjustment of A after a BCD addition or subtraction.
    #[verifier::spinoff_prover]
    fn daa(&mut self)
        ensures
            *final(self) == old(self).daa_spec(),
    {
        let a = self.a;
        let carry = self.f & C != 0;
        let r;
        let carry_out;
        if self.f & N == 0 {
            let lo: u8 = if self.f & H != 0 || a & 15 > 9 {
                6
            } else {
                0
            };
            let up = carry || a > 0x99;
            let hi: u8 = if up {
                0x60
            } else {
                0
            };
            r = a.wrapping_add(lo + hi);
            carry_out = up;
        } else {
            let lo: u8 = if self.f & H != 0 {
                6
            } else {
                0
            };
            let hi: u8 = if carry {
                0x60
            } else {
                0
            };
            r = a.wrapping_sub(lo + hi);
            carry_out = carry;
        }
        self.a = r;
        self.f = (self.f & N) | zc_flags(r == 0, carry_out);
    }

    /// NOP, STOP, JR, JP, RET, RETI, CALL, JP HL, DI, EI, ADD SP,e and LD HL,SP+e;
    /// unassigned opcodes do nothing.
    #[verifier::spinoff_prover]
    fn control(&mut self, b: &mut Bus, op: u8) -> (cycles: u8)
        requires
            old(b)@.wf(),
        ensures
            (*final(self), final(b)@, cycles) == old(self).control_spec(old(b)@, op),
            final(b)@.wf(),
    {
        match op {
            0x10 => {
                self.fetch8(b);
                4
            },
            0x18 => {
                let e = self.fetch8(b);
                self.pc = add_offset(self.pc, e);
                12
            },
            0xc3 => {
                self.pc = self.fetch16(b);
                16
            },
            0xc9 => {
                self.pc = self.pop(b);
                16
            },
            0xd9 => {
                self.pc = self.pop(b);
                self.ime = true;
                16
            },
            0xcd => {
                let a = self.fetch16(b);
                let pc = self.pc;
                self.push(b, pc);
                self.pc = a;
                24
            },
            0xe9 => {
                self.pc = self.hl();
                4
            },
            0xf3 => {
                self.ime = false;
                self.ime_delay = 0;
                4
            },
            0xfb => {
                self.ime_delay = 2;
                4
            },
            0xe8 => {
                let e = self.fetch8(b);
                let (sp, f) = self.sp_offset(e);
                self.sp = sp;
                self.f = f;
                16
            },
            0xf8 => {
                let e = self.fetch8(b);
                let (v, f) = self.sp_offset(e);
                self.f = f;
                self.set_hl(v);
                12
            },
            _ => 4,
        }
    }

    /// SP plus the signed offset `e`, and the H and C flags of the low-byte addition.
    #[verifier::spinoff_prover]
    fn sp_offset(&self, e: u8) -> (r: (u16, u8))
        ensures
            r == self.sp_offset_spec(e),
    {
        proof {
            lemma_bit_field_bounds();
            lemma_low_nibble();
        }
        let sp = self.sp;
        (add_offset(sp, e), (if (sp & 15) + (e & 15) as u16 > 15 {
            H
        } else {
            0
        }) | (if (sp & 255) + e as u16 > 255 {
            C
        } else {
            0
        }))
    }

    /// The CB-prefixed instructions.
    #[verifier::spinoff_prover]
    fn cb(&mut self, b: &mut Bus) -> (cycles: u8)
        requires
            old(b)@.wf(),
        ensures
            (*final(self), final(b)@, cycles) == old(self).cb_spec(old(b)@),
            final(b)@.wf(),
    {
        let op = self.fetch8(b);
        let r = op & 7;
        let v = self.r8(b, r);
        let group = op >> 6;
        let bit = (op >> 3) & 7;
        proof {
            lemma_op_fields();
        }
        if group == 1 {
            self.f = (self.f & C) | H | if v & (1 << bit) == 0 {
                Z
            } else {
                0
            };
            return if r == 6 {
                12
            } else {
                8
            };
        }
        if group >= 2 {
            let out = if group == 2 {
                v & !(1 << bit)
            } else {
                v | (1 << bit)
            };
            self.w8(b, r, out);
            return if r == 6 {
                16
            } else {
                8
            };
        }
        let ci: u8 = if self.f & C != 0 {
            1
        } else {
            0
        };
        let (out, carry) = shift(bit, v, ci);
        self.w8(b, r, out);
        self.f = zc_flags(out == 0, carry != 0);
        if r == 6 {
            16
        } else {
            8
        }
    }
}

} // verus!
