use vstd::prelude::*;

use super::bus::{Bus, NesBusState, lemma_ram, lemma_rom_read};

verus! {

/// Status flag: carry.
pub const C: u8 = 1;

/// Status flag: zero.
pub const Z: u8 = 2;

/// Status flag: interrupt disable.
pub const I: u8 = 4;

/// Status flag: decimal mode (stored, no effect on the 2A03).
pub const D: u8 = 8;

/// Status flag: break (only in pushed copies).
pub const B: u8 = 16;

/// Status flag: unused, reads as 1.
pub const U: u8 = 32;

/// Status flag: overflow.
pub const V: u8 = 64;

/// Status flag: negative.
pub const N: u8 = 128;

/// An integer reduced to a 16-bit address.
pub open spec fn wrap16(x: int) -> u16 {
    (x % 0x10000) as u16
}

/// An integer reduced to a byte.
pub open spec fn wrap8(x: int) -> u8 {
    (x % 0x100) as u8
}

/// A byte read as a two's complement offset.
pub open spec fn signed_byte(e: u8) -> int {
    if e < 128 {
        e as int
    } else {
        e - 256
    }
}

/// Setting or clearing one status flag makes it read as set or clear and keeps the others.
proof fn lemma_flag_bits()
    ensures
        forall|p: u8, m: u8| #![trigger p | m] m != 0 ==> (p | m) & m != 0,
        forall|p: u8, m: u8| #![trigger p & !m] (p & !m) & m == 0,
        forall|p: u8, m: u8, g: u8|
            #![trigger (p | m) & g]
            m & g == 0 ==> ((p | m) & g != 0) == (p & g != 0),
        forall|p: u8, m: u8, g: u8|
            #![trigger (p & !m) & g]
            m & g == 0 ==> ((p & !m) & g != 0) == (p & g != 0),
        C & Z == 0 && C & N == 0 && Z & N == 0,
        C & I == 0 && C & D == 0 && C & B == 0 && C & U == 0 && C & V == 0,
        Z & I == 0 && Z & D == 0 && Z & B == 0 && Z & U == 0 && Z & V == 0,
        N & I == 0 && N & D == 0 && N & B == 0 && N & U == 0 && N & V == 0,
        Z & C == 0 && N & C == 0 && N & Z == 0,
        V & C == 0 && V & Z == 0 && V & N == 0 && V & I == 0 && V & D == 0 && V & B == 0 && V
            & U == 0,
        C & V == 0 && Z & V == 0 && N & V == 0,
        forall|x: u8| #[trigger] !x == 255 - x,
        forall|x: u8| #[trigger] (x & 0x80) != 0 <==> x >= 128,
        forall|x: u8| #[trigger] (x & 1) != 0 <==> x % 2 == 1,
{
    assert({
        &&& (forall|p: u8, m: u8| #![trigger p | m] m != 0 ==> (p | m) & m != 0)
        &&& (forall|p: u8, m: u8| #![trigger p & !m] (p & !m) & m == 0)
        &&& (forall|p: u8, m: u8, g: u8|
            #![trigger (p | m) & g]
            m & g == 0 ==> ((p | m) & g != 0) == (p & g != 0))
        &&& (forall|p: u8, m: u8, g: u8|
            #![trigger (p & !m) & g]
            m & g == 0 ==> ((p & !m) & g != 0) == (p & g != 0))
        &&& C & Z == 0 && C & N == 0 && Z & N == 0
        &&& C & I == 0 && C & D == 0 && C & B == 0 && C & U == 0 && C & V == 0
        &&& Z & I == 0 && Z & D == 0 && Z & B == 0 && Z & U == 0 && Z & V == 0
        &&& N & I == 0 && N & D == 0 && N & B == 0 && N & U == 0 && N & V == 0
        &&& Z & C == 0 && N & C == 0 && N & Z == 0
        &&& V & C == 0 && V & Z == 0 && V & N == 0 && V & I == 0 && V & D == 0 && V & B == 0
            && V & U == 0
        &&& C & V == 0 && Z & V == 0 && N & V == 0
        &&& (forall|x: u8| #[trigger] !x == 255 - x)
        &&& (forall|x: u8| #[trigger] (x & 0x80) != 0 <==> x >= 128)
        &&& (forall|x: u8| #[trigger] (x & 1) != 0 <==> x % 2 == 1)
    }) by (bit_vector);
}

/// Law: CMP, CPX and CPY of a register value `a` with an operand `v` set C exactly when
/// `a >= v` (unsigned), Z exactly when they are equal, and N from bit 7 of `a - v`; the
/// other status flags and every register are unchanged.
#[verifier::rlimit(50)]
pub proof fn lemma_compare_flags(c: Cpu, a: u8, v: u8)
    ensures
        ({
            let d = c.compare_spec(a, v);
            &&& d.flag_spec(C) == (a >= v)
            &&& d.flag_spec(Z) == (a == v)
            &&& d.flag_spec(N) == ((a - v) % 256 >= 128)
            &&& d.flag_spec(I) == c.flag_spec(I) && d.flag_spec(D) == c.flag_spec(D)
            &&& d.flag_spec(V) == c.flag_spec(V) && d.flag_spec(B) == c.flag_spec(B)
            &&& d.flag_spec(U) == c.flag_spec(U)
            &&& d.a == c.a && d.x == c.x && d.y == c.y && d.s == c.s && d.pc == c.pc
        }),
{
    lemma_flag_bits();
    let r = wrap8(a - v);
    let c1 = c.set_spec(C, a >= v);
    let c2 = c1.set_spec(Z, r == 0);
    let c3 = c2.set_spec(N, r & 0x80 != 0);
    assert(r == 0 <==> a == v);
    assert((r & 0x80 != 0) == (r >= 128)) by (bit_vector);
}

/// Law: ADC adds the operand and the carry to A: A becomes the sum modulo 256, C is set
/// exactly when the sum exceeds 255, V exactly when the signed sum leaves -128..127, and
/// Z and N come from the result; I, D and the other registers stay.
#[verifier::spinoff_prover]
#[verifier::rlimit(50)]
pub proof fn lemma_adc_law(c: Cpu, v: u8)
    ensures
        ({
            let a = c.a;
            let cin: int = if c.flag_spec(C) { 1 } else { 0 };
            let s = a + v + cin;
            let d = c.adc_spec(v);
            &&& d.a == s % 256
            &&& d.flag_spec(C) == (s > 255)
            &&& d.flag_spec(V) == (signed_byte(a) + signed_byte(v) + cin < -128 || signed_byte(a)
                + signed_byte(v) + cin > 127)
            &&& d.flag_spec(Z) == (d.a == 0) && d.flag_spec(N) == (d.a >= 128)
            &&& d.flag_spec(I) == c.flag_spec(I) && d.flag_spec(D) == c.flag_spec(D)
            &&& d.x == c.x && d.y == c.y && d.s == c.s && d.pc == c.pc
        }),
{
    lemma_flag_bits();
    let a = c.a;
    let cin: u8 = if c.flag_spec(C) { 1 } else { 0 };
    let r1 = wrap8(a + v + cin);
    assert(((!(a ^ v) & (a ^ r1) & 0x80) != 0) == ((a < 128) == (v < 128) && (r1 < 128) != (a
        < 128)) && (r1 & 0x80 != 0) == (r1 >= 128)) by (bit_vector);
}

/// Law: SBC (ADC of the complemented operand) subtracts the operand and the borrow (C
/// clear) from A: A becomes the difference modulo 256, C is set exactly when no borrow
/// is needed, V exactly when the signed difference leaves -128..127, and Z and N come
/// from the result.
#[verifier::rlimit(50)]
pub proof fn lemma_sbc_law(c: Cpu, v: u8)
    ensures
        ({
            let a = c.a;
            let cin: int = if c.flag_spec(C) { 1 } else { 0 };
            let t = a - v - (1 - cin);
            let e = c.adc_spec(!v);
            &&& e.a == t % 256
            &&& e.flag_spec(C) == (t >= 0)
            &&& e.flag_spec(V) == (signed_byte(a) - signed_byte(v) - (1 - cin) < -128 || signed_byte(
                a,
            ) - signed_byte(v) - (1 - cin) > 127)
            &&& e.flag_spec(Z) == (e.a == 0) && e.flag_spec(N) == (e.a >= 128)
        }),
{
    lemma_flag_bits();
    lemma_adc_law(c, !v);
    assert(!v == 255 - v);
}

/// Law: the addressing modes, with the operand bytes in PRG ROM: zero page is the
/// operand byte; zero page,X and zero page,Y add the index and wrap within page 0;
/// absolute is the operand word; absolute,X and absolute,Y add the index modulo 0x10000
/// and report a page crossing exactly when the high byte changes; (zp,X) reads the
/// pointer at zero page `operand + X` (wrapping in page 0); (zp),Y reads the pointer at
/// the operand and adds Y, reporting a page crossing likewise. No mode changes the bus.
#[verifier::spinoff_prover]
#[verifier::rlimit(80)]
pub proof fn lemma_addressing_modes(c: Cpu, bus: NesBusState)
    requires
        bus.wf(),
        0x8000 <= c.pc < 0xfffe,
    ensures
        ({
            let n = bus.read_spec(c.pc).1 as int;
            let w = n + 256 * bus.read_spec((c.pc + 1) as u16).1;
            let ptr_x = |z: int| bus.ram[z % 256] + 256 * bus.ram[(z + 1) % 256];
            &&& c.addr_spec(bus, 0).2 == n && c.addr_spec(bus, 0).1 == bus
            &&& c.addr_spec(bus, 1).2 == (n + c.x) % 256 && c.addr_spec(bus, 1).1 == bus
            &&& c.addr_spec(bus, 2).2 == (n + c.y) % 256 && c.addr_spec(bus, 2).1 == bus
            &&& c.addr_spec(bus, 3).2 == w && c.addr_spec(bus, 3).1 == bus
            &&& c.addr_spec(bus, 4).2 == (w + c.x) % 0x10000 && c.addr_spec(bus, 4).1 == bus
            &&& c.addr_spec(bus, 4).3 == (w / 256 != ((w + c.x) % 0x10000) / 256)
            &&& c.addr_spec(bus, 5).2 == (w + c.y) % 0x10000 && c.addr_spec(bus, 5).1 == bus
            &&& c.addr_spec(bus, 5).3 == (w / 256 != ((w + c.y) % 0x10000) / 256)
            &&& c.addr_spec(bus, 6).2 == ptr_x(n + c.x) && c.addr_spec(bus, 6).1 == bus
            &&& c.addr_spec(bus, 7).2 == (ptr_x(n) + c.y) % 0x10000 && c.addr_spec(bus, 7).1 == bus
            &&& c.addr_spec(bus, 7).3 == (ptr_x(n) / 256 != ((ptr_x(n) + c.y) % 0x10000) / 256)
        }),
{
    lemma_rom_read(bus, c.pc);
    lemma_rom_read(bus, wrap16(c.pc + 1));
    assert(wrap16(c.pc + 1) == c.pc + 1);
    let n = bus.read_spec(c.pc).1;
    let z1 = wrap8(n + c.x);
    lemma_ram(bus, n as u16, 0, 0);
    lemma_ram(bus, wrap8(n + 1) as u16, 0, 0);
    lemma_ram(bus, z1 as u16, 0, 0);
    lemma_ram(bus, wrap8(z1 + 1) as u16, 0, 0);
    assert(wrap8(z1 + 1) == (n + c.x + 1) % 256);
}

/// Whether `d` has Z and N set from `r`, and I, D and V as in `c`.
pub open spec fn zn_from(d: Cpu, c: Cpu, r: u8) -> bool {
    &&& d.flag_spec(Z) == (r == 0)
    &&& d.flag_spec(N) == (r >= 128)
    &&& d.flag_spec(I) == c.flag_spec(I) && d.flag_spec(D) == c.flag_spec(D)
    &&& d.flag_spec(V) == c.flag_spec(V)
}

/// Law: the one-byte instructions: CLC, SEC, CLI, SEI, CLV, CLD and SED clear or set their
/// flag only; TAX, TAY, TXA, TYA and TSX copy a register and set Z and N from it, TXS
/// copies X to S without flags; INX, DEX, INY and DEY count modulo 256 and set Z and N;
/// ASL A, ROL A, LSR A and ROR A shift A with the bit shifted out in C. Each takes 2
/// cycles and leaves the bus alone.
#[verifier::spinoff_prover]
#[verifier::rlimit(80)]
pub proof fn lemma_implied_law(c: Cpu, bus: NesBusState)
    ensures
        ({
            let a = c.a;
            let cin: int = if c.flag_spec(C) { 1 } else { 0 };
            &&& !c.implied_spec(bus, 0x18).0.flag_spec(C) && c.implied_spec(bus, 0x38).0.flag_spec(C)
            &&& !c.implied_spec(bus, 0x58).0.flag_spec(I) && c.implied_spec(bus, 0x78).0.flag_spec(I)
            &&& !c.implied_spec(bus, 0xb8).0.flag_spec(V)
            &&& !c.implied_spec(bus, 0xd8).0.flag_spec(D) && c.implied_spec(bus, 0xf8).0.flag_spec(D)
            &&& c.implied_spec(bus, 0x18).0.flag_spec(Z) == c.flag_spec(Z)
            &&& c.implied_spec(bus, 0x38).0.flag_spec(N) == c.flag_spec(N)
            &&& c.implied_spec(bus, 0xaa).0.x == a && zn_from(c.implied_spec(bus, 0xaa).0, c, a)
            &&& c.implied_spec(bus, 0xa8).0.y == a && zn_from(c.implied_spec(bus, 0xa8).0, c, a)
            &&& c.implied_spec(bus, 0x8a).0.a == c.x && zn_from(c.implied_spec(bus, 0x8a).0, c, c.x)
            &&& c.implied_spec(bus, 0x98).0.a == c.y && zn_from(c.implied_spec(bus, 0x98).0, c, c.y)
            &&& c.implied_spec(bus, 0xba).0.x == c.s && zn_from(c.implied_spec(bus, 0xba).0, c, c.s)
            &&& c.implied_spec(bus, 0x9a).0 == (Cpu { s: c.x, ..c })
            &&& c.implied_spec(bus, 0xe8).0.x == (c.x + 1) % 256 && zn_from(
                c.implied_spec(bus, 0xe8).0,
                c,
                ((c.x + 1) % 256) as u8,
            )
            &&& c.implied_spec(bus, 0xca).0.x == (c.x - 1) % 256 && zn_from(
                c.implied_spec(bus, 0xca).0,
                c,
                ((c.x - 1) % 256) as u8,
            )
            &&& c.implied_spec(bus, 0xc8).0.y == (c.y + 1) % 256
            &&& c.implied_spec(bus, 0x88).0.y == (c.y - 1) % 256
            &&& c.implied_spec(bus, 0x0a).0.a == (2 * a) % 256 && c.implied_spec(bus, 0x0a).0.flag_spec(
                C,
            ) == (a >= 128)
            &&& c.implied_spec(bus, 0x2a).0.a == (2 * a + cin) % 256 && c.implied_spec(
                bus,
                0x2a,
            ).0.flag_spec(C) == (a >= 128)
            &&& c.implied_spec(bus, 0x4a).0.a == a / 2 && c.implied_spec(bus, 0x4a).0.flag_spec(C) == (a
                % 2 == 1)
            &&& c.implied_spec(bus, 0x6a).0.a == a / 2 + 128 * cin && c.implied_spec(
                bus,
                0x6a,
            ).0.flag_spec(C) == (a % 2 == 1)
            &&& c.implied_spec(bus, 0xaa).1 == bus && c.implied_spec(bus, 0xaa).2 == 2
        }),
{
    lemma_flag_bits();
}

/// Law: JMP (indirect) takes the target's low byte from the pointer and its high byte
/// from the next address in the same page: a pointer at the end of a page (xxFF) takes the
/// high byte from xx00, as the 6502 does. JMP absolute jumps to its operand. With the
/// operands and the pointer in PRG ROM, neither changes the bus.
#[verifier::spinoff_prover]
#[verifier::rlimit(50)]
pub proof fn lemma_jmp_law(c: Cpu, bus: NesBusState)
    requires
        bus.wf(),
        0x8000 <= c.pc < 0xfffe,
    ensures
        ({
            let w = bus.read_spec(c.pc).1 + 256 * bus.read_spec((c.pc + 1) as u16).1;
            let next = if w % 256 == 255 { w - 255 } else { w + 1 };
            &&& c.jump_spec(bus, 0x4c).0.pc == w && c.jump_spec(bus, 0x4c).2 == 3
            &&& w >= 0x8000 ==> c.jump_spec(bus, 0x6c).0.pc == bus.read_spec(w as u16).1 + 256
                * bus.read_spec(next as u16).1 && c.jump_spec(bus, 0x6c).2 == 5
        }),
{
    lemma_rom_read(bus, c.pc);
    lemma_rom_read(bus, wrap16(c.pc + 1));
    assert(wrap16(c.pc + 1) == c.pc + 1);
    let (c1, b1, p) = c.word_spec(bus);
    let q = (p & 0xff00) | (wrap16(p + 1) & 0xff);
    let w1 = wrap16(p + 1);
    assert(q == if p % 256 == 255 { p - 255 } else { p + 1 }) by (bit_vector)
        requires
            q == (p & 0xff00) | (w1 & 0xff),
            w1 == ((p + 1) % 0x10000) as u16,
    ;
    if p >= 0x8000 {
        lemma_rom_read(b1, p);
        lemma_rom_read(b1, q);
    }
}

/// Law: the immediate-operand instructions, with the operand byte `v` in PRG ROM: ORA,
/// AND and EOR combine A with `v` bitwise, LDA loads `v`, each setting Z and N from the
/// new A; ADC and SBC add or subtract `v` (see `lemma_adc_law` and `lemma_sbc_law`); CMP
/// compares A with `v` (see `lemma_compare_flags`). Each takes 2 cycles, moves PC past
/// the operand and leaves the bus alone.
#[verifier::spinoff_prover]
#[verifier::rlimit(80)]
pub proof fn lemma_immediate_law(c: Cpu, bus: NesBusState)
    requires
        bus.wf(),
        0x8000 <= c.pc < 0xffff,
    ensures
        ({
            let v = bus.read_spec(c.pc).1;
            let c1 = Cpu { pc: (c.pc + 1) as u16, ..c };
            let ora = c.exec_spec(bus, 0x09);
            let and = c.exec_spec(bus, 0x29);
            let eor = c.exec_spec(bus, 0x49);
            let lda = c.exec_spec(bus, 0xa9);
            &&& ora.0.a == c.a | v && zn_from(ora.0, c, c.a | v) && ora.1 == bus && ora.2 == 2
            &&& and.0.a == c.a & v && zn_from(and.0, c, c.a & v) && and.1 == bus && and.2 == 2
            &&& eor.0.a == c.a ^ v && zn_from(eor.0, c, c.a ^ v) && eor.1 == bus && eor.2 == 2
            &&& lda.0.a == v && zn_from(lda.0, c, v) && lda.1 == bus && lda.2 == 2
            &&& c.exec_spec(bus, 0x69) == (c1.adc_spec(v), bus, 2u16)
            &&& c.exec_spec(bus, 0xe9) == (c1.adc_spec(!v), bus, 2u16)
            &&& c.exec_spec(bus, 0xc9) == (c1.compare_spec(c.a, v), bus, 2u16)
            &&& ora.0.pc == c.pc + 1 && lda.0.pc == c.pc + 1
        }),
{
    lemma_flag_bits();
    lemma_rom_read(bus, c.pc);
    assert({
        &&& 0x09u8 & 0x1f == 0x09 && 0x29u8 & 0x1f == 0x09 && 0x49u8 & 0x1f == 0x09
        &&& 0x69u8 & 0x1f == 0x09 && 0xa9u8 & 0x1f == 0x09 && 0xc9u8 & 0x1f == 0x09
        &&& 0xe9u8 & 0x1f == 0x09
        &&& 0x09u8 & 0xe0 == 0x00 && 0x29u8 & 0xe0 == 0x20 && 0x49u8 & 0xe0 == 0x40
        &&& 0x69u8 & 0xe0 == 0x60 && 0xa9u8 & 0xe0 == 0xa0 && 0xc9u8 & 0xe0 == 0xc0
        &&& 0xe9u8 & 0xe0 == 0xe0
    }) by (bit_vector);
}

/// Law: the read-modify-write operations on a value `v`: ASL doubles it modulo 256, ROL
/// also brings the carry into bit 0, LSR halves it, ROR also brings the carry into bit 7;
/// each of these puts the bit shifted out into C. DEC and INC subtract or add 1 modulo 256
/// and keep C.
#[verifier::rlimit(50)]
pub proof fn lemma_modify_law(c: Cpu, op: u8, v: u8)
    ensures
        ({
            let (d, w) = c.modify_spec(op, v);
            let cin: int = if c.flag_spec(C) { 1 } else { 0 };
            let k = op & 0xe0;
            &&& k == 0x00 ==> w == (2 * v) % 256 && d.flag_spec(C) == (v >= 128)
            &&& k == 0x20 ==> w == (2 * v + cin) % 256 && d.flag_spec(C) == (v >= 128)
            &&& k == 0x40 ==> w == v / 2 && d.flag_spec(C) == (v % 2 == 1)
            &&& k == 0x60 ==> w == v / 2 + 128 * cin && d.flag_spec(C) == (v % 2 == 1)
            &&& k == 0xc0 ==> w == (v - 1) % 256 && d == c
            &&& k == 0xe0 ==> w == (v + 1) % 256 && d == c
            &&& d.flag_spec(Z) == c.flag_spec(Z) && d.flag_spec(N) == c.flag_spec(N)
            &&& d.flag_spec(V) == c.flag_spec(V) && d.a == c.a
        }),
{
    lemma_flag_bits();
    assert((v & 0x80 != 0) == (v >= 128) && (v & 1 != 0) == (v % 2 == 1)) by (bit_vector);
}

/// Law: the conditional branches BPL, BMI, BVC, BVS, BCC, BCS, BNE and BEQ are taken
/// exactly when N, N, V, V, C, C, Z and Z respectively are clear, set, clear, set, clear,
/// set, clear and set.
pub proof fn lemma_branch_conditions(c: Cpu)
    ensures
        c.branch_taken(0x10) == (c.p & 0x80 == 0) && c.branch_taken(0x30) == (c.p & 0x80 != 0),
        c.branch_taken(0x50) == (c.p & 0x40 == 0) && c.branch_taken(0x70) == (c.p & 0x40 != 0),
        c.branch_taken(0x90) == (c.p & 0x01 == 0) && c.branch_taken(0xb0) == (c.p & 0x01 != 0),
        c.branch_taken(0xd0) == (c.p & 0x02 == 0) && c.branch_taken(0xf0) == (c.p & 0x02 != 0),
{
}

/// Law: a byte pushed on the stack pops back, with S restored and the bus as the push
/// left it.
pub proof fn lemma_push_then_pop(c: Cpu, bus: NesBusState, v: u8)
    requires
        bus.wf(),
    ensures
        ({
            let (c1, b1) = c.push_spec(bus, v);
            let (c2, b2, r) = c1.pop_spec(b1);
            r == v && c2 == c && b2 == b1 && b1.wf()
        }),
{
    let (c1, b1) = c.push_spec(bus, v);
    assert(wrap8(c1.s + 1) == c.s);
    super::bus::lemma_ram(bus, (0x100 + c.s) as u16, 0, v);
    super::bus::lemma_ram(b1, (0x100 + c.s) as u16, 0, v);
}

/// Law: JSR with its operand in PRG ROM jumps to the operand and takes 6 cycles; an RTS
/// right at the target returns to the instruction after the JSR with S and every other
/// register as before.
#[verifier::spinoff_prover]
#[verifier::rlimit(60)]
pub proof fn lemma_jsr_then_rts(c: Cpu, bus: NesBusState)
    requires
        bus.wf(),
        0x8000 <= c.pc < 0xffff,
    ensures
        ({
            let (c1, b1, n1) = c.exec_spec(bus, 0x20);
            let (c2, b2, n2) = c1.exec_spec(b1, 0x60);
            &&& n1 == 6 && n2 == 6
            &&& c1.pc == bus.read_spec(c.pc).1 + 256 * bus.read_spec(wrap16(c.pc + 1)).1
            &&& c1.s == wrap8(c.s - 2)
            &&& c2 == Cpu { pc: wrap16(c.pc + 2), ..c }
        }),
{
    lemma_rom_read(bus, c.pc);
    lemma_rom_read(bus, wrap16(c.pc + 1));
    assert(wrap16(c.pc + 1) == c.pc + 1);
    let (cf, bf, l0) = c.fetch_spec(bus);
    assert(bf == bus && cf.pc == wrap16(c.pc + 1));
    let (cg, bg, h0) = cf.fetch_spec(bf);
    assert(bg == bus && cg.pc == wrap16(c.pc + 2));
    let (cw, bw, a) = c.word_spec(bus);
    assert(bw == bus && cw.pc == wrap16(c.pc + 2));
    let ret = wrap16(cw.pc - 1);
    let hi = (ret / 256) as u8;
    let lo = (ret % 256) as u8;
    let a0 = (0x100 + c.s) as u16;
    let a1 = (0x100 + wrap8(c.s - 1)) as u16;
    let (cA, bA) = cw.push_spec(bw, hi);
    lemma_ram(bw, a0, a1, hi);
    let (cB, bB) = cA.push_spec(bA, lo);
    lemma_ram(bA, a1, a0, lo);
    lemma_ram(bB, a1, a0, 0);
    lemma_ram(bB, a0, a1, 0);
    let (c1, b1, n1) = c.exec_spec(bus, 0x20);
    assert(b1 == bB && c1 == Cpu { pc: a, ..cB });
    let (d1, e1, l) = c1.pop_spec(b1);
    assert(d1.s == wrap8(c.s - 1) && e1 == bB && l == lo);
    let (d2, e2, h) = d1.pop_spec(e1);
    assert(d2.s == c.s && e2 == bB && h == hi);
    assert(wrap16(lo + 256 * hi + 1) == wrap16(c.pc + 2));
}

/// Law: after an interrupt, RTI resumes the interrupted program: PC, S and the status
/// flags come back (B clear, the unused bit set), when the vector is in PRG ROM.
#[verifier::spinoff_prover]
#[verifier::rlimit(100)]
pub proof fn lemma_interrupt_then_return(c: Cpu, bus: NesBusState, vector: u16, brk: bool)
    requires
        bus.wf(),
        0x8000 <= vector < 0xffff,
    ensures
        ({
            let (c1, b1) = c.interrupt_spec(bus, vector, brk);
            let (c2, b2, n) = c1.jump_spec(b1, 0x40);
            c2 == Cpu { pc: c2.pc, p: (c.p & !B) | U, ..c } && c2.pc == c.pc && n == 6
        }),
{
    let hi = (c.pc / 256) as u8;
    let lo = (c.pc % 256) as u8;
    let pushed = (c.p & !B) | U | if brk {
        B
    } else {
        0u8
    };
    let a0 = (0x100 + c.s) as u16;
    let a1 = (0x100 + wrap8(c.s - 1)) as u16;
    let a2 = (0x100 + wrap8(c.s - 2)) as u16;
    let b1 = bus.write_spec(a0, hi);
    lemma_ram(bus, a0, a1, hi);
    let b2 = b1.write_spec(a1, lo);
    lemma_ram(b1, a1, a0, lo);
    let b3 = b2.write_spec(a2, pushed);
    lemma_ram(b2, a2, a1, pushed);
    lemma_ram(b2, a2, a0, pushed);
    lemma_rom_read(b3, vector);
    let b4 = b3.read_spec(vector).0;
    lemma_rom_read(b4, (vector + 1) as u16);
    lemma_ram(b3, a2, a1, 0);
    lemma_ram(b3, a1, a0, 0);
    lemma_ram(b3, a0, a1, 0);
    let (cA, bA) = c.push_spec(bus, hi);
    assert(cA.s == wrap8(c.s - 1) && bA == b1);
    let (cB, bB) = cA.push_spec(bA, lo);
    assert(cB.s == wrap8(c.s - 2) && bB == b2);
    let (cC, bC) = cB.push_spec(bB, pushed);
    assert(cC.s == wrap8(c.s - 3) && bC == b3);
    let (c1, b5) = c.interrupt_spec(bus, vector, brk);
    assert(b5 == b3.read16_spec(vector).0);
    assert(b5 == b3);
    assert(c1.s == wrap8(c.s - 3));
    let (d1, e1, pv) = c1.pop_spec(b5);
    assert(d1.s == wrap8(c.s - 2) && e1 == b3 && pv == pushed);
    let (d2, e2, l) = Cpu { p: (pv & !B) | U, ..d1 }.pop_spec(e1);
    assert(d2.s == wrap8(c.s - 1) && e2 == b3 && l == lo);
    let (d3, e3, h) = d2.pop_spec(e2);
    assert(d3.s == c.s && e3 == b3 && h == hi);
    let p = c.p;
    assert(((pushed & !B) | U) == (p & !B) | U) by (bit_vector)
        requires
            pushed == (p & !B) | U | if brk {
                B
            } else {
                0u8
            },
    ;
    assert(lo + 256 * hi == c.pc);
}

/// The 6502 core of the 2A03: registers and status flags.
pub struct Cpu {
    pub a: u8,
    pub x: u8,
    pub y: u8,
    pub s: u8,
    pub p: u8,
    pub pc: u16,
}

/// An instruction's outcome: processor, bus and cycles.
pub type Executed = (Cpu, NesBusState, u16);

impl Cpu {
    pub open spec fn flag_spec(self, f: u8) -> bool {
        self.p & f != 0
    }

    pub open spec fn set_spec(self, f: u8, on: bool) -> Cpu {
        Cpu {
            p: if on {
                self.p | f
            } else {
                self.p & !f
            },
            ..self
        }
    }

    /// Z and N set from `v`.
    pub open spec fn zn_spec(self, v: u8) -> Cpu {
        self.set_spec(Z, v == 0).set_spec(N, v & 0x80 != 0)
    }

    pub open spec fn fetch_spec(self, bus: NesBusState) -> (Cpu, NesBusState, u8) {
        let (b1, v) = bus.read_spec(self.pc);
        (Cpu { pc: wrap16(self.pc + 1), ..self }, b1, v)
    }

    pub open spec fn word_spec(self, bus: NesBusState) -> (Cpu, NesBusState, u16) {
        let (c1, b1, l) = self.fetch_spec(bus);
        let (c2, b2, h) = c1.fetch_spec(b1);
        (c2, b2, (l + 256 * h) as u16)
    }

    /// Pushes `v` on the page-1 stack.
    pub open spec fn push_spec(self, bus: NesBusState, v: u8) -> (Cpu, NesBusState) {
        (Cpu { s: wrap8(self.s - 1), ..self }, bus.write_spec((0x100 + self.s) as u16, v))
    }

    pub open spec fn pop_spec(self, bus: NesBusState) -> (Cpu, NesBusState, u8) {
        let s = wrap8(self.s + 1);
        let (b1, v) = bus.read_spec((0x100 + s) as u16);
        (Cpu { s, ..self }, b1, v)
    }

    /// Effective address of addressing `mode` (zero page, zp+X, zp+Y, absolute, abs+X,
    /// abs+Y, (zp+X), (zp)+Y) and whether indexing crossed a page.
    pub open spec fn addr_spec(self, bus: NesBusState, mode: u8) -> (Cpu, NesBusState, u16, bool) {
        if mode == 0 {
            self.zero_page_spec(bus, 0)
        } else if mode == 1 {
            self.zero_page_spec(bus, self.x)
        } else if mode == 2 {
            self.zero_page_spec(bus, self.y)
        } else if mode == 3 {
            self.absolute_spec(bus, 0)
        } else if mode == 4 {
            self.absolute_spec(bus, self.x)
        } else if mode == 5 {
            self.absolute_spec(bus, self.y)
        } else {
            self.indirect_spec(bus, mode == 6)
        }
    }

    /// Zero page address plus `off`, wrapping within page 0.
    pub open spec fn zero_page_spec(self, bus: NesBusState, off: u8) -> (Cpu, NesBusState, u16, bool) {
        let (c1, b1, z) = self.fetch_spec(bus);
        (c1, b1, wrap8(z + off) as u16, false)
    }

    /// Absolute address plus `off`, and whether that crossed a page.
    pub open spec fn absolute_spec(self, bus: NesBusState, off: u8) -> (Cpu, NesBusState, u16, bool) {
        let (c1, b1, a) = self.word_spec(bus);
        let e = wrap16(a + off);
        (c1, b1, e, a / 256 != e / 256)
    }

    /// The indexed indirect (zp+X) address when `pre_x`, else the indirect indexed (zp)+Y
    /// address and whether adding Y crossed a page.
    pub open spec fn indirect_spec(self, bus: NesBusState, pre_x: bool) -> (Cpu, NesBusState, u16, bool) {
        let (c1, b1, f) = self.fetch_spec(bus);
        let z = if pre_x {
            wrap8(f + self.x)
        } else {
            f
        };
        let (b2, lo) = b1.read_spec(z as u16);
        let (b3, hi) = b2.read_spec(wrap8(z + 1) as u16);
        let a = lo + 256 * hi;
        if pre_x {
            (c1, b3, a as u16, false)
        } else {
            let e = wrap16(a + self.y);
            (c1, b3, e, a / 256 != e / 256)
        }
    }

    /// ADC: A + v + carry, with C, V, Z and N.
    pub open spec fn adc_spec(self, v: u8) -> Cpu {
        let sum = self.a + v + if self.flag_spec(C) {
            1int
        } else {
            0
        };
        let r = wrap8(sum);
        let c1 = self.set_spec(C, sum > 255).set_spec(V, (!(self.a ^ v) & (self.a ^ r) & 0x80) != 0);
        Cpu { a: r, ..c1 }.zn_spec(r)
    }

    /// Compare `a` with `v`: C when `a >= v`, Z and N from the difference.
    pub open spec fn compare_spec(self, a: u8, v: u8) -> Cpu {
        self.set_spec(C, a >= v).zn_spec(wrap8(a - v))
    }

    /// A relative branch: 2 cycles, 3 when taken, 4 when taken across a page.
    pub open spec fn branch_spec(self, bus: NesBusState, take: bool) -> Executed {
        let (c1, b1, off) = self.fetch_spec(bus);
        if take {
            let pc = wrap16(c1.pc + signed_byte(off));
            (Cpu { pc, ..c1 }, b1, if c1.pc / 256 != pc / 256 {
                4
            } else {
                3
            })
        } else {
            (c1, b1, 2)
        }
    }

    /// Interrupt entry: pushes PC and status (B set for BRK), sets I and jumps
    /// through `vector`.
    pub open spec fn interrupt_spec(self, bus: NesBusState, vector: u16, brk: bool) -> (
        Cpu,
        NesBusState,
    ) {
        let (c1, b1) = self.push_spec(bus, (self.pc / 256) as u8);
        let (c2, b2) = c1.push_spec(b1, (self.pc % 256) as u8);
        let (c3, b3) = c2.push_spec(
            b2,
            (self.p & !B) | U | if brk {
                B
            } else {
                0u8
            },
        );
        let c4 = c3.set_spec(I, true);
        let (b4, pc) = b3.read16_spec(vector);
        (Cpu { pc, ..c4 }, b4)
    }

    /// BRK, RTI, RTS, JSR, JMP and JMP (indirect).
    pub open spec fn jump_spec(self, bus: NesBusState, op: u8) -> Executed {
        if op == 0x00 {
            let (c1, b1) = Cpu { pc: wrap16(self.pc + 1), ..self }.interrupt_spec(bus, 0xfffe, true);
            (c1, b1, 7)
        } else if op == 0x40 {
            let (c1, b1, p) = self.pop_spec(bus);
            let (c2, b2, l) = Cpu { p: (p & !B) | U, ..c1 }.pop_spec(b1);
            let (c3, b3, h) = c2.pop_spec(b2);
            (Cpu { pc: (l + 256 * h) as u16, ..c3 }, b3, 6)
        } else if op == 0x60 {
            let (c1, b1, l) = self.pop_spec(bus);
            let (c2, b2, h) = c1.pop_spec(b1);
            (Cpu { pc: wrap16(l + 256 * h + 1), ..c2 }, b2, 6)
        } else if op == 0x20 {
            let (c1, b1, a) = self.word_spec(bus);
            let ret = wrap16(c1.pc - 1);
            let (c2, b2) = c1.push_spec(b1, (ret / 256) as u8);
            let (c3, b3) = c2.push_spec(b2, (ret % 256) as u8);
            (Cpu { pc: a, ..c3 }, b3, 6)
        } else if op == 0x4c {
            let (c1, b1, a) = self.word_spec(bus);
            (Cpu { pc: a, ..c1 }, b1, 3)
        } else {
            let (c1, b1, p) = self.word_spec(bus);
            let (b2, lo) = b1.read_spec(p);
            let (b3, hi) = b2.read_spec((p & 0xff00) | (wrap16(p + 1) & 0xff));
            (Cpu { pc: (lo + 256 * hi) as u16, ..c1 }, b3, 5)
        }
    }

    /// Whether a branch opcode is taken: BPL, BMI, BVC, BVS,
    /// BCC, BCS, BNE, BEQ.
    pub open spec fn branch_taken(self, op: u8) -> bool {
        if op == 0x10 {
            !self.flag_spec(N)
        } else if op == 0x30 {
            self.flag_spec(N)
        } else if op == 0x50 {
            !self.flag_spec(V)
        } else if op == 0x70 {
            self.flag_spec(V)
        } else if op == 0x90 {
            !self.flag_spec(C)
        } else if op == 0xb0 {
            self.flag_spec(C)
        } else if op == 0xd0 {
            !self.flag_spec(Z)
        } else {
            self.flag_spec(Z)
        }
    }

    /// The one-byte instructions: flag changes, stack, transfers, increments, shifts of A
    /// and NOPs.
    pub open spec fn implied_spec(self, bus: NesBusState, op: u8) -> Executed {
        let a = self.a;
        if op == 0x18 {
            (self.set_spec(C, false), bus, 2)
        } else if op == 0x38 {
            (self.set_spec(C, true), bus, 2)
        } else if op == 0x58 {
            (self.set_spec(I, false), bus, 2)
        } else if op == 0x78 {
            (self.set_spec(I, true), bus, 2)
        } else if op == 0xb8 {
            (self.set_spec(V, false), bus, 2)
        } else if op == 0xd8 {
            (self.set_spec(D, false), bus, 2)
        } else if op == 0xf8 {
            (self.set_spec(D, true), bus, 2)
        } else if op == 0x48 {
            let (c1, b1) = self.push_spec(bus, a);
            (c1, b1, 3)
        } else if op == 0x68 {
            let (c1, b1, v) = self.pop_spec(bus);
            (Cpu { a: v, ..c1 }.zn_spec(v), b1, 4)
        } else if op == 0x08 {
            let (c1, b1) = self.push_spec(bus, self.p | B | U);
            (c1, b1, 3)
        } else if op == 0x28 {
            let (c1, b1, v) = self.pop_spec(bus);
            (Cpu { p: (v & !B) | U, ..c1 }, b1, 4)
        } else if op == 0xaa {
            (Cpu { x: a, ..self }.zn_spec(a), bus, 2)
        } else if op == 0x8a {
            (Cpu { a: self.x, ..self }.zn_spec(self.x), bus, 2)
        } else if op == 0xa8 {
            (Cpu { y: a, ..self }.zn_spec(a), bus, 2)
        } else if op == 0x98 {
            (Cpu { a: self.y, ..self }.zn_spec(self.y), bus, 2)
        } else if op == 0xba {
            (Cpu { x: self.s, ..self }.zn_spec(self.s), bus, 2)
        } else if op == 0x9a {
            (Cpu { s: self.x, ..self }, bus, 2)
        } else if op == 0xe8 || op == 0xca {
            let x = if op == 0xe8 {
                wrap8(self.x + 1)
            } else {
                wrap8(self.x - 1)
            };
            (Cpu { x, ..self }.zn_spec(x), bus, 2)
        } else if op == 0xc8 || op == 0x88 {
            let y = if op == 0xc8 {
                wrap8(self.y + 1)
            } else {
                wrap8(self.y - 1)
            };
            (Cpu { y, ..self }.zn_spec(y), bus, 2)
        } else if op == 0x0a {
            let r = wrap8(a * 2);
            (Cpu { a: r, ..self.set_spec(C, a & 0x80 != 0) }.zn_spec(r), bus, 2)
        } else if op == 0x2a {
            let r = wrap8(a * 2 + if self.flag_spec(C) {
                1int
            } else {
                0
            });
            (Cpu { a: r, ..self.set_spec(C, a & 0x80 != 0) }.zn_spec(r), bus, 2)
        } else if op == 0x4a {
            let r = a / 2;
            (Cpu { a: r, ..self.set_spec(C, a & 1 != 0) }.zn_spec(r), bus, 2)
        } else if op == 0x6a {
            let r = (a / 2 + if self.flag_spec(C) {
                128int
            } else {
                0
            }) as u8;
            (Cpu { a: r, ..self.set_spec(C, a & 1 != 0) }.zn_spec(r), bus, 2)
        } else {
            (self, bus, 2)
        }
    }

    /// Whether `op` is one of the instructions of `implied_spec`.
    pub open spec fn is_implied(op: u8) -> bool {
        op == 0x18 || op == 0x38 || op == 0x58 || op == 0x78 || op == 0xb8 || op == 0xd8 || op
            == 0xf8 || op == 0x48 || op == 0x68 || op == 0x08 || op == 0x28 || op == 0xaa || op
            == 0x8a || op == 0xa8 || op == 0x98 || op == 0xba || op == 0x9a || op == 0xe8 || op
            == 0xca || op == 0xc8 || op == 0x88 || op == 0xea || op == 0x1a || op == 0x3a || op
            == 0x5a || op == 0x7a || op == 0xda || op == 0xfa || op == 0x0a || op == 0x2a || op
            == 0x4a || op == 0x6a
    }

    /// The operand of an X/Y load or compare (immediate, zero page, zp+X/Y, absolute,
    /// abs+X/Y) and the cycles.
    pub open spec fn read_indexed_spec(self, bus: NesBusState, op: u8) -> (
        Cpu,
        NesBusState,
        u8,
        u16,
    ) {
        if op == 0xa0 || op == 0xa2 || op == 0xc0 || op == 0xe0 {
            let (c1, b1, v) = self.fetch_spec(bus);
            (c1, b1, v, 2)
        } else {
            let (mode, base): (u8, u16) = if op == 0xb4 {
                (1, 4)
            } else if op == 0xb6 {
                (2, 4)
            } else if op == 0xac || op == 0xae || op == 0xcc || op == 0xec {
                (3, 4)
            } else if op == 0xbc {
                (4, 4)
            } else if op == 0xbe {
                (5, 4)
            } else {
                (0, 3)
            };
            let (c1, b1, a, page) = self.addr_spec(bus, mode);
            let (b2, v) = b1.read_spec(a);
            (c1, b2, v, (base + if page {
                1int
            } else {
                0
            }) as u16)
        }
    }

    /// The address and cycles of an X/Y store (zero page, zp+X/Y, absolute).
    pub open spec fn store_addr_spec(self, bus: NesBusState, op: u8) -> (Cpu, NesBusState, u16, u16) {
        let (mode, c): (u8, u16) = if op == 0x84 || op == 0x86 {
            (0, 3)
        } else if op == 0x94 {
            (1, 4)
        } else if op == 0x96 {
            (2, 4)
        } else {
            (3, 4)
        };
        let (c1, b1, a, _p) = self.addr_spec(bus, mode);
        (c1, b1, a, c)
    }

    /// The X and Y loads, stores and compares, and BIT.
    pub open spec fn xy_spec(self, bus: NesBusState, op: u8) -> Executed {
        if op == 0xa0 || op == 0xa4 || op == 0xb4 || op == 0xac || op == 0xbc {
            let (c1, b1, v, c) = self.read_indexed_spec(bus, op);
            (Cpu { y: v, ..c1 }.zn_spec(v), b1, c)
        } else if op == 0xa2 || op == 0xa6 || op == 0xb6 || op == 0xae || op == 0xbe {
            let (c1, b1, v, c) = self.read_indexed_spec(bus, op);
            (Cpu { x: v, ..c1 }.zn_spec(v), b1, c)
        } else if op == 0x84 || op == 0x94 || op == 0x8c {
            let (c1, b1, a, c) = self.store_addr_spec(bus, op);
            (c1, b1.write_spec(a, self.y), c)
        } else if op == 0x86 || op == 0x96 || op == 0x8e {
            let (c1, b1, a, c) = self.store_addr_spec(bus, op);
            (c1, b1.write_spec(a, self.x), c)
        } else if op == 0x24 || op == 0x2c {
            let (c1, b1, a, _p) = self.addr_spec(bus, if op == 0x24 {
                0
            } else {
                3
            });
            let (b2, v) = b1.read_spec(a);
            let c2 = c1.set_spec(Z, self.a & v == 0).set_spec(V, v & 0x40 != 0).set_spec(
                N,
                v & 0x80 != 0,
            );
            (c2, b2, if op == 0x24 {
                3
            } else {
                4
            })
        } else if op == 0xc0 || op == 0xc4 || op == 0xcc {
            let (c1, b1, v, c) = self.read_indexed_spec(bus, op);
            (c1.compare_spec(self.y, v), b1, c)
        } else {
            let (c1, b1, v, c) = self.read_indexed_spec(bus, op);
            (c1.compare_spec(self.x, v), b1, c)
        }
    }

    /// Whether `op` is one of the instructions of `xy_spec`.
    pub open spec fn is_xy(op: u8) -> bool {
        op == 0xa0 || op == 0xa4 || op == 0xb4 || op == 0xac || op == 0xbc || op == 0xa2 || op
            == 0xa6 || op == 0xb6 || op == 0xae || op == 0xbe || op == 0x84 || op == 0x94 || op
            == 0x8c || op == 0x86 || op == 0x96 || op == 0x8e || op == 0x24 || op == 0x2c || op
            == 0xc0 || op == 0xc4 || op == 0xcc || op == 0xe0 || op == 0xe4 || op == 0xec
    }

    /// The addressing mode of a memory instruction by its low five bits (255: none).
    pub open spec fn memory_mode(op: u8) -> u8 {
        let lo = op & 0x1f;
        if lo == 0x05 || lo == 0x06 {
            0
        } else if lo == 0x15 || lo == 0x16 {
            1
        } else if lo == 0x0d || lo == 0x0e {
            3
        } else if lo == 0x1d || lo == 0x1e {
            4
        } else if lo == 0x19 {
            5
        } else if lo == 0x01 {
            6
        } else if lo == 0x11 {
            7
        } else if lo == 0x09 {
            8
        } else {
            255
        }
    }

    /// A read-modify-write of `v` (ASL, ROL, LSR, ROR, DEC, INC by the top three bits of
    /// `op`; others write `v` back): the flags and the value written.
    pub open spec fn modify_spec(self, op: u8, v: u8) -> (Cpu, u8) {
        let kind = op & 0xe0;
        let ci: int = if self.flag_spec(C) {
            1
        } else {
            0
        };
        if kind == 0x00 {
            (self.set_spec(C, v & 0x80 != 0), wrap8(v * 2))
        } else if kind == 0x20 {
            (self.set_spec(C, v & 0x80 != 0), wrap8(v * 2 + ci))
        } else if kind == 0x40 {
            (self.set_spec(C, v & 1 != 0), v / 2)
        } else if kind == 0x60 {
            (self.set_spec(C, v & 1 != 0), (v / 2 + ci * 128) as u8)
        } else if kind == 0xc0 {
            (self, wrap8(v - 1))
        } else if kind == 0xe0 {
            (self, wrap8(v + 1))
        } else {
            (self, v)
        }
    }

    /// The accumulator and memory instructions: ORA, AND, EOR, ADC, STA, LDA, CMP, SBC
    /// and the read-modify-write group; other opcodes take 2 cycles and do nothing.
    pub open spec fn memory_op_spec(self, bus: NesBusState, op: u8) -> Executed {
        let lo = op & 0x1f;
        let mode = Self::memory_mode(op);
        if mode == 255 {
            (self, bus, 2)
        } else {
            let (c1, b1, addr, page) = if mode == 8 {
                (self, bus, 0u16, false)
            } else {
                self.addr_spec(bus, mode)
            };
            let (c2, b2, v) = if mode == 8 {
                c1.fetch_spec(b1)
            } else {
                let (b, v) = b1.read_spec(addr);
                (c1, b, v)
            };
            if lo == 0x06 || lo == 0x16 || lo == 0x0e || lo == 0x1e {
                let (c3, w) = c2.modify_spec(op, v);
                (c3.zn_spec(w), b2.write_spec(addr, w), if mode == 3 {
                    6
                } else if mode == 4 {
                    7
                } else {
                    5
                })
            } else {
                let group = op & 0xe0;
                let p: int = if page {
                    1
                } else {
                    0
                };
                let cycles: u16 = if mode == 8 {
                    2
                } else if mode == 0 {
                    3
                } else if mode == 1 || mode == 3 {
                    4
                } else if mode == 4 || mode == 5 {
                    (4 + p) as u16
                } else if mode == 6 {
                    6
                } else {
                    (5 + p) as u16
                };
                if group == 0x00 {
                    let r = c2.a | v;
                    (Cpu { a: r, ..c2 }.zn_spec(r), b2, cycles)
                } else if group == 0x20 {
                    let r = c2.a & v;
                    (Cpu { a: r, ..c2 }.zn_spec(r), b2, cycles)
                } else if group == 0x40 {
                    let r = c2.a ^ v;
                    (Cpu { a: r, ..c2 }.zn_spec(r), b2, cycles)
                } else if group == 0x60 {
                    (c2.adc_spec(v), b2, cycles)
                } else if group == 0x80 {
                    if mode != 8 {
                        (c2, b2.write_spec(addr, c2.a), if mode <= 2 {
                            3
                        } else if mode == 3 {
                            4
                        } else if mode <= 5 {
                            5
                        } else {
                            6
                        })
                    } else {
                        (c2, b2, cycles)
                    }
                } else if group == 0xa0 {
                    (Cpu { a: v, ..c2 }.zn_spec(v), b2, cycles)
                } else if group == 0xc0 {
                    (c2.compare_spec(c2.a, v), b2, cycles)
                } else {
                    (c2.adc_spec(!v), b2, cycles)
                }
            }
        }
    }

    /// One instruction with opcode `op`, already fetched.
    pub open spec fn exec_spec(self, bus: NesBusState, op: u8) -> Executed {
        if op == 0x00 || op == 0x40 || op == 0x60 || op == 0x20 || op == 0x4c || op == 0x6c {
            self.jump_spec(bus, op)
        } else if op == 0x10 || op == 0x30 || op == 0x50 || op == 0x70 || op == 0x90 || op == 0xb0
            || op == 0xd0 || op == 0xf0 {
            self.branch_spec(bus, self.branch_taken(op))
        } else if Self::is_implied(op) {
            self.implied_spec(bus, op)
        } else if Self::is_xy(op) {
            self.xy_spec(bus, op)
        } else {
            self.memory_op_spec(bus, op)
        }
    }

    /// One step: a pending NMI, a DMA stall, or one instruction; the PPU then runs three
    /// dots per cycle.
    #[verifier::opaque]
    pub open spec fn step_spec(self, bus: NesBusState) -> (Cpu, NesBusState) {
        if bus.ppu.nmi {
            let b1 = NesBusState { ppu: super::ppu::NesPpuState { nmi: false, ..bus.ppu }, ..bus };
            let (c2, b2) = self.interrupt_spec(b1, 0xfffa, false);
            (c2, b2.tick_spec(7))
        } else if bus.dma_stall > 0 {
            (self, NesBusState { dma_stall: 0, ..bus }.tick_spec(bus.dma_stall as nat))
        } else {
            let (c1, b1, op) = self.fetch_spec(bus);
            let (c2, b2, cy) = c1.exec_spec(b1, op);
            (c2, b2.tick_spec(cy as nat))
        }
    }

    /// The state after RESET: S = 0xfd, I and U set, PC from the reset vector.
    pub open spec fn reset_spec(self, bus: NesBusState) -> (Cpu, NesBusState) {
        let (b1, pc) = bus.read16_spec(0xfffc);
        (Cpu { s: 0xfd, p: I | U, pc, ..self }, b1)
    }
}

impl Default for Cpu {
    #[verifier::spinoff_prover]
    fn default() -> (c: Cpu)
        ensures
            c == (Cpu { a: 0, x: 0, y: 0, s: 0, p: 0, pc: 0 }),
    {
        Cpu { a: 0, x: 0, y: 0, s: 0, p: 0, pc: 0 }
    }
}

impl Cpu {
    /// RESET: loads the reset vector.
    #[verifier::spinoff_prover]
    pub fn reset(&mut self, b: &mut Bus)
        requires
            old(b)@.wf(),
        ensures
            (*final(self), final(b)@) == old(self).reset_spec(old(b)@),
            final(b)@.wf(),
            old(b)@.ppu.same_beam(final(b)@.ppu),
    {
        self.s = 0xfd;
        self.p = I | U;
        self.pc = b.read16(0xfffc)
    }

    #[verifier::spinoff_prover]
    fn flag(&self, f: u8) -> (r: bool)
        ensures
            r == self.flag_spec(f),
    {
        self.p & f != 0
    }

    #[verifier::spinoff_prover]
    fn set(&mut self, f: u8, on: bool)
        ensures
            *final(self) == old(self).set_spec(f, on),
    {
        if on {
            self.p |= f
        } else {
            self.p &= !f
        }
    }

    #[verifier::spinoff_prover]
    fn zn(&mut self, v: u8)
        ensures
            *final(self) == old(self).zn_spec(v),
    {
        self.set(Z, v == 0);
        self.set(N, v & 0x80 != 0)
    }

    #[verifier::spinoff_prover]
    fn fetch(&mut self, b: &mut Bus) -> (v: u8)
        requires
            old(b)@.wf(),
        ensures
            (*final(self), final(b)@, v) == old(self).fetch_spec(old(b)@),
            final(b)@.wf(),
            old(b)@.ppu.same_beam(final(b)@.ppu),
    {
        let v = b.read(self.pc);
        self.pc = self.pc.wrapping_add(1);
        v
    }

    #[verifier::spinoff_prover]
    fn word(&mut self, b: &mut Bus) -> (v: u16)
        requires
            old(b)@.wf(),
        ensures
            (*final(self), final(b)@, v) == old(self).word_spec(old(b)@),
            final(b)@.wf(),
            old(b)@.ppu.same_beam(final(b)@.ppu),
    {
        let l = self.fetch(b) as u16;
        let h = self.fetch(b) as u16;
        l + h * 256
    }

    #[verifier::spinoff_prover]
    fn push(&mut self, b: &mut Bus, v: u8)
        requires
            old(b)@.wf(),
        ensures
            (*final(self), final(b)@) == old(self).push_spec(old(b)@, v),
            final(b)@.wf(),
            old(b)@.ppu.same_beam(final(b)@.ppu),
    {
        b.write(0x100 + self.s as u16, v);
        self.s = self.s.wrapping_sub(1)
    }

    #[verifier::spinoff_prover]
    fn pop(&mut self, b: &mut Bus) -> (v: u8)
        requires
            old(b)@.wf(),
        ensures
            (*final(self), final(b)@, v) == old(self).pop_spec(old(b)@),
            final(b)@.wf(),
            old(b)@.ppu.same_beam(final(b)@.ppu),
    {
        self.s = self.s.wrapping_add(1);
        b.read(0x100 + self.s as u16)
    }

    #[verifier::spinoff_prover]
    fn addr(&mut self, b: &mut Bus, mode: u8) -> (r: (u16, bool))
        requires
            old(b)@.wf(),
        ensures
            ({
                let (c, bus, a, page) = old(self).addr_spec(old(b)@, mode);
                &&& *final(self) == c
                &&& final(b)@ == bus
                &&& r == (a, page)
            }),
            final(b)@.wf(),
            old(b)@.ppu.same_beam(final(b)@.ppu),
    {
        match mode {
            0 => self.zero_page(b, 0),
            1 => {
                let x = self.x;
                self.zero_page(b, x)
            },
            2 => {
                let y = self.y;
                self.zero_page(b, y)
            },
            3 => self.absolute(b, 0),
            4 => {
                let x = self.x;
                self.absolute(b, x)
            },
            5 => {
                let y = self.y;
                self.absolute(b, y)
            },
            _ => self.indirect(b, mode == 6),
        }
    }

    #[verifier::spinoff_prover]
    fn zero_page(&mut self, b: &mut Bus, off: u8) -> (r: (u16, bool))
        requires
            old(b)@.wf(),
        ensures
            ({
                let (c, bus, a, page) = old(self).zero_page_spec(old(b)@, off);
                &&& *final(self) == c
                &&& final(b)@ == bus
                &&& r == (a, page)
            }),
            final(b)@.wf(),
            old(b)@.ppu.same_beam(final(b)@.ppu),
    {
        (self.fetch(b).wrapping_add(off) as u16, false)
    }

    #[verifier::spinoff_prover]
    fn absolute(&mut self, b: &mut Bus, off: u8) -> (r: (u16, bool))
        requires
            old(b)@.wf(),
        ensures
            ({
                let (c, bus, a, page) = old(self).absolute_spec(old(b)@, off);
                &&& *final(self) == c
                &&& final(b)@ == bus
                &&& r == (a, page)
            }),
            final(b)@.wf(),
            old(b)@.ppu.same_beam(final(b)@.ppu),
    {
        let a = self.word(b);
        let e = a.wrapping_add(off as u16);
        (e, a / 256 != e / 256)
    }

    #[verifier::spinoff_prover]
    #[verifier::rlimit(80)]
    fn indirect(&mut self, b: &mut Bus, pre_x: bool) -> (r: (u16, bool))
        requires
            old(b)@.wf(),
        ensures
            ({
                let (c, bus, a, page) = old(self).indirect_spec(old(b)@, pre_x);
                &&& *final(self) == c
                &&& final(b)@ == bus
                &&& r == (a, page)
            }),
            final(b)@.wf(),
            old(b)@.ppu.same_beam(final(b)@.ppu),
    {
        let f = self.fetch(b);
        let z = if pre_x {
            f.wrapping_add(self.x)
        } else {
            f
        };
        let lo = b.read(z as u16) as u16;
        let hi = b.read(z.wrapping_add(1) as u16) as u16;
        let a = lo + hi * 256;
        if pre_x {
            (a, false)
        } else {
            let e = a.wrapping_add(self.y as u16);
            (e, a / 256 != e / 256)
        }
    }

    #[verifier::spinoff_prover]
    fn adc(&mut self, v: u8)
        ensures
            *final(self) == old(self).adc_spec(v),
    {
        let sum = self.a as u16 + v as u16 + if self.flag(C) {
            1
        } else {
            0
        };
        let r = (sum % 256) as u8;
        self.set(C, sum > 255);
        self.set(V, (!(self.a ^ v) & (self.a ^ r) & 0x80) != 0);
        self.a = r;
        self.zn(r)
    }

    #[verifier::spinoff_prover]
    fn compare(&mut self, a: u8, v: u8)
        ensures
            *final(self) == old(self).compare_spec(a, v),
    {
        self.set(C, a >= v);
        self.zn(a.wrapping_sub(v))
    }

    #[verifier::spinoff_prover]
    fn branch(&mut self, b: &mut Bus, take: bool) -> (cy: u16)
        requires
            old(b)@.wf(),
        ensures
            (*final(self), final(b)@, cy) == old(self).branch_spec(old(b)@, take),
            final(b)@.wf(),
            old(b)@.ppu.same_beam(final(b)@.ppu),
            2 <= cy <= 4,
    {
        let off = self.fetch(b);
        if take {
            let old = self.pc;
            self.pc = if off < 128 {
                self.pc.wrapping_add(off as u16)
            } else {
                self.pc.wrapping_sub(256 - off as u16)
            };
            if old / 256 != self.pc / 256 {
                4
            } else {
                3
            }
        } else {
            2
        }
    }

    #[verifier::spinoff_prover]
    fn interrupt(&mut self, b: &mut Bus, vector: u16, brk: bool)
        requires
            old(b)@.wf(),
        ensures
            (*final(self), final(b)@) == old(self).interrupt_spec(old(b)@, vector, brk),
            final(b)@.wf(),
            old(b)@.ppu.same_beam(final(b)@.ppu),
    {
        let pc = self.pc;
        self.push(b, (pc / 256) as u8);
        self.push(b, (pc % 256) as u8);
        let p = (self.p & !B) | U | if brk {
            B
        } else {
            0
        };
        self.push(b, p);
        self.set(I, true);
        self.pc = b.read16(vector)
    }

    /// Runs one step: a pending NMI, a DMA stall, or one instruction, then the PPU.
    #[verifier::spinoff_prover]
    pub fn step(&mut self, b: &mut Bus)
        requires
            old(b)@.wf(),
        ensures
            (*final(self), final(b)@) == old(self).step_spec(old(b)@),
            final(b)@.wf(),
            exists|q: super::ppu::NesPpuState, m: nat|
                q.wf() && q.same_beam(old(b)@.ppu) && 3 <= m <= 1539 && final(b)@.ppu
                    == super::bus::ppu_ticks(q, m),
    {
        reveal(Cpu::step_spec);
        if b.ppu.nmi {
            b.ppu.nmi = false;
            self.interrupt(b, 0xfffa, false);
            let ghost q = b@.ppu;
            b.tick(7);
            assert(b@.ppu == super::bus::ppu_ticks(q, 21));
            return;
        }
        if b.dma_stall > 0 {
            let n = b.dma_stall;
            b.dma_stall = 0;
            let ghost q = b@.ppu;
            b.tick(n);
            assert(b@.ppu == super::bus::ppu_ticks(q, 3 * n as nat));
            return;
        }
        let op = self.fetch(b);
        let cycles = self.exec(b, op);
        let ghost q = b@.ppu;
        b.tick(cycles);
        assert(b@.ppu == super::bus::ppu_ticks(q, 3 * cycles as nat));
    }

    /// Executes the instruction with opcode `op`; returns its cycles.
    #[verifier::spinoff_prover]
    fn exec(&mut self, b: &mut Bus, op: u8) -> (cy: u16)
        requires
            old(b)@.wf(),
        ensures
            (*final(self), final(b)@, cy) == old(self).exec_spec(old(b)@, op),
            final(b)@.wf(),
            old(b)@.ppu.same_beam(final(b)@.ppu),
            2 <= cy <= 7,
    {
        match op {
            0x00 | 0x40 | 0x60 | 0x20 | 0x4c | 0x6c => self.jump(b, op),
            0x10 => self.branch(b, !self.flag(N)),
            0x30 => self.branch(b, self.flag(N)),
            0x50 => self.branch(b, !self.flag(V)),
            0x70 => self.branch(b, self.flag(V)),
            0x90 => self.branch(b, !self.flag(C)),
            0xb0 => self.branch(b, self.flag(C)),
            0xd0 => self.branch(b, !self.flag(Z)),
            0xf0 => self.branch(b, self.flag(Z)),
            0x18 | 0x38 | 0x58 | 0x78 | 0xb8 | 0xd8 | 0xf8 | 0x48 | 0x68 | 0x08 | 0x28 | 0xaa
            | 0x8a | 0xa8 | 0x98 | 0xba | 0x9a | 0xe8 | 0xca | 0xc8 | 0x88 | 0xea | 0x1a | 0x3a
            | 0x5a | 0x7a | 0xda | 0xfa | 0x0a | 0x2a | 0x4a | 0x6a => self.implied(b, op),
            0xa0 | 0xa4 | 0xb4 | 0xac | 0xbc | 0xa2 | 0xa6 | 0xb6 | 0xae | 0xbe | 0x84 | 0x94
            | 0x8c | 0x86 | 0x96 | 0x8e | 0x24 | 0x2c | 0xc0 | 0xc4 | 0xcc | 0xe0 | 0xe4
            | 0xec => self.xy(b, op),
            _ => self.memory_op(b, op),
        }
    }

    /// BRK, RTI, RTS, JSR, JMP and JMP (indirect).
    #[verifier::spinoff_prover]
    #[verifier::rlimit(80)]
    fn jump(&mut self, b: &mut Bus, op: u8) -> (cy: u16)
        requires
            old(b)@.wf(),
        ensures
            (*final(self), final(b)@, cy) == old(self).jump_spec(old(b)@, op),
            final(b)@.wf(),
            old(b)@.ppu.same_beam(final(b)@.ppu),
            2 <= cy <= 7,
    {
        match op {
            0x00 => {
                self.pc = self.pc.wrapping_add(1);
                self.interrupt(b, 0xfffe, true);
                7
            },
            0x40 => {
                let p = self.pop(b);
                self.p = (p & !B) | U;
                let l = self.pop(b) as u16;
                let h = self.pop(b) as u16;
                self.pc = l + h * 256;
                6
            },
            0x60 => {
                let l = self.pop(b) as u16;
                let h = self.pop(b) as u16;
                self.pc = (l + h * 256).wrapping_add(1);
                6
            },
            0x20 => {
                let a = self.word(b);
                let ret = self.pc.wrapping_sub(1);
                self.push(b, (ret / 256) as u8);
                self.push(b, (ret % 256) as u8);
                self.pc = a;
                6
            },
            0x4c => {
                self.pc = self.word(b);
                3
            },
            _ => {
                let p = self.word(b);
                let lo = b.read(p) as u16;
                let hi = b.read((p & 0xff00) | (p.wrapping_add(1) & 0xff)) as u16;
                self.pc = lo + hi * 256;
                5
            },
        }
    }

    /// The one-byte instructions.
    #[verifier::spinoff_prover]
    #[verifier::rlimit(100)]
    fn implied(&mut self, b: &mut Bus, op: u8) -> (cy: u16)
        requires
            old(b)@.wf(),
        ensures
            (*final(self), final(b)@, cy) == old(self).implied_spec(old(b)@, op),
            final(b)@.wf(),
            old(b)@.ppu.same_beam(final(b)@.ppu),
            2 <= cy <= 7,
    {
        let a = self.a;
        match op {
            0x18 => self.set(C, false),
            0x38 => self.set(C, true),
            0x58 => self.set(I, false),
            0x78 => self.set(I, true),
            0xb8 => self.set(V, false),
            0xd8 => self.set(D, false),
            0xf8 => self.set(D, true),
            0x48 => {
                self.push(b, a);
                return 3;
            },
            0x68 => {
                self.a = self.pop(b);
                self.zn(self.a);
                return 4;
            },
            0x08 => {
                let p = self.p | B | U;
                self.push(b, p);
                return 3;
            },
            0x28 => {
                let p = self.pop(b);
                self.p = (p & !B) | U;
                return 4;
            },
            0xaa => {
                self.x = a;
                self.zn(self.x)
            },
            0x8a => {
                self.a = self.x;
                self.zn(self.a)
            },
            0xa8 => {
                self.y = a;
                self.zn(self.y)
            },
            0x98 => {
                self.a = self.y;
                self.zn(self.a)
            },
            0xba => {
                self.x = self.s;
                self.zn(self.x)
            },
            0x9a => self.s = self.x,
            0xe8 => {
                self.x = self.x.wrapping_add(1);
                self.zn(self.x)
            },
            0xca => {
                self.x = self.x.wrapping_sub(1);
                self.zn(self.x)
            },
            0xc8 => {
                self.y = self.y.wrapping_add(1);
                self.zn(self.y)
            },
            0x88 => {
                self.y = self.y.wrapping_sub(1);
                self.zn(self.y)
            },
            0x0a => {
                self.set(C, a & 0x80 != 0);
                self.a = a.wrapping_mul(2);
                self.zn(self.a)
            },
            0x2a => {
                let c = self.flag(C);
                self.set(C, a & 0x80 != 0);
                self.a = a.wrapping_mul(2).wrapping_add(if c {
                    1
                } else {
                    0
                });
                self.zn(self.a)
            },
            0x4a => {
                self.set(C, a & 1 != 0);
                self.a = a / 2;
                self.zn(self.a)
            },
            0x6a => {
                let c = self.flag(C);
                self.set(C, a & 1 != 0);
                self.a = a / 2 + if c {
                    128
                } else {
                    0
                };
                self.zn(self.a)
            },
            _ => {},
        }
        2
    }

    #[verifier::spinoff_prover]
    fn read_indexed(&mut self, b: &mut Bus, op: u8) -> (r: (u8, u16))
        requires
            old(b)@.wf(),
        ensures
            ({
                let (c, bus, v, cy) = old(self).read_indexed_spec(old(b)@, op);
                &&& *final(self) == c
                &&& final(b)@ == bus
                &&& r == (v, cy)
            }),
            final(b)@.wf(),
            old(b)@.ppu.same_beam(final(b)@.ppu),
            2 <= r.1 <= 5,
    {
        if op == 0xa0 || op == 0xa2 || op == 0xc0 || op == 0xe0 {
            return (self.fetch(b), 2);
        }
        let (mode, base): (u8, u16) = match op {
            0xb4 => (1, 4),
            0xb6 => (2, 4),
            0xac | 0xae | 0xcc | 0xec => (3, 4),
            0xbc => (4, 4),
            0xbe => (5, 4),
            _ => (0, 3),
        };
        let (a, page) = self.addr(b, mode);
        (b.read(a), base + if page {
            1
        } else {
            0
        })
    }

    #[verifier::spinoff_prover]
    fn store_addr(&mut self, b: &mut Bus, op: u8) -> (r: (u16, u16))
        requires
            old(b)@.wf(),
        ensures
            ({
                let (c, bus, a, cy) = old(self).store_addr_spec(old(b)@, op);
                &&& *final(self) == c
                &&& final(b)@ == bus
                &&& r == (a, cy)
            }),
            final(b)@.wf(),
            old(b)@.ppu.same_beam(final(b)@.ppu),
            3 <= r.1 <= 4,
    {
        let (mode, c): (u8, u16) = match op {
            0x84 | 0x86 => (0, 3),
            0x94 => (1, 4),
            0x96 => (2, 4),
            _ => (3, 4),
        };
        let (a, _) = self.addr(b, mode);
        (a, c)
    }

    /// The X and Y loads, stores and compares, and BIT.
    #[verifier::spinoff_prover]
    fn xy(&mut self, b: &mut Bus, op: u8) -> (cy: u16)
        requires
            old(b)@.wf(),
        ensures
            (*final(self), final(b)@, cy) == old(self).xy_spec(old(b)@, op),
            final(b)@.wf(),
            old(b)@.ppu.same_beam(final(b)@.ppu),
            2 <= cy <= 7,
    {
        match op {
            0xa0 | 0xa4 | 0xb4 | 0xac | 0xbc => {
                let (v, c) = self.read_indexed(b, op);
                self.y = v;
                self.zn(v);
                c
            },
            0xa2 | 0xa6 | 0xb6 | 0xae | 0xbe => {
                let (v, c) = self.read_indexed(b, op);
                self.x = v;
                self.zn(v);
                c
            },
            0x84 | 0x94 | 0x8c => {
                let y = self.y;
                let (a, c) = self.store_addr(b, op);
                b.write(a, y);
                c
            },
            0x86 | 0x96 | 0x8e => {
                let x = self.x;
                let (a, c) = self.store_addr(b, op);
                b.write(a, x);
                c
            },
            0x24 | 0x2c => {
                let (a, _) = if op == 0x24 {
                    self.addr(b, 0)
                } else {
                    self.addr(b, 3)
                };
                let v = b.read(a);
                self.set(Z, self.a & v == 0);
                self.set(V, v & 0x40 != 0);
                self.set(N, v & 0x80 != 0);
                if op == 0x24 {
                    3
                } else {
                    4
                }
            },
            0xc0 | 0xc4 | 0xcc => {
                let y = self.y;
                let (v, c) = self.read_indexed(b, op);
                self.compare(y, v);
                c
            },
            _ => {
                let x = self.x;
                let (v, c) = self.read_indexed(b, op);
                self.compare(x, v);
                c
            },
        }
    }

    /// The shift, rotate, increment or decrement of a read-modify-write instruction.
    #[verifier::spinoff_prover]
    fn modify(&mut self, op: u8, v: u8) -> (w: u8)
        ensures
            (*final(self), w) == old(self).modify_spec(op, v),
    {
        let c = self.flag(C);
        match op & 0xe0 {
            0x00 => {
                self.set(C, v & 0x80 != 0);
                v.wrapping_mul(2)
            },
            0x20 => {
                self.set(C, v & 0x80 != 0);
                v.wrapping_mul(2).wrapping_add(if c {
                    1
                } else {
                    0
                })
            },
            0x40 => {
                self.set(C, v & 1 != 0);
                v / 2
            },
            0x60 => {
                self.set(C, v & 1 != 0);
                v / 2 + if c {
                    128
                } else {
                    0
                }
            },
            0xc0 => v.wrapping_sub(1),
            0xe0 => v.wrapping_add(1),
            _ => v,
        }
    }

    /// The accumulator and memory instructions.
    #[verifier::spinoff_prover]
    #[verifier::rlimit(60)]
    fn memory_op(&mut self, b: &mut Bus, op: u8) -> (cy: u16)
        requires
            old(b)@.wf(),
        ensures
            (*final(self), final(b)@, cy) == old(self).memory_op_spec(old(b)@, op),
            final(b)@.wf(),
            old(b)@.ppu.same_beam(final(b)@.ppu),
            2 <= cy <= 7,
    {
        let lo = op & 0x1f;
        let mode: u8 = match lo {
            0x05 | 0x06 => 0,
            0x15 | 0x16 => 1,
            0x0d | 0x0e => 3,
            0x1d | 0x1e => 4,
            0x19 => 5,
            0x01 => 6,
            0x11 => 7,
            0x09 => 8,
            _ => 255,
        };
        if mode == 255 {
            return 2;
        }
        let (addr, page) = if mode == 8 {
            (0, false)
        } else {
            self.addr(b, mode)
        };
        let v = if mode == 8 {
            self.fetch(b)
        } else {
            b.read(addr)
        };
        if lo == 0x06 || lo == 0x16 || lo == 0x0e || lo == 0x1e {
            let w = self.modify(op, v);
            b.write(addr, w);
            self.zn(w);
            return if mode == 3 {
                6
            } else if mode == 4 {
                7
            } else {
                5
            };
        }
        let p: u16 = if page {
            1
        } else {
            0
        };
        let cycles: u16 = match mode {
            8 => 2,
            0 => 3,
            1 | 3 => 4,
            4 | 5 => 4 + p,
            6 => 6,
            _ => 5 + p,
        };
        match op & 0xe0 {
            0x00 => {
                self.a |= v;
                self.zn(self.a)
            },
            0x20 => {
                self.a &= v;
                self.zn(self.a)
            },
            0x40 => {
                self.a ^= v;
                self.zn(self.a)
            },
            0x60 => self.adc(v),
            0x80 => {
                if mode != 8 {
                    b.write(addr, self.a);
                    return match mode {
                        0..=2 => 3,
                        3 => 4,
                        4 | 5 => 5,
                        _ => 6,
                    };
                }
            },
            0xa0 => {
                self.a = v;
                self.zn(v)
            },
            0xc0 => {
                let a = self.a;
                self.compare(a, v)
            },
            _ => self.adc(!v),
        }
        cycles
    }
}

} // verus!
