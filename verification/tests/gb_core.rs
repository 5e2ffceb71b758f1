use onwemu::bus::Bus;
use onwemu::cartridge::{Cartridge, CartridgeError};
use onwemu::cpu::Cpu;
use onwemu::emulator::run_until_verdict;
use onwemu::joypad::Joypad;
use onwemu::ppu::Ppu;
use onwemu::timer::Timer;
use onwemu::verdict::Verdict;
use onwemu::{Button, Emulator};

fn image(kind: u8, rom_code: u8, ram_code: u8, len: usize) -> Vec<u8> {
    let mut data = vec![0; len];
    data[0x147] = kind;
    data[0x148] = rom_code;
    data[0x149] = ram_code;
    data
}

fn program(code: &[u8]) -> Emulator {
    let mut data = image(0, 0, 0, 0x8000);
    data[0x100..0x100 + code.len()].copy_from_slice(code);
    Emulator::new(Cartridge::from_bytes(data).unwrap())
}

#[test]
fn rejects_short_image() {
    assert!(matches!(Cartridge::from_bytes(vec![0; 0x14f]), Err(CartridgeError::TooSmall)));
}

#[test]
fn rejects_unknown_controller() {
    let r = Cartridge::from_bytes(image(0x20, 0, 0, 0x8000));
    assert!(matches!(r, Err(CartridgeError::UnsupportedType(0x20))));
}

#[test]
fn reads_title_up_to_nul() {
    let mut data = image(0, 0, 0, 0x8000);
    data[0x134..0x138].copy_from_slice(b"TEST");
    let c = Cartridge::from_bytes(data).unwrap();
    assert_eq!(c.title(), "TEST");
}

#[test]
fn pads_rom_to_declared_size() {
    let c = Cartridge::from_bytes(image(0x01, 1, 0, 0x8000)).unwrap();
    let mut c = c;
    c.write(0x2000, 3);
    assert_eq!(c.read(0x4000), 0xff);
}

#[test]
fn fresh_cartridge_has_ram_disabled() {
    let c = Cartridge::from_bytes(image(0x03, 0, 2, 0x8000)).unwrap();
    assert_eq!(c.ram().len(), 0x2000);
    assert_eq!(c.read(0xa000), 0xff);
}

#[test]
fn external_ram_reads_back() {
    let mut c = Cartridge::from_bytes(image(0x03, 0, 2, 0x8000)).unwrap();
    c.write(0x0000, 0x0a);
    c.write(0xa123, 0x5c);
    assert_eq!(c.read(0xa123), 0x5c);
    assert_eq!(c.ram()[0x123], 0x5c);
}

#[test]
fn mbc2_ram_keeps_low_nibble() {
    let mut c = Cartridge::from_bytes(image(0x06, 0, 0, 0x8000)).unwrap();
    c.write(0x0000, 0x0a);
    c.write(0xa005, 0x03);
    assert_eq!(c.read(0xa005), 0xf3);
}

#[test]
fn bank_switch_maps_selected_bank() {
    let mut data = image(0x01, 2, 0, 0x20000);
    data[2 * 0x4000 + 7] = 0x77;
    data[0x4000 + 7] = 0x11;
    let mut c = Cartridge::from_bytes(data).unwrap();
    c.write(0x2000, 2);
    assert_eq!(c.read(0x4007), 0x77);
    c.write(0x2000, 0);
    assert_eq!(c.read(0x4007), 0x11);
}

#[test]
fn load_ram_copies_what_fits() {
    let mut c = Cartridge::from_bytes(image(0x03, 0, 1, 0x8000)).unwrap();
    c.load_ram(&[1, 2, 3]);
    assert_eq!(&c.ram()[..4], &[1, 2, 3, 0xff]);
}

#[test]
fn oversized_header_is_not_loadable() {
    assert!(Cartridge::is_loadable(&image(0, 0, 0, 0x8000)));
    if usize::BITS == 64 {
        assert!(!Cartridge::is_loadable(&image(0, 48, 0, 0x8000)));
    }
}

#[test]
fn work_ram_and_echo() {
    let mut b = Bus::new(Cartridge::from_bytes(image(0, 0, 0, 0x8000)).unwrap());
    b.write8(0xc010, 0xab);
    assert_eq!(b.read8(0xc010), 0xab);
    assert_eq!(b.read8(0xe010), 0xab);
    b.write16(0xd000, 0x1234);
    assert_eq!(b.read16(0xd000), 0x1234);
    assert_eq!(b.read8(0xd000), 0x34);
}

#[test]
fn serial_transfer_appends_byte() {
    let mut b = Bus::new(Cartridge::from_bytes(image(0, 0, 0, 0x8000)).unwrap());
    b.write8(0xff01, b'P');
    b.write8(0xff02, 0x81);
    assert_eq!(b.serial_output(), b"P");
    assert_eq!(b.interrupt_flags & 8, 8);
}

#[test]
fn held_button_reads_low() {
    let mut j = Joypad::default();
    j.write(0x20);
    assert!(j.set(Button::Right.bit(), true));
    assert_eq!(j.read() & 0x0f, 0x0e);
    assert!(!j.set(Button::Right.bit(), true));
    j.set(Button::Right.bit(), false);
    assert_eq!(j.read() & 0x0f, 0x0f);
}

#[test]
fn timer_counts_falling_edges() {
    let mut t = Timer::default();
    t.write_tac(5);
    for _ in 0..16 {
        t.tick();
    }
    assert_eq!(t.tima, 1);
    assert_eq!(t.read_div(), 0);
}

#[test]
fn timer_overflow_reloads_after_four_ticks() {
    let mut t = Timer::default();
    t.div = 0x0f;
    t.tac = 5;
    t.tima = 0xff;
    t.tma = 0x42;
    assert!(!t.tick());
    assert_eq!(t.tima, 0);
    assert!(!t.tick());
    assert!(!t.tick());
    assert!(t.tick());
    assert_eq!(t.tima, 0x42);
}

#[test]
fn div_write_clears_divider() {
    let mut t = Timer::default();
    t.div = 0xabcd;
    assert_eq!(t.read_div(), 0xab);
    t.write_div();
    assert_eq!(t.read_div(), 0);
}

#[test]
fn stat_reports_mode_and_coincidence() {
    let mut p = Ppu::default();
    p.lcdc = 0x80;
    p.ly = 5;
    p.lyc = 5;
    p.dots = 100;
    assert_eq!(p.mode(), 3);
    assert_eq!(p.read_stat(), 0x80 | 4 | 3);
    p.ly = 150;
    assert_eq!(p.mode(), 1);
    p.write_lcdc(0);
    assert_eq!(p.ly, 0);
    assert_eq!(p.mode(), 0);
}

#[test]
fn register_pairs_round_trip() {
    let mut c = Cpu::default();
    c.set_af(0x12ff);
    assert_eq!(c.af(), 0x12f0);
    c.b = 0x34;
    c.c = 0x56;
    assert_eq!(c.bc(), 0x3456);
}

#[test]
fn daa_after_bcd_add() {
    // LD A,0x45; ADD A,0x38; DAA
    let mut e = program(&[0x3e, 0x45, 0xc6, 0x38, 0x27]);
    e.step();
    e.step();
    e.step();
    assert_eq!(e.cpu.a, 0x83);
    assert_eq!(e.cpu.f & 0x10, 0);
}

#[test]
fn daa_carries_past_ninety_nine() {
    // LD A,0x75; ADD A,0x50; DAA
    let mut e = program(&[0x3e, 0x75, 0xc6, 0x50, 0x27]);
    e.step();
    e.step();
    e.step();
    assert_eq!(e.cpu.a, 0x25);
    assert_eq!(e.cpu.f & 0x10, 0x10);
}

#[test]
fn xor_a_clears_accumulator() {
    let mut e = program(&[0x3e, 0x99, 0xaf]);
    e.step();
    e.step();
    assert_eq!(e.cpu.a, 0);
    assert_eq!(e.cpu.f, 0x80);
}

#[test]
fn subtract_sets_flags() {
    // LD A,0x10; SUB 0x01
    let mut e = program(&[0x3e, 0x10, 0xd6, 0x01]);
    e.step();
    e.step();
    assert_eq!(e.cpu.a, 0x0f);
    assert_eq!(e.cpu.f, 0x40 | 0x20);
}

#[test]
fn push_then_pop_restores_pair() {
    // LD BC,0xbeef; PUSH BC; POP DE
    let mut e = program(&[0x01, 0xef, 0xbe, 0xc5, 0xd1]);
    let sp = e.cpu.sp;
    e.step();
    e.step();
    e.step();
    assert_eq!(e.cpu.de(), 0xbeef);
    assert_eq!(e.cpu.sp, sp);
}

#[test]
fn add_hl_sets_half_carry() {
    // LD HL,0x0fff; LD BC,0x0001; ADD HL,BC
    let mut e = program(&[0x21, 0xff, 0x0f, 0x01, 0x01, 0x00, 0x09]);
    e.step();
    e.step();
    e.step();
    assert_eq!(e.cpu.hl(), 0x1000);
    assert_eq!(e.cpu.f & 0x70, 0x20);
}

#[test]
fn set_button_requests_interrupt() {
    // LD A,0x20; LDH (0x00),A: select the direction keys
    let mut e = program(&[0x3e, 0x20, 0xe0, 0x00]);
    e.step();
    e.step();
    let before = e.bus.interrupt_flags;
    e.set_button(Button::Down, true);
    assert_eq!(e.bus.interrupt_flags, before | 0x10);
    assert_eq!(e.bus.read8(0xff00) & 0x0f, 0x07);
}

#[test]
fn frame_counts_cycles() {
    let mut e = program(&[0x18, 0xfe]);
    e.run_frame();
    assert!(e.cycles() > 0);
    assert!(e.cycles() <= 2 * 70_224);
    assert_eq!(e.framebuffer().len(), 160 * 144);
}

#[test]
fn test_rom_reports_passed() {
    let mut code = Vec::new();
    for &ch in b"Passed" {
        // LD A,ch; LDH (0x01),A; LD A,0x81; LDH (0x02),A
        code.extend_from_slice(&[0x3e, ch, 0xe0, 0x01, 0x3e, 0x81, 0xe0, 0x02]);
    }
    code.extend_from_slice(&[0x18, 0xfe]);
    let mut e = program(&code);
    assert_eq!(run_until_verdict(&mut e, 10), Some(Verdict::Passed));
    assert_eq!(e.bus.serial_output(), b"Passed");
}

#[test]
fn silent_rom_gives_no_verdict() {
    let mut e = program(&[0x18, 0xfe]);
    assert_eq!(run_until_verdict(&mut e, 3), None);
}

#[test]
fn vblank_comes_every_frame_of_dots() {
    let mut p = Ppu::default();
    let mut vblanks = Vec::new();
    for dot in 1..=2 * 70_224u32 {
        if p.tick() & 1 != 0 {
            vblanks.push(dot);
        }
    }
    assert_eq!(vblanks, vec![144 * 456, 144 * 456 + 70_224]);
    assert!(p.take_frame_ready());
    assert!(!p.take_frame_ready());
    p.write_lcdc(0);
    let before = (p.ly, p.dots);
    assert_eq!(p.tick(), 0);
    assert_eq!((p.ly, p.dots), before);
}

#[test]
fn power_on_joypad_reads_all_released() {
    let b = Bus::new(Cartridge::from_bytes(image(0, 0, 0, 0x8000)).unwrap());
    assert_eq!(b.read8(0xff00), 0xcf);
    assert_eq!(b.interrupt_flags, 0xe1);
}

#[test]
fn press_and_release_update_p1_and_interrupts() {
    let mut e = Emulator::new(Cartridge::from_bytes(vec![0u8; 0x8000]).unwrap());
    e.set_button(Button::A, true);
    assert_eq!(e.bus.interrupt_flags, 0xf1);
    assert_eq!(e.bus.read8(0xff00), 0xce);
    e.set_button(Button::A, false);
    assert_eq!(e.bus.interrupt_flags, 0xf1);
    assert_eq!(e.bus.read8(0xff00), 0xcf);
}

#[test]
fn p1_reports_selected_group() {
    let mut j = Joypad::default();
    j.set(4, true);
    j.set(0, true);
    assert_eq!(j.read(), 0xce);
    j.write(0x10);
    assert_eq!(j.read(), 0xde);
    j.write(0x20);
    assert_eq!(j.read(), 0xee);
    j.write(0xff);
    assert_eq!(j.read(), 0xff);
}

#[test]
fn release_and_repeat_press_raise_nothing() {
    let mut j = Joypad::default();
    assert!(j.set(2, true));
    assert!(!j.set(2, true));
    assert!(!j.set(2, false));
    j.write(0x10);
    assert!(!j.set(1, true));
}

#[test]
fn daa_after_bcd_subtract() {
    // LD A,0x10; SUB 0x01; DAA
    let mut e = program(&[0x3e, 0x10, 0xd6, 0x01, 0x27]);
    e.step();
    e.step();
    e.step();
    assert_eq!(e.cpu.a, 0x09);
    assert_eq!(e.cpu.f & 0x10, 0);
    // LD A,0x05; SUB 0x10; DAA
    let mut e = program(&[0x3e, 0x05, 0xd6, 0x10, 0x27]);
    e.step();
    e.step();
    e.step();
    assert_eq!(e.cpu.a, 0x95);
    assert_eq!(e.cpu.f & 0x10, 0x10);
}

#[test]
fn ei_takes_effect_after_next_instruction() {
    // LD A,0x04; LDH (0xff),A (IE = timer); LD A,0x04; LDH (0x0f),A (IF = timer); EI; NOP; NOP
    let mut e = program(&[0x3e, 0x04, 0xe0, 0xff, 0x3e, 0x04, 0xe0, 0x0f, 0xfb, 0x00, 0x00]);
    for _ in 0..4 {
        e.step();
    }
    e.step();
    assert!(!e.cpu.ime);
    assert_eq!(e.cpu.pc, 0x109);
    e.step();
    assert!(e.cpu.ime);
    assert_eq!(e.cpu.pc, 0x10a);
    assert_eq!(e.step(), 20);
    assert_eq!(e.cpu.pc, 0x50);
}

#[test]
fn pop_af_keeps_low_flag_nibble_clear() {
    // LD BC,0x12ff; PUSH BC; POP AF
    let mut e = program(&[0x01, 0xff, 0x12, 0xc5, 0xf1]);
    for _ in 0..3 {
        let n = e.step();
        assert!([4, 8, 12, 16, 20, 24].contains(&n));
        assert_eq!(e.cpu.f & 0x0f, 0);
    }
    assert_eq!(e.cpu.af(), 0x12f0);
}

#[test]
fn serial_log_only_grows() {
    let mut b = Bus::new(Cartridge::from_bytes(image(0, 0, 0, 0x8000)).unwrap());
    b.write8(0xff01, b'A');
    b.write8(0xff02, 0x80);
    assert_eq!(b.serial_output(), b"");
    b.write8(0xff02, 0x81);
    b.tick(100);
    b.write8(0xff01, b'B');
    b.write8(0xff02, 0x81);
    assert_eq!(b.serial_output(), b"AB");
}

#[test]
fn ticks_only_set_low_interrupt_flags() {
    let mut b = Bus::new(Cartridge::from_bytes(image(0, 0, 0, 0x8000)).unwrap());
    b.interrupt_flags = 0x08;
    b.timer.tac = 5;
    for _ in 0..400 {
        let before = b.interrupt_flags;
        b.tick(255);
        assert_eq!(b.interrupt_flags & before, before);
        assert_eq!((b.interrupt_flags & !before) & 0xf8, 0);
    }
    assert_eq!(b.interrupt_flags & 0x0d, 0x0d);
}

#[test]
fn timer_period_follows_clock_select() {
    let mut t = Timer::default();
    t.write_tac(4);
    for _ in 0..1023 {
        t.tick();
    }
    assert_eq!(t.tima, 0);
    t.tick();
    assert_eq!(t.tima, 1);
    t.write_tac(7);
    for _ in 0..256 {
        t.tick();
    }
    assert_eq!(t.tima, 2);
}

#[test]
fn call_returns_as_whole_steps() {
    // CALL 0x0110; ...; at 0x110: RET
    let mut code = vec![0u8; 0x11];
    code[0] = 0xcd;
    code[1] = 0x10;
    code[2] = 0x01;
    code[0x10] = 0xc9;
    let mut e = program(&code);
    let sp = e.cpu.sp;
    assert_eq!(e.step(), 24);
    assert_eq!(e.cpu.pc, 0x110);
    assert_eq!(e.step(), 16);
    assert_eq!(e.cpu.pc, 0x103);
    assert_eq!(e.cpu.sp, sp);
}

#[test]
fn frame_holds_only_shades() {
    let mut e = program(&[0x18, 0xfe]);
    e.bus.ppu.bgp = 0xe4;
    e.bus.ppu.vram[0] = 0xff;
    e.run_frame();
    assert!(e.framebuffer().iter().all(|&p| p <= 3));
}

#[test]
fn line_past_frame_end_wraps_to_zero() {
    let mut p = Ppu::default();
    p.ly = 200;
    p.dots = 455;
    p.tick();
    assert_eq!((p.ly, p.dots), (0, 0));
}
