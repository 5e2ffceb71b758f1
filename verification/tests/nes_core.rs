use onwemu::nes::bus::Bus;
use onwemu::nes::cartridge::Cartridge;
use onwemu::nes::controller::Controller;
use onwemu::nes::cpu::Cpu;
use onwemu::nes::ppu::Ppu;
use onwemu::nes::{Emulator, RomError};

fn image(flags6: u8, program: &[(u16, u8)]) -> Vec<u8> {
    let mut r = vec![0; 16 + 0x4000];
    r[..7].copy_from_slice(&[b'N', b'E', b'S', 0x1a, 1, 0, flags6]);
    for &(addr, byte) in program {
        r[16 + (addr as usize & 0x3fff)] = byte;
    }
    r
}

fn ppu(flags6: u8) -> Ppu {
    Ppu::new(&Cartridge::new(&image(flags6, &[])).unwrap())
}

fn set_addr(p: &mut Ppu, addr: u16) {
    p.write_reg(0x2006, (addr >> 8) as u8);
    p.write_reg(0x2006, addr as u8);
}

#[test]
fn rejects_missing_magic() {
    assert!(matches!(Emulator::new(b"bad"), Err(RomError::NotINes)));
}

#[test]
fn rejects_other_mappers() {
    let r = Emulator::new(&image(0x10, &[]));
    assert!(matches!(r, Err(RomError::UnsupportedMapper(1))));
}

#[test]
fn rejects_truncated_image() {
    let mut r = image(0, &[]);
    r.truncate(0x1000);
    assert!(matches!(Emulator::new(&r), Err(RomError::Truncated)));
    let mut r = image(0, &[]);
    r[4] = 0;
    assert!(matches!(Emulator::new(&r), Err(RomError::Truncated)));
}

#[test]
fn palette_entries_mirror() {
    let mut p = ppu(0);
    set_addr(&mut p, 0x3f10);
    p.write_reg(0x2007, 0xea);
    set_addr(&mut p, 0x3f00);
    assert_eq!(p.read_reg(0x2007), 0x2a);
}

#[test]
fn vertical_mirroring_pairs_left_and_right() {
    let mut p = ppu(1);
    set_addr(&mut p, 0x2005);
    p.write_reg(0x2007, 0x99);
    set_addr(&mut p, 0x2805);
    p.read_reg(0x2007);
    assert_eq!(p.read_reg(0x2007), 0x99);
}

#[test]
fn horizontal_mirroring_pairs_top_and_bottom() {
    let mut p = ppu(0);
    set_addr(&mut p, 0x2005);
    p.write_reg(0x2007, 0x66);
    set_addr(&mut p, 0x2405);
    p.read_reg(0x2007);
    assert_eq!(p.read_reg(0x2007), 0x66);
}

#[test]
fn ppudata_reads_back_through_buffer() {
    let mut p = ppu(0);
    set_addr(&mut p, 0x2100);
    p.write_reg(0x2007, 0x12);
    set_addr(&mut p, 0x2100);
    p.read_reg(0x2007);
    assert_eq!(p.read_reg(0x2007), 0x12);
}

#[test]
fn controller_reports_buttons_in_order() {
    let mut c = Controller::default();
    c.buttons[0] = true;
    c.buttons[4] = true;
    c.write(1);
    c.write(0);
    let bits: Vec<u8> = (0..8).map(|_| c.read() & 1).collect();
    assert_eq!(bits, vec![1, 0, 0, 0, 1, 0, 0, 0]);
    assert_eq!(c.read(), 0x41);
}

#[test]
fn stack_round_trip() {
    // LDA #$42; PHA; LDA #$00; PLA
    let rom = image(0, &[(0x8000, 0xa9), (0x8001, 0x42), (0x8002, 0x48), (0x8003, 0xa9),
        (0x8004, 0x00), (0x8005, 0x68), (0xbffc, 0x00), (0xbffd, 0x80)]);
    let mut bus = Bus::new(Cartridge::new(&rom).unwrap());
    let mut cpu = Cpu::default();
    cpu.reset(&mut bus);
    assert_eq!(cpu.pc, 0x8000);
    let s = cpu.s;
    for _ in 0..4 {
        cpu.step(&mut bus);
    }
    assert_eq!(cpu.a, 0x42);
    assert_eq!(cpu.s, s);
}

#[test]
fn break_then_return_resumes() {
    // BRK at 0x8000; handler RTI at 0x8010
    let rom = image(0, &[(0x8000, 0x00), (0x8010, 0x40), (0xbffc, 0x00), (0xbffd, 0x80),
        (0xbffe, 0x10), (0xbfff, 0x80)]);
    let mut bus = Bus::new(Cartridge::new(&rom).unwrap());
    let mut cpu = Cpu::default();
    cpu.reset(&mut bus);
    let (s, p) = (cpu.s, cpu.p);
    cpu.step(&mut bus);
    assert_eq!(cpu.pc, 0x8010);
    cpu.step(&mut bus);
    assert_eq!(cpu.pc, 0x8002);
    assert_eq!(cpu.s, s);
    assert_eq!(cpu.p & !0x30, p & !0x30);
}

#[test]
fn ram_mirrors_every_two_kib() {
    let mut bus = Bus::new(Cartridge::new(&image(0, &[])).unwrap());
    bus.write(0x0123, 0x5a);
    assert_eq!(bus.read(0x0923), 0x5a);
    assert_eq!(bus.read(0x1923), 0x5a);
}

#[test]
fn frames_keep_coming() {
    let rom = image(0, &[(0x8000, 0x4c), (0x8001, 0x00), (0x8002, 0x80), (0xbffc, 0x00),
        (0xbffd, 0x80)]);
    let mut e = Emulator::new(&rom).unwrap();
    for _ in 0..3 {
        e.run_frame();
    }
    assert_eq!(e.pc(), 0x8000);
}

#[test]
fn jsr_then_rts_returns() {
    // JSR $8010 at 0x8000; RTS at 0x8010
    let rom = image(0, &[(0x8000, 0x20), (0x8001, 0x10), (0x8002, 0x80), (0x8010, 0x60),
        (0xbffc, 0x00), (0xbffd, 0x80)]);
    let mut bus = Bus::new(Cartridge::new(&rom).unwrap());
    let mut cpu = Cpu::default();
    cpu.reset(&mut bus);
    let s = cpu.s;
    cpu.step(&mut bus);
    assert_eq!(cpu.pc, 0x8010);
    assert_eq!(cpu.s, s.wrapping_sub(2));
    cpu.step(&mut bus);
    assert_eq!(cpu.pc, 0x8003);
    assert_eq!(cpu.s, s);
}

#[test]
fn port_reads_report_pressed_buttons() {
    let mut bus = Bus::new(Cartridge::new(&image(0, &[])).unwrap());
    bus.pad.buttons[3] = true;
    bus.pad.buttons[7] = true;
    bus.write(0x4016, 1);
    bus.write(0x4016, 0);
    let bits: Vec<u8> = (0..10).map(|_| bus.read(0x4016)).collect();
    assert_eq!(bits, vec![0x40, 0x40, 0x40, 0x41, 0x40, 0x40, 0x40, 0x41, 0x41, 0x41]);
}
