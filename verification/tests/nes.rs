use onwemu::nes::Emulator;

fn rom() -> Vec<u8> {
    let mut r = vec![0; 16 + 0x4000];
    r[..6].copy_from_slice(&[b'N', b'E', b'S', 0x1a, 1, 0]);
    r[16] = 0x4c;
    r[17] = 0;
    r[18] = 0x80;
    r[16 + 0x3ffc] = 0;
    r[16 + 0x3ffd] = 0x80;
    r
}

#[test]
fn rejects_bad_rom() {
    assert!(Emulator::new(b"bad").is_err())
}

#[test]
fn executes_frame() {
    let mut e = Emulator::new(&rom()).unwrap();
    e.run_frame();
    assert_eq!(e.pc(), 0x8000);
    assert_eq!(e.framebuffer().len(), 256 * 240)
}
