use onwemu::frontend::{
    ButtonName, GAME_BOY_PALETTE, Machine, MachineError, System, VideoFrame, VideoSpec,
};
use onwemu::nes::RomError;
use onwemu::verdict::{Verdict, verdict};
use onwemu::Button;

#[test]
fn parses_system_names() {
    assert_eq!(System::parse("nes"), Some(System::Nes));
    assert_eq!(System::parse("gb"), Some(System::GameBoy));
    assert_eq!(System::parse("snes"), None);
    assert_eq!(System::parse(""), None);
}

#[test]
fn parses_button_names() {
    assert_eq!(ButtonName::parse("select"), Some(ButtonName::Select));
    assert_eq!(ButtonName::parse("right"), Some(ButtonName::Right));
    assert_eq!(ButtonName::parse("Right"), None);
    assert_eq!(ButtonName::Right.nes_index(), 0);
    assert_eq!(ButtonName::Start.nes_index(), 7);
    assert!(matches!(ButtonName::B.game_boy(), Button::B));
}

#[test]
fn screens_have_system_sizes() {
    let nes = System::Nes.video_spec();
    assert_eq!((nes.width, nes.height, nes.pixel_mask, nes.palette.len()), (256, 240, 0x3f, 64));
    assert_eq!(nes.palette[0x21], [76, 154, 236]);
    let gb = System::GameBoy.video_spec();
    assert_eq!((gb.width, gb.height, gb.pixel_mask), (160, 144, 3));
    assert_eq!(gb.pixel_count(), 23040);
}

#[test]
fn colours_pixels_into_rgba() {
    let spec = VideoSpec { width: 2, height: 1, palette: &GAME_BOY_PALETTE, pixel_mask: 3 };
    let mut f = VideoFrame::new(spec);
    assert_eq!(f.rgba(), vec![0; 8]);
    f.update(&[1, 7]);
    assert_eq!(f.rgba(), vec![136, 192, 112, 255, 8, 24, 32, 255]);
    assert_eq!((f.width(), f.height()), (2, 1));
}

#[test]
fn machine_reports_rejected_roms() {
    assert!(matches!(Machine::new(System::Nes, b"bad"), Err(MachineError::Nes(RomError::NotINes))));
    assert!(matches!(Machine::new(System::GameBoy, b"bad"), Err(MachineError::GameBoy(_))));
}

#[test]
fn machine_runs_a_frame() {
    let mut rom = vec![0; 16 + 0x4000];
    rom[..6].copy_from_slice(&[b'N', b'E', b'S', 0x1a, 1, 0]);
    rom[16] = 0x4c;
    rom[17] = 0;
    rom[18] = 0x80;
    rom[16 + 0x3ffc] = 0;
    rom[16 + 0x3ffd] = 0x80;
    let mut m = Machine::new(System::Nes, &rom).unwrap();
    m.set_button("start", true);
    m.set_button("turbo", true);
    m.run_frame();
    assert_eq!(m.framebuffer().len(), 256 * 240);
}

#[test]
fn finds_verdicts_in_serial_output() {
    assert_eq!(verdict(b"cpu_instrs\n\nPassed all tests\n"), Some(Verdict::Passed));
    assert_eq!(verdict(b"01:ok 02:Failed #3"), Some(Verdict::Failed));
    assert_eq!(verdict(b"Failed ... Passed"), Some(Verdict::Passed));
    assert_eq!(verdict(b"Pass"), None);
    assert_eq!(verdict(b""), None);
}
