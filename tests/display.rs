use chip8::{draw, Processor};

fn machine_with(program: &[u8]) -> Processor {
    let mut p = Processor::new();
    p.load(program);
    p
}

#[test]
fn clear_marks_dirty_even_when_blank() {
    let mut p = machine_with(&[0x00, 0xE0]);
    let state = p.tick().unwrap();
    assert!(state.vram_updated);
    assert!(state.vram.iter().all(|c| !c));
}

#[test]
fn clear_loop_keeps_display_blank() {
    let mut p = machine_with(&[0x00, 0xE0, 0x12, 0x00]);
    for k in 0..200 {
        let state = p.tick().unwrap();
        assert!(state.vram.iter().all(|c| !c));
        // Only the clear instruction itself marks the display changed; the jump does not.
        assert_eq!(state.vram_updated, k % 2 == 0);
    }
}

#[test]
fn drawing_twice_restores_display() {
    // glyph 0 at (2, 3), twice
    let mut p = machine_with(&[0x60, 2, 0x61, 3, 0xA0, 0x00, 0xD0, 0x15, 0xD0, 0x15]);
    for _ in 0..4 {
        assert!(p.tick().is_ok());
    }
    assert_eq!(p.register(0xF), 0);
    assert!(p.vram_updated());
    assert!(p.pixel(2, 3));
    assert!(p.pixel(5, 3));
    assert!(!p.pixel(6, 3));
    assert!(p.pixel(2, 4));
    assert!(!p.pixel(3, 4));
    let lit = p.vram().iter().filter(|c| **c).count();
    assert_eq!(lit, 14);
    let state = p.tick().unwrap();
    assert!(state.vram_updated);
    assert!(state.vram.iter().all(|c| !c));
    assert_eq!(p.register(0xF), 1);
}

#[test]
fn sprite_wraps_at_right_and_bottom_edges() {
    // sprite row 0x40 has only bit 1 set: at x = 63 it lands on column 0
    let mut p = machine_with(&[0x60, 63, 0x61, 31, 0xA2, 0x0A, 0xD0, 0x12, 0x00, 0x00, 0x40, 0xFF]);
    for _ in 0..4 {
        assert!(p.tick().is_ok());
    }
    assert!(p.pixel(0, 31));
    assert!(!p.pixel(63, 31));
    // second row wraps to row 0: columns 63 and 0..=6
    assert!(p.pixel(63, 0));
    for x in 0..7 {
        assert!(p.pixel(x, 0));
    }
    assert!(!p.pixel(7, 0));
    assert_eq!(p.vram().iter().filter(|c| **c).count(), 9);
}

#[test]
fn coordinates_past_the_edge_wrap() {
    let mut a = machine_with(&[0x60, 70, 0x61, 40, 0xA0, 0x00, 0xD0, 0x15]);
    let mut b = machine_with(&[0x60, 6, 0x61, 8, 0xA0, 0x00, 0xD0, 0x15]);
    for _ in 0..4 {
        assert!(a.tick().is_ok());
        assert!(b.tick().is_ok());
    }
    assert_eq!(a.vram()[..], b.vram()[..]);
    assert!(a.pixel(6, 8));
}

#[test]
fn empty_sprite_changes_nothing() {
    let mut p = machine_with(&[0xA2, 0x04, 0xD0, 0x01, 0x00, 0x00]);
    assert!(p.tick().is_ok());
    let state = p.tick().unwrap();
    assert!(!state.vram_updated);
    assert_eq!(p.register(0xF), 0);
}

#[test]
fn sprite_past_memory_faults() {
    let mut p = machine_with(&[0xAF, 0xFF, 0xD0, 0x02]);
    assert!(p.tick().is_ok());
    assert!(matches!(p.tick(), Err(chip8::Fault::AddressOutOfRange)));
}

#[test]
fn frame_paints_white_and_black() {
    let mut vram = [false; 2048];
    vram[0] = true;
    vram[2047] = true;
    let mut frame = vec![7u8; 2048 * 4 + 2];
    draw(&mut frame, &vram);
    assert_eq!(&frame[0..4], &[0xFF, 0xFF, 0xFF, 0xFF]);
    assert_eq!(&frame[4..8], &[0x00, 0x00, 0x00, 0xFF]);
    assert_eq!(&frame[8188..8192], &[0xFF, 0xFF, 0xFF, 0xFF]);
    assert_eq!(&frame[8192..], &[7, 7]);
}
