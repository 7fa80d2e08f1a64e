use fault_simulation::encoding::{cmd_size, nop_bytes, ret_bytes};

#[test]
fn narrow_encodings_are_two_bytes() {
    // nop, bx lr, movs, ldr, b
    assert_eq!(cmd_size(0x00, 0xBF), 2);
    assert_eq!(cmd_size(0x70, 0x47), 2);
    assert_eq!(cmd_size(0x01, 0x20), 2);
    assert_eq!(cmd_size(0x00, 0x68), 2);
    assert_eq!(cmd_size(0xFE, 0xE7), 2);
}

#[test]
fn wide_encodings_are_four_bytes() {
    // stmdb, mov.w, bl, ldr.w
    assert_eq!(cmd_size(0x2D, 0xE9), 4);
    assert_eq!(cmd_size(0x4F, 0xEA), 4);
    assert_eq!(cmd_size(0x00, 0xF0), 4);
    assert_eq!(cmd_size(0xD0, 0xF8), 4);
}

#[test]
fn classification_boundaries() {
    assert_eq!(cmd_size(0xFF, 0xE7), 2);
    assert_eq!(cmd_size(0x00, 0xE8), 4);
    assert_eq!(cmd_size(0x00, 0xEF), 4);
    assert_eq!(cmd_size(0x00, 0xF0), 4);
    assert_eq!(cmd_size(0xFF, 0xFF), 4);
    assert_eq!(cmd_size(0xFF, 0x00), 2);
}

#[test]
fn every_high_byte_is_classified_by_its_top_bits() {
    for high in 0u16..=255 {
        let high = high as u8;
        let wide = (high & 0xF8 == 0xE8) || (high & 0xF0 == 0xF0);
        for low in [0x00u8, 0x5A, 0xFF] {
            assert_eq!(cmd_size(low, high), if wide { 4 } else { 2 });
        }
    }
}

#[test]
fn nop_bytes_repeat_the_nop_halfword() {
    assert_eq!(nop_bytes(0), Vec::<u8>::new());
    assert_eq!(nop_bytes(2), vec![0x00, 0xBF]);
    assert_eq!(nop_bytes(4), vec![0x00, 0xBF, 0x00, 0xBF]);
    assert_eq!(nop_bytes(6), vec![0x00, 0xBF, 0x00, 0xBF, 0x00, 0xBF]);
}

#[test]
fn ret_bytes_are_bx_lr() {
    assert_eq!(ret_bytes(), vec![0x70, 0x47]);
}
