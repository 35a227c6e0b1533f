use x1_mk1_usb2midi::utils::{hex2bin, hex2bool, knob_to_midi, normalize_serial};

#[test]
fn hex2bool_lsb_first() {
    let mut bin = [false; 8];
    hex2bool(0b1010_0110, &mut bin);
    assert_eq!(bin, [false, true, true, false, false, true, false, true]);
}

#[test]
fn hex2bool_overwrites_previous_contents() {
    let mut bin = [true; 8];
    hex2bool(0, &mut bin);
    assert_eq!(bin, [false; 8]);
}

#[test]
fn hex2bin_lsb_first() {
    let mut bin = [7u8; 8];
    hex2bin(0x81, &mut bin);
    assert_eq!(bin, [1, 0, 0, 0, 0, 0, 0, 1]);
}

#[test]
fn hex2bin_rebuilds_byte() {
    for hex in 0..=255u8 {
        let mut bin = [0u8; 8];
        hex2bin(hex, &mut bin);
        let low = bin[0] + bin[1] * 2 + bin[2] * 4 + bin[3] * 8;
        let high = bin[4] + bin[5] * 2 + bin[6] * 4 + bin[7] * 8;
        assert_eq!(low, hex % 16);
        assert_eq!(high, hex / 16);
    }
}

#[test]
fn knob_to_midi_ends_of_range() {
    assert_eq!(knob_to_midi(0, 0), 0);
    assert_eq!(knob_to_midi(0x0F, 0xFF), 127);
    assert_eq!(knob_to_midi(0xFF, 0xFF), 255);
}

#[test]
fn knob_to_midi_rounds_to_nearest() {
    // 2048 * 127 / 4095 = 63.52 -> 64
    assert_eq!(knob_to_midi(0x08, 0x00), 64);
    // 16 * 127 / 4095 = 0.496 -> 0; 17 * 127 / 4095 = 0.527 -> 1
    assert_eq!(knob_to_midi(0, 16), 0);
    assert_eq!(knob_to_midi(0, 17), 1);
}

#[test]
fn knob_to_midi_matches_float_scaling_everywhere() {
    for i in 0..=255u8 {
        for j in 0..=255u8 {
            let combined_value = ((i as u16) << 8) | j as u16;
            let expected = (combined_value as f32 / 0xFFF as f32 * 127.0).round() as u8;
            assert_eq!(knob_to_midi(i, j), expected, "i = {}, j = {}", i, j);
        }
    }
}

#[test]
fn knob_to_midi_is_monotone() {
    let mut last = 0u8;
    for v in 0..=0xFFFFu32 {
        let r = knob_to_midi((v >> 8) as u8, (v & 0xFF) as u8);
        assert!(r >= last);
        last = r;
    }
}

#[test]
fn normalize_serial_trims_and_uppercases() {
    assert_eq!(normalize_serial("  ab12cd\n"), "AB12CD");
    assert_eq!(normalize_serial("X1"), "X1");
    assert_eq!(normalize_serial("   "), "");
}
