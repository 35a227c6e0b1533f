use x1_mk1_usb2midi::conf::{YamlButton, YamlButtonType, YamlConfig};
use x1_mk1_usb2midi::usb::{UsbError, UsbRead};
use x1_mk1_usb2midi::x1_board::ButtonType;
use x1_mk1_usb2midi::x1_process::{encoder_velocity, MidiMessage, ReadStep, X1mk1, LED_BRIGHT, LED_DIM};

fn entry(name: &str, button_type: YamlButtonType, read_i: u8, read_j: Option<u8>, read_pos: Option<char>, write_idx: Option<u8>, ch: u8, ignore: Option<bool>) -> YamlButton {
    YamlButton {
        name: name.to_string(),
        button_type,
        read_i,
        read_j,
        read_pos,
        write_idx,
        midi_ctrl_ch: ch,
        hotcue_ignore: ignore,
    }
}

fn config() -> YamlConfig {
    YamlConfig {
        buttons: vec![
            entry("HOTCUE", YamlButtonType::Toggle, 0, Some(0), None, Some(20), 1, None),
            entry("SHIFT", YamlButtonType::Hold, 0, Some(1), None, Some(21), 2, None),
            entry("PLAY", YamlButtonType::Toggle, 0, Some(2), None, Some(5), 5, Some(true)),
            entry("CUE", YamlButtonType::Hold, 0, Some(3), None, Some(3), 6, None),
            entry("PAD1", YamlButtonType::Hotcue, 1, Some(0), None, None, 40, None),
            entry("FX", YamlButtonType::Knob, 16, Some(17), None, None, 50, None),
            entry("ENC", YamlButtonType::Encoder, 6, None, Some('s'), None, 60, None),
        ],
    }
}

fn cc(status: u8, ch: u8, v: u8) -> MidiMessage {
    MidiMessage { status, data1: ch, data2: v }
}

fn report(b1: u8, b2: u8) -> [u8; 24] {
    let mut buf = [0u8; 24];
    buf[1] = b1;
    buf[2] = b2;
    buf
}

#[test]
fn new_controller_initial_leds() {
    let x = X1mk1::new(&config());
    let mut leds = [LED_DIM; 32];
    leds[0] = 0x0C;
    leds[31] = 0;
    assert_eq!(x.led, leds);
    assert_eq!(x.led_hotcue, [LED_DIM; 16]);
    assert_eq!(x.shift, 0);
    assert!(!x.hotcue);
    assert_eq!(x.board.names.len(), 7);
}

#[test]
fn toggle_sends_on_press_only() {
    let mut x = X1mk1::new(&config());
    assert_eq!(x.read_state(report(0b0100, 0)), vec![cc(0xB0, 5, 127)]);
    assert_eq!(x.read_state(report(0b0100, 0)), vec![]);
    assert_eq!(x.read_state(report(0, 0)), vec![]);
    assert_eq!(x.read_state(report(0b0100, 0)), vec![cc(0xB0, 5, 127)]);
}

#[test]
fn hold_button_press_and_release() {
    let mut x = X1mk1::new(&config());
    x.led[3] = 0x40;
    assert_eq!(x.read_state(report(0b1000, 0)), vec![cc(0xB0, 6, 127)]);
    assert_eq!(x.led[3], 0x40);
    assert_eq!(x.read_state(report(0, 0)), vec![cc(0xB0, 6, 0)]);
    assert_eq!(x.led[3], LED_DIM);
}

#[test]
fn shift_selects_second_layer() {
    let mut x = X1mk1::new(&config());
    assert_eq!(x.read_state(report(0b0010, 0)), vec![cc(0xB0, 2, 127)]);
    assert_eq!(x.shift, 1);
    assert_eq!(x.read_state(report(0b0110, 0)), vec![cc(0xB1, 5, 127)]);
    // Releasing SHIFT goes back to the first layer before its own release is sent.
    assert_eq!(x.read_state(report(0b0100, 0)), vec![cc(0xB0, 2, 0)]);
    assert_eq!(x.shift, 0);
    assert_eq!(x.led[21], LED_DIM);
}

#[test]
fn hotcue_toggle_switches_mode_and_pads() {
    let mut x = X1mk1::new(&config());
    // Pads are silent outside hotcue mode.
    assert_eq!(x.read_state(report(0, 0b1)), vec![]);
    assert_eq!(x.read_state(report(0, 0)), vec![]);
    // HOTCUE comes first in the board, so the pad is already live in this report.
    assert_eq!(x.read_state(report(0b0001, 0b1)), vec![cc(0xB0, 1, 127), cc(0xB3, 40, 127)]);
    assert!(x.hotcue);
    assert_eq!(x.led[20], LED_BRIGHT);
    // PLAY ignores presses in hotcue mode.
    assert_eq!(x.read_state(report(0b0101, 0)), vec![cc(0xB3, 40, 0)]);
    // Second press of HOTCUE leaves hotcue mode.
    assert_eq!(x.read_state(report(0b0000, 0)), vec![]);
    assert_eq!(x.read_state(report(0b0001, 0)), vec![cc(0xB0, 1, 127)]);
    assert!(!x.hotcue);
    assert_eq!(x.led[20], LED_DIM);
}

#[test]
fn knob_sends_on_change() {
    let mut x = X1mk1::new(&config());
    let mut buf = [0u8; 24];
    buf[16] = 0x0F;
    buf[17] = 0xFF;
    assert_eq!(x.read_state(buf), vec![cc(0xB0, 50, 127)]);
    assert_eq!(x.read_state(buf), vec![]);
    buf[16] = 0x08;
    buf[17] = 0x00;
    assert_eq!(x.read_state(buf), vec![cc(0xB0, 50, 64)]);
}

#[test]
fn encoder_direction() {
    let mut x = X1mk1::new(&config());
    let mut buf = [0u8; 24];
    buf[6] = 0xA3;
    assert_eq!(x.read_state(buf), vec![cc(0xB0, 60, 1)]);
    buf[6] = 0x02;
    assert_eq!(x.read_state(buf), vec![cc(0xB0, 60, 127)]);
    buf[6] = 0x00;
    assert_eq!(x.read_state(buf), vec![cc(0xB0, 60, 127)]);
    buf[6] = 0x0F;
    assert_eq!(x.read_state(buf), vec![cc(0xB0, 60, 127)]);
    buf[6] = 0x00;
    assert_eq!(x.read_state(buf), vec![cc(0xB0, 60, 1)]);
}

#[test]
fn encoder_velocity_reverses() {
    for p in 0..16u8 {
        for c in 0..16u8 {
            if p != c {
                let v = encoder_velocity(p, c);
                assert!(v == 1 || v == 127);
                assert_eq!(v == 1, encoder_velocity(c, p) == 127);
            }
        }
    }
    assert_eq!(encoder_velocity(15, 0), 1);
    assert_eq!(encoder_velocity(0, 15), 127);
}

#[test]
fn repeated_report_is_quiet() {
    let mut x = X1mk1::new(&config());
    let mut buf = report(0b1010, 0);
    buf[16] = 0x03;
    buf[6] = 0x05;
    let first = x.read_state(buf);
    assert_eq!(first.len(), 4);
    let leds = x.led;
    assert_eq!(x.read_state(buf), vec![]);
    assert_eq!(x.led, leds);
}

#[test]
fn led_frame_overlays_pads_in_hotcue_mode() {
    let mut x = X1mk1::new(&config());
    x.led_hotcue[0] = LED_BRIGHT;
    x.led_hotcue[15] = LED_BRIGHT;
    assert_eq!(x.led_frame(), x.led);
    x.hotcue = true;
    let frame = x.led_frame();
    assert_eq!(frame[8], x.led[8]);
    assert_eq!(frame[9], LED_BRIGHT);
    assert_eq!(frame[10], LED_DIM);
    assert_eq!(frame[24], LED_BRIGHT);
    assert_eq!(frame[25], x.led[25]);
    assert_eq!(frame[0], 0x0C);
}

#[test]
fn midi_messages_set_leds() {
    let mut x = X1mk1::new(&config());
    assert!(x.on_midi_message(&vec![0xB2, 4, 99]));
    assert_eq!(x.led[4], 99);
    assert_eq!(x.led_frame()[4], 99);
    assert!(x.on_midi_message(&vec![0xB3, 2, 1]));
    assert_eq!(x.led_hotcue[2], LED_BRIGHT);
    assert!(x.on_midi_message(&vec![0xB3, 2, 0]));
    assert_eq!(x.led_hotcue[2], LED_DIM);
    assert!(!x.on_midi_message(&vec![0xB2, 40, 1]));
    assert!(x.on_midi_message(&vec![0x90, 4, 1]));
    assert_eq!(x.led[4], 99);
}

#[test]
fn usb_read_outcomes() {
    let mut x = X1mk1::new(&config());
    assert!(matches!(x.on_usb_read(UsbRead::Data(10), report(0b0100, 0)), ReadStep::Skip));
    assert!(matches!(x.on_usb_read(UsbRead::Failed(UsbError::Timeout), report(0b0100, 0)), ReadStep::Skip));
    assert!(matches!(x.on_usb_read(UsbRead::Failed(UsbError::Pipe), report(0, 0)), ReadStep::Stop(UsbError::Pipe)));
    match x.on_usb_read(UsbRead::Data(24), report(0b0100, 0)) {
        ReadStep::Send(sent) => assert_eq!(sent, vec![cc(0xB0, 5, 127)]),
        _ => panic!("a full report is processed"),
    }
}

#[test]
fn can_read_state_spots_bad_indices() {
    let x = X1mk1::new(&config());
    assert!(x.can_read_state(&report(0xFF, 0xFF)));
    let bad = YamlConfig { buttons: vec![entry("X", YamlButtonType::Toggle, 7, Some(0), None, None, 1, None)] };
    let y = X1mk1::new(&bad);
    assert!(!y.can_read_state(&report(0, 0)));
    let enc = YamlConfig { buttons: vec![entry("E", YamlButtonType::Encoder, 6, None, Some('x'), None, 1, None)] };
    let z = X1mk1::new(&enc);
    assert!(!z.can_read_state(&report(0, 0)));
    match z.board.buttons[0] {
        ButtonType::Encoder(e) => assert_eq!(e.read_pos, 'x'),
        _ => panic!("encoder expected"),
    }
}

#[test]
fn midi_message_bytes() {
    assert_eq!(cc(0xB0, 5, 127).to_bytes(), [0xB0, 5, 127]);
}

#[test]
fn reports_keep_configuration_and_send_control_changes_only() {
    let mut x = X1mk1::new(&config());
    let before: Vec<ButtonType> = x.board.buttons.clone();
    let mut seed: u32 = 12345;
    for _ in 0..200 {
        let mut buf = [0u8; 24];
        for b in buf.iter_mut() {
            seed = seed.wrapping_mul(1103515245).wrapping_add(12345);
            *b = (seed >> 16) as u8;
        }
        for m in x.read_state(buf) {
            assert!(matches!(m.status, 0xB0 | 0xB1 | 0xB3 | 0xB4));
        }
        assert!(x.shift <= 1);
        assert_eq!(x.board.buttons.len(), before.len());
        for (a, b) in before.iter().zip(x.board.buttons.iter()) {
            assert_eq!(std::mem::discriminant(a), std::mem::discriminant(b));
        }
    }
}
