use x1_mk1_usb2midi::kontrol_x1mk1::{play_note, PanelStep, X1mk1};
use x1_mk1_usb2midi::usb::{find_readable_endpoint, Direction, Endpoint, EndpointDescriptor, TransferType, UsbError, UsbRead};
use x1_mk1_usb2midi::x1_process::MidiMessage;

fn desc(config: u8, address: u8, direction: Direction, transfer_type: TransferType) -> EndpointDescriptor {
    EndpointDescriptor { config, interface: 0, setting: 0, address, direction, transfer_type }
}

#[test]
fn finds_first_readable_endpoint() {
    let eps = vec![
        desc(1, 0x01, Direction::Out, TransferType::Bulk),
        desc(1, 0x81, Direction::In, TransferType::Interrupt),
        desc(1, 0x84, Direction::In, TransferType::Bulk),
        desc(2, 0x86, Direction::In, TransferType::Bulk),
    ];
    assert_eq!(
        find_readable_endpoint(&eps, TransferType::Bulk),
        Some(Endpoint { config: 1, interface: 0, setting: 0, address: 0x84 })
    );
    assert_eq!(
        find_readable_endpoint(&eps, TransferType::Interrupt),
        Some(Endpoint { config: 1, interface: 0, setting: 0, address: 0x81 })
    );
    assert_eq!(find_readable_endpoint(&eps, TransferType::Isochronous), None);
    assert_eq!(find_readable_endpoint(&vec![], TransferType::Bulk), None);
}

#[test]
fn panel_reads_buttons_knobs_and_encoders() {
    let mut x = X1mk1::new();
    let mut buf = [0u8; 24];
    buf[4] = 0b0001_0000; // row 3, bit 4 -> button (0, 0)
    buf[1] = 0b0000_0001; // row 0, bit 0 -> button (10, 0)
    buf[16] = 0x0F;
    buf[17] = 0xFF;
    buf[6] = 0x5A;
    x.write_state(buf);
    assert!(x.button[0][0]);
    assert!(x.button[10][0]);
    assert!(!x.button[0][1]);
    assert_eq!(x.knob[0][0], ['\u{0f}', '\u{ff}']);
    assert_eq!(x.knob_value(0, 0), 127);
    assert_eq!(x.knob[4][0][0], '\u{0a}');
    assert_eq!(x.knob[4][1][0], '\u{05}');
}

#[test]
fn panel_plays_note_while_button_held() {
    let mut x = X1mk1::new();
    let mut buf = [0u8; 24];
    match x.on_usb_read(UsbRead::Data(24), buf) {
        PanelStep::Read(note) => assert_eq!(note, None),
        _ => panic!("read expected"),
    }
    buf[1] = 1;
    match x.on_usb_read(UsbRead::Data(3), buf) {
        PanelStep::Read(note) => assert_eq!(note, Some(MidiMessage { status: 0x90, data1: 1, data2: 0x90 })),
        _ => panic!("read expected"),
    }
    assert!(matches!(x.on_usb_read(UsbRead::Failed(UsbError::Timeout), buf), PanelStep::Skip));
    assert!(matches!(x.on_usb_read(UsbRead::Failed(UsbError::NoDevice), buf), PanelStep::Stop(UsbError::NoDevice)));
    assert_eq!(play_note(7), MidiMessage { status: 0x90, data1: 7, data2: 0x90 });
}

#[test]
fn panel_render_layout() {
    let mut x = X1mk1::new();
    let expected_blank = "=================\n\
false 0 0 false\nfalse 0 0 false\nfalse 0 0 false\nfalse 0 0 false\n\
\n\
0 0\nfalse false false\nfalse false false false\n0 0\nfalse false false\n\
\n\
false false false false\nfalse false false false\nfalse false false false\nfalse false false false\n\
=================";
    assert_eq!(x.render(), expected_blank);
    let mut buf = [0u8; 24];
    buf[16] = 0x0F;
    buf[17] = 0xFF; // knob (0, 0) at full scale
    buf[6] = 0x0C; // encoder (4, 0) reads 12
    buf[4] = 0b0001_0000; // button (0, 0)
    x.write_state(buf);
    let text = x.render();
    let lines: Vec<&str> = text.split('\n').collect();
    assert_eq!(lines[1], "true 127 0 false");
    assert_eq!(lines[6], "95 0");
}

#[test]
fn panel_reading_twice_is_reading_once() {
    let mut x = X1mk1::new();
    let mut buf = [0u8; 24];
    for (k, b) in buf.iter_mut().enumerate() {
        *b = (k as u8).wrapping_mul(37).wrapping_add(11);
    }
    x.write_state(buf);
    let once_buttons = x.button;
    let once_knobs = x.knob;
    x.write_state(buf);
    assert_eq!(x.button, once_buttons);
    assert_eq!(x.knob, once_knobs);
}
