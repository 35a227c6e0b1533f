use vstd::prelude::*;

use crate::conf::YamlConfig;
use crate::usb::{UsbError, UsbRead};
use crate::utils::{bit_at, hex2bin, hex2bool, knob_midi_value, knob_to_midi, lemma_bits_rebuild_byte};
use crate::x1_board::{
    board_entries, name_views, yaml_config_complete, Button, ButtonType, Encoder, Knob, X1mk1Board,
};

verus! {

/// Endpoint the LED frame is written to.
pub const USB_WRITE_FD: u8 = 0x01;

/// Endpoint read after each LED frame to unlock the next one.
pub const USB_UNLOCK_FD: u8 = 0x81;

/// Endpoint the state reports are read from.
pub const USB_READ_FD: u8 = 0x84;

/// Brightness of an LED that is off.
pub const LED_DIM: u8 = 0x05;

/// Brightness of an LED that is on.
pub const LED_BRIGHT: u8 = 0x7F;

/// Status byte of the control changes sent for the controls (plus the shift
/// layer, 0 or 1).
pub const MIDI_CHANNEL: u8 = 0xB0;

/// Status byte of incoming messages that set an LED.
pub const MIDI_CHANNEL_LED: u8 = 0xB2;

/// Status byte of hotcue control changes, both ways (plus the shift layer
/// when sent).
pub const MIDI_CHANNEL_HOTCUE: u8 = 0xB3;

/// Length of a USB state report.
pub const REPORT_LEN: usize = 24;

/// A three-byte MIDI message.
#[derive(Clone, Copy, Debug, PartialEq, Eq, Structural)]
pub struct MidiMessage {
    pub status: u8,
    pub data1: u8,
    pub data2: u8,
}

impl MidiMessage {
    /// The message as the bytes sent on the wire.
    pub fn to_bytes(&self) -> (b: [u8; 3])
        ensures
            b@ == seq![self.status, self.data1, self.data2],
    {
        let b = [self.status, self.data1, self.data2];
        assert(b@ =~= seq![self.status, self.data1, self.data2]);
        b
    }
}

/// The logical state of one controller: its board of controls, the LED
/// brightnesses set over MIDI (`led`, and `led_hotcue` for the sixteen pads
/// while hotcue mode is on), the shift layer and the hotcue mode.
pub struct X1mk1 {
    pub board: X1mk1Board,
    pub led: [u8; 32],
    pub led_hotcue: [u8; 16],
    pub shift: u8,
    pub hotcue: bool,
}

/// What processing a state report works on: the controls, the LEDs, the
/// shift layer, the hotcue mode and the MIDI messages sent so far.
#[verifier::ext_equal]
pub struct Frame {
    pub buttons: Seq<ButtonType>,
    pub led: Seq<u8>,
    pub shift: u8,
    pub hotcue: bool,
    pub sent: Seq<MidiMessage>,
}

/// The name of the toggle that switches hotcue mode.
pub open spec fn is_hotcue_name(n: Seq<char>) -> bool {
    n == "HOTCUE"@
}

/// The name of the button that selects the shift layer.
pub open spec fn is_shift_name(n: Seq<char>) -> bool {
    n == "SHIFT"@
}

/// Bit `j` of byte `i` of the button area of a report (bytes 1 to 5).
pub open spec fn report_bit(buf: Seq<u8>, i: u8, j: u8) -> bool {
    bit_at(buf[i + 1], j) == 1
}

/// A control change on `status` for controller `ch`.
pub open spec fn cc(status: int, ch: u8, value: u8) -> MidiMessage {
    MidiMessage { status: status as u8, data1: ch, data2: value }
}

/// A button that has just read `curr`: both readings become `curr`.
pub open spec fn settle_button(b: Button, curr: bool) -> Button {
    Button { curr: curr, prev: curr, ..b }
}

/// The value an encoder sends when its nibble moves from `prev` to `curr`:
/// 127 when it turns down, 1 when it turns up, where a step between 15 and
/// 0 is a wrap of the nibble.
pub open spec fn encoder_velocity_spec(prev: u8, curr: u8) -> u8 {
    if (prev == 15 && curr == 0) || (prev == 0 && curr == 15) {
        if prev == 15 {
            1
        } else {
            127
        }
    } else if curr < prev {
        127
    } else {
        1
    }
}

/// Processing one toggle button, `None` where the report or LED index is
/// out of range.
pub open spec fn step_toggle(f: Frame, k: int, b: Button, hot_name: bool, buf: Seq<u8>) -> Option<Frame> {
    if f.hotcue && b.hotcue_ignore {
        Some(f)
    } else if b.read_i >= 5 || b.read_j >= 8 {
        None
    } else {
        let curr = report_bit(buf, b.read_i, b.read_j);
        let f1 = Frame { buttons: f.buttons.update(k, ButtonType::Toggle(settle_button(b, curr))), ..f };
        if curr != b.prev && curr {
            if b.write_idx >= 32 {
                None
            } else {
                let sent = f.sent.push(cc(MIDI_CHANNEL + f.shift, b.midi_ctrl_ch, 127));
                if hot_name {
                    let h = !f.hotcue;
                    Some(
                        Frame {
                            hotcue: h,
                            led: f.led.update(b.write_idx as int, if h { LED_BRIGHT } else { LED_DIM }),
                            sent: sent,
                            ..f1
                        },
                    )
                } else {
                    Some(Frame { sent: sent, ..f1 })
                }
            }
        } else {
            Some(f1)
        }
    }
}

/// Processing one hold button.
pub open spec fn step_hold(f: Frame, k: int, b: Button, shift_name: bool, buf: Seq<u8>) -> Option<Frame> {
    if f.hotcue && b.hotcue_ignore {
        Some(f)
    } else if b.read_i >= 5 || b.read_j >= 8 {
        None
    } else {
        let curr = report_bit(buf, b.read_i, b.read_j);
        let f1 = Frame { buttons: f.buttons.update(k, ButtonType::Hold(settle_button(b, curr))), ..f };
        if curr == b.prev {
            Some(f1)
        } else if curr {
            Some(
                Frame {
                    shift: if shift_name { 1 } else { f.shift },
                    sent: f.sent.push(cc(MIDI_CHANNEL + f.shift, b.midi_ctrl_ch, 127)),
                    ..f1
                },
            )
        } else if b.write_idx >= 32 {
            None
        } else {
            let s: u8 = if shift_name { 0 } else { f.shift };
            Some(
                Frame {
                    led: f.led.update(b.write_idx as int, LED_DIM),
                    shift: s,
                    sent: f.sent.push(cc(MIDI_CHANNEL + s, b.midi_ctrl_ch, 0)),
                    ..f1
                },
            )
        }
    }
}

/// Processing one hotcue pad (active in hotcue mode only).
pub open spec fn step_hotcue(f: Frame, k: int, b: Button, buf: Seq<u8>) -> Option<Frame> {
    if !f.hotcue {
        Some(f)
    } else if b.read_i >= 5 || b.read_j >= 8 {
        None
    } else {
        let curr = report_bit(buf, b.read_i, b.read_j);
        let f1 = Frame { buttons: f.buttons.update(k, ButtonType::Hotcue(settle_button(b, curr))), ..f };
        if curr == b.prev {
            Some(f1)
        } else {
            Some(
                Frame {
                    sent: f.sent.push(
                        cc(MIDI_CHANNEL_HOTCUE + f.shift, b.midi_ctrl_ch, if curr { 127 } else { 0 }),
                    ),
                    ..f1
                },
            )
        }
    }
}

/// Processing one knob.
pub open spec fn step_knob(f: Frame, k: int, kn: Knob, buf: Seq<u8>) -> Option<Frame> {
    if kn.read_i >= 24 || kn.read_j >= 24 {
        None
    } else {
        let curr = knob_midi_value(buf[kn.read_i as int], buf[kn.read_j as int]);
        let f1 = Frame {
            buttons: f.buttons.update(k, ButtonType::Knob(Knob { curr: curr, prev: curr, ..kn })),
            ..f
        };
        if curr != kn.prev {
            Some(Frame { sent: f.sent.push(cc(MIDI_CHANNEL + f.shift, kn.midi_ctrl_ch, curr)), ..f1 })
        } else {
            Some(f1)
        }
    }
}

/// The nibble an encoder reads from its report byte.
pub open spec fn encoder_nibble(e: Encoder, byte: u8) -> u8 {
    if e.read_pos == 's' {
        byte % 16
    } else {
        byte / 16
    }
}

/// Processing one encoder.
pub open spec fn step_encoder(f: Frame, k: int, e: Encoder, buf: Seq<u8>) -> Option<Frame> {
    if e.read_i >= 24 || (e.read_pos != 's' && e.read_pos != 'e') {
        None
    } else {
        let curr = encoder_nibble(e, buf[e.read_i as int]);
        let f1 = Frame {
            buttons: f.buttons.update(k, ButtonType::Encoder(Encoder { curr: curr, prev: curr, ..e })),
            ..f
        };
        if curr != e.prev {
            Some(
                Frame {
                    sent: f.sent.push(
                        cc(MIDI_CHANNEL + f.shift, e.midi_ctrl_ch, encoder_velocity_spec(e.prev, curr)),
                    ),
                    ..f1
                },
            )
        } else {
            Some(f1)
        }
    }
}

/// Processing control `k`, named `name`, against the report `buf`; `None`
/// where the control's configuration points outside the report or the LEDs
/// (or names no nibble), which stops the controller.
pub open spec fn step_control(f: Frame, k: int, name: Seq<char>, buf: Seq<u8>) -> Option<Frame> {
    step_control_named(f, k, is_hotcue_name(name), is_shift_name(name), buf)
}

/// Processing control `k`, given whether it is the hotcue toggle and
/// whether it is the shift button.
pub open spec fn step_control_named(f: Frame, k: int, hot_name: bool, shift_name: bool, buf: Seq<u8>) -> Option<Frame> {
    match f.buttons[k] {
        ButtonType::Toggle(b) => step_toggle(f, k, b, hot_name, buf),
        ButtonType::Hold(b) => step_hold(f, k, b, shift_name, buf),
        ButtonType::Hotcue(b) => step_hotcue(f, k, b, buf),
        ButtonType::Knob(kn) => step_knob(f, k, kn, buf),
        ButtonType::Encoder(e) => step_encoder(f, k, e, buf),
    }
}

/// The frame after the first `k` controls have been processed in order.
pub open spec fn run_controls(f: Frame, names: Seq<Seq<char>>, buf: Seq<u8>, k: nat) -> Option<Frame>
    decreases k,
{
    if k == 0 {
        Some(f)
    } else {
        match run_controls(f, names, buf, (k - 1) as nat) {
            Some(g) => step_control(g, k - 1, names[k - 1], buf),
            None => None,
        }
    }
}

/// The frame a controller starts a report from.
pub open spec fn frame_of(x: X1mk1) -> Frame {
    Frame { buttons: x.board.buttons@, led: x.led@, shift: x.shift, hotcue: x.hotcue, sent: Seq::empty() }
}

/// The outcome of processing the report `buf` on the controller `x`: every
/// control in board order; `None` where the controller would stop.
pub open spec fn read_state_result(x: X1mk1, buf: Seq<u8>) -> Option<Frame> {
    run_controls(frame_of(x), name_views(x.board.names@), buf, x.board.buttons@.len())
}

/// The LED frame shown: `led`, with the sixteen pads 9..25 taken from
/// `led_hotcue` in hotcue mode.
pub open spec fn led_frame_of(led: Seq<u8>, led_hotcue: Seq<u8>, hotcue: bool) -> Seq<u8> {
    Seq::new(32, |i: int| if hotcue && 9 <= i < 25 { led_hotcue[i - 9] } else { led[i] })
}

/// The initial LED brightnesses: 0x0C on the first LED, off on the last,
/// dim elsewhere.
pub open spec fn initial_leds() -> Seq<u8> {
    Seq::new(32, |i: int| if i == 0 { 0x0Cu8 } else if i == 31 { 0u8 } else { LED_DIM })
}

/// The value an encoder sends when its nibble moves from `prev` to `curr`.
pub fn encoder_velocity(prev: u8, curr: u8) -> (v: u8)
    ensures
        v == encoder_velocity_spec(prev, curr),
        v == 1 || v == 127,
        prev == 15 && curr == 0 ==> v == 1,
        prev == 0 && curr == 15 ==> v == 127,
        !((prev == 15 && curr == 0) || (prev == 0 && curr == 15)) ==> (v == 127 <==> curr < prev),
        !((prev == 15 && curr == 0) || (prev == 0 && curr == 15)) && curr > prev ==> v == 1,
{
    proof {
        lemma_encoder_direction(prev, curr);
    }
    let mut velocity: u8 = 1;
    if (prev == 15 && curr == 0) || (prev == 0 && curr == 15) {
        velocity = if prev == 15 {
            1
        } else {
            127
        };
    } else if curr < prev {
        velocity = 127;
    }
    velocity
}


/// The decoded button area of a report: row `r` holds the bits of byte
/// `r + 1`.
pub open spec fn bits_of_report(bits: [[bool; 8]; 5], buf: Seq<u8>) -> bool {
    forall|r: int, c: int| 0 <= r < 5 && 0 <= c < 8 ==> #[trigger] bits@[r]@[c] == report_bit(buf, r as u8, c as u8)
}

/// Decodes the button area (bytes 1 to 5) of a report into bits.
fn report_bits(buf: &[u8; 24]) -> (bits: [[bool; 8]; 5])
    ensures
        bits_of_report(bits, buf@),
{
    let mut b0 = [false; 8];
    let mut b1 = [false; 8];
    let mut b2 = [false; 8];
    let mut b3 = [false; 8];
    let mut b4 = [false; 8];
    hex2bool(buf[1], &mut b0);
    hex2bool(buf[2], &mut b1);
    hex2bool(buf[3], &mut b2);
    hex2bool(buf[4], &mut b3);
    hex2bool(buf[5], &mut b4);
    let bits = [b0, b1, b2, b3, b4];
    assert(bits@[0] == b0 && bits@[1] == b1 && bits@[2] == b2 && bits@[3] == b3 && bits@[4] == b4);
    bits
}

/// Runs control `k` on the work area; `false` where the control points
/// outside the report or the LEDs (the work area is then meaningless).
fn step_control_exec(
    buttons: &mut Vec<ButtonType>,
    k: usize,
    hot_name: bool,
    shift_name: bool,
    led: &mut [u8; 32],
    shift: &mut u8,
    hotcue: &mut bool,
    sent: &mut Vec<MidiMessage>,
    buf: &[u8; 24],
    bits: &[[bool; 8]; 5],
) -> (ok: bool)
    requires
        k < old(buttons).len(),
        *old(shift) <= 1,
        bits_of_report(*bits, buf@),
    ensures
        ({
            let f = Frame {
                buttons: old(buttons)@,
                led: old(led)@,
                shift: *old(shift),
                hotcue: *old(hotcue),
                sent: old(sent)@,
            };
            &&& ok == step_control_named(f, k as int, hot_name, shift_name, buf@) is Some
            &&& ok ==> ({
                let g = step_control_named(f, k as int, hot_name, shift_name, buf@).unwrap();
                &&& final(buttons)@ == g.buttons
                &&& final(led)@ == g.led
                &&& *final(shift) == g.shift
                &&& *final(hotcue) == g.hotcue
                &&& final(sent)@ == g.sent
            })
        }),
        ok ==> *final(shift) <= 1,
        final(buttons).len() == old(buttons).len(),
{
    let c = buttons[k];
    match c {
        ButtonType::Toggle(b) => {
            if *hotcue && b.hotcue_ignore {
                return true;
            }
            if b.read_i >= 5 || b.read_j >= 8 {
                return false;
            }
            let curr = bits[b.read_i as usize][b.read_j as usize];
            buttons.set(k, ButtonType::Toggle(Button { curr, prev: curr, ..b }));
            if curr != b.prev && curr {
                if b.write_idx >= 32 {
                    return false;
                }
                sent.push(MidiMessage { status: MIDI_CHANNEL + *shift, data1: b.midi_ctrl_ch, data2: 127 });
                if hot_name {
                    *hotcue = !*hotcue;
                    led[b.write_idx as usize] = if *hotcue {
                        LED_BRIGHT
                    } else {
                        LED_DIM
                    };
                }
            }
            true
        },
        ButtonType::Hold(b) => {
            if *hotcue && b.hotcue_ignore {
                return true;
            }
            if b.read_i >= 5 || b.read_j >= 8 {
                return false;
            }
            let curr = bits[b.read_i as usize][b.read_j as usize];
            buttons.set(k, ButtonType::Hold(Button { curr, prev: curr, ..b }));
            if curr == b.prev {
                return true;
            } else if curr {
                sent.push(MidiMessage { status: MIDI_CHANNEL + *shift, data1: b.midi_ctrl_ch, data2: 127 });
                if shift_name {
                    *shift = 1;
                }
            } else {
                if b.write_idx >= 32 {
                    return false;
                }
                led[b.write_idx as usize] = LED_DIM;
                if shift_name {
                    *shift = 0;
                }
                sent.push(MidiMessage { status: MIDI_CHANNEL + *shift, data1: b.midi_ctrl_ch, data2: 0 });
            }
            true
        },
        ButtonType::Hotcue(b) => {
            if !*hotcue {
                return true;
            }
            if b.read_i >= 5 || b.read_j >= 8 {
                return false;
            }
            let curr = bits[b.read_i as usize][b.read_j as usize];
            buttons.set(k, ButtonType::Hotcue(Button { curr, prev: curr, ..b }));
            if curr == b.prev {
                return true;
            } else if curr {
                sent.push(MidiMessage { status: MIDI_CHANNEL_HOTCUE + *shift, data1: b.midi_ctrl_ch, data2: 127 });
            } else {
                sent.push(MidiMessage { status: MIDI_CHANNEL_HOTCUE + *shift, data1: b.midi_ctrl_ch, data2: 0 });
            }
            true
        },
        ButtonType::Knob(kn) => {
            if kn.read_i >= 24 || kn.read_j >= 24 {
                return false;
            }
            let curr = knob_to_midi(buf[kn.read_i as usize], buf[kn.read_j as usize]);
            buttons.set(k, ButtonType::Knob(Knob { curr, prev: curr, ..kn }));
            if curr != kn.prev {
                sent.push(MidiMessage { status: MIDI_CHANNEL + *shift, data1: kn.midi_ctrl_ch, data2: curr });
            }
            true
        },
        ButtonType::Encoder(e) => {
            if e.read_i >= 24 {
                return false;
            }
            let byte = buf[e.read_i as usize];
            let mut binnum = [0u8; 8];
            hex2bin(byte, &mut binnum);
            proof {
                lemma_bits_rebuild_byte(byte);
                assert(bit_at(byte, 0) <= 1 && bit_at(byte, 1) <= 1 && bit_at(byte, 2) <= 1 && bit_at(byte, 3) <= 1);
                assert(bit_at(byte, 4) <= 1 && bit_at(byte, 5) <= 1 && bit_at(byte, 6) <= 1 && bit_at(byte, 7) <= 1);
            }
            let curr: u8;
            if e.read_pos == 's' {
                curr = binnum[0] + binnum[1] * 2 + binnum[2] * 4 + binnum[3] * 8;
            } else if e.read_pos == 'e' {
                curr = binnum[4] + binnum[5] * 2 + binnum[6] * 4 + binnum[7] * 8;
            } else {
                return false;
            }
            buttons.set(k, ButtonType::Encoder(Encoder { curr, prev: curr, ..e }));
            if curr != e.prev {
                let velocity = encoder_velocity(e.prev, curr);
                sent.push(MidiMessage { status: MIDI_CHANNEL + *shift, data1: e.midi_ctrl_ch, data2: velocity });
            }
            true
        },
    }
}


/// Once a control stops the controller, the rest of the report does not
/// matter: processing more controls still stops it.
proof fn lemma_run_stops(f: Frame, names: Seq<Seq<char>>, buf: Seq<u8>, k: nat, n: nat)
    requires
        k <= n,
        run_controls(f, names, buf, k) is None,
    ensures
        run_controls(f, names, buf, n) is None,
    decreases n - k,
{
    if k < n {
        lemma_run_stops(f, names, buf, k, (n - 1) as nat);
    }
}

/// Runs all controls, in board order, on the work area.
fn run_frame(
    buttons: &mut Vec<ButtonType>,
    names: &Vec<String>,
    led: &mut [u8; 32],
    shift: &mut u8,
    hotcue: &mut bool,
    buf: &[u8; 24],
) -> (r: (bool, Vec<MidiMessage>))
    requires
        old(buttons).len() == names.len(),
        *old(shift) <= 1,
    ensures
        ({
            let f = Frame {
                buttons: old(buttons)@,
                led: old(led)@,
                shift: *old(shift),
                hotcue: *old(hotcue),
                sent: Seq::empty(),
            };
            let res = run_controls(f, name_views(names@), buf@, names.len() as nat);
            &&& r.0 == res is Some
            &&& r.0 ==> ({
                let g = res.unwrap();
                &&& final(buttons)@ == g.buttons
                &&& final(led)@ == g.led
                &&& *final(shift) == g.shift
                &&& *final(hotcue) == g.hotcue
                &&& r.1@ == g.sent
            })
        }),
        final(buttons).len() == old(buttons).len(),
        r.0 ==> *final(shift) <= 1,
{
    let bits = report_bits(buf);
    let hotcue_name = String::from_str("HOTCUE");
    let shift_name = String::from_str("SHIFT");
    let mut sent: Vec<MidiMessage> = Vec::new();
    let n = buttons.len();
    let ghost f0 = Frame {
        buttons: buttons@,
        led: led@,
        shift: *shift,
        hotcue: *hotcue,
        sent: Seq::empty(),
    };
    let ghost ns = name_views(names@);
    for k in 0..n
        invariant
            n == buttons.len(),
            n == names.len(),
            n == old(buttons).len(),
            f0 == (Frame {
                buttons: old(buttons)@,
                led: old(led)@,
                shift: *old(shift),
                hotcue: *old(hotcue),
                sent: Seq::empty(),
            }),
            ns == name_views(names@),
            *shift <= 1,
            bits_of_report(bits, buf@),
            hotcue_name@ == "HOTCUE"@,
            shift_name@ == "SHIFT"@,
            run_controls(f0, ns, buf@, k as nat) == Some(
                Frame { buttons: buttons@, led: led@, shift: *shift, hotcue: *hotcue, sent: sent@ },
            ),
    {
        let is_hot = names[k] == hotcue_name;
        let is_shift = names[k] == shift_name;
        assert(ns[k as int] == names@[k as int]@);
        let ghost old_buttons = buttons@;
        let ghost old_led = led@;
        let ghost old_shift = *shift;
        let ghost old_hotcue = *hotcue;
        let ghost old_sent = sent@;
        let ok = step_control_exec(buttons, k, is_hot, is_shift, led, shift, hotcue, &mut sent, buf, &bits);
        proof {
            assert(is_hot == is_hotcue_name(ns[k as int]));
            assert(is_shift == is_shift_name(ns[k as int]));
            assert(run_controls(f0, ns, buf@, (k + 1) as nat) == step_control(
                Frame { buttons: old_buttons, led: old_led, shift: old_shift, hotcue: old_hotcue, sent: old_sent },
                k as int,
                ns[k as int],
                buf@,
            ));
        }
        if !ok {
            proof {
                lemma_run_stops(f0, ns, buf@, (k + 1) as nat, n as nat);
            }
            return (false, sent);
        }
    }
    (true, sent)
}

/// What to do after a USB read.
pub enum ReadStep {
    /// Read again, without refreshing the LEDs.
    Skip,
    /// Send these MIDI messages, then refresh the LEDs and read again.
    Send(Vec<MidiMessage>),
    /// Stop reading from this controller with this error.
    Stop(UsbError),
}

impl X1mk1 {
    /// The shift layer is 0 or 1 and the board is well formed.
    pub open spec fn wf(&self) -> bool {
        &&& self.board.wf()
        &&& self.shift <= 1
    }

    /// The controller at start: the board of the configuration, the
    /// initial LEDs, every hotcue pad dim, no shift, hotcue mode off.
    pub fn new(yaml_config: &YamlConfig) -> (x: Self)
        requires
            yaml_config_complete(yaml_config.buttons@),
        ensures
            x.wf(),
            name_views(x.board.names@) == board_entries(yaml_config.buttons@).0,
            x.board.buttons@ == board_entries(yaml_config.buttons@).1,
            x.led@ == initial_leds(),
            x.led_hotcue@ == Seq::new(16, |i: int| LED_DIM),
            x.shift == 0,
            !x.hotcue,
    {
        let board = X1mk1Board::from_yaml(yaml_config);
        let mut leds = [LED_DIM; 32];
        let led_hotcue = [LED_DIM; 16];
        leds[0] = 0x0C;
        leds[31] = 0;
        assert(leds@ =~= initial_leds());
        assert(led_hotcue@ =~= Seq::new(16, |i: int| LED_DIM));
        X1mk1 { board, led: leds, led_hotcue, shift: 0, hotcue: false }
    }

    /// Processes one state report: every control of the board in order,
    /// updating the controls, the LEDs, the shift layer and the hotcue mode,
    /// and returns the MIDI messages to send, in order.
    pub fn read_state(&mut self, buf: [u8; 24]) -> (sent: Vec<MidiMessage>)
        requires
            old(self).wf(),
            read_state_result(*old(self), buf@) is Some,
        ensures
            final(self).wf(),
            ({
                let g = read_state_result(*old(self), buf@).unwrap();
                &&& final(self).board.buttons@ == g.buttons
                &&& final(self).led@ == g.led
                &&& final(self).shift == g.shift
                &&& final(self).hotcue == g.hotcue
                &&& sent@ == g.sent
            }),
            final(self).board.names == old(self).board.names,
            final(self).led_hotcue == old(self).led_hotcue,
    {
        let r = run_frame(
            &mut self.board.buttons,
            &self.board.names,
            &mut self.led,
            &mut self.shift,
            &mut self.hotcue,
            &buf,
        );
        r.1
    }

    /// Whether processing the state report `buf` would go through, that is
    /// whether no control points outside the report or the LEDs on the way.
    pub fn can_read_state(&self, buf: &[u8; 24]) -> (ok: bool)
        requires
            self.wf(),
        ensures
            ok == read_state_result(*self, buf@) is Some,
    {
        let mut buttons: Vec<ButtonType> = Vec::new();
        let n = self.board.buttons.len();
        for k in 0..n
            invariant
                n == self.board.buttons.len(),
                buttons@ == self.board.buttons@.take(k as int),
        {
            buttons.push(self.board.buttons[k]);
            assert(self.board.buttons@.take(k + 1) =~= self.board.buttons@.take(k as int).push(
                self.board.buttons@[k as int],
            ));
        }
        assert(self.board.buttons@.take(n as int) =~= self.board.buttons@);
        let mut led = self.led;
        let mut shift = self.shift;
        let mut hotcue = self.hotcue;
        let r = run_frame(&mut buttons, &self.board.names, &mut led, &mut shift, &mut hotcue, buf);
        r.0
    }

    /// The LED frame to write to the controller.
    pub fn led_frame(&self) -> (frame: [u8; 32])
        ensures
            frame@ == led_frame_of(self.led@, self.led_hotcue@, self.hotcue),
    {
        let mut led = self.led;
        if self.hotcue {
            for i in 9..25
                invariant
                    self.hotcue,
                    forall|j: int| 0 <= j < 32 ==> #[trigger] led@[j] == (if 9 <= j < i { self.led_hotcue@[j - 9] } else { self.led@[j] }),
            {
                led[i] = self.led_hotcue[i - 9];
            }
        }
        assert(led@ =~= led_frame_of(self.led@, self.led_hotcue@, self.hotcue));
        led
    }

    /// Handles a MIDI message received for the controller: `[0xB2, i, v]`
    /// sets LED `i` to `v`, `[0xB3, i, v]` sets hotcue pad `i` bright when
    /// `v` is not 0 and dim when it is. Returns whether `i` names an LED
    /// (below 32); other messages with such an index change nothing.
    pub fn on_midi_message(&mut self, message: &Vec<u8>) -> (valid: bool)
        requires
            message.len() >= 2,
            message@[1] < 32 && (message@[0] == MIDI_CHANNEL_LED || message@[0] == MIDI_CHANNEL_HOTCUE)
                ==> message.len() >= 3,
            message@[1] < 32 && message@[0] != MIDI_CHANNEL_LED && message@[0] == MIDI_CHANNEL_HOTCUE
                ==> message@[1] < 16,
        ensures
            valid == (message@[1] < 32),
            final(self).led@ == if valid && message@[0] == MIDI_CHANNEL_LED {
                old(self).led@.update(message@[1] as int, message@[2])
            } else {
                old(self).led@
            },
            final(self).led_hotcue@ == if valid && message@[0] != MIDI_CHANNEL_LED && message@[0]
                == MIDI_CHANNEL_HOTCUE {
                old(self).led_hotcue@.update(
                    message@[1] as int,
                    if message@[2] != 0 { LED_BRIGHT } else { LED_DIM },
                )
            } else {
                old(self).led_hotcue@
            },
            final(self).board == old(self).board,
            final(self).shift == old(self).shift,
            final(self).hotcue == old(self).hotcue,
    {
        let i = message[1] as usize;
        if i < 32 {
            if message[0] == MIDI_CHANNEL_LED {
                self.led[i] = message[2];
            } else if message[0] == MIDI_CHANNEL_HOTCUE {
                self.led_hotcue[i] = if message[2] != 0 {
                    LED_BRIGHT
                } else {
                    LED_DIM
                };
            }
            true
        } else {
            false
        }
    }

    /// Decides what follows a USB read of a state report into `buf`: a full
    /// report is processed and its messages sent, a short read or a timeout
    /// is skipped, any other error stops the controller.
    pub fn on_usb_read(&mut self, read: UsbRead, buf: [u8; 24]) -> (step: ReadStep)
        requires
            old(self).wf(),
            read == UsbRead::Data(REPORT_LEN) ==> read_state_result(*old(self), buf@) is Some,
        ensures
            final(self).wf(),
            match read {
                UsbRead::Data(len) => if len == REPORT_LEN {
                    let g = read_state_result(*old(self), buf@).unwrap();
                    &&& step matches ReadStep::Send(sent) && sent@ == g.sent
                    &&& final(self).board.buttons@ == g.buttons
                    &&& final(self).board.names == old(self).board.names
                    &&& final(self).led@ == g.led
                    &&& final(self).led_hotcue == old(self).led_hotcue
                    &&& final(self).shift == g.shift
                    &&& final(self).hotcue == g.hotcue
                } else {
                    step is Skip && *final(self) == *old(self)
                },
                UsbRead::Failed(e) => {
                    &&& *final(self) == *old(self)
                    &&& if e == UsbError::Timeout {
                        step is Skip
                    } else {
                        step matches ReadStep::Stop(e2) && e2 == e
                    }
                },
            },
    {
        match read {
            UsbRead::Data(len) => {
                if len != REPORT_LEN {
                    return ReadStep::Skip;
                }
                let sent = self.read_state(buf);
                ReadStep::Send(sent)
            },
            UsbRead::Failed(e) => {
                if e == UsbError::Timeout {
                    ReadStep::Skip
                } else {
                    ReadStep::Stop(e)
                }
            },
        }
    }
}


/// A control whose fresh reading of the report equals what it last read
/// (and which reads inside the report).
pub open spec fn at_rest(c: ButtonType, buf: Seq<u8>) -> bool {
    match c {
        ButtonType::Toggle(b) | ButtonType::Hold(b) | ButtonType::Hotcue(b) => {
            &&& b.read_i < 5
            &&& b.read_j < 8
            &&& b.curr == b.prev
            &&& report_bit(buf, b.read_i, b.read_j) == b.prev
        },
        ButtonType::Knob(kn) => {
            &&& kn.read_i < 24
            &&& kn.read_j < 24
            &&& kn.curr == kn.prev
            &&& knob_midi_value(buf[kn.read_i as int], buf[kn.read_j as int]) == kn.prev
        },
        ButtonType::Encoder(e) => {
            &&& e.read_i < 24
            &&& (e.read_pos == 's' || e.read_pos == 'e')
            &&& e.curr == e.prev
            &&& encoder_nibble(e, buf[e.read_i as int]) == e.prev
        },
    }
}

proof fn lemma_step_at_rest(f: Frame, k: int, hot_name: bool, shift_name: bool, buf: Seq<u8>)
    requires
        0 <= k < f.buttons.len(),
        at_rest(f.buttons[k], buf),
    ensures
        step_control_named(f, k, hot_name, shift_name, buf) == Some(f),
{
    assert(f.buttons.update(k, f.buttons[k]) =~= f.buttons);
    match f.buttons[k] {
        ButtonType::Toggle(b) => {
            assert(settle_button(b, b.prev) == b);
        },
        ButtonType::Hold(b) => {
            assert(settle_button(b, b.prev) == b);
        },
        ButtonType::Hotcue(b) => {
            assert(settle_button(b, b.prev) == b);
        },
        ButtonType::Knob(kn) => {
            assert(Knob { curr: kn.prev, prev: kn.prev, ..kn } == kn);
        },
        ButtonType::Encoder(e) => {
            assert(Encoder { curr: e.prev, prev: e.prev, ..e } == e);
        },
    }
}

proof fn lemma_run_at_rest(f: Frame, names: Seq<Seq<char>>, buf: Seq<u8>, k: nat)
    requires
        k <= f.buttons.len(),
        forall|j: int| 0 <= j < f.buttons.len() ==> at_rest(#[trigger] f.buttons[j], buf),
    ensures
        run_controls(f, names, buf, k) == Some(f),
    decreases k,
{
    if k > 0 {
        lemma_run_at_rest(f, names, buf, (k - 1) as nat);
        lemma_step_at_rest(
            f,
            k - 1,
            is_hotcue_name(names[k - 1]),
            is_shift_name(names[k - 1]),
            buf,
        );
    }
}

/// A report in which no control reads anything new sends no MIDI message
/// and changes nothing.
pub proof fn lemma_quiet_report(x: X1mk1, buf: Seq<u8>)
    requires
        forall|k: int| 0 <= k < x.board.buttons@.len() ==> at_rest(#[trigger] x.board.buttons@[k], buf),
    ensures
        read_state_result(x, buf) == Some(frame_of(x)),
        read_state_result(x, buf).unwrap().sent.len() == 0,
{
    lemma_run_at_rest(frame_of(x), name_views(x.board.names@), buf, x.board.buttons@.len());
}

/// Two controls of the same kind with the same configuration (whatever
/// they last read).
pub open spec fn same_config(a: ButtonType, b: ButtonType) -> bool {
    match (a, b) {
        (ButtonType::Toggle(x), ButtonType::Toggle(y)) => settle_button(x, false) == settle_button(y, false),
        (ButtonType::Hold(x), ButtonType::Hold(y)) => settle_button(x, false) == settle_button(y, false),
        (ButtonType::Hotcue(x), ButtonType::Hotcue(y)) => settle_button(x, false) == settle_button(y, false),
        (ButtonType::Knob(x), ButtonType::Knob(y)) => Knob { curr: 0, prev: 0, ..x } == Knob { curr: 0, prev: 0, ..y },
        (ButtonType::Encoder(x), ButtonType::Encoder(y)) => Encoder { curr: 0, prev: 0, ..x } == Encoder {
            curr: 0,
            prev: 0,
            ..y
        },
        _ => false,
    }
}

/// A control change of the kind the controls send: on 0xB0 or 0xB1 (the
/// two shift layers), or on 0xB3 or 0xB4 for hotcue pads.
pub open spec fn is_control_message(m: MidiMessage) -> bool {
    m.status == 0xB0 || m.status == 0xB1 || m.status == 0xB3 || m.status == 0xB4
}

/// What processing keeps: the number, kind and configuration of the
/// controls, the 32 LEDs, a shift layer of 0 or 1, and control-change
/// messages only.
pub open spec fn frame_keeps(f: Frame, g: Frame) -> bool {
    &&& g.buttons.len() == f.buttons.len()
    &&& forall|j: int| 0 <= j < f.buttons.len() ==> same_config(#[trigger] f.buttons[j], g.buttons[j])
    &&& g.led.len() == f.led.len()
    &&& g.shift <= 1
    &&& g.sent.len() >= f.sent.len()
    &&& forall|j: int| 0 <= j < f.sent.len() ==> #[trigger] g.sent[j] == f.sent[j]
    &&& forall|j: int| f.sent.len() <= j < g.sent.len() ==> is_control_message(#[trigger] g.sent[j])
}

proof fn lemma_same_config_refl(c: ButtonType)
    ensures
        same_config(c, c),
{
}

proof fn lemma_step_keeps(f: Frame, k: int, hot_name: bool, shift_name: bool, buf: Seq<u8>)
    requires
        0 <= k < f.buttons.len(),
        f.shift <= 1,
        f.led.len() == 32,
        step_control_named(f, k, hot_name, shift_name, buf) is Some,
    ensures
        frame_keeps(f, step_control_named(f, k, hot_name, shift_name, buf).unwrap()),
{
    let g = step_control_named(f, k, hot_name, shift_name, buf).unwrap();
    assert forall|j: int| 0 <= j < f.buttons.len() implies same_config(#[trigger] f.buttons[j], g.buttons[j]) by {
        lemma_same_config_refl(f.buttons[j]);
    }
}

proof fn lemma_keeps_trans(f: Frame, g: Frame, h: Frame)
    requires
        frame_keeps(f, g),
        frame_keeps(g, h),
    ensures
        frame_keeps(f, h),
{
    assert forall|j: int| 0 <= j < f.buttons.len() implies same_config(#[trigger] f.buttons[j], h.buttons[j]) by {
        assert(same_config(f.buttons[j], g.buttons[j]));
        assert(same_config(g.buttons[j], h.buttons[j]));
    }
    assert forall|j: int| f.sent.len() <= j < h.sent.len() implies is_control_message(#[trigger] h.sent[j]) by {
        if j < g.sent.len() {
            assert(h.sent[j] == g.sent[j]);
        }
    }
}

proof fn lemma_run_keeps(f: Frame, names: Seq<Seq<char>>, buf: Seq<u8>, k: nat)
    requires
        k <= f.buttons.len(),
        f.shift <= 1,
        f.led.len() == 32,
        run_controls(f, names, buf, k) is Some,
    ensures
        frame_keeps(f, run_controls(f, names, buf, k).unwrap()),
    decreases k,
{
    if k == 0 {
        assert forall|j: int| 0 <= j < f.buttons.len() implies same_config(#[trigger] f.buttons[j], f.buttons[j]) by {
            lemma_same_config_refl(f.buttons[j]);
        }
    } else {
        let prev = run_controls(f, names, buf, (k - 1) as nat);
        assert(prev is Some);
        lemma_run_keeps(f, names, buf, (k - 1) as nat);
        let g = prev.unwrap();
        lemma_step_keeps(g, k - 1, is_hotcue_name(names[k - 1]), is_shift_name(names[k - 1]), buf);
        lemma_keeps_trans(f, g, run_controls(f, names, buf, k).unwrap());
    }
}

/// Processing a report keeps the board's controls (their number, kinds
/// and configuration, only readings change), the 32 LEDs and a shift layer
/// of 0 or 1, and sends control changes only: on 0xB0/0xB1 for the
/// controls and 0xB3/0xB4 for the hotcue pads.
pub proof fn lemma_read_state_keeps(x: X1mk1, buf: Seq<u8>)
    requires
        x.wf(),
        read_state_result(x, buf) is Some,
    ensures
        frame_keeps(frame_of(x), read_state_result(x, buf).unwrap()),
{
    lemma_run_keeps(frame_of(x), name_views(x.board.names@), buf, x.board.buttons@.len());
}

/// Turning an encoder back reverses the direction it reports: between two
/// different nibbles, one way sends 1 exactly when the other sends 127,
/// and nothing else is ever sent.
pub proof fn lemma_encoder_reverses(prev: u8, curr: u8)
    requires
        prev != curr,
        prev <= 15,
        curr <= 15,
    ensures
        encoder_velocity_spec(prev, curr) == 1 || encoder_velocity_spec(prev, curr) == 127,
        encoder_velocity_spec(prev, curr) == 1 <==> encoder_velocity_spec(curr, prev) == 127,
{
}

proof fn lemma_step_touches_only(f: Frame, j: int, hot_name: bool, shift_name: bool, buf: Seq<u8>)
    requires
        0 <= j < f.buttons.len(),
        step_control_named(f, j, hot_name, shift_name, buf) is Some,
    ensures
        ({
            let g = step_control_named(f, j, hot_name, shift_name, buf).unwrap();
            &&& g.buttons.len() == f.buttons.len()
            &&& forall|i: int| 0 <= i < f.buttons.len() && i != j ==> #[trigger] g.buttons[i] == f.buttons[i]
        }),
{
}

proof fn lemma_run_prefix(f: Frame, names: Seq<Seq<char>>, buf: Seq<u8>, k: nat, m: nat)
    requires
        k <= m,
        run_controls(f, names, buf, m) is Some,
    ensures
        run_controls(f, names, buf, k) is Some,
{
    if run_controls(f, names, buf, k) is None {
        lemma_run_stops(f, names, buf, k, m);
    }
}

proof fn lemma_run_index(f: Frame, names: Seq<Seq<char>>, buf: Seq<u8>, m: nat, k: int)
    requires
        m <= f.buttons.len(),
        0 <= k < f.buttons.len(),
        run_controls(f, names, buf, m) is Some,
    ensures
        run_controls(f, names, buf, m).unwrap().buttons.len() == f.buttons.len(),
        k >= m ==> run_controls(f, names, buf, m).unwrap().buttons[k] == f.buttons[k],
        k < m ==> run_controls(f, names, buf, (k + 1) as nat) is Some && run_controls(f, names, buf, m).unwrap().buttons[k]
            == run_controls(f, names, buf, (k + 1) as nat).unwrap().buttons[k],
    decreases m,
{
    if m > 0 {
        lemma_run_prefix(f, names, buf, (m - 1) as nat, m);
        lemma_run_index(f, names, buf, (m - 1) as nat, k);
        let g = run_controls(f, names, buf, (m - 1) as nat).unwrap();
        lemma_step_touches_only(g, m - 1, is_hotcue_name(names[m - 1]), is_shift_name(names[m - 1]), buf);
        if k < m {
            lemma_run_prefix(f, names, buf, (k + 1) as nat, m);
        }
    }
}

/// After a report, an encoder holds (as both readings) the nibble of its
/// report byte `buf[read_i]` that its `read_pos` selects: the low nibble
/// `buf[read_i] % 16` for `'s'`, the high nibble `buf[read_i] / 16` for
/// `'e'`; a knob holds the MIDI value of its byte pair; the settings of
/// both are unchanged.
pub proof fn lemma_read_state_inputs(x: X1mk1, buf: Seq<u8>, k: int)
    requires
        x.wf(),
        read_state_result(x, buf) is Some,
        0 <= k < x.board.buttons@.len(),
    ensures
        ({
            let g = read_state_result(x, buf).unwrap();
            &&& g.buttons.len() == x.board.buttons@.len()
            &&& x.board.buttons@[k] matches ButtonType::Encoder(e) ==> {
                &&& e.read_i < 24
                &&& (e.read_pos == 's' || e.read_pos == 'e')
                &&& g.buttons[k] matches ButtonType::Encoder(e2)
                &&& e2.curr == e2.prev
                &&& e2.read_i == e.read_i
                &&& e2.read_pos == e.read_pos
                &&& e2.midi_ctrl_ch == e.midi_ctrl_ch
                &&& (e.read_pos == 's' ==> e2.curr == buf[e.read_i as int] % 16)
                &&& (e.read_pos == 'e' ==> e2.curr == buf[e.read_i as int] / 16)
            }
            &&& x.board.buttons@[k] matches ButtonType::Knob(kn) ==> {
                &&& kn.read_i < 24
                &&& kn.read_j < 24
                &&& g.buttons[k] matches ButtonType::Knob(k2)
                &&& k2.curr == k2.prev
                &&& k2.read_i == kn.read_i
                &&& k2.read_j == kn.read_j
                &&& k2.midi_ctrl_ch == kn.midi_ctrl_ch
                &&& k2.curr == knob_midi_value(buf[kn.read_i as int], buf[kn.read_j as int])
            }
        }),
{
    let f = frame_of(x);
    let ns = name_views(x.board.names@);
    let n = x.board.buttons@.len();
    lemma_run_index(f, ns, buf, n, k);
    lemma_run_prefix(f, ns, buf, k as nat, n);
    lemma_run_index(f, ns, buf, k as nat, k);
    let h = run_controls(f, ns, buf, k as nat).unwrap();
    assert(h.buttons[k] == x.board.buttons@[k]);
    let g1 = run_controls(f, ns, buf, (k + 1) as nat);
    assert(g1 == step_control(h, k, ns[k], buf));
}

/// What processing one control does, stated on the report bytes. A
/// button reads bit `read_j` of byte `read_i + 1`; both its readings become
/// that bit. A toggle pressed (up -> down) sends `[0xB0 + shift, ch, 127]`,
/// and the HOTCUE toggle also flips hotcue mode and sets its LED to 0x7F
/// (mode on) or 0x05 (off). A hold button sends `[0xB0 + shift, ch, 127]`
/// when pressed and, when released, dims its LED (0x05) and sends
/// `[0xB0 + shift, ch, 0]` on the layer after the release; SHIFT selects
/// layer 1 while held. A hotcue pad, only in hotcue mode, sends
/// `[0xB3 + shift, ch, 127]` when pressed and `[0xB3 + shift, ch, 0]` when
/// released. A knob sends `[0xB0 + shift, ch, value]` when its value moves;
/// an encoder sends `[0xB0 + shift, ch, 1 or 127]` when its nibble moves.
/// Toggles and hold buttons set to ignore hotcue mode do nothing in it.
pub proof fn lemma_step_behaviour(f: Frame, k: int, hot_name: bool, shift_name: bool, buf: Seq<u8>)
    requires
        0 <= k < f.buttons.len(),
        f.shift <= 1,
        step_control_named(f, k, hot_name, shift_name, buf) is Some,
    ensures
        ({
            let g = step_control_named(f, k, hot_name, shift_name, buf).unwrap();
            &&& f.buttons[k] matches ButtonType::Toggle(b) ==> if f.hotcue && b.hotcue_ignore {
                g == f
            } else {
                let c = (buf[b.read_i + 1] >> b.read_j) & 1 == 1;
                &&& g.buttons == f.buttons.update(k, ButtonType::Toggle(Button { curr: c, prev: c, ..b }))
                &&& g.shift == f.shift
                &&& if c && !b.prev {
                    &&& g.sent == f.sent.push(
                        MidiMessage { status: (0xB0 + f.shift) as u8, data1: b.midi_ctrl_ch, data2: 127 },
                    )
                    &&& if hot_name {
                        &&& g.hotcue == !f.hotcue
                        &&& g.led == f.led.update(b.write_idx as int, if g.hotcue { 0x7Fu8 } else { 0x05u8 })
                    } else {
                        g.hotcue == f.hotcue && g.led == f.led
                    }
                } else {
                    g.sent == f.sent && g.hotcue == f.hotcue && g.led == f.led
                }
            }
            &&& f.buttons[k] matches ButtonType::Hold(b) ==> if f.hotcue && b.hotcue_ignore {
                g == f
            } else {
                let c = (buf[b.read_i + 1] >> b.read_j) & 1 == 1;
                &&& g.buttons == f.buttons.update(k, ButtonType::Hold(Button { curr: c, prev: c, ..b }))
                &&& g.hotcue == f.hotcue
                &&& (c == b.prev ==> g.sent == f.sent && g.shift == f.shift && g.led == f.led)
                &&& (c && !b.prev ==> {
                    &&& g.shift == (if shift_name { 1 } else { f.shift })
                    &&& g.led == f.led
                    &&& g.sent == f.sent.push(
                        MidiMessage { status: (0xB0 + f.shift) as u8, data1: b.midi_ctrl_ch, data2: 127 },
                    )
                })
                &&& (!c && b.prev ==> {
                    &&& g.shift == (if shift_name { 0 } else { f.shift })
                    &&& g.led == f.led.update(b.write_idx as int, 0x05)
                    &&& g.sent == f.sent.push(
                        MidiMessage { status: (0xB0 + g.shift) as u8, data1: b.midi_ctrl_ch, data2: 0 },
                    )
                })
            }
            &&& f.buttons[k] matches ButtonType::Hotcue(b) ==> if !f.hotcue {
                g == f
            } else {
                let c = (buf[b.read_i + 1] >> b.read_j) & 1 == 1;
                &&& g.buttons == f.buttons.update(k, ButtonType::Hotcue(Button { curr: c, prev: c, ..b }))
                &&& g.hotcue == f.hotcue && g.shift == f.shift && g.led == f.led
                &&& g.sent == if c == b.prev {
                    f.sent
                } else {
                    f.sent.push(
                        MidiMessage {
                            status: (0xB3 + f.shift) as u8,
                            data1: b.midi_ctrl_ch,
                            data2: if c { 127u8 } else { 0u8 },
                        },
                    )
                }
            }
            &&& f.buttons[k] matches ButtonType::Knob(kn) ==> {
                let v = knob_midi_value(buf[kn.read_i as int], buf[kn.read_j as int]);
                &&& g.buttons == f.buttons.update(k, ButtonType::Knob(Knob { curr: v, prev: v, ..kn }))
                &&& g.hotcue == f.hotcue && g.shift == f.shift && g.led == f.led
                &&& g.sent == if v == kn.prev {
                    f.sent
                } else {
                    f.sent.push(MidiMessage { status: (0xB0 + f.shift) as u8, data1: kn.midi_ctrl_ch, data2: v })
                }
            }
            &&& f.buttons[k] matches ButtonType::Encoder(e) ==> {
                let byte = buf[e.read_i as int];
                let c: u8 = if e.read_pos == 's' { byte % 16 } else { byte / 16 };
                let vel: u8 = if e.prev == 15 && c == 0 {
                    1
                } else if e.prev == 0 && c == 15 {
                    127
                } else if c < e.prev {
                    127
                } else {
                    1
                };
                &&& (e.read_pos == 's' || e.read_pos == 'e')
                &&& g.buttons == f.buttons.update(k, ButtonType::Encoder(Encoder { curr: c, prev: c, ..e }))
                &&& g.hotcue == f.hotcue && g.shift == f.shift && g.led == f.led
                &&& g.sent == if c == e.prev {
                    f.sent
                } else {
                    f.sent.push(MidiMessage { status: (0xB0 + f.shift) as u8, data1: e.midi_ctrl_ch, data2: vel })
                }
            }
        }),
{
}

/// The LED frame shows `led` everywhere but on the sixteen pads 9..=24,
/// which show `led_hotcue[0..16]` in hotcue mode; at start LED 0 is 0x0C,
/// LED 31 is 0 and the rest are 0x05. The wire values: controls send on
/// 0xB0 (+ layer), hotcue pads on 0xB3 (+ layer), LED messages come on
/// 0xB2 and hotcue pad messages on 0xB3, LEDs are 0x7F when on and 0x05
/// when off, reports are 24 bytes read from endpoint 0x84, LED frames go
/// to endpoint 0x01 and are acknowledged on 0x81.
pub proof fn lemma_led_layout(led: Seq<u8>, led_hotcue: Seq<u8>, hotcue: bool, i: int)
    requires
        0 <= i < 32,
    ensures
        led_frame_of(led, led_hotcue, hotcue).len() == 32,
        (i < 9 || i >= 25 || !hotcue) ==> led_frame_of(led, led_hotcue, hotcue)[i] == led[i],
        (9 <= i <= 24 && hotcue) ==> led_frame_of(led, led_hotcue, hotcue)[i] == led_hotcue[i - 9],
        initial_leds().len() == 32,
        initial_leds()[i] == if i == 0 { 0x0Cu8 } else if i == 31 { 0u8 } else { 0x05u8 },
        MIDI_CHANNEL == 0xB0 && MIDI_CHANNEL_HOTCUE == 0xB3 && MIDI_CHANNEL_LED == 0xB2,
        LED_BRIGHT == 0x7F && LED_DIM == 0x05,
        REPORT_LEN == 24 && USB_READ_FD == 0x84 && USB_WRITE_FD == 0x01 && USB_UNLOCK_FD == 0x81,
{
}

/// The direction an encoder reports: a nibble step up (curr > prev) sends 1
/// and a step down sends 127, except across the wrap between 15 and 0,
/// where 15 -> 0 counts as up (1) and 0 -> 15 as down (127). In
/// particular every one-step move up, `curr == prev + 1`, sends 1.
pub proof fn lemma_encoder_direction(prev: u8, curr: u8)
    ensures
        encoder_velocity_spec(prev, curr) == 1 || encoder_velocity_spec(prev, curr) == 127,
        prev == 15 && curr == 0 ==> encoder_velocity_spec(prev, curr) == 1,
        prev == 0 && curr == 15 ==> encoder_velocity_spec(prev, curr) == 127,
        !((prev == 15 && curr == 0) || (prev == 0 && curr == 15)) ==> (encoder_velocity_spec(prev, curr)
            == 127 <==> curr < prev),
        !((prev == 15 && curr == 0) || (prev == 0 && curr == 15)) ==> (encoder_velocity_spec(prev, curr)
            == 1 <==> curr >= prev),
        curr as int == prev + 1 ==> encoder_velocity_spec(prev, curr) == 1,
        curr as int == prev - 1 ==> encoder_velocity_spec(prev, curr) == 127,
{
}

/// An LED value set over MIDI shows in the LED frame, except on the
/// sixteen pads while hotcue mode is on; a hotcue pad value shows on its
/// pad while hotcue mode is on.
pub proof fn lemma_led_write_shows(led: Seq<u8>, led_hotcue: Seq<u8>, hotcue: bool, i: int, v: u8, p: int, on: bool)
    requires
        led.len() == 32,
        led_hotcue.len() == 16,
        0 <= i < 32,
        0 <= p < 16,
    ensures
        !(hotcue && 9 <= i < 25) ==> led_frame_of(led.update(i, v), led_hotcue, hotcue)[i] == v,
        led_frame_of(led, led_hotcue.update(p, if on { LED_BRIGHT } else { LED_DIM }), true)[p + 9]
            == if on { LED_BRIGHT } else { LED_DIM },
{
}

} // verus!
