use vstd::prelude::*;

verus! {

/// The kind of a control as written in the board configuration.
#[derive(Clone, Copy, Debug, PartialEq, Eq, Structural)]
pub enum YamlButtonType {
    Toggle,
    Hold,
    Knob,
    Encoder,
    Hotcue,
}

/// One control of the board configuration.
///
/// `read_i`/`read_j` locate the control in the USB state report (a bit for
/// buttons, two bytes for knobs, one byte for encoders), `read_pos` picks the
/// nibble of an encoder (`'s'` low, `'e'` high), `write_idx` is the LED that a
/// button drives and `midi_ctrl_ch` the MIDI controller number it sends on.
#[derive(Clone, Debug)]
pub struct YamlButton {
    pub name: String,
    pub button_type: YamlButtonType,
    pub read_i: u8,
    pub read_j: Option<u8>,
    pub read_pos: Option<char>,
    pub write_idx: Option<u8>,
    pub midi_ctrl_ch: u8,
    pub hotcue_ignore: Option<bool>,
}

/// The board configuration: the list of its controls.
#[derive(Clone, Debug)]
pub struct YamlConfig {
    pub buttons: Vec<YamlButton>,
}

} // verus!
