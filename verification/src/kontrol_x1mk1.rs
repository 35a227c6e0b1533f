use vstd::prelude::*;

use crate::usb::{UsbError, UsbRead};
use crate::utils::{bit_at, hex2bin, hex2bool, knob_midi_value, knob_to_midi, lemma_bits_rebuild_byte};
use crate::x1_process::MidiMessage;

verus! {

/// Endpoint the state reports are read from.
pub const USB_STATE_FD: u8 = 0x84;

/// Status byte of a note-on message on channel 1.
pub const NOTE_ON_MSG: u8 = 0x90;

/// Status byte of a note-off message on channel 1.
pub const NOTE_OFF_MSG: u8 = 0x80;

/// Velocity of a played note.
pub const VELOCITY: u8 = 0x64;

/// The panel view of the controller: the buttons as an 11 x 4 grid of
/// pressed flags and the knobs and encoders as a 6 x 2 grid of raw byte
/// pairs (held as characters, one per byte).
pub struct X1mk1 {
    pub button: [[bool; 4]; 11],
    pub knob: [[[char; 2]; 2]; 6],
}


/// What to do after a USB read of a state report into the panel.
pub enum PanelStep {
    /// Read again.
    Skip,
    /// The report was read into the panel; show it, send the note if there
    /// is one, and read again.
    Read(Option<MidiMessage>),
    /// Stop reading with this error.
    Stop(UsbError),
}

/// The note-on message that plays `note`.
pub open spec fn note_on_spec(note: u8) -> MidiMessage {
    MidiMessage { status: NOTE_ON_MSG, data1: note, data2: 0x90 }
}

/// The note-on message that plays `note`.
pub fn play_note(note: u8) -> (m: MidiMessage)
    ensures
        m == note_on_spec(note),
{
    MidiMessage { status: NOTE_ON_MSG, data1: note, data2: 0x90 }
}

/// Where the button at row `m`, column `n` of the panel is read: bit
/// `.1` of byte `.0 + 1` of the report; `None` for grid cells with no button.
pub open spec fn button_source(m: int, n: int) -> Option<(u8, u8)> {
    if m == 0 && n == 0 { Some((3u8, 4u8)) }
    else if m == 0 && n == 1 { Some((4u8, 0u8)) }
    else if m == 1 && n == 0 { Some((3u8, 5u8)) }
    else if m == 1 && n == 1 { Some((4u8, 1u8)) }
    else if m == 2 && n == 0 { Some((3u8, 6u8)) }
    else if m == 2 && n == 1 { Some((4u8, 2u8)) }
    else if m == 3 && n == 0 { Some((3u8, 7u8)) }
    else if m == 3 && n == 1 { Some((4u8, 3u8)) }
    else if m == 4 && n == 0 { Some((3u8, 0u8)) }
    else if m == 4 && n == 1 { Some((4u8, 4u8)) }
    else if m == 4 && n == 2 { Some((3u8, 1u8)) }
    else if m == 5 && n == 0 { Some((1u8, 1u8)) }
    else if m == 5 && n == 1 { Some((1u8, 0u8)) }
    else if m == 5 && n == 2 { Some((4u8, 6u8)) }
    else if m == 5 && n == 3 { Some((4u8, 5u8)) }
    else if m == 6 && n == 0 { Some((3u8, 2u8)) }
    else if m == 6 && n == 1 { Some((4u8, 7u8)) }
    else if m == 6 && n == 2 { Some((3u8, 3u8)) }
    else if m == 7 && n == 0 { Some((2u8, 4u8)) }
    else if m == 7 && n == 1 { Some((0u8, 3u8)) }
    else if m == 7 && n == 2 { Some((1u8, 4u8)) }
    else if m == 7 && n == 3 { Some((2u8, 3u8)) }
    else if m == 8 && n == 0 { Some((0u8, 2u8)) }
    else if m == 8 && n == 1 { Some((2u8, 5u8)) }
    else if m == 8 && n == 2 { Some((2u8, 2u8)) }
    else if m == 8 && n == 3 { Some((1u8, 5u8)) }
    else if m == 9 && n == 0 { Some((0u8, 1u8)) }
    else if m == 9 && n == 1 { Some((2u8, 6u8)) }
    else if m == 9 && n == 2 { Some((2u8, 1u8)) }
    else if m == 9 && n == 3 { Some((1u8, 6u8)) }
    else if m == 10 && n == 0 { Some((0u8, 0u8)) }
    else if m == 10 && n == 1 { Some((2u8, 7u8)) }
    else if m == 10 && n == 2 { Some((2u8, 0u8)) }
    else if m == 10 && n == 3 { Some((1u8, 7u8)) }
    else { None }
}

/// Where the knob at row `m`, column `n` is read: its high byte at report
/// index `.0` and its low byte at `.1`; `None` for cells with no knob.
pub open spec fn knob_source(m: int, n: int) -> Option<(int, int)> {
    if m == 0 && n == 0 { Some((16, 17)) }
    else if m == 0 && n == 1 { Some((12, 13)) }
    else if m == 1 && n == 0 { Some((20, 21)) }
    else if m == 1 && n == 1 { Some((10, 11)) }
    else if m == 2 && n == 0 { Some((22, 23)) }
    else if m == 2 && n == 1 { Some((8, 9)) }
    else if m == 3 && n == 0 { Some((18, 19)) }
    else if m == 3 && n == 1 { Some((14, 15)) }
    else { None }
}

/// Where the encoder at row `m`, column `n` is read: report index `.0`,
/// low nibble when `.1` is `'s'` and high nibble when it is `'e'`; `None`
/// for cells with no encoder.
pub open spec fn encoder_source(m: int, n: int) -> Option<(int, char)> {
    if m == 4 && n == 0 { Some((6, 's')) }
    else if m == 4 && n == 1 { Some((6, 'e')) }
    else if m == 5 && n == 0 { Some((7, 's')) }
    else if m == 5 && n == 1 { Some((7, 'e')) }
    else { None }
}

/// The nibble of `byte` that `pos` selects: `'s'` the low one, `'e'` the
/// high one.
pub open spec fn nibble_at(byte: u8, pos: char) -> u8 {
    if pos == 's' {
        byte % 16
    } else {
        byte / 16
    }
}

/// The character carrying a byte value.
pub open spec fn byte_char(b: u8) -> char {
    b as char
}

/// The panel after a report: each button cell with a source reads its
/// bit, each knob cell holds its two bytes, each encoder cell holds its
/// nibble as first character (the second is left as it was), and cells
/// with no source are left as they were.
pub open spec fn panel_after(old_panel: X1mk1, new_panel: X1mk1, buf: Seq<u8>) -> bool {
    &&& forall|m: int, n: int| 0 <= m < 11 && 0 <= n < 4 ==> #[trigger] new_panel.button@[m]@[n] == match button_source(m, n) {
        Some(src) => bit_at(buf[src.0 + 1], src.1) == 1,
        None => old_panel.button@[m]@[n],
    }
    &&& forall|m: int, n: int| 0 <= m < 6 && 0 <= n < 2 ==> #[trigger] knob_cell_after(old_panel, new_panel, buf, m, n)
}

/// The knob cell at row `m`, column `n` after a report (see `panel_after`).
pub open spec fn knob_cell_after(old_panel: X1mk1, new_panel: X1mk1, buf: Seq<u8>, m: int, n: int) -> bool {
    match knob_source(m, n) {
        Some(src) => new_panel.knob@[m]@[n]@ == seq![byte_char(buf[src.0]), byte_char(buf[src.1])],
        None => match encoder_source(m, n) {
            Some(src) => new_panel.knob@[m]@[n]@ == seq![byte_char(nibble_at(buf[src.0], src.1)), old_panel.knob@[m]@[n]@[1]],
            None => new_panel.knob@[m]@[n] == old_panel.knob@[m]@[n],
        },
    }
}

/// The panel's wiring: after a report, each button cell holds the report
/// bit wired to it (bit `b` of byte `i` written as `(buf[i] >> b) & 1`),
/// cells with no button are unchanged, each knob cell holds its two report
/// bytes, and each encoder cell holds in front the low (`% 16`) or high
/// (`/ 16`) nibble of its report byte.
pub proof fn lemma_panel_wiring(p: X1mk1, q: X1mk1, buf: Seq<u8>)
    requires
        panel_after(p, q, buf),
    ensures
        q.button@[0]@[0] == ((buf[4] >> 4u8) & 1 == 1),
        q.button@[0]@[1] == ((buf[5] >> 0u8) & 1 == 1),
        q.button@[0]@[2] == p.button@[0]@[2],
        q.button@[0]@[3] == p.button@[0]@[3],
        q.button@[1]@[0] == ((buf[4] >> 5u8) & 1 == 1),
        q.button@[1]@[1] == ((buf[5] >> 1u8) & 1 == 1),
        q.button@[1]@[2] == p.button@[1]@[2],
        q.button@[1]@[3] == p.button@[1]@[3],
        q.button@[2]@[0] == ((buf[4] >> 6u8) & 1 == 1),
        q.button@[2]@[1] == ((buf[5] >> 2u8) & 1 == 1),
        q.button@[2]@[2] == p.button@[2]@[2],
        q.button@[2]@[3] == p.button@[2]@[3],
        q.button@[3]@[0] == ((buf[4] >> 7u8) & 1 == 1),
        q.button@[3]@[1] == ((buf[5] >> 3u8) & 1 == 1),
        q.button@[3]@[2] == p.button@[3]@[2],
        q.button@[3]@[3] == p.button@[3]@[3],
        q.button@[4]@[0] == ((buf[4] >> 0u8) & 1 == 1),
        q.button@[4]@[1] == ((buf[5] >> 4u8) & 1 == 1),
        q.button@[4]@[2] == ((buf[4] >> 1u8) & 1 == 1),
        q.button@[4]@[3] == p.button@[4]@[3],
        q.button@[5]@[0] == ((buf[2] >> 1u8) & 1 == 1),
        q.button@[5]@[1] == ((buf[2] >> 0u8) & 1 == 1),
        q.button@[5]@[2] == ((buf[5] >> 6u8) & 1 == 1),
        q.button@[5]@[3] == ((buf[5] >> 5u8) & 1 == 1),
        q.button@[6]@[0] == ((buf[4] >> 2u8) & 1 == 1),
        q.button@[6]@[1] == ((buf[5] >> 7u8) & 1 == 1),
        q.button@[6]@[2] == ((buf[4] >> 3u8) & 1 == 1),
        q.button@[6]@[3] == p.button@[6]@[3],
        q.button@[7]@[0] == ((buf[3] >> 4u8) & 1 == 1),
        q.button@[7]@[1] == ((buf[1] >> 3u8) & 1 == 1),
        q.button@[7]@[2] == ((buf[2] >> 4u8) & 1 == 1),
        q.button@[7]@[3] == ((buf[3] >> 3u8) & 1 == 1),
        q.button@[8]@[0] == ((buf[1] >> 2u8) & 1 == 1),
        q.button@[8]@[1] == ((buf[3] >> 5u8) & 1 == 1),
        q.button@[8]@[2] == ((buf[3] >> 2u8) & 1 == 1),
        q.button@[8]@[3] == ((buf[2] >> 5u8) & 1 == 1),
        q.button@[9]@[0] == ((buf[1] >> 1u8) & 1 == 1),
        q.button@[9]@[1] == ((buf[3] >> 6u8) & 1 == 1),
        q.button@[9]@[2] == ((buf[3] >> 1u8) & 1 == 1),
        q.button@[9]@[3] == ((buf[2] >> 6u8) & 1 == 1),
        q.button@[10]@[0] == ((buf[1] >> 0u8) & 1 == 1),
        q.button@[10]@[1] == ((buf[3] >> 7u8) & 1 == 1),
        q.button@[10]@[2] == ((buf[3] >> 0u8) & 1 == 1),
        q.button@[10]@[3] == ((buf[2] >> 7u8) & 1 == 1),
        q.knob@[0]@[0]@ == seq![buf[16] as char, buf[17] as char],
        q.knob@[0]@[1]@ == seq![buf[12] as char, buf[13] as char],
        q.knob@[1]@[0]@ == seq![buf[20] as char, buf[21] as char],
        q.knob@[1]@[1]@ == seq![buf[10] as char, buf[11] as char],
        q.knob@[2]@[0]@ == seq![buf[22] as char, buf[23] as char],
        q.knob@[2]@[1]@ == seq![buf[8] as char, buf[9] as char],
        q.knob@[3]@[0]@ == seq![buf[18] as char, buf[19] as char],
        q.knob@[3]@[1]@ == seq![buf[14] as char, buf[15] as char],
        q.knob@[4]@[0]@ == seq![(buf[6] % 16) as char, p.knob@[4]@[0]@[1]],
        q.knob@[4]@[1]@ == seq![(buf[6] / 16) as char, p.knob@[4]@[1]@[1]],
        q.knob@[5]@[0]@ == seq![(buf[7] % 16) as char, p.knob@[5]@[0]@[1]],
        q.knob@[5]@[1]@ == seq![(buf[7] / 16) as char, p.knob@[5]@[1]@[1]],
{
    assert(knob_cell_after(p, q, buf, 0, 0));
    assert(knob_cell_after(p, q, buf, 0, 1));
    assert(knob_cell_after(p, q, buf, 1, 0));
    assert(knob_cell_after(p, q, buf, 1, 1));
    assert(knob_cell_after(p, q, buf, 2, 0));
    assert(knob_cell_after(p, q, buf, 2, 1));
    assert(knob_cell_after(p, q, buf, 3, 0));
    assert(knob_cell_after(p, q, buf, 3, 1));
    assert(knob_cell_after(p, q, buf, 4, 0));
    assert(knob_cell_after(p, q, buf, 4, 1));
    assert(knob_cell_after(p, q, buf, 5, 0));
    assert(knob_cell_after(p, q, buf, 5, 1));
}

/// Reading the same report into the panel twice gives the panel that
/// reading it once gives.
pub proof fn lemma_panel_read_idempotent(p: X1mk1, q: X1mk1, r: X1mk1, buf: Seq<u8>)
    requires
        panel_after(p, q, buf),
        panel_after(q, r, buf),
    ensures
        forall|m: int, n: int| 0 <= m < 11 && 0 <= n < 4 ==> #[trigger] r.button@[m]@[n] == q.button@[m]@[n],
        forall|m: int, n: int| 0 <= m < 6 && 0 <= n < 2 ==> #[trigger] r.knob@[m]@[n]@ == q.knob@[m]@[n]@,
{
    assert forall|m: int, n: int| 0 <= m < 11 && 0 <= n < 4 implies #[trigger] r.button@[m]@[n] == q.button@[m]@[n] by {
        assert(r.button@[m]@[n] == q.button@[m]@[n] || button_source(m, n) is Some);
    }
    assert forall|m: int, n: int| 0 <= m < 6 && 0 <= n < 2 implies #[trigger] r.knob@[m]@[n]@ == q.knob@[m]@[n]@ by {
        assert(knob_cell_after(p, q, buf, m, n));
        assert(knob_cell_after(q, r, buf, m, n));
        if knob_source(m, n) is None && encoder_source(m, n) is Some {
            assert(r.knob@[m]@[n]@ =~= q.knob@[m]@[n]@);
        }
    }
}

/// The decimal digit `d` as text.
pub open spec fn digit_text(d: u8) -> Seq<char> {
    if d == 0 { "0"@ }
    else if d == 1 { "1"@ }
    else if d == 2 { "2"@ }
    else if d == 3 { "3"@ }
    else if d == 4 { "4"@ }
    else if d == 5 { "5"@ }
    else if d == 6 { "6"@ }
    else if d == 7 { "7"@ }
    else if d == 8 { "8"@ }
    else { "9"@ }
}

/// A byte in decimal, without leading zeros.
pub open spec fn dec_text(n: u8) -> Seq<char> {
    if n >= 100 {
        digit_text(n / 100) + digit_text((n / 10) % 10) + digit_text(n % 10)
    } else if n >= 10 {
        digit_text(n / 10) + digit_text(n % 10)
    } else {
        digit_text(n)
    }
}

/// A flag as `true` or `false`.
pub open spec fn bool_text(b: bool) -> Seq<char> {
    if b { "true"@ } else { "false"@ }
}

/// The MIDI value of the knob cell at row `m`, column `n`.
pub open spec fn knob_cell_value(x: X1mk1, m: int, n: int) -> u8 {
    knob_midi_value(x.knob@[m]@[n]@[0] as u8, x.knob@[m]@[n]@[1] as u8)
}

/// A deck row: button, two knobs, button.
pub open spec fn deck_line(x: X1mk1, m: int) -> Seq<char> {
    bool_text(x.button@[m]@[0]) + " "@ + dec_text(knob_cell_value(x, m, 0)) + " "@ + dec_text(
        knob_cell_value(x, m, 1),
    ) + " "@ + bool_text(x.button@[m]@[1]) + "\n"@
}

/// An encoder row: the two cells of row `m` as knob values.
pub open spec fn encoder_line(x: X1mk1, m: int) -> Seq<char> {
    dec_text(knob_cell_value(x, m, 0)) + " "@ + dec_text(knob_cell_value(x, m, 1)) + "\n"@
}

/// A row of the first `k` buttons of row `m` (three or four).
pub open spec fn button_line(x: X1mk1, m: int, k: int) -> Seq<char> {
    if k == 3 {
        bool_text(x.button@[m]@[0]) + " "@ + bool_text(x.button@[m]@[1]) + " "@ + bool_text(x.button@[m]@[2]) + "\n"@
    } else {
        bool_text(x.button@[m]@[0]) + " "@ + bool_text(x.button@[m]@[1]) + " "@ + bool_text(x.button@[m]@[2]) + " "@
            + bool_text(x.button@[m]@[3]) + "\n"@
    }
}

/// The text picture of the panel.
pub open spec fn panel_text(x: X1mk1) -> Seq<char> {
    "=================\n"@ + deck_line(x, 0) + deck_line(x, 1) + deck_line(x, 2) + deck_line(x, 3) + "\n"@
        + encoder_line(x, 4) + button_line(x, 4, 3) + button_line(x, 5, 4) + encoder_line(x, 5)
        + button_line(x, 6, 3) + "\n"@ + button_line(x, 7, 4) + button_line(x, 8, 4) + button_line(x, 9, 4)
        + button_line(x, 10, 4) + "================="@
}

/// The number a string of decimal digits spells.
pub open spec fn digits_value(s: Seq<char>) -> int
    decreases s.len(),
{
    if s.len() == 0 {
        0
    } else {
        digits_value(s.drop_last()) * 10 + (s.last() as int - '0' as int)
    }
}

proof fn lemma_digit_char(d: u8)
    requires
        d < 10,
    ensures
        digit_text(d).len() == 1,
        digit_text(d)[0] as int == '0' as int + d,
{
    reveal_strlit("0");
    reveal_strlit("1");
    reveal_strlit("2");
    reveal_strlit("3");
    reveal_strlit("4");
    reveal_strlit("5");
    reveal_strlit("6");
    reveal_strlit("7");
    reveal_strlit("8");
    reveal_strlit("9");
}

/// Knob values are printed in decimal: one to three digits `'0'..='9'`,
/// with no leading zero, spelling the value; the panel's note is a note-on
/// (status 0x90) of note 1 with 0x90 as its last byte.
pub proof fn lemma_dec_text_spells(n: u8)
    ensures
        digits_value(dec_text(n)) == n,
        1 <= dec_text(n).len() <= 3,
        forall|i: int| 0 <= i < dec_text(n).len() ==> '0' <= #[trigger] dec_text(n)[i] <= '9',
        dec_text(n).len() > 1 ==> dec_text(n)[0] != '0',
        note_on_spec(1) == (MidiMessage { status: 0x90, data1: 1, data2: 0x90 }),
{
    let c = digit_text(n % 10);
    lemma_digit_char(n % 10);
    if n >= 100 {
        let a = digit_text(n / 100);
        let b = digit_text((n / 10) % 10);
        lemma_digit_char(n / 100);
        lemma_digit_char((n / 10) % 10);
        let s = a + b + c;
        assert(s.drop_last() =~= a + b);
        assert((a + b).drop_last() =~= a);
        assert(a.drop_last().len() == 0);
        assert(digits_value(a.drop_last()) == 0);
        assert(digits_value(a) == n / 100);
        assert(digits_value(a + b) == (n / 100) * 10 + (n / 10) % 10);
    } else if n >= 10 {
        let e = digit_text(n / 10);
        lemma_digit_char(n / 10);
        let s = e + c;
        assert(s.drop_last() =~= e);
        assert(e.drop_last().len() == 0);
        assert(digits_value(e.drop_last()) == 0);
        assert(digits_value(e) == n / 10);
    } else {
        assert(c.drop_last().len() == 0);
        assert(digits_value(c.drop_last()) == 0);
    }
}

/// The text picture of the panel, line by line: the opening rule; lines
/// 1 to 4 the deck rows 0 to 3 (button, two knob values, button); a blank
/// line; the encoders and buttons of rows 4, 5 and 6 (lines 6 to 10); a
/// blank line; lines 12 to 15 the buttons of rows 7, 8, 9 and 10 in that
/// order; the closing rule.
pub proof fn lemma_render_lines(x: X1mk1)
    ensures
        panel_text(x) ==
            "=================\n"@ // rule
            + (bool_text(x.button@[0]@[0]) + " "@ + dec_text(knob_midi_value(x.knob@[0]@[0]@[0] as u8, x.knob@[0]@[0]@[1] as u8)) + " "@ + dec_text(knob_midi_value(x.knob@[0]@[1]@[0] as u8, x.knob@[0]@[1]@[1] as u8)) + " "@ + bool_text(x.button@[0]@[1]) + "\n"@) // line 1: deck row 0
            + (bool_text(x.button@[1]@[0]) + " "@ + dec_text(knob_midi_value(x.knob@[1]@[0]@[0] as u8, x.knob@[1]@[0]@[1] as u8)) + " "@ + dec_text(knob_midi_value(x.knob@[1]@[1]@[0] as u8, x.knob@[1]@[1]@[1] as u8)) + " "@ + bool_text(x.button@[1]@[1]) + "\n"@) // line 2: deck row 1
            + (bool_text(x.button@[2]@[0]) + " "@ + dec_text(knob_midi_value(x.knob@[2]@[0]@[0] as u8, x.knob@[2]@[0]@[1] as u8)) + " "@ + dec_text(knob_midi_value(x.knob@[2]@[1]@[0] as u8, x.knob@[2]@[1]@[1] as u8)) + " "@ + bool_text(x.button@[2]@[1]) + "\n"@) // line 3: deck row 2
            + (bool_text(x.button@[3]@[0]) + " "@ + dec_text(knob_midi_value(x.knob@[3]@[0]@[0] as u8, x.knob@[3]@[0]@[1] as u8)) + " "@ + dec_text(knob_midi_value(x.knob@[3]@[1]@[0] as u8, x.knob@[3]@[1]@[1] as u8)) + " "@ + bool_text(x.button@[3]@[1]) + "\n"@) // line 4: deck row 3
            + "\n"@ // line 5: blank
            + (dec_text(knob_midi_value(x.knob@[4]@[0]@[0] as u8, x.knob@[4]@[0]@[1] as u8)) + " "@ + dec_text(knob_midi_value(x.knob@[4]@[1]@[0] as u8, x.knob@[4]@[1]@[1] as u8)) + "\n"@) // line 6: encoders of row 4
            + (bool_text(x.button@[4]@[0]) + " "@ + bool_text(x.button@[4]@[1]) + " "@ + bool_text(x.button@[4]@[2]) + "\n"@) // line 7: buttons of row 4
            + (bool_text(x.button@[5]@[0]) + " "@ + bool_text(x.button@[5]@[1]) + " "@ + bool_text(x.button@[5]@[2]) + " "@ + bool_text(x.button@[5]@[3]) + "\n"@) // line 8: buttons of row 5
            + (dec_text(knob_midi_value(x.knob@[5]@[0]@[0] as u8, x.knob@[5]@[0]@[1] as u8)) + " "@ + dec_text(knob_midi_value(x.knob@[5]@[1]@[0] as u8, x.knob@[5]@[1]@[1] as u8)) + "\n"@) // line 9: encoders of row 5
            + (bool_text(x.button@[6]@[0]) + " "@ + bool_text(x.button@[6]@[1]) + " "@ + bool_text(x.button@[6]@[2]) + "\n"@) // line 10: buttons of row 6
            + "\n"@ // line 11: blank
            + (bool_text(x.button@[7]@[0]) + " "@ + bool_text(x.button@[7]@[1]) + " "@ + bool_text(x.button@[7]@[2]) + " "@ + bool_text(x.button@[7]@[3]) + "\n"@) // line 12: buttons of row 7
            + (bool_text(x.button@[8]@[0]) + " "@ + bool_text(x.button@[8]@[1]) + " "@ + bool_text(x.button@[8]@[2]) + " "@ + bool_text(x.button@[8]@[3]) + "\n"@) // line 13: buttons of row 8
            + (bool_text(x.button@[9]@[0]) + " "@ + bool_text(x.button@[9]@[1]) + " "@ + bool_text(x.button@[9]@[2]) + " "@ + bool_text(x.button@[9]@[3]) + "\n"@) // line 14: buttons of row 9
            + (bool_text(x.button@[10]@[0]) + " "@ + bool_text(x.button@[10]@[1]) + " "@ + bool_text(x.button@[10]@[2]) + " "@ + bool_text(x.button@[10]@[3]) + "\n"@) // line 15: buttons of row 10
            + "================="@, // closing rule
        forall|b: bool| !(#[trigger] bool_text(b)).contains('\n'),
        forall|n: u8| !(#[trigger] dec_text(n)).contains('\n'),
{
    reveal_strlit("true");
    reveal_strlit("false");
    reveal_strlit("0");
    reveal_strlit("1");
    reveal_strlit("2");
    reveal_strlit("3");
    reveal_strlit("4");
    reveal_strlit("5");
    reveal_strlit("6");
    reveal_strlit("7");
    reveal_strlit("8");
    reveal_strlit("9");
    assert forall|d: u8| !(#[trigger] digit_text(d)).contains('\n') by {
        if digit_text(d).contains('\n') {
            let i = choose|i: int| 0 <= i < digit_text(d).len() && digit_text(d)[i] == '\n';
        }
    }
    assert forall|b: bool| !(#[trigger] bool_text(b)).contains('\n') by {
        if bool_text(b).contains('\n') {
            let i = choose|i: int| 0 <= i < bool_text(b).len() && bool_text(b)[i] == '\n';
        }
    }
    assert forall|n: u8| !(#[trigger] dec_text(n)).contains('\n') by {
        let a = digit_text(n / 100);
        let b = digit_text((n / 10) % 10);
        let c = digit_text(n % 10);
        let e = digit_text(n / 10);
        assert(!a.contains('\n') && !b.contains('\n') && !c.contains('\n') && !e.contains('\n'));
        if dec_text(n).contains('\n') {
            let i = choose|i: int| 0 <= i < dec_text(n).len() && dec_text(n)[i] == '\n';
            if n >= 100 {
                assert(dec_text(n) == a + b + c);
                if i < 1 {
                    assert(a[i] == '\n');
                } else if i < 2 {
                    assert(b[i - 1] == '\n');
                } else {
                    assert(c[i - 2] == '\n');
                }
            } else if n >= 10 {
                if i < 1 {
                    assert(e[i] == '\n');
                } else {
                    assert(c[i - 1] == '\n');
                }
            } else {
                assert(digit_text(n)[i] == '\n');
            }
        }
    }
}

fn push_text(s: &mut String, t: &str)
    ensures
        final(s)@ == old(s)@ + t@,
{
    s.append(t);
}

fn push_digit(s: &mut String, d: u8)
    requires
        d < 10,
    ensures
        final(s)@ == old(s)@ + digit_text(d),
{
    let t = if d == 0 { "0" }
    else if d == 1 { "1" }
    else if d == 2 { "2" }
    else if d == 3 { "3" }
    else if d == 4 { "4" }
    else if d == 5 { "5" }
    else if d == 6 { "6" }
    else if d == 7 { "7" }
    else if d == 8 { "8" }
    else { "9" };
    push_text(s, t);
}

fn push_dec(s: &mut String, n: u8)
    ensures
        final(s)@ == old(s)@ + dec_text(n),
{
    let ghost s0 = s@;
    if n >= 100 {
        push_digit(s, n / 100);
        push_digit(s, (n / 10) % 10);
        push_digit(s, n % 10);
        assert(s@ =~= s0 + dec_text(n));
    } else if n >= 10 {
        push_digit(s, n / 10);
        push_digit(s, n % 10);
        assert(s@ =~= s0 + dec_text(n));
    } else {
        push_digit(s, n);
    }
}

fn push_bool(s: &mut String, b: bool)
    ensures
        final(s)@ == old(s)@ + bool_text(b),
{
    if b {
        push_text(s, "true");
    } else {
        push_text(s, "false");
    }
}

impl X1mk1 {
    fn push_deck_line(&self, s: &mut String, m: usize)
        requires
            m < 6,
        ensures
            final(s)@ == old(s)@ + deck_line(*self, m as int),
    {
        let ghost s0 = s@;
        push_bool(s, self.button[m][0]);
        push_text(s, " ");
        push_dec(s, self.knob_value(m, 0));
        push_text(s, " ");
        push_dec(s, self.knob_value(m, 1));
        push_text(s, " ");
        push_bool(s, self.button[m][1]);
        push_text(s, "\n");
        assert(s@ =~= s0 + deck_line(*self, m as int));
    }

    fn push_encoder_line(&self, s: &mut String, m: usize)
        requires
            m < 6,
        ensures
            final(s)@ == old(s)@ + encoder_line(*self, m as int),
    {
        let ghost s0 = s@;
        push_dec(s, self.knob_value(m, 0));
        push_text(s, " ");
        push_dec(s, self.knob_value(m, 1));
        push_text(s, "\n");
        assert(s@ =~= s0 + encoder_line(*self, m as int));
    }

    fn push_button_line(&self, s: &mut String, m: usize, k: usize)
        requires
            m < 11,
            k == 3 || k == 4,
        ensures
            final(s)@ == old(s)@ + button_line(*self, m as int, k as int),
    {
        let ghost s0 = s@;
        push_bool(s, self.button[m][0]);
        push_text(s, " ");
        push_bool(s, self.button[m][1]);
        push_text(s, " ");
        push_bool(s, self.button[m][2]);
        let ghost s1 = s@;
        assert(s1 =~= s0 + (bool_text(self.button@[m as int]@[0]) + " "@ + bool_text(self.button@[m as int]@[1]) + " "@
            + bool_text(self.button@[m as int]@[2])));
        if k == 4 {
            push_text(s, " ");
            push_bool(s, self.button[m][3]);
        }
        push_text(s, "\n");
        assert(s@ =~= s0 + button_line(*self, m as int, k as int));
    }

    /// The text picture of the panel, row by row: the four deck rows, the
    /// browse section and the transport section, between two rules.
    pub fn render(&self) -> (text: String)
        ensures
            text@ == panel_text(*self),
    {
        let mut s = String::new();
        push_text(&mut s, "=================\n");
        self.push_deck_line(&mut s, 0);
        self.push_deck_line(&mut s, 1);
        self.push_deck_line(&mut s, 2);
        self.push_deck_line(&mut s, 3);
        push_text(&mut s, "\n");
        self.push_encoder_line(&mut s, 4);
        self.push_button_line(&mut s, 4, 3);
        self.push_button_line(&mut s, 5, 4);
        self.push_encoder_line(&mut s, 5);
        self.push_button_line(&mut s, 6, 3);
        push_text(&mut s, "\n");
        self.push_button_line(&mut s, 7, 4);
        self.push_button_line(&mut s, 8, 4);
        self.push_button_line(&mut s, 9, 4);
        self.push_button_line(&mut s, 10, 4);
        push_text(&mut s, "=================");
        s
    }

    /// A panel with no button pressed and every knob byte zero.
    pub fn new() -> (x: Self)
        ensures
            forall|m: int, n: int| 0 <= m < 11 && 0 <= n < 4 ==> !(#[trigger] x.button@[m]@[n]),
            forall|m: int, n: int| 0 <= m < 6 && 0 <= n < 2 ==> #[trigger] x.knob@[m]@[n]@ == seq!['\0', '\0'],
    {
        X1mk1 { button: [[false; 4]; 11], knob: [[['\0'; 2]; 2]; 6] }
    }

    fn set_knob_with_char(&mut self, m: usize, n: usize, c1: u8, c2: u8)
        requires
            m < 6,
            n < 2,
        ensures
            final(self).button == old(self).button,
            final(self).knob@[m as int]@[n as int]@ == seq![byte_char(c1), byte_char(c2)],
            forall|a: int, b: int| 0 <= a < 6 && 0 <= b < 2 && (a != m || b != n) ==>
                #[trigger] final(self).knob@[a]@[b] == old(self).knob@[a]@[b],
    {
        // Little endian.
        self.knob[m][n][0] = c1 as char;
        self.knob[m][n][1] = c2 as char;
    }

    fn set_encoder_with_char(&mut self, m: usize, n: usize, c: u8, pos: char)
        requires
            m < 6,
            n < 2,
        ensures
            final(self).button == old(self).button,
            pos == 's' || pos == 'e' ==> final(self).knob@[m as int]@[n as int]@ == seq![
                byte_char(nibble_at(c, pos)),
                old(self).knob@[m as int]@[n as int]@[1],
            ],
            !(pos == 's' || pos == 'e') ==> final(self).knob@[m as int]@[n as int] == old(self).knob@[m as int]@[n as int],
            forall|a: int, b: int| 0 <= a < 6 && 0 <= b < 2 && (a != m || b != n) ==>
                #[trigger] final(self).knob@[a]@[b] == old(self).knob@[a]@[b],
    {
        let mut binnum = [0u8; 8];
        hex2bin(c, &mut binnum);
        proof {
            lemma_bits_rebuild_byte(c);
            assert(bit_at(c, 0) <= 1 && bit_at(c, 1) <= 1 && bit_at(c, 2) <= 1 && bit_at(c, 3) <= 1);
            assert(bit_at(c, 4) <= 1 && bit_at(c, 5) <= 1 && bit_at(c, 6) <= 1 && bit_at(c, 7) <= 1);
        }
        match pos {
            's' => {
                self.knob[m][n][0] = (binnum[0] + binnum[1] * 2 + binnum[2] * 4 + binnum[3] * 8) as char;
            },
            'e' => {
                self.knob[m][n][0] = (binnum[4] + binnum[5] * 2 + binnum[6] * 4 + binnum[7] * 8) as char;
            },
            _ => {},
        }
    }

    /// Reads a state report into the panel: the buttons from the bits of
    /// bytes 1 to 5, the knobs from their byte pairs and the encoders from
    /// the nibbles of bytes 6 and 7.
    pub fn write_state(&mut self, buf: [u8; 24])
        ensures
            panel_after(*old(self), *final(self), buf@),
    {
        let mut binbyte: [[bool; 8]; 5] = [[false; 8]; 5];
        hex2bool(buf[1], &mut binbyte[0]);
        hex2bool(buf[2], &mut binbyte[1]);
        hex2bool(buf[3], &mut binbyte[2]);
        hex2bool(buf[4], &mut binbyte[3]);
        hex2bool(buf[5], &mut binbyte[4]);
        self.write_buttons(&binbyte, Ghost(buf@));
        let ghost mid = *self;
        self.write_knobs(&buf);
        assert forall|m: int, n: int| 0 <= m < 6 && 0 <= n < 2 implies #[trigger] knob_cell_after(
            *old(self),
            *self,
            buf@,
            m,
            n,
        ) by {
            assert(knob_cell_after(mid, *self, buf@, m, n));
        }
    }

    /// The MIDI value of the knob at row `m`, column `n`, read from the two
    /// bytes it holds.
    pub fn knob_value(&self, m: usize, n: usize) -> (v: u8)
        requires
            m < 6,
            n < 2,
        ensures
            v == knob_midi_value(self.knob@[m as int]@[n as int]@[0] as u8, self.knob@[m as int]@[n as int]@[1] as u8),
    {
        knob_to_midi(self.knob[m][n][0] as u8, self.knob[m][n][1] as u8)
    }

    /// Decides what follows a USB read into `buf`: any successful read is
    /// taken into the panel, and note 1 is played while the button at row
    /// 10, column 0 is down; a timeout is skipped; any other error stops.
    pub fn on_usb_read(&mut self, read: UsbRead, buf: [u8; 24]) -> (step: PanelStep)
        ensures
            match read {
                UsbRead::Data(_) => {
                    &&& panel_after(*old(self), *final(self), buf@)
                    &&& step matches PanelStep::Read(note) && note == if final(self).button@[10]@[0] {
                        Some(note_on_spec(1))
                    } else {
                        None
                    }
                },
                UsbRead::Failed(e) => {
                    &&& *final(self) == *old(self)
                    &&& if e == UsbError::Timeout {
                        step is Skip
                    } else {
                        step matches PanelStep::Stop(e2) && e2 == e
                    }
                },
            },
    {
        match read {
            UsbRead::Data(_) => {
                self.write_state(buf);
                if self.button[10][0] == true {
                    PanelStep::Read(Some(play_note(1)))
                } else {
                    PanelStep::Read(None)
                }
            },
            UsbRead::Failed(e) => {
                if e == UsbError::Timeout {
                    PanelStep::Skip
                } else {
                    PanelStep::Stop(e)
                }
            },
        }
    }

    #[verifier::rlimit(50)]
    fn write_buttons(&mut self, binbyte: &[[bool; 8]; 5], Ghost(buf): Ghost<Seq<u8>>)
        requires
            buf.len() == 24,
            forall|r: int, c: int| 0 <= r < 5 && 0 <= c < 8 ==> #[trigger] binbyte@[r]@[c] == (bit_at(buf[r + 1], c as u8) == 1),
        ensures
            final(self).knob == old(self).knob,
            forall|m: int, n: int| 0 <= m < 11 && 0 <= n < 4 ==> #[trigger] final(self).button@[m]@[n] == match button_source(m, n) {
                Some(src) => bit_at(buf[src.0 + 1], src.1) == 1,
                None => old(self).button@[m]@[n],
            },
    {
        self.button[0][0] = binbyte[3][4];
        self.button[0][1] = binbyte[4][0];
        self.button[1][0] = binbyte[3][5];
        self.button[1][1] = binbyte[4][1];
        self.button[2][0] = binbyte[3][6];
        self.button[2][1] = binbyte[4][2];
        self.button[3][0] = binbyte[3][7];
        self.button[3][1] = binbyte[4][3];

        self.button[4][0] = binbyte[3][0];
        self.button[4][1] = binbyte[4][4];
        self.button[4][2] = binbyte[3][1];
        self.button[5][0] = binbyte[1][1];
        self.button[5][1] = binbyte[1][0];
        self.button[5][2] = binbyte[4][6];
        self.button[5][3] = binbyte[4][5];
        self.button[6][0] = binbyte[3][2];
        self.button[6][1] = binbyte[4][7];
        self.button[6][2] = binbyte[3][3];

        self.button[7][0] = binbyte[2][4];
        self.button[7][1] = binbyte[0][3];
        self.button[7][2] = binbyte[1][4];
        self.button[7][3] = binbyte[2][3];
        self.button[8][0] = binbyte[0][2];
        self.button[8][1] = binbyte[2][5];
        self.button[8][2] = binbyte[2][2];
        self.button[8][3] = binbyte[1][5];
        self.button[9][0] = binbyte[0][1];
        self.button[9][1] = binbyte[2][6];
        self.button[9][2] = binbyte[2][1];
        self.button[9][3] = binbyte[1][6];
        self.button[10][0] = binbyte[0][0];
        self.button[10][1] = binbyte[2][7];
        self.button[10][2] = binbyte[2][0];
        self.button[10][3] = binbyte[1][7];

    }

    #[verifier::rlimit(50)]
    fn write_knobs(&mut self, buf: &[u8; 24])
        ensures
            final(self).button == old(self).button,
            forall|m: int, n: int| 0 <= m < 6 && 0 <= n < 2 ==> #[trigger] knob_cell_after(*old(self), *final(self), buf@, m, n),
    {
        self.set_knob_with_char(0, 0, buf[16], buf[17]);
        self.set_knob_with_char(0, 1, buf[12], buf[13]);
        self.set_knob_with_char(1, 0, buf[20], buf[21]);
        self.set_knob_with_char(1, 1, buf[10], buf[11]);
        self.set_knob_with_char(2, 0, buf[22], buf[23]);
        self.set_knob_with_char(2, 1, buf[8], buf[9]);
        self.set_knob_with_char(3, 0, buf[18], buf[19]);
        self.set_knob_with_char(3, 1, buf[14], buf[15]);

        self.set_encoder_with_char(4, 0, buf[6], 's');
        self.set_encoder_with_char(4, 1, buf[6], 'e');
        self.set_encoder_with_char(5, 0, buf[7], 's');
        self.set_encoder_with_char(5, 1, buf[7], 'e');
    }
}

} // verus!
