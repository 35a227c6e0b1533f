use vstd::prelude::*;

verus! {

/// Bit `i` (0 = least significant) of `hex`, as 0 or 1.
pub open spec fn bit_at(hex: u8, i: u8) -> u8 {
    (hex >> i) & 1
}

/// Writes the eight bits of `hex` into `bin`, least significant first,
/// as booleans.
pub fn hex2bool(hex: u8, bin: &mut [bool; 8])
    ensures
        forall|i: int| 0 <= i < 8 ==> final(bin)@[i] == (bit_at(hex, i as u8) == 1),
{
    let mut i: u8 = 0;
    while i < 8
        invariant
            i <= 8,
            forall|k: int| 0 <= k < i ==> bin@[k] == (bit_at(hex, k as u8) == 1),
        decreases 8 - i,
    {
        let b = ((hex >> i) & 1) != 0;
        assert(b == (bit_at(hex, i) == 1)) by (bit_vector)
            requires
                b == (((hex >> i) & 1) != 0),
        ;
        bin[i as usize] = b;
        i = i + 1;
    }
}


/// Writes the eight bits of `hex` into `bin`, least significant first,
/// as the numbers 0 and 1.
pub fn hex2bin(hex: u8, bin: &mut [u8; 8])
    ensures
        forall|i: int| 0 <= i < 8 ==> final(bin)@[i] == bit_at(hex, i as u8),
{
    let mut i: u8 = 0;
    while i < 8
        invariant
            i <= 8,
            forall|k: int| 0 <= k < i ==> bin@[k] == bit_at(hex, k as u8),
        decreases 8 - i,
    {
        bin[i as usize] = (hex >> i) & 1;
        i = i + 1;
    }
}

/// The raw knob position carried by a high byte `i` and a low byte `j`.
pub open spec fn knob_raw(i: u8, j: u8) -> int {
    i * 256 + j
}

/// The MIDI value of a knob position: `raw * 127 / 4095` rounded to the
/// nearest integer (the quotient is never exactly halfway, as 4095 is odd),
/// capped at 255.
pub open spec fn knob_midi_value(i: u8, j: u8) -> u8 {
    let scaled = (2 * 127 * knob_raw(i, j) + 4095) / (2 * 4095int);
    if scaled > 255 {
        255
    } else {
        scaled as u8
    }
}

/// Scales the 12-bit knob position held in the big-endian byte pair
/// `(i, j)` to the MIDI range 0..=127, rounding to the nearest value.
pub fn knob_to_midi(i: u8, j: u8) -> (r: u8)
    ensures
        r == knob_midi_value(i, j),
{
    let combined_value: u16 = ((i as u16) << 8) | j as u16;
    assert(combined_value == i * 256 + j) by (bit_vector)
        requires
            combined_value == ((i as u16) << 8) | j as u16,
    ;
    let scaled: u32 = (254 * (combined_value as u32) + 4095) / 8190;
    if scaled > 255 {
        255
    } else {
        scaled as u8
    }
}

/// The eight bits of a byte, weighted by their place values, add up to the
/// byte; the low four bits give `hex % 16` and the high four `hex / 16`.
pub proof fn lemma_bits_rebuild_byte(hex: u8)
    ensures
        bit_at(hex, 0) + 2 * bit_at(hex, 1) + 4 * bit_at(hex, 2) + 8 * bit_at(hex, 3) == hex % 16,
        bit_at(hex, 4) + 2 * bit_at(hex, 5) + 4 * bit_at(hex, 6) + 8 * bit_at(hex, 7) == hex / 16,
        forall|i: u8| i < 8 ==> #[trigger] bit_at(hex, i) <= 1,
{
    assert(((hex >> 0u8) & 1) + 2 * ((hex >> 1u8) & 1) + 4 * ((hex >> 2u8) & 1) + 8 * ((hex >> 3u8) & 1)
        == hex % 16 && ((hex >> 4u8) & 1) + 2 * ((hex >> 5u8) & 1) + 4 * ((hex >> 6u8) & 1) + 8 * ((
    hex >> 7u8) & 1) == hex / 16) by (bit_vector);
    assert forall|i: u8| i < 8 implies #[trigger] bit_at(hex, i) <= 1 by {
        assert((hex >> i) & 1 <= 1) by (bit_vector);
    }
}

/// The MIDI value of a knob is the nearest integer to `raw * 127 / 4095`,
/// where `raw = i * 256 + j`, when that is below 255, and 255 otherwise:
/// below 255 it lies within one half of `raw * 127 / 4095`.
pub proof fn lemma_knob_to_midi_nearest(i: u8, j: u8)
    ensures
        ({
            let raw = i * 256 + j;
            let r = knob_midi_value(i, j) as int;
            &&& r < 255 ==> 4095 * (2 * r - 1) <= 254 * raw && 254 * raw < 4095 * (2 * r + 1)
            &&& (r == 255 <==> 254 * raw >= 4095 * (2 * 255 - 1))
        }),
{
    let raw = i * 256 + j;
    let t = 254 * raw + 4095;
    let q = t / 8190;
    assert(8190 * q <= t < 8190 * q + 8190) by (nonlinear_arith)
        requires
            q == t / 8190,
            t >= 0,
    ;
}

/// A knob turned further never reads a smaller MIDI value.
pub proof fn lemma_knob_to_midi_monotone(i1: u8, j1: u8, i2: u8, j2: u8)
    requires
        knob_raw(i1, j1) <= knob_raw(i2, j2),
    ensures
        knob_midi_value(i1, j1) <= knob_midi_value(i2, j2),
{
    let r1 = knob_raw(i1, j1);
    let r2 = knob_raw(i2, j2);
    assert(0 <= r1);
    let a = 254 * r1 + 4095;
    let b = 254 * r2 + 4095;
    assert(a / 8190 <= b / 8190) by (nonlinear_arith)
        requires
            0 <= a <= b,
    ;
}

/// Over the knob's 12-bit range 0..=0xFFF the MIDI value stays within
/// 0..=127, with the two ends mapped to 0 and 127.
pub proof fn lemma_knob_to_midi_range(i: u8, j: u8)
    requires
        knob_raw(i, j) <= 0xFFF,
    ensures
        knob_midi_value(i, j) <= 127,
        knob_raw(i, j) == 0 ==> knob_midi_value(i, j) == 0,
        knob_raw(i, j) == 0xFFF ==> knob_midi_value(i, j) == 127,
{
    let r = knob_raw(i, j);
    assert(0 <= r <= 4095);
    let a = 254 * r + 4095;
    assert(a / 8190 <= 127) by (nonlinear_arith)
        requires
            0 <= a <= 254 * 4095 + 4095,
    ;
}


/// `part` is a contiguous part of `s`.
pub open spec fn is_part_of(part: Seq<char>, s: Seq<char>) -> bool {
    exists|a: int, b: int| 0 <= a <= b <= s.len() && part == s.subrange(a, b)
}

/// What `str::trim` returns for a string.
pub uninterp spec fn str_trim(s: Seq<char>) -> Seq<char>;

/// What `str::to_uppercase` returns for a string.
pub uninterp spec fn str_to_uppercase(s: Seq<char>) -> Seq<char>;

/// Calls `str::trim`: the result is `str_trim` of the input, and (as the
/// documentation says it removes leading and trailing whitespace) a
/// contiguous part of it. Which characters count as whitespace is left to
/// the name.
#[verifier::external_body]
fn trim_str(s: &str) -> (r: &str)
    ensures
        r@ == str_trim(s@),
        is_part_of(r@, s@),
{
    s.trim()
}

/// Calls `str::to_uppercase`: the result is `str_to_uppercase` of the
/// input; the Unicode case mapping is left to the name.
#[verifier::external_body]
fn to_uppercase_str(s: &str) -> (r: String)
    ensures
        r@ == str_to_uppercase(s@),
{
    s.to_uppercase()
}

/// The form in which a serial number read from the device names the
/// controller: without surrounding whitespace, in upper case.
pub fn normalize_serial(raw: &str) -> (s: String)
    ensures
        s@ == str_to_uppercase(str_trim(raw@)),
        is_part_of(str_trim(raw@), raw@),
{
    let trimmed = trim_str(raw);
    to_uppercase_str(trimmed)
}

} // verus!
