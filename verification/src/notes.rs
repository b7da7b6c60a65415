//! Names for notes and drum voices, as the piano roll and the step grid
//! print them.

use vstd::prelude::*;

use crate::keyboard;
use crate::text::{char_string, signed_decimal, signed_decimal_spec};

verus! {

/// The name of pitch class `pc` with its sharp.
pub open spec fn pitch_name(pc: int) -> Seq<char> {
    if pc == 0 { "C"@ }
    else if pc == 1 { "C#"@ }
    else if pc == 2 { "D"@ }
    else if pc == 3 { "D#"@ }
    else if pc == 4 { "E"@ }
    else if pc == 5 { "F"@ }
    else if pc == 6 { "F#"@ }
    else if pc == 7 { "G"@ }
    else if pc == 8 { "G#"@ }
    else if pc == 9 { "A"@ }
    else if pc == 10 { "A#"@ }
    else { "B"@ }
}

/// The octave a note byte is printed with. Middle C, 60, is in octave 4.
/// The byte is read as a signed number the way the piano roll always has,
/// so bytes past 127 count down from octave -1.
pub open spec fn octave_of(n: u8) -> int {
    if n < 128 { n as int / 12 - 1 } else { -((256 - n as int) / 12) - 1 }
}

/// A note's name: `C4`, `F#2`, `A-1`.
pub open spec fn note_name_spec(n: u8) -> Seq<char> {
    pitch_name(n as int % 12) + signed_decimal_spec(octave_of(n))
}

fn pitch_str(pc: u8) -> (s: &'static str)
    requires
        pc < 12,
    ensures
        s@ == pitch_name(pc as int),
{
    if pc == 0 { "C" }
    else if pc == 1 { "C#" }
    else if pc == 2 { "D" }
    else if pc == 3 { "D#" }
    else if pc == 4 { "E" }
    else if pc == 5 { "F" }
    else if pc == 6 { "F#" }
    else if pc == 7 { "G" }
    else if pc == 8 { "G#" }
    else if pc == 9 { "A" }
    else if pc == 10 { "A#" }
    else { "B" }
}

/// A note's name and octave, as the piano roll's key column prints it.
pub fn midi_note_name(n: u8) -> (name: String)
    ensures
        name@ == note_name_spec(n),
{
    let octave: i64 = if n < 128 { n as i64 / 12 - 1 } else { -((256 - n as i64) / 12) - 1 };
    let mut name = String::from_str(pitch_str(n % 12));
    let digits = signed_decimal(octave);
    name.append(digits.as_str());
    name
}

/// Whether a note is a black key.
pub fn is_black_key(n: u8) -> (b: bool)
    ensures
        b == keyboard::black(n as int),
{
    keyboard::is_black(n)
}

/// The two-letter General MIDI percussion name of a drum voice, where the
/// map has one.
pub open spec fn drum_name(note: u8) -> Option<Seq<char>> {
    if note == 35 { Some("BD"@) }
    else if note == 36 { Some("BD"@) }
    else if note == 37 { Some("RS"@) }
    else if note == 38 { Some("SD"@) }
    else if note == 39 { Some("CP"@) }
    else if note == 40 { Some("SD"@) }
    else if note == 41 { Some("LT"@) }
    else if note == 42 { Some("CH"@) }
    else if note == 43 { Some("LT"@) }
    else if note == 44 { Some("PH"@) }
    else if note == 45 { Some("MT"@) }
    else if note == 46 { Some("OH"@) }
    else if note == 47 { Some("MT"@) }
    else if note == 48 { Some("HT"@) }
    else if note == 49 { Some("CR"@) }
    else if note == 50 { Some("HT"@) }
    else if note == 51 { Some("RD"@) }
    else if note == 52 { Some("CY"@) }
    else if note == 53 { Some("RB"@) }
    else if note == 54 { Some("TM"@) }
    else if note == 55 { Some("SP"@) }
    else if note == 56 { Some("CB"@) }
    else if note == 57 { Some("CR"@) }
    else if note == 59 { Some("RD"@) }
    else if note == 60 { Some("BG"@) }
    else if note == 75 { Some("CL"@) }
    else { None }
}

/// **Drum voices read as the General MIDI percussion map names them.** The
/// kicks (35, 36) are `BD`, the side stick `RS`, the snares (38, 40) `SD`,
/// the hand clap `CP`, the hi-hats `CH`, `PH` and `OH`, the toms `LT`, `MT`
/// and `HT`, the cymbals `CR`, `RD`, `CY`, `SP`, the ride bell `RB`, the
/// tambourine `TM`, the cowbell `CB`, the bongo `BG` and the claves `CL`;
/// every other note has no name of its own.
pub proof fn lemma_general_midi_drums()
    ensures
        drum_name(35) == Some(seq!['B', 'D']),
        drum_name(36) == Some(seq!['B', 'D']),
        drum_name(37) == Some(seq!['R', 'S']),
        drum_name(38) == Some(seq!['S', 'D']),
        drum_name(39) == Some(seq!['C', 'P']),
        drum_name(40) == Some(seq!['S', 'D']),
        drum_name(41) == Some(seq!['L', 'T']),
        drum_name(42) == Some(seq!['C', 'H']),
        drum_name(43) == Some(seq!['L', 'T']),
        drum_name(44) == Some(seq!['P', 'H']),
        drum_name(45) == Some(seq!['M', 'T']),
        drum_name(46) == Some(seq!['O', 'H']),
        drum_name(47) == Some(seq!['M', 'T']),
        drum_name(48) == Some(seq!['H', 'T']),
        drum_name(49) == Some(seq!['C', 'R']),
        drum_name(50) == Some(seq!['H', 'T']),
        drum_name(51) == Some(seq!['R', 'D']),
        drum_name(52) == Some(seq!['C', 'Y']),
        drum_name(53) == Some(seq!['R', 'B']),
        drum_name(54) == Some(seq!['T', 'M']),
        drum_name(55) == Some(seq!['S', 'P']),
        drum_name(56) == Some(seq!['C', 'B']),
        drum_name(57) == Some(seq!['C', 'R']),
        drum_name(59) == Some(seq!['R', 'D']),
        drum_name(60) == Some(seq!['B', 'G']),
        drum_name(75) == Some(seq!['C', 'L']),
        forall|n: u8| (n < 35 || n == 58 || 61 <= n <= 74 || n > 75) ==> (#[trigger] drum_name(n)) is None,
{
    reveal_strlit("BD");
    reveal_strlit("BG");
    reveal_strlit("CB");
    reveal_strlit("CH");
    reveal_strlit("CL");
    reveal_strlit("CP");
    reveal_strlit("CR");
    reveal_strlit("CY");
    reveal_strlit("HT");
    reveal_strlit("LT");
    reveal_strlit("MT");
    reveal_strlit("OH");
    reveal_strlit("PH");
    reveal_strlit("RB");
    reveal_strlit("RD");
    reveal_strlit("RS");
    reveal_strlit("SD");
    reveal_strlit("SP");
    reveal_strlit("TM");
}

fn drum_str(note: u8) -> (s: Option<&'static str>)
    ensures
        match drum_name(note) { Some(n) => s.is_some() && s.unwrap()@ == n, None => s.is_none() },
{
    if note == 35 { Some("BD") }
    else if note == 36 { Some("BD") }
    else if note == 37 { Some("RS") }
    else if note == 38 { Some("SD") }
    else if note == 39 { Some("CP") }
    else if note == 40 { Some("SD") }
    else if note == 41 { Some("LT") }
    else if note == 42 { Some("CH") }
    else if note == 43 { Some("LT") }
    else if note == 44 { Some("PH") }
    else if note == 45 { Some("MT") }
    else if note == 46 { Some("OH") }
    else if note == 47 { Some("MT") }
    else if note == 48 { Some("HT") }
    else if note == 49 { Some("CR") }
    else if note == 50 { Some("HT") }
    else if note == 51 { Some("RD") }
    else if note == 52 { Some("CY") }
    else if note == 53 { Some("RB") }
    else if note == 54 { Some("TM") }
    else if note == 55 { Some("SP") }
    else if note == 56 { Some("CB") }
    else if note == 57 { Some("CR") }
    else if note == 59 { Some("RD") }
    else if note == 60 { Some("BG") }
    else if note == 75 { Some("CL") }
    else { None }
}

/// The short name of a drum voice, for a lane pinned to one: `BD`, `SD`,
/// `CH`, and the note number for anything outside the map.
pub fn drum_label(note: u8) -> (label: String)
    ensures
        label@ == (match drum_name(note) {
            Some(name) => name,
            None => crate::text::decimal_spec(note as nat),
        }),
{
    match drum_str(note) {
        Some(name) => String::from_str(name),
        None => crate::text::decimal(note as u64),
    }
}

/// How many pattern slots a sequencer has.
pub const SLOTS: u8 = 8;

/// The letter a pattern slot is called by, `A` to `H`; anything past the
/// last slot is called by the last letter.
pub open spec fn slot_letter_spec(slot: u8) -> char {
    (65 + (if slot < SLOTS { slot as int } else { SLOTS as int - 1 })) as char
}

pub fn slot_letter(slot: u8) -> (c: char)
    ensures
        c as int == 'A' as int + (if slot < SLOTS { slot as int } else { SLOTS as int - 1 }),
        c == slot_letter_spec(slot),
{
    let s = if slot < SLOTS { slot } else { SLOTS - 1 };
    if s == 0 { 'A' }
    else if s == 1 { 'B' }
    else if s == 2 { 'C' }
    else if s == 3 { 'D' }
    else if s == 4 { 'E' }
    else if s == 5 { 'F' }
    else if s == 6 { 'G' }
    else { 'H' }
}

} // verus!
