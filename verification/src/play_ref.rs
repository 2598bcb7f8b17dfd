//! QBASIC `PLAY` strings: the sequence catalog and the command parser.
//!
//! The parser turns a `PLAY` string into note and rest steps that carry
//! integer pitch (a MIDI number), length, dot count, tempo and articulation.
//! Turning those steps into seconds and hertz is left to the caller.

use vstd::prelude::*;
use vstd::string::{StringExecFns, StringSliceAdditionalSpecFns};
use crate::text::{decimal_chars, push_char, push_decimal, push_signed_decimal, signed_decimal_chars};

verus! {

/// Lowest octave `O` and `<` may select.
pub const MIN_PLAY_OCTAVE: i32 = 0;
/// Highest octave `O` and `>` may select.
pub const MAX_PLAY_OCTAVE: i32 = 6;
/// Lowest note number `N` accepts for a sounding note.
pub const MIN_NOTE_NUMBER: i32 = 1;
/// Highest note number `N` accepts.
pub const MAX_NOTE_NUMBER: i32 = 84;
/// Offset between a `PLAY` octave and the MIDI octave numbering.
pub const PLAY_OCTAVE_MIDI_OFFSET: i32 = 3;

/// Articulation selected by `MS`, `MN` and `ML`.
#[derive(Debug, Clone, Copy, PartialEq, Eq, Structural)]
pub enum NoteMode {
    Staccato,
    Normal,
    Legato,
}

/// The part of a step that sounds, in eighths: staccato 6, normal 7,
/// legato 8.
pub open spec fn note_on_eighths_spec(mode: NoteMode) -> u32 {
    match mode {
        NoteMode::Staccato => 6,
        NoteMode::Normal => 7,
        NoteMode::Legato => 8,
    }
}

impl NoteMode {
    /// How many eighths of a step the note sounds; the rest is silence.
    pub fn note_on_eighths(self) -> (r: u32)
        ensures
            r == note_on_eighths_spec(self),
    {
        match self {
            NoteMode::Staccato => 6,
            NoteMode::Normal => 7,
            NoteMode::Legato => 8,
        }
    }
}

/// A named `PLAY` string of the game's sound catalog.
#[derive(Debug, Clone, Copy)]
pub struct NamedPlaySequence {
    pub name: &'static str,
    pub sequence: &'static str,
}

/// Why a `PLAY` string, or a catalog lookup, was refused.
#[allow(inconsistent_fields)]
#[derive(Debug, Clone, PartialEq, Eq)]
pub enum PlayTraceError {
    UnknownSequenceName(String),
    UnsupportedToken { token: char, position: usize },
    InvalidModeToken { token: char, position: usize },
    MissingNumber { token: char, position: usize },
    InvalidTempo { value: u32, position: usize },
    InvalidLength { token: char, value: u32, position: usize },
    OctaveOutOfRange { value: i32, position: usize },
    NoteNumberOutOfRange { value: i32, position: usize },
}

/// One timed step of a parsed `PLAY` string.
///
/// `note_index` counts the steps from zero. A step lasts one `length`-th of a
/// whole note at `tempo` quarter notes per minute, lengthened by half of the
/// previous addition for each of its `dots`.
#[derive(Debug, Clone, Copy, PartialEq, Eq, Structural)]
pub enum PlayStep {
    Note { note_index: usize, midi: i32, length: u32, dots: usize, tempo: u32, mode: NoteMode },
    Rest { note_index: usize, length: u32, dots: usize, tempo: u32 },
}

/// The settings that `PLAY` commands change as a string is read.
#[derive(Debug, Clone, Copy, PartialEq, Eq, Structural)]
pub struct PlayState {
    pub tempo: u32,
    pub octave: i32,
    pub default_length: u32,
    pub note_mode: NoteMode,
}

/// What reading a whole `PLAY` string comes to.
pub enum PlayOutcome {
    /// The string was read to its end.
    Parsed(Seq<PlayStep>),
    /// The string was refused at the first bad command.
    Rejected(PlayTraceError),
    /// A number in a command does not fit in 32 bits.
    Overflow,
}

/// The result of reading one command.
pub enum TokenOutcome {
    Next { cursor: int, state: PlayState, step: Option<PlayStep> },
    Fail(PlayTraceError),
    Overflow,
}

/// The result of reading an optional run of decimal digits.
pub enum NumberScan {
    Missing,
    Value(u32, int),
    TooLarge,
}

// ---------------------------------------------------------------------------
// Byte classes

pub open spec fn is_digit(b: u8) -> bool {
    48 <= b <= 57
}

/// ASCII upper-casing of a byte; other bytes stay as they are.
pub open spec fn upper(b: u8) -> u8 {
    if 97 <= b <= 122 {
        (b - 32) as u8
    } else {
        b
    }
}

/// Space, tab, line feed, form feed and carriage return.
pub open spec fn is_ascii_whitespace(b: u8) -> bool {
    b == 32 || b == 9 || b == 10 || b == 12 || b == 13
}

// ---------------------------------------------------------------------------
// Numbers

/// The end of the run of digits that starts at `start`.
pub open spec fn digit_run_end(bytes: Seq<u8>, start: int) -> int
    decreases bytes.len() - start,
{
    if start < 0 || start >= bytes.len() || !is_digit(bytes[start]) {
        start
    } else {
        digit_run_end(bytes, start + 1)
    }
}

/// The decimal value of `bytes[start..end]`.
pub open spec fn digits_value(bytes: Seq<u8>, start: int, end: int) -> nat
    decreases end - start,
{
    if end <= start {
        0
    } else {
        digits_value(bytes, start, end - 1) * 10 + (bytes[end - 1] - 48) as nat
    }
}

/// The number written at `start`, if any.
pub open spec fn number_at(bytes: Seq<u8>, start: int) -> NumberScan {
    let end = digit_run_end(bytes, start);
    if end == start {
        NumberScan::Missing
    } else if digits_value(bytes, start, end) > u32::MAX {
        NumberScan::TooLarge
    } else {
        NumberScan::Value(digits_value(bytes, start, end) as u32, end)
    }
}

/// The number of `.` bytes from `start` on.
pub open spec fn dot_count(bytes: Seq<u8>, start: int) -> nat
    decreases bytes.len() - start,
{
    if start < 0 || start >= bytes.len() || bytes[start] != 46 {
        0
    } else {
        1 + dot_count(bytes, start + 1)
    }
}

// ---------------------------------------------------------------------------
// Pitch

/// MIDI number of `semitone` steps above C in a `PLAY` octave.
pub open spec fn note_midi(octave: int, semitone: int) -> int {
    12 * (octave + PLAY_OCTAVE_MIDI_OFFSET) + semitone
}

/// Semitone of a note letter above C.
pub open spec fn letter_semitone(up: u8) -> int {
    if up == 67 {
        0
    } else if up == 68 {
        2
    } else if up == 69 {
        4
    } else if up == 70 {
        5
    } else if up == 71 {
        7
    } else if up == 65 {
        9
    } else {
        11
    }
}

pub open spec fn is_note_letter(up: u8) -> bool {
    65 <= up <= 71
}

// ---------------------------------------------------------------------------
// Commands

pub open spec fn initial_play_state() -> PlayState {
    PlayState { tempo: 120, octave: 4, default_length: 4, note_mode: NoteMode::Normal }
}

/// A step that lasts `length` with `dots`, or the refusal of a zero length;
/// with no number the default length is taken.
pub open spec fn length_at(bytes: Seq<u8>, start: int, default_length: u32, token: char, position: int)
    -> (Result<(u32, int), PlayTraceError>, bool) {
    match number_at(bytes, start) {
        NumberScan::Missing => (Ok((default_length, start)), false),
        NumberScan::TooLarge => (Ok((default_length, start)), true),
        NumberScan::Value(n, end) => if n == 0 {
            (Err(PlayTraceError::InvalidLength { token, value: 0, position: position as usize }), false)
        } else {
            (Ok((n, end)), false)
        },
    }
}

/// Reads the command at `cursor`; `count` steps were made before it.
pub open spec fn play_token(bytes: Seq<u8>, cursor: int, st: PlayState, count: nat) -> TokenOutcome {
    let b = bytes[cursor];
    let token = b as char;
    let up = upper(b);
    let pos = cursor as usize;
    if is_ascii_whitespace(up) {
        TokenOutcome::Next { cursor: cursor + 1, state: st, step: None }
    } else if up == 77 {
        // M
        if cursor + 1 >= bytes.len() {
            TokenOutcome::Fail(PlayTraceError::MissingNumber { token, position: pos })
        } else {
            let m = upper(bytes[cursor + 1]);
            if m == 83 {
                TokenOutcome::Next { cursor: cursor + 2, state: PlayState { note_mode: NoteMode::Staccato, ..st }, step: None }
            } else if m == 78 {
                TokenOutcome::Next { cursor: cursor + 2, state: PlayState { note_mode: NoteMode::Normal, ..st }, step: None }
            } else if m == 76 {
                TokenOutcome::Next { cursor: cursor + 2, state: PlayState { note_mode: NoteMode::Legato, ..st }, step: None }
            } else if m == 66 || m == 70 {
                TokenOutcome::Next { cursor: cursor + 2, state: st, step: None }
            } else {
                TokenOutcome::Fail(PlayTraceError::InvalidModeToken {
                    token: bytes[cursor + 1] as char,
                    position: (cursor + 1) as usize,
                })
            }
        }
    } else if up == 84 || up == 79 || up == 76 || up == 78 {
        // T, O, L, N
        match number_at(bytes, cursor + 1) {
            NumberScan::Missing => TokenOutcome::Fail(PlayTraceError::MissingNumber { token, position: pos }),
            NumberScan::TooLarge => TokenOutcome::Overflow,
            NumberScan::Value(n, end) => {
                if up == 84 {
                    if n == 0 {
                        TokenOutcome::Fail(PlayTraceError::InvalidTempo { value: 0, position: pos })
                    } else {
                        TokenOutcome::Next { cursor: end, state: PlayState { tempo: n, ..st }, step: None }
                    }
                } else if up == 79 {
                    let octave = n as i32;
                    if MIN_PLAY_OCTAVE <= octave <= MAX_PLAY_OCTAVE {
                        TokenOutcome::Next { cursor: end, state: PlayState { octave, ..st }, step: None }
                    } else {
                        TokenOutcome::Fail(PlayTraceError::OctaveOutOfRange { value: octave, position: pos })
                    }
                } else if up == 76 {
                    if n == 0 {
                        TokenOutcome::Fail(PlayTraceError::InvalidLength { token, value: 0, position: pos })
                    } else {
                        TokenOutcome::Next { cursor: end, state: PlayState { default_length: n, ..st }, step: None }
                    }
                } else if n == 0 {
                    TokenOutcome::Next {
                        cursor: end,
                        state: st,
                        step: Some(PlayStep::Rest { note_index: count as usize, length: st.default_length, dots: 0, tempo: st.tempo }),
                    }
                } else {
                    let number = n as i32;
                    if MIN_NOTE_NUMBER <= number <= MAX_NOTE_NUMBER {
                        TokenOutcome::Next {
                            cursor: end,
                            state: st,
                            step: Some(PlayStep::Note {
                                note_index: count as usize,
                                midi: note_midi((number - 1) / 12, (number - 1) % 12) as i32,
                                length: st.default_length,
                                dots: 0,
                                tempo: st.tempo,
                                mode: st.note_mode,
                            }),
                        }
                    } else {
                        TokenOutcome::Fail(PlayTraceError::NoteNumberOutOfRange { value: number, position: pos })
                    }
                }
            }
        }
    } else if up == 60 {
        // <
        if st.octave - 1 < MIN_PLAY_OCTAVE {
            TokenOutcome::Fail(PlayTraceError::OctaveOutOfRange { value: (st.octave - 1) as i32, position: pos })
        } else {
            TokenOutcome::Next { cursor: cursor + 1, state: PlayState { octave: (st.octave - 1) as i32, ..st }, step: None }
        }
    } else if up == 62 {
        // >
        if st.octave + 1 > MAX_PLAY_OCTAVE {
            TokenOutcome::Fail(PlayTraceError::OctaveOutOfRange { value: (st.octave + 1) as i32, position: pos })
        } else {
            TokenOutcome::Next { cursor: cursor + 1, state: PlayState { octave: (st.octave + 1) as i32, ..st }, step: None }
        }
    } else if up == 80 || is_note_letter(up) {
        // P, or a note letter with an optional sharp or flat
        let modifier = if up != 80 && cursor + 1 < bytes.len() {
            let m = bytes[cursor + 1];
            if m == 35 || m == 43 { 1int } else if m == 45 { -1int } else { 0int }
        } else {
            0int
        };
        let after = if modifier != 0 { cursor + 2 } else { cursor + 1 };
        let (len_result, too_large) = length_at(bytes, after, st.default_length, token, cursor);
        if too_large {
            TokenOutcome::Overflow
        } else {
            match len_result {
                Err(e) => TokenOutcome::Fail(e),
                Ok((length, end)) => {
                    let dots = dot_count(bytes, end);
                    let step = if up == 80 {
                        PlayStep::Rest { note_index: count as usize, length, dots: dots as usize, tempo: st.tempo }
                    } else {
                        PlayStep::Note {
                            note_index: count as usize,
                            midi: note_midi(st.octave as int, letter_semitone(up) + modifier) as i32,
                            length,
                            dots: dots as usize,
                            tempo: st.tempo,
                            mode: st.note_mode,
                        }
                    };
                    TokenOutcome::Next { cursor: end + dots, state: st, step: Some(step) }
                }
            }
        }
    } else {
        TokenOutcome::Fail(PlayTraceError::UnsupportedToken { token, position: pos })
    }
}

/// Reads the commands from `cursor` to the end, after `steps` were made.
pub open spec fn play_run(bytes: Seq<u8>, cursor: int, st: PlayState, steps: Seq<PlayStep>) -> PlayOutcome
    decreases bytes.len() - cursor,
{
    if cursor < 0 || cursor >= bytes.len() {
        PlayOutcome::Parsed(steps)
    } else {
        match play_token(bytes, cursor, st, steps.len()) {
            TokenOutcome::Next { cursor: next, state, step } => {
                if next <= cursor || next > bytes.len() {
                    PlayOutcome::Parsed(steps)
                } else {
                    let steps2 = match step {
                        Some(s) => steps.push(s),
                        None => steps,
                    };
                    play_run(bytes, next, state, steps2)
                }
            }
            TokenOutcome::Fail(e) => PlayOutcome::Rejected(e),
            TokenOutcome::Overflow => PlayOutcome::Overflow,
        }
    }
}

/// What reading the bytes of a `PLAY` string from its start comes to.
pub open spec fn play_outcome(bytes: Seq<u8>) -> PlayOutcome {
    play_run(bytes, 0, initial_play_state(), Seq::empty())
}

/// The numbers of `sequence` that the parser reads all fit in 32 bits.
pub open spec fn play_numbers_fit(sequence: &str) -> bool {
    !(play_outcome(sequence.spec_bytes()) is Overflow)
}

// ---------------------------------------------------------------------------
// Lemmas

pub(crate) proof fn lemma_digit_run_end_bounds(bytes: Seq<u8>, start: int)
    requires
        0 <= start <= bytes.len(),
    ensures
        start <= digit_run_end(bytes, start) <= bytes.len(),
        forall|k: int| start <= k < digit_run_end(bytes, start) ==> is_digit(#[trigger] bytes[k]),
        digit_run_end(bytes, start) < bytes.len() ==> !is_digit(bytes[digit_run_end(bytes, start)]),
    decreases bytes.len() - start,
{
    if start < bytes.len() && is_digit(bytes[start]) {
        lemma_digit_run_end_bounds(bytes, start + 1);
    }
}

proof fn lemma_digits_value_monotone(bytes: Seq<u8>, start: int, k: int, end: int)
    requires
        start <= k <= end,
        forall|j: int| start <= j < end ==> is_digit(#[trigger] bytes[j]),
    ensures
        digits_value(bytes, start, k) <= digits_value(bytes, start, end),
    decreases end - k,
{
    if k < end {
        lemma_digits_value_monotone(bytes, start, k, end - 1);
    }
}

proof fn lemma_dot_count_bounds(bytes: Seq<u8>, start: int)
    requires
        0 <= start <= bytes.len(),
    ensures
        start + dot_count(bytes, start) <= bytes.len(),
    decreases bytes.len() - start,
{
    if start < bytes.len() && bytes[start] == 46 {
        lemma_dot_count_bounds(bytes, start + 1);
    }
}

// ---------------------------------------------------------------------------
// Laws of the parser

/// A step made as the `i`-th of a string: it carries its index, a positive
/// length and tempo, and a note's pitch lies between MIDI 35 (B below the
/// lowest C) and MIDI 120.
pub open spec fn step_well_formed(step: PlayStep, i: int) -> bool {
    match step {
        PlayStep::Note { note_index, midi, length, tempo, .. } => note_index == i && length >= 1 && tempo >= 1
            && 35 <= midi <= 120,
        PlayStep::Rest { note_index, length, tempo, .. } => note_index == i && length >= 1 && tempo >= 1,
    }
}

/// The settings keep a positive tempo and length and an octave from 0 to 6.
pub open spec fn state_well_formed(st: PlayState) -> bool {
    st.tempo >= 1 && st.default_length >= 1 && MIN_PLAY_OCTAVE <= st.octave <= MAX_PLAY_OCTAVE
}

proof fn lemma_play_token_well_formed(bytes: Seq<u8>, cursor: int, st: PlayState, count: nat)
    requires
        0 <= cursor < bytes.len(),
        state_well_formed(st),
        count <= usize::MAX,
    ensures
        play_token(bytes, cursor, st, count) matches TokenOutcome::Next { state, step, .. } ==> {
            &&& state_well_formed(state)
            &&& step matches Some(s) ==> step_well_formed(s, count as int)
        },
{
    let b = bytes[cursor];
    let up = upper(b);
    if up == 84 || up == 79 || up == 76 || up == 78 {
        match number_at(bytes, cursor + 1) {
            NumberScan::Value(n, end) => {
                if up == 78 && n != 0 {
                    let number = n as i32;
                    if MIN_NOTE_NUMBER <= number <= MAX_NOTE_NUMBER {
                        let index = number - 1;
                        assert(index == 12 * (index / 12) + index % 12);
                        assert(0 <= index % 12 < 12);
                    }
                }
            }
            _ => {}
        }
    }
}

proof fn lemma_play_run_well_formed(bytes: Seq<u8>, cursor: int, st: PlayState, steps: Seq<PlayStep>)
    requires
        state_well_formed(st),
        forall|i: int| 0 <= i < steps.len() ==> step_well_formed(#[trigger] steps[i], i),
        steps.len() <= bytes.len(),
        0 <= cursor,
        steps.len() <= cursor || cursor >= bytes.len(),
        bytes.len() <= usize::MAX,
    ensures
        play_run(bytes, cursor, st, steps) matches PlayOutcome::Parsed(out) ==> forall|i: int|
            0 <= i < out.len() ==> step_well_formed(#[trigger] out[i], i),
    decreases bytes.len() - cursor,
{
    if 0 <= cursor < bytes.len() {
        lemma_play_token_well_formed(bytes, cursor, st, steps.len());
        match play_token(bytes, cursor, st, steps.len()) {
            TokenOutcome::Next { cursor: next, state, step } => {
                if next > cursor && next <= bytes.len() {
                    let steps2 = match step {
                        Some(x) => steps.push(x),
                        None => steps,
                    };
                    assert forall|i: int| 0 <= i < steps2.len() implies step_well_formed(#[trigger] steps2[i], i) by {
                        if i < steps.len() {
                            assert(steps2[i] == steps[i]);
                        }
                    }
                    lemma_play_run_well_formed(bytes, next, state, steps2);
                }
            }
            _ => {}
        }
    }
}

/// Every step of a parsed string carries its own index, a positive length
/// and tempo, and, for a note, a pitch from MIDI 35 to 120; so every step
/// lasts a positive time.
pub proof fn lemma_parsed_steps_well_formed(bytes: Seq<u8>)
    requires
        bytes.len() <= usize::MAX,
    ensures
        play_outcome(bytes) matches PlayOutcome::Parsed(steps) ==> forall|i: int|
            0 <= i < steps.len() ==> step_well_formed(#[trigger] steps[i], i),
{
    lemma_play_run_well_formed(bytes, 0, initial_play_state(), Seq::empty());
}

/// Each note letter sounds its semitone above the C of the current octave:
/// C 0, D 2, E 4, F 5, G 7, A 9 and B 11, one higher for a following `#` or
/// `+` and one lower for a following `-`. Octave 2's C is MIDI 60 (middle C),
/// so its A is MIDI 69 (440 Hz); each octave is 12 higher than the one below.
pub proof fn lemma_note_letter_pitch(bytes: Seq<u8>, cursor: int, st: PlayState, count: nat)
    requires
        0 <= cursor < bytes.len(),
        state_well_formed(st),
        65 <= upper(bytes[cursor]) <= 71,
    ensures
        ({
            let up = upper(bytes[cursor]);
            let shift = if cursor + 1 < bytes.len() && (bytes[cursor + 1] == 35 || bytes[cursor + 1] == 43) {
                1int
            } else if cursor + 1 < bytes.len() && bytes[cursor + 1] == 45 {
                -1int
            } else {
                0int
            };
            let c = 60 + 12 * (st.octave - 2) + shift;
            play_token(bytes, cursor, st, count) matches TokenOutcome::Next { step, .. } ==> {
                &&& step matches Some(PlayStep::Note { midi, .. })
                &&& up == 67 ==> midi == c
                &&& up == 68 ==> midi == c + 2
                &&& up == 69 ==> midi == c + 4
                &&& up == 70 ==> midi == c + 5
                &&& up == 71 ==> midi == c + 7
                &&& up == 65 ==> midi == c + 9
                &&& up == 66 ==> midi == c + 11
            }
        }),
{
}

/// What each setting command does at `cursor`, with `n` the number written
/// right after its letter. `O n` selects octave `n` when it is at most 6 and
/// is refused otherwise; `<` and `>` move one octave down or up, refused
/// below octave 0 or above octave 6; `T n` sets the tempo to `n` and `L n`
/// the default length to `n`, each refused for 0; `N n` plays note number
/// `n` from 1 to 84 at MIDI `n + 35` (so `N25` is middle C, like `O2C`),
/// rests for `N0`, and is refused above 84; `MS`, `MN` and `ML` select
/// staccato, normal and legato articulation; a setting letter with no number
/// after it is refused. Whitespace is skipped.
pub proof fn lemma_play_commands(bytes: Seq<u8>, cursor: int, st: PlayState, count: nat)
    requires
        0 <= cursor < bytes.len(),
        state_well_formed(st),
        count <= usize::MAX,
    ensures
        ({
            let up = upper(bytes[cursor]);
            let out = play_token(bytes, cursor, st, count);
            let pos = cursor as usize;
            &&& (up == 79 || up == 84 || up == 76 || up == 78) && number_at(bytes, cursor + 1) is Missing
                ==> out == TokenOutcome::Fail(PlayTraceError::MissingNumber { token: bytes[cursor] as char, position: pos })
            &&& number_at(bytes, cursor + 1) matches NumberScan::Value(n, end) ==> {
                &&& up == 79 && n <= 6 ==> out == TokenOutcome::Next {
                    cursor: end,
                    state: PlayState { octave: n as i32, ..st },
                    step: None,
                }
                &&& up == 79 && n > 6 ==> out is Fail
                &&& up == 84 && n >= 1 ==> out == TokenOutcome::Next {
                    cursor: end,
                    state: PlayState { tempo: n, ..st },
                    step: None,
                }
                &&& up == 84 && n == 0 ==> out == TokenOutcome::Fail(
                    PlayTraceError::InvalidTempo { value: 0, position: pos },
                )
                &&& up == 76 && n >= 1 ==> out == TokenOutcome::Next {
                    cursor: end,
                    state: PlayState { default_length: n, ..st },
                    step: None,
                }
                &&& up == 76 && n == 0 ==> out is Fail
                &&& up == 78 && n == 0 ==> out == TokenOutcome::Next {
                    cursor: end,
                    state: st,
                    step: Some(
                        PlayStep::Rest { note_index: count as usize, length: st.default_length, dots: 0, tempo: st.tempo },
                    ),
                }
                &&& up == 78 && 1 <= n <= 84 ==> out == TokenOutcome::Next {
                    cursor: end,
                    state: st,
                    step: Some(
                        PlayStep::Note {
                            note_index: count as usize,
                            midi: (n + 35) as i32,
                            length: st.default_length,
                            dots: 0,
                            tempo: st.tempo,
                            mode: st.note_mode,
                        },
                    ),
                }
                &&& up == 78 && n > 84 ==> out is Fail
            }
            &&& up == 60 && st.octave >= 1 ==> out == TokenOutcome::Next {
                cursor: cursor + 1,
                state: PlayState { octave: (st.octave - 1) as i32, ..st },
                step: None,
            }
            &&& up == 60 && st.octave == 0 ==> out is Fail
            &&& up == 62 && st.octave <= 5 ==> out == TokenOutcome::Next {
                cursor: cursor + 1,
                state: PlayState { octave: (st.octave + 1) as i32, ..st },
                step: None,
            }
            &&& up == 62 && st.octave == 6 ==> out is Fail
            &&& up == 77 && cursor + 1 < bytes.len() ==> {
                let m = upper(bytes[cursor + 1]);
                &&& m == 83 ==> out == TokenOutcome::Next {
                    cursor: cursor + 2,
                    state: PlayState { note_mode: NoteMode::Staccato, ..st },
                    step: None,
                }
                &&& m == 78 ==> out == TokenOutcome::Next {
                    cursor: cursor + 2,
                    state: PlayState { note_mode: NoteMode::Normal, ..st },
                    step: None,
                }
                &&& m == 76 ==> out == TokenOutcome::Next {
                    cursor: cursor + 2,
                    state: PlayState { note_mode: NoteMode::Legato, ..st },
                    step: None,
                }
            }
            &&& (up == 32 || up == 9 || up == 10 || up == 13) ==> out == TokenOutcome::Next {
                cursor: cursor + 1,
                state: st,
                step: None,
            }
        }),
{
    match number_at(bytes, cursor + 1) {
        NumberScan::Value(n, end) => {
            if upper(bytes[cursor]) == 78 && 1 <= n <= 84 {
                let index = n - 1;
                assert(index == 12 * (index / 12) + index % 12);
            }
            assert(n > 6 ==> !(0 <= n as i32 <= 6)) by (bit_vector);
            assert(n > 84 ==> !(1 <= n as i32 <= 84)) by (bit_vector);
        },
        _ => {},
    }
}

/// A note letter, or `P` for a rest, lasts the length written after it (and
/// after the note's `#`, `+` or `-`), or the current default length when no
/// number follows; a written length of 0 is refused. The dots that follow
/// are counted on the step, and reading goes on after them. A rest carries
/// the current tempo; a note also carries the current articulation.
pub proof fn lemma_step_length(bytes: Seq<u8>, cursor: int, st: PlayState, count: nat)
    requires
        0 <= cursor < bytes.len(),
        state_well_formed(st),
        65 <= upper(bytes[cursor]) <= 71 || upper(bytes[cursor]) == 80,
    ensures
        ({
            let up = upper(bytes[cursor]);
            let accidental = up != 80 && cursor + 1 < bytes.len() && (bytes[cursor + 1] == 35 || bytes[cursor + 1]
                == 43 || bytes[cursor + 1] == 45);
            let after = if accidental {
                cursor + 2
            } else {
                cursor + 1
            };
            let out = play_token(bytes, cursor, st, count);
            &&& number_at(bytes, after) matches NumberScan::Value(n, end) ==> {
                &&& n == 0 ==> out == TokenOutcome::Fail(
                    PlayTraceError::InvalidLength { token: bytes[cursor] as char, value: 0, position: cursor as usize },
                )
                &&& n >= 1 ==> (out matches TokenOutcome::Next { cursor: next, state, step: Some(s) } && next == end
                    + dot_count(bytes, end) && state == st && s == (if up == 80 {
                    PlayStep::Rest { note_index: count as usize, length: n, dots: dot_count(bytes, end) as usize, tempo: st.tempo }
                } else {
                    PlayStep::Note {
                        note_index: count as usize,
                        midi: s->midi,
                        length: n,
                        dots: dot_count(bytes, end) as usize,
                        tempo: st.tempo,
                        mode: st.note_mode,
                    }
                }))
            }
            &&& number_at(bytes, after) is Missing ==> (out matches TokenOutcome::Next { cursor: next, state, step: Some(s) }
                && next == after + dot_count(bytes, after) && state == st && s == (if up == 80 {
                PlayStep::Rest {
                    note_index: count as usize,
                    length: st.default_length,
                    dots: dot_count(bytes, after) as usize,
                    tempo: st.tempo,
                }
            } else {
                PlayStep::Note {
                    note_index: count as usize,
                    midi: s->midi,
                    length: st.default_length,
                    dots: dot_count(bytes, after) as usize,
                    tempo: st.tempo,
                    mode: st.note_mode,
                }
            }))
        }),
{
}

/// Articulation sounds six eighths of a step for staccato, seven for
/// normal and the whole step for legato.
pub proof fn lemma_articulation()
    ensures
        note_on_eighths_spec(NoteMode::Staccato) == 6,
        note_on_eighths_spec(NoteMode::Normal) == 7,
        note_on_eighths_spec(NoteMode::Legato) == 8,
{
}

/// A note letter on its own, before any setting command, plays in octave 4
/// at length 4, tempo 120 and normal articulation: its semitone above MIDI
/// 84, the C of octave 4.
pub proof fn lemma_lone_letter(letter: u8)
    requires
        65 <= upper(letter) <= 71,
    ensures
        ({
            let up = upper(letter);
            let semitone = if up == 67 {
                0int
            } else if up == 68 {
                2int
            } else if up == 69 {
                4int
            } else if up == 70 {
                5int
            } else if up == 71 {
                7int
            } else if up == 65 {
                9int
            } else {
                11int
            };
            play_outcome(seq![letter]) == PlayOutcome::Parsed(
                seq![
                    PlayStep::Note {
                        note_index: 0,
                        midi: (84 + semitone) as i32,
                        length: 4,
                        dots: 0,
                        tempo: 120,
                        mode: NoteMode::Normal,
                    },
                ],
            )
        }),
{
    let bytes = seq![letter];
    let st0 = initial_play_state();
    assert(digit_run_end(bytes, 1) == 1);
    assert(dot_count(bytes, 1) == 0);
    lemma_note_letter_pitch(bytes, 0, st0, 0);
    let note = PlayStep::Note {
        note_index: 0,
        midi: note_midi(4, letter_semitone(upper(letter))) as i32,
        length: 4,
        dots: 0,
        tempo: 120,
        mode: NoteMode::Normal,
    };
    assert(play_token(bytes, 0, st0, 0) == TokenOutcome::Next { cursor: 1, state: st0, step: Some(note) });
    assert(play_run(bytes, 1, st0, seq![note]) == PlayOutcome::Parsed(seq![note]));
    assert(play_outcome(bytes) == play_run(bytes, 1, st0, seq![note]));
}

/// A string that sets octave `octave` (0 to 6) and plays one note letter,
/// in either case, parses to that one note, at the default length 4, tempo
/// 120 and normal articulation, at the letter's semitone above the octave's
/// C: C 0, D 2, E 4, F 5, G 7, A 9, B 11, with octave 2's C at MIDI 60.
pub proof fn lemma_octave_and_letter(octave: u8, letter: u8)
    requires
        octave <= 6,
        65 <= upper(letter) <= 71,
    ensures
        ({
            let up = upper(letter);
            let semitone = if up == 67 {
                0int
            } else if up == 68 {
                2int
            } else if up == 69 {
                4int
            } else if up == 70 {
                5int
            } else if up == 71 {
                7int
            } else if up == 65 {
                9int
            } else {
                11int
            };
            play_outcome(seq![79u8, (48 + octave) as u8, letter]) == PlayOutcome::Parsed(
                seq![
                    PlayStep::Note {
                        note_index: 0,
                        midi: (60 + 12 * (octave - 2) + semitone) as i32,
                        length: 4,
                        dots: 0,
                        tempo: 120,
                        mode: NoteMode::Normal,
                    },
                ],
            )
        }),
{
    let bytes = seq![79u8, (48 + octave) as u8, letter];
    let st0 = initial_play_state();
    assert(digit_run_end(bytes, 2) == 2);
    assert(digit_run_end(bytes, 1) == 2);
    assert(bytes[1] == 48 + octave);
    assert(digits_value(bytes, 1, 1) == 0);
    assert(digits_value(bytes, 1, 2) == octave);
    let st1 = PlayState { octave: octave as i32, ..st0 };
    assert(play_token(bytes, 0, st0, 0) == TokenOutcome::Next { cursor: 2, state: st1, step: None });
    assert(digit_run_end(bytes, 3) == 3);
    assert(dot_count(bytes, 3) == 0);
    lemma_note_letter_pitch(bytes, 2, st1, 0);
    let note = PlayStep::Note {
        note_index: 0,
        midi: note_midi(octave as int, letter_semitone(upper(letter))) as i32,
        length: 4,
        dots: 0,
        tempo: 120,
        mode: NoteMode::Normal,
    };
    assert(play_token(bytes, 2, st1, 0) == TokenOutcome::Next { cursor: 3, state: st1, step: Some(note) });
    assert(play_run(bytes, 3, st1, seq![note]) == PlayOutcome::Parsed(seq![note]));
    assert(play_run(bytes, 2, st1, Seq::empty()) == play_run(bytes, 3, st1, seq![note]));
    assert(play_outcome(bytes) == play_run(bytes, 2, st1, Seq::empty()));
}

/// The bytes with every ASCII lower-case letter made upper-case.
pub open spec fn upper_bytes(bytes: Seq<u8>) -> Seq<u8> {
    Seq::new(bytes.len(), |i: int| upper(bytes[i]))
}

proof fn lemma_upper_byte_facts(b: u8)
    ensures
        upper(upper(b)) == upper(b),
        is_digit(upper(b)) == is_digit(b),
        is_digit(b) ==> upper(b) == b,
        (upper(b) == 46) == (b == 46),
        (upper(b) == 35) == (b == 35),
        (upper(b) == 43) == (b == 43),
        (upper(b) == 45) == (b == 45),
{
}

proof fn lemma_digit_run_upper(bytes: Seq<u8>, start: int)
    requires
        0 <= start <= bytes.len(),
    ensures
        digit_run_end(upper_bytes(bytes), start) == digit_run_end(bytes, start),
        forall|e: int|
            start <= e <= digit_run_end(bytes, start) ==> digits_value(upper_bytes(bytes), start, e) == digits_value(
                bytes,
                start,
                e,
            ),
    decreases bytes.len() - start,
{
    let u = upper_bytes(bytes);
    lemma_digit_run_end_bounds(bytes, start);
    if start < bytes.len() {
        lemma_upper_byte_facts(bytes[start]);
        if is_digit(bytes[start]) {
            lemma_digit_run_upper(bytes, start + 1);
        }
    }
    assert forall|e: int| start <= e <= digit_run_end(bytes, start) implies digits_value(u, start, e) == digits_value(
        bytes,
        start,
        e,
    ) by {
        lemma_digits_value_upper(bytes, start, e);
    }
}

proof fn lemma_digits_value_upper(bytes: Seq<u8>, start: int, e: int)
    requires
        0 <= start <= e <= digit_run_end(bytes, start),
        digit_run_end(bytes, start) <= bytes.len(),
    ensures
        digits_value(upper_bytes(bytes), start, e) == digits_value(bytes, start, e),
    decreases e - start,
{
    lemma_digit_run_end_bounds(bytes, start);
    if e > start {
        lemma_digits_value_upper(bytes, start, e - 1);
        lemma_upper_byte_facts(bytes[e - 1]);
    }
}

proof fn lemma_dot_count_upper(bytes: Seq<u8>, start: int)
    requires
        0 <= start <= bytes.len(),
    ensures
        dot_count(upper_bytes(bytes), start) == dot_count(bytes, start),
    decreases bytes.len() - start,
{
    if start < bytes.len() {
        lemma_upper_byte_facts(bytes[start]);
        if bytes[start] == 46 {
            lemma_dot_count_upper(bytes, start + 1);
        }
    }
}

proof fn lemma_number_at_upper(bytes: Seq<u8>, start: int)
    requires
        0 <= start <= bytes.len(),
    ensures
        number_at(upper_bytes(bytes), start) == number_at(bytes, start),
{
    lemma_digit_run_upper(bytes, start);
    lemma_digit_run_end_bounds(bytes, start);
}

proof fn lemma_play_token_upper(bytes: Seq<u8>, cursor: int, st: PlayState, count: nat)
    requires
        0 <= cursor < bytes.len(),
    ensures
        ({
            let tb = play_token(bytes, cursor, st, count);
            let tu = play_token(upper_bytes(bytes), cursor, st, count);
            &&& (tb is Next) == (tu is Next)
            &&& tb is Next ==> tb == tu
            &&& (tb is Overflow) == (tu is Overflow)
        }),
{
    let u = upper_bytes(bytes);
    lemma_upper_byte_facts(bytes[cursor]);
    if cursor + 1 < bytes.len() {
        lemma_upper_byte_facts(bytes[cursor + 1]);
    }
    lemma_number_at_upper(bytes, cursor + 1);
    if cursor + 2 <= bytes.len() {
        lemma_number_at_upper(bytes, cursor + 2);
    }
    lemma_digit_run_end_bounds(bytes, cursor + 1);
    if cursor + 2 <= bytes.len() {
        lemma_digit_run_end_bounds(bytes, cursor + 2);
    }
    let e1 = digit_run_end(bytes, cursor + 1);
    lemma_dot_count_upper(bytes, e1);
    lemma_dot_count_upper(bytes, cursor + 1);
    if cursor + 2 <= bytes.len() {
        let e2 = digit_run_end(bytes, cursor + 2);
        lemma_dot_count_upper(bytes, e2);
        lemma_dot_count_upper(bytes, cursor + 2);
    }
}

proof fn lemma_play_run_upper(bytes: Seq<u8>, cursor: int, st: PlayState, steps: Seq<PlayStep>)
    ensures
        ({
            let rb = play_run(bytes, cursor, st, steps);
            let ru = play_run(upper_bytes(bytes), cursor, st, steps);
            &&& (rb is Parsed) == (ru is Parsed)
            &&& rb is Parsed ==> rb == ru
            &&& (rb is Overflow) == (ru is Overflow)
        }),
    decreases bytes.len() - cursor,
{
    if 0 <= cursor < bytes.len() {
        lemma_play_token_upper(bytes, cursor, st, steps.len());
        match play_token(bytes, cursor, st, steps.len()) {
            TokenOutcome::Next { cursor: next, state, step } => {
                if next > cursor && next <= bytes.len() {
                    let steps2 = match step {
                        Some(x) => steps.push(x),
                        None => steps,
                    };
                    lemma_play_run_upper(bytes, next, state, steps2);
                }
            }
            _ => {}
        }
    }
}

/// Letters in a `PLAY` string may be written in either case: upper-casing
/// the string parses to the same steps, and a string parses exactly when its
/// upper-cased form does; a number overflows in one exactly when in the other.
pub proof fn lemma_parse_ignores_case(bytes: Seq<u8>)
    ensures
        (play_outcome(upper_bytes(bytes)) is Parsed) == (play_outcome(bytes) is Parsed),
        play_outcome(bytes) is Parsed ==> play_outcome(upper_bytes(bytes)) == play_outcome(bytes),
        (play_outcome(upper_bytes(bytes)) is Overflow) == (play_outcome(bytes) is Overflow),
{
    lemma_play_run_upper(bytes, 0, initial_play_state(), Seq::empty());
}

/// The bytes with the byte `before` in front and `after` behind.
pub open spec fn padded_bytes(bytes: Seq<u8>, before: u8, after: u8) -> Seq<u8> {
    seq![before] + bytes + seq![after]
}

/// A number scan moved one byte to the right.
pub open spec fn shifted_scan(n: NumberScan) -> NumberScan {
    match n {
        NumberScan::Value(v, end) => NumberScan::Value(v, end + 1),
        other => other,
    }
}

proof fn lemma_padded_index(bytes: Seq<u8>, before: u8, after: u8)
    ensures
        padded_bytes(bytes, before, after).len() == bytes.len() + 2,
        padded_bytes(bytes, before, after)[0] == before,
        padded_bytes(bytes, before, after)[bytes.len() + 1int] == after,
        forall|i: int| 0 <= i < bytes.len() ==> #[trigger] padded_bytes(bytes, before, after)[i + 1] == bytes[i],
{
}

proof fn lemma_digit_run_padded(bytes: Seq<u8>, before: u8, after: u8, start: int)
    requires
        0 <= start <= bytes.len(),
        is_ascii_whitespace(after),
    ensures
        digit_run_end(padded_bytes(bytes, before, after), start + 1) == digit_run_end(bytes, start) + 1,
    decreases bytes.len() - start,
{
    lemma_padded_index(bytes, before, after);
    if start < bytes.len() && is_digit(bytes[start]) {
        lemma_digit_run_padded(bytes, before, after, start + 1);
    }
}

proof fn lemma_digits_value_padded(bytes: Seq<u8>, before: u8, after: u8, start: int, e: int)
    requires
        0 <= start <= e <= bytes.len(),
    ensures
        digits_value(padded_bytes(bytes, before, after), start + 1, e + 1) == digits_value(bytes, start, e),
    decreases e - start,
{
    lemma_padded_index(bytes, before, after);
    if e > start {
        lemma_digits_value_padded(bytes, before, after, start, e - 1);
    }
}

proof fn lemma_number_at_padded(bytes: Seq<u8>, before: u8, after: u8, start: int)
    requires
        0 <= start <= bytes.len(),
        is_ascii_whitespace(after),
    ensures
        number_at(padded_bytes(bytes, before, after), start + 1) == shifted_scan(number_at(bytes, start)),
{
    lemma_digit_run_padded(bytes, before, after, start);
    lemma_digit_run_end_bounds(bytes, start);
    lemma_digits_value_padded(bytes, before, after, start, digit_run_end(bytes, start));
}

proof fn lemma_dot_count_padded(bytes: Seq<u8>, before: u8, after: u8, start: int)
    requires
        0 <= start <= bytes.len(),
        is_ascii_whitespace(after),
    ensures
        dot_count(padded_bytes(bytes, before, after), start + 1) == dot_count(bytes, start),
    decreases bytes.len() - start,
{
    lemma_padded_index(bytes, before, after);
    if start < bytes.len() && bytes[start] == 46 {
        lemma_dot_count_padded(bytes, before, after, start + 1);
    }
}

proof fn lemma_play_token_next_bounds(bytes: Seq<u8>, cursor: int, st: PlayState, count: nat)
    requires
        0 <= cursor < bytes.len(),
    ensures
        play_token(bytes, cursor, st, count) matches TokenOutcome::Next { cursor: next, .. } ==> cursor < next
            <= bytes.len(),
{
    lemma_digit_run_end_bounds(bytes, cursor + 1);
    lemma_dot_count_bounds(bytes, digit_run_end(bytes, cursor + 1));
    lemma_dot_count_bounds(bytes, cursor + 1);
    if cursor + 2 <= bytes.len() {
        lemma_digit_run_end_bounds(bytes, cursor + 2);
        lemma_dot_count_bounds(bytes, digit_run_end(bytes, cursor + 2));
        lemma_dot_count_bounds(bytes, cursor + 2);
    }
}

proof fn lemma_play_token_padded(bytes: Seq<u8>, before: u8, after: u8, cursor: int, st: PlayState, count: nat)
    requires
        0 <= cursor < bytes.len(),
        is_ascii_whitespace(after),
    ensures
        play_token(bytes, cursor, st, count) matches TokenOutcome::Next { cursor: next, state, step } ==> play_token(
            padded_bytes(bytes, before, after),
            cursor + 1,
            st,
            count,
        ) == (TokenOutcome::Next { cursor: next + 1, state, step }),
{
    let p = padded_bytes(bytes, before, after);
    lemma_padded_index(bytes, before, after);
    lemma_number_at_padded(bytes, before, after, cursor + 1);
    lemma_digit_run_end_bounds(bytes, cursor + 1);
    lemma_dot_count_padded(bytes, before, after, digit_run_end(bytes, cursor + 1));
    lemma_dot_count_padded(bytes, before, after, cursor + 1);
    if cursor + 2 <= bytes.len() {
        lemma_number_at_padded(bytes, before, after, cursor + 2);
        lemma_digit_run_end_bounds(bytes, cursor + 2);
        lemma_dot_count_padded(bytes, before, after, digit_run_end(bytes, cursor + 2));
        lemma_dot_count_padded(bytes, before, after, cursor + 2);
    }
    assert(p[cursor + 1] == bytes[cursor]);
    if cursor + 1 < bytes.len() {
        assert(p[cursor + 2] == bytes[cursor + 1]);
    } else {
        assert(p[cursor + 2] == after);
    }
}

proof fn lemma_play_run_padded(
    bytes: Seq<u8>,
    before: u8,
    after: u8,
    cursor: int,
    st: PlayState,
    steps: Seq<PlayStep>,
)
    requires
        0 <= cursor <= bytes.len(),
        is_ascii_whitespace(after),
        play_run(bytes, cursor, st, steps) is Parsed,
    ensures
        play_run(padded_bytes(bytes, before, after), cursor + 1, st, steps) == play_run(bytes, cursor, st, steps),
    decreases bytes.len() - cursor,
{
    let p = padded_bytes(bytes, before, after);
    lemma_padded_index(bytes, before, after);
    if cursor == bytes.len() {
        assert(upper(after) == after);
        assert(play_token(p, cursor + 1, st, steps.len()) == (TokenOutcome::Next {
            cursor: cursor + 2,
            state: st,
            step: None,
        }));
        assert(play_run(p, cursor + 2, st, steps) == PlayOutcome::Parsed(steps));
    } else {
        lemma_play_token_next_bounds(bytes, cursor, st, steps.len());
        lemma_play_token_padded(bytes, before, after, cursor, st, steps.len());
        match play_token(bytes, cursor, st, steps.len()) {
            TokenOutcome::Next { cursor: next, state, step } => {
                let steps2 = match step {
                    Some(x) => steps.push(x),
                    None => steps,
                };
                lemma_play_run_padded(bytes, before, after, next, state, steps2);
            },
            _ => {},
        }
    }
}

/// Whitespace around a `PLAY` string changes nothing: a string that parses
/// gives the same steps with a space, tab, line feed, form feed or carriage
/// return in front of it and behind it.
pub proof fn lemma_parse_ignores_padding(bytes: Seq<u8>, before: u8, after: u8)
    requires
        is_ascii_whitespace(before),
        is_ascii_whitespace(after),
        play_outcome(bytes) is Parsed,
    ensures
        play_outcome(padded_bytes(bytes, before, after)) == play_outcome(bytes),
{
    let p = padded_bytes(bytes, before, after);
    lemma_padded_index(bytes, before, after);
    assert(upper(before) == before);
    assert(play_token(p, 0, initial_play_state(), 0) == (TokenOutcome::Next {
        cursor: 1,
        state: initial_play_state(),
        step: None,
    }));
    lemma_play_run_padded(bytes, before, after, 0, initial_play_state(), Seq::empty());
}

// ---------------------------------------------------------------------------
// Executable parser

fn upper_byte(b: u8) -> (r: u8)
    ensures
        r == upper(b),
{
    if 97 <= b && b <= 122 {
        b - 32
    } else {
        b
    }
}

/// Reads the number at `start`: its value and where it ends, or that there
/// is none, or that it does not fit in 32 bits.
pub(crate) fn parse_number(bytes: &[u8], start: usize) -> (r: NumberScanExec)
    ensures
        match number_at(bytes@, start as int) {
            NumberScan::Missing => r is Missing,
            NumberScan::TooLarge => r is TooLarge,
            NumberScan::Value(v, e) => r == NumberScanExec::Value(v, e as usize) && start < e <= bytes@.len(),
        },
        r matches NumberScanExec::Value(v, e) ==> start < e <= bytes@.len(),
{
    let ghost bs = bytes@;
    if start >= bytes.len() {
        return NumberScanExec::Missing;
    }
    proof {
        lemma_digit_run_end_bounds(bs, start as int);
    }
    let ghost end = digit_run_end(bs, start as int);
    let mut cursor = start;
    let mut value: u32 = 0;
    while cursor < bytes.len() && 48 <= bytes[cursor] && bytes[cursor] <= 57
        invariant
            start <= cursor <= end,
            end == digit_run_end(bs, start as int),
            end <= bs.len(),
            bs == bytes@,
            forall|k: int| start <= k < end ==> is_digit(#[trigger] bs[k]),
            end < bs.len() ==> !is_digit(bs[end]),
            value == digits_value(bs, start as int, cursor as int),
        decreases bytes.len() - cursor,
    {
        let digit = (bytes[cursor] - 48) as u64;
        let next: u64 = value as u64 * 10 + digit;
        if next > 0xffff_ffff {
            proof {
                lemma_digits_value_monotone(bs, start as int, cursor + 1, end);
            }
            return NumberScanExec::TooLarge;
        }
        value = next as u32;
        cursor = cursor + 1;
    }
    if cursor == start {
        NumberScanExec::Missing
    } else {
        NumberScanExec::Value(value, cursor)
    }
}

/// The executable form of `NumberScan`.
pub(crate) enum NumberScanExec {
    Missing,
    Value(u32, usize),
    TooLarge,
}

/// Counts the `.` bytes from `start` on.
fn count_dots(bytes: &[u8], start: usize) -> (r: usize)
    requires
        start <= bytes@.len(),
    ensures
        r == dot_count(bytes@, start as int),
        start + r <= bytes@.len(),
{
    let mut dots: usize = 0;
    let mut cursor = start;
    proof {
        lemma_dot_count_bounds(bytes@, start as int);
    }
    while cursor < bytes.len() && bytes[cursor] == 46
        invariant
            start <= cursor <= bytes@.len(),
            dots == cursor - start,
            dot_count(bytes@, start as int) == dots + dot_count(bytes@, cursor as int),
        decreases bytes.len() - cursor,
    {
        dots = dots + 1;
        cursor = cursor + 1;
    }
    dots
}

/// The executable form of `TokenOutcome`.
enum TokenExec {
    Next { cursor: usize, state: PlayState, step: Option<PlayStep> },
    Fail(PlayTraceError),
    Overflow,
}

spec fn token_matches(r: TokenExec, t: TokenOutcome) -> bool {
    match (r, t) {
        (TokenExec::Next { cursor: c1, state: s1, step: p1 }, TokenOutcome::Next { cursor: c2, state: s2, step: p2 }) =>
            c1 == c2 && s1 == s2 && p1 == p2,
        (TokenExec::Fail(e1), TokenOutcome::Fail(e2)) => e1 == e2,
        (TokenExec::Overflow, TokenOutcome::Overflow) => true,
        _ => false,
    }
}

/// Reads a number that a command requires.
fn parse_required_number(bytes: &[u8], start: usize, token: char, token_position: usize)
    -> (r: Result<(u32, usize), Option<PlayTraceError>>)
    requires
        start <= bytes@.len(),
    ensures
        match number_at(bytes@, start as int) {
            NumberScan::Missing => r == Err::<(u32, usize), Option<PlayTraceError>>(
                Some(PlayTraceError::MissingNumber { token, position: token_position })),
            NumberScan::TooLarge => r == Err::<(u32, usize), Option<PlayTraceError>>(None),
            NumberScan::Value(v, e) => r == Ok::<(u32, usize), Option<PlayTraceError>>((v, e as usize))
                && start < e <= bytes@.len(),
        },
{
    match parse_number(bytes, start) {
        NumberScanExec::Missing => Err(Some(PlayTraceError::MissingNumber { token, position: token_position })),
        NumberScanExec::TooLarge => Err(None),
        NumberScanExec::Value(v, e) => Ok((v, e)),
    }
}

/// Reads the length of a note or rest; without a number the default length
/// holds.
fn parse_length_or_default(bytes: &[u8], start: usize, default_length: u32, token: char, token_position: usize)
    -> (r: Result<(u32, usize), Option<PlayTraceError>>)
    requires
        start <= bytes@.len(),
    ensures
        ({
            let (res, too_large) = length_at(bytes@, start as int, default_length, token, token_position as int);
            if too_large {
                r == Err::<(u32, usize), Option<PlayTraceError>>(None)
            } else {
                match res {
                    Ok((n, e)) => r == Ok::<(u32, usize), Option<PlayTraceError>>((n, e as usize))
                        && start <= e <= bytes@.len(),
                    Err(err) => r == Err::<(u32, usize), Option<PlayTraceError>>(Some(err)),
                }
            }
        }),
        r matches Ok((n, e)) ==> start <= e <= bytes@.len(),
{
    proof {
        lemma_digit_run_end_bounds(bytes@, start as int);
    }
    match parse_number(bytes, start) {
        NumberScanExec::Missing => Ok((default_length, start)),
        NumberScanExec::TooLarge => Err(None),
        NumberScanExec::Value(v, e) => {
            if v == 0 {
                Err(Some(PlayTraceError::InvalidLength { token, value: 0, position: token_position }))
            } else {
                Ok((v, e))
            }
        }
    }
}

fn play_token_exec(bytes: &[u8], cursor: usize, st: PlayState, count: usize) -> (r: TokenExec)
    requires
        cursor < bytes@.len(),
        MIN_PLAY_OCTAVE <= st.octave <= MAX_PLAY_OCTAVE,
    ensures
        token_matches(r, play_token(bytes@, cursor as int, st, count as nat)),
        r matches TokenExec::Next { cursor: c, .. } ==> cursor < c <= bytes@.len(),
        r matches TokenExec::Next { state: s, .. } ==> MIN_PLAY_OCTAVE <= s.octave <= MAX_PLAY_OCTAVE,
{
    let b = bytes[cursor];
    let token = b as char;
    let up = upper_byte(b);
    proof {
        lemma_digit_run_end_bounds(bytes@, cursor + 1);
    }
    if up == 32 || up == 9 || up == 10 || up == 12 || up == 13 {
        TokenExec::Next { cursor: cursor + 1, state: st, step: None }
    } else if up == 77 {
        if cursor + 1 >= bytes.len() {
            return TokenExec::Fail(PlayTraceError::MissingNumber { token, position: cursor });
        }
        let m = upper_byte(bytes[cursor + 1]);
        if m == 83 {
            TokenExec::Next { cursor: cursor + 2, state: PlayState { note_mode: NoteMode::Staccato, ..st }, step: None }
        } else if m == 78 {
            TokenExec::Next { cursor: cursor + 2, state: PlayState { note_mode: NoteMode::Normal, ..st }, step: None }
        } else if m == 76 {
            TokenExec::Next { cursor: cursor + 2, state: PlayState { note_mode: NoteMode::Legato, ..st }, step: None }
        } else if m == 66 || m == 70 {
            TokenExec::Next { cursor: cursor + 2, state: st, step: None }
        } else {
            TokenExec::Fail(PlayTraceError::InvalidModeToken { token: bytes[cursor + 1] as char, position: cursor + 1 })
        }
    } else if up == 84 || up == 79 || up == 76 || up == 78 {
        let (n, end) = match parse_required_number(bytes, cursor + 1, token, cursor) {
            Ok(found) => found,
            Err(Some(e)) => {
                return TokenExec::Fail(e);
            }
            Err(None) => {
                return TokenExec::Overflow;
            }
        };
        if up == 84 {
            if n == 0 {
                TokenExec::Fail(PlayTraceError::InvalidTempo { value: 0, position: cursor })
            } else {
                TokenExec::Next { cursor: end, state: PlayState { tempo: n, ..st }, step: None }
            }
        } else if up == 79 {
            let octave = n as i32;
            if MIN_PLAY_OCTAVE <= octave && octave <= MAX_PLAY_OCTAVE {
                TokenExec::Next { cursor: end, state: PlayState { octave, ..st }, step: None }
            } else {
                TokenExec::Fail(PlayTraceError::OctaveOutOfRange { value: octave, position: cursor })
            }
        } else if up == 76 {
            if n == 0 {
                TokenExec::Fail(PlayTraceError::InvalidLength { token, value: 0, position: cursor })
            } else {
                TokenExec::Next { cursor: end, state: PlayState { default_length: n, ..st }, step: None }
            }
        } else if n == 0 {
            TokenExec::Next {
                cursor: end,
                state: st,
                step: Some(PlayStep::Rest { note_index: count, length: st.default_length, dots: 0, tempo: st.tempo }),
            }
        } else {
            let number = n as i32;
            if MIN_NOTE_NUMBER <= number && number <= MAX_NOTE_NUMBER {
                let index = number - 1;
                let midi = 12 * (index / 12 + PLAY_OCTAVE_MIDI_OFFSET) + index % 12;
                TokenExec::Next {
                    cursor: end,
                    state: st,
                    step: Some(PlayStep::Note {
                        note_index: count,
                        midi,
                        length: st.default_length,
                        dots: 0,
                        tempo: st.tempo,
                        mode: st.note_mode,
                    }),
                }
            } else {
                TokenExec::Fail(PlayTraceError::NoteNumberOutOfRange { value: number, position: cursor })
            }
        }
    } else if up == 60 {
        if st.octave - 1 < MIN_PLAY_OCTAVE {
            TokenExec::Fail(PlayTraceError::OctaveOutOfRange { value: st.octave - 1, position: cursor })
        } else {
            TokenExec::Next { cursor: cursor + 1, state: PlayState { octave: (st.octave - 1) as i32, ..st }, step: None }
        }
    } else if up == 62 {
        if st.octave + 1 > MAX_PLAY_OCTAVE {
            TokenExec::Fail(PlayTraceError::OctaveOutOfRange { value: st.octave + 1, position: cursor })
        } else {
            TokenExec::Next { cursor: cursor + 1, state: PlayState { octave: (st.octave + 1) as i32, ..st }, step: None }
        }
    } else if up == 80 || (65 <= up && up <= 71) {
        let mut after = cursor + 1;
        let mut modifier: i32 = 0;
        if up != 80 && cursor + 1 < bytes.len() {
            let m = bytes[cursor + 1];
            if m == 35 || m == 43 {
                modifier = 1;
                after = cursor + 2;
            } else if m == 45 {
                modifier = -1;
                after = cursor + 2;
            }
        }
        let (length, end) = match parse_length_or_default(bytes, after, st.default_length, token, cursor) {
            Ok(found) => found,
            Err(Some(e)) => {
                return TokenExec::Fail(e);
            }
            Err(None) => {
                return TokenExec::Overflow;
            }
        };
        let dots = count_dots(bytes, end);
        let step = if up == 80 {
            PlayStep::Rest { note_index: count, length, dots, tempo: st.tempo }
        } else {
            let semitone: i32 = if up == 67 {
                0
            } else if up == 68 {
                2
            } else if up == 69 {
                4
            } else if up == 70 {
                5
            } else if up == 71 {
                7
            } else if up == 65 {
                9
            } else {
                11
            };
            let midi = 12 * (st.octave + PLAY_OCTAVE_MIDI_OFFSET) + semitone + modifier;
            PlayStep::Note { note_index: count, midi, length, dots, tempo: st.tempo, mode: st.note_mode }
        };
        TokenExec::Next { cursor: end + dots, state: st, step: Some(step) }
    } else {
        TokenExec::Fail(PlayTraceError::UnsupportedToken { token, position: cursor })
    }
}


/// The executable form of `PlayOutcome`.
enum PlayScan {
    Parsed(Vec<PlayStep>),
    Rejected(PlayTraceError),
    Overflow,
}

/// Reads a whole `PLAY` string, command by command.
fn scan_play(bytes: &[u8]) -> (r: PlayScan)
    ensures
        match play_outcome(bytes@) {
            PlayOutcome::Parsed(steps) => r matches PlayScan::Parsed(v) && v@ == steps,
            PlayOutcome::Rejected(e) => r == PlayScan::Rejected(e),
            PlayOutcome::Overflow => r is Overflow,
        },
{
    let mut cursor: usize = 0;
    let mut st = PlayState { tempo: 120, octave: 4, default_length: 4, note_mode: NoteMode::Normal };
    let mut steps: Vec<PlayStep> = Vec::new();
    while cursor < bytes.len()
        invariant
            cursor <= bytes@.len(),
            MIN_PLAY_OCTAVE <= st.octave <= MAX_PLAY_OCTAVE,
            play_outcome(bytes@) == play_run(bytes@, cursor as int, st, steps@),
        decreases bytes.len() - cursor,
    {
        match play_token_exec(bytes, cursor, st, steps.len()) {
            TokenExec::Next { cursor: next, state, step } => {
                match step {
                    Some(s) => {
                        steps.push(s);
                    }
                    None => {}
                }
                cursor = next;
                st = state;
            }
            TokenExec::Fail(e) => {
                return PlayScan::Rejected(e);
            }
            TokenExec::Overflow => {
                return PlayScan::Overflow;
            }
        }
    }
    PlayScan::Parsed(steps)
}

/// Parses a `PLAY` string into its timed steps, or names the first command
/// that it refuses and the byte position of that command.
///
/// Letters are read without regard to case and whitespace between commands
/// is skipped. The settings start at tempo 120, octave 4, length 4 and normal
/// articulation.
pub fn parse_play_sequence(sequence: &str) -> (r: Result<Vec<PlayStep>, PlayTraceError>)
    requires
        play_numbers_fit(sequence),
    ensures
        r is Ok <==> play_outcome(sequence.spec_bytes()) is Parsed,
        r matches Ok(v) ==> play_outcome(sequence.spec_bytes()) == PlayOutcome::Parsed(v@),
        r matches Err(e) ==> play_outcome(sequence.spec_bytes()) == PlayOutcome::Rejected(e),
{
    match scan_play(sequence.as_bytes()) {
        PlayScan::Parsed(v) => Ok(v),
        PlayScan::Rejected(e) => Err(e),
        // The precondition rules this case out.
        PlayScan::Overflow => Ok(Vec::new()),
    }
}

/// Whether every number that the parser reads in `sequence` fits in 32 bits,
/// the condition under which `parse_play_sequence` may be called.
pub fn play_sequence_numbers_fit(sequence: &str) -> (r: bool)
    ensures
        r == play_numbers_fit(sequence),
{
    match scan_play(sequence.as_bytes()) {
        PlayScan::Overflow => false,
        _ => true,
    }
}


// ---------------------------------------------------------------------------
// Sound catalog

/// The names of the game's `PLAY` strings, in catalog order.
pub const CATALOG_NAMES: [&'static str; 12] = [
    "building_explosion",
    "gorilla_explosion",
    "intro_riff_1",
    "intro_riff_2",
    "intro_riff_3",
    "intro_riff_4",
    "intro_fast_left",
    "intro_fast_right",
    "intro_theme",
    "throw",
    "victory_dance_left",
    "victory_dance_right",
];

/// The game's `PLAY` strings; `CATALOG_SEQUENCES[i]` is called `CATALOG_NAMES[i]`.
pub const CATALOG_SEQUENCES: [&'static str; 12] = [
    "MBO0L32EFGEFDC",
    "MBO0L16EFGEFDC",
    "t120o1l16b9n0baan0bn0bn0baaan0b9n0baan0b",
    "o2l16e-9n0e-d-d-n0e-n0e-n0e-d-d-d-n0e-9n0e-d-d-n0e-",
    "o2l16g-9n0g-een0g-n0g-n0g-eeen0g-9n0g-een0g-",
    "o2l16b9n0baan0g-n0g-n0g-eeen0o1b9n0baan0b",
    "T160O0L32EFGEFDC",
    "T160O0L32EFGEFDC",
    "MBT160O1L8CDEDCDL4ECC",
    "MBo0L32A-L64CL16BL64A+",
    "MFO0L32EFGEFDC",
    "MFO0L32EFGEFDC",
];

/// The catalog names that the game plays at run time.
pub const RUNTIME_AUDIO_SEQUENCE_NAMES: [&'static str; 10] = [
    "intro_theme",
    "throw",
    "building_explosion",
    "gorilla_explosion",
    "intro_fast_left",
    "victory_dance_left",
    "intro_riff_1",
    "intro_riff_2",
    "intro_riff_3",
    "intro_riff_4",
];

/// Entry `i` of the catalog.
pub open spec fn catalog_entry(i: int) -> NamedPlaySequence {
    NamedPlaySequence { name: CATALOG_NAMES@[i], sequence: CATALOG_SEQUENCES@[i] }
}

/// The whole catalog, in its fixed order.
pub fn canonical_play_sequences() -> (r: Vec<NamedPlaySequence>)
    ensures
        r@.len() == CATALOG_NAMES@.len(),
        forall|i: int| 0 <= i < r@.len() ==> #[trigger] r@[i] == catalog_entry(i),
{
    let mut entries: Vec<NamedPlaySequence> = Vec::new();
    let mut i: usize = 0;
    while i < CATALOG_NAMES.len()
        invariant
            i <= CATALOG_NAMES@.len(),
            entries@.len() == i,
            forall|k: int| 0 <= k < i ==> #[trigger] entries@[k] == catalog_entry(k),
        decreases CATALOG_NAMES@.len() - i,
    {
        entries.push(NamedPlaySequence { name: CATALOG_NAMES[i], sequence: CATALOG_SEQUENCES[i] });
        i = i + 1;
    }
    entries
}

/// The names of the catalog entries used at run time, in their fixed order.
pub fn runtime_audio_sequence_names() -> (r: &'static [&'static str])
    ensures
        r@ == RUNTIME_AUDIO_SEQUENCE_NAMES@,
{
    &RUNTIME_AUDIO_SEQUENCE_NAMES
}

/// Whether two byte strings are equal.
fn bytes_equal(a: &[u8], b: &[u8]) -> (r: bool)
    ensures
        r == (a@ == b@),
{
    if a.len() != b.len() {
        return false;
    }
    let mut i: usize = 0;
    while i < a.len()
        invariant
            a@.len() == b@.len(),
            i <= a@.len(),
            forall|k: int| 0 <= k < i ==> a@[k] == b@[k],
        decreases a.len() - i,
    {
        if a[i] != b[i] {
            return false;
        }
        i = i + 1;
    }
    assert(a@ =~= b@);
    true
}

/// Two strings are equal exactly when their UTF-8 bytes are.
proof fn lemma_str_eq_iff_bytes_eq(a: &str, b: &str)
    ensures
        (a@ == b@) <==> (a.spec_bytes() == b.spec_bytes()),
{
    vstd::utf8::encode_utf8_decode_utf8(a@);
    vstd::utf8::encode_utf8_decode_utf8(b@);
}

/// The `PLAY` string of the first catalog entry called `name`.
pub fn canonical_play_sequence(name: &str) -> (r: Result<&'static str, PlayTraceError>)
    ensures
        r matches Ok(s) ==> exists|i: int|
            0 <= i < CATALOG_NAMES@.len()
            && (#[trigger] CATALOG_NAMES@[i])@ == name@
            && s == CATALOG_SEQUENCES@[i]
            && forall|j: int| 0 <= j < i ==> CATALOG_NAMES@[j]@ != name@,
        r is Err <==> forall|i: int| 0 <= i < CATALOG_NAMES@.len()
            ==> (#[trigger] CATALOG_NAMES@[i])@ != name@,
        r matches Err(e) ==> e matches PlayTraceError::UnknownSequenceName(n) && n@ == name@,
        forall|i: int|
            0 <= i < CATALOG_NAMES@.len() && (#[trigger] CATALOG_NAMES@[i])@ == name@ ==> r == Ok::<
                &'static str,
                PlayTraceError,
            >(CATALOG_SEQUENCES@[i]),
{
    let wanted = name.as_bytes();
    let mut i: usize = 0;
    while i < CATALOG_NAMES.len()
        invariant
            i <= CATALOG_NAMES@.len(),
            wanted@ == name.spec_bytes(),
            forall|j: int| 0 <= j < i ==> CATALOG_NAMES@[j]@ != name@,
        decreases CATALOG_NAMES@.len() - i,
    {
        let entry_name = CATALOG_NAMES[i];
        proof {
            lemma_str_eq_iff_bytes_eq(entry_name, name);
        }
        if bytes_equal(entry_name.as_bytes(), wanted) {
            proof {
                lemma_catalog_names_distinct();
                assert forall|j: int| 0 <= j < CATALOG_NAMES@.len() && (#[trigger] CATALOG_NAMES@[j])@ == name@ implies j
                    == i by {
                    if j < i {
                        assert(CATALOG_NAMES@[j]@ != CATALOG_NAMES@[i as int]@);
                    } else if j > i {
                        assert(CATALOG_NAMES@[i as int]@ != CATALOG_NAMES@[j]@);
                    }
                }
            }
            return Ok(CATALOG_SEQUENCES[i]);
        }
        i = i + 1;
    }
    Err(PlayTraceError::UnknownSequenceName(name.to_owned()))
}


/// The run-time sound names all name catalog entries, so the catalog is the
/// one source of the game's sounds.
pub proof fn lemma_runtime_names_in_catalog()
    ensures
        forall|i: int|
            0 <= i < RUNTIME_AUDIO_SEQUENCE_NAMES@.len() ==> exists|j: int|
                0 <= j < CATALOG_NAMES@.len() && (#[trigger] CATALOG_NAMES@[j])@ == (
                #[trigger] RUNTIME_AUDIO_SEQUENCE_NAMES@[i])@,
{
    reveal_strlit("building_explosion");
    reveal_strlit("gorilla_explosion");
    reveal_strlit("intro_riff_1");
    reveal_strlit("intro_riff_2");
    reveal_strlit("intro_riff_3");
    reveal_strlit("intro_riff_4");
    reveal_strlit("intro_fast_left");
    reveal_strlit("intro_fast_right");
    reveal_strlit("intro_theme");
    reveal_strlit("throw");
    reveal_strlit("victory_dance_left");
    reveal_strlit("victory_dance_right");
    assert(CATALOG_NAMES@[8]@ == RUNTIME_AUDIO_SEQUENCE_NAMES@[0]@);
    assert(CATALOG_NAMES@[9]@ == RUNTIME_AUDIO_SEQUENCE_NAMES@[1]@);
    assert(CATALOG_NAMES@[0]@ == RUNTIME_AUDIO_SEQUENCE_NAMES@[2]@);
    assert(CATALOG_NAMES@[1]@ == RUNTIME_AUDIO_SEQUENCE_NAMES@[3]@);
    assert(CATALOG_NAMES@[6]@ == RUNTIME_AUDIO_SEQUENCE_NAMES@[4]@);
    assert(CATALOG_NAMES@[10]@ == RUNTIME_AUDIO_SEQUENCE_NAMES@[5]@);
    assert(CATALOG_NAMES@[2]@ == RUNTIME_AUDIO_SEQUENCE_NAMES@[6]@);
    assert(CATALOG_NAMES@[3]@ == RUNTIME_AUDIO_SEQUENCE_NAMES@[7]@);
    assert(CATALOG_NAMES@[4]@ == RUNTIME_AUDIO_SEQUENCE_NAMES@[8]@);
    assert(CATALOG_NAMES@[5]@ == RUNTIME_AUDIO_SEQUENCE_NAMES@[9]@);
    assert forall|i: int| 0 <= i < RUNTIME_AUDIO_SEQUENCE_NAMES@.len() implies exists|j: int|
        0 <= j < CATALOG_NAMES@.len() && (#[trigger] CATALOG_NAMES@[j])@ == (
        #[trigger] RUNTIME_AUDIO_SEQUENCE_NAMES@[i])@ by {
        if i == 0 { assert(CATALOG_NAMES@[8]@ == RUNTIME_AUDIO_SEQUENCE_NAMES@[0]@); }
        if i == 1 { assert(CATALOG_NAMES@[9]@ == RUNTIME_AUDIO_SEQUENCE_NAMES@[1]@); }
        if i == 2 { assert(CATALOG_NAMES@[0]@ == RUNTIME_AUDIO_SEQUENCE_NAMES@[2]@); }
        if i == 3 { assert(CATALOG_NAMES@[1]@ == RUNTIME_AUDIO_SEQUENCE_NAMES@[3]@); }
        if i == 4 { assert(CATALOG_NAMES@[6]@ == RUNTIME_AUDIO_SEQUENCE_NAMES@[4]@); }
        if i == 5 { assert(CATALOG_NAMES@[10]@ == RUNTIME_AUDIO_SEQUENCE_NAMES@[5]@); }
        if i == 6 { assert(CATALOG_NAMES@[2]@ == RUNTIME_AUDIO_SEQUENCE_NAMES@[6]@); }
        if i == 7 { assert(CATALOG_NAMES@[3]@ == RUNTIME_AUDIO_SEQUENCE_NAMES@[7]@); }
        if i == 8 { assert(CATALOG_NAMES@[4]@ == RUNTIME_AUDIO_SEQUENCE_NAMES@[8]@); }
        if i == 9 { assert(CATALOG_NAMES@[5]@ == RUNTIME_AUDIO_SEQUENCE_NAMES@[9]@); }
    }
}

/// No two catalog entries share a name, so a lookup by name is unambiguous.
pub proof fn lemma_catalog_names_distinct()
    ensures
        forall|j: int, k: int|
            0 <= j < k < CATALOG_NAMES@.len() ==> (#[trigger] CATALOG_NAMES@[j])@ != (#[trigger] CATALOG_NAMES@[k])@,
{
    reveal_strlit("building_explosion");
    reveal_strlit("gorilla_explosion");
    reveal_strlit("intro_riff_1");
    reveal_strlit("intro_riff_2");
    reveal_strlit("intro_riff_3");
    reveal_strlit("intro_riff_4");
    reveal_strlit("intro_fast_left");
    reveal_strlit("intro_fast_right");
    reveal_strlit("intro_theme");
    reveal_strlit("throw");
    reveal_strlit("victory_dance_left");
    reveal_strlit("victory_dance_right");
    assert forall|j: int, k: int| 0 <= j < k < CATALOG_NAMES@.len() implies (#[trigger] CATALOG_NAMES@[j])@ != (
    #[trigger] CATALOG_NAMES@[k])@ by {
        if j == 0 && k == 1 { assert(CATALOG_NAMES@[0]@.len() != CATALOG_NAMES@[1]@.len()); }
        if j == 0 && k == 2 { assert(CATALOG_NAMES@[0]@.len() != CATALOG_NAMES@[2]@.len()); }
        if j == 0 && k == 3 { assert(CATALOG_NAMES@[0]@.len() != CATALOG_NAMES@[3]@.len()); }
        if j == 0 && k == 4 { assert(CATALOG_NAMES@[0]@.len() != CATALOG_NAMES@[4]@.len()); }
        if j == 0 && k == 5 { assert(CATALOG_NAMES@[0]@.len() != CATALOG_NAMES@[5]@.len()); }
        if j == 0 && k == 6 { assert(CATALOG_NAMES@[0]@.len() != CATALOG_NAMES@[6]@.len()); }
        if j == 0 && k == 7 { assert(CATALOG_NAMES@[0]@.len() != CATALOG_NAMES@[7]@.len()); }
        if j == 0 && k == 8 { assert(CATALOG_NAMES@[0]@.len() != CATALOG_NAMES@[8]@.len()); }
        if j == 0 && k == 9 { assert(CATALOG_NAMES@[0]@.len() != CATALOG_NAMES@[9]@.len()); }
        if j == 0 && k == 10 { assert(CATALOG_NAMES@[0]@[0] != CATALOG_NAMES@[10]@[0]); }
        if j == 0 && k == 11 { assert(CATALOG_NAMES@[0]@.len() != CATALOG_NAMES@[11]@.len()); }
        if j == 1 && k == 2 { assert(CATALOG_NAMES@[1]@.len() != CATALOG_NAMES@[2]@.len()); }
        if j == 1 && k == 3 { assert(CATALOG_NAMES@[1]@.len() != CATALOG_NAMES@[3]@.len()); }
        if j == 1 && k == 4 { assert(CATALOG_NAMES@[1]@.len() != CATALOG_NAMES@[4]@.len()); }
        if j == 1 && k == 5 { assert(CATALOG_NAMES@[1]@.len() != CATALOG_NAMES@[5]@.len()); }
        if j == 1 && k == 6 { assert(CATALOG_NAMES@[1]@.len() != CATALOG_NAMES@[6]@.len()); }
        if j == 1 && k == 7 { assert(CATALOG_NAMES@[1]@.len() != CATALOG_NAMES@[7]@.len()); }
        if j == 1 && k == 8 { assert(CATALOG_NAMES@[1]@.len() != CATALOG_NAMES@[8]@.len()); }
        if j == 1 && k == 9 { assert(CATALOG_NAMES@[1]@.len() != CATALOG_NAMES@[9]@.len()); }
        if j == 1 && k == 10 { assert(CATALOG_NAMES@[1]@.len() != CATALOG_NAMES@[10]@.len()); }
        if j == 1 && k == 11 { assert(CATALOG_NAMES@[1]@.len() != CATALOG_NAMES@[11]@.len()); }
        if j == 2 && k == 3 { assert(CATALOG_NAMES@[2]@[11] != CATALOG_NAMES@[3]@[11]); }
        if j == 2 && k == 4 { assert(CATALOG_NAMES@[2]@[11] != CATALOG_NAMES@[4]@[11]); }
        if j == 2 && k == 5 { assert(CATALOG_NAMES@[2]@[11] != CATALOG_NAMES@[5]@[11]); }
        if j == 2 && k == 6 { assert(CATALOG_NAMES@[2]@.len() != CATALOG_NAMES@[6]@.len()); }
        if j == 2 && k == 7 { assert(CATALOG_NAMES@[2]@.len() != CATALOG_NAMES@[7]@.len()); }
        if j == 2 && k == 8 { assert(CATALOG_NAMES@[2]@.len() != CATALOG_NAMES@[8]@.len()); }
        if j == 2 && k == 9 { assert(CATALOG_NAMES@[2]@.len() != CATALOG_NAMES@[9]@.len()); }
        if j == 2 && k == 10 { assert(CATALOG_NAMES@[2]@.len() != CATALOG_NAMES@[10]@.len()); }
        if j == 2 && k == 11 { assert(CATALOG_NAMES@[2]@.len() != CATALOG_NAMES@[11]@.len()); }
        if j == 3 && k == 4 { assert(CATALOG_NAMES@[3]@[11] != CATALOG_NAMES@[4]@[11]); }
        if j == 3 && k == 5 { assert(CATALOG_NAMES@[3]@[11] != CATALOG_NAMES@[5]@[11]); }
        if j == 3 && k == 6 { assert(CATALOG_NAMES@[3]@.len() != CATALOG_NAMES@[6]@.len()); }
        if j == 3 && k == 7 { assert(CATALOG_NAMES@[3]@.len() != CATALOG_NAMES@[7]@.len()); }
        if j == 3 && k == 8 { assert(CATALOG_NAMES@[3]@.len() != CATALOG_NAMES@[8]@.len()); }
        if j == 3 && k == 9 { assert(CATALOG_NAMES@[3]@.len() != CATALOG_NAMES@[9]@.len()); }
        if j == 3 && k == 10 { assert(CATALOG_NAMES@[3]@.len() != CATALOG_NAMES@[10]@.len()); }
        if j == 3 && k == 11 { assert(CATALOG_NAMES@[3]@.len() != CATALOG_NAMES@[11]@.len()); }
        if j == 4 && k == 5 { assert(CATALOG_NAMES@[4]@[11] != CATALOG_NAMES@[5]@[11]); }
        if j == 4 && k == 6 { assert(CATALOG_NAMES@[4]@.len() != CATALOG_NAMES@[6]@.len()); }
        if j == 4 && k == 7 { assert(CATALOG_NAMES@[4]@.len() != CATALOG_NAMES@[7]@.len()); }
        if j == 4 && k == 8 { assert(CATALOG_NAMES@[4]@.len() != CATALOG_NAMES@[8]@.len()); }
        if j == 4 && k == 9 { assert(CATALOG_NAMES@[4]@.len() != CATALOG_NAMES@[9]@.len()); }
        if j == 4 && k == 10 { assert(CATALOG_NAMES@[4]@.len() != CATALOG_NAMES@[10]@.len()); }
        if j == 4 && k == 11 { assert(CATALOG_NAMES@[4]@.len() != CATALOG_NAMES@[11]@.len()); }
        if j == 5 && k == 6 { assert(CATALOG_NAMES@[5]@.len() != CATALOG_NAMES@[6]@.len()); }
        if j == 5 && k == 7 { assert(CATALOG_NAMES@[5]@.len() != CATALOG_NAMES@[7]@.len()); }
        if j == 5 && k == 8 { assert(CATALOG_NAMES@[5]@.len() != CATALOG_NAMES@[8]@.len()); }
        if j == 5 && k == 9 { assert(CATALOG_NAMES@[5]@.len() != CATALOG_NAMES@[9]@.len()); }
        if j == 5 && k == 10 { assert(CATALOG_NAMES@[5]@.len() != CATALOG_NAMES@[10]@.len()); }
        if j == 5 && k == 11 { assert(CATALOG_NAMES@[5]@.len() != CATALOG_NAMES@[11]@.len()); }
        if j == 6 && k == 7 { assert(CATALOG_NAMES@[6]@.len() != CATALOG_NAMES@[7]@.len()); }
        if j == 6 && k == 8 { assert(CATALOG_NAMES@[6]@.len() != CATALOG_NAMES@[8]@.len()); }
        if j == 6 && k == 9 { assert(CATALOG_NAMES@[6]@.len() != CATALOG_NAMES@[9]@.len()); }
        if j == 6 && k == 10 { assert(CATALOG_NAMES@[6]@.len() != CATALOG_NAMES@[10]@.len()); }
        if j == 6 && k == 11 { assert(CATALOG_NAMES@[6]@.len() != CATALOG_NAMES@[11]@.len()); }
        if j == 7 && k == 8 { assert(CATALOG_NAMES@[7]@.len() != CATALOG_NAMES@[8]@.len()); }
        if j == 7 && k == 9 { assert(CATALOG_NAMES@[7]@.len() != CATALOG_NAMES@[9]@.len()); }
        if j == 7 && k == 10 { assert(CATALOG_NAMES@[7]@.len() != CATALOG_NAMES@[10]@.len()); }
        if j == 7 && k == 11 { assert(CATALOG_NAMES@[7]@.len() != CATALOG_NAMES@[11]@.len()); }
        if j == 8 && k == 9 { assert(CATALOG_NAMES@[8]@.len() != CATALOG_NAMES@[9]@.len()); }
        if j == 8 && k == 10 { assert(CATALOG_NAMES@[8]@.len() != CATALOG_NAMES@[10]@.len()); }
        if j == 8 && k == 11 { assert(CATALOG_NAMES@[8]@.len() != CATALOG_NAMES@[11]@.len()); }
        if j == 9 && k == 10 { assert(CATALOG_NAMES@[9]@.len() != CATALOG_NAMES@[10]@.len()); }
        if j == 9 && k == 11 { assert(CATALOG_NAMES@[9]@.len() != CATALOG_NAMES@[11]@.len()); }
        if j == 10 && k == 11 { assert(CATALOG_NAMES@[10]@.len() != CATALOG_NAMES@[11]@.len()); }
    }
}

/// The message that describes a refused `PLAY` string or catalog name.
pub open spec fn play_error_text(e: PlayTraceError) -> Seq<char> {
    match e {
        PlayTraceError::UnknownSequenceName(name) => "unknown PLAY sequence name: "@ + name@,
        PlayTraceError::UnsupportedToken { token, position } => "unsupported PLAY token '"@ + seq![token]
            + "' at position "@ + decimal_chars(position as nat),
        PlayTraceError::InvalidModeToken { token, position } => "unsupported PLAY mode token '"@ + seq![token]
            + "' at position "@ + decimal_chars(position as nat),
        PlayTraceError::MissingNumber { token, position } => "missing number after '"@ + seq![token]
            + "' at position "@ + decimal_chars(position as nat),
        PlayTraceError::InvalidTempo { value, position } => "invalid tempo value "@ + decimal_chars(value as nat)
            + " at position "@ + decimal_chars(position as nat) + "; expected >= 1"@,
        PlayTraceError::InvalidLength { token, value, position } => "invalid length value "@ + decimal_chars(
            value as nat,
        ) + " after '"@ + seq![token] + "' at position "@ + decimal_chars(position as nat) + "; expected >= 1"@,
        PlayTraceError::OctaveOutOfRange { value, position } => "octave value "@ + signed_decimal_chars(value as int)
            + " out of range at position "@ + decimal_chars(position as nat) + "; expected "@ + signed_decimal_chars(
            MIN_PLAY_OCTAVE as int,
        ) + "..="@ + signed_decimal_chars(MAX_PLAY_OCTAVE as int),
        PlayTraceError::NoteNumberOutOfRange { value, position } => "note number "@ + signed_decimal_chars(
            value as int,
        ) + " out of range at position "@ + decimal_chars(position as nat) + "; expected "@ + signed_decimal_chars(
            MIN_NOTE_NUMBER as int,
        ) + "..="@ + signed_decimal_chars(MAX_NOTE_NUMBER as int),
    }
}

impl PlayTraceError {
    /// The message that describes the error.
    pub fn message(&self) -> (r: String)
        ensures
            r@ == play_error_text(*self),
    {
        let mut text = String::new();
        match self {
            PlayTraceError::UnknownSequenceName(name) => {
                text.append("unknown PLAY sequence name: ");
                text.append(name.as_str());
            },
            PlayTraceError::UnsupportedToken { token, position } => {
                text.append("unsupported PLAY token '");
                push_char(&mut text, *token);
                text.append("' at position ");
                push_decimal(&mut text, *position as u64);
            },
            PlayTraceError::InvalidModeToken { token, position } => {
                text.append("unsupported PLAY mode token '");
                push_char(&mut text, *token);
                text.append("' at position ");
                push_decimal(&mut text, *position as u64);
            },
            PlayTraceError::MissingNumber { token, position } => {
                text.append("missing number after '");
                push_char(&mut text, *token);
                text.append("' at position ");
                push_decimal(&mut text, *position as u64);
            },
            PlayTraceError::InvalidTempo { value, position } => {
                text.append("invalid tempo value ");
                push_decimal(&mut text, *value as u64);
                text.append(" at position ");
                push_decimal(&mut text, *position as u64);
                text.append("; expected >= 1");
            },
            PlayTraceError::InvalidLength { token, value, position } => {
                text.append("invalid length value ");
                push_decimal(&mut text, *value as u64);
                text.append(" after '");
                push_char(&mut text, *token);
                text.append("' at position ");
                push_decimal(&mut text, *position as u64);
                text.append("; expected >= 1");
            },
            PlayTraceError::OctaveOutOfRange { value, position } => {
                text.append("octave value ");
                push_signed_decimal(&mut text, *value as i64);
                text.append(" out of range at position ");
                push_decimal(&mut text, *position as u64);
                text.append("; expected ");
                push_signed_decimal(&mut text, MIN_PLAY_OCTAVE as i64);
                text.append("..=");
                push_signed_decimal(&mut text, MAX_PLAY_OCTAVE as i64);
            },
            PlayTraceError::NoteNumberOutOfRange { value, position } => {
                text.append("note number ");
                push_signed_decimal(&mut text, *value as i64);
                text.append(" out of range at position ");
                push_decimal(&mut text, *position as u64);
                text.append("; expected ");
                push_signed_decimal(&mut text, MIN_NOTE_NUMBER as i64);
                text.append("..=");
                push_signed_decimal(&mut text, MAX_NOTE_NUMBER as i64);
            },
        }
        text
    }
}

}
