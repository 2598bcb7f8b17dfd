use gorillas::play_ref::{
    canonical_play_sequence, canonical_play_sequences, parse_play_sequence, play_sequence_numbers_fit,
    runtime_audio_sequence_names, NoteMode, PlayStep, PlayTraceError,
};

fn parse(sequence: &str) -> Result<Vec<PlayStep>, PlayTraceError> {
    assert!(play_sequence_numbers_fit(sequence));
    parse_play_sequence(sequence)
}

fn step_seconds(length: u32, tempo: u32, dots: usize) -> f32 {
    let base = (60.0 / tempo as f32) * 4.0 / length as f32;
    let mut duration = base;
    let mut addition = base / 2.0;
    for _ in 0..dots {
        duration += addition;
        addition /= 2.0;
    }
    duration
}

fn total_seconds(steps: &[PlayStep]) -> f32 {
    steps
        .iter()
        .map(|step| match *step {
            PlayStep::Note { length, tempo, dots, .. } => step_seconds(length, tempo, dots),
            PlayStep::Rest { length, tempo, dots, .. } => step_seconds(length, tempo, dots),
        })
        .sum()
}

fn midi_frequency(midi: i32) -> f32 {
    440.0 * (2.0f32).powf((midi as f32 - 69.0) / 12.0)
}

#[test]
fn test_play_parser_rejects_unknown_tokens() {
    let result = parse("O3L8CZ");
    assert!(matches!(
        result,
        Err(PlayTraceError::UnsupportedToken { token: 'Z', .. })
    ));
}

#[test]
fn test_play_parser_rejects_out_of_range_note_numbers() {
    let result = parse("N999");
    assert!(matches!(
        result,
        Err(PlayTraceError::NoteNumberOutOfRange { value: 999, .. })
    ));
}

#[test]
fn test_play_parser_rejects_zero_tempo() {
    let result = parse("T0O3C");
    assert!(matches!(
        result,
        Err(PlayTraceError::InvalidTempo { value: 0, .. })
    ));
}

#[test]
fn test_audio_catalog_is_single_source_of_truth() {
    for name in runtime_audio_sequence_names() {
        let sequence = canonical_play_sequence(name).expect("runtime sequence must exist");
        let steps = parse(sequence).expect("runtime sequence must parse");
        assert!(total_seconds(&steps) > 0.0);
    }
}

#[test]
fn test_play_octave_mapping_places_middle_c_at_o2() {
    let steps = parse("O2C").expect("O2C must parse");
    let note = match steps[0] {
        PlayStep::Note { midi, .. } => midi_frequency(midi),
        PlayStep::Rest { .. } => panic!("O2C must produce a note"),
    };

    assert!((note - 261.625_58).abs() < 0.01);
}

#[test]
fn every_catalog_sequence_parses() {
    let catalog = canonical_play_sequences();
    assert_eq!(catalog.len(), 12);
    for entry in &catalog {
        let steps = parse(entry.sequence).expect("catalog sequence must parse");
        assert!(!steps.is_empty());
        assert_eq!(canonical_play_sequence(entry.name), Ok(entry.sequence));
    }
    assert_eq!(catalog[0].name, "building_explosion");
    assert_eq!(catalog[0].sequence, "MBO0L32EFGEFDC");
    assert_eq!(catalog[11].name, "victory_dance_right");
}

#[test]
fn runtime_names_are_the_fixed_list() {
    let names = runtime_audio_sequence_names();
    assert_eq!(names.len(), 10);
    assert_eq!(names[0], "intro_theme");
    assert_eq!(names[1], "throw");
    assert_eq!(names[9], "intro_riff_4");
}

#[test]
fn unknown_catalog_name_is_refused() {
    assert_eq!(
        canonical_play_sequence("missing"),
        Err(PlayTraceError::UnknownSequenceName("missing".to_string()))
    );
    assert_eq!(canonical_play_sequence("throw"), Ok("MBo0L32A-L64CL16BL64A+"));
}

#[test]
fn middle_c_step_carries_the_default_settings() {
    let steps = parse("O2C").expect("O2C must parse");
    assert_eq!(
        steps,
        vec![PlayStep::Note { note_index: 0, midi: 60, length: 4, dots: 0, tempo: 120, mode: NoteMode::Normal }]
    );
}

#[test]
fn accidentals_lengths_and_dots() {
    let steps = parse("O4C#8..D-E+16P2.").expect("must parse");
    assert_eq!(
        steps,
        vec![
            PlayStep::Note { note_index: 0, midi: 85, length: 8, dots: 2, tempo: 120, mode: NoteMode::Normal },
            PlayStep::Note { note_index: 1, midi: 85, length: 4, dots: 0, tempo: 120, mode: NoteMode::Normal },
            PlayStep::Note { note_index: 2, midi: 89, length: 16, dots: 0, tempo: 120, mode: NoteMode::Normal },
            PlayStep::Rest { note_index: 3, length: 2, dots: 1, tempo: 120 },
        ]
    );
}

#[test]
fn note_numbers_map_to_midi_and_zero_rests() {
    let steps = parse("L8N1N0N84").expect("must parse");
    assert_eq!(
        steps,
        vec![
            PlayStep::Note { note_index: 0, midi: 36, length: 8, dots: 0, tempo: 120, mode: NoteMode::Normal },
            PlayStep::Rest { note_index: 1, length: 8, dots: 0, tempo: 120 },
            PlayStep::Note { note_index: 2, midi: 119, length: 8, dots: 0, tempo: 120, mode: NoteMode::Normal },
        ]
    );
}

#[test]
fn modes_tempo_and_octave_shifts() {
    let steps = parse("ms t200 o0 > c ml < d mn mb mf e").expect("must parse");
    assert_eq!(
        steps,
        vec![
            PlayStep::Note { note_index: 0, midi: 48, length: 4, dots: 0, tempo: 200, mode: NoteMode::Staccato },
            PlayStep::Note { note_index: 1, midi: 38, length: 4, dots: 0, tempo: 200, mode: NoteMode::Legato },
            PlayStep::Note { note_index: 2, midi: 40, length: 4, dots: 0, tempo: 200, mode: NoteMode::Normal },
        ]
    );
}

#[test]
fn parsing_ignores_letter_case() {
    assert_eq!(parse("mbo1l16b9n0baa"), parse("MBO1L16B9N0BAA"));
    assert_eq!(parse("t120o1l16b9n0baan0b"), parse("T120O1L16B9N0BAAN0B"));
}

#[test]
fn empty_sequence_has_no_steps() {
    assert_eq!(parse(""), Ok(Vec::new()));
    assert_eq!(parse("  \t\n"), Ok(Vec::new()));
}

#[test]
fn each_error_variant_is_reported() {
    assert_eq!(parse("MX"), Err(PlayTraceError::InvalidModeToken { token: 'X', position: 1 }));
    assert_eq!(parse("CM"), Err(PlayTraceError::MissingNumber { token: 'M', position: 1 }));
    assert_eq!(parse("T"), Err(PlayTraceError::MissingNumber { token: 'T', position: 0 }));
    assert_eq!(parse("ot"), Err(PlayTraceError::MissingNumber { token: 'o', position: 0 }));
    assert_eq!(parse("L0"), Err(PlayTraceError::InvalidLength { token: 'L', value: 0, position: 0 }));
    assert_eq!(parse("CC0"), Err(PlayTraceError::InvalidLength { token: 'C', value: 0, position: 1 }));
    assert_eq!(parse("O7"), Err(PlayTraceError::OctaveOutOfRange { value: 7, position: 0 }));
    assert_eq!(parse("O0<"), Err(PlayTraceError::OctaveOutOfRange { value: -1, position: 2 }));
    assert_eq!(parse("O6>"), Err(PlayTraceError::OctaveOutOfRange { value: 7, position: 2 }));
    assert_eq!(parse("N85"), Err(PlayTraceError::NoteNumberOutOfRange { value: 85, position: 0 }));
    assert_eq!(parse("C$"), Err(PlayTraceError::UnsupportedToken { token: '$', position: 1 }));
    assert_eq!(parse("T0O3C"), Err(PlayTraceError::InvalidTempo { value: 0, position: 0 }));
}

#[test]
fn first_error_wins() {
    assert_eq!(parse("ZT0"), Err(PlayTraceError::UnsupportedToken { token: 'Z', position: 0 }));
}

#[test]
fn numbers_too_large_for_32_bits_are_flagged() {
    assert!(!play_sequence_numbers_fit("T99999999999"));
    assert!(play_sequence_numbers_fit("T4294967295"));
    assert!(play_sequence_numbers_fit("ZT99999999999"));
}

#[test]
fn note_on_eighths_per_mode() {
    assert_eq!(NoteMode::Staccato.note_on_eighths(), 6);
    assert_eq!(NoteMode::Normal.note_on_eighths(), 7);
    assert_eq!(NoteMode::Legato.note_on_eighths(), 8);
}

#[test]
fn error_messages_name_the_problem() {
    assert_eq!(
        PlayTraceError::UnknownSequenceName("siren".to_string()).message(),
        "unknown PLAY sequence name: siren"
    );
    assert_eq!(
        PlayTraceError::UnsupportedToken { token: 'Z', position: 5 }.message(),
        "unsupported PLAY token 'Z' at position 5"
    );
    assert_eq!(
        PlayTraceError::InvalidModeToken { token: 'X', position: 1 }.message(),
        "unsupported PLAY mode token 'X' at position 1"
    );
    assert_eq!(
        PlayTraceError::MissingNumber { token: 't', position: 12 }.message(),
        "missing number after 't' at position 12"
    );
    assert_eq!(
        PlayTraceError::InvalidTempo { value: 0, position: 0 }.message(),
        "invalid tempo value 0 at position 0; expected >= 1"
    );
    assert_eq!(
        PlayTraceError::InvalidLength { token: 'L', value: 0, position: 30 }.message(),
        "invalid length value 0 after 'L' at position 30; expected >= 1"
    );
    assert_eq!(
        PlayTraceError::OctaveOutOfRange { value: -1, position: 2 }.message(),
        "octave value -1 out of range at position 2; expected 0..=6"
    );
    assert_eq!(
        PlayTraceError::NoteNumberOutOfRange { value: 999, position: 0 }.message(),
        "note number 999 out of range at position 0; expected 1..=84"
    );
    assert_eq!(
        PlayTraceError::NoteNumberOutOfRange { value: i32::MIN, position: usize::MAX }.message(),
        format!("note number {} out of range at position {}; expected 1..=84", i32::MIN, usize::MAX)
    );
    assert_eq!(
        PlayTraceError::UnsupportedToken { token: 'é', position: 1234567890 }.message(),
        "unsupported PLAY token 'é' at position 1234567890"
    );
}

#[test]
fn surrounding_whitespace_is_skipped() {
    assert_eq!(parse(" O2C "), parse("O2C"));
    assert_eq!(parse("\t\nT120L8CDE \r\n"), parse("T120L8CDE"));
}
