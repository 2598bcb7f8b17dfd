use gorillas::render_ref::{gorilla_checkpoint, sun_checkpoint, GorillaPose, RenderCheckpoint};
use gorillas::shot::{
    classify_collision, gorilla_pixel_collision, sample_step, step_end, still_in_sun, thrower_from_player_id,
    CollisionPointValue, PixelGorilla, ShotImpact, ShotSimulationError, StepEnd, SunWatch, SHOT_MAX_STEPS,
};
use gorillas::wav::pcm_to_wav;

#[test]
fn test_trace_rejects_invalid_player_id() {
    let err = thrower_from_player_id(3).expect_err("invalid player id must fail");

    assert_eq!(err, ShotSimulationError::InvalidPlayerId(3));
}

#[test]
fn players_one_and_two_throw_from_gorillas_zero_and_one() {
    assert_eq!(thrower_from_player_id(1), Ok(0));
    assert_eq!(thrower_from_player_id(2), Ok(1));
    assert_eq!(thrower_from_player_id(0), Err(ShotSimulationError::InvalidPlayerId(0)));
    assert_eq!(
        thrower_from_player_id(usize::MAX),
        Err(ShotSimulationError::InvalidPlayerId(usize::MAX))
    );
}

#[test]
fn shot_step_limit() {
    assert_eq!(SHOT_MAX_STEPS, 2200);
}

#[test]
fn collision_priority_is_sun_then_gorilla_then_building() {
    assert_eq!(classify_collision(true, Some(1), Some(2)), CollisionPointValue::Sun);
    assert_eq!(classify_collision(false, Some(1), Some(2)), CollisionPointValue::Gorilla(1));
    assert_eq!(classify_collision(false, None, Some(2)), CollisionPointValue::Building(2));
    assert_eq!(classify_collision(false, None, None), CollisionPointValue::Empty);
}

fn first_set_pixel(sprite: &RenderCheckpoint) -> (i32, i32) {
    for y in 0..sprite.height {
        for x in 0..sprite.width {
            if sprite.pixels[y * sprite.width + x] != 0 {
                return (x as i32, y as i32);
            }
        }
    }
    panic!("sprite has no set pixel");
}

#[test]
fn gorilla_hit_follows_the_sprite_pixels() {
    let sprite = gorilla_checkpoint(GorillaPose::ArmsDown);
    let sprites = vec![sprite.clone(), sprite.clone()];
    let gorillas = [
        PixelGorilla { x: 50, y: 140, alive: true },
        PixelGorilla { x: 220, y: 140, alive: true },
    ];
    let (px, py) = first_set_pixel(&sprite);

    assert_eq!(gorilla_pixel_collision(&gorillas, &sprites, 50 + px, 140 + py), Some(0));
    assert_eq!(gorilla_pixel_collision(&gorillas, &sprites, 220 + px, 140 + py), Some(1));
    assert_eq!(gorilla_pixel_collision(&gorillas, &sprites, 50, 140), None);
    assert_eq!(gorilla_pixel_collision(&gorillas, &sprites, 10, 10), None);
    assert_eq!(gorilla_pixel_collision(&gorillas, &sprites, 50 + 30, 140 + py), None);

    let dead = [
        PixelGorilla { x: 50, y: 140, alive: false },
        PixelGorilla { x: 50, y: 140, alive: true },
    ];
    assert_eq!(gorilla_pixel_collision(&dead, &sprites, 50 + px, 140 + py), Some(1));
}

#[test]
fn shocked_sun_has_its_own_mask() {
    let happy = sun_checkpoint(false);
    let shocked = sun_checkpoint(true);
    assert_ne!(happy.pixels, shocked.pixels);
}

#[test]
fn wav_header_and_samples_are_little_endian() {
    let wav = pcm_to_wav(&[1, -2, 0x1234], 44_100);
    let mut expected: Vec<u8> = Vec::new();
    expected.extend_from_slice(b"RIFF");
    expected.extend_from_slice(&(36u32 + 6).to_le_bytes());
    expected.extend_from_slice(b"WAVE");
    expected.extend_from_slice(b"fmt ");
    expected.extend_from_slice(&16u32.to_le_bytes());
    expected.extend_from_slice(&1u16.to_le_bytes());
    expected.extend_from_slice(&1u16.to_le_bytes());
    expected.extend_from_slice(&44_100u32.to_le_bytes());
    expected.extend_from_slice(&88_200u32.to_le_bytes());
    expected.extend_from_slice(&2u16.to_le_bytes());
    expected.extend_from_slice(&16u16.to_le_bytes());
    expected.extend_from_slice(b"data");
    expected.extend_from_slice(&6u32.to_le_bytes());
    expected.extend_from_slice(&[0x01, 0x00, 0xfe, 0xff, 0x34, 0x12]);
    assert_eq!(wav, expected);
}

#[test]
fn wav_reads_back_rate_length_and_samples() {
    let pcm: Vec<i16> = vec![0, i16::MAX, i16::MIN, -1, 300];
    let wav = pcm_to_wav(&pcm, 22_050);
    assert_eq!(wav.len(), 44 + 2 * pcm.len());
    assert_eq!(u32::from_le_bytes([wav[24], wav[25], wav[26], wav[27]]), 22_050);
    assert_eq!(u32::from_le_bytes([wav[40], wav[41], wav[42], wav[43]]), 10);
    for (i, &sample) in pcm.iter().enumerate() {
        assert_eq!(i16::from_le_bytes([wav[44 + 2 * i], wav[45 + 2 * i]]), sample);
    }
}

#[test]
fn empty_wav_is_header_only() {
    let wav = pcm_to_wav(&[], 8_000);
    assert_eq!(wav.len(), 44);
    assert_eq!(&wav[0..4], b"RIFF");
    assert_eq!(u32::from_le_bytes([wav[4], wav[5], wav[6], wav[7]]), 36);
}

#[test]
fn invalid_player_message() {
    assert_eq!(ShotSimulationError::InvalidPlayerId(3).message(), "invalid player id 3; expected 1 or 2");
    assert_eq!(ShotSimulationError::InvalidPlayerId(0).message(), "invalid player id 0; expected 1 or 2");
}

fn quiet() -> SunWatch {
    SunWatch { in_sun: false, sun_shocked: false, saw_sun: false }
}

#[test]
fn sun_pixel_in_band_shocks_the_sun_and_hides_the_banana() {
    let lit = SunWatch { in_sun: true, sun_shocked: true, saw_sun: true };
    assert_eq!(sample_step(quiet(), CollisionPointValue::Sun, true, 0, false), (lit, None));
    assert_eq!(sample_step(quiet(), CollisionPointValue::Sun, false, 0, false), (quiet(), None));
    assert_eq!(sample_step(quiet(), CollisionPointValue::Empty, true, 0, false), (quiet(), None));
}

#[test]
fn buildings_and_gorillas_stop_the_flight() {
    assert_eq!(
        sample_step(quiet(), CollisionPointValue::Building(4), false, 0, true),
        (quiet(), Some(ShotImpact::Building(4)))
    );
    assert_eq!(
        sample_step(quiet(), CollisionPointValue::Gorilla(1), false, 0, true),
        (quiet(), Some(ShotImpact::Gorilla(1)))
    );
    assert_eq!(sample_step(quiet(), CollisionPointValue::Gorilla(0), false, 0, true), (quiet(), None));
    assert_eq!(
        sample_step(quiet(), CollisionPointValue::Gorilla(0), false, 0, false),
        (quiet(), Some(ShotImpact::Gorilla(0)))
    );
}

#[test]
fn banana_leaves_the_sun_only_when_away_and_unseen() {
    let hidden = SunWatch { in_sun: true, sun_shocked: true, saw_sun: false };
    assert!(!still_in_sun(hidden, true));
    assert!(still_in_sun(hidden, false));
    assert!(still_in_sun(SunWatch { saw_sun: true, ..hidden }, true));
    assert!(!still_in_sun(quiet(), false));
}

#[test]
fn leaving_the_screen_is_a_miss_whatever_was_hit() {
    assert_eq!(step_end(true, Some(ShotImpact::Gorilla(1))), StepEnd::Miss);
    assert_eq!(step_end(true, None), StepEnd::Miss);
    assert_eq!(step_end(false, None), StepEnd::Continue);
    assert_eq!(step_end(false, Some(ShotImpact::Building(2))), StepEnd::Impact(ShotImpact::Building(2)));
}
