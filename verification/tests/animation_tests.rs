use gorillas::animation::{
    building_explosion_frames, building_explosion_rings, gorilla_explosion_frames, gorilla_explosion_strokes,
    GorillaStroke,
};
use gorillas::border::{border_stars, BORDER_SPARKLE_PERIOD};
use gorillas::input::setup_choice;
use gorillas::render_ref::{BuildingExplosionPhase, GorillaExplosionPhase, COLOR_BG, COLOR_EXPLOSION, COLOR_GORILLA};

use BuildingExplosionPhase::{Collapse, Expand};
use GorillaExplosionPhase::{Erase, LowerBurst, UpperBurst};

#[test]
fn building_explosion_grows_then_shrinks() {
    assert_eq!(
        building_explosion_frames(2),
        vec![(0, Expand), (1, Expand), (2, Expand), (2, Collapse), (1, Collapse), (0, Collapse)]
    );
    assert_eq!(building_explosion_frames(-1), Vec::new());
    assert_eq!(building_explosion_frames(14).len(), 30);
}

#[test]
fn building_explosion_rings_per_frame() {
    assert_eq!(
        building_explosion_rings(4, 2, Expand),
        vec![(0, COLOR_EXPLOSION), (1, COLOR_EXPLOSION), (2, COLOR_EXPLOSION)]
    );
    assert_eq!(building_explosion_rings(4, 9, Expand).len(), 5);
    assert_eq!(
        building_explosion_rings(4, 2, Collapse),
        vec![
            (0, COLOR_EXPLOSION),
            (1, COLOR_EXPLOSION),
            (2, COLOR_EXPLOSION),
            (3, COLOR_EXPLOSION),
            (4, COLOR_EXPLOSION),
            (2, COLOR_BG),
            (3, COLOR_BG),
            (4, COLOR_BG),
        ]
    );
    assert_eq!(building_explosion_rings(4, -3, Collapse).len(), 10);
}

#[test]
fn gorilla_explosion_schedule() {
    let frames = gorilla_explosion_frames();
    assert_eq!(frames.len(), 50);
    assert_eq!(frames[0], (1, LowerBurst));
    assert_eq!(frames[1], (2, LowerBurst));
    assert_eq!(frames[8], (16, LowerBurst));
    assert_eq!(frames[9], (1, UpperBurst));
    assert_eq!(frames[10], (2, UpperBurst));
    assert_eq!(frames[25], (32, UpperBurst));
    assert_eq!(frames[26], (47, Erase));
    assert_eq!(frames[49], (1, Erase));
}

#[test]
fn gorilla_explosion_strokes_per_phase() {
    assert_eq!(
        gorilla_explosion_strokes(3, LowerBurst),
        vec![
            GorillaStroke::LowerRing { radius: 1, color: COLOR_EXPLOSION },
            GorillaStroke::Line { rise: 1 },
            GorillaStroke::LowerRing { radius: 2, color: COLOR_EXPLOSION },
            GorillaStroke::Line { rise: 2 },
            GorillaStroke::LowerRing { radius: 3, color: COLOR_EXPLOSION },
            GorillaStroke::Line { rise: 3 },
        ]
    );
    assert_eq!(gorilla_explosion_strokes(0, LowerBurst).len(), 2);

    let upper = gorilla_explosion_strokes(2, UpperBurst);
    assert_eq!(upper.len(), 36);
    assert_eq!(
        upper[32..].to_vec(),
        vec![
            GorillaStroke::LowerRing { radius: 16, color: COLOR_BG },
            GorillaStroke::UpperRing { radius: 1, color: COLOR_EXPLOSION },
            GorillaStroke::LowerRing { radius: 15, color: COLOR_BG },
            GorillaStroke::UpperRing { radius: 2, color: COLOR_GORILLA },
        ]
    );

    let erase = gorilla_explosion_strokes(47, Erase);
    assert_eq!(erase.len(), 81);
    assert_eq!(erase[79], GorillaStroke::UpperRing { radius: 47, color: COLOR_BG });
    assert_eq!(erase[80], GorillaStroke::UpperRing { radius: 48, color: COLOR_BG });
}

#[test]
fn border_stars_in_phase_zero() {
    let stars = border_stars(0);
    assert_eq!(stars.len(), 40);
    assert_eq!(stars[0], (1, 1));
    assert_eq!(stars[1], (2, 22));
    assert!(stars.contains(&(76, 1)));
    assert!(stars.contains(&(77, 22)));
    assert!(stars.contains(&(80, 5)));
    assert!(stars.contains(&(1, 18)));
    assert!(!stars.contains(&(80, 6)));
}

#[test]
fn border_repeats_with_its_period() {
    for phase in 0..BORDER_SPARKLE_PERIOD {
        let stars = border_stars(phase);
        let later = border_stars(phase + BORDER_SPARKLE_PERIOD);
        assert_eq!(stars, later);
    }
    assert_ne!(border_stars(0), border_stars(1));
}

#[test]
fn setup_choice_keys() {
    assert_eq!(setup_choice('V'), Some(true));
    assert_eq!(setup_choice('v'), Some(true));
    assert_eq!(setup_choice('P'), Some(false));
    assert_eq!(setup_choice('p'), Some(false));
    assert_eq!(setup_choice('x'), None);
}
