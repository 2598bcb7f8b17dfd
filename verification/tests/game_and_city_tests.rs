use gorillas::export::{crop_checkpoint, ppm_bytes};
use gorillas::game::{MatchState, ShotOutcome, TurnAction};
use gorillas::input::{accept_decimal_char, accept_integer_char, accept_name_char, integer_entry};
use gorillas::render_ref::{
    checkpoint_from_ascii, COLOR_BUILDING_CYAN, COLOR_BUILDING_GRAY, COLOR_BUILDING_RED, COLOR_DARK, COLOR_WINDOW,
};
use gorillas::skyline::{
    building_color, building_top, building_width, generate_round, gorilla_spot, initial_height, next_height,
    window_color, wind_from_draws, BuildingPlan, GorillaSpot, BOTTOM_LINE,
};

#[test]
fn a_throw_passes_the_turn() {
    let mut state = MatchState::new(3);
    assert_eq!(state.toss_turn, 0);
    assert_eq!(state.after_shot(ShotOutcome::Miss), TurnAction::NextThrow);
    assert_eq!(state.toss_turn, 1);
    assert_eq!(state.after_shot(ShotOutcome::BuildingHit), TurnAction::NextThrow);
    assert_eq!(state.toss_turn, 0);
    assert_eq!(state.scores, [0, 0]);
}

#[test]
fn hitting_the_other_gorilla_scores_for_the_thrower() {
    let mut state = MatchState::new(3);
    assert_eq!(state.after_shot(ShotOutcome::GorillaHit(1)), TurnAction::RoundWon(0));
    assert_eq!(state.scores, [1, 0]);
    assert_eq!(state.toss_turn, 1);
}

#[test]
fn hitting_your_own_gorilla_scores_for_the_other_player() {
    let mut state = MatchState::new(3);
    state.after_shot(ShotOutcome::Miss);
    assert_eq!(state.toss_turn, 1);
    assert_eq!(state.after_shot(ShotOutcome::GorillaHit(1)), TurnAction::RoundWon(0));
    assert_eq!(state.scores, [1, 0]);
    assert_eq!(state.toss_turn, 0);
}

#[test]
fn the_match_ends_at_the_target_score() {
    let mut state = MatchState::new(2);
    assert!(!state.is_over());
    state.after_shot(ShotOutcome::GorillaHit(1));
    assert!(!state.is_over());
    state.after_shot(ShotOutcome::GorillaHit(0));
    assert_eq!(state.scores, [1, 1]);
    assert!(!state.is_over());
    state.after_shot(ShotOutcome::GorillaHit(1));
    assert_eq!(state.scores, [2, 1]);
    assert!(state.is_over());
}

#[test]
fn the_computer_is_player_two_of_a_one_player_match() {
    let mut state = MatchState::new(3);
    assert!(!state.computer_throws(1));
    state.after_shot(ShotOutcome::Miss);
    assert!(state.computer_throws(1));
    assert!(!state.computer_throws(2));
}

#[test]
fn skyline_rules_on_given_draws() {
    assert_eq!(initial_height(1), 15);
    assert_eq!(initial_height(2), 130);
    assert_eq!(initial_height(4), 15);
    assert_eq!(initial_height(6), 130);
    assert_eq!(next_height(1, 100, 15), 25);
    assert_eq!(next_height(2, 100, 130), 120);
    assert_eq!(next_height(3, 320, 15), 35);
    assert_eq!(next_height(3, 321, 15), -5);
    assert_eq!(next_height(6, 100, 130), 110);
    assert_eq!(next_height(6, 500, 130), 150);
    assert_eq!(building_width(2, 1), 38);
    assert_eq!(building_width(600, 37), 38);
    assert_eq!(building_width(620, 30), 18);
    assert_eq!(building_width(630, 30), 10);
    assert_eq!(building_top(15, 1), 310);
    assert_eq!(building_top(100, 50), 185);
    assert_eq!(building_top(200, 120), 70);
    assert_eq!(building_color(1), COLOR_BUILDING_GRAY);
    assert_eq!(building_color(2), COLOR_BUILDING_RED);
    assert_eq!(building_color(3), COLOR_BUILDING_CYAN);
    assert_eq!(window_color(1), COLOR_DARK);
    assert_eq!(window_color(4), COLOR_WINDOW);
    assert_eq!(wind_from_draws(3, 1, 4), 7);
    assert_eq!(wind_from_draws(-3, 1, 4), -7);
    assert_eq!(wind_from_draws(0, 1, 4), -4);
    assert_eq!(wind_from_draws(3, 2, 0), 3);
}

#[test]
fn gorilla_stands_in_the_middle_of_its_roof() {
    let buildings = vec![
        BuildingPlan { x: 2, width: 40, top_y: 200, color: COLOR_BUILDING_GRAY, windows: Vec::new() },
        BuildingPlan { x: 44, width: 41, top_y: 150, color: COLOR_BUILDING_RED, windows: Vec::new() },
        BuildingPlan { x: 87, width: 40, top_y: 100, color: COLOR_BUILDING_CYAN, windows: Vec::new() },
    ];
    assert_eq!(gorilla_spot(&buildings, 0), GorillaSpot { x_halves: 2 * 2 + 42 - 28, y: 170 });
    assert_eq!(gorilla_spot(&buildings, 1), GorillaSpot { x_halves: 2 * 44 + 43 - 28, y: 120 });
}

#[test]
fn random_rounds_keep_the_skyline_rules() {
    for _ in 0..50 {
        let round = generate_round();
        let b = &round.buildings;
        assert!(b.len() >= 9);
        assert_eq!(b[0].x, 2);
        for i in 0..b.len() {
            assert!(10 <= b[i].width && b[i].width <= 74);
            assert!(b[i].x + b[i].width <= 640);
            assert!(70 <= b[i].top_y && b[i].top_y <= 310);
            if i + 1 < b.len() {
                assert_eq!(b[i + 1].x, b[i].x + b[i].width + 2);
            }
            for w in &b[i].windows {
                assert!(w.x >= b[i].x + 3 && w.x < b[i].x + b[i].width - 3);
                assert!(w.y >= b[i].top_y + 3 && BOTTOM_LINE - w.y >= 7);
                assert!(w.color == COLOR_DARK || w.color == COLOR_WINDOW);
            }
        }
        let last = &b[b.len() - 1];
        assert!(last.x + last.width + 2 > 630);
        let left = round.gorillas[0];
        assert!(left == gorilla_spot(b, 2) || left == gorilla_spot(b, 3));
        let right = round.gorillas[1];
        assert!(right == gorilla_spot(b, b.len() - 3) || right == gorilla_spot(b, b.len() - 4));
        assert!(-15 <= round.wind && round.wind <= 15);
    }
}

#[test]
fn rounds_differ_from_draw_to_draw() {
    let mut first_widths = std::collections::HashSet::new();
    let mut winds = std::collections::HashSet::new();
    for _ in 0..40 {
        let round = generate_round();
        first_widths.insert(round.buildings[0].width);
        winds.insert(round.wind);
    }
    assert!(first_widths.len() > 1);
    assert!(winds.len() > 1);
}

#[test]
fn windows_fill_a_grid() {
    let round = generate_round();
    let building = &round.buildings[0];
    let columns = (building.width - 7) / 10 + 1;
    let rows = (BOTTOM_LINE - building.top_y - 3 - 7) / 15 + 1;
    assert_eq!(building.windows.len() as i32, columns * rows);
    assert_eq!(building.windows[0].x, building.x + 3);
    assert_eq!(building.windows[0].y, building.top_y + 3);
}

#[test]
fn prompts_take_the_right_characters() {
    assert!(accept_integer_char(0, '7', 2));
    assert!(!accept_integer_char(2, '7', 2));
    assert!(!accept_integer_char(0, 'a', 2));
    assert!(accept_decimal_char("12", '.'));
    assert!(!accept_decimal_char("1.2", '.'));
    assert!(accept_decimal_char("1.2", '5'));
    assert!(!accept_decimal_char("123456", '5'));
    assert!(!accept_decimal_char("", '-'));
    assert!(accept_name_char(0, 'a'));
    assert!(accept_name_char(3, 'Z'));
    assert!(accept_name_char(3, '-'));
    assert!(accept_name_char(3, ' '));
    assert!(!accept_name_char(3, '!'));
    assert!(!accept_name_char(10, 'a'));
}

#[test]
fn whole_number_answers() {
    assert_eq!(integer_entry("", 3, 1, 99), Some(3));
    assert_eq!(integer_entry("12", 3, 1, 99), Some(12));
    assert_eq!(integer_entry("+12", 3, 1, 99), Some(12));
    assert_eq!(integer_entry("0", 3, 1, 99), None);
    assert_eq!(integer_entry("100", 3, 1, 99), None);
    assert_eq!(integer_entry("1a", 3, 1, 99), None);
    assert_eq!(integer_entry("+", 3, 1, 99), None);
    assert_eq!(integer_entry("99999999999", 3, 1, u32::MAX), None);
    assert_eq!(integer_entry("4294967295", 3, 1, u32::MAX), Some(u32::MAX));
    for text in ["", "7", "+7", "07", "x", "1.5", "-1"] {
        let std_answer = if text.is_empty() {
            Some(3)
        } else {
            text.parse::<u32>().ok().filter(|v| (1..=99).contains(v))
        };
        assert_eq!(integer_entry(text, 3, 1, 99), std_answer, "{text}");
    }
}

#[test]
fn crop_takes_a_rectangle() {
    let source = checkpoint_from_ascii("src", &["1234", "5628", "EW..", "3333"]);
    let crop = crop_checkpoint("cut", &source, 1, 1, 2, 2);
    assert_eq!(crop.name, "cut");
    assert_eq!((crop.width, crop.height), (2, 2));
    assert_eq!(crop.pixels, vec![6, 2, 14, 0]);

    let empty = crop_checkpoint("none", &source, 4, 0, 0, 4);
    assert_eq!((empty.width, empty.height, empty.pixels.len()), (0, 4, 0));
}

#[test]
fn ppm_has_header_then_rgb() {
    let image = checkpoint_from_ascii("p", &[".2", "3."]);
    let mut expected = b"P6\n2 2\n255\n".to_vec();
    expected.extend_from_slice(&[0, 0, 173, 252, 0, 84, 255, 255, 0, 0, 0, 173]);
    assert_eq!(ppm_bytes(&image), expected);

    let wide = crop_checkpoint("w", &checkpoint_from_ascii("row", &["............"]), 0, 0, 12, 1);
    let bytes = ppm_bytes(&wide);
    assert!(bytes.starts_with(b"P6\n12 1\n255\n"));
    assert_eq!(bytes.len(), b"P6\n12 1\n255\n".len() + 36);
}
