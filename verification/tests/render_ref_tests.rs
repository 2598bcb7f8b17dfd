use gorillas::effects::{
    draw_building_explosion, draw_effect_mask, draw_explosion_ring, draw_gorilla_explosion, draw_wind_arrow,
    MAX_DRAWN_WIND, SCREEN_HEIGHT, SCREEN_WIDTH,
};
use gorillas::frame::IndexedFrame;
use gorillas::render_ref::{
    banana_checkpoint, checkpoint_from_ascii, checkpoint_pixel_set, checkpoint_rgba, checkpoint_rgba_into,
    gorilla_checkpoint, palette_rgb, render_banana_checkpoint, render_checkpoints, render_gorilla_checkpoint,
    render_sun_checkpoint, sun_checkpoint, GorillaPose, RenderCheckpoint, COLOR_BG, COLOR_BUILDING_RED,
    COLOR_EXPLOSION, COLOR_GORILLA, COLOR_SUN, COLOR_WINDOW,
};

fn screen() -> IndexedFrame {
    let mut frame = IndexedFrame::new(SCREEN_WIDTH as usize, SCREEN_HEIGHT as usize);
    frame.clear(COLOR_BG);
    frame
}

fn pixel(checkpoint: &RenderCheckpoint, x: usize, y: usize) -> u8 {
    checkpoint.pixels[y * checkpoint.width + x]
}

fn count_color(checkpoint: &RenderCheckpoint, color: u8) -> usize {
    checkpoint.pixels.iter().filter(|&&p| p == color).count()
}

#[test]
fn test_render_runtime_scene_building_explosion_colors_ring() {
    let mut frame = screen();
    draw_building_explosion(&mut frame, 100, 120, 6, false);
    let checkpoint = frame.into_checkpoint("runtime_scene");

    let ring_index = 120usize * checkpoint.width + 106usize;
    assert_eq!(checkpoint.pixels[ring_index], COLOR_EXPLOSION);
}

#[test]
fn test_render_runtime_scene_gorilla_explosion_draws_horizontal_line() {
    let mut frame = screen();
    draw_gorilla_explosion(&mut frame, 200, 140, 8, 192, 208, 140);
    let checkpoint = frame.into_checkpoint("runtime_scene");

    let line_index = 140usize * checkpoint.width + 200usize;
    assert_eq!(checkpoint.pixels[line_index], COLOR_EXPLOSION);
}

#[test]
fn sprite_sizes_match_their_sheets() {
    for shocked in [false, true] {
        let sun = sun_checkpoint(shocked);
        assert_eq!((sun.width, sun.height, sun.pixels.len()), (45, 37, 45 * 37));
    }
    for pose in [GorillaPose::LeftUp, GorillaPose::RightUp, GorillaPose::ArmsDown] {
        let gorilla = gorilla_checkpoint(pose);
        assert_eq!((gorilla.width, gorilla.height, gorilla.pixels.len()), (30, 30, 900));
    }
    for rotation in 0..4 {
        let banana = banana_checkpoint(rotation);
        assert_eq!((banana.width, banana.height, banana.pixels.len()), (16, 16, 256));
    }
}

#[test]
fn checkpoint_names_follow_the_sheet() {
    assert_eq!(sun_checkpoint(false).name, "sun_happy");
    assert_eq!(sun_checkpoint(true).name, "sun_shocked");
    assert_eq!(gorilla_checkpoint(GorillaPose::ArmsDown).name, "gorilla_arms_down");
    assert_eq!(gorilla_checkpoint(GorillaPose::LeftUp).name, "gorilla_left_up");
    assert_eq!(gorilla_checkpoint(GorillaPose::RightUp).name, "gorilla_right_up");
    assert_eq!(render_gorilla_checkpoint("custom", GorillaPose::LeftUp).name, "custom");
    assert_eq!(banana_checkpoint(2).name, "banana_2");
}

#[test]
fn render_checkpoints_lists_all_sprites_in_order() {
    let all = render_checkpoints();
    let names: Vec<&str> = all.iter().map(|c| c.name.as_str()).collect();
    assert_eq!(
        names,
        vec![
            "sun_happy",
            "sun_shocked",
            "gorilla_arms_down",
            "gorilla_left_up",
            "gorilla_right_up",
            "banana_0",
            "banana_1",
            "banana_2",
            "banana_3",
        ]
    );
    assert_eq!(all[0].pixels, render_sun_checkpoint(false).pixels);
    assert_eq!(all[8].pixels, render_banana_checkpoint(3).pixels);
}

#[test]
fn banana_rotation_repeats_every_four_turns() {
    for rotation in -8..8 {
        let turned = banana_checkpoint(rotation);
        let reduced = banana_checkpoint(rotation.rem_euclid(4));
        assert_eq!(turned.pixels, reduced.pixels);
        assert_eq!(turned.name, reduced.name);
        assert_eq!(render_banana_checkpoint(rotation + 4).pixels, turned.pixels);
    }
    assert_ne!(banana_checkpoint(0).pixels, banana_checkpoint(1).pixels);
}

#[test]
fn sprites_use_their_palette_colours() {
    assert!(count_color(&sun_checkpoint(false), COLOR_SUN) > 0);
    assert_eq!(pixel(&sun_checkpoint(false), 22, 3), COLOR_SUN);
    assert_eq!(pixel(&sun_checkpoint(false), 0, 0), COLOR_BG);
    assert!(count_color(&gorilla_checkpoint(GorillaPose::ArmsDown), COLOR_GORILLA) > 0);
    assert!(count_color(&banana_checkpoint(0), COLOR_WINDOW) > 0);
}

#[test]
fn ascii_rows_become_palette_indices() {
    let checkpoint = checkpoint_from_ascii("tiny", &[".12", "3EW", "458"]);
    assert_eq!(checkpoint.name, "tiny");
    assert_eq!((checkpoint.width, checkpoint.height), (3, 3));
    assert_eq!(checkpoint.pixels, vec![0, 1, 2, 3, 14, 14, 4, 5, 8]);

    let empty = checkpoint_from_ascii("empty", &[]);
    assert_eq!((empty.width, empty.height, empty.pixels.len()), (0, 0, 0));
}

#[test]
fn palette_matches_the_cga_colours() {
    assert_eq!(palette_rgb(0), [0, 0, 173]);
    assert_eq!(palette_rgb(1), [255, 173, 81]);
    assert_eq!(palette_rgb(2), [252, 0, 84]);
    assert_eq!(palette_rgb(3), [255, 255, 0]);
    assert_eq!(palette_rgb(4), [168, 168, 168]);
    assert_eq!(palette_rgb(5), [168, 0, 0]);
    assert_eq!(palette_rgb(6), [0, 168, 168]);
    assert_eq!(palette_rgb(8), [84, 84, 84]);
    assert_eq!(palette_rgb(14), [252, 252, 84]);
    assert_eq!(palette_rgb(7), [255, 0, 255]);
    assert_eq!(palette_rgb(200), [255, 0, 255]);
}

#[test]
fn rgba_expands_each_pixel_and_hides_background_on_request() {
    let checkpoint = checkpoint_from_ascii("pair", &[".2"]);
    assert_eq!(checkpoint_rgba(&checkpoint, false), vec![0, 0, 173, 255, 252, 0, 84, 255]);
    assert_eq!(checkpoint_rgba(&checkpoint, true), vec![0, 0, 173, 0, 252, 0, 84, 255]);

    let mut buffer = vec![9u8; 3];
    checkpoint_rgba_into(&checkpoint, true, &mut buffer);
    assert_eq!(buffer, vec![0, 0, 173, 0, 252, 0, 84, 255]);

    let sun = sun_checkpoint(true);
    assert_eq!(checkpoint_rgba(&sun, false).len(), 4 * sun.pixels.len());
}

#[test]
fn pixel_set_tests_bounds_and_background() {
    let checkpoint = checkpoint_from_ascii("probe", &[".3", "3."]);
    assert!(!checkpoint_pixel_set(&checkpoint, 0, 0));
    assert!(checkpoint_pixel_set(&checkpoint, 1, 0));
    assert!(checkpoint_pixel_set(&checkpoint, 0, 1));
    assert!(!checkpoint_pixel_set(&checkpoint, 2, 0));
    assert!(!checkpoint_pixel_set(&checkpoint, -1, 1));
    assert!(!checkpoint_pixel_set(&checkpoint, 0, 2));
}

#[test]
fn frame_starts_blank_and_ignores_outside_pixels() {
    let mut frame = IndexedFrame::new(4, 3);
    assert_eq!((frame.width(), frame.height()), (4, 3));
    frame.set_pixel(1, 2, 7);
    frame.set_pixel(-1, 0, 7);
    frame.set_pixel(4, 0, 7);
    frame.set_pixel(0, 3, 7);
    let checkpoint = frame.into_checkpoint("f");
    let mut expected = vec![0u8; 12];
    expected[2 * 4 + 1] = 7;
    assert_eq!(checkpoint.pixels, expected);
}

#[test]
fn fill_rect_covers_half_open_box_clipped() {
    let mut frame = IndexedFrame::new(5, 4);
    frame.clear(1);
    frame.fill_rect(-2, 1, 2, 3, 9);
    let checkpoint = frame.into_checkpoint("r");
    assert_eq!(
        checkpoint.pixels,
        vec![1, 1, 1, 1, 1, 9, 9, 1, 1, 1, 9, 9, 1, 1, 1, 1, 1, 1, 1, 1]
    );
}

#[test]
fn lines_join_their_end_points() {
    let mut frame = IndexedFrame::new(8, 8);
    frame.line(1, 1, 6, 1, 3);
    frame.line(0, 0, 3, 3, 4);
    frame.line(7, 7, 7, 7, 5);
    let c = frame.into_checkpoint("l");
    for x in 1..=6 {
        assert_eq!(pixel(&c, x, 1), if x == 1 { 4 } else { 3 });
    }
    for d in 0..=3 {
        assert_eq!(pixel(&c, d, d), 4);
    }
    assert_eq!(pixel(&c, 7, 7), 5);
    assert_eq!(pixel(&c, 7, 1), 0);
    assert_eq!(count_color(&c, 3) + count_color(&c, 4) + count_color(&c, 5), 6 - 1 + 4 + 1);
}

#[test]
fn vertical_line_covers_its_column() {
    let mut frame = IndexedFrame::new(6, 8);
    frame.line(3, 6, 3, 1, 4);
    let c = frame.into_checkpoint("v");
    for y in 0..8 {
        for x in 0..6 {
            let expected = if x == 3 && (1..=6).contains(&y) { 4 } else { 0 };
            assert_eq!(pixel(&c, x, y), expected, "({x},{y})");
        }
    }
}

#[test]
fn steep_line_visits_every_row() {
    let mut frame = IndexedFrame::new(10, 10);
    frame.line(2, 9, 4, 0, 6);
    let c = frame.into_checkpoint("s");
    for y in 0..10 {
        assert!((0..10).any(|x| pixel(&c, x, y) == 6));
    }
    assert_eq!(pixel(&c, 2, 9), 6);
    assert_eq!(pixel(&c, 4, 0), 6);
}

#[test]
fn blit_copies_or_keeps_background() {
    let sprite = checkpoint_from_ascii("s", &["2.", ".2"]);
    let mut opaque = IndexedFrame::new(3, 3);
    opaque.clear(5);
    opaque.blit_checkpoint(&sprite, 1, 1, false);
    assert_eq!(opaque.into_checkpoint("o").pixels, vec![5, 5, 5, 5, 2, 0, 5, 0, 2]);

    let mut see_through = IndexedFrame::new(3, 3);
    see_through.clear(5);
    see_through.blit_checkpoint(&sprite, 1, 1, true);
    assert_eq!(see_through.into_checkpoint("t").pixels, vec![5, 5, 5, 5, 2, 5, 5, 5, 2]);

    let mut clipped = IndexedFrame::new(2, 2);
    clipped.blit_checkpoint(&sprite, -1, -1, false);
    assert_eq!(clipped.into_checkpoint("c").pixels, vec![2, 0, 0, 0]);
}

#[test]
fn mask_paints_only_marked_cells() {
    let mut frame = IndexedFrame::new(4, 2);
    draw_effect_mask(&mut frame, 1, 0, &["X.X", ".X."], 9);
    assert_eq!(frame.into_checkpoint("m").pixels, vec![0, 9, 0, 9, 0, 0, 9, 0]);
}

#[test]
fn ring_of_radius_three() {
    let mut frame = IndexedFrame::new(9, 9);
    draw_explosion_ring(&mut frame, 4, 4, 3, 2);
    let c = frame.into_checkpoint("ring");
    assert_eq!(pixel(&c, 7, 4), 2);
    assert_eq!(pixel(&c, 1, 4), 2);
    assert_eq!(pixel(&c, 4, 7), 2);
    assert_eq!(pixel(&c, 4, 1), 2);
    assert_eq!(pixel(&c, 4, 4), 0);
    for y in 0..9 {
        for x in 0..9 {
            if pixel(&c, x, y) == 2 {
                let dx = x as i32 - 4;
                let dy = y as i32 - 4;
                let d2 = dx * dx + dy * dy;
                assert!((4..=16).contains(&d2), "({x},{y})");
            }
        }
    }

    let mut untouched = IndexedFrame::new(3, 3);
    draw_explosion_ring(&mut untouched, 1, 1, 0, 2);
    assert_eq!(untouched.into_checkpoint("u").pixels, vec![0; 9]);
}

#[test]
fn building_explosion_erase_uses_background() {
    let mut frame = screen();
    frame.fill_rect(80, 100, 120, 140, COLOR_BUILDING_RED);
    draw_building_explosion(&mut frame, 100, 120, 6, true);
    let c = frame.into_checkpoint("e");
    assert_eq!(pixel(&c, 106, 120), COLOR_BG);
    assert_eq!(pixel(&c, 100, 120), COLOR_BUILDING_RED);
}

#[test]
fn building_explosion_masks_and_general_radius() {
    let mut small = screen();
    draw_building_explosion(&mut small, 100, 100, 4, false);
    let c = small.into_checkpoint("small");
    assert_eq!(pixel(&c, 100, 97), COLOR_EXPLOSION);
    assert_eq!(pixel(&c, 100, 100), COLOR_BG);

    let mut large = screen();
    draw_building_explosion(&mut large, 100, 100, 20, false);
    let c = large.into_checkpoint("large");
    assert_eq!(pixel(&c, 120, 100), COLOR_EXPLOSION);
    assert_eq!(pixel(&c, 100, 80), COLOR_EXPLOSION);
}

#[test]
fn gorilla_explosion_general_radius_draws_ring_and_line() {
    let mut frame = screen();
    draw_gorilla_explosion(&mut frame, 300, 200, 5, 280, 290, 150);
    let c = frame.into_checkpoint("g");
    assert_eq!(pixel(&c, 305, 200), COLOR_EXPLOSION);
    for x in 280..=290 {
        assert_eq!(pixel(&c, x, 150), COLOR_EXPLOSION);
    }
}

#[test]
fn wind_arrow_points_with_the_wind() {
    let mut east = screen();
    draw_wind_arrow(&mut east, 5);
    let c = east.into_checkpoint("east");
    for x in 320..=350 {
        assert_eq!(pixel(&c, x, 345), COLOR_EXPLOSION);
    }
    assert_eq!(pixel(&c, 351, 345), COLOR_BG);
    assert_eq!(pixel(&c, 348, 343), COLOR_EXPLOSION);
    assert_eq!(pixel(&c, 348, 347), COLOR_EXPLOSION);

    let mut west = screen();
    draw_wind_arrow(&mut west, -2);
    let c = west.into_checkpoint("west");
    for x in 308..=320 {
        assert_eq!(pixel(&c, x, 345), COLOR_EXPLOSION);
    }
    assert_eq!(pixel(&c, 310, 343), COLOR_EXPLOSION);
}

#[test]
fn banana_pixel_counts_and_mirror() {
    let counts: Vec<usize> = (0..4).map(|r| count_color(&render_banana_checkpoint(r), COLOR_WINDOW)).collect();
    assert_eq!(counts, vec![19, 25, 25, 19]);
    let zero = render_banana_checkpoint(0);
    let three = render_banana_checkpoint(3);
    for y in 0..16 {
        for x in 0..16 {
            let expected = if x <= 5 { pixel(&zero, 5 - x, y) } else { COLOR_BG };
            assert_eq!(pixel(&three, x, y), expected);
            if y >= 7 {
                assert_eq!(pixel(&zero, x, y), COLOR_BG);
            }
        }
    }
    assert_eq!(render_banana_checkpoint(i32::MIN).name, "banana_0");
}

#[test]
fn gorilla_poses_share_their_legs_and_raise_one_fist() {
    let down = render_gorilla_checkpoint("g", GorillaPose::ArmsDown);
    let left = render_gorilla_checkpoint("g", GorillaPose::LeftUp);
    let right = render_gorilla_checkpoint("g", GorillaPose::RightUp);
    for y in 21..30 {
        for x in 0..30 {
            assert_eq!(pixel(&down, x, y), pixel(&left, x, y));
            assert_eq!(pixel(&down, x, y), pixel(&right, x, y));
        }
    }
    for x in 0..30 {
        assert_eq!(pixel(&down, x, 0), COLOR_BG);
        assert_eq!(pixel(&left, x, 0) == COLOR_GORILLA, (4..=8).contains(&x));
        assert_eq!(pixel(&right, x, 0) == COLOR_GORILLA, (21..=25).contains(&x));
    }
}

#[test]
fn widest_drawn_wind_reaches_the_screen_edge() {
    let mut frame = screen();
    draw_wind_arrow(&mut frame, MAX_DRAWN_WIND);
    let c = frame.into_checkpoint("far");
    for x in 320..640 {
        assert_eq!(pixel(&c, x, 345), COLOR_EXPLOSION);
    }
    assert_eq!(pixel(&c, 319, 345), COLOR_BG);
}
