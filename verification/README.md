# Gorillas

The QBASIC game of two gorillas throwing exploding bananas across a city
skyline, with its logic verified in Verus.

## Layout

- `src/` — the verified library.
  - `play_ref.rs`: the `PLAY` command parser (notes, rests, lengths, dots,
    tempo, octaves, articulation) and the game's sound catalog.
  - `wav.rs`: framing of 16-bit PCM samples as a WAV file.
  - `render_ref.rs`, `sprites.rs`: palette, sprite sheets and the sprite
    checkpoints drawn from them; hit testing against sprites.
  - `frame.rs`: the indexed-colour frame buffer with pixels, rectangles,
    Bresenham lines and sprite blits.
  - `effect_masks.rs`, `effects.rs`, `animation.rs`: explosion outlines,
    rings, the wind arrow, and the frame schedules of the explosion
    animations.
  - `skyline.rs`: the random city of a round.
  - `shot.rs`, `game.rs`: what a banana hits, and the scoring and turn rules
    of a match.
  - `input.rs`, `border.rs`: what the prompts accept, and the star border of
    the title screens.
  - `export.rs`: cropping checkpoints and writing them as PPM images.
- `tests/` — tests of the library.
- `app/` — the game window, sound, the floating-point banana flight and
  scene composition, and the command-line tools (`trace`, `play-trace`,
  `play-wav`, `render-trace`, `scene-trace`).
