//! Verified core of the Gorillas game: the `PLAY` parser and sound catalog,
//! WAV framing, the indexed-colour renderer with its sprite sheets and
//! explosion effects, the random city of a round, the rules of a match and
//! of its prompts, and image export.

pub mod play_ref;
pub mod render_ref;
pub mod sprites;
pub mod wav;
pub mod frame;
pub mod shot;
pub mod effect_masks;
pub mod effects;
pub mod export;
pub mod game;
pub mod skyline;
pub mod input;
pub mod animation;
pub mod border;
pub mod text;
