//! The integer side of a banana throw: who throws, which gorilla a point
//! hits, and what a sampled point collides with.

use vstd::prelude::*;
use vstd::string::StringExecFns;
use crate::render_ref::{checkpoint_hit, checkpoint_pixel_set, checkpoint_wf, RenderCheckpoint};
use crate::text::{decimal_chars, push_decimal};

verus! {

/// The number of simulation steps after which a throw counts as a miss.
pub const SHOT_MAX_STEPS: usize = 2200;

/// Why a throw could not be simulated.
#[derive(Debug, Clone, PartialEq, Eq, Structural)]
pub enum ShotSimulationError {
    /// Players are numbered 1 and 2.
    InvalidPlayerId(usize),
}

/// The message that describes a throw that could not be simulated.
pub open spec fn shot_error_text(e: ShotSimulationError) -> Seq<char> {
    match e {
        ShotSimulationError::InvalidPlayerId(id) => "invalid player id "@ + decimal_chars(id as nat)
            + "; expected 1 or 2"@,
    }
}

impl ShotSimulationError {
    /// The message that describes the error.
    pub fn message(&self) -> (r: String)
        ensures
            r@ == shot_error_text(*self),
    {
        let mut text = String::new();
        match self {
            ShotSimulationError::InvalidPlayerId(id) => {
                text.append("invalid player id ");
                push_decimal(&mut text, *id as u64);
                text.append("; expected 1 or 2");
            },
        }
        text
    }
}

/// The gorilla index, 0 or 1, of player 1 or 2.
pub fn thrower_from_player_id(player_id: usize) -> (r: Result<usize, ShotSimulationError>)
    ensures
        player_id == 1 || player_id == 2 ==> r == Ok::<usize, ShotSimulationError>((player_id - 1) as usize),
        !(player_id == 1 || player_id == 2) ==> r == Err::<usize, ShotSimulationError>(
            ShotSimulationError::InvalidPlayerId(player_id),
        ),
{
    if player_id == 1 || player_id == 2 {
        Ok(player_id - 1)
    } else {
        Err(ShotSimulationError::InvalidPlayerId(player_id))
    }
}


/// A gorilla at a whole-pixel position, for hit testing.
#[derive(Debug, Clone, Copy)]
pub struct PixelGorilla {
    /// Column of the sprite's top-left corner.
    pub x: i32,
    /// Row of the sprite's top-left corner.
    pub y: i32,
    pub alive: bool,
}

/// The point (`x`, `y`) lies on a non-background pixel of the live gorilla's
/// sprite.
pub open spec fn gorilla_hit(g: PixelGorilla, sprite: RenderCheckpoint, x: int, y: int) -> bool {
    g.alive && checkpoint_hit(sprite@, x - g.x, y - g.y)
}

/// The index of the first gorilla whose sprite the point (`x`, `y`) hits;
/// `sprites[i]` is the sprite of `gorillas[i]` in its current pose.
pub fn gorilla_pixel_collision(gorillas: &[PixelGorilla], sprites: &[RenderCheckpoint], x: i32, y: i32) -> (r: Option<
    usize,
>)
    requires
        gorillas@.len() == sprites@.len(),
        forall|i: int|
            0 <= i < sprites@.len() ==> checkpoint_wf((#[trigger] sprites@[i])@) && sprites@[i].width <= i32::MAX
                && sprites@[i].height <= i32::MAX,
        forall|i: int|
            0 <= i < gorillas@.len() && (#[trigger] gorillas@[i]).alive ==> i32::MIN <= x - gorillas@[i].x <= i32::MAX
                && i32::MIN <= y - gorillas@[i].y <= i32::MAX,
    ensures
        r matches Some(i) ==> 0 <= i < gorillas@.len() && gorilla_hit(gorillas@[i as int], sprites@[i as int], x as int, y as int)
            && forall|j: int| 0 <= j < i ==> !gorilla_hit(gorillas@[j], sprites@[j], x as int, y as int),
        r is None ==> forall|j: int| 0 <= j < gorillas@.len() ==> !gorilla_hit(gorillas@[j], sprites@[j], x as int, y as int),
{
    let mut index: usize = 0;
    while index < gorillas.len()
        invariant
            index <= gorillas@.len(),
            gorillas@.len() == sprites@.len(),
            forall|i: int|
                0 <= i < sprites@.len() ==> checkpoint_wf((#[trigger] sprites@[i])@) && sprites@[i].width <= i32::MAX
                    && sprites@[i].height <= i32::MAX,
            forall|i: int|
                0 <= i < gorillas@.len() && (#[trigger] gorillas@[i]).alive ==> i32::MIN <= x - gorillas@[i].x <= i32::MAX
                    && i32::MIN <= y - gorillas@[i].y <= i32::MAX,
            forall|j: int| 0 <= j < index ==> !gorilla_hit(gorillas@[j], sprites@[j], x as int, y as int),
        decreases gorillas@.len() - index,
    {
        let gorilla = gorillas[index];
        if gorilla.alive {
            let sprite = &sprites[index];
            if checkpoint_pixel_set(sprite, x - gorilla.x, y - gorilla.y) {
                return Some(index);
            }
        }
        index = index + 1;
    }
    None
}

/// What a sampled point of the banana's path touches first: the sun shades
/// the gorillas, which shade the buildings.
#[derive(Debug, Clone, Copy, PartialEq, Eq, Structural)]
pub enum CollisionPointValue {
    Empty,
    Sun,
    Building(usize),
    Gorilla(usize),
}

/// Combines what a point touches into the one thing that counts.
pub fn classify_collision(sun: bool, gorilla: Option<usize>, building: Option<usize>) -> (r: CollisionPointValue)
    ensures
        sun ==> r == CollisionPointValue::Sun,
        !sun && gorilla is Some ==> r == CollisionPointValue::Gorilla(gorilla->0),
        !sun && gorilla is None && building is Some ==> r == CollisionPointValue::Building(building->0),
        !sun && gorilla is None && building is None ==> r == CollisionPointValue::Empty,
{
    if sun {
        return CollisionPointValue::Sun;
    }
    if let Some(index) = gorilla {
        return CollisionPointValue::Gorilla(index);
    }
    if let Some(index) = building {
        return CollisionPointValue::Building(index);
    }
    CollisionPointValue::Empty
}

/// What a flight keeps track of about the sun within one step: whether the
/// banana is passing behind the sun, whether the sun looks shocked, and
/// whether a sampled point of this step touched the sun.
#[derive(Debug, Clone, Copy, PartialEq, Eq, Structural)]
pub struct SunWatch {
    pub in_sun: bool,
    pub sun_shocked: bool,
    pub saw_sun: bool,
}

/// What a sampled point stops the flight with.
#[derive(Debug, Clone, Copy, PartialEq, Eq, Structural)]
pub enum ShotImpact {
    Building(usize),
    Gorilla(usize),
}

/// Takes in one sampled point of the flight that touches `value`: a sun
/// pixel in the sun's band shocks the sun and hides the banana behind it, a
/// building stops the flight, and so does a gorilla, except the thrower's own
/// one during the grace time right after the throw; anything else changes
/// nothing.
pub fn sample_step(
    watch: SunWatch,
    value: CollisionPointValue,
    in_sun_band: bool,
    thrower: usize,
    in_grace_time: bool,
) -> (r: (SunWatch, Option<ShotImpact>))
    ensures
        value == CollisionPointValue::Sun && in_sun_band ==> r == (
            SunWatch { in_sun: true, sun_shocked: true, saw_sun: true },
            None::<ShotImpact>,
        ),
        value == CollisionPointValue::Sun && !in_sun_band ==> r == (watch, None::<ShotImpact>),
        value == CollisionPointValue::Empty ==> r == (watch, None::<ShotImpact>),
        value matches CollisionPointValue::Building(b) ==> r == (watch, Some(ShotImpact::Building(b))),
        value matches CollisionPointValue::Gorilla(g) ==> r == (if g == thrower && in_grace_time {
            (watch, None::<ShotImpact>)
        } else {
            (watch, Some(ShotImpact::Gorilla(g)))
        }),
{
    match value {
        CollisionPointValue::Empty => (watch, None),
        CollisionPointValue::Sun => {
            if in_sun_band {
                (SunWatch { in_sun: true, sun_shocked: true, saw_sun: true }, None)
            } else {
                (watch, None)
            }
        },
        CollisionPointValue::Building(b) => (watch, Some(ShotImpact::Building(b))),
        CollisionPointValue::Gorilla(g) => {
            if g == thrower && in_grace_time {
                (watch, None)
            } else {
                (watch, Some(ShotImpact::Gorilla(g)))
            }
        },
    }
}

/// Whether the banana is still behind the sun after a step: it comes out
/// once a step touches no sun pixel while it is away from the sun.
pub fn still_in_sun(watch: SunWatch, away_from_sun: bool) -> (r: bool)
    ensures
        r == (watch.in_sun && (watch.saw_sun || !away_from_sun)),
{
    if watch.in_sun && !watch.saw_sun && away_from_sun {
        false
    } else {
        watch.in_sun
    }
}

/// How a step of the flight ends.
#[derive(Debug, Clone, Copy, PartialEq, Eq, Structural)]
pub enum StepEnd {
    /// The flight goes on.
    Continue,
    /// The banana left the screen.
    Miss,
    /// The banana hit something.
    Impact(ShotImpact),
}

/// Ends a step: leaving the screen is a miss, whatever was touched; else a
/// hit ends the flight; else it goes on.
pub fn step_end(out_of_bounds: bool, impact: Option<ShotImpact>) -> (r: StepEnd)
    ensures
        out_of_bounds ==> r == StepEnd::Miss,
        !out_of_bounds && impact is None ==> r == StepEnd::Continue,
        !out_of_bounds ==> (impact matches Some(i) ==> r == StepEnd::Impact(i)),
{
    if out_of_bounds {
        StepEnd::Miss
    } else {
        match impact {
            Some(i) => StepEnd::Impact(i),
            None => StepEnd::Continue,
        }
    }
}

}
