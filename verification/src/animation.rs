//! The frame schedules of the explosion animations, and the rings and strokes
//! that each frame draws. Where a ring lands on screen is worked out by the
//! caller; this module decides which rings, in which colours and order.

use vstd::prelude::*;
use crate::effects::SCREEN_WIDTH;
use crate::render_ref::{BuildingExplosionPhase, GorillaExplosionPhase, COLOR_BG, COLOR_EXPLOSION, COLOR_GORILLA};

verus! {

/// The horizontal scale of the screen against the 320-pixel-wide CGA
/// screen that the explosion geometry is measured in.
pub open spec fn scale_x() -> int {
    SCREEN_WIDTH / 320
}

/// Radius bound of the first stage of a gorilla explosion.
pub open spec fn stage_1_max() -> int {
    8 * scale_x()
}

/// Radius bound of the second stage of a gorilla explosion.
pub open spec fn stage_2_max() -> int {
    16 * scale_x()
}

/// Radius bound of the erase sweep of a gorilla explosion.
pub open spec fn stage_3_max() -> int {
    24 * scale_x()
}

// ---------------------------------------------------------------------------
// Building explosion

/// The frames of a building explosion: the rings grow from step 0 to
/// `max_step`, then shrink back from `max_step` to 0.
pub open spec fn building_explosion_frames_spec(max_step: int) -> Seq<(i32, BuildingExplosionPhase)> {
    let n = if max_step >= 0 {
        max_step + 1
    } else {
        0
    };
    Seq::new(n as nat, |k: int| (k as i32, BuildingExplosionPhase::Expand)) + Seq::new(
        n as nat,
        |k: int| ((max_step - k) as i32, BuildingExplosionPhase::Collapse),
    )
}

/// The frame schedule of a building explosion.
pub fn building_explosion_frames(max_step: i32) -> (r: Vec<(i32, BuildingExplosionPhase)>)
    ensures
        r@ == building_explosion_frames_spec(max_step as int),
{
    let mut frames: Vec<(i32, BuildingExplosionPhase)> = Vec::new();
    let n: i64 = if max_step >= 0 {
        max_step as i64 + 1
    } else {
        0
    };
    let mut k: i64 = 0;
    while k < n
        invariant
            0 <= k <= n,
            n == (if max_step >= 0 {
                max_step + 1
            } else {
                0
            }),
            frames@ == Seq::new(k as nat, |j: int| (j as i32, BuildingExplosionPhase::Expand)),
        decreases n - k,
    {
        frames.push((k as i32, BuildingExplosionPhase::Expand));
        k = k + 1;
        proof {
            assert(frames@ =~= Seq::new(k as nat, |j: int| (j as i32, BuildingExplosionPhase::Expand)));
        }
    }
    let ghost expand = frames@;
    let mut k: i64 = 0;
    while k < n
        invariant
            0 <= k <= n,
            n == (if max_step >= 0 {
                max_step + 1
            } else {
                0
            }),
            expand == Seq::new(n as nat, |j: int| (j as i32, BuildingExplosionPhase::Expand)),
            frames@ == expand + Seq::new(k as nat, |j: int| ((max_step - j) as i32, BuildingExplosionPhase::Collapse)),
        decreases n - k,
    {
        frames.push(((max_step as i64 - k) as i32, BuildingExplosionPhase::Collapse));
        k = k + 1;
        proof {
            assert(frames@ =~= expand + Seq::new(
                k as nat,
                |j: int| ((max_step - j) as i32, BuildingExplosionPhase::Collapse),
            ));
        }
    }
    frames
}

/// `value` held between `low` and `high`.
pub open spec fn clamp_spec(value: int, low: int, high: int) -> int {
    if value < low {
        low
    } else if value > high {
        high
    } else {
        value
    }
}

/// The rings of one building-explosion frame, by ring step (a ring of step
/// `s` has radius `s / 2`) and colour, in drawing order. While expanding,
/// the rings from 0 up to the frame's step; while collapsing, all rings,
/// then the rings from the frame's step outward painted over in background.
pub open spec fn building_explosion_rings_spec(max_step: int, step: int, phase: BuildingExplosionPhase) -> Seq<
    (i32, u8),
> {
    let c = clamp_spec(step, 0, max_step);
    match phase {
        BuildingExplosionPhase::Expand => Seq::new((c + 1) as nat, |k: int| (k as i32, COLOR_EXPLOSION)),
        BuildingExplosionPhase::Collapse => Seq::new((max_step + 1) as nat, |k: int| (k as i32, COLOR_EXPLOSION))
            + Seq::new((max_step - c + 1) as nat, |k: int| ((c + k) as i32, COLOR_BG)),
    }
}

/// The rings that one building-explosion frame draws.
pub fn building_explosion_rings(max_step: i32, step: i32, phase: BuildingExplosionPhase) -> (r: Vec<(i32, u8)>)
    requires
        0 <= max_step,
    ensures
        r@ == building_explosion_rings_spec(max_step as int, step as int, phase),
{
    let clamped: i32 = if step < 0 {
        0
    } else if step > max_step {
        max_step
    } else {
        step
    };
    let mut rings: Vec<(i32, u8)> = Vec::new();
    let last: i64 = match phase {
        BuildingExplosionPhase::Expand => clamped as i64,
        BuildingExplosionPhase::Collapse => max_step as i64,
    };
    let mut k: i64 = 0;
    while k <= last
        invariant
            0 <= k <= last + 1,
            0 <= last <= max_step,
            rings@ == Seq::new(k as nat, |j: int| (j as i32, COLOR_EXPLOSION)),
        decreases last + 1 - k,
    {
        rings.push((k as i32, COLOR_EXPLOSION));
        k = k + 1;
        proof {
            assert(rings@ =~= Seq::new(k as nat, |j: int| (j as i32, COLOR_EXPLOSION)));
        }
    }
    match phase {
        BuildingExplosionPhase::Expand => {},
        BuildingExplosionPhase::Collapse => {
            let ghost grown = rings@;
            let span: i64 = max_step as i64 - clamped as i64;
            let mut k: i64 = 0;
            while k <= span
                invariant
                    0 <= clamped <= max_step,
                    span == max_step - clamped,
                    0 <= k <= span + 1,
                    rings@ == grown + Seq::new(k as nat, |j: int| ((clamped + j) as i32, COLOR_BG)),
                decreases span + 1 - k,
            {
                rings.push(((clamped as i64 + k) as i32, COLOR_BG));
                k = k + 1;
                proof {
                    assert(rings@ =~= grown + Seq::new(k as nat, |j: int| ((clamped + j) as i32, COLOR_BG)));
                }
            }
        },
    }
    rings
}

// ---------------------------------------------------------------------------
// Gorilla explosion

/// The frames of a gorilla explosion: the lower burst at step 1 and then at
/// every second step up to its bound, likewise the upper burst, and the erase
/// sweep from just inside its bound down to 1 every second step.
pub open spec fn gorilla_explosion_frames_spec() -> Seq<(i32, GorillaExplosionPhase)> {
    seq![(1i32, GorillaExplosionPhase::LowerBurst)] + Seq::new(
        (stage_1_max() / 2) as nat,
        |k: int| ((2 + 2 * k) as i32, GorillaExplosionPhase::LowerBurst),
    ) + seq![(1i32, GorillaExplosionPhase::UpperBurst)] + Seq::new(
        (stage_2_max() / 2) as nat,
        |k: int| ((2 + 2 * k) as i32, GorillaExplosionPhase::UpperBurst),
    ) + Seq::new((stage_3_max() / 2) as nat, |k: int| ((stage_3_max() - 1 - 2 * k) as i32, GorillaExplosionPhase::Erase))
}

/// Appends `count` frames of `phase` at steps `first`, `first + delta`, ...
fn push_frames(
    frames: &mut Vec<(i32, GorillaExplosionPhase)>,
    first: i32,
    delta: i32,
    count: i32,
    phase: GorillaExplosionPhase,
)
    requires
        0 <= count <= 1000,
        -1000 <= first <= 1000,
        -2 <= delta <= 2,
    ensures
        final(frames)@ == old(frames)@ + Seq::new(count as nat, |k: int| ((first + delta * k) as i32, phase)),
{
    let ghost start = frames@;
    let mut k: i32 = 0;
    let mut value: i32 = first;
    while k < count
        invariant
            0 <= k <= count <= 1000,
            -1000 <= first <= 1000,
            -2 <= delta <= 2,
            value == first + delta * k,
            frames@ == start + Seq::new(k as nat, |j: int| ((first + delta * j) as i32, phase)),
        decreases count - k,
    {
        frames.push((value, phase));
        proof {
            assert(delta * (k + 1) == delta * k + delta) by (nonlinear_arith);
            assert(-2 * (k + 1) <= delta * (k + 1) <= 2 * (k + 1)) by (nonlinear_arith)
                requires
                    -2 <= delta <= 2,
                    0 <= k + 1,
            ;
        }
        k = k + 1;
        value = value + delta;
        proof {
            assert(frames@ =~= start + Seq::new(k as nat, |j: int| ((first + delta * j) as i32, phase)));
        }
    }
}

/// The frame schedule of a gorilla explosion.
pub fn gorilla_explosion_frames() -> (r: Vec<(i32, GorillaExplosionPhase)>)
    ensures
        r@ == gorilla_explosion_frames_spec(),
{
    let scale = SCREEN_WIDTH / 320;
    let mut frames: Vec<(i32, GorillaExplosionPhase)> = Vec::new();
    frames.push((1, GorillaExplosionPhase::LowerBurst));
    push_frames(&mut frames, 2, 2, 8 * scale / 2, GorillaExplosionPhase::LowerBurst);
    frames.push((1, GorillaExplosionPhase::UpperBurst));
    push_frames(&mut frames, 2, 2, 16 * scale / 2, GorillaExplosionPhase::UpperBurst);
    push_frames(&mut frames, 24 * scale - 1, -2, 24 * scale / 2, GorillaExplosionPhase::Erase);
    proof {
        assert(frames@ =~= gorilla_explosion_frames_spec());
    }
    frames
}

/// One drawing stroke of a gorilla-explosion frame.
#[derive(Debug, Clone, Copy, PartialEq, Eq, Structural)]
pub enum GorillaStroke {
    /// A ring around the lower centre, of this radius and colour.
    LowerRing { radius: i32, color: u8 },
    /// A ring around the upper centre, of this radius and colour.
    UpperRing { radius: i32, color: u8 },
    /// The horizontal flash this many pixels above its base row.
    Line { rise: i32 },
}

/// The first stage up to radius `n`: for each radius from 1, a ring around
/// the lower centre and a flash line that rises with it.
pub open spec fn stage_1_strokes(n: int) -> Seq<GorillaStroke>
    decreases n,
{
    if n <= 0 {
        Seq::empty()
    } else {
        stage_1_strokes(n - 1) + seq![
            GorillaStroke::LowerRing { radius: n as i32, color: COLOR_EXPLOSION },
            GorillaStroke::Line { rise: n as i32 },
        ]
    }
}

/// The colour of ring `radius` of the second stage: gorilla colour for even
/// radii, explosion colour for odd ones.
pub open spec fn stage_2_color(radius: int) -> u8 {
    if radius % 2 == 0 {
        COLOR_GORILLA
    } else {
        COLOR_EXPLOSION
    }
}

/// The second stage up to radius `n`: for each radius from 1, the lower
/// burst shrinks by one ring while it lasts, and a ring grows around the
/// upper centre.
pub open spec fn stage_2_strokes(n: int) -> Seq<GorillaStroke>
    decreases n,
{
    if n <= 0 {
        Seq::empty()
    } else {
        stage_2_strokes(n - 1) + (if n < stage_1_max() {
            seq![GorillaStroke::LowerRing { radius: (stage_1_max() + 1 - n) as i32, color: COLOR_BG }]
        } else {
            Seq::empty()
        }) + seq![GorillaStroke::UpperRing { radius: n as i32, color: stage_2_color(n) }]
    }
}

/// The strokes of one gorilla-explosion frame, in drawing order.
pub open spec fn gorilla_explosion_strokes_spec(step: int, phase: GorillaExplosionPhase) -> Seq<GorillaStroke> {
    match phase {
        GorillaExplosionPhase::LowerBurst => stage_1_strokes(clamp_spec(step, 1, stage_1_max())),
        GorillaExplosionPhase::UpperBurst => stage_1_strokes(stage_1_max()) + stage_2_strokes(
            clamp_spec(step, 1, stage_2_max()),
        ),
        GorillaExplosionPhase::Erase => {
            let c = clamp_spec(step, 1, stage_3_max());
            stage_1_strokes(stage_1_max()) + stage_2_strokes(stage_2_max()) + Seq::new(
                (stage_3_max() - c + 1) as nat,
                |k: int| GorillaStroke::UpperRing { radius: (c + k) as i32, color: COLOR_BG },
            )
        },
    }
}

/// Appends the first stage up to radius `n`.
fn push_stage_1(strokes: &mut Vec<GorillaStroke>, n: i32)
    requires
        0 <= n <= 1000,
    ensures
        final(strokes)@ == old(strokes)@ + stage_1_strokes(n as int),
{
    let ghost start = strokes@;
    let mut radius: i32 = 1;
    while radius <= n
        invariant
            1 <= radius <= n + 1,
            n <= 1000,
            strokes@ == start + stage_1_strokes(radius - 1),
        decreases n + 1 - radius,
    {
        strokes.push(GorillaStroke::LowerRing { radius, color: COLOR_EXPLOSION });
        strokes.push(GorillaStroke::Line { rise: radius });
        proof {
            assert(strokes@ =~= start + stage_1_strokes(radius as int));
        }
        radius = radius + 1;
    }
}

/// Appends the second stage up to radius `n`.
fn push_stage_2(strokes: &mut Vec<GorillaStroke>, n: i32)
    requires
        0 <= n <= 1000,
    ensures
        final(strokes)@ == old(strokes)@ + stage_2_strokes(n as int),
{
    let ghost start = strokes@;
    let s1 = 8 * (SCREEN_WIDTH / 320);
    let mut radius: i32 = 1;
    while radius <= n
        invariant
            1 <= radius <= n + 1,
            n <= 1000,
            s1 == stage_1_max(),
            strokes@ == start + stage_2_strokes(radius - 1),
        decreases n + 1 - radius,
    {
        if radius < s1 {
            strokes.push(GorillaStroke::LowerRing { radius: s1 + 1 - radius, color: COLOR_BG });
        }
        let color = if radius % 2 == 0 {
            COLOR_GORILLA
        } else {
            COLOR_EXPLOSION
        };
        strokes.push(GorillaStroke::UpperRing { radius, color });
        proof {
            assert(strokes@ =~= start + stage_2_strokes(radius as int));
        }
        radius = radius + 1;
    }
}

/// The strokes that one gorilla-explosion frame draws.
pub fn gorilla_explosion_strokes(step: i32, phase: GorillaExplosionPhase) -> (r: Vec<GorillaStroke>)
    ensures
        r@ == gorilla_explosion_strokes_spec(step as int, phase),
{
    let scale = SCREEN_WIDTH / 320;
    let s1 = 8 * scale;
    let s2 = 16 * scale;
    let s3 = 24 * scale;
    let mut strokes: Vec<GorillaStroke> = Vec::new();
    match phase {
        GorillaExplosionPhase::LowerBurst => {
            let clamped = if step < 1 {
                1
            } else if step > s1 {
                s1
            } else {
                step
            };
            push_stage_1(&mut strokes, clamped);
        },
        GorillaExplosionPhase::UpperBurst => {
            let clamped = if step < 1 {
                1
            } else if step > s2 {
                s2
            } else {
                step
            };
            push_stage_1(&mut strokes, s1);
            push_stage_2(&mut strokes, clamped);
        },
        GorillaExplosionPhase::Erase => {
            let clamped = if step < 1 {
                1
            } else if step > s3 {
                s3
            } else {
                step
            };
            push_stage_1(&mut strokes, s1);
            push_stage_2(&mut strokes, s2);
            let ghost before = strokes@;
            let mut radius = clamped;
            while radius <= s3
                invariant
                    1 <= clamped <= radius <= s3 + 1,
                    s3 == stage_3_max(),
                    strokes@ == before + Seq::new(
                        (radius - clamped) as nat,
                        |k: int| GorillaStroke::UpperRing { radius: (clamped + k) as i32, color: COLOR_BG },
                    ),
                decreases s3 + 1 - radius,
            {
                strokes.push(GorillaStroke::UpperRing { radius, color: COLOR_BG });
                radius = radius + 1;
                proof {
                    assert(strokes@ =~= before + Seq::new(
                        (radius - clamped) as nat,
                        |k: int| GorillaStroke::UpperRing { radius: (clamped + k) as i32, color: COLOR_BG },
                    ));
                }
            }
        },
    }
    strokes
}


// ---------------------------------------------------------------------------
// Laws of the animations

/// A building explosion grows its rings one step per frame from step 0 to
/// `max_step`, then replays the same steps backwards: frame `k` and frame
/// `2 * max_step + 1 - k` show step `k`, the first while expanding and the
/// second while collapsing.
pub proof fn lemma_building_explosion_schedule(max_step: int)
    requires
        0 <= max_step < i32::MAX,
    ensures
        building_explosion_frames_spec(max_step).len() == 2 * max_step + 2,
        forall|k: int|
            0 <= k <= max_step ==> #[trigger] building_explosion_frames_spec(max_step)[k] == (
                k as i32,
                BuildingExplosionPhase::Expand,
            ) && building_explosion_frames_spec(max_step)[2 * max_step + 1 - k] == (
                k as i32,
                BuildingExplosionPhase::Collapse,
            ),
{
}

/// The rings of a building explosion. The full blast draws every ring step
/// from 0 (the centre) to `max_step`, in order, in the explosion colour. An
/// expanding frame at step `s` draws the first `s + 1` rings of the full
/// blast; a collapsing frame at step `s` draws the full blast and then
/// paints over the rings from step `s` outward in the background colour.
/// Steps outside 0 to `max_step` count as the nearest end.
pub proof fn lemma_building_explosion_rings(max_step: int, step: int, phase: BuildingExplosionPhase)
    requires
        0 <= max_step < i32::MAX,
    ensures
        ({
            let full = building_explosion_rings_spec(max_step, max_step, BuildingExplosionPhase::Expand);
            &&& full.len() == max_step + 1
            &&& forall|k: int| 0 <= k <= max_step ==> #[trigger] full[k] == (k as i32, COLOR_EXPLOSION)
            &&& 0 <= step <= max_step ==> building_explosion_rings_spec(max_step, step, BuildingExplosionPhase::Expand)
                == full.take(step + 1)
            &&& 0 <= step <= max_step ==> building_explosion_rings_spec(max_step, step, BuildingExplosionPhase::Collapse)
                == full + Seq::new((max_step - step + 1) as nat, |k: int| ((step + k) as i32, COLOR_BG))
            &&& step < 0 ==> building_explosion_rings_spec(max_step, step, phase) == building_explosion_rings_spec(
                max_step,
                0,
                phase,
            )
            &&& step > max_step ==> building_explosion_rings_spec(max_step, step, phase)
                == building_explosion_rings_spec(max_step, max_step, phase)
        }),
{
    let full = building_explosion_rings_spec(max_step, max_step, BuildingExplosionPhase::Expand);
    if 0 <= step <= max_step {
        assert(building_explosion_rings_spec(max_step, step, BuildingExplosionPhase::Expand) =~= full.take(step + 1));
    }
}

/// The frames of a gorilla explosion, on the 640-pixel screen: the lower
/// burst at step 1 and then at steps 2, 4, ... 16; the upper burst at step 1
/// and then at steps 2, 4, ... 32; and the erase sweep at steps 47, 45, ...
/// 1: fifty frames in all.
pub proof fn lemma_gorilla_explosion_schedule()
    ensures
        gorilla_explosion_frames_spec().len() == 50,
        gorilla_explosion_frames_spec()[0] == (1i32, GorillaExplosionPhase::LowerBurst),
        forall|k: int|
            1 <= k <= 8 ==> #[trigger] gorilla_explosion_frames_spec()[k] == ((2 * k) as i32, GorillaExplosionPhase::LowerBurst),
        gorilla_explosion_frames_spec()[9] == (1i32, GorillaExplosionPhase::UpperBurst),
        forall|k: int|
            1 <= k <= 16 ==> #[trigger] gorilla_explosion_frames_spec()[9 + k] == (
                (2 * k) as i32,
                GorillaExplosionPhase::UpperBurst,
            ),
        forall|k: int|
            0 <= k < 24 ==> #[trigger] gorilla_explosion_frames_spec()[26 + k] == (
                (47 - 2 * k) as i32,
                GorillaExplosionPhase::Erase,
            ),
{
    let f = gorilla_explosion_frames_spec();
    assert(stage_1_max() == 16);
    assert(stage_2_max() == 32);
    assert(stage_3_max() == 48);
    assert forall|k: int| 1 <= k <= 8 implies #[trigger] f[k] == ((2 * k) as i32, GorillaExplosionPhase::LowerBurst) by {}
    assert forall|k: int| 1 <= k <= 16 implies #[trigger] f[9 + k] == ((2 * k) as i32, GorillaExplosionPhase::UpperBurst) by {}
    assert forall|k: int| 0 <= k < 24 implies #[trigger] f[26 + k] == ((47 - 2 * k) as i32, GorillaExplosionPhase::Erase) by {}
}

proof fn lemma_stage_1_shape(n: int)
    requires
        0 <= n <= 1000,
    ensures
        stage_1_strokes(n).len() == 2 * n,
        forall|r: int|
            1 <= r <= n ==> #[trigger] stage_1_strokes(n)[2 * r - 2] == (GorillaStroke::LowerRing {
                radius: r as i32,
                color: COLOR_EXPLOSION,
            }) && stage_1_strokes(n)[2 * r - 1] == (GorillaStroke::Line { rise: r as i32 }),
    decreases n,
{
    if n > 0 {
        lemma_stage_1_shape(n - 1);
    }
}

proof fn lemma_stage_2_shape(n: int)
    requires
        0 <= n <= 1000,
    ensures
        stage_1_max() == 16,
        stage_2_strokes(n).len() == (if n <= 15 {
            2 * n
        } else {
            n + 15
        }),
        forall|r: int|
            1 <= r <= n && r <= 15 ==> #[trigger] stage_2_strokes(n)[2 * r - 2] == (GorillaStroke::LowerRing {
                radius: (17 - r) as i32,
                color: COLOR_BG,
            }),
        forall|r: int|
            1 <= r <= n && r <= 15 ==> #[trigger] stage_2_strokes(n)[2 * r - 1] == (GorillaStroke::UpperRing {
                radius: r as i32,
                color: stage_2_color(r),
            }),
        forall|r: int|
            16 <= r <= n ==> #[trigger] stage_2_strokes(n)[r + 14] == (GorillaStroke::UpperRing {
                radius: r as i32,
                color: stage_2_color(r),
            }),
    decreases n,
{
    if n > 0 {
        lemma_stage_2_shape(n - 1);
    }
}

/// The strokes of a gorilla-explosion frame, on the 640-pixel screen. The
/// lower burst at step `s` (1 to 16) draws, for each radius `r` from 1 to
/// `s`, a ring of radius `r` around the lower centre in the explosion colour
/// and the flash line `r` pixels up. The upper burst at step `s` (1 to 32)
/// first draws the whole lower burst, then for each radius `r` from 1 to `s`
/// erases lower ring `17 - r` while `r` is below 16 and draws an upper ring
/// of radius `r`, in the gorilla colour for even `r` and the explosion
/// colour for odd `r`. The erase sweep at step `s` (1 to 48) draws both
/// bursts in full and then paints the upper rings from `s` to 48 in the
/// background colour.
pub proof fn lemma_gorilla_explosion_strokes(s: int)
    ensures
        1 <= s <= 16 ==> {
            let strokes = gorilla_explosion_strokes_spec(s, GorillaExplosionPhase::LowerBurst);
            &&& strokes.len() == 2 * s
            &&& forall|r: int|
                1 <= r <= s ==> #[trigger] strokes[2 * r - 2] == (GorillaStroke::LowerRing {
                    radius: r as i32,
                    color: COLOR_EXPLOSION,
                }) && strokes[2 * r - 1] == (GorillaStroke::Line { rise: r as i32 })
        },
        1 <= s <= 32 ==> {
            let strokes = gorilla_explosion_strokes_spec(s, GorillaExplosionPhase::UpperBurst);
            &&& strokes.take(32) == gorilla_explosion_strokes_spec(16, GorillaExplosionPhase::LowerBurst)
            &&& forall|r: int|
                1 <= r <= s && r <= 15 ==> #[trigger] strokes[32 + 2 * r - 2] == (GorillaStroke::LowerRing {
                    radius: (17 - r) as i32,
                    color: COLOR_BG,
                })
            &&& forall|r: int|
                1 <= r <= s && r <= 15 ==> #[trigger] strokes[32 + 2 * r - 1] == (GorillaStroke::UpperRing {
                    radius: r as i32,
                    color: if r % 2 == 0 {
                        COLOR_GORILLA
                    } else {
                        COLOR_EXPLOSION
                    },
                })
            &&& forall|r: int|
                16 <= r <= s ==> #[trigger] strokes[r + 46] == (GorillaStroke::UpperRing {
                    radius: r as i32,
                    color: if r % 2 == 0 {
                        COLOR_GORILLA
                    } else {
                        COLOR_EXPLOSION
                    },
                })
        },
        1 <= s <= 48 ==> {
            let strokes = gorilla_explosion_strokes_spec(s, GorillaExplosionPhase::Erase);
            &&& strokes.len() == 32 + 47 + 49 - s
            &&& strokes.take(79) == gorilla_explosion_strokes_spec(32, GorillaExplosionPhase::UpperBurst)
            &&& forall|k: int|
                0 <= k <= 48 - s ==> #[trigger] strokes[79 + k] == (GorillaStroke::UpperRing {
                    radius: (s + k) as i32,
                    color: COLOR_BG,
                })
        },
{
    lemma_stage_1_shape(16);
    lemma_stage_2_shape(32);
    assert(stage_1_max() == 16);
    assert(stage_2_max() == 32);
    assert(stage_3_max() == 48);
    if 1 <= s <= 16 {
        lemma_stage_1_shape(s);
    }
    if 1 <= s <= 32 {
        lemma_stage_2_shape(s);
        let strokes = gorilla_explosion_strokes_spec(s, GorillaExplosionPhase::UpperBurst);
        let lower = stage_1_strokes(16);
        let upper = stage_2_strokes(s);
        assert(strokes == lower + upper);
        assert(strokes.take(32) =~= lower);
        assert forall|r: int| 1 <= r <= s && r <= 15 implies #[trigger] strokes[32 + 2 * r - 2] == (
        GorillaStroke::LowerRing { radius: (17 - r) as i32, color: COLOR_BG }) by {
            assert(strokes[32 + 2 * r - 2] == upper[2 * r - 2]);
        }
        assert forall|r: int| 1 <= r <= s && r <= 15 implies #[trigger] strokes[32 + 2 * r - 1] == (
        GorillaStroke::UpperRing { radius: r as i32, color: stage_2_color(r) }) by {
            assert(strokes[32 + 2 * r - 1] == upper[2 * r - 1]);
        }
        assert forall|r: int| 16 <= r <= s implies #[trigger] strokes[r + 46] == (GorillaStroke::UpperRing {
            radius: r as i32,
            color: stage_2_color(r),
        }) by {
            assert(strokes[r + 46] == upper[r + 14]);
        }
    }
    if 1 <= s <= 48 {
        let strokes = gorilla_explosion_strokes_spec(s, GorillaExplosionPhase::Erase);
        assert(strokes.take(79) =~= stage_1_strokes(16) + stage_2_strokes(32));
    }
}

}
