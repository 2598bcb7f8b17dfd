//! Pixel masks of the explosion outlines that QBASIC's `CIRCLE` draws at
//! small radii; an `X` marks a drawn pixel.

use vstd::prelude::*;

verus! {

/// Outline of a building explosion of radius 4, centred on row 20, column 20.
pub const BUILDING_BLAST_RADIUS_4_MASK: [&'static str; 41] = [
    ".........................................",
    ".........................................",
    ".........................................",
    ".........................................",
    ".........................................",
    ".........................................",
    ".........................................",
    ".........................................",
    ".........................................",
    ".........................................",
    ".........................................",
    ".........................................",
    ".........................................",
    ".........................................",
    ".........................................",
    ".........................................",
    ".........................................",
    "...................XXX...................",
    ".................XX...XX.................",
    "................XX.....XX................",
    "................X.......X................",
    "................XX.....XX................",
    ".................XX...XX.................",
    "...................XXX...................",
    ".........................................",
    ".........................................",
    ".........................................",
    ".........................................",
    ".........................................",
    ".........................................",
    ".........................................",
    ".........................................",
    ".........................................",
    ".........................................",
    ".........................................",
    ".........................................",
    ".........................................",
    ".........................................",
    ".........................................",
    ".........................................",
    ".........................................",
];

/// Outline of a building explosion of radius 6, centred on row 4, column 6.
pub const BUILDING_BLAST_RADIUS_6_MASK: [&'static str; 9] = [
    "...XXXXXXX...",
    "..X.......X..",
    ".X.........X.",
    "X...........X",
    "X...........X",
    "X...........X",
    ".X.........X.",
    "..X.......X..",
    "...XXXXXXX...",
];

/// Outline of a building explosion of radius 10, centred on row 20, column 20.
pub const BUILDING_BLAST_RADIUS_10_MASK: [&'static str; 41] = [
    ".........................................",
    ".........................................",
    ".........................................",
    ".........................................",
    ".........................................",
    ".........................................",
    ".........................................",
    ".........................................",
    ".........................................",
    ".........................................",
    ".........................................",
    ".........................................",
    ".........................................",
    "...............XXXXXXXXXXX...............",
    "..............X...........X..............",
    ".............X.............X.............",
    "...........XX...............XX...........",
    "...........X.................X...........",
    "..........X...................X..........",
    "..........X...................X..........",
    "..........X...................X..........",
    "..........X...................X..........",
    "..........X...................X..........",
    "...........X.................X...........",
    "...........XX...............XX...........",
    ".............X.............X.............",
    "..............X...........X..............",
    "...............XXXXXXXXXXX...............",
    ".........................................",
    ".........................................",
    ".........................................",
    ".........................................",
    ".........................................",
    ".........................................",
    ".........................................",
    ".........................................",
    ".........................................",
    ".........................................",
    ".........................................",
    ".........................................",
    ".........................................",
];

/// Burst of a gorilla explosion of radius 4.
pub const GORILLA_BLAST_RADIUS_4_MASK: [&'static str; 44] = [
    "....................................",
    "....................................",
    "....................................",
    "....................................",
    "....................................",
    "....................................",
    "....................................",
    "....................................",
    "....................................",
    "....................................",
    "....................................",
    "....................................",
    "....................................",
    "....................................",
    "......XXXXXXXXXXXXXXX...............",
    "....................................",
    "....................................",
    "....................................",
    "....................................",
    "....................................",
    "....................................",
    "....................................",
    "....................................",
    "....................................",
    ".................XXX................",
    "...............XX...XX..............",
    "..............X.......X.............",
    "...............XX...XX..............",
    ".................XXX................",
    "....................................",
    "....................................",
    "....................................",
    "....................................",
    "....................................",
    "....................................",
    "....................................",
    "....................................",
    "....................................",
    "....................................",
    "....................................",
    "....................................",
    "....................................",
    "....................................",
    "....................................",
];

/// Burst of a gorilla explosion of radius 8.
pub const GORILLA_BLAST_RADIUS_8_MASK: [&'static str; 20] = [
    "XXXXXXXXXXXXXXX......",
    ".....................",
    ".....................",
    ".....................",
    ".....................",
    ".....................",
    ".....................",
    ".....................",
    ".....................",
    ".....................",
    ".....................",
    ".....................",
    ".....................",
    ".......XXXXXXXXXXX...",
    ".....XX...........XX.",
    "....XX.............XX",
    "....X...............X",
    "....XX.............XX",
    ".....XX...........XX.",
    ".......XXXXXXXXXXX...",
];

/// Burst of a gorilla explosion of radius 12.
pub const GORILLA_BLAST_RADIUS_12_MASK: [&'static str; 44] = [
    "....................................",
    "....................................",
    "....................................",
    "....................................",
    "....................................",
    "....................................",
    "......XXXXXXXXXXXXXXX...............",
    "....................................",
    "....................................",
    "....................................",
    "....................................",
    "....................................",
    "....................................",
    "....................................",
    "....................................",
    "....................................",
    "....................................",
    "....................................",
    "....................................",
    "....................................",
    "....................................",
    ".............XXXXXXXXXXX............",
    "..........XXX...........XXX.........",
    "........XX.................XX.......",
    ".......X.....................X......",
    "......X.......................X.....",
    "......X.......................X.....",
    "......X.......................X.....",
    ".......X.....................X......",
    "........XX.................XX.......",
    "..........XXX...........XXX.........",
    ".............XXXXXXXXXXX............",
    "....................................",
    "....................................",
    "....................................",
    "....................................",
    "....................................",
    "....................................",
    "....................................",
    "....................................",
    "....................................",
    "....................................",
    "....................................",
    "....................................",
];

/// Every row of the mask is 41 characters wide.
pub proof fn lemma_building_blast_radius_4_mask_width()
    ensures
        forall|i: int| 0 <= i < 41 ==> (#[trigger] BUILDING_BLAST_RADIUS_4_MASK@[i])@.len() == 41,
{
    reveal_strlit(".........................................");
    reveal_strlit("...................XXX...................");
    reveal_strlit(".................XX...XX.................");
    reveal_strlit("................XX.....XX................");
    reveal_strlit("................X.......X................");
}

/// Every row of the mask is 13 characters wide.
pub proof fn lemma_building_blast_radius_6_mask_width()
    ensures
        forall|i: int| 0 <= i < 9 ==> (#[trigger] BUILDING_BLAST_RADIUS_6_MASK@[i])@.len() == 13,
{
    reveal_strlit("...XXXXXXX...");
    reveal_strlit("..X.......X..");
    reveal_strlit(".X.........X.");
    reveal_strlit("X...........X");
}

/// Every row of the mask is 41 characters wide.
pub proof fn lemma_building_blast_radius_10_mask_width()
    ensures
        forall|i: int| 0 <= i < 41 ==> (#[trigger] BUILDING_BLAST_RADIUS_10_MASK@[i])@.len() == 41,
{
    reveal_strlit(".........................................");
    reveal_strlit("...............XXXXXXXXXXX...............");
    reveal_strlit("..............X...........X..............");
    reveal_strlit(".............X.............X.............");
    reveal_strlit("...........XX...............XX...........");
    reveal_strlit("...........X.................X...........");
    reveal_strlit("..........X...................X..........");
}

/// Every row of the mask is 36 characters wide.
pub proof fn lemma_gorilla_blast_radius_4_mask_width()
    ensures
        forall|i: int| 0 <= i < 44 ==> (#[trigger] GORILLA_BLAST_RADIUS_4_MASK@[i])@.len() == 36,
{
    reveal_strlit("....................................");
    reveal_strlit("......XXXXXXXXXXXXXXX...............");
    reveal_strlit(".................XXX................");
    reveal_strlit("...............XX...XX..............");
    reveal_strlit("..............X.......X.............");
}

/// Every row of the mask is 21 characters wide.
pub proof fn lemma_gorilla_blast_radius_8_mask_width()
    ensures
        forall|i: int| 0 <= i < 20 ==> (#[trigger] GORILLA_BLAST_RADIUS_8_MASK@[i])@.len() == 21,
{
    reveal_strlit("XXXXXXXXXXXXXXX......");
    reveal_strlit(".....................");
    reveal_strlit(".......XXXXXXXXXXX...");
    reveal_strlit(".....XX...........XX.");
    reveal_strlit("....XX.............XX");
    reveal_strlit("....X...............X");
}

/// Every row of the mask is 36 characters wide.
pub proof fn lemma_gorilla_blast_radius_12_mask_width()
    ensures
        forall|i: int| 0 <= i < 44 ==> (#[trigger] GORILLA_BLAST_RADIUS_12_MASK@[i])@.len() == 36,
{
    reveal_strlit("....................................");
    reveal_strlit("......XXXXXXXXXXXXXXX...............");
    reveal_strlit(".............XXXXXXXXXXX............");
    reveal_strlit("..........XXX...........XXX.........");
    reveal_strlit("........XX.................XX.......");
    reveal_strlit(".......X.....................X......");
    reveal_strlit("......X.......................X.....");
}

}
