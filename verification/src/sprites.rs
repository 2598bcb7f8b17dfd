//! Sprite sheets of the sun, the gorillas and the banana, drawn as rows of
//! palette markers.

use vstd::prelude::*;
use crate::render_ref::{ascii_rows_ok, ascii_width};

verus! {

/// The smiling sun.
pub const SUN_HAPPY_ROWS: [&'static str; 37] = [
    ".............................................",
    ".............................................",
    ".............................................",
    "......................3......................",
    "......................3......................",
    "..............3.......3.......3..............",
    "...............3......3.......3..............",
    "...............3......3......3...............",
    ".......3........3.....3.....3.......33.......",
    "........3........3.3333333..3......3.........",
    ".........33......33333333333.....33..........",
    "...........3..33333333333333333.3............",
    "............33333333333333333333.............",
    "....3.......333333333333333333333.....333....",
    ".....3333..333333333333333333333333333.......",
    ".........3333333333.33333.33333333...........",
    "..........33333333...333...33333333..........",
    "..........333333333.33333.333333333..........",
    "..33333333333333333333333333333333333333333..",
    "..........3333333333333333333333333..........",
    "..........3333333333333333333333333..........",
    ".........333333.3333333333333.3333...........",
    ".....3333..33333..333333333..333333333.......",
    "....3.......333333..33333..333333.....333....",
    "............33333333.....3333333.............",
    "...........3..33333333333333333.3............",
    ".........33......33333333333.....33..........",
    "........3........3.3333333..3......3.........",
    ".......3........3.....3.....3.......33.......",
    "...............3......3......3...............",
    "...............3......3.......3..............",
    "..............3.......3.......3..............",
    "......................3......................",
    "......................3......................",
    ".............................................",
    ".............................................",
    ".............................................",
];

/// The sun with its mouth open, after a banana has passed through it.
pub const SUN_SHOCKED_ROWS: [&'static str; 37] = [
    ".............................................",
    ".............................................",
    ".............................................",
    "......................3......................",
    "......................3......................",
    "..............3.......3.......3..............",
    "...............3......3.......3..............",
    "...............3......3......3...............",
    ".......3........3.....3.....3.......33.......",
    "........3........3.3333333..3......3.........",
    ".........33......33333333333.....33..........",
    "...........3..33333333333333333.3............",
    "............33333333333333333333.............",
    "....3.......333333333333333333333.....333....",
    ".....3333..333333333333333333333333333.......",
    ".........3333333333.33333.33333333...........",
    "..........33333333...333...33333333..........",
    "..........333333333.33333.333333333..........",
    "..33333333333333333333333333333333333333333..",
    "..........3333333333333333333333333..........",
    "..........3333333333333333333333333..........",
    ".........333333333333...3333333333...........",
    ".....3333..33333333.......333333333333.......",
    "....3.......3333333.......3333333.....333....",
    "............3333333.......333333.............",
    "...........3..3333333...3333333.3............",
    ".........33......33333333333.....33..........",
    "........3........3.3333333..3......3.........",
    ".......3........3.....3.....3.......33.......",
    "...............3......3......3...............",
    "...............3......3.......3..............",
    "..............3.......3.......3..............",
    "......................3......................",
    "......................3......................",
    ".............................................",
    ".............................................",
    ".............................................",
];

/// A gorilla with its left arm raised.
pub const GORILLA_LEFT_UP_ROWS: [&'static str; 30] = [
    "....11111.....................",
    "...11111...11111111...........",
    "..11111....11111111...........",
    "..11111...11......11..........",
    ".11111....1111111111..........",
    ".11111....111..1..11..........",
    ".11111.....11111111...........",
    "..11111....11111111...........",
    "..11111.....111111............",
    "...11111111111111111111.......",
    "....1111111111111111111111....",
    ".......11111111.11111111111...",
    ".......11111111.111111111111..",
    ".......1111111.1.11111111111..",
    ".......111111.111.11111.11111.",
    ".......111...11111...11.11111.",
    ".........111111111111...11111.",
    ".........111111111111..11111..",
    ".........111111111111..11111..",
    ".........111111111111.11111...",
    ".........11111111111111111....",
    "........1111111111111.........",
    "......111111.....111111.......",
    "......11111.......11111.......",
    ".....11111.........11111......",
    ".....11111.........11111......",
    ".....11111.........11111......",
    ".....11111.........11111......",
    ".....11111.........11111......",
    "......11111.......11111.......",
];

/// A gorilla with both arms down.
pub const GORILLA_ARMS_DOWN_ROWS: [&'static str; 30] = [
    "..............................",
    "...........11111111...........",
    "...........11111111...........",
    "..........11......11..........",
    "..........1111111111..........",
    "..........111..1..11..........",
    "...........11111111...........",
    "...........11111111...........",
    "............111111............",
    ".......1111111111111111.......",
    "....1111111111111111111111....",
    "...111111111111.11111111111...",
    "..1111111111111.111111111111..",
    "..111111111111.1.11111111111..",
    ".11111.111111.111.11111.11111.",
    ".11111.111...11111...11.11111.",
    ".11111...111111111111...11111.",
    "..11111..111111111111..11111..",
    "..11111..111111111111..11111..",
    "...11111.111111111111.11111...",
    "....1111111111111111111111....",
    "........1111111111111.........",
    "......111111.....111111.......",
    "......11111.......11111.......",
    ".....11111.........11111......",
    ".....11111.........11111......",
    ".....11111.........11111......",
    ".....11111.........11111......",
    ".....11111.........11111......",
    "......11111.......11111.......",
];

/// A gorilla with its right arm raised.
pub const GORILLA_RIGHT_UP_ROWS: [&'static str; 30] = [
    ".....................11111....",
    "...........11111111...11111...",
    "...........11111111....11111..",
    "..........11......11...11111..",
    "..........1111111111....11111.",
    "..........111..1..11....11111.",
    "...........11111111.....11111.",
    "...........11111111....11111..",
    "............111111.....11111..",
    ".......11111111111111111111...",
    "....1111111111111111111111....",
    "...111111111111.1111111.......",
    "..1111111111111.1111111.......",
    "..111111111111.1.111111.......",
    ".11111.111111.111.11111.......",
    ".11111.111...11111...11.......",
    ".11111...111111111111.........",
    "..11111..111111111111.........",
    "..11111..111111111111.........",
    "...11111.111111111111.........",
    "....11111111111111111.........",
    "........1111111111111.........",
    "......111111.....111111.......",
    "......11111.......11111.......",
    ".....11111.........11111......",
    ".....11111.........11111......",
    ".....11111.........11111......",
    ".....11111.........11111......",
    ".....11111.........11111......",
    "......11111.......11111.......",
];

/// The banana, first quarter turn.
pub const BANANA_ROWS_0: [&'static str; 16] = [
    "....EE..........",
    "...EEE..........",
    "..EEE...........",
    "..EEE...........",
    "..EEE...........",
    "...EEE..........",
    "....EE..........",
    "................",
    "................",
    "................",
    "................",
    "................",
    "................",
    "................",
    "................",
    "................",
];

/// The banana, second quarter turn.
pub const BANANA_ROWS_1: [&'static str; 16] = [
    "..EEEEE.........",
    ".EEEEEEE........",
    "EEEEEEEEE.......",
    "EE.....EE.......",
    "................",
    "................",
    "................",
    "................",
    "................",
    "................",
    "................",
    "................",
    "................",
    "................",
    "................",
    "................",
];

/// The banana, third quarter turn.
pub const BANANA_ROWS_2: [&'static str; 16] = [
    "EE.....EE.......",
    "EEEEEEEEE.......",
    ".EEEEEEE........",
    "..EEEEE.........",
    "................",
    "................",
    "................",
    "................",
    "................",
    "................",
    "................",
    "................",
    "................",
    "................",
    "................",
    "................",
];

/// The banana, fourth quarter turn.
pub const BANANA_ROWS_3: [&'static str; 16] = [
    "EE..............",
    "EEE.............",
    ".EEE............",
    ".EEE............",
    ".EEE............",
    "EEE.............",
    "EE..............",
    "................",
    "................",
    "................",
    "................",
    "................",
    "................",
    "................",
    "................",
    "................",
];

/// Every row of the sheet has the same width and only palette markers.
pub proof fn lemma_sun_happy_rows_ok()
    ensures
        ascii_rows_ok(SUN_HAPPY_ROWS@),
        ascii_width(SUN_HAPPY_ROWS@) == 45,
{
    reveal_strlit(".............................................");
    reveal_strlit("......................3......................");
    reveal_strlit("..............3.......3.......3..............");
    reveal_strlit("...............3......3.......3..............");
    reveal_strlit("...............3......3......3...............");
    reveal_strlit(".......3........3.....3.....3.......33.......");
    reveal_strlit("........3........3.3333333..3......3.........");
    reveal_strlit(".........33......33333333333.....33..........");
    reveal_strlit("...........3..33333333333333333.3............");
    reveal_strlit("............33333333333333333333.............");
    reveal_strlit("....3.......333333333333333333333.....333....");
    reveal_strlit(".....3333..333333333333333333333333333.......");
    reveal_strlit(".........3333333333.33333.33333333...........");
    reveal_strlit("..........33333333...333...33333333..........");
    reveal_strlit("..........333333333.33333.333333333..........");
    reveal_strlit("..33333333333333333333333333333333333333333..");
    reveal_strlit("..........3333333333333333333333333..........");
    reveal_strlit(".........333333.3333333333333.3333...........");
    reveal_strlit(".....3333..33333..333333333..333333333.......");
    reveal_strlit("....3.......333333..33333..333333.....333....");
    reveal_strlit("............33333333.....3333333.............");
}

/// Every row of the sheet has the same width and only palette markers.
pub proof fn lemma_sun_shocked_rows_ok()
    ensures
        ascii_rows_ok(SUN_SHOCKED_ROWS@),
        ascii_width(SUN_SHOCKED_ROWS@) == 45,
{
    reveal_strlit(".............................................");
    reveal_strlit("......................3......................");
    reveal_strlit("..............3.......3.......3..............");
    reveal_strlit("...............3......3.......3..............");
    reveal_strlit("...............3......3......3...............");
    reveal_strlit(".......3........3.....3.....3.......33.......");
    reveal_strlit("........3........3.3333333..3......3.........");
    reveal_strlit(".........33......33333333333.....33..........");
    reveal_strlit("...........3..33333333333333333.3............");
    reveal_strlit("............33333333333333333333.............");
    reveal_strlit("....3.......333333333333333333333.....333....");
    reveal_strlit(".....3333..333333333333333333333333333.......");
    reveal_strlit(".........3333333333.33333.33333333...........");
    reveal_strlit("..........33333333...333...33333333..........");
    reveal_strlit("..........333333333.33333.333333333..........");
    reveal_strlit("..33333333333333333333333333333333333333333..");
    reveal_strlit("..........3333333333333333333333333..........");
    reveal_strlit(".........333333333333...3333333333...........");
    reveal_strlit(".....3333..33333333.......333333333333.......");
    reveal_strlit("....3.......3333333.......3333333.....333....");
    reveal_strlit("............3333333.......333333.............");
    reveal_strlit("...........3..3333333...3333333.3............");
}

/// Every row of the sheet has the same width and only palette markers.
pub proof fn lemma_gorilla_left_up_rows_ok()
    ensures
        ascii_rows_ok(GORILLA_LEFT_UP_ROWS@),
        ascii_width(GORILLA_LEFT_UP_ROWS@) == 30,
{
    reveal_strlit("....11111.....................");
    reveal_strlit("...11111...11111111...........");
    reveal_strlit("..11111....11111111...........");
    reveal_strlit("..11111...11......11..........");
    reveal_strlit(".11111....1111111111..........");
    reveal_strlit(".11111....111..1..11..........");
    reveal_strlit(".11111.....11111111...........");
    reveal_strlit("..11111.....111111............");
    reveal_strlit("...11111111111111111111.......");
    reveal_strlit("....1111111111111111111111....");
    reveal_strlit(".......11111111.11111111111...");
    reveal_strlit(".......11111111.111111111111..");
    reveal_strlit(".......1111111.1.11111111111..");
    reveal_strlit(".......111111.111.11111.11111.");
    reveal_strlit(".......111...11111...11.11111.");
    reveal_strlit(".........111111111111...11111.");
    reveal_strlit(".........111111111111..11111..");
    reveal_strlit(".........111111111111.11111...");
    reveal_strlit(".........11111111111111111....");
    reveal_strlit("........1111111111111.........");
    reveal_strlit("......111111.....111111.......");
    reveal_strlit("......11111.......11111.......");
    reveal_strlit(".....11111.........11111......");
}

/// Every row of the sheet has the same width and only palette markers.
pub proof fn lemma_gorilla_arms_down_rows_ok()
    ensures
        ascii_rows_ok(GORILLA_ARMS_DOWN_ROWS@),
        ascii_width(GORILLA_ARMS_DOWN_ROWS@) == 30,
{
    reveal_strlit("..............................");
    reveal_strlit("...........11111111...........");
    reveal_strlit("..........11......11..........");
    reveal_strlit("..........1111111111..........");
    reveal_strlit("..........111..1..11..........");
    reveal_strlit("............111111............");
    reveal_strlit(".......1111111111111111.......");
    reveal_strlit("....1111111111111111111111....");
    reveal_strlit("...111111111111.11111111111...");
    reveal_strlit("..1111111111111.111111111111..");
    reveal_strlit("..111111111111.1.11111111111..");
    reveal_strlit(".11111.111111.111.11111.11111.");
    reveal_strlit(".11111.111...11111...11.11111.");
    reveal_strlit(".11111...111111111111...11111.");
    reveal_strlit("..11111..111111111111..11111..");
    reveal_strlit("...11111.111111111111.11111...");
    reveal_strlit("........1111111111111.........");
    reveal_strlit("......111111.....111111.......");
    reveal_strlit("......11111.......11111.......");
    reveal_strlit(".....11111.........11111......");
}

/// Every row of the sheet has the same width and only palette markers.
pub proof fn lemma_gorilla_right_up_rows_ok()
    ensures
        ascii_rows_ok(GORILLA_RIGHT_UP_ROWS@),
        ascii_width(GORILLA_RIGHT_UP_ROWS@) == 30,
{
    reveal_strlit(".....................11111....");
    reveal_strlit("...........11111111...11111...");
    reveal_strlit("...........11111111....11111..");
    reveal_strlit("..........11......11...11111..");
    reveal_strlit("..........1111111111....11111.");
    reveal_strlit("..........111..1..11....11111.");
    reveal_strlit("...........11111111.....11111.");
    reveal_strlit("............111111.....11111..");
    reveal_strlit(".......11111111111111111111...");
    reveal_strlit("....1111111111111111111111....");
    reveal_strlit("...111111111111.1111111.......");
    reveal_strlit("..1111111111111.1111111.......");
    reveal_strlit("..111111111111.1.111111.......");
    reveal_strlit(".11111.111111.111.11111.......");
    reveal_strlit(".11111.111...11111...11.......");
    reveal_strlit(".11111...111111111111.........");
    reveal_strlit("..11111..111111111111.........");
    reveal_strlit("...11111.111111111111.........");
    reveal_strlit("....11111111111111111.........");
    reveal_strlit("........1111111111111.........");
    reveal_strlit("......111111.....111111.......");
    reveal_strlit("......11111.......11111.......");
    reveal_strlit(".....11111.........11111......");
}

/// Every row of the sheet has the same width and only palette markers.
pub proof fn lemma_banana_rows_0_ok()
    ensures
        ascii_rows_ok(BANANA_ROWS_0@),
        ascii_width(BANANA_ROWS_0@) == 16,
{
    reveal_strlit("....EE..........");
    reveal_strlit("...EEE..........");
    reveal_strlit("..EEE...........");
    reveal_strlit("................");
}

/// Every row of the sheet has the same width and only palette markers.
pub proof fn lemma_banana_rows_1_ok()
    ensures
        ascii_rows_ok(BANANA_ROWS_1@),
        ascii_width(BANANA_ROWS_1@) == 16,
{
    reveal_strlit("..EEEEE.........");
    reveal_strlit(".EEEEEEE........");
    reveal_strlit("EEEEEEEEE.......");
    reveal_strlit("EE.....EE.......");
    reveal_strlit("................");
}

/// Every row of the sheet has the same width and only palette markers.
pub proof fn lemma_banana_rows_2_ok()
    ensures
        ascii_rows_ok(BANANA_ROWS_2@),
        ascii_width(BANANA_ROWS_2@) == 16,
{
    reveal_strlit("EE.....EE.......");
    reveal_strlit("EEEEEEEEE.......");
    reveal_strlit(".EEEEEEE........");
    reveal_strlit("..EEEEE.........");
    reveal_strlit("................");
}

/// Every row of the sheet has the same width and only palette markers.
pub proof fn lemma_banana_rows_3_ok()
    ensures
        ascii_rows_ok(BANANA_ROWS_3@),
        ascii_width(BANANA_ROWS_3@) == 16,
{
    reveal_strlit("EE..............");
    reveal_strlit("EEE.............");
    reveal_strlit(".EEE............");
    reveal_strlit("................");
}

/// The sheet holds only background and gorilla markers.
pub proof fn lemma_gorilla_left_up_rows_two_markers()
    ensures
        forall|i: int, j: int|
            0 <= i < 30 && 0 <= j < 30 ==> #[trigger] GORILLA_LEFT_UP_ROWS@[i]@[j] == '.' || GORILLA_LEFT_UP_ROWS@[i]@[j] == '1',
{
    reveal_strlit("....11111.....................");
    reveal_strlit("...11111...11111111...........");
    reveal_strlit("..11111....11111111...........");
    reveal_strlit("..11111...11......11..........");
    reveal_strlit(".11111....1111111111..........");
    reveal_strlit(".11111....111..1..11..........");
    reveal_strlit(".11111.....11111111...........");
    reveal_strlit("..11111.....111111............");
    reveal_strlit("...11111111111111111111.......");
    reveal_strlit("....1111111111111111111111....");
    reveal_strlit(".......11111111.11111111111...");
    reveal_strlit(".......11111111.111111111111..");
    reveal_strlit(".......1111111.1.11111111111..");
    reveal_strlit(".......111111.111.11111.11111.");
    reveal_strlit(".......111...11111...11.11111.");
    reveal_strlit(".........111111111111...11111.");
    reveal_strlit(".........111111111111..11111..");
    reveal_strlit(".........111111111111.11111...");
    reveal_strlit(".........11111111111111111....");
    reveal_strlit("........1111111111111.........");
    reveal_strlit("......111111.....111111.......");
    reveal_strlit("......11111.......11111.......");
    reveal_strlit(".....11111.........11111......");
}

/// The sheet holds only background and gorilla markers.
pub proof fn lemma_gorilla_right_up_rows_two_markers()
    ensures
        forall|i: int, j: int|
            0 <= i < 30 && 0 <= j < 30 ==> #[trigger] GORILLA_RIGHT_UP_ROWS@[i]@[j] == '.' || GORILLA_RIGHT_UP_ROWS@[i]@[j] == '1',
{
    reveal_strlit(".....................11111....");
    reveal_strlit("...........11111111...11111...");
    reveal_strlit("...........11111111....11111..");
    reveal_strlit("..........11......11...11111..");
    reveal_strlit("..........1111111111....11111.");
    reveal_strlit("..........111..1..11....11111.");
    reveal_strlit("...........11111111.....11111.");
    reveal_strlit("............111111.....11111..");
    reveal_strlit(".......11111111111111111111...");
    reveal_strlit("....1111111111111111111111....");
    reveal_strlit("...111111111111.1111111.......");
    reveal_strlit("..1111111111111.1111111.......");
    reveal_strlit("..111111111111.1.111111.......");
    reveal_strlit(".11111.111111.111.11111.......");
    reveal_strlit(".11111.111...11111...11.......");
    reveal_strlit(".11111...111111111111.........");
    reveal_strlit("..11111..111111111111.........");
    reveal_strlit("...11111.111111111111.........");
    reveal_strlit("....11111111111111111.........");
    reveal_strlit("........1111111111111.........");
    reveal_strlit("......111111.....111111.......");
    reveal_strlit("......11111.......11111.......");
    reveal_strlit(".....11111.........11111......");
}

/// The sheet holds only background and gorilla markers.
pub proof fn lemma_gorilla_arms_down_rows_two_markers()
    ensures
        forall|i: int, j: int|
            0 <= i < 30 && 0 <= j < 30 ==> #[trigger] GORILLA_ARMS_DOWN_ROWS@[i]@[j] == '.' || GORILLA_ARMS_DOWN_ROWS@[i]@[j] == '1',
{
    reveal_strlit("..............................");
    reveal_strlit("...........11111111...........");
    reveal_strlit("..........11......11..........");
    reveal_strlit("..........1111111111..........");
    reveal_strlit("..........111..1..11..........");
    reveal_strlit("............111111............");
    reveal_strlit(".......1111111111111111.......");
    reveal_strlit("....1111111111111111111111....");
    reveal_strlit("...111111111111.11111111111...");
    reveal_strlit("..1111111111111.111111111111..");
    reveal_strlit("..111111111111.1.11111111111..");
    reveal_strlit(".11111.111111.111.11111.11111.");
    reveal_strlit(".11111.111...11111...11.11111.");
    reveal_strlit(".11111...111111111111...11111.");
    reveal_strlit("..11111..111111111111..11111..");
    reveal_strlit("...11111.111111111111.11111...");
    reveal_strlit("........1111111111111.........");
    reveal_strlit("......111111.....111111.......");
    reveal_strlit("......11111.......11111.......");
    reveal_strlit(".....11111.........11111......");
}

/// The three gorilla sheets share their legs, rows 21 to 29, and differ in
/// their top row: empty with the arms down, and a raised fist over columns
/// 4 to 8 for the left arm or 21 to 25 for the right one.
pub proof fn lemma_gorilla_rows_shared_and_top()
    ensures
        forall|k: int|
            21 <= k < 30 ==> #[trigger] GORILLA_LEFT_UP_ROWS@[k]@ == GORILLA_ARMS_DOWN_ROWS@[k]@
                && GORILLA_RIGHT_UP_ROWS@[k]@ == GORILLA_ARMS_DOWN_ROWS@[k]@,
        forall|x: int| 0 <= x < 30 ==> #[trigger] GORILLA_ARMS_DOWN_ROWS@[0]@[x] == '.',
        forall|x: int| 0 <= x < 30 ==> (#[trigger] GORILLA_LEFT_UP_ROWS@[0]@[x] == '1') == (4 <= x <= 8),
        forall|x: int| 0 <= x < 30 ==> (#[trigger] GORILLA_RIGHT_UP_ROWS@[0]@[x] == '1') == (21 <= x <= 25),
{
    reveal_strlit("....11111.....................");
    reveal_strlit(".....................11111....");
    reveal_strlit("..............................");
    assert(GORILLA_LEFT_UP_ROWS@[21]@ == GORILLA_ARMS_DOWN_ROWS@[21]@);
    assert(GORILLA_LEFT_UP_ROWS@[22]@ == GORILLA_ARMS_DOWN_ROWS@[22]@);
    assert(GORILLA_LEFT_UP_ROWS@[23]@ == GORILLA_ARMS_DOWN_ROWS@[23]@);
    assert(GORILLA_LEFT_UP_ROWS@[24]@ == GORILLA_ARMS_DOWN_ROWS@[24]@);
    assert(GORILLA_LEFT_UP_ROWS@[25]@ == GORILLA_ARMS_DOWN_ROWS@[25]@);
    assert(GORILLA_LEFT_UP_ROWS@[26]@ == GORILLA_ARMS_DOWN_ROWS@[26]@);
    assert(GORILLA_LEFT_UP_ROWS@[27]@ == GORILLA_ARMS_DOWN_ROWS@[27]@);
    assert(GORILLA_LEFT_UP_ROWS@[28]@ == GORILLA_ARMS_DOWN_ROWS@[28]@);
    assert(GORILLA_LEFT_UP_ROWS@[29]@ == GORILLA_ARMS_DOWN_ROWS@[29]@);
    assert(GORILLA_RIGHT_UP_ROWS@[21]@ == GORILLA_ARMS_DOWN_ROWS@[21]@);
    assert(GORILLA_RIGHT_UP_ROWS@[22]@ == GORILLA_ARMS_DOWN_ROWS@[22]@);
    assert(GORILLA_RIGHT_UP_ROWS@[23]@ == GORILLA_ARMS_DOWN_ROWS@[23]@);
    assert(GORILLA_RIGHT_UP_ROWS@[24]@ == GORILLA_ARMS_DOWN_ROWS@[24]@);
    assert(GORILLA_RIGHT_UP_ROWS@[25]@ == GORILLA_ARMS_DOWN_ROWS@[25]@);
    assert(GORILLA_RIGHT_UP_ROWS@[26]@ == GORILLA_ARMS_DOWN_ROWS@[26]@);
    assert(GORILLA_RIGHT_UP_ROWS@[27]@ == GORILLA_ARMS_DOWN_ROWS@[27]@);
    assert(GORILLA_RIGHT_UP_ROWS@[28]@ == GORILLA_ARMS_DOWN_ROWS@[28]@);
    assert(GORILLA_RIGHT_UP_ROWS@[29]@ == GORILLA_ARMS_DOWN_ROWS@[29]@);
    assert forall|k: int| 21 <= k < 30 implies #[trigger] GORILLA_LEFT_UP_ROWS@[k]@ == GORILLA_ARMS_DOWN_ROWS@[k]@
        && GORILLA_RIGHT_UP_ROWS@[k]@ == GORILLA_ARMS_DOWN_ROWS@[k]@ by {
        if k == 21 {}
        if k == 22 {}
        if k == 23 {}
        if k == 24 {}
        if k == 25 {}
        if k == 26 {}
        if k == 27 {}
        if k == 28 {}
        if k == 29 {}
    }
}

/// The sheet holds only background and banana markers.
pub proof fn lemma_banana_rows_0_two_markers()
    ensures
        forall|i: int, j: int|
            0 <= i < 16 && 0 <= j < 16 ==> #[trigger] BANANA_ROWS_0@[i]@[j] == '.' || BANANA_ROWS_0@[i]@[j] == 'E',
{
    reveal_strlit("....EE..........");
    reveal_strlit("...EEE..........");
    reveal_strlit("..EEE...........");
    reveal_strlit("................");
}

/// The sheet holds only background and banana markers.
pub proof fn lemma_banana_rows_1_two_markers()
    ensures
        forall|i: int, j: int|
            0 <= i < 16 && 0 <= j < 16 ==> #[trigger] BANANA_ROWS_1@[i]@[j] == '.' || BANANA_ROWS_1@[i]@[j] == 'E',
{
    reveal_strlit("..EEEEE.........");
    reveal_strlit(".EEEEEEE........");
    reveal_strlit("EEEEEEEEE.......");
    reveal_strlit("EE.....EE.......");
    reveal_strlit("................");
}

/// The sheet holds only background and banana markers.
pub proof fn lemma_banana_rows_2_two_markers()
    ensures
        forall|i: int, j: int|
            0 <= i < 16 && 0 <= j < 16 ==> #[trigger] BANANA_ROWS_2@[i]@[j] == '.' || BANANA_ROWS_2@[i]@[j] == 'E',
{
    reveal_strlit("EE.....EE.......");
    reveal_strlit("EEEEEEEEE.......");
    reveal_strlit(".EEEEEEE........");
    reveal_strlit("..EEEEE.........");
    reveal_strlit("................");
}

/// The sheet holds only background and banana markers.
pub proof fn lemma_banana_rows_3_two_markers()
    ensures
        forall|i: int, j: int|
            0 <= i < 16 && 0 <= j < 16 ==> #[trigger] BANANA_ROWS_3@[i]@[j] == '.' || BANANA_ROWS_3@[i]@[j] == 'E',
{
    reveal_strlit("EE..............");
    reveal_strlit("EEE.............");
    reveal_strlit(".EEE............");
    reveal_strlit("................");
}

/// Each banana sheet is empty below row 6, and the last quarter turn is the
/// first one mirrored about column 2.5 into the sheet's six left columns.
pub proof fn lemma_banana_rows_shape()
    ensures
        forall|y: int, x: int|
            7 <= y < 16 && 0 <= x < 16 ==> #[trigger] BANANA_ROWS_0@[y]@[x] == '.' && BANANA_ROWS_1@[y]@[x] == '.'
                && BANANA_ROWS_2@[y]@[x] == '.' && BANANA_ROWS_3@[y]@[x] == '.',
        forall|y: int, x: int|
            0 <= y < 16 && 0 <= x < 16 ==> #[trigger] BANANA_ROWS_3@[y]@[x] == (if x <= 5 {
                BANANA_ROWS_0@[y]@[5 - x]
            } else {
                '.'
            }),
{
    reveal_strlit("....EE..........");
    reveal_strlit("...EEE..........");
    reveal_strlit("..EEE...........");
    reveal_strlit("................");
    reveal_strlit("..EEEEE.........");
    reveal_strlit(".EEEEEEE........");
    reveal_strlit("EEEEEEEEE.......");
    reveal_strlit("EE.....EE.......");
    reveal_strlit("EE..............");
    reveal_strlit("EEE.............");
    reveal_strlit(".EEE............");
}

}
