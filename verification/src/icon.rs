//! The flat icon: a calendar sheet in plain colours.

use vstd::prelude::*;

verus! {

/// How many pixels the icon is wide and high.
pub const ICON_SIZE: usize = 64;

/// A pixel: red, green, blue and opacity.
pub type Pixel = [u8; 4];

/// Whether a point lies on one of the six squares that stand for days.
pub open spec fn on_day_square(x: int, y: int) -> bool {
    exists|column: int, row: int|
        {
            &&& 0 <= column < 3
            &&& 0 <= row < 2
            &&& #[trigger] square_left(column) <= x < square_left(column) + 8
            &&& #[trigger] square_top(row) <= y < square_top(row) + 8
        }
}

/// The left edge of the squares in a column.
pub open spec fn square_left(column: int) -> int {
    12 + column * 14
}

/// The upper edge of the squares in a row.
pub open spec fn square_top(row: int) -> int {
    22 + row * 14
}

/// Whether a point lies on the head of the sheet or one of its two rings.
pub open spec fn on_head(x: int, y: int) -> bool {
    ||| 8 <= y < 14 && 12 <= x < 52
    ||| 3 <= y < 9 && (18 <= x < 24 || 40 <= x < 46)
}

/// The colour of a point: white squares, a red head with rings, blue elsewhere.
pub open spec fn pixel_at(x: int, y: int) -> Seq<u8> {
    if on_day_square(x, y) {
        seq![255, 255, 255, 255]
    } else if on_head(x, y) {
        seq![235, 105, 95, 255]
    } else {
        seq![45, 92, 180, 255]
    }
}

fn pixel(x: usize, y: usize) -> (color: Pixel)
    requires
        x < ICON_SIZE,
        y < ICON_SIZE,
    ensures
        color@ == pixel_at(x as int, y as int),
{
    let mut square = false;
    let mut row: usize = 0;
    while row < 2
        invariant
            row <= 2,
            square ==> on_day_square(x as int, y as int),
            !square ==> forall|c: int, r: int|
                0 <= c < 3 && 0 <= r < row ==> !(#[trigger] square_left(c) <= x < square_left(c) + 8
                    && #[trigger] square_top(r) <= y < square_top(r) + 8),
        decreases 2 - row,
    {
        let mut column: usize = 0;
        while column < 3
            invariant
                row < 2,
                column <= 3,
                square ==> on_day_square(x as int, y as int),
                !square ==> forall|c: int, r: int|
                    0 <= c < 3 && 0 <= r < row ==> !(#[trigger] square_left(c) <= x < square_left(c)
                        + 8 && #[trigger] square_top(r) <= y < square_top(r) + 8),
                !square ==> forall|c: int|
                    0 <= c < column ==> !(#[trigger] square_left(c) <= x < square_left(c) + 8
                        && square_top(row as int) <= y < square_top(row as int) + 8),
            decreases 3 - column,
        {
            let left: usize = 12 + column * 14;
            let top: usize = 22 + row * 14;
            if left <= x && x < left + 8 && top <= y && y < top + 8 {
                square = true;
                proof {
                    assert(square_left(column as int) == left);
                    assert(square_top(row as int) == top);
                }
            }
            column += 1;
        }
        row += 1;
    }
    if square {
        [255, 255, 255, 255]
    } else if (8 <= y && y < 14 && 12 <= x && x < 52) || (3 <= y && y < 9 && ((18 <= x && x < 24)
        || (40 <= x && x < 46))) {
        [235, 105, 95, 255]
    } else {
        [45, 92, 180, 255]
    }
}

/// The pixels of the icon, row by row from the top, four bytes each.
pub fn calendar_icon_data() -> (rgba: Vec<u8>)
    ensures
        rgba@.len() == ICON_SIZE * ICON_SIZE * 4,
        forall|x: int, y: int, part: int|
            #![trigger pixel_at(x, y)[part]]
            0 <= x < ICON_SIZE && 0 <= y < ICON_SIZE && 0 <= part < 4 ==> rgba@[(y * ICON_SIZE + x)
                * 4 + part] == pixel_at(x, y)[part],
{
    let mut rgba: Vec<u8> = Vec::new();
    let mut y: usize = 0;
    while y < 64
        invariant
            y <= 64,
            rgba@.len() == y * 256,
            forall|a: int, b: int, part: int|
                #![trigger pixel_at(a, b)[part]]
                0 <= a < 64 && 0 <= b < y && 0 <= part < 4 ==> rgba@[(b * 64 + a) * 4 + part]
                    == pixel_at(a, b)[part],
        decreases 64 - y,
    {
        let mut x: usize = 0;
        while x < 64
            invariant
                y < 64,
                x <= 64,
                rgba@.len() == (y * 64 + x) * 4,
                forall|a: int, b: int, part: int|
                    #![trigger pixel_at(a, b)[part]]
                    0 <= a < 64 && 0 <= part < 4 && (0 <= b < y || b == y && a < x) ==> rgba@[(b
                        * 64 + a) * 4 + part] == pixel_at(a, b)[part],
            decreases 64 - x,
        {
            let color: Pixel = pixel(x, y);
            let ghost before = rgba@;
            rgba.push(color[0]);
            rgba.push(color[1]);
            rgba.push(color[2]);
            rgba.push(color[3]);
            proof {
                assert forall|a: int, b: int, part: int|
                    #![trigger pixel_at(a, b)[part]]
                    0 <= a < 64 && 0 <= part < 4 && (0 <= b < y || b == y && a < x
                        + 1) implies rgba@[(b * 64 + a) * 4 + part] == pixel_at(a, b)[part] by {
                    if b == y && a == x {
                        assert(color@ == pixel_at(a, b));
                        assert(color@[part] == pixel_at(a, b)[part]);
                    } else {
                        assert((b * 64 + a) * 4 + part < before.len());
                        assert(before[(b * 64 + a) * 4 + part] == pixel_at(a, b)[part]);
                    }
                }
            }
            x += 1;
        }
        y += 1;
    }
    rgba
}

/// The sheet has six white squares in two rows of three, a red head with two
/// rings above them, and is blue elsewhere; no point is see-through.
pub proof fn the_icon_is_a_sheet(x: int, y: int, column: int, row: int)
    requires
        0 <= column < 3,
        0 <= row < 2,
    ensures
        pixel_at(x, y).len() == 4,
        pixel_at(x, y)[3] == 255,
        12 + 14 * column <= x < 20 + 14 * column && 22 + 14 * row <= y < 30 + 14 * row ==> pixel_at(
            x,
            y,
        ) == seq![255u8, 255u8, 255u8, 255u8],
        8 <= y < 14 && 12 <= x < 52 ==> pixel_at(x, y) == seq![235u8, 105u8, 95u8, 255u8],
        3 <= y < 9 && (18 <= x < 24 || 40 <= x < 46) ==> pixel_at(x, y) == seq![
            235u8,
            105u8,
            95u8,
            255u8,
        ],
        y < 3 || 14 <= y < 22 || 30 <= y < 36 || y >= 44 ==> pixel_at(x, y) == seq![
            45u8,
            92u8,
            180u8,
            255u8,
        ],
        x < 12 || 20 <= x < 26 && y >= 14 || 34 <= x < 40 && y >= 14 || x >= 52 ==> pixel_at(x, y)
            == seq![45u8, 92u8, 180u8, 255u8],
{
    assert(square_left(column) == 12 + 14 * column);
    assert(square_top(row) == 22 + 14 * row);
    assert(square_left(0) == 12 && square_left(1) == 26 && square_left(2) == 40);
    assert(square_top(0) == 22 && square_top(1) == 36);
}

} // verus!
