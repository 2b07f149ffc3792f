//! The picture that stands for the application in the system tray.

use vstd::prelude::*;

verus! {

/// The width and the height of the picture, in pixels.
pub const ICON_SIZE: u32 = 32;

/// The square of the distance of a pixel from the middle of the picture.
pub open spec fn distance_squared(x: int, y: int) -> int {
    (x - 16) * (x - 16) + (y - 16) * (y - 16)
}

/// The colour of a pixel: red, green, blue and opacity. A disc in light blue, round it a
/// ring in bright blue, and nothing outside.
pub open spec fn pixel(x: int, y: int) -> Seq<u8> {
    if distance_squared(x, y) <= 11 * 11 {
        seq![30u8, 140u8, 220u8, 255u8]
    } else if distance_squared(x, y) <= 15 * 15 {
        seq![0u8, 120u8, 215u8, 255u8]
    } else {
        seq![0u8, 0u8, 0u8, 0u8]
    }
}

/// The colour of the pixel in column `x` of row `y`.
pub fn pixel_at(x: u32, y: u32) -> (r: (u8, u8, u8, u8))
    requires
        x < ICON_SIZE,
        y < ICON_SIZE,
    ensures
        seq![r.0, r.1, r.2, r.3] == pixel(x as int, y as int),
{
    let dx: i32 = x as i32 - 16;
    let dy: i32 = y as i32 - 16;
    assert(0 <= dx * dx <= 256) by (nonlinear_arith)
        requires
            -16 <= dx <= 16,
    ;
    assert(0 <= dy * dy <= 256) by (nonlinear_arith)
        requires
            -16 <= dy <= 16,
    ;
    let d2: i32 = dx * dx + dy * dy;
    if d2 <= 121 {
        (30, 140, 220, 255)
    } else if d2 <= 225 {
        (0, 120, 215, 255)
    } else {
        (0, 0, 0, 0)
    }
}

/// The picture, four bytes a pixel, row by row from the top and each row from the left.
pub fn icon_rgba() -> (r: Vec<u8>)
    ensures
        r@.len() == 4 * ICON_SIZE * ICON_SIZE,
        forall|x: int, y: int, c: int|
            0 <= x < ICON_SIZE && 0 <= y < ICON_SIZE && 0 <= c < 4 ==> r@[(y * ICON_SIZE + x) * 4
                + c] == #[trigger] pixel(x, y)[c],
{
    let mut r: Vec<u8> = Vec::new();
    let mut p: u32 = 0;
    while p < 1024
        invariant
            p <= 1024,
            r@.len() == 4 * p,
            forall|q: int, c: int|
                0 <= q < p && 0 <= c < 4 ==> r@[q * 4 + c] == #[trigger] pixel(q % 32, q / 32)[c],
        decreases 1024 - p,
    {
        let (red, green, blue, opacity) = pixel_at(p % 32, p / 32);
        r.push(red);
        r.push(green);
        r.push(blue);
        r.push(opacity);
        proof {
            let s = seq![red, green, blue, opacity];
            assert(s == pixel(p as int % 32, p as int / 32));
            assert(r@[4 * p + 0] == s[0]);
            assert(r@[4 * p + 1] == s[1]);
            assert(r@[4 * p + 2] == s[2]);
            assert(r@[4 * p + 3] == s[3]);
        }
        p = p + 1;
    }
    proof {
        assert forall|x: int, y: int, c: int|
            0 <= x < ICON_SIZE && 0 <= y < ICON_SIZE && 0 <= c < 4 implies r@[(y * ICON_SIZE + x)
            * 4 + c] == #[trigger] pixel(x, y)[c] by {
            let q = y * 32 + x;
            assert(q % 32 == x && q / 32 == y);
            assert(pixel(q % 32, q / 32)[c] == r@[q * 4 + c]);
        }
    }
    r
}

/// The picture is 32 pixels wide and high. Within 11 pixels of its middle it is light blue, up
/// to 15 pixels bright blue, and there is nothing beyond.
pub proof fn colours_by_distance(x: int, y: int)
    ensures
        ICON_SIZE == 32,
        ({
            let d = (x - 16) * (x - 16) + (y - 16) * (y - 16);
            &&& d <= 121 ==> pixel(x, y) == seq![30u8, 140u8, 220u8, 255u8]
            &&& 121 < d <= 225 ==> pixel(x, y) == seq![0u8, 120u8, 215u8, 255u8]
            &&& d > 225 ==> pixel(x, y) == seq![0u8, 0u8, 0u8, 0u8]
        }),
{
}

/// The picture looks the same when it is turned by a quarter, and when it is mirrored.
pub proof fn picture_is_round(x: int, y: int)
    ensures
        pixel(x, y) == pixel(y, x),
        pixel(x, y) == pixel(32 - x, y),
{
    assert((16 - x) * (16 - x) == (x - 16) * (x - 16)) by (nonlinear_arith);
    assert((32 - x) - 16 == 16 - x);
}

} // verus!
