//! The clock icon of the window and the tray, drawn pixel by pixel.
//!
//! The icon is 32×32 with its centre at (15.5, 15.5). Working in doubled
//! coordinates X = 2x − 31, Y = 2y − 31 (odd integers) every test below is
//! exact integer arithmetic:
//! - the rim is 13.2 ≤ r ≤ 15.5, that is 697 ≤ X² + Y² ≤ 961;
//! - the face is r < 13.2, that is X² + Y² ≤ 696;
//! - the centre dot is r < 1.8, that is X² + Y² ≤ 12;
//! - the minute hand points right (0°): along ∈ [−0.5, 8.5] and across ≤ 1,
//!   that is −1 ≤ X ≤ 17 and |Y| ≤ 2;
//! - the hour hand points to eleven o'clock (direction (−1/2, −√3/2)):
//!   along ∈ [−0.5, 5.5] and across ≤ 1.3, that is −22 ≤ X + √3·Y ≤ 2 and
//!   |√3·X − Y| ≤ 5.2, decided without square roots by [`sqrt3_le`].
use vstd::prelude::*;

verus! {

/// Width and height of the icon in pixels.
pub const ICON_SIZE: u32 = 32;

/// `b·√3 ≤ c`, decided on integers: both sides are compared by their squares
/// with attention to signs (`3b² = c²` has no solution but `b = c = 0`).
pub open spec fn sqrt3_le(b: int, c: int) -> bool {
    if b <= 0 {
        c >= 0 || 3 * (b * b) >= c * c
    } else {
        c > 0 && 3 * (b * b) <= c * c
    }
}

/// The doubled offset of pixel column or row `i` from the centre.
pub open spec fn offset(i: int) -> int {
    2 * i - 31
}

/// The squared doubled distance of a pixel from the centre.
pub open spec fn dist2(x: int, y: int) -> int {
    offset(x) * offset(x) + offset(y) * offset(y)
}

pub open spec fn on_ring(x: int, y: int) -> bool {
    697 <= dist2(x, y) <= 961
}

pub open spec fn inside(x: int, y: int) -> bool {
    dist2(x, y) <= 696
}

pub open spec fn on_center(x: int, y: int) -> bool {
    dist2(x, y) <= 12
}

pub open spec fn on_minute_hand(x: int, y: int) -> bool {
    -1 <= offset(x) <= 17 && -2 <= offset(y) <= 2
}

pub open spec fn on_hour_hand(x: int, y: int) -> bool {
    let dx = offset(x);
    let dy = offset(y);
    &&& sqrt3_le(dy, 2 - dx)
    &&& sqrt3_le(-dy, dx + 22)
    &&& sqrt3_le(5 * dx, 26 + 5 * dy)
    &&& sqrt3_le(-5 * dx, 26 - 5 * dy)
}

/// The colour (red, green, blue, alpha) of pixel (x, y): light grey rim,
/// white hands and centre on the face, dark face, transparent outside.
pub open spec fn icon_pixel(x: int, y: int) -> (u8, u8, u8, u8) {
    if on_ring(x, y) {
        (220, 220, 220, 255)
    } else if inside(x, y) && (on_hour_hand(x, y) || on_minute_hand(x, y) || on_center(x, y)) {
        (255, 255, 255, 255)
    } else if inside(x, y) {
        (45, 45, 55, 230)
    } else {
        (0, 0, 0, 0)
    }
}

/// Channel `c` (0 red, 1 green, 2 blue, 3 alpha) of a colour.
pub open spec fn channel(p: (u8, u8, u8, u8), c: int) -> u8 {
    if c == 0 {
        p.0
    } else if c == 1 {
        p.1
    } else if c == 2 {
        p.2
    } else {
        p.3
    }
}

/// The icon's bytes: row by row, four bytes (RGBA) per pixel.
pub open spec fn icon_bytes_ok(bytes: Seq<u8>) -> bool {
    &&& bytes.len() == 32 * 32 * 4
    &&& forall|x: int, y: int, c: int|
        0 <= x < 32 && 0 <= y < 32 && 0 <= c < 4 ==> #[trigger] bytes[(y * 32 + x) * 4 + c] == channel(
            icon_pixel(x, y),
            c,
        )
}

/// `b·√3 ≤ c` for small integers.
fn sqrt3_le_exec(b: i64, c: i64) -> (r: bool)
    requires
        -1000 <= b <= 1000,
        -1000 <= c <= 1000,
    ensures
        r == sqrt3_le(b as int, c as int),
{
    assert(0 <= b * b <= 1_000_000 && 0 <= c * c <= 1_000_000) by (nonlinear_arith)
        requires
            -1000 <= b <= 1000,
            -1000 <= c <= 1000,
    ;
    if b <= 0 {
        c >= 0 || 3 * (b * b) >= c * c
    } else {
        c > 0 && 3 * (b * b) <= c * c
    }
}

/// The colour of pixel (x, y).
fn pixel(x: i64, y: i64) -> (r: (u8, u8, u8, u8))
    requires
        0 <= x < 32,
        0 <= y < 32,
    ensures
        r == icon_pixel(x as int, y as int),
{
    let dx: i64 = 2 * x - 31;
    let dy: i64 = 2 * y - 31;
    assert(-31 <= dx <= 31 && -31 <= dy <= 31);
    assert(0 <= dx * dx <= 961 && 0 <= dy * dy <= 961) by (nonlinear_arith)
        requires
            -31 <= dx <= 31,
            -31 <= dy <= 31,
    ;
    let d2 = dx * dx + dy * dy;
    let ring = 697 <= d2 && d2 <= 961;
    let face = d2 <= 696;
    let center = d2 <= 12;
    let minute = -1 <= dx && dx <= 17 && -2 <= dy && dy <= 2;
    let ndx: i64 = 0 - dx;
    let ndy: i64 = 0 - dy;
    let hour = sqrt3_le_exec(dy, 2 - dx) && sqrt3_le_exec(ndy, dx + 22) && sqrt3_le_exec(
        5 * dx,
        26 + 5 * dy,
    ) && sqrt3_le_exec(5 * ndx, 26 - 5 * dy);
    if ring {
        (220, 220, 220, 255)
    } else if face && (hour || minute || center) {
        (255, 255, 255, 255)
    } else if face {
        (45, 45, 55, 230)
    } else {
        (0, 0, 0, 0)
    }
}

/// The 32×32 clock icon as RGBA bytes, with its width and height.
pub fn icon_rgba() -> (r: (Vec<u8>, u32, u32))
    ensures
        r.1 == 32,
        r.2 == 32,
        icon_bytes_ok(r.0@),
        r.0@.len() == r.1 * r.2 * 4,
{
    let mut pixels: Vec<u8> = Vec::new();
    let mut y: i64 = 0;
    while y < 32
        invariant
            0 <= y <= 32,
            pixels@.len() == y * 32 * 4,
            forall|px: int, py: int, c: int|
                0 <= px < 32 && 0 <= py < y && 0 <= c < 4 ==> #[trigger] pixels@[(py * 32 + px) * 4 + c]
                    == channel(icon_pixel(px, py), c),
        decreases 32 - y,
    {
        let mut x: i64 = 0;
        while x < 32
            invariant
                0 <= y < 32,
                0 <= x <= 32,
                pixels@.len() == (y * 32 + x) * 4,
                forall|px: int, py: int, c: int|
                    0 <= px < 32 && 0 <= py < 32 && (py < y || (py == y && px < x)) && 0 <= c < 4
                        ==> #[trigger] pixels@[(py * 32 + px) * 4 + c] == channel(icon_pixel(px, py), c),
            decreases 32 - x,
        {
            let (r, g, b, a) = pixel(x, y);
            let ghost before = pixels@;
            pixels.push(r);
            pixels.push(g);
            pixels.push(b);
            pixels.push(a);
            proof {
                let base = (y * 32 + x) * 4;
                assert(pixels@[base] == r);
                assert(pixels@[base + 1] == g);
                assert(pixels@[base + 2] == b);
                assert(pixels@[base + 3] == a);
                assert forall|px: int, py: int, c: int|
                    0 <= px < 32 && 0 <= py < 32 && (py < y || (py == y && px < x + 1)) && 0 <= c < 4
                        implies #[trigger] pixels@[(py * 32 + px) * 4 + c] == channel(icon_pixel(px, py), c) by {
                    if py == y && px == x {
                    } else {
                        assert((py * 32 + px) * 4 + c < base);
                        assert(pixels@[(py * 32 + px) * 4 + c] == before[(py * 32 + px) * 4 + c]);
                    }
                }
            }
            x = x + 1;
        }
        y = y + 1;
    }
    (pixels, ICON_SIZE, ICON_SIZE)
}

#[verifier::external_type_specification]
#[verifier::external_body]
pub struct ExIconData(egui::viewport::IconData);

/// The `egui::viewport::IconData` whose fields `rgba`, `width` and `height`
/// hold the given pixels and size.
pub uninterp spec fn icon_data_of(rgba: Seq<u8>, width: u32, height: u32) -> egui::viewport::IconData;

/// Builds an `egui::viewport::IconData` from its three public fields (pixels,
/// width, height): the value is the one with those fields. The type is opaque
/// here, so the fields are named through [`icon_data_of`].
#[verifier::external_body]
fn icon_data(rgba: Vec<u8>, width: u32, height: u32) -> (r: egui::viewport::IconData)
    ensures
        r == icon_data_of(rgba@, width, height),
{
    egui::viewport::IconData { rgba, width, height }
}

/// The clock icon for the window's title bar and task bar: the icon data made
/// of the 32×32 clock pixels.
pub fn viewport_icon() -> (r: egui::viewport::IconData)
    ensures
        exists|pixels: Seq<u8>| icon_bytes_ok(pixels) && r == icon_data_of(pixels, ICON_SIZE, ICON_SIZE),
{
    let (rgba, w, h) = icon_rgba();
    icon_data(rgba, w, h)
}

} // verus!
