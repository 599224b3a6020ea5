//! Drawing the tray icon.
//!
//! The icon is a crescent moon whose colour carries the state, rasterised here rather than
//! shipped as image assets: it is a few circles, it needs to exist at whatever size the host
//! asks for, and generating it keeps the four state colours from drifting apart from the ones
//! the tooltip and menu use.
//!
//! Positions are kept as integers. Across an icon of `size` pixels there are
//! `2 * SUPERSAMPLES * size` steps, so that the centre of every subpixel lies on a step.

use vstd::prelude::*;

verus! {

/// Sizes handed to the tray host, which picks whichever suits its panel.
pub const SIZES: [i32; 4] = [22, 24, 32, 48];

/// The largest size at which an icon can be drawn: the number of its bytes fits an `i32`, and
/// at the next size it would not.
pub const MAX_SIZE: i32 = 23170;

/// Samples per axis used to antialias the circle edges.
pub const SUPERSAMPLES: i64 = 4;

/// Centre and radius of the moon's body, in thousandths of the icon size.
pub const BODY: (i64, i64, i64) = (500, 500, 420);

/// Centre and radius of the disc punched out to carve the crescent, in thousandths of the icon
/// size.
pub const NOTCH: (i64, i64, i64) = (690, 438, 390);

/// An image, as ARGB32 pixels in network byte order, row by row.
#[derive(Clone, Debug, PartialEq, Eq)]
pub struct Icon {
    pub width: i32,
    pub height: i32,
    pub data: Vec<u8>,
}

/// The step at which the centre of subpixel `sample` of pixel `pixel` lies.
pub open spec fn step(pixel: int, sample: int) -> int {
    2 * (SUPERSAMPLES * pixel + sample) + 1
}

/// Whether the point at step (`x`, `y`) of an icon of the given size lies in `circle`.
pub open spec fn in_circle(x: int, y: int, size: int, circle: (i64, i64, i64)) -> bool {
    let steps = 2 * SUPERSAMPLES * size;
    let dx = 1000 * x - circle.0 * steps;
    let dy = 1000 * y - circle.1 * steps;
    let radius = circle.2 * steps;
    dx * dx + dy * dy <= radius * radius
}

/// Whether the point at step (`x`, `y`) of an icon of the given size lies in the crescent.
pub open spec fn in_crescent(x: int, y: int, size: int) -> bool {
    in_circle(x, y, size, BODY) && !in_circle(x, y, size, NOTCH)
}

/// How many of the first `n` samples of the pixel at (`x`, `y`), row by row, lie in the
/// crescent.
pub open spec fn covered(x: int, y: int, size: int, n: int) -> int
    decreases n,
{
    if n <= 0 {
        0
    } else {
        let k = n - 1;
        covered(x, y, size, k) + if in_crescent(
            step(x, k % (SUPERSAMPLES as int)),
            step(y, k / (SUPERSAMPLES as int)),
            size,
        ) {
            1int
        } else {
            0
        }
    }
}

/// Opacity of the pixel at (`x`, `y`): the part of its samples that lies in the crescent, out
/// of 255 and rounded to the nearest integer.
pub open spec fn opacity(x: int, y: int, size: int) -> int {
    let samples = SUPERSAMPLES * SUPERSAMPLES;
    (2 * 255 * covered(x, y, size, samples) + samples) / (2 * samples)
}

/// The four bytes of the pixel at (`x`, `y`): alpha, red, green and blue.
pub open spec fn pixel(x: int, y: int, size: int, colour: u32) -> Seq<int> {
    seq![
        opacity(x, y, size),
        colour as int / 0x10000 % 0x100,
        colour as int / 0x100 % 0x100,
        colour as int % 0x100,
    ]
}

/// The bytes of the crescent in `colour` at the given size, row by row. There are none if the
/// size is not positive.
pub open spec fn bitmap(size: int, colour: u32) -> Seq<u8> {
    Seq::new(
        if size > 0 {
            (4 * (size * size)) as nat
        } else {
            0
        },
        |i: int| pixel(i / 4 % size, i / 4 / size, size, colour)[i % 4] as u8,
    )
}

/// Whether `icons` are the crescent in `colour`, at each of the sizes in turn.
pub open spec fn is_crescent(icons: Seq<Icon>, colour: u32) -> bool {
    &&& icons.len() == SIZES@.len()
    &&& forall|i: int|
        0 <= i < icons.len() ==> {
            &&& (#[trigger] icons[i]).width == SIZES@[i]
            &&& icons[i].height == SIZES@[i]
            &&& icons[i].data@ == bitmap(SIZES@[i] as int, colour)
        }
}

proof fn lemma_square_bounds(d: i128)
    requires
        -0x4000_0000_0000 <= d <= 0x4000_0000_0000,
    ensures
        0 <= d * d <= 0x4000_0000_0000 * 0x4000_0000_0000,
{
    assert(0 <= d * d <= 0x4000_0000_0000 * 0x4000_0000_0000) by (nonlinear_arith)
        requires
            -0x4000_0000_0000 <= d <= 0x4000_0000_0000,
    ;
}

proof fn lemma_length_bounds(thousandths: i64, steps: i128)
    requires
        0 <= thousandths <= 1000,
        0 <= steps <= 0x4_0000_0000,
    ensures
        0 <= thousandths * steps <= 0x1000_0000_0000,
{
    assert(0 <= thousandths * steps <= 1000 * 0x4_0000_0000) by (nonlinear_arith)
        requires
            0 <= thousandths <= 1000,
            0 <= steps <= 0x4_0000_0000,
    ;
}

/// Whether the point at step (`x`, `y`) of an icon of the given size falls inside the given
/// circle.
fn within(x: i64, y: i64, size: i32, circle: (i64, i64, i64)) -> (inside: bool)
    requires
        0 < size,
        -0x8_0000_0000 <= x <= 0x8_0000_0000,
        -0x8_0000_0000 <= y <= 0x8_0000_0000,
        0 <= circle.0 <= 1000,
        0 <= circle.1 <= 1000,
        0 <= circle.2 <= 1000,
    ensures
        inside == in_circle(x as int, y as int, size as int, circle),
{
    let (centre_x, centre_y, radius) = circle;
    let steps: i128 = 2 * SUPERSAMPLES as i128 * size as i128;
    proof {
        lemma_length_bounds(centre_x, steps);
        lemma_length_bounds(centre_y, steps);
        lemma_length_bounds(radius, steps);
    }
    let dx: i128 = 1000 * x as i128 - centre_x as i128 * steps;
    let dy: i128 = 1000 * y as i128 - centre_y as i128 * steps;
    let reach: i128 = radius as i128 * steps;
    proof {
        lemma_square_bounds(dx);
        lemma_square_bounds(dy);
        lemma_square_bounds(reach);
    }
    dx * dx + dy * dy <= reach * reach
}

/// How many of the `SUPERSAMPLES * SUPERSAMPLES` samples of the pixel at (`x`, `y`) lie inside
/// the crescent.
pub fn coverage(x: i32, y: i32, size: i32) -> (inside: i32)
    requires
        0 < size,
    ensures
        inside == covered(x as int, y as int, size as int, SUPERSAMPLES * SUPERSAMPLES),
        0 <= inside <= SUPERSAMPLES * SUPERSAMPLES,
{
    let mut inside: i32 = 0;
    for k in 0..SUPERSAMPLES * SUPERSAMPLES
        invariant
            0 < size,
            0 <= inside <= k,
            inside == covered(x as int, y as int, size as int, k as int),
    {
        // Sample at subpixel centres, so the sample grid is symmetric within the pixel.
        let point_x: i64 = 2 * (SUPERSAMPLES * x as i64 + k % SUPERSAMPLES) + 1;
        let point_y: i64 = 2 * (SUPERSAMPLES * y as i64 + k / SUPERSAMPLES) + 1;
        if within(point_x, point_y, size, BODY) && !within(point_x, point_y, size, NOTCH) {
            inside = inside + 1;
        }
    }
    inside
}

/// Rasterise a single crescent.
///
/// A size that is not positive gives an icon without pixels.
pub fn render(size: i32, colour: u32) -> (icon: Icon)
    requires
        -MAX_SIZE <= size <= MAX_SIZE,
    ensures
        icon.width == size,
        icon.height == size,
        icon.data@ == bitmap(size as int, colour),
{
    let red: u8 = ((colour >> 16) & 0xff) as u8;
    let green: u8 = ((colour >> 8) & 0xff) as u8;
    let blue: u8 = (colour & 0xff) as u8;
    assert((colour >> 16) & 0xff == colour / 0x10000 % 0x100) by (bit_vector);
    assert((colour >> 8) & 0xff == colour / 0x100 % 0x100) by (bit_vector);
    assert(colour & 0xff == colour % 0x100) by (bit_vector);
    assert(0 <= 4 * (size * size) <= i32::MAX) by (nonlinear_arith)
        requires
            -23170 <= size <= 23170,
    ;
    let pixels: i32 = if size > 0 {
        size * size
    } else {
        0
    };
    let ghost whole = bitmap(size as int, colour);
    let mut data: Vec<u8> = Vec::with_capacity((pixels * 4) as usize);
    for n in 0..pixels
        invariant
            pixels > 0 ==> size > 0 && pixels == size * size,
            whole == bitmap(size as int, colour),
            red == colour as int / 0x10000 % 0x100,
            green == colour as int / 0x100 % 0x100,
            blue == colour as int % 0x100,
            data@.len() == 4 * n,
            whole.len() == 4 * pixels,
            forall|i: int| 0 <= i < 4 * n ==> #[trigger] data@[i] == whole[i],
    {
        let x: i32 = n % size;
        let y: i32 = n / size;
        let alpha: u8 = ((2 * 255 * coverage(x, y, size) + 16) / 32) as u8;
        assert(alpha == opacity(x as int, y as int, size as int));
        assert(whole[4 * n + 0] == alpha);
        assert(whole[4 * n + 1] == red);
        assert(whole[4 * n + 2] == green);
        assert(whole[4 * n + 3] == blue);
        data.push(alpha);
        data.push(red);
        data.push(green);
        data.push(blue);
    }
    assert(data@ =~= whole);
    Icon { width: size, height: size, data }
}

/// Render the crescent in `colour` (`0xRRGGBB`) at every size the host might want.
pub fn crescent(colour: u32) -> (icons: Vec<Icon>)
    ensures
        is_crescent(icons@, colour),
{
    let mut icons: Vec<Icon> = Vec::new();
    for n in 0..SIZES.len()
        invariant
            icons@.len() == n,
            forall|i: int|
                0 <= i < n ==> {
                    &&& (#[trigger] icons@[i]).width == SIZES@[i]
                    &&& icons@[i].height == SIZES@[i]
                    &&& icons@[i].data@ == bitmap(SIZES@[i] as int, colour)
                },
    {
        icons.push(render(SIZES[n], colour));
    }
    icons
}

// ---------------------------------------------------------------------------
// Laws
// ---------------------------------------------------------------------------

proof fn lemma_covered_bounds(x: int, y: int, size: int, n: int)
    requires
        0 <= n,
    ensures
        0 <= covered(x, y, size, n) <= n,
    decreases n,
{
    if n > 0 {
        lemma_covered_bounds(x, y, size, n - 1);
    }
}

proof fn lemma_thousandths(thousandths: i64, size: int, eighths: int)
    requires
        eighths == 8 * thousandths,
    ensures
        thousandths * (2 * SUPERSAMPLES * size) == eighths * size,
{
    let samples = SUPERSAMPLES;
    assert(thousandths * (2 * samples * size) == eighths * size) by (nonlinear_arith)
        requires
            samples == 4,
            eighths == 8 * thousandths,
    ;
}

/// Of the sixteen samples of a pixel, in four rows of four, each counts once, and it counts
/// exactly if it lies within 0.42 of the middle of the icon and not within 0.39 of the point
/// that is 0.69 across and 0.438 down, with the size of the icon as the unit. Sample (`i`, `j`)
/// lies `2 * i + 1` and `2 * j + 1` eighths of a pixel from the corner of its pixel, so that
/// everything here is in thousandths of an eighth of a pixel.
pub proof fn law_each_sample_counts_once(x: int, y: int, size: int, i: int, j: int)
    requires
        0 <= i < 4,
        0 <= j < 4,
    ensures
        covered(x, y, size, 0) == 0,
        ({
            let across = 1000 * (8 * x + 2 * i + 1);
            let down = 1000 * (8 * y + 2 * j + 1);
            let (bx, by, br) = (across - 4000 * size, down - 4000 * size, 3360 * size);
            let (nx, ny, nr) = (across - 5520 * size, down - 3504 * size, 3120 * size);
            let before = covered(x, y, size, 4 * j + i);
            let after = covered(x, y, size, 4 * j + i + 1);
            if bx * bx + by * by <= br * br && nx * nx + ny * ny > nr * nr {
                after == before + 1
            } else {
                after == before
            }
        }),
{
    let k = 4 * j + i;
    assert(k % 4 == i && k / 4 == j);
    let (px, py) = (step(x, i), step(y, j));
    assert(px == 8 * x + 2 * i + 1 && py == 8 * y + 2 * j + 1);
    let (bx, by, br) = (1000 * px - 4000 * size, 1000 * py - 4000 * size, 3360 * size);
    assert(in_circle(px, py, size, BODY) == (bx * bx + by * by <= br * br)) by {
        lemma_thousandths(BODY.0, size, 4000);
        lemma_thousandths(BODY.1, size, 4000);
        lemma_thousandths(BODY.2, size, 3360);
    }
    let (nx, ny, nr) = (1000 * px - 5520 * size, 1000 * py - 3504 * size, 3120 * size);
    assert(in_circle(px, py, size, NOTCH) == (nx * nx + ny * ny <= nr * nr)) by {
        lemma_thousandths(NOTCH.0, size, 5520);
        lemma_thousandths(NOTCH.1, size, 3504);
        lemma_thousandths(NOTCH.2, size, 3120);
    }
}

/// The opacity of a pixel is the integer nearest to the covered part of it out of 255, and the
/// greater one if two are equally near.
pub proof fn law_opacity_is_the_nearest(x: int, y: int, size: int)
    ensures
        -16 < 2 * (16 * opacity(x, y, size) - 255 * covered(x, y, size, 16)) <= 16,
{
    assert(opacity(x, y, size) == (2 * 255 * covered(x, y, size, 16) + 16) / 32);
}

/// A pixel is transparent exactly where none of its samples lies in the crescent, opaque
/// exactly where all of them do, and in between otherwise.
pub proof fn law_edges_are_antialiased(x: int, y: int, size: int)
    ensures
        0 <= opacity(x, y, size) <= 255,
        opacity(x, y, size) == 0 <==> covered(x, y, size, SUPERSAMPLES * SUPERSAMPLES) == 0,
        opacity(x, y, size) == 255 <==> covered(x, y, size, SUPERSAMPLES * SUPERSAMPLES)
            == SUPERSAMPLES * SUPERSAMPLES,
{
    let inside = covered(x, y, size, 16);
    lemma_covered_bounds(x, y, size, 16);
    assert(opacity(x, y, size) == (2 * 255 * inside + 16) / 32);
}

/// The bytes of the pixel at (`x`, `y`) stand at `4 * (y * size + x)`, and they are its
/// opacity followed by the colour, which is the same in every pixel.
pub proof fn law_every_pixel_carries_the_colour(size: int, colour: u32, x: int, y: int)
    requires
        0 <= x < size,
        0 <= y < size,
    ensures
        ({
            let at = 4 * (y * size + x);
            let data = bitmap(size, colour);
            &&& 0 <= at
            &&& at + 4 <= data.len()
            &&& data[at] == opacity(x, y, size)
            &&& data[at + 1] == colour as int / 0x10000 % 0x100
            &&& data[at + 2] == colour as int / 0x100 % 0x100
            &&& data[at + 3] == colour as int % 0x100
        }),
{
    let n = y * size + x;
    assert(0 <= n < size * size && n % size == x && n / size == y) by {
        vstd::arithmetic::div_mod::lemma_fundamental_div_mod_converse(n, size, y, x);
        assert(0 <= y * size && y * size + size <= size * size) by (nonlinear_arith)
            requires
                0 <= y < size,
        ;
    }
    law_edges_are_antialiased(x, y, size);
    let at = 4 * n;
    assert(at / 4 == n && at % 4 == 0);
    assert((at + 1) / 4 == n && (at + 1) % 4 == 1);
    assert((at + 2) / 4 == n && (at + 2) % 4 == 2);
    assert((at + 3) / 4 == n && (at + 3) % 4 == 3);
}

/// A crescent comes as four square icons, 22, 24, 32 and 48 pixels wide; each of them holds
/// every one of its pixels, row by row, in the one colour.
pub proof fn law_a_crescent_comes_in_four_sizes(
    icons: Seq<Icon>,
    colour: u32,
    k: int,
    x: int,
    y: int,
)
    requires
        is_crescent(icons, colour),
        0 <= k < 4,
        0 <= x < icons[k].width,
        0 <= y < icons[k].width,
    ensures
        icons.len() == 4,
        icons[0].width == 22 && icons[1].width == 24 && icons[2].width == 32 && icons[3].width
            == 48,
        icons[k].height == icons[k].width,
        ({
            let size = icons[k].width as int;
            let data = icons[k].data@;
            let at = 4 * (y * size + x);
            &&& data.len() == 4 * (size * size)
            &&& data[at] == opacity(x, y, size)
            &&& data[at + 1] == colour as int / 0x10000 % 0x100
            &&& data[at + 2] == colour as int / 0x100 % 0x100
            &&& data[at + 3] == colour as int % 0x100
        }),
{
    assert(icons[0].width == SIZES@[0] && icons[1].width == SIZES@[1] && icons[2].width
        == SIZES@[2] && icons[3].width == SIZES@[3]);
    law_every_pixel_carries_the_colour(icons[k].width as int, colour, x, y);
}

/// An icon has as many pixels as its size calls for, and none if that is not positive.
pub proof fn law_an_icon_has_all_of_its_pixels(size: int, colour: u32)
    ensures
        size > 0 ==> bitmap(size, colour).len() == 4 * (size * size),
        size <= 0 ==> bitmap(size, colour).len() == 0,
{
    if size > 0 {
        assert(size * size > 0) by (nonlinear_arith)
            requires
                size > 0,
        ;
    }
}

/// Two bitmaps of one size are equal only if they are of one colour.
pub proof fn law_bitmaps_tell_colours_apart(size: int, a: u32, b: u32)
    requires
        size > 0,
        a < 0x100_0000,
        b < 0x100_0000,
    ensures
        bitmap(size, a) == bitmap(size, b) ==> a == b,
{
    law_every_pixel_carries_the_colour(size, a, 0, 0);
    law_every_pixel_carries_the_colour(size, b, 0, 0);
}

} // verus!
