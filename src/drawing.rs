//! Pixels of the window decoration drawn around each window in the application overview.

use vstd::prelude::*;

verus! {

/// The pixel at column `x`, row `y` lies in the columns `[x0, x1)` and the rows `[y0, y1)`.
pub open spec fn in_area(x: int, y: int, x0: int, x1: int, y0: int, y1: int) -> bool {
    x0 <= x < x1 && y0 <= y < y1
}

/// RGBA colour of the decoration pixel at column `x`, row `y`, for a decoration `width` by
/// `height` pixels with a title bar `title` pixels high and borders `border` pixels wide.
///
/// The borders (left, right, bottom, and above and below the title bar) are dark grey, the
/// title bar grey, the area below it, where the window is drawn, black, and the rest clear.
pub open spec fn decoration_rgba(width: int, height: int, title: int, border: int, x: int, y: int) -> Seq<u8> {
    let right = width - border;
    let bottom = height - border;
    if in_area(x, y, border, right, bottom, height) || in_area(x, y, right, width, 0, height)
        || in_area(x, y, 0, border, 0, height) || in_area(x, y, border, right, title - border, title)
        || in_area(x, y, border, right, 0, border) {
        seq![32u8, 32u8, 32u8, 255u8]
    } else if in_area(x, y, border, width, border, title - border) {
        seq![64u8, 64u8, 64u8, 255u8]
    } else if in_area(x, y, border, right, title, bottom) {
        seq![0u8, 0u8, 0u8, 255u8]
    } else {
        seq![0u8, 0u8, 0u8, 0u8]
    }
}

/// The four bytes of pixel `i` of `pixels` hold its decoration colour; pixels run row by row.
pub open spec fn pixel_ok(pixels: Seq<u8>, width: int, height: int, title: int, border: int, i: int) -> bool {
    forall|k: int|
        0 <= k < 4 ==> pixels[i * 4 + k] == #[trigger] decoration_rgba(
            width,
            height,
            title,
            border,
            i % width,
            i / width,
        )[k]
}

/// RGBA colour of one decoration pixel.
fn decoration_pixel(width: usize, height: usize, title: usize, border: usize, x: usize, y: usize) -> (r: [u8; 4])
    requires
        border <= width,
        border <= height,
        border <= title,
    ensures
        r@ == decoration_rgba(
            width as int,
            height as int,
            title as int,
            border as int,
            x as int,
            y as int,
        ),
{
    let right = width - border;
    let bottom = height - border;
    let r = if (border <= x && x < right && bottom <= y && y < height) || (right <= x && x < width
        && y < height) || (x < border && y < height) || (border <= x && x < right && title
        - border <= y && y < title) || (border <= x && x < right && y < border) {
        [32u8, 32u8, 32u8, 255u8]
    } else if border <= x && x < width && border <= y && y < title - border {
        [64u8, 64u8, 64u8, 255u8]
    } else if border <= x && x < right && title <= y && y < bottom {
        [0u8, 0u8, 0u8, 255u8]
    } else {
        [0u8, 0u8, 0u8, 0u8]
    };
    assert(r@ =~= decoration_rgba(
        width as int,
        height as int,
        title as int,
        border as int,
        x as int,
        y as int,
    ));
    r
}

/// RGBA pixels of the overview window decoration, `width` by `height` pixels, row by row: a
/// title bar `title_height` pixels high and borders `border_width` pixels wide around the area
/// where the window is drawn.
pub fn decoration_pixels(width: usize, height: usize, title_height: usize, border_width: usize) -> (r: Vec<u8>)
    requires
        border_width <= width,
        border_width <= height,
        border_width <= title_height,
        width * height * 4 <= usize::MAX,
    ensures
        r@.len() == width * height * 4,
        forall|i: int|
            0 <= i < width * height ==> #[trigger] pixel_ok(
                r@,
                width as int,
                height as int,
                title_height as int,
                border_width as int,
                i,
            ),
{
    let count = width * height;
    let mut r: Vec<u8> = Vec::new();
    let mut i: usize = 0;
    while i < count
        invariant
            count == width * height,
            count * 4 <= usize::MAX,
            i <= count,
            border_width <= width,
            border_width <= height,
            border_width <= title_height,
            r@.len() == i * 4,
            forall|j: int|
                0 <= j < i ==> #[trigger] pixel_ok(
                    r@,
                    width as int,
                    height as int,
                    title_height as int,
                    border_width as int,
                    j,
                ),
        decreases count - i,
    {
        proof {
            assert(width > 0) by (nonlinear_arith)
                requires
                    i < count,
                    count == width * height,
            ;
        }
        let x = i % width;
        let y = i / width;
        let rgba = decoration_pixel(width, height, title_height, border_width, x, y);
        let ghost before = r@;
        r.push(rgba[0]);
        r.push(rgba[1]);
        r.push(rgba[2]);
        r.push(rgba[3]);
        proof {
            assert forall|j: int|
                0 <= j < i + 1 implies #[trigger] pixel_ok(
                r@,
                width as int,
                height as int,
                title_height as int,
                border_width as int,
                j,
            ) by {
                if j < i {
                    assert(pixel_ok(
                        before,
                        width as int,
                        height as int,
                        title_height as int,
                        border_width as int,
                        j,
                    ));
                    assert forall|k: int| 0 <= k < 4 implies #[trigger] r@[j * 4 + k] == before[j * 4 + k] by {
                        assert(j * 4 + k < i * 4);
                    }
                } else {
                    assert(r@[j * 4 + 0] == rgba@[0]);
                    assert(r@[j * 4 + 1] == rgba@[1]);
                    assert(r@[j * 4 + 2] == rgba@[2]);
                    assert(r@[j * 4 + 3] == rgba@[3]);
                }
            }
        }
        i += 1;
    }
    r
}

} // verus!
