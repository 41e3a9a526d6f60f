//! The grid overlay baked into exported birdseye images: alpha blending of
//! a colour into single pixels, whole columns and rows, and the cross that
//! marks the world origin.
//!
//! The world-to-canvas mapping of the grid lines is done by the caller,
//! which hands over the canvas columns and rows to mark; this module does
//! the pixel work, in the order the marks are listed.

use vstd::prelude::*;
use crate::raster::{RgbaCanvas, canvas_pixels, canvas_dims, pixel_index, pixels_of_bytes};

verus! {

/// Colour of the one-metre grid lines: white at alpha 90.
pub const GRID_COLOR: [u8; 4] = [255, 255, 255, 90];

/// Colour of the origin cross: opaque red.
pub const AXIS_COLOR: [u8; 4] = [230, 60, 60, 255];

/// Half the length of each arm of the origin cross, in pixels.
pub const CROSS_REACH: i64 = 10;

/// One colour channel after blending `fg` at opacity `alpha / 255` over
/// `bg`: `fg * alpha / 255 + bg * (255 - alpha) / 255`, rounded to the
/// nearest integer (the exact value is never halfway between two).
pub open spec fn blend_channel(fg: u8, bg: u8, alpha: u8) -> u8 {
    ((2 * (fg as int * alpha as int + bg as int * (255 - alpha as int)) + 255) / 510) as u8
}

/// A pixel after blending `color` over `bg`: the colour channels blend by
/// the alpha of `color`, and the result is opaque.
pub open spec fn blend(bg: [u8; 4], color: [u8; 4]) -> [u8; 4] {
    [
        blend_channel(color[0], bg[0], color[3]),
        blend_channel(color[1], bg[1], color[3]),
        blend_channel(color[2], bg[2], color[3]),
        255u8,
    ]
}

/// The pixels after blending `color` into pixel `(x, y)`.
pub open spec fn blend_at(px: Seq<[u8; 4]>, w: u32, x: int, y: int, color: [u8; 4]) -> Seq<[u8; 4]> {
    let i = pixel_index(w, x, y);
    px.update(i, blend(px[i], color))
}

/// The pixels after blending `color` into column `x`, rows `0..n` in order.
pub open spec fn paint_column(px: Seq<[u8; 4]>, w: u32, x: int, n: nat, color: [u8; 4]) -> Seq<[u8; 4]>
    decreases n,
{
    if n == 0 {
        px
    } else {
        blend_at(paint_column(px, w, x, (n - 1) as nat, color), w, x, n - 1, color)
    }
}

/// The pixels after blending `color` into row `y`, columns `0..n` in order.
pub open spec fn paint_row(px: Seq<[u8; 4]>, w: u32, y: int, n: nat, color: [u8; 4]) -> Seq<[u8; 4]>
    decreases n,
{
    if n == 0 {
        px
    } else {
        blend_at(paint_row(px, w, y, (n - 1) as nat, color), w, n - 1, y, color)
    }
}

/// Canvas line `c` (a column, or a row) lies within `0..extent`.
pub open spec fn in_extent(c: i64, extent: u32) -> bool {
    0 <= c && (c as u32) < extent
}

/// The pixels after painting, in order, every listed column that lies in
/// the image over its full height.
pub open spec fn paint_columns(px: Seq<[u8; 4]>, w: u32, h: u32, cols: Seq<i64>, color: [u8; 4]) -> Seq<[u8; 4]>
    decreases cols.len(),
{
    if cols.len() == 0 {
        px
    } else {
        let before = paint_columns(px, w, h, cols.drop_last(), color);
        let c = cols.last();
        if in_extent(c, w) {
            paint_column(before, w, (c as u32) as int, h as nat, color)
        } else {
            before
        }
    }
}

/// The pixels after painting, in order, every listed row that lies in the
/// image over its full width.
pub open spec fn paint_rows(px: Seq<[u8; 4]>, w: u32, h: u32, rows: Seq<i64>, color: [u8; 4]) -> Seq<[u8; 4]>
    decreases rows.len(),
{
    if rows.len() == 0 {
        px
    } else {
        let before = paint_rows(px, w, h, rows.drop_last(), color);
        let r = rows.last();
        if in_extent(r, h) {
            paint_row(before, w, (r as u32) as int, w as nat, color)
        } else {
            before
        }
    }
}

/// One step of the origin cross, at offset `d`: first the pixel `d` to the
/// side of the origin, then the pixel `d` below it, each where it lies in
/// the image.
pub open spec fn cross_step(px: Seq<[u8; 4]>, w: u32, h: u32, ox: i64, oy: i64, d: int) -> Seq<[u8; 4]> {
    let x = (ox + d) as i64;
    let y = (oy + d) as i64;
    let p1 = if in_extent(x, w) && in_extent(oy, h) {
        blend_at(px, w, (x as u32) as int, (oy as u32) as int, AXIS_COLOR)
    } else {
        px
    };
    if in_extent(ox, w) && in_extent(y, h) {
        blend_at(p1, w, (ox as u32) as int, (y as u32) as int, AXIS_COLOR)
    } else {
        p1
    }
}

/// The pixels after the first `n` steps of the origin cross, offsets
/// `-CROSS_REACH, -CROSS_REACH + 1, ...` in order.
pub open spec fn paint_cross(px: Seq<[u8; 4]>, w: u32, h: u32, ox: i64, oy: i64, n: nat) -> Seq<[u8; 4]>
    decreases n,
{
    if n == 0 {
        px
    } else {
        cross_step(paint_cross(px, w, h, ox, oy, (n - 1) as nat), w, h, ox, oy, n - 1 - CROSS_REACH)
    }
}

/// The whole overlay: grid columns, then grid rows, then the origin cross
/// with offsets `-CROSS_REACH..=CROSS_REACH`.
pub open spec fn grid_overlay(
    px: Seq<[u8; 4]>,
    w: u32,
    h: u32,
    cols: Seq<i64>,
    rows: Seq<i64>,
    ox: i64,
    oy: i64,
) -> Seq<[u8; 4]> {
    let lines = paint_rows(paint_columns(px, w, h, cols, GRID_COLOR), w, h, rows, GRID_COLOR);
    paint_cross(lines, w, h, ox, oy, (2 * CROSS_REACH + 1) as nat)
}

fn blend_channel_exec(fg: u8, bg: u8, alpha: u8) -> (c: u8)
    ensures
        c == blend_channel(fg, bg, alpha),
{
    let f = fg as u32;
    let b = bg as u32;
    let a = alpha as u32;
    assert(f * a + b * (255 - a) <= 255 * 255) by (nonlinear_arith)
        requires
            f <= 255,
            b <= 255,
            a <= 255,
    ;
    let n = f * a + b * (255 - a);
    let r = (2 * n + 255) / 510;
    assert(r <= 255);
    r as u8
}

/// Blends `color` into pixel `(x, y)` of `canvas` at the opacity of its
/// alpha channel, and makes the pixel opaque.
pub(crate) fn blend_pixel(canvas: &mut RgbaCanvas, x: u32, y: u32, color: [u8; 4])
    requires
        x < canvas_dims(*old(canvas)).0,
        y < canvas_dims(*old(canvas)).1,
    ensures
        canvas_dims(*final(canvas)) == canvas_dims(*old(canvas)),
        canvas_pixels(*final(canvas)) == blend_at(
            canvas_pixels(*old(canvas)),
            canvas_dims(*old(canvas)).0,
            x as int,
            y as int,
            color,
        ),
{
    let bg = canvas.get_pixel(x, y);
    let r = blend_channel_exec(color[0], bg[0], color[3]);
    let g = blend_channel_exec(color[1], bg[1], color[3]);
    let b = blend_channel_exec(color[2], bg[2], color[3]);
    let out: [u8; 4] = [r, g, b, 255];
    assert(out == blend(bg, color));
    canvas.put_pixel(x, y, out);
}


/// Blends `color` into column `x` over the full height of the canvas.
fn paint_column_exec(canvas: &mut RgbaCanvas, x: u32, color: [u8; 4])
    requires
        x < canvas_dims(*old(canvas)).0,
    ensures
        canvas_dims(*final(canvas)) == canvas_dims(*old(canvas)),
        canvas_pixels(*final(canvas)) == paint_column(
            canvas_pixels(*old(canvas)),
            canvas_dims(*old(canvas)).0,
            x as int,
            canvas_dims(*old(canvas)).1 as nat,
            color,
        ),
{
    let ghost p0 = canvas_pixels(*canvas);
    let (w, h) = canvas.dimensions();
    let mut row: u32 = 0;
    while row < h
        invariant
            row <= h,
            x < w,
            canvas_dims(*canvas) == (w, h),
            canvas_pixels(*canvas) == paint_column(p0, w, x as int, row as nat, color),
        decreases h - row,
    {
        blend_pixel(canvas, x, row, color);
        row = row + 1;
    }
}

/// Blends `color` into row `y` over the full width of the canvas.
fn paint_row_exec(canvas: &mut RgbaCanvas, y: u32, color: [u8; 4])
    requires
        y < canvas_dims(*old(canvas)).1,
    ensures
        canvas_dims(*final(canvas)) == canvas_dims(*old(canvas)),
        canvas_pixels(*final(canvas)) == paint_row(
            canvas_pixels(*old(canvas)),
            canvas_dims(*old(canvas)).0,
            y as int,
            canvas_dims(*old(canvas)).0 as nat,
            color,
        ),
{
    let ghost p0 = canvas_pixels(*canvas);
    let (w, h) = canvas.dimensions();
    let mut col: u32 = 0;
    while col < w
        invariant
            col <= w,
            y < h,
            canvas_dims(*canvas) == (w, h),
            canvas_pixels(*canvas) == paint_row(p0, w, y as int, col as nat, color),
        decreases w - col,
    {
        blend_pixel(canvas, col, y, color);
        col = col + 1;
    }
}

/// Bakes the grid and the origin cross into `canvas`; see `draw_grid_marks`.
fn paint_grid(
    canvas: &mut RgbaCanvas,
    cols: &Vec<i64>,
    rows: &Vec<i64>,
    origin_col: i64,
    origin_row: i64,
)
    requires
        i64::MIN + CROSS_REACH <= origin_col <= i64::MAX - CROSS_REACH,
        i64::MIN + CROSS_REACH <= origin_row <= i64::MAX - CROSS_REACH,
    ensures
        canvas_dims(*final(canvas)) == canvas_dims(*old(canvas)),
        canvas_pixels(*final(canvas)) == grid_overlay(
            canvas_pixels(*old(canvas)),
            canvas_dims(*old(canvas)).0,
            canvas_dims(*old(canvas)).1,
            cols@,
            rows@,
            origin_col,
            origin_row,
        ),
{
    let ghost p0 = canvas_pixels(*canvas);
    let (w, h) = canvas.dimensions();

    let mut i: usize = 0;
    while i < cols.len()
        invariant
            i <= cols@.len(),
            canvas_dims(*canvas) == (w, h),
            canvas_pixels(*canvas) == paint_columns(p0, w, h, cols@.take(i as int), GRID_COLOR),
        decreases cols@.len() - i,
    {
        let col = cols[i];
        if col >= 0 && (col as u32) < w {
            paint_column_exec(canvas, col as u32, GRID_COLOR);
        }
        assert(cols@.take(i + 1).drop_last() =~= cols@.take(i as int));
        i = i + 1;
    }
    assert(cols@.take(cols@.len() as int) =~= cols@);
    let ghost p1 = canvas_pixels(*canvas);

    let mut j: usize = 0;
    while j < rows.len()
        invariant
            j <= rows@.len(),
            canvas_dims(*canvas) == (w, h),
            canvas_pixels(*canvas) == paint_rows(p1, w, h, rows@.take(j as int), GRID_COLOR),
        decreases rows@.len() - j,
    {
        let row = rows[j];
        if row >= 0 && (row as u32) < h {
            paint_row_exec(canvas, row as u32, GRID_COLOR);
        }
        assert(rows@.take(j + 1).drop_last() =~= rows@.take(j as int));
        j = j + 1;
    }
    assert(rows@.take(rows@.len() as int) =~= rows@);
    let ghost p2 = canvas_pixels(*canvas);

    let ox = origin_col;
    let oy = origin_row;
    let mut d: i64 = -CROSS_REACH;
    while d <= CROSS_REACH
        invariant
            -CROSS_REACH <= d <= CROSS_REACH + 1,
            i64::MIN + CROSS_REACH <= ox <= i64::MAX - CROSS_REACH,
            i64::MIN + CROSS_REACH <= oy <= i64::MAX - CROSS_REACH,
            canvas_dims(*canvas) == (w, h),
            canvas_pixels(*canvas) == paint_cross(p2, w, h, ox, oy, (d + CROSS_REACH) as nat),
        decreases CROSS_REACH + 1 - d,
    {
        let ghost before = canvas_pixels(*canvas);
        let x = ox + d;
        if x >= 0 && (x as u32) < w && oy >= 0 && (oy as u32) < h {
            blend_pixel(canvas, x as u32, oy as u32, AXIS_COLOR);
        }
        let y = oy + d;
        if ox >= 0 && (ox as u32) < w && y >= 0 && (y as u32) < h {
            blend_pixel(canvas, ox as u32, y as u32, AXIS_COLOR);
        }
        assert(canvas_pixels(*canvas) == cross_step(before, w, h, ox, oy, d as int));
        d = d + 1;
    }
}


/// The step of the origin cross at offset `d` blends pixel `(x, y)`.
pub open spec fn cross_step_hits(w: u32, h: u32, ox: i64, oy: i64, d: int, x: u32, y: u32) -> bool {
    ||| in_extent((ox + d) as i64, w) && in_extent(oy, h)
        && ((ox + d) as i64) as u32 == x && oy as u32 == y
    ||| in_extent(ox, w) && in_extent((oy + d) as i64, h)
        && ox as u32 == x && ((oy + d) as i64) as u32 == y
}

/// Some step of the origin cross blends pixel `(x, y)`.
pub open spec fn cross_covers(w: u32, h: u32, ox: i64, oy: i64, x: u32, y: u32) -> bool {
    exists|d: int| -CROSS_REACH <= d <= CROSS_REACH && #[trigger] cross_step_hits(w, h, ox, oy, d, x, y)
}

/// The overlay marks pixel `(x, y)`: it lies on a listed column or row that
/// is shown, or under the origin cross.
pub open spec fn overlay_marks(
    w: u32,
    h: u32,
    cols: Seq<i64>,
    rows: Seq<i64>,
    ox: i64,
    oy: i64,
    x: u32,
    y: u32,
) -> bool {
    ||| exists|i: int| 0 <= i < cols.len() && in_extent(cols[i], w) && cols[i] as u32 == x
    ||| exists|j: int| 0 <= j < rows.len() && in_extent(rows[j], h) && rows[j] as u32 == y
    ||| cross_covers(w, h, ox, oy, x, y)
}

proof fn lemma_index_in_range(w: u32, h: u32, x: int, y: int)
    requires
        0 <= x < w,
        0 <= y < h,
    ensures
        0 <= pixel_index(w, x, y) < w as nat * h as nat,
{
    assert(0 <= y * (w as int) + x < (w as int) * (h as int)) by (nonlinear_arith)
        requires
            0 <= x < w,
            0 <= y < h,
    ;
}

proof fn lemma_index_injective(w: u32, x1: int, y1: int, x2: int, y2: int)
    requires
        0 <= x1 < w,
        0 <= x2 < w,
        0 <= y1,
        0 <= y2,
        pixel_index(w, x1, y1) == pixel_index(w, x2, y2),
    ensures
        x1 == x2,
        y1 == y2,
{
    let wi = w as int;
    if y1 < y2 {
        assert(y1 * wi + x1 < y2 * wi + x2) by (nonlinear_arith)
            requires
                y1 < y2,
                0 <= x1 < wi,
                0 <= x2,
        ;
    } else if y2 < y1 {
        assert(y2 * wi + x2 < y1 * wi + x1) by (nonlinear_arith)
            requires
                y2 < y1,
                0 <= x2 < wi,
                0 <= x1,
        ;
    }
}

/// Blending into `(bx, by)` leaves the length and every other pixel as they
/// were.
proof fn lemma_blend_at_frame(px: Seq<[u8; 4]>, w: u32, h: u32, bx: int, by: int, color: [u8; 4], x: u32, y: u32)
    requires
        px.len() == w as nat * h as nat,
        0 <= bx < w,
        0 <= by < h,
        x < w,
        y < h,
        bx != x || by != y,
    ensures
        blend_at(px, w, bx, by, color).len() == px.len(),
        blend_at(px, w, bx, by, color)[pixel_index(w, x as int, y as int)]
            == px[pixel_index(w, x as int, y as int)],
{
    lemma_index_in_range(w, h, bx, by);
    lemma_index_in_range(w, h, x as int, y as int);
    if pixel_index(w, bx, by) == pixel_index(w, x as int, y as int) {
        lemma_index_injective(w, bx, by, x as int, y as int);
    }
}

proof fn lemma_paint_column_frame(px: Seq<[u8; 4]>, w: u32, h: u32, c: int, n: nat, color: [u8; 4], x: u32, y: u32)
    requires
        px.len() == w as nat * h as nat,
        0 <= c < w,
        n <= h,
        x < w,
        y < h,
        c != x,
    ensures
        paint_column(px, w, c, n, color).len() == px.len(),
        paint_column(px, w, c, n, color)[pixel_index(w, x as int, y as int)]
            == px[pixel_index(w, x as int, y as int)],
    decreases n,
{
    if n > 0 {
        lemma_paint_column_frame(px, w, h, c, (n - 1) as nat, color, x, y);
        lemma_blend_at_frame(paint_column(px, w, c, (n - 1) as nat, color), w, h, c, n - 1, color, x, y);
    }
}

proof fn lemma_paint_row_frame(px: Seq<[u8; 4]>, w: u32, h: u32, r: int, n: nat, color: [u8; 4], x: u32, y: u32)
    requires
        px.len() == w as nat * h as nat,
        0 <= r < h,
        n <= w,
        x < w,
        y < h,
        r != y,
    ensures
        paint_row(px, w, r, n, color).len() == px.len(),
        paint_row(px, w, r, n, color)[pixel_index(w, x as int, y as int)]
            == px[pixel_index(w, x as int, y as int)],
    decreases n,
{
    if n > 0 {
        lemma_paint_row_frame(px, w, h, r, (n - 1) as nat, color, x, y);
        lemma_blend_at_frame(paint_row(px, w, r, (n - 1) as nat, color), w, h, n - 1, r, color, x, y);
    }
}

proof fn lemma_paint_columns_frame(px: Seq<[u8; 4]>, w: u32, h: u32, cols: Seq<i64>, color: [u8; 4], x: u32, y: u32)
    requires
        px.len() == w as nat * h as nat,
        x < w,
        y < h,
        forall|i: int| 0 <= i < cols.len() && in_extent(cols[i], w) ==> cols[i] as u32 != x,
    ensures
        paint_columns(px, w, h, cols, color).len() == px.len(),
        paint_columns(px, w, h, cols, color)[pixel_index(w, x as int, y as int)]
            == px[pixel_index(w, x as int, y as int)],
    decreases cols.len(),
{
    if cols.len() > 0 {
        let front = cols.drop_last();
        assert forall|i: int| 0 <= i < front.len() && in_extent(front[i], w) implies front[i] as u32 != x by {
            assert(front[i] == cols[i]);
        }
        lemma_paint_columns_frame(px, w, h, front, color, x, y);
        let c = cols.last();
        if in_extent(c, w) {
            assert(cols[cols.len() - 1] == c);
            lemma_paint_column_frame(
                paint_columns(px, w, h, front, color), w, h, (c as u32) as int, h as nat, color, x, y);
        }
    }
}

proof fn lemma_paint_rows_frame(px: Seq<[u8; 4]>, w: u32, h: u32, rows: Seq<i64>, color: [u8; 4], x: u32, y: u32)
    requires
        px.len() == w as nat * h as nat,
        x < w,
        y < h,
        forall|j: int| 0 <= j < rows.len() && in_extent(rows[j], h) ==> rows[j] as u32 != y,
    ensures
        paint_rows(px, w, h, rows, color).len() == px.len(),
        paint_rows(px, w, h, rows, color)[pixel_index(w, x as int, y as int)]
            == px[pixel_index(w, x as int, y as int)],
    decreases rows.len(),
{
    if rows.len() > 0 {
        let front = rows.drop_last();
        assert forall|j: int| 0 <= j < front.len() && in_extent(front[j], h) implies front[j] as u32 != y by {
            assert(front[j] == rows[j]);
        }
        lemma_paint_rows_frame(px, w, h, front, color, x, y);
        let r = rows.last();
        if in_extent(r, h) {
            assert(rows[rows.len() - 1] == r);
            lemma_paint_row_frame(
                paint_rows(px, w, h, front, color), w, h, (r as u32) as int, w as nat, color, x, y);
        }
    }
}

proof fn lemma_paint_cross_frame(px: Seq<[u8; 4]>, w: u32, h: u32, ox: i64, oy: i64, n: nat, x: u32, y: u32)
    requires
        px.len() == w as nat * h as nat,
        n <= 2 * CROSS_REACH + 1,
        x < w,
        y < h,
        !cross_covers(w, h, ox, oy, x, y),
    ensures
        paint_cross(px, w, h, ox, oy, n).len() == px.len(),
        paint_cross(px, w, h, ox, oy, n)[pixel_index(w, x as int, y as int)]
            == px[pixel_index(w, x as int, y as int)],
    decreases n,
{
    if n > 0 {
        lemma_paint_cross_frame(px, w, h, ox, oy, (n - 1) as nat, x, y);
        let d = n - 1 - CROSS_REACH;
        assert(!cross_step_hits(w, h, ox, oy, d, x, y));
        let before = paint_cross(px, w, h, ox, oy, (n - 1) as nat);
        let sx = (ox + d) as i64;
        let sy = (oy + d) as i64;
        let p1 = if in_extent(sx, w) && in_extent(oy, h) {
            blend_at(before, w, (sx as u32) as int, (oy as u32) as int, AXIS_COLOR)
        } else {
            before
        };
        if in_extent(sx, w) && in_extent(oy, h) {
            lemma_blend_at_frame(before, w, h, (sx as u32) as int, (oy as u32) as int, AXIS_COLOR, x, y);
        }
        if in_extent(ox, w) && in_extent(sy, h) {
            lemma_blend_at_frame(p1, w, h, (ox as u32) as int, (sy as u32) as int, AXIS_COLOR, x, y);
        }
    }
}

/// The overlay changes no pixel that lies on none of the listed columns
/// and rows shown in the image and outside the origin cross.
pub proof fn lemma_overlay_leaves_unmarked_pixels(
    px: Seq<[u8; 4]>,
    w: u32,
    h: u32,
    cols: Seq<i64>,
    rows: Seq<i64>,
    ox: i64,
    oy: i64,
    x: u32,
    y: u32,
)
    requires
        px.len() == w as nat * h as nat,
        x < w,
        y < h,
        !overlay_marks(w, h, cols, rows, ox, oy, x, y),
    ensures
        grid_overlay(px, w, h, cols, rows, ox, oy).len() == px.len(),
        grid_overlay(px, w, h, cols, rows, ox, oy)[pixel_index(w, x as int, y as int)]
            == px[pixel_index(w, x as int, y as int)],
{
    lemma_paint_columns_frame(px, w, h, cols, GRID_COLOR, x, y);
    let p1 = paint_columns(px, w, h, cols, GRID_COLOR);
    lemma_paint_rows_frame(p1, w, h, rows, GRID_COLOR, x, y);
    let p2 = paint_rows(p1, w, h, rows, GRID_COLOR);
    lemma_paint_cross_frame(p2, w, h, ox, oy, (2 * CROSS_REACH + 1) as nat, x, y);
}

/// Blending a fully opaque colour replaces the pixel with that colour.
pub proof fn lemma_blend_opaque(bg: [u8; 4], color: [u8; 4])
    requires
        color[3] == 255,
    ensures
        blend(bg, color) == color,
{
    assert(blend_channel(color[0], bg[0], 255) == color[0]);
    assert(blend_channel(color[1], bg[1], 255) == color[1]);
    assert(blend_channel(color[2], bg[2], 255) == color[2]);
    assert(blend(bg, color) =~= color);
}


/// Bakes the grid and the origin cross into the `width` by `height` RGBA
/// image whose raw buffer is `pixels` (four bytes a pixel, row after row),
/// and returns the buffer. Each listed column that lies in the image is
/// blended with the grid colour over its full height, then each listed row
/// over its full width; then the cross of opaque axis colour,
/// `CROSS_REACH` pixels each way from `(origin_col, origin_row)`, is
/// blended wherever it lies in the image.
pub fn draw_grid_marks(
    width: u32,
    height: u32,
    pixels: Vec<u8>,
    cols: &Vec<i64>,
    rows: &Vec<i64>,
    origin_col: i64,
    origin_row: i64,
) -> (out: Vec<u8>)
    requires
        4 * (width as int) * (height as int) <= pixels@.len(),
        i64::MIN + CROSS_REACH <= origin_col <= i64::MAX - CROSS_REACH,
        i64::MIN + CROSS_REACH <= origin_row <= i64::MAX - CROSS_REACH,
    ensures
        out@.len() >= 4 * (width as int) * (height as int),
        pixels_of_bytes(out@, width as nat * height as nat) == grid_overlay(
            pixels_of_bytes(pixels@, width as nat * height as nat),
            width,
            height,
            cols@,
            rows@,
            origin_col,
            origin_row,
        ),
{
    let mut canvas = RgbaCanvas::from_raw(width, height, pixels).unwrap();
    paint_grid(&mut canvas, cols, rows, origin_col, origin_row);
    canvas.into_raw()
}


/// Every pixel of `q` is that of `p` or opaque.
pub open spec fn opaque_where_changed(q: Seq<[u8; 4]>, p: Seq<[u8; 4]>) -> bool {
    &&& q.len() == p.len()
    &&& forall|i: int| 0 <= i < p.len() ==> #[trigger] q[i] == p[i] || q[i][3] == 255
}

proof fn lemma_opaque_where_changed_trans(r: Seq<[u8; 4]>, q: Seq<[u8; 4]>, p: Seq<[u8; 4]>)
    requires
        opaque_where_changed(r, q),
        opaque_where_changed(q, p),
    ensures
        opaque_where_changed(r, p),
{
    assert forall|i: int| 0 <= i < p.len() implies #[trigger] r[i] == p[i] || r[i][3] == 255 by {
        assert(r[i] == q[i] || r[i][3] == 255);
        assert(q[i] == p[i] || q[i][3] == 255);
    }
}

proof fn lemma_blend_at_opaque(px: Seq<[u8; 4]>, w: u32, h: u32, bx: int, by: int, color: [u8; 4])
    requires
        px.len() == w as nat * h as nat,
        0 <= bx < w,
        0 <= by < h,
    ensures
        opaque_where_changed(blend_at(px, w, bx, by, color), px),
{
    lemma_index_in_range(w, h, bx, by);
}

proof fn lemma_paint_column_opaque(px: Seq<[u8; 4]>, w: u32, h: u32, c: int, n: nat, color: [u8; 4])
    requires
        px.len() == w as nat * h as nat,
        0 <= c < w,
        n <= h,
    ensures
        opaque_where_changed(paint_column(px, w, c, n, color), px),
    decreases n,
{
    if n > 0 {
        lemma_paint_column_opaque(px, w, h, c, (n - 1) as nat, color);
        let before = paint_column(px, w, c, (n - 1) as nat, color);
        lemma_blend_at_opaque(before, w, h, c, n - 1, color);
        lemma_opaque_where_changed_trans(paint_column(px, w, c, n, color), before, px);
    }
}

proof fn lemma_paint_row_opaque(px: Seq<[u8; 4]>, w: u32, h: u32, r: int, n: nat, color: [u8; 4])
    requires
        px.len() == w as nat * h as nat,
        0 <= r < h,
        n <= w,
    ensures
        opaque_where_changed(paint_row(px, w, r, n, color), px),
    decreases n,
{
    if n > 0 {
        lemma_paint_row_opaque(px, w, h, r, (n - 1) as nat, color);
        let before = paint_row(px, w, r, (n - 1) as nat, color);
        lemma_blend_at_opaque(before, w, h, n - 1, r, color);
        lemma_opaque_where_changed_trans(paint_row(px, w, r, n, color), before, px);
    }
}

proof fn lemma_paint_columns_opaque(px: Seq<[u8; 4]>, w: u32, h: u32, cols: Seq<i64>, color: [u8; 4])
    requires
        px.len() == w as nat * h as nat,
    ensures
        opaque_where_changed(paint_columns(px, w, h, cols, color), px),
    decreases cols.len(),
{
    if cols.len() > 0 {
        let front = cols.drop_last();
        lemma_paint_columns_opaque(px, w, h, front, color);
        let before = paint_columns(px, w, h, front, color);
        let c = cols.last();
        if in_extent(c, w) {
            lemma_paint_column_opaque(before, w, h, (c as u32) as int, h as nat, color);
            lemma_opaque_where_changed_trans(paint_columns(px, w, h, cols, color), before, px);
        }
    }
}

proof fn lemma_paint_rows_opaque(px: Seq<[u8; 4]>, w: u32, h: u32, rows: Seq<i64>, color: [u8; 4])
    requires
        px.len() == w as nat * h as nat,
    ensures
        opaque_where_changed(paint_rows(px, w, h, rows, color), px),
    decreases rows.len(),
{
    if rows.len() > 0 {
        let front = rows.drop_last();
        lemma_paint_rows_opaque(px, w, h, front, color);
        let before = paint_rows(px, w, h, front, color);
        let r = rows.last();
        if in_extent(r, h) {
            lemma_paint_row_opaque(before, w, h, (r as u32) as int, w as nat, color);
            lemma_opaque_where_changed_trans(paint_rows(px, w, h, rows, color), before, px);
        }
    }
}

proof fn lemma_paint_cross_opaque(px: Seq<[u8; 4]>, w: u32, h: u32, ox: i64, oy: i64, n: nat)
    requires
        px.len() == w as nat * h as nat,
    ensures
        opaque_where_changed(paint_cross(px, w, h, ox, oy, n), px),
    decreases n,
{
    if n > 0 {
        lemma_paint_cross_opaque(px, w, h, ox, oy, (n - 1) as nat);
        let before = paint_cross(px, w, h, ox, oy, (n - 1) as nat);
        let d = n - 1 - CROSS_REACH;
        let sx = (ox + d) as i64;
        let sy = (oy + d) as i64;
        let p1 = if in_extent(sx, w) && in_extent(oy, h) {
            blend_at(before, w, (sx as u32) as int, (oy as u32) as int, AXIS_COLOR)
        } else {
            before
        };
        if in_extent(sx, w) && in_extent(oy, h) {
            lemma_blend_at_opaque(before, w, h, (sx as u32) as int, (oy as u32) as int, AXIS_COLOR);
        }
        let p2 = paint_cross(px, w, h, ox, oy, n);
        if in_extent(ox, w) && in_extent(sy, h) {
            lemma_blend_at_opaque(p1, w, h, (ox as u32) as int, (sy as u32) as int, AXIS_COLOR);
            lemma_opaque_where_changed_trans(p2, p1, before);
        }
        lemma_opaque_where_changed_trans(p2, before, px);
    }
}

/// Every pixel that the overlay changes ends opaque.
pub proof fn lemma_overlay_changes_are_opaque(
    px: Seq<[u8; 4]>,
    w: u32,
    h: u32,
    cols: Seq<i64>,
    rows: Seq<i64>,
    ox: i64,
    oy: i64,
)
    requires
        px.len() == w as nat * h as nat,
    ensures
        opaque_where_changed(grid_overlay(px, w, h, cols, rows, ox, oy), px),
{
    lemma_paint_columns_opaque(px, w, h, cols, GRID_COLOR);
    let p1 = paint_columns(px, w, h, cols, GRID_COLOR);
    lemma_paint_rows_opaque(p1, w, h, rows, GRID_COLOR);
    let p2 = paint_rows(p1, w, h, rows, GRID_COLOR);
    lemma_opaque_where_changed_trans(p2, p1, px);
    lemma_paint_cross_opaque(p2, w, h, ox, oy, (2 * CROSS_REACH + 1) as nat);
    lemma_opaque_where_changed_trans(grid_overlay(px, w, h, cols, rows, ox, oy), p2, px);
}

/// Blending the axis colour anywhere keeps pixel `(x, y)` in the axis
/// colour if it was, and puts it there if the blend is at `(x, y)`.
proof fn lemma_blend_axis_at(px: Seq<[u8; 4]>, w: u32, h: u32, bx: int, by: int, x: u32, y: u32)
    requires
        px.len() == w as nat * h as nat,
        0 <= bx < w,
        0 <= by < h,
        x < w,
        y < h,
        (bx == x && by == y) || px[pixel_index(w, x as int, y as int)] == AXIS_COLOR,
    ensures
        blend_at(px, w, bx, by, AXIS_COLOR)[pixel_index(w, x as int, y as int)] == AXIS_COLOR,
        blend_at(px, w, bx, by, AXIS_COLOR).len() == px.len(),
{
    lemma_index_in_range(w, h, bx, by);
    lemma_index_in_range(w, h, x as int, y as int);
    lemma_blend_opaque(px[pixel_index(w, bx, by)], AXIS_COLOR);
    if bx != x || by != y {
        lemma_blend_at_frame(px, w, h, bx, by, AXIS_COLOR, x, y);
    }
}

proof fn lemma_paint_cross_axis(px: Seq<[u8; 4]>, w: u32, h: u32, ox: i64, oy: i64, n: nat, x: u32, y: u32)
    requires
        px.len() == w as nat * h as nat,
        x < w,
        y < h,
        exists|d: int| -CROSS_REACH <= d < n - CROSS_REACH && #[trigger] cross_step_hits(w, h, ox, oy, d, x, y),
    ensures
        paint_cross(px, w, h, ox, oy, n)[pixel_index(w, x as int, y as int)] == AXIS_COLOR,
        paint_cross(px, w, h, ox, oy, n).len() == px.len(),
    decreases n,
{
    let d = n - 1 - CROSS_REACH;
    let before = paint_cross(px, w, h, ox, oy, (n - 1) as nat);
    let here = cross_step_hits(w, h, ox, oy, d, x, y);
    if !here {
        let e = choose|e: int| -CROSS_REACH <= e < n - CROSS_REACH && #[trigger] cross_step_hits(w, h, ox, oy, e, x, y);
        assert(e != d);
        assert(-CROSS_REACH <= e < (n - 1) - CROSS_REACH && cross_step_hits(w, h, ox, oy, e, x, y));
        lemma_paint_cross_axis(px, w, h, ox, oy, (n - 1) as nat, x, y);
    } else if n > 1 {
        lemma_paint_cross_frame_len(px, w, h, ox, oy, (n - 1) as nat);
    }
    if n == 1 {
        assert(before == px);
    }
    let sx = (ox + d) as i64;
    let sy = (oy + d) as i64;
    let first = in_extent(sx, w) && in_extent(oy, h);
    let p1 = if first {
        blend_at(before, w, (sx as u32) as int, (oy as u32) as int, AXIS_COLOR)
    } else {
        before
    };
    let first_here = first && (sx as u32) == x && (oy as u32) == y;
    if first {
        if first_here || before[pixel_index(w, x as int, y as int)] == AXIS_COLOR {
            lemma_blend_axis_at(before, w, h, (sx as u32) as int, (oy as u32) as int, x, y);
        } else {
            lemma_index_in_range(w, h, (sx as u32) as int, (oy as u32) as int);
        }
    }
    let second = in_extent(ox, w) && in_extent(sy, h);
    if second {
        if (ox as u32) == x && (sy as u32) == y || p1[pixel_index(w, x as int, y as int)] == AXIS_COLOR {
            lemma_blend_axis_at(p1, w, h, (ox as u32) as int, (sy as u32) as int, x, y);
        } else {
            lemma_index_in_range(w, h, (ox as u32) as int, (sy as u32) as int);
        }
    }
}

proof fn lemma_paint_cross_frame_len(px: Seq<[u8; 4]>, w: u32, h: u32, ox: i64, oy: i64, n: nat)
    requires
        px.len() == w as nat * h as nat,
    ensures
        paint_cross(px, w, h, ox, oy, n).len() == px.len(),
{
    lemma_paint_cross_opaque(px, w, h, ox, oy, n);
}

/// Every pixel under the origin cross ends in the axis colour.
pub proof fn lemma_cross_in_axis_colour(
    px: Seq<[u8; 4]>,
    w: u32,
    h: u32,
    cols: Seq<i64>,
    rows: Seq<i64>,
    ox: i64,
    oy: i64,
    x: u32,
    y: u32,
)
    requires
        px.len() == w as nat * h as nat,
        x < w,
        y < h,
        cross_covers(w, h, ox, oy, x, y),
    ensures
        grid_overlay(px, w, h, cols, rows, ox, oy)[pixel_index(w, x as int, y as int)] == AXIS_COLOR,
{
    lemma_overlay_changes_are_opaque(px, w, h, cols, rows, ox, oy);
    lemma_paint_columns_opaque(px, w, h, cols, GRID_COLOR);
    let p1 = paint_columns(px, w, h, cols, GRID_COLOR);
    lemma_paint_rows_opaque(p1, w, h, rows, GRID_COLOR);
    let p2 = paint_rows(p1, w, h, rows, GRID_COLOR);
    lemma_paint_cross_axis(p2, w, h, ox, oy, (2 * CROSS_REACH + 1) as nat, x, y);
}

} // verus!
