//! The rasterizer: turns draw primitives into pixels of a framebuffer.
//!
//! Points, lines and horizontal runs are drawn here in whole numbers. The
//! edges of a filled triangle are walked elsewhere; this module orders the
//! corners, tells which kind of triangle they make, and fills the runs
//! that the walk gives back.

use vstd::prelude::*;
use crate::color::Rgb565;
use crate::engine::{DrawPrimitive, Point2};
use crate::framebuffer::{
    in_bounds,
    lemma_plot_pixel,
    pixel_at,
    plot,
    stored_word,
    DmaReadyFramebuffer,
};

verus! {

/// Largest coordinate, in either direction, that a line may start or end
/// at: with it no step of the line walk leaves the range of `i32`.
pub const LINE_LIMIT: i32 = 0x3fff_ffff;

/// The pixels of the line from `(x0, y0)` to `(x1, y1)`, in the order in
/// which the line walk visits them.
pub uninterp spec fn bresenham_line(x0: i32, y0: i32, x1: i32, y1: i32) -> Seq<(i32, i32)>;

/// Both ends of the line are within `LINE_LIMIT` of the origin.
pub open spec fn line_in_range(a: Point2, b: Point2) -> bool {
    &&& -LINE_LIMIT <= a.x <= LINE_LIMIT
    &&& -LINE_LIMIT <= a.y <= LINE_LIMIT
    &&& -LINE_LIMIT <= b.x <= LINE_LIMIT
    &&& -LINE_LIMIT <= b.y <= LINE_LIMIT
}

/// Tells whether both ends of the line are within `LINE_LIMIT` of the
/// origin.
pub fn line_fits(a: Point2, b: Point2) -> (ok: bool)
    ensures
        ok == line_in_range(a, b),
{
    -LINE_LIMIT <= a.x && a.x <= LINE_LIMIT && -LINE_LIMIT <= a.y && a.y <= LINE_LIMIT
        && -LINE_LIMIT <= b.x && b.x <= LINE_LIMIT && -LINE_LIMIT <= b.y && b.y <= LINE_LIMIT
}

/// Collects what `line_drawing::Bresenham::new((x0, y0), (x1, y1))`
/// yields. The contract gives the run of pixels its name and repeats what
/// the crate documents of it: it includes both the start and the end
/// point. Nothing else is claimed of the line.
#[verifier::external_body]
fn bresenham(x0: i32, y0: i32, x1: i32, y1: i32) -> (points: Vec<(i32, i32)>)
    requires
        -LINE_LIMIT <= x0 <= LINE_LIMIT,
        -LINE_LIMIT <= y0 <= LINE_LIMIT,
        -LINE_LIMIT <= x1 <= LINE_LIMIT,
        -LINE_LIMIT <= y1 <= LINE_LIMIT,
    ensures
        points@ == bresenham_line(x0, y0, x1, y1),
        points@.len() >= 1,
        points@[0] == (x0, y0),
        points@[points@.len() - 1] == (x1, y1),
{
    line_drawing::Bresenham::new((x0, y0), (x1, y1)).collect()
}

/// The grid after the first `n` of the points are set to `word`, one
/// after the other.
pub open spec fn plot_points(
    words: Seq<u16>,
    w: int,
    h: int,
    points: Seq<(i32, i32)>,
    word: u16,
    n: nat,
) -> Seq<u16>
    decreases n,
{
    if n == 0 {
        words
    } else {
        plot(
            plot_points(words, w, h, points, word, (n - 1) as nat),
            w,
            h,
            points[n - 1].0 as int,
            points[n - 1].1 as int,
            word,
        )
    }
}

/// Setting points to one word sets the pixels that are among them and on
/// the grid, and leaves every other pixel as it was.
pub proof fn lemma_plot_points_pixel(
    words: Seq<u16>,
    w: int,
    h: int,
    points: Seq<(i32, i32)>,
    word: u16,
    n: nat,
    x: int,
    y: int,
)
    requires
        words.len() == w * h,
        n <= points.len(),
        in_bounds(w, h, x, y),
    ensures
        plot_points(words, w, h, points, word, n).len() == words.len(),
        pixel_at(plot_points(words, w, h, points, word, n), w, x, y) == if exists|k: int|
            0 <= k < n && (#[trigger] points[k]).0 == x && points[k].1 == y {
            word
        } else {
            pixel_at(words, w, x, y)
        },
    decreases n,
{
    if n > 0 {
        let earlier = plot_points(words, w, h, points, word, (n - 1) as nat);
        lemma_plot_points_pixel(words, w, h, points, word, (n - 1) as nat, x, y);
        lemma_plot_pixel(
            earlier,
            w,
            h,
            points[n - 1].0 as int,
            points[n - 1].1 as int,
            word,
            x,
            y,
        );
        if points[n - 1].0 == x && points[n - 1].1 == y {
            assert(0 <= n - 1 < n && points[n - 1].0 == x && points[n - 1].1 == y);
        } else if exists|k: int| 0 <= k < n && (#[trigger] points[k]).0 == x && points[k].1 == y {
            let k = choose|k: int| 0 <= k < n && (#[trigger] points[k]).0 == x && points[k].1 == y;
            assert(0 <= k < n - 1 && points[k].0 == x && points[k].1 == y);
        }
    }
}

/// The pixel lies on the horizontal run in the row of `a` between the
/// columns of `a` and `b`, both included, whichever is further left.
pub open spec fn on_run(a: Point2, b: Point2, x: int, y: int) -> bool {
    &&& y == a.y
    &&& (a.x <= x <= b.x || b.x <= x <= a.x)
}

/// The column lies between the two columns of the pair, both included,
/// whichever is further left.
pub open spec fn between(pair: (i32, i32), x: int) -> bool {
    pair.0 <= x <= pair.1 || pair.1 <= x <= pair.0
}

/// The pixel lies on one of the first `n` runs that go down from the row
/// `top`: the k-th pair of columns bounds the run in the k-th row below
/// `top`.
pub open spec fn in_rows_down(top: int, edges: Seq<(i32, i32)>, n: int, x: int, y: int) -> bool {
    top <= y < top + n && between(edges[y - top], x)
}

/// The pixel lies on one of the first `n` runs that go up from the row
/// `bottom`: the k-th pair of columns bounds the run in the k-th row
/// above `bottom`.
pub open spec fn in_rows_up(bottom: int, edges: Seq<(i32, i32)>, n: int, x: int, y: int) -> bool {
    bottom - n < y <= bottom && between(edges[bottom - y], x)
}

/// Which way a triangle with corners in order of their rows can be
/// filled.
#[derive(Clone, Copy, Debug, PartialEq, Eq, Structural)]
pub enum TriangleKind {
    /// The second and third corner share a row.
    BottomFlat,
    /// The first and second corner share a row, the third lies in another.
    TopFlat,
    /// No two neighbours share a row: the triangle is split at the row of
    /// the second corner.
    General,
}

/// The kind of the triangle with these corners.
pub open spec fn kind_of(top: Point2, mid: Point2, low: Point2) -> TriangleKind {
    if mid.y == low.y {
        TriangleKind::BottomFlat
    } else if top.y == mid.y {
        TriangleKind::TopFlat
    } else {
        TriangleKind::General
    }
}

/// The three points in order of their rows, lowest row number first.
/// Points of one row stay in the order in which they were given.
pub open spec fn y_sorted(a: Point2, b: Point2, c: Point2) -> (Point2, Point2, Point2) {
    if a.y <= b.y {
        if b.y <= c.y {
            (a, b, c)
        } else if a.y <= c.y {
            (a, c, b)
        } else {
            (c, a, b)
        }
    } else {
        if a.y <= c.y {
            (b, a, c)
        } else if b.y <= c.y {
            (b, c, a)
        } else {
            (c, b, a)
        }
    }
}

/// `r` holds the three points, each once, in some order.
pub open spec fn is_arrangement(a: Point2, b: Point2, c: Point2, r: (Point2, Point2, Point2)) -> bool {
    ||| r == (a, b, c)
    ||| r == (a, c, b)
    ||| r == (b, a, c)
    ||| r == (b, c, a)
    ||| r == (c, a, b)
    ||| r == (c, b, a)
}

/// A triangle that waits to be filled: its corners in order of their
/// rows, its kind and its colour.
#[derive(Clone, Copy, Debug, PartialEq, Eq, Structural)]
pub struct TriangleFill {
    pub kind: TriangleKind,
    pub top: Point2,
    pub mid: Point2,
    pub low: Point2,
    pub color: Rgb565,
}

impl TriangleFill {
    /// The corners are in order of their rows and the kind is theirs.
    pub open spec fn wf(self) -> bool {
        &&& self.top.y <= self.mid.y <= self.low.y
        &&& self.kind == kind_of(self.top, self.mid, self.low)
    }

    /// The number of rows that are filled downwards from the first
    /// corner: down to the second corner, unless the triangle is flat at
    /// the top.
    pub open spec fn upper_rows(self) -> int {
        match self.kind {
            TriangleKind::TopFlat => 0,
            _ => self.mid.y - self.top.y + 1,
        }
    }

    /// The number of rows that are filled upwards from the third corner:
    /// none where the triangle is flat at the bottom, up to the first
    /// corner where it is flat at the top, and else up to the second.
    pub open spec fn lower_rows(self) -> int {
        match self.kind {
            TriangleKind::BottomFlat => 0,
            TriangleKind::TopFlat => self.low.y - self.top.y + 1,
            TriangleKind::General => self.low.y - self.mid.y + 1,
        }
    }

    /// The pixel is filled when the edges of the triangle run through the
    /// columns `upper` in the rows down from the first corner and through
    /// the columns `lower` in the rows up from the third.
    pub open spec fn fills(
        self,
        upper: Seq<(i32, i32)>,
        lower: Seq<(i32, i32)>,
        x: int,
        y: int,
    ) -> bool {
        in_rows_down(self.top.y as int, upper, upper.len() as int, x, y) || in_rows_up(
            self.low.y as int,
            lower,
            lower.len() as int,
            x,
            y,
        )
    }
}

impl TriangleFill {
    /// Tells whether the walked columns have one pair for every row of
    /// the two parts of the fill.
    pub fn edges_fit(&self, upper: &[(i32, i32)], lower: &[(i32, i32)]) -> (ok: bool)
        ensures
            ok == (upper@.len() == self.upper_rows() && lower@.len() == self.lower_rows()),
    {
        let upper_rows: i64 = match self.kind {
            TriangleKind::TopFlat => 0,
            _ => self.mid.y as i64 - self.top.y as i64 + 1,
        };
        let lower_rows: i64 = match self.kind {
            TriangleKind::BottomFlat => 0,
            TriangleKind::TopFlat => self.low.y as i64 - self.top.y as i64 + 1,
            TriangleKind::General => self.low.y as i64 - self.mid.y as i64 + 1,
        };
        upper_rows >= 0 && lower_rows >= 0 && upper.len() as u64 == upper_rows as u64
            && lower.len() as u64 == lower_rows as u64
    }
}

/// The fill of the triangle with corners `a`, `b`, `c` in any order.
pub open spec fn fill_of(a: Point2, b: Point2, c: Point2, color: Rgb565) -> TriangleFill {
    let s = y_sorted(a, b, c);
    TriangleFill { kind: kind_of(s.0, s.1, s.2), top: s.0, mid: s.1, low: s.2, color }
}

/// The order in which the corners of a triangle are given decides neither
/// the rows of its sorted corners nor its kind, nor which pixels are
/// filled once the columns of the edges are given; where the three rows
/// differ it decides nothing of the fill at all.
pub proof fn lemma_fill_ignores_order(
    a: Point2,
    b: Point2,
    c: Point2,
    r: (Point2, Point2, Point2),
    color: Rgb565,
)
    requires
        is_arrangement(a, b, c, r),
    ensures
        fill_of(r.0, r.1, r.2, color).kind == fill_of(a, b, c, color).kind,
        fill_of(r.0, r.1, r.2, color).top.y == fill_of(a, b, c, color).top.y,
        fill_of(r.0, r.1, r.2, color).mid.y == fill_of(a, b, c, color).mid.y,
        fill_of(r.0, r.1, r.2, color).low.y == fill_of(a, b, c, color).low.y,
        a.y != b.y && b.y != c.y && a.y != c.y ==> fill_of(r.0, r.1, r.2, color) == fill_of(
            a,
            b,
            c,
            color,
        ),
        forall|upper: Seq<(i32, i32)>, lower: Seq<(i32, i32)>, x: int, y: int|
            #[trigger] fill_of(r.0, r.1, r.2, color).fills(upper, lower, x, y) == fill_of(
                a,
                b,
                c,
                color,
            ).fills(upper, lower, x, y),
{
}

/// The second run of columns has, row by row, the pairs of the first,
/// each as it is or with its two columns exchanged.
pub open spec fn mirrored(edges: Seq<(i32, i32)>, other: Seq<(i32, i32)>) -> bool {
    &&& edges.len() == other.len()
    &&& forall|k: int|
        0 <= k < edges.len() ==> (#[trigger] other[k]) == edges[k] || (other[k].0 == edges[k].1
            && other[k].1 == edges[k].0)
}

/// Which of the two edges of a row comes first in its pair decides
/// nothing: columns that are exchanged within their pairs fill the same
/// pixels. So corners of one row, whose edges change places with them,
/// may be given in either order, as long as the walk starts from the same
/// corner.
pub proof fn lemma_mirrored_columns_fill_alike(
    fill: TriangleFill,
    upper: Seq<(i32, i32)>,
    lower: Seq<(i32, i32)>,
    upper_mirrored: Seq<(i32, i32)>,
    lower_mirrored: Seq<(i32, i32)>,
    x: int,
    y: int,
)
    requires
        mirrored(upper, upper_mirrored),
        mirrored(lower, lower_mirrored),
    ensures
        fill.fills(upper, lower, x, y) == fill.fills(upper_mirrored, lower_mirrored, x, y),
{
    if fill.top.y <= y < fill.top.y + upper.len() {
        let k = y - fill.top.y;
        assert(upper_mirrored[k] == upper[k] || (upper_mirrored[k].0 == upper[k].1
            && upper_mirrored[k].1 == upper[k].0));
    }
    if fill.low.y - lower.len() < y <= fill.low.y {
        let k = fill.low.y - y;
        assert(lower_mirrored[k] == lower[k] || (lower_mirrored[k].0 == lower[k].1
            && lower_mirrored[k].1 == lower[k].0));
    }
}

/// Where a triangle that is flat at the bottom is filled as if it were
/// split, the second part is a single run in the bottom row; if that run
/// lies within the run that the first part draws there, the split fills
/// the same pixels as the first part alone.
pub proof fn lemma_covered_row_adds_nothing(
    fill: TriangleFill,
    upper: Seq<(i32, i32)>,
    lower: Seq<(i32, i32)>,
    x: int,
    y: int,
)
    requires
        upper.len() > 0,
        lower.len() == 1,
        fill.low.y == fill.top.y + upper.len() - 1,
        between(upper[upper.len() - 1], lower[0].0 as int),
        between(upper[upper.len() - 1], lower[0].1 as int),
    ensures
        fill.fills(upper, lower, x, y) == fill.fills(upper, Seq::empty(), x, y),
{
}

/// Orders three points by their rows, lowest row number first, and keeps
/// points of one row in the order given.
pub fn sort_by_y(a: Point2, b: Point2, c: Point2) -> (r: (Point2, Point2, Point2))
    ensures
        r == y_sorted(a, b, c),
        is_arrangement(a, b, c, r),
        r.0.y <= r.1.y <= r.2.y,
{
    if a.y <= b.y {
        if b.y <= c.y {
            (a, b, c)
        } else if a.y <= c.y {
            (a, c, b)
        } else {
            (c, a, b)
        }
    } else {
        if a.y <= c.y {
            (b, a, c)
        } else if b.y <= c.y {
            (b, c, a)
        } else {
            (c, b, a)
        }
    }
}

/// Tells which kind of triangle the corners make.
pub fn triangle_kind(top: Point2, mid: Point2, low: Point2) -> (kind: TriangleKind)
    ensures
        kind == kind_of(top, mid, low),
{
    if mid.y == low.y {
        TriangleKind::BottomFlat
    } else if top.y == mid.y {
        TriangleKind::TopFlat
    } else {
        TriangleKind::General
    }
}

/// Sets the pixel at `p`, if it is on the grid.
pub fn draw_point<const W: usize, const H: usize>(
    p: Point2,
    color: Rgb565,
    fb: &mut DmaReadyFramebuffer<W, H>,
)
    requires
        old(fb).wf(),
    ensures
        final(fb).wf(),
        final(fb).is_big_endian() == old(fb).is_big_endian(),
        final(fb)@ == plot(
            old(fb)@,
            W as int,
            H as int,
            p.x as int,
            p.y as int,
            stored_word(color, old(fb).is_big_endian()),
        ),
{
    fb.set_pixel(p, color);
}

/// Sets the points to the colour, one after the other. Points off the
/// grid are left out.
pub fn draw_points<const W: usize, const H: usize>(
    points: &[(i32, i32)],
    color: Rgb565,
    fb: &mut DmaReadyFramebuffer<W, H>,
)
    requires
        old(fb).wf(),
    ensures
        final(fb).wf(),
        final(fb).is_big_endian() == old(fb).is_big_endian(),
        final(fb)@ == plot_points(
            old(fb)@,
            W as int,
            H as int,
            points@,
            stored_word(color, old(fb).is_big_endian()),
            points@.len(),
        ),
{
    let mut i: usize = 0;
    while i < points.len()
        invariant
            i <= points@.len(),
            fb.wf(),
            fb.is_big_endian() == old(fb).is_big_endian(),
            fb@ == plot_points(
                old(fb)@,
                W as int,
                H as int,
                points@,
                stored_word(color, old(fb).is_big_endian()),
                i as nat,
            ),
        decreases points@.len() - i,
    {
        let (x, y) = points[i];
        fb.set_pixel(Point2 { x, y }, color);
        i += 1;
    }
}

/// Draws the line from `a` to `b`, both included. Pixels off the grid are
/// left out.
pub fn draw_line<const W: usize, const H: usize>(
    a: Point2,
    b: Point2,
    color: Rgb565,
    fb: &mut DmaReadyFramebuffer<W, H>,
)
    requires
        old(fb).wf(),
        line_in_range(a, b),
    ensures
        final(fb).wf(),
        final(fb).is_big_endian() == old(fb).is_big_endian(),
        final(fb)@ == plot_points(
            old(fb)@,
            W as int,
            H as int,
            bresenham_line(a.x, a.y, b.x, b.y),
            stored_word(color, old(fb).is_big_endian()),
            bresenham_line(a.x, a.y, b.x, b.y).len(),
        ),
        in_bounds(W as int, H as int, a.x as int, a.y as int) ==> final(fb).pixel(
            a.x as int,
            a.y as int,
        ) == stored_word(color, old(fb).is_big_endian()),
        in_bounds(W as int, H as int, b.x as int, b.y as int) ==> final(fb).pixel(
            b.x as int,
            b.y as int,
        ) == stored_word(color, old(fb).is_big_endian()),
        forall|x: int, y: int|
            in_bounds(W as int, H as int, x, y) ==> #[trigger] final(fb).pixel(x, y) == stored_word(
                color,
                old(fb).is_big_endian(),
            ) || final(fb).pixel(x, y) == old(fb).pixel(x, y),
{
    let points = bresenham(a.x, a.y, b.x, b.y);
    draw_points(points.as_slice(), color, fb);
    proof {
        let word = stored_word(color, old(fb).is_big_endian());
        let n = points@.len();
        assert forall|x: int, y: int| in_bounds(W as int, H as int, x, y) implies (
        #[trigger] fb.pixel(x, y)) == word || fb.pixel(x, y) == old(fb).pixel(x, y) by {
            lemma_plot_points_pixel(old(fb)@, W as int, H as int, points@, word, n, x, y);
        }
        if in_bounds(W as int, H as int, a.x as int, a.y as int) {
            lemma_plot_points_pixel(
                old(fb)@,
                W as int,
                H as int,
                points@,
                word,
                n,
                a.x as int,
                a.y as int,
            );
            assert(points@[0].0 == a.x && points@[0].1 == a.y);
        }
        if in_bounds(W as int, H as int, b.x as int, b.y as int) {
            lemma_plot_points_pixel(
                old(fb)@,
                W as int,
                H as int,
                points@,
                word,
                n,
                b.x as int,
                b.y as int,
            );
            assert(points@[n - 1].0 == b.x && points@[n - 1].1 == b.y);
        }
    }
}

/// Draws the horizontal run in the row of `a` between the columns of
/// `a` and `b`, both included. Pixels off the grid are left out.
pub fn draw_horizontal_line<const W: usize, const H: usize>(
    a: Point2,
    b: Point2,
    color: Rgb565,
    fb: &mut DmaReadyFramebuffer<W, H>,
)
    requires
        old(fb).wf(),
    ensures
        final(fb).wf(),
        final(fb).is_big_endian() == old(fb).is_big_endian(),
        forall|x: int, y: int|
            in_bounds(W as int, H as int, x, y) ==> #[trigger] final(fb).pixel(x, y) == if on_run(
                a,
                b,
                x,
                y,
            ) {
                stored_word(color, old(fb).is_big_endian())
            } else {
                old(fb).pixel(x, y)
            },
{
    let left: i32 = if a.x <= b.x {
        a.x
    } else {
        b.x
    };
    let right: i32 = if a.x <= b.x {
        b.x
    } else {
        a.x
    };
    // Only the part of the run that lies on the grid is walked.
    if a.y < 0 || right < 0 {
        return ;
    }
    let start: i32 = if left < 0 {
        0
    } else {
        left
    };
    if a.y as usize >= H || start as usize >= W {
        return ;
    }
    let end: i32 = if (right as usize) < W {
        right
    } else {
        (W - 1) as i32
    };
    let ghost word = stored_word(color, old(fb).is_big_endian());
    let mut x: i32 = start;
    while x < end
        invariant
            0 <= start <= x <= end < W,
            left <= start,
            end <= right,
            fb.wf(),
            fb.is_big_endian() == old(fb).is_big_endian(),
            word == stored_word(color, old(fb).is_big_endian()),
            forall|x2: int, y2: int|
                in_bounds(W as int, H as int, x2, y2) ==> #[trigger] fb.pixel(x2, y2) == if y2
                    == a.y && start <= x2 < x {
                    word
                } else {
                    old(fb).pixel(x2, y2)
                },
        decreases end - x,
    {
        let ghost before = *fb;
        fb.set_pixel(Point2 { x, y: a.y }, color);
        proof {
            assert forall|x2: int, y2: int| in_bounds(W as int, H as int, x2, y2) implies (
            #[trigger] fb.pixel(x2, y2)) == if y2 == a.y && start <= x2 < x + 1 {
                word
            } else {
                old(fb).pixel(x2, y2)
            } by {
                lemma_plot_pixel(before@, W as int, H as int, x as int, a.y as int, word, x2, y2);
                assert(before.pixel(x2, y2) == if y2 == a.y && start <= x2 < x {
                    word
                } else {
                    old(fb).pixel(x2, y2)
                });
            }
        }
        x += 1;
    }
    let ghost before = *fb;
    fb.set_pixel(Point2 { x: end, y: a.y }, color);
    proof {
        assert forall|x2: int, y2: int| in_bounds(W as int, H as int, x2, y2) implies (
        #[trigger] fb.pixel(x2, y2)) == if on_run(a, b, x2, y2) {
            word
        } else {
            old(fb).pixel(x2, y2)
        } by {
            lemma_plot_pixel(before@, W as int, H as int, end as int, a.y as int, word, x2, y2);
            assert(before.pixel(x2, y2) == if y2 == a.y && start <= x2 < end {
                word
            } else {
                old(fb).pixel(x2, y2)
            });
        }
    }
}

/// Fills a triangle row by row downwards from the row `top`: the k-th
/// pair of columns bounds the run in the k-th row below `top`.
pub fn fill_bottom_flat_triangle<const W: usize, const H: usize>(
    top: i32,
    edges: &[(i32, i32)],
    color: Rgb565,
    fb: &mut DmaReadyFramebuffer<W, H>,
)
    requires
        old(fb).wf(),
        top + edges@.len() - 1 <= i32::MAX,
    ensures
        final(fb).wf(),
        final(fb).is_big_endian() == old(fb).is_big_endian(),
        forall|x: int, y: int|
            in_bounds(W as int, H as int, x, y) ==> #[trigger] final(fb).pixel(x, y)
                == if in_rows_down(top as int, edges@, edges@.len() as int, x, y) {
                stored_word(color, old(fb).is_big_endian())
            } else {
                old(fb).pixel(x, y)
            },
{
    let ghost word = stored_word(color, old(fb).is_big_endian());
    let mut k: usize = 0;
    let mut row: i32 = top;
    while k < edges.len()
        invariant
            k <= edges@.len(),
            top + edges@.len() - 1 <= i32::MAX,
            k < edges@.len() ==> row == top + k,
            fb.wf(),
            fb.is_big_endian() == old(fb).is_big_endian(),
            word == stored_word(color, old(fb).is_big_endian()),
            forall|x: int, y: int|
                in_bounds(W as int, H as int, x, y) ==> #[trigger] fb.pixel(x, y)
                    == if in_rows_down(top as int, edges@, k as int, x, y) {
                    word
                } else {
                    old(fb).pixel(x, y)
                },
        decreases edges@.len() - k,
    {
        let ghost before = *fb;
        let (x1, x2) = edges[k];
        draw_horizontal_line(Point2 { x: x1, y: row }, Point2 { x: x2, y: row }, color, fb);
        proof {
            assert forall|x: int, y: int| in_bounds(W as int, H as int, x, y) implies (
            #[trigger] fb.pixel(x, y)) == if in_rows_down(top as int, edges@, k + 1, x, y) {
                word
            } else {
                old(fb).pixel(x, y)
            } by {
                assert(before.pixel(x, y) == if in_rows_down(top as int, edges@, k as int, x, y) {
                    word
                } else {
                    old(fb).pixel(x, y)
                });
            }
        }
        k += 1;
        if k < edges.len() {
            row += 1;
        }
    }
}

/// Fills a triangle row by row upwards from the row `bottom`: the k-th
/// pair of columns bounds the run in the k-th row above `bottom`.
pub fn fill_top_flat_triangle<const W: usize, const H: usize>(
    bottom: i32,
    edges: &[(i32, i32)],
    color: Rgb565,
    fb: &mut DmaReadyFramebuffer<W, H>,
)
    requires
        old(fb).wf(),
        bottom - edges@.len() + 1 >= i32::MIN,
    ensures
        final(fb).wf(),
        final(fb).is_big_endian() == old(fb).is_big_endian(),
        forall|x: int, y: int|
            in_bounds(W as int, H as int, x, y) ==> #[trigger] final(fb).pixel(x, y)
                == if in_rows_up(bottom as int, edges@, edges@.len() as int, x, y) {
                stored_word(color, old(fb).is_big_endian())
            } else {
                old(fb).pixel(x, y)
            },
{
    let ghost word = stored_word(color, old(fb).is_big_endian());
    let mut k: usize = 0;
    let mut row: i32 = bottom;
    while k < edges.len()
        invariant
            k <= edges@.len(),
            bottom - edges@.len() + 1 >= i32::MIN,
            k < edges@.len() ==> row == bottom - k,
            fb.wf(),
            fb.is_big_endian() == old(fb).is_big_endian(),
            word == stored_word(color, old(fb).is_big_endian()),
            forall|x: int, y: int|
                in_bounds(W as int, H as int, x, y) ==> #[trigger] fb.pixel(x, y) == if in_rows_up(
                    bottom as int,
                    edges@,
                    k as int,
                    x,
                    y,
                ) {
                    word
                } else {
                    old(fb).pixel(x, y)
                },
        decreases edges@.len() - k,
    {
        let ghost before = *fb;
        let (x1, x2) = edges[k];
        draw_horizontal_line(Point2 { x: x1, y: row }, Point2 { x: x2, y: row }, color, fb);
        proof {
            assert forall|x: int, y: int| in_bounds(W as int, H as int, x, y) implies (
            #[trigger] fb.pixel(x, y)) == if in_rows_up(bottom as int, edges@, k + 1, x, y) {
                word
            } else {
                old(fb).pixel(x, y)
            } by {
                assert(before.pixel(x, y) == if in_rows_up(bottom as int, edges@, k as int, x, y) {
                    word
                } else {
                    old(fb).pixel(x, y)
                });
            }
        }
        k += 1;
        if k < edges.len() {
            row -= 1;
        }
    }
}

/// Fills a triangle whose edges have been walked: `upper` holds the
/// columns of the two edges in every row from the first corner down,
/// `lower` those in every row from the third corner up. A triangle that
/// is flat at the bottom has only the first part, one that is flat at the
/// top only the second, and any other has both, which meet in the row of
/// the second corner.
pub fn fill_triangle<const W: usize, const H: usize>(
    fill: &TriangleFill,
    upper: &[(i32, i32)],
    lower: &[(i32, i32)],
    fb: &mut DmaReadyFramebuffer<W, H>,
)
    requires
        old(fb).wf(),
        upper@.len() == fill.upper_rows(),
        lower@.len() == fill.lower_rows(),
    ensures
        final(fb).wf(),
        final(fb).is_big_endian() == old(fb).is_big_endian(),
        forall|x: int, y: int|
            in_bounds(W as int, H as int, x, y) ==> #[trigger] final(fb).pixel(x, y)
                == if fill.fills(upper@, lower@, x, y) {
                stored_word(fill.color, old(fb).is_big_endian())
            } else {
                old(fb).pixel(x, y)
            },
{
    fill_bottom_flat_triangle(fill.top.y, upper, fill.color, fb);
    let ghost between_parts = *fb;
    fill_top_flat_triangle(fill.low.y, lower, fill.color, fb);
    proof {
        assert forall|x: int, y: int| in_bounds(W as int, H as int, x, y) implies (
        #[trigger] fb.pixel(x, y)) == if fill.fills(upper@, lower@, x, y) {
            stored_word(fill.color, old(fb).is_big_endian())
        } else {
            old(fb).pixel(x, y)
        } by {
            assert(between_parts.pixel(x, y) == if in_rows_down(
                fill.top.y as int,
                upper@,
                upper@.len() as int,
                x,
                y,
            ) {
                stored_word(fill.color, old(fb).is_big_endian())
            } else {
                old(fb).pixel(x, y)
            });
        }
    }
}

/// Draws a primitive as far as whole numbers go. A point or a line is
/// drawn at once and nothing is handed back. A triangle leaves the grid
/// as it is and comes back as the fill that is still to do.
pub fn draw<const W: usize, const H: usize>(
    primitive: DrawPrimitive,
    fb: &mut DmaReadyFramebuffer<W, H>,
) -> (pending: Option<TriangleFill>)
    requires
        old(fb).wf(),
        match primitive {
            DrawPrimitive::Line(a, b, _) => line_in_range(a, b),
            _ => true,
        },
    ensures
        final(fb).wf(),
        final(fb).is_big_endian() == old(fb).is_big_endian(),
        pending.is_some() ==> pending.unwrap().wf(),
        match primitive {
            DrawPrimitive::ColoredPoint(p, color) => pending.is_none() && final(fb)@ == plot(
                old(fb)@,
                W as int,
                H as int,
                p.x as int,
                p.y as int,
                stored_word(color, old(fb).is_big_endian()),
            ),
            DrawPrimitive::Line(a, b, color) => pending.is_none() && final(fb)@ == plot_points(
                old(fb)@,
                W as int,
                H as int,
                bresenham_line(a.x, a.y, b.x, b.y),
                stored_word(color, old(fb).is_big_endian()),
                bresenham_line(a.x, a.y, b.x, b.y).len(),
            ),
            DrawPrimitive::ColoredTriangle(a, b, c, color) => final(fb)@ == old(fb)@ && pending
                == Some(fill_of(a, b, c, color)),
        },
{
    match primitive {
        DrawPrimitive::ColoredPoint(p, color) => {
            draw_point(p, color, fb);
            None
        },
        DrawPrimitive::Line(a, b, color) => {
            draw_line(a, b, color, fb);
            None
        },
        DrawPrimitive::ColoredTriangle(a, b, c, color) => {
            let (top, mid, low) = sort_by_y(a, b, c);
            Some(TriangleFill { kind: triangle_kind(top, mid, low), top, mid, low, color })
        },
    }
}

} // verus!
