//! The logical raster the game draws on. Every pixel is either unpainted or
//! holds a colour attribute; the same raster serves as the collision
//! surface that the banana probes.

use vstd::prelude::*;

verus! {

/// Index of the pixel `(x, y)` in a row-major raster of the given width.
pub open spec fn cell_index(width: int, x: int, y: int) -> int {
    y * width + x
}

proof fn lemma_cell_index_bounds(width: int, height: int, x: int, y: int)
    requires
        0 <= x < width,
        0 <= y < height,
    ensures
        0 <= cell_index(width, x, y) < width * height,
{
    assert(y * width + x < width * height) by (nonlinear_arith)
        requires
            0 <= x < width,
            0 <= y < height,
    ;
    assert(0 <= y * width) by (nonlinear_arith)
        requires
            0 <= y,
            0 <= width,
    ;
}

proof fn lemma_cell_index_injective(width: int, x1: int, y1: int, x2: int, y2: int)
    requires
        0 <= x1 < width,
        0 <= x2 < width,
        0 <= y1,
        0 <= y2,
        cell_index(width, x1, y1) == cell_index(width, x2, y2),
    ensures
        x1 == x2 && y1 == y2,
{
    if y1 < y2 {
        assert(y1 * width + width <= y2 * width) by (nonlinear_arith)
            requires
                y1 < y2,
                0 <= width,
        ;
    } else if y2 < y1 {
        assert(y2 * width + width <= y1 * width) by (nonlinear_arith)
            requires
                y2 < y1,
                0 <= width,
        ;
    }
}

/// A run of equally coloured, horizontally adjacent pixels of one row.
#[derive(Clone, Copy, Debug, PartialEq, Eq)]
pub struct Run {
    pub x: u32,
    pub y: u32,
    pub len: u32,
    pub attr: u8,
}

/// A fixed-size raster of optional colour attributes.
pub struct Canvas {
    width: u32,
    height: u32,
    pixels: Vec<Option<u8>>,
}

impl Canvas {
    /// The pixel store matches the dimensions.
    pub closed spec fn wf(self) -> bool {
        &&& self.pixels.len() == self.width * self.height
        &&& self.width * self.height <= u32::MAX
        &&& self.width <= i32::MAX
        &&& self.height <= i32::MAX
    }

    /// Width in pixels.
    pub closed spec fn spec_width(self) -> int {
        self.width as int
    }

    /// Height in pixels.
    pub closed spec fn spec_height(self) -> int {
        self.height as int
    }

    /// The attribute painted at `(x, y)`, for a pixel inside the raster.
    pub closed spec fn at(self, x: int, y: int) -> Option<u8> {
        self.pixels@[cell_index(self.width as int, x, y)]
    }

    /// `(x, y)` lies inside the raster.
    pub open spec fn in_bounds(self, x: int, y: int) -> bool {
        0 <= x < self.spec_width() && 0 <= y < self.spec_height()
    }

    /// `self` equals `old` except that the pixels for which `painted` holds
    /// now show `attr`.
    pub open spec fn painted_over(
        self,
        old: Canvas,
        painted: spec_fn(int, int) -> bool,
        attr: u8,
    ) -> bool {
        &&& self.wf()
        &&& self.spec_width() == old.spec_width()
        &&& self.spec_height() == old.spec_height()
        &&& forall|x: int, y: int|
            #![trigger self.at(x, y)]
            self.in_bounds(x, y) ==> self.at(x, y) == shade(painted(x, y), attr, old.at(x, y))
    }

    /// `self` equals `old` repainted by `paint`: every pixel shows what
    /// `paint` makes of its earlier content.
    pub open spec fn repainted(
        self,
        old: Canvas,
        paint: spec_fn(int, int, Option<u8>) -> Option<u8>,
    ) -> bool {
        &&& self.wf()
        &&& self.spec_width() == old.spec_width()
        &&& self.spec_height() == old.spec_height()
        &&& forall|x: int, y: int|
            #![trigger self.at(x, y)]
            self.in_bounds(x, y) ==> self.at(x, y) == paint(x, y, old.at(x, y))
    }

    /// A blank raster of `width` by `height` pixels.
    pub fn new(width: u32, height: u32) -> (canvas: Canvas)
        requires
            width * height <= u32::MAX,
            width <= i32::MAX,
            height <= i32::MAX,
        ensures
            canvas.wf(),
            canvas.spec_width() == width,
            canvas.spec_height() == height,
            forall|x: int, y: int| #[trigger] canvas.at(x, y) == None::<u8> <== canvas.in_bounds(x, y),
    {
        let total: u32 = width * height;
        let mut pixels: Vec<Option<u8>> = Vec::new();
        let mut i: u32 = 0;
        while i < total
            invariant
                i <= total,
                pixels.len() == i,
                forall|k: int| 0 <= k < i ==> pixels@[k] == None::<u8>,
            decreases total - i,
        {
            pixels.push(None);
            i = i + 1;
        }
        let canvas = Canvas { width, height, pixels };
        proof {
            assert forall|x: int, y: int| canvas.in_bounds(x, y) implies #[trigger] canvas.at(x, y)
                == None::<u8> by {
                lemma_cell_index_bounds(width as int, height as int, x, y);
            }
        }
        canvas
    }

    /// Width in pixels.
    pub fn width(&self) -> (w: u32)
        ensures
            w == self.spec_width(),
    {
        self.width
    }

    /// Height in pixels.
    pub fn height(&self) -> (h: u32)
        ensures
            h == self.spec_height(),
    {
        self.height
    }

    /// Paints `(x, y)` with `attr`; a pixel outside the raster is ignored.
    pub fn pixel(&mut self, x: i32, y: i32, attr: u8)
        requires
            old(self).wf(),
        ensures
            final(self).painted_over(*old(self), |px: int, py: int| px == x && py == y, attr),
    {
        if x < 0 || y < 0 || x as u32 >= self.width || y as u32 >= self.height {
            return;
        }
        let ghost w = self.width as int;
        let ghost h = self.height as int;
        proof {
            lemma_cell_index_bounds(w, h, x as int, y as int);
            assert((y as int) * w + (x as int) <= u32::MAX) by (nonlinear_arith)
                requires
                    (y as int) * w + (x as int) < w * h,
                    w * h <= u32::MAX,
            ;
        }
        let index = y as usize * self.width as usize + x as usize;
        let ghost before = *self;
        self.pixels.set(index, Some(attr));
        proof {
            assert forall|px: int, py: int| #![trigger self.at(px, py)] self.in_bounds(px, py) implies self.at(px, py) == shade(px == x && py == y, attr, before.at(px, py)) by {
                lemma_cell_index_bounds(w, h, px, py);
                if cell_index(w, px, py) == index as int {
                    lemma_cell_index_injective(w, px, py, x as int, y as int);
                }
            }
        }
    }

    /// The attribute painted at `(x, y)`, or `None` for an unpainted pixel
    /// or a point outside the raster.
    pub fn point(&self, x: i32, y: i32) -> (p: Option<u8>)
        requires
            self.wf(),
        ensures
            p == if self.in_bounds(x as int, y as int) {
                self.at(x as int, y as int)
            } else {
                None
            },
    {
        if x < 0 || y < 0 || x as u32 >= self.width || y as u32 >= self.height {
            return None;
        }
        let ghost w = self.width as int;
        let ghost h = self.height as int;
        proof {
            lemma_cell_index_bounds(w, h, x as int, y as int);
            assert((y as int) * w + (x as int) <= u32::MAX) by (nonlinear_arith)
                requires
                    (y as int) * w + (x as int) < w * h,
                    w * h <= u32::MAX,
            ;
        }
        self.pixels[y as usize * self.width as usize + x as usize]
    }

    /// Paints every pixel of the rectangle spanned by the corners `(x0, y0)`
    /// and `(x1, y1)`, both included, with `attr`.
    pub fn fill_rect_inclusive(&mut self, x0: i32, y0: i32, x1: i32, y1: i32, attr: u8)
        requires
            old(self).wf(),
        ensures
            final(self).painted_over(
                *old(self),
                |px: int, py: int|
                    spec_min(x0 as int, x1 as int) <= px <= spec_max(x0 as int, x1 as int)
                        && spec_min(y0 as int, y1 as int) <= py <= spec_max(y0 as int, y1 as int),
                attr,
            ),
    {
        let lo_x: i64 = if x0 < x1 { x0 as i64 } else { x1 as i64 };
        let hi_x: i64 = if x0 < x1 { x1 as i64 } else { x0 as i64 };
        let lo_y: i64 = if y0 < y1 { y0 as i64 } else { y1 as i64 };
        let hi_y: i64 = if y0 < y1 { y1 as i64 } else { y0 as i64 };
        let ghost start = *self;
        let mut y: i64 = lo_y;
        while y <= hi_y
            invariant
                lo_y <= y <= hi_y + 1,
                lo_x <= hi_x,
                hi_y <= i32::MAX,
                lo_y >= i32::MIN,
                lo_x >= i32::MIN,
                hi_x <= i32::MAX,
                self.painted_over(
                    start,
                    |px: int, py: int| lo_x <= px <= hi_x && lo_y <= py < y,
                    attr,
                ),
            decreases hi_y + 1 - y,
        {
            let mut x: i64 = lo_x;
            while x <= hi_x
                invariant
                    lo_x <= x <= hi_x + 1,
                    lo_y <= y <= hi_y,
                    hi_y <= i32::MAX,
                    lo_y >= i32::MIN,
                    lo_x >= i32::MIN,
                    hi_x <= i32::MAX,
                    self.painted_over(
                        start,
                        |px: int, py: int| rect_upto(lo_x as int, hi_x as int, lo_y as int, x as int, y as int, px, py),
                        attr,
                    ),
                decreases hi_x + 1 - x,
            {
                let ghost before = *self;
                self.pixel(x as i32, y as i32, attr);
                proof {
                    assert forall|px: int, py: int| #![trigger self.at(px, py)] self.in_bounds(px, py)
                        implies self.at(px, py) == shade(rect_upto(lo_x as int, hi_x as int, lo_y as int, x + 1, y as int, px, py), attr, start.at(px, py)) by {
                        assert(before.at(px, py) == shade(rect_upto(lo_x as int, hi_x as int, lo_y as int, x as int, y as int, px, py), attr, start.at(px, py)));
                    }
                }
                x = x + 1;
            }
            proof {
                assert forall|px: int, py: int| #![trigger self.at(px, py)] self.in_bounds(px, py) implies self.at(px, py)
                    == shade(lo_x <= px <= hi_x && lo_y <= py < y + 1, attr, start.at(px, py)) by {
                    assert(self.at(px, py) == shade(rect_upto(lo_x as int, hi_x as int, lo_y as int, x as int, y as int, px, py), attr, start.at(px, py)));
                }
            }
            y = y + 1;
        }
    }
}

impl Canvas {
    /// Paints the rectangle `width` by `height` pixels whose top-left corner
    /// is `(x, y)`: the corners `(x, y)` and `(x + width - 1, y + height - 1)`
    /// are both filled, in either order.
    pub fn rect(&mut self, x: i32, y: i32, width: i32, height: i32, attr: u8)
        requires
            old(self).wf(),
        ensures
            final(self).painted_over(
                *old(self),
                |px: int, py: int| rect_cell(x as int, y as int, width as int, height as int, px, py),
                attr,
            ),
    {
        self.fill_rect_wide(
            x as i64,
            y as i64,
            x as i64 + width as i64 - 1,
            y as i64 + height as i64 - 1,
            attr,
        );
    }

    /// Paints the pixels of the raster that lie in the rectangle spanned by
    /// the corners `(x0, y0)` and `(x1, y1)`, both included; the corners may
    /// lie anywhere, also far outside the raster.
    pub fn fill_rect_wide(&mut self, x0: i64, y0: i64, x1: i64, y1: i64, attr: u8)
        requires
            old(self).wf(),
        ensures
            final(self).painted_over(
                *old(self),
                |px: int, py: int|
                    spec_min(x0 as int, x1 as int) <= px <= spec_max(x0 as int, x1 as int)
                        && spec_min(y0 as int, y1 as int) <= py <= spec_max(y0 as int, y1 as int),
                attr,
            ),
    {
        let ghost start = *self;
        let w = self.width as i64;
        let h = self.height as i64;
        let min_x = if x0 < x1 { x0 } else { x1 };
        let max_x = if x0 < x1 { x1 } else { x0 };
        let min_y = if y0 < y1 { y0 } else { y1 };
        let max_y = if y0 < y1 { y1 } else { y0 };
        let lo_x = if min_x < 0 { 0 } else { min_x };
        let hi_x = if max_x < w - 1 { max_x } else { w - 1 };
        let lo_y = if min_y < 0 { 0 } else { min_y };
        let hi_y = if max_y < h - 1 { max_y } else { h - 1 };
        if lo_x > hi_x || lo_y > hi_y {
            return;
        }
        self.fill_rect_inclusive(lo_x as i32, lo_y as i32, hi_x as i32, hi_y as i32, attr);
    }
}

/// The pixel `(px, py)` lies in the rectangle filled between the corners
/// `(x, y)` and `(x + width - 1, y + height - 1)`.
pub open spec fn rect_cell(x: int, y: int, width: int, height: int, px: int, py: int) -> bool {
    &&& spec_min(x, x + width - 1) <= px <= spec_max(x, x + width - 1)
    &&& spec_min(y, y + height - 1) <= py <= spec_max(y, y + height - 1)
}

/// Painting with one attribute is repainting by `shade`.
pub proof fn lemma_painted_is_repainted(
    c1: Canvas,
    c0: Canvas,
    painted: spec_fn(int, int) -> bool,
    attr: u8,
)
    requires
        c1.painted_over(c0, painted, attr),
    ensures
        c1.repainted(c0, |x: int, y: int, e: Option<u8>| shade(painted(x, y), attr, e)),
{
}

/// Two repaints in a row are one repaint by the composed paint.
pub proof fn lemma_repaint_twice(
    c0: Canvas,
    c1: Canvas,
    c2: Canvas,
    first: spec_fn(int, int, Option<u8>) -> Option<u8>,
    second: spec_fn(int, int, Option<u8>) -> Option<u8>,
)
    requires
        c1.repainted(c0, first),
        c2.repainted(c1, second),
    ensures
        c2.repainted(c0, |x: int, y: int, e: Option<u8>| second(x, y, first(x, y, e))),
{
    assert forall|x: int, y: int| #![trigger c2.at(x, y)] c2.in_bounds(x, y) implies c2.at(x, y)
        == second(x, y, first(x, y, c0.at(x, y))) by {
        assert(c1.at(x, y) == first(x, y, c0.at(x, y)));
    }
}

/// Two paints with one attribute in a row paint the union of both areas.
pub proof fn lemma_paint_twice(
    c0: Canvas,
    c1: Canvas,
    c2: Canvas,
    first: spec_fn(int, int) -> bool,
    second: spec_fn(int, int) -> bool,
    attr: u8,
)
    requires
        c1.painted_over(c0, first, attr),
        c2.painted_over(c1, second, attr),
    ensures
        c2.painted_over(c0, |x: int, y: int| first(x, y) || second(x, y), attr),
{
    assert forall|x: int, y: int| #![trigger c2.at(x, y)] c2.in_bounds(x, y) implies c2.at(x, y)
        == shade(first(x, y) || second(x, y), attr, c0.at(x, y)) by {
        assert(c1.at(x, y) == shade(first(x, y), attr, c0.at(x, y)));
    }
}

impl Canvas {
    /// `r` is a maximal span of equally painted pixels of one row.
    pub open spec fn is_run_of(self, r: Run) -> bool {
        &&& r.len >= 1
        &&& r.x + r.len <= self.spec_width()
        &&& r.y < self.spec_height()
        &&& forall|k: int| #![trigger self.at(k, r.y as int)]
            r.x <= k < r.x + r.len ==> self.at(k, r.y as int) == Some(r.attr)
        &&& (r.x == 0 || self.at(r.x - 1, r.y as int) != Some(r.attr))
        &&& (r.x + r.len == self.spec_width() || self.at(r.x + r.len, r.y as int) != Some(r.attr))
    }

    /// The painted pixel `(x, y)` lies in one of the runs.
    pub open spec fn covered_by(runs: Seq<Run>, x: int, y: int) -> bool {
        exists|i: int| #![trigger runs[i]]
            0 <= i < runs.len() && runs[i].y == y && runs[i].x <= x < runs[i].x + runs[i].len
    }

    fn get(&self, x: u32, y: u32) -> (p: Option<u8>)
        requires
            self.wf(),
            x < self.spec_width(),
            y < self.spec_height(),
        ensures
            p == self.at(x as int, y as int),
    {
        let ghost w = self.width as int;
        let ghost h = self.height as int;
        proof {
            lemma_cell_index_bounds(w, h, x as int, y as int);
            assert((y as int) * w + (x as int) <= u32::MAX) by (nonlinear_arith)
                requires
                    (y as int) * w + (x as int) < w * h,
                    w * h <= u32::MAX,
            ;
        }
        self.pixels[y as usize * self.width as usize + x as usize]
    }

    /// The painted pixels as maximal horizontal runs, in row-major order.
    /// Every painted pixel lies in exactly one run.
    pub fn into_runs(self) -> (runs: Vec<Run>)
        requires
            self.wf(),
        ensures
            forall|i: int| 0 <= i < runs.len() ==> self.is_run_of(#[trigger] runs@[i]),
            forall|i: int, j: int|
                0 <= i < j < runs.len() ==> run_before(#[trigger] runs@[i], #[trigger] runs@[j]),
            forall|x: int, y: int|
                self.in_bounds(x, y) && (#[trigger] self.at(x, y)) is Some ==> Self::covered_by(
                    runs@,
                    x,
                    y,
                ),
    {
        let width = self.width;
        let height = self.height;
        let mut out: Vec<Run> = Vec::new();
        let mut y: u32 = 0;
        while y < height
            invariant
                self.wf(),
                width == self.spec_width(),
                height == self.spec_height(),
                y <= height,
                forall|i: int| 0 <= i < out.len() ==> self.is_run_of(#[trigger] out@[i]),
                forall|i: int, j: int|
                    0 <= i < j < out.len() ==> run_before(#[trigger] out@[i], #[trigger] out@[j]),
                forall|i: int| 0 <= i < out.len() ==> (#[trigger] out@[i]).y < y,
                forall|px: int, py: int|
                    self.in_bounds(px, py) && py < y && (#[trigger] self.at(px, py)) is Some
                        ==> Self::covered_by(out@, px, py),
            decreases height - y,
        {
            let mut x: u32 = 0;
            while x < width
                invariant
                    self.wf(),
                    width == self.spec_width(),
                    height == self.spec_height(),
                    y < height,
                    x <= width,
                    forall|i: int| 0 <= i < out.len() ==> self.is_run_of(#[trigger] out@[i]),
                    forall|i: int, j: int|
                        0 <= i < j < out.len() ==> run_before(
                            #[trigger] out@[i],
                            #[trigger] out@[j],
                        ),
                    forall|i: int|
                        0 <= i < out.len() ==> (#[trigger] out@[i]).y < y || (out@[i].y == y
                            && out@[i].x + out@[i].len <= x),
                    forall|px: int, py: int|
                        self.in_bounds(px, py) && (py < y || (py == y && px < x)) && (
                        #[trigger] self.at(px, py)) is Some ==> Self::covered_by(out@, px, py),
                    x > 0 ==> (self.at(x - 1, y as int) is None || (out.len() > 0 && out@[out.len()
                        - 1].y == y && out@[out.len() - 1].x + out@[out.len() - 1].len == x
                        && self.at(x - 1, y as int) == Some(out@[out.len() - 1].attr))),
                decreases width - x,
            {
                match self.get(x, y) {
                    None => {
                        x = x + 1;
                    },
                    Some(color) => {
                        let start = x;
                        x = x + 1;
                        while x < width && self.get(x, y) == Some(color)
                            invariant
                                self.wf(),
                                width == self.spec_width(),
                                height == self.spec_height(),
                                y < height,
                                start < x <= width,
                                forall|k: int|
                                    #![trigger self.at(k, y as int)]
                                    start <= k < x ==> self.at(k, y as int) == Some(color),
                            decreases width - x,
                        {
                            x = x + 1;
                        }
                        let run = Run { x: start, y, len: x - start, attr: color };
                        proof {
                            if start > 0 {
                                let prev = self.at(start - 1, y as int);
                                if prev is Some {
                                    let last = out@[out.len() - 1];
                                    assert(self.is_run_of(last));
                                    assert(self.at(last.x + last.len, y as int) != Some(last.attr));
                                }
                            }
                        }
                        let ghost before = out@;
                        out.push(run);
                        proof {
                            assert forall|px: int, py: int|
                                self.in_bounds(px, py) && (py < y || (py == y && px < x)) && (
                                #[trigger] self.at(px, py)) is Some implies Self::covered_by(
                                out@,
                                px,
                                py,
                            ) by {
                                if py == y && px >= start {
                                    assert(out@[out.len() - 1] == run);
                                } else {
                                    let i = choose|i: int|
                                        #![trigger before[i]]
                                        0 <= i < before.len() && before[i].y == py && before[i].x
                                            <= px < before[i].x + before[i].len;
                                    assert(out@[i] == before[i]);
                                }
                            }
                            assert forall|i: int, j: int|
                                0 <= i < j < out.len() implies run_before(
                                #[trigger] out@[i],
                                #[trigger] out@[j],
                            ) by {
                                if j == out.len() - 1 {
                                    assert(before[i] == out@[i]);
                                } else {
                                    assert(before[i] == out@[i]);
                                    assert(before[j] == out@[j]);
                                }
                            }
                        }
                    },
                }
            }
            y = y + 1;
        }
        out
    }
}

/// `a` lies before `b` in row-major order without overlapping it.
pub open spec fn run_before(a: Run, b: Run) -> bool {
    a.y < b.y || (a.y == b.y && a.x + a.len <= b.x)
}

/// What a pixel shows after a paint operation: `attr` where it was painted,
/// its earlier content elsewhere.
pub open spec fn shade(painted: bool, attr: u8, earlier: Option<u8>) -> Option<u8> {
    if painted {
        Some(attr)
    } else {
        earlier
    }
}

/// Row-by-row progress of a rectangle fill: rows `lo_y..y` are complete and
/// row `y` is painted left of `x`.
pub open spec fn rect_upto(lo_x: int, hi_x: int, lo_y: int, x: int, y: int, px: int, py: int) -> bool {
    (lo_x <= px <= hi_x && lo_y <= py < y) || (lo_x <= px < x && py == y)
}

/// The smaller of two integers.
pub open spec fn spec_min(a: int, b: int) -> int {
    if a < b {
        a
    } else {
        b
    }
}

/// The larger of two integers.
pub open spec fn spec_max(a: int, b: int) -> int {
    if a < b {
        b
    } else {
        a
    }
}

/// The coordinate `k` steps from `from` towards `to`.
pub open spec fn toward(from: int, to: int, k: int) -> int {
    if from < to {
        from + k
    } else {
        from - k
    }
}

/// Absolute value.
pub open spec fn spec_abs(v: int) -> int {
    if v < 0 {
        -v
    } else {
        v
    }
}

/// `(i, j)` steps along a line from `(x0, y0)` to `(x1, y1)` stay within the
/// segment's box and within half a pixel of the ideal line, measured along
/// the line's minor axis: `2 |a j - b i| <= max(a, b)` with `a`, `b` the
/// horizontal and vertical extents.
pub open spec fn near_line(x0: int, y0: int, x1: int, y1: int, i: int, j: int) -> bool {
    let a = spec_abs(x1 - x0);
    let b = spec_abs(y1 - y0);
    &&& 0 <= i <= a
    &&& 0 <= j <= b
    &&& 2 * spec_abs(a * j - b * i) <= spec_max(a, b)
}

/// `pts` is a digital line from `(x0, y0)` to `(x1, y1)`: every point is a
/// step pair near the ideal line, both end points are in it, and it meets
/// every column and every row between the end points.
pub open spec fn digital_line(pts: Set<(int, int)>, x0: int, y0: int, x1: int, y1: int) -> bool {
    let a = spec_abs(x1 - x0);
    let b = spec_abs(y1 - y0);
    &&& forall|p: (int, int)|
        #![trigger pts.contains(p)]
        pts.contains(p) ==> exists|i: int, j: int|
            near_line(x0, y0, x1, y1, i, j) && p == (toward(x0, x1, i), toward(y0, y1, j))
    &&& pts.contains((x0, y0))
    &&& pts.contains((x1, y1))
    &&& forall|i: int| 0 <= i <= a ==> #[trigger] column_hit(pts, x0, y0, x1, y1, i)
    &&& forall|j: int| 0 <= j <= b ==> #[trigger] row_hit(pts, x0, y0, x1, y1, j)
}

/// `pts` holds a point of column step `i` near the line.
pub open spec fn column_hit(pts: Set<(int, int)>, x0: int, y0: int, x1: int, y1: int, i: int) -> bool {
    exists|j: int|
        near_line(x0, y0, x1, y1, i, j) && #[trigger] pts.contains((toward(x0, x1, i), toward(y0, y1, j)))
}

/// `pts` holds a point of row step `j` near the line.
pub open spec fn row_hit(pts: Set<(int, int)>, x0: int, y0: int, x1: int, y1: int, j: int) -> bool {
    exists|i: int|
        near_line(x0, y0, x1, y1, i, j) && #[trigger] pts.contains((toward(x0, x1, i), toward(y0, y1, j)))
}

/// The step pairs `(i, j)` that Bresenham's algorithm visits on a line with
/// horizontal extent `a` and vertical extent `b`, from the pair `(i, j)` with
/// error term `err`: the current pair and, unless it is the end `(a, b)`, the
/// pairs after one step, which moves along x when `2 err >= -b` and along y
/// when `2 err <= a`. `fuel` bounds the number of pairs.
pub open spec fn bresenham_steps(a: int, b: int, i: int, j: int, err: int, fuel: nat) -> Set<(int, int)>
    decreases fuel,
{
    if fuel == 0 {
        Set::empty()
    } else if i == a && j == b {
        set![(i, j)]
    } else {
        let step_x = 2 * err >= -b;
        let step_y = 2 * err <= a;
        let next_err = err - (if step_x { b } else { 0 }) + (if step_y { a } else { 0 });
        bresenham_steps(
            a,
            b,
            i + if step_x { 1int } else { 0 },
            j + if step_y { 1int } else { 0 },
            next_err,
            (fuel - 1) as nat,
        ).insert((i, j))
    }
}

/// The pixel `(px, py)` lies on Bresenham's line from `(x0, y0)` to
/// `(x1, y1)`: it is the pixel of a step pair that the algorithm visits,
/// starting at `(0, 0)` with error term `a - b`.
pub open spec fn bresenham_pixel(x0: int, y0: int, x1: int, y1: int, px: int, py: int) -> bool {
    let a = spec_abs(x1 - x0);
    let b = spec_abs(y1 - y0);
    exists|i: int, j: int|
        #[trigger] bresenham_steps(a, b, 0, 0, a - b, (a + b + 1) as nat).contains((i, j)) && px
            == toward(x0, x1, i) && py == toward(y0, y1, j)
}

/// Largest coordinate magnitude that line drawing takes.
pub const LINE_COORD_LIMIT: i32 = 1_048_576;

impl Canvas {
    /// Draws the one-pixel line from `(x0, y0)` to `(x1, y1)` with
    /// Bresenham's algorithm, both end points included: exactly the pixels
    /// of Bresenham's line are painted, and they form a digital line.
    pub fn line_single(&mut self, x0: i32, y0: i32, x1: i32, y1: i32, attr: u8)
        requires
            old(self).wf(),
            -LINE_COORD_LIMIT <= x0 <= LINE_COORD_LIMIT,
            -LINE_COORD_LIMIT <= y0 <= LINE_COORD_LIMIT,
            -LINE_COORD_LIMIT <= x1 <= LINE_COORD_LIMIT,
            -LINE_COORD_LIMIT <= y1 <= LINE_COORD_LIMIT,
        ensures
            final(self).painted_over(
                *old(self),
                |px: int, py: int| bresenham_pixel(x0 as int, y0 as int, x1 as int, y1 as int, px, py),
                attr,
            ),
            exists|pts: Set<(int, int)>|
                #[trigger] digital_line(pts, x0 as int, y0 as int, x1 as int, y1 as int)
                    && final(self).painted_over(
                    *old(self),
                    |px: int, py: int| pts.contains((px, py)),
                    attr,
                ),
    {
        let xs = x0 as i64;
        let ys = y0 as i64;
        let xe = x1 as i64;
        let ye = y1 as i64;
        let a: i64 = if xs < xe { xe - xs } else { xs - xe };
        let b: i64 = if ys < ye { ye - ys } else { ys - ye };
        let sx: i64 = if xs < xe { 1 } else { -1 };
        let sy: i64 = if ys < ye { 1 } else { -1 };
        let mut x = xs;
        let mut y = ys;
        let mut err: i64 = a - b;
        let ghost mut i: int = 0;
        let ghost mut j: int = 0;
        let ghost mut ai: int = 0;
        let ghost mut bj: int = 0;
        let ghost mut pts: Set<(int, int)> = Set::empty();
        let ghost mut col_row: Map<int, int> = Map::empty();
        let ghost mut row_col: Map<int, int> = Map::empty();
        let ghost start = *self;
        let ghost full_fuel: nat = (a + b + 1) as nat;
        let ghost full = bresenham_steps(a as int, b as int, 0, 0, a - b, full_fuel);
        let ghost mut visited: Set<(int, int)> = Set::empty();
        let ghost mut n: nat = 0;
        loop
            invariant_except_break
                n <= i + j,
                full == visited.union(
                    bresenham_steps(a as int, b as int, i, j, err as int, (full_fuel - n) as nat),
                ),
            invariant
                self.wf(),
                full_fuel == a + b + 1,
                full == bresenham_steps(a as int, b as int, 0, 0, a - b, full_fuel),
                forall|px: int, py: int|
                    #[trigger] pts.contains((px, py)) <==> exists|ii: int, jj: int|
                        #[trigger] visited.contains((ii, jj)) && px == toward(x0 as int, x1 as int, ii)
                            && py == toward(y0 as int, y1 as int, jj),
                a == spec_abs(x1 - x0),
                b == spec_abs(y1 - y0),
                0 <= a <= 2 * LINE_COORD_LIMIT,
                0 <= b <= 2 * LINE_COORD_LIMIT,
                sx == (if xs < xe { 1int } else { -1int }),
                sy == (if ys < ye { 1int } else { -1int }),
                xs == x0 && ys == y0 && xe == x1 && ye == y1,
                0 <= i <= a,
                0 <= j <= b,
                x == toward(x0 as int, x1 as int, i),
                y == toward(y0 as int, y1 as int, j),
                ai == a * j,
                bj == b * i,
                err == ai + a - bj - b,
                -2 * b <= err <= 2 * a,
                2 * spec_abs(ai - bj) <= spec_max(a as int, b as int),
                pts.contains((x0 as int, y0 as int)) || (i == 0 && j == 0),
                forall|p: (int, int)|
                    #![trigger pts.contains(p)]
                    pts.contains(p) ==> exists|ii: int, jj: int|
                        near_line(x0 as int, y0 as int, x1 as int, y1 as int, ii, jj) && p == (
                        toward(x0 as int, x1 as int, ii), toward(y0 as int, y1 as int, jj)),
                forall|k: int|
                    0 <= k < i ==> #[trigger] col_row.contains_key(k) && near_line(
                        x0 as int,
                        y0 as int,
                        x1 as int,
                        y1 as int,
                        k,
                        col_row[k],
                    ) && pts.contains((toward(x0 as int, x1 as int, k), toward(y0 as int, y1 as int, col_row[k]))),
                forall|k: int|
                    0 <= k < j ==> #[trigger] row_col.contains_key(k) && near_line(
                        x0 as int,
                        y0 as int,
                        x1 as int,
                        y1 as int,
                        row_col[k],
                        k,
                    ) && pts.contains((toward(x0 as int, x1 as int, row_col[k]), toward(y0 as int, y1 as int, k))),
                self.painted_over(start, |px: int, py: int| pts.contains((px, py)), attr),
            ensures
                digital_line(pts, x0 as int, y0 as int, x1 as int, y1 as int),
                self.painted_over(start, |px: int, py: int| pts.contains((px, py)), attr),
                full == visited,
                forall|px: int, py: int|
                    #[trigger] pts.contains((px, py)) <==> exists|ii: int, jj: int|
                        #[trigger] visited.contains((ii, jj)) && px == toward(x0 as int, x1 as int, ii)
                            && py == toward(y0 as int, y1 as int, jj),
            decreases (a - i) + (b - j),
        {
            proof {
                lemma_line_point_near(a as int, b as int, i, j, ai, bj);
            }
            self.pixel(x as i32, y as i32, attr);
            let ghost rows_prev = row_col;
            let ghost cols_prev = col_row;
            let ghost fuel0: nat = (full_fuel - n) as nat;
            let ghost visited0 = visited;
            proof {
                let ghost old_pts = pts;
                visited = visited.insert((i, j));
                n = n + 1;
                assert forall|px: int, py: int| #[trigger] pts.insert((x as int, y as int)).contains((px, py)) <==> exists|ii: int, jj: int|
                    #[trigger] visited.contains((ii, jj)) && px == toward(x0 as int, x1 as int, ii)
                        && py == toward(y0 as int, y1 as int, jj) by {
                    if px == x && py == y {
                        assert(visited.contains((i, j)));
                    } else if old_pts.contains((px, py)) {
                        let (ii, jj) = choose|ii: int, jj: int|
                            #[trigger] visited0.contains((ii, jj)) && px == toward(x0 as int, x1 as int, ii)
                                && py == toward(y0 as int, y1 as int, jj);
                        assert(visited.contains((ii, jj)));
                    } else if exists|ii: int, jj: int|
                        #[trigger] visited.contains((ii, jj)) && px == toward(x0 as int, x1 as int, ii)
                            && py == toward(y0 as int, y1 as int, jj) {
                        let (ii, jj) = choose|ii: int, jj: int|
                            #[trigger] visited.contains((ii, jj)) && px == toward(x0 as int, x1 as int, ii)
                                && py == toward(y0 as int, y1 as int, jj);
                        if ii == i && jj == j {
                        } else {
                            assert(visited0.contains((ii, jj)));
                        }
                    }
                }
                assert(near_line(x0 as int, y0 as int, x1 as int, y1 as int, i, j));
                pts = pts.insert((x as int, y as int));
                col_row = col_row.insert(i, j);
                row_col = row_col.insert(j, i);
                assert forall|p: (int, int)| #![trigger pts.contains(p)] pts.contains(p) implies exists|ii: int, jj: int|
                    near_line(x0 as int, y0 as int, x1 as int, y1 as int, ii, jj) && p == (
                    toward(x0 as int, x1 as int, ii), toward(y0 as int, y1 as int, jj)) by {
                    if p == (x as int, y as int) {
                        assert(near_line(x0 as int, y0 as int, x1 as int, y1 as int, i, j) && p == (
                            toward(x0 as int, x1 as int, i), toward(y0 as int, y1 as int, j)));
                    } else {
                        assert(old_pts.contains(p));
                    }
                }
            }
            if x == xe && y == ye {
                proof {
                    lemma_line_ends(x0 as int, x1 as int, i);
                    lemma_line_ends(y0 as int, y1 as int, j);
                    assert(fuel0 > 0);
                    assert(bresenham_steps(a as int, b as int, i, j, err as int, fuel0) =~= set![(i, j)]);
                    assert(full =~= visited);
                    assert forall|k: int| 0 <= k < j implies #[trigger] row_col.contains_key(k)
                        && near_line(x0 as int, y0 as int, x1 as int, y1 as int, row_col[k], k)
                        && pts.contains((toward(x0 as int, x1 as int, row_col[k]), toward(y0 as int, y1 as int, k))) by {
                        assert(rows_prev.contains_key(k));
                    }
                    assert forall|k: int| 0 <= k < i implies #[trigger] col_row.contains_key(k)
                        && near_line(x0 as int, y0 as int, x1 as int, y1 as int, k, col_row[k])
                        && pts.contains((toward(x0 as int, x1 as int, k), toward(y0 as int, y1 as int, col_row[k]))) by {
                        assert(cols_prev.contains_key(k));
                    }
                    assert forall|k: int| 0 <= k <= a implies #[trigger] column_hit(pts, x0 as int, y0 as int, x1 as int, y1 as int, k) by {
                        assert(col_row.contains_key(k));
                        let jj = col_row[k];
                        assert(near_line(x0 as int, y0 as int, x1 as int, y1 as int, k, jj));
                        assert(pts.contains((toward(x0 as int, x1 as int, k), toward(y0 as int, y1 as int, jj))));
                    }
                    assert forall|k: int| 0 <= k <= b implies #[trigger] row_hit(pts, x0 as int, y0 as int, x1 as int, y1 as int, k) by {
                        assert(row_col.contains_key(k));
                        let ii = row_col[k];
                        assert(near_line(x0 as int, y0 as int, x1 as int, y1 as int, ii, k));
                        assert(pts.contains((toward(x0 as int, x1 as int, ii), toward(y0 as int, y1 as int, k))));
                    }
                }
                break;
            }
            let e2 = 2 * err;
            let ghost i0 = i;
            let ghost j0 = j;
            let ghost err0 = err as int;
            proof {
                assert(fuel0 > 0);
                assert(!(i == a && j == b));
            }
            let ghost rows_before = row_col;
            let ghost cols_before = col_row;
            proof {
                lemma_line_step(a as int, b as int, i, j, ai, bj, err as int);
            }
            if e2 >= -b {
                err = err - b;
                x = x + sx;
                proof {
                    i = i + 1;
                    bj = bj + b;
                    assert(bj == b * i) by (nonlinear_arith)
                        requires
                            bj == b * i0 + b,
                            i == i0 + 1,
                    ;
                }
            }
            if e2 <= a {
                err = err + a;
                y = y + sy;
                proof {
                    j = j + 1;
                    ai = ai + a;
                    assert(ai == a * j) by (nonlinear_arith)
                        requires
                            ai == a * j0 + a,
                            j == j0 + 1,
                    ;
                }
            }
            proof {
                let rest = bresenham_steps(a as int, b as int, i, j, err as int, (full_fuel - n) as nat);
                assert(bresenham_steps(a as int, b as int, i0, j0, err0, fuel0) == rest.insert((i0, j0)));
                assert(full =~= visited.union(rest));
                assert forall|k: int| 0 <= k < j implies #[trigger] row_col.contains_key(k)
                    && near_line(x0 as int, y0 as int, x1 as int, y1 as int, row_col[k], k)
                    && pts.contains((toward(x0 as int, x1 as int, row_col[k]), toward(y0 as int, y1 as int, k))) by {
                    assert(k <= j0);
                    assert(rows_before.contains_key(k));
                }
                assert forall|k: int| 0 <= k < i implies #[trigger] col_row.contains_key(k)
                    && near_line(x0 as int, y0 as int, x1 as int, y1 as int, k, col_row[k])
                    && pts.contains((toward(x0 as int, x1 as int, k), toward(y0 as int, y1 as int, col_row[k]))) by {
                    assert(k <= i0);
                    assert(cols_before.contains_key(k));
                }
            }
        }
        proof {
            assert forall|px: int, py: int| #![trigger self.at(px, py)] self.in_bounds(px, py) implies self.at(px, py)
                == shade(bresenham_pixel(x0 as int, y0 as int, x1 as int, y1 as int, px, py), attr, start.at(px, py)) by {
                assert(pts.contains((px, py)) == bresenham_pixel(x0 as int, y0 as int, x1 as int, y1 as int, px, py));
            }
        }
    }
}

proof fn lemma_line_point_near(a: int, b: int, i: int, j: int, ai: int, bj: int)
    requires
        0 <= i <= a,
        0 <= j <= b,
        ai == a * j,
        bj == b * i,
        2 * spec_abs(ai - bj) <= spec_max(a, b),
    ensures
        2 * spec_abs(a * j - b * i) <= spec_max(a, b),
{
}

proof fn lemma_line_ends(from: int, to: int, k: int)
    requires
        toward(from, to, k) == to,
        0 <= k,
    ensures
        k == spec_abs(to - from),
{
}

/// One Bresenham step keeps the step counters inside the segment's box,
/// keeps the point near the ideal line, and moves at least one coordinate.
proof fn lemma_line_step(a: int, b: int, i: int, j: int, ai: int, bj: int, err: int)
    requires
        0 <= a,
        0 <= b,
        0 <= i <= a,
        0 <= j <= b,
        !(i == a && j == b),
        ai == a * j,
        bj == b * i,
        err == ai + a - bj - b,
        2 * spec_abs(ai - bj) <= spec_max(a, b),
    ensures
        2 * err >= -b || 2 * err <= a,
        2 * err >= -b ==> i < a,
        2 * err <= a ==> j < b,
        (2 * err >= -b && 2 * err <= a) ==> 2 * spec_abs(ai + a - bj - b) <= spec_max(a, b),
        (2 * err >= -b && !(2 * err <= a)) ==> 2 * spec_abs(ai - bj - b) <= spec_max(a, b),
        (!(2 * err >= -b) && 2 * err <= a) ==> 2 * spec_abs(ai + a - bj) <= spec_max(a, b),
{
    if i == a {
        assert(a * j <= a * b - a) by (nonlinear_arith)
            requires
                j <= b - 1,
                0 <= a,
        ;
        assert(b * i == a * b) by (nonlinear_arith)
            requires
                i == a,
        ;
    }
    if j == b {
        assert(b * i <= a * b - b) by (nonlinear_arith)
            requires
                i <= a - 1,
                0 <= b,
        ;
        assert(a * j == a * b) by (nonlinear_arith)
            requires
                j == b,
        ;
    }
}

} // verus!
