//! Rectangle geometry used by the presentation layer: extents, clamping,
//! overlap tests, and the decomposition of a rectangle around a hole into
//! at most four cover pieces.

use vstd::prelude::*;

verus! {

/// Bound on rectangle origins, in milli-units.
pub const RECT_LIMIT: i64 = 1_000_000_000_000;

/// Bound on rectangle extents, in milli-units.
pub const RECT_EXTENT_LIMIT: i64 = 1_000_000_000;

/// An axis-aligned rectangle in milli-units.
#[derive(Clone, Copy, Debug, PartialEq, Eq, Structural)]
pub struct Rect {
    pub x: i64,
    pub y: i64,
    pub w: i64,
    pub h: i64,
}

/// A rectangle whose coordinates and extents the geometry stays exact on.
pub open spec fn spec_rect_wf(r: Rect) -> bool {
    &&& -RECT_LIMIT <= r.x <= RECT_LIMIT
    &&& -RECT_LIMIT <= r.y <= RECT_LIMIT
    &&& -RECT_EXTENT_LIMIT <= r.w <= RECT_EXTENT_LIMIT
    &&& -RECT_EXTENT_LIMIT <= r.h <= RECT_EXTENT_LIMIT
}

/// Area with negative extents treated as empty.
pub open spec fn spec_area(r: Rect) -> int {
    (if r.w < 0 {
        0int
    } else {
        r.w as int
    }) * (if r.h < 0 {
        0int
    } else {
        r.h as int
    })
}

/// The intersection of `a` and `b`, with extents clamped at zero.
pub open spec fn spec_clamp(a: Rect, b: Rect) -> Rect {
    let x1 = if a.x >= b.x {
        a.x as int
    } else {
        b.x as int
    };
    let y1 = if a.y >= b.y {
        a.y as int
    } else {
        b.y as int
    };
    let x2 = if a.x + a.w <= b.x + b.w {
        a.x + a.w
    } else {
        b.x + b.w
    };
    let y2 = if a.y + a.h <= b.y + b.h {
        a.y + a.h
    } else {
        b.y + b.h
    };
    Rect {
        x: x1 as i64,
        y: y1 as i64,
        w: (if x2 - x1 >= 0 {
            x2 - x1
        } else {
            0
        }) as i64,
        h: (if y2 - y1 >= 0 {
            y2 - y1
        } else {
            0
        }) as i64,
    }
}

/// Whether two rectangles touch or overlap (closed edges).
pub open spec fn spec_overlaps(a: Rect, b: Rect) -> bool {
    a.x <= b.x + b.w && a.x + a.w >= b.x && a.y <= b.y + b.h && a.y + a.h >= b.y
}

/// The cover pieces of `rect` around `hole`: the whole rectangle when the
/// two do not meet or the hole is empty, else the left, right, top and
/// bottom remainders of the clipped hole, in that order, skipping the
/// empty ones.
pub open spec fn spec_hole_parts(rect: Rect, hole: Rect) -> Seq<Rect> {
    if !spec_overlaps(rect, hole) || spec_area(hole) == 0 {
        seq![rect]
    } else {
        let hx1 = if hole.x >= rect.x {
            hole.x as int
        } else {
            rect.x as int
        };
        let hy1 = if hole.y >= rect.y {
            hole.y as int
        } else {
            rect.y as int
        };
        let hx2 = if hole.x + hole.w <= rect.x + rect.w {
            hole.x + hole.w
        } else {
            rect.x + rect.w
        };
        let hy2 = if hole.y + hole.h <= rect.y + rect.h {
            hole.y + hole.h
        } else {
            rect.y + rect.h
        };
        let s0 = Seq::<Rect>::empty();
        let s1 = if hx1 > rect.x {
            s0.push(
                Rect { x: rect.x, y: rect.y, w: (hx1 - rect.x) as i64, h: rect.h },
            )
        } else {
            s0
        };
        let s2 = if hx2 < rect.x + rect.w {
            s1.push(
                Rect {
                    x: hx2 as i64,
                    y: rect.y,
                    w: (rect.x + rect.w - hx2) as i64,
                    h: rect.h,
                },
            )
        } else {
            s1
        };
        let s3 = if hy1 > rect.y {
            s2.push(
                Rect {
                    x: hx1 as i64,
                    y: rect.y,
                    w: (hx2 - hx1) as i64,
                    h: (hy1 - rect.y) as i64,
                },
            )
        } else {
            s2
        };
        if hy2 < rect.y + rect.h {
            s3.push(
                Rect {
                    x: hx1 as i64,
                    y: hy2 as i64,
                    w: (hx2 - hx1) as i64,
                    h: (rect.y + rect.h - hy2) as i64,
                },
            )
        } else {
            s3
        }
    }
}

impl Rect {
    pub fn new(x: i64, y: i64, w: i64, h: i64) -> (r: Rect)
        ensures
            r == (Rect { x, y, w, h }),
    {
        Rect { x, y, w, h }
    }

    /// The right edge.
    pub fn max_x(&self) -> (r: i64)
        requires
            spec_rect_wf(*self),
        ensures
            r == self.x + self.w,
    {
        self.x + self.w
    }

    /// The bottom edge.
    pub fn max_y(&self) -> (r: i64)
        requires
            spec_rect_wf(*self),
        ensures
            r == self.y + self.h,
    {
        self.y + self.h
    }

    /// The area, treating negative extents as empty.
    pub fn area(&self) -> (r: i64)
        requires
            spec_rect_wf(*self),
        ensures
            r == spec_area(*self),
    {
        let w = if self.w < 0 {
            0
        } else {
            self.w
        };
        let h = if self.h < 0 {
            0
        } else {
            self.h
        };
        proof {
            assert(0 <= w * h <= RECT_EXTENT_LIMIT * RECT_EXTENT_LIMIT) by (nonlinear_arith)
                requires
                    0 <= w <= RECT_EXTENT_LIMIT,
                    0 <= h <= RECT_EXTENT_LIMIT,
            ;
        }
        w * h
    }

    /// Intersect with `clamp`, clamping the extents at zero.
    pub fn clamp(&self, clamp: Rect) -> (r: Rect)
        requires
            spec_rect_wf(*self),
            spec_rect_wf(clamp),
        ensures
            r == spec_clamp(*self, clamp),
    {
        let x1 = if self.x >= clamp.x {
            self.x
        } else {
            clamp.x
        };
        let y1 = if self.y >= clamp.y {
            self.y
        } else {
            clamp.y
        };
        let sx2 = self.x + self.w;
        let cx2 = clamp.x + clamp.w;
        let x2 = if sx2 <= cx2 {
            sx2
        } else {
            cx2
        };
        let sy2 = self.y + self.h;
        let cy2 = clamp.y + clamp.h;
        let y2 = if sy2 <= cy2 {
            sy2
        } else {
            cy2
        };
        let w = if x2 - x1 >= 0 {
            x2 - x1
        } else {
            0
        };
        let h = if y2 - y1 >= 0 {
            y2 - y1
        } else {
            0
        };
        Rect { x: x1, y: y1, w, h }
    }
}

/// Whether the two rectangles overlap (closed edges).
pub fn overlaps(a: Rect, b: Rect) -> (r: bool)
    requires
        spec_rect_wf(a),
        spec_rect_wf(b),
    ensures
        r == spec_overlaps(a, b),
{
    a.x <= b.x + b.w && a.x + a.w >= b.x && a.y <= b.y + b.h && a.y + a.h >= b.y
}

/// The pieces that cover `rect` with the clipped `hole` cut out: none of
/// them reaches into the hole, and together they stand for the drawn
/// remainder.
pub fn rect_with_hole_parts(rect: Rect, hole: Rect) -> (parts: Vec<Rect>)
    requires
        spec_rect_wf(rect),
        spec_rect_wf(hole),
    ensures
        parts@ == spec_hole_parts(rect, hole),
{
    let mut parts: Vec<Rect> = Vec::new();
    if !overlaps(rect, hole) || hole.area() == 0 {
        parts.push(rect);
        proof {
            assert(parts@ =~= spec_hole_parts(rect, hole));
        }
        return parts;
    }
    let hx1 = if hole.x >= rect.x {
        hole.x
    } else {
        rect.x
    };
    let hy1 = if hole.y >= rect.y {
        hole.y
    } else {
        rect.y
    };
    let rx2 = rect.x + rect.w;
    let ry2 = rect.y + rect.h;
    let ox2 = hole.x + hole.w;
    let oy2 = hole.y + hole.h;
    let hx2 = if ox2 <= rx2 {
        ox2
    } else {
        rx2
    };
    let hy2 = if oy2 <= ry2 {
        oy2
    } else {
        ry2
    };
    if hx1 > rect.x {
        parts.push(Rect { x: rect.x, y: rect.y, w: hx1 - rect.x, h: rect.h });
    }
    if hx2 < rx2 {
        parts.push(Rect { x: hx2, y: rect.y, w: rx2 - hx2, h: rect.h });
    }
    if hy1 > rect.y {
        parts.push(Rect { x: hx1, y: rect.y, w: hx2 - hx1, h: hy1 - rect.y });
    }
    if hy2 < ry2 {
        parts.push(Rect { x: hx1, y: hy2, w: hx2 - hx1, h: ry2 - hy2 });
    }
    proof {
        assert(parts@ =~= spec_hole_parts(rect, hole));
    }
    parts
}

} // verus!
