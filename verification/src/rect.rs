use vstd::prelude::*;

verus! {

/// A two-dimensional extent or position in unsigned pixel coordinates.
#[derive(Clone, Copy, Debug, PartialEq, Eq, Structural)]
pub struct UVec2 {
    pub x: u32,
    pub y: u32,
}

/// An axis-aligned rectangle in atlas pixel coordinates. `min` is the
/// top-left corner; `max` is the exclusive bottom-right corner, so the
/// rectangle covers the pixel columns `min.x..max.x` and rows `min.y..max.y`.
#[derive(Clone, Copy, Debug, PartialEq, Eq, Structural)]
pub struct URect {
    pub min: UVec2,
    pub max: UVec2,
}

impl URect {
    /// The corners are ordered.
    pub open spec fn wf(self) -> bool {
        self.min.x <= self.max.x && self.min.y <= self.max.y
    }

    pub open spec fn width(self) -> int {
        self.max.x - self.min.x
    }

    pub open spec fn height(self) -> int {
        self.max.y - self.min.y
    }
}

/// The rectangle lies inside a canvas of the given extent.
pub open spec fn rect_in_canvas(r: URect, size: UVec2) -> bool {
    r.max.x <= size.x && r.max.y <= size.y
}

/// The two rectangles cover no common pixel.
pub open spec fn rects_disjoint(a: URect, b: URect) -> bool {
    a.max.x <= b.min.x || b.max.x <= a.min.x || a.max.y <= b.min.y || b.max.y <= a.min.y
}

/// A cell handed out by the space allocator, written `(min_x, min_y, max_x,
/// max_y)` with the same half-open convention as `URect`.
pub open spec fn region_wf(g: (int, int, int, int)) -> bool {
    0 <= g.0 && g.0 <= g.2 && 0 <= g.1 && g.1 <= g.3
}

/// The cell lies inside a canvas `width` pixels wide and `height` pixels tall.
pub open spec fn region_in_canvas(g: (int, int, int, int), width: int, height: int) -> bool {
    g.2 <= width && g.3 <= height
}

/// The two cells cover no common pixel.
pub open spec fn regions_disjoint(a: (int, int, int, int), b: (int, int, int, int)) -> bool {
    a.2 <= b.0 || b.2 <= a.0 || a.3 <= b.1 || b.3 <= a.1
}

/// The rectangle lies inside the cell.
pub open spec fn rect_in_region(r: URect, g: (int, int, int, int)) -> bool {
    g.0 <= r.min.x && r.max.x <= g.2 && g.1 <= r.min.y && r.max.y <= g.3
}

/// A reserved cell that covers the whole canvas leaves no room: no non-empty
/// cell inside the canvas is disjoint from it, so once such a cell has been
/// handed out every further allocation must fail.
pub proof fn lemma_full_canvas_blocks(width: int, height: int, g: (int, int, int, int))
    requires
        region_wf(g),
        region_in_canvas(g, width, height),
        g.0 < g.2,
        g.1 < g.3,
    ensures
        !regions_disjoint((0, 0, width, height), g),
{
}

/// Rectangles contained in disjoint cells are themselves disjoint.
pub proof fn lemma_separated_regions_separate_rects(
    a: URect,
    b: URect,
    ga: (int, int, int, int),
    gb: (int, int, int, int),
)
    requires
        rect_in_region(a, ga),
        rect_in_region(b, gb),
        regions_disjoint(ga, gb),
    ensures
        rects_disjoint(a, b),
{
}

} // verus!
