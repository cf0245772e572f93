use crate::rect::regions_disjoint;
use vstd::prelude::*;

verus! {

#[verifier::external_type_specification]
#[verifier::external_body]
pub struct ExAtlasAllocator(guillotiere::AtlasAllocator);

/// The canvas extent the allocator was created with, as `(width, height)`.
pub uninterp spec fn alloc_canvas(a: guillotiere::AtlasAllocator) -> (int, int);

/// Whether the allocator was created with its default options, under which
/// requested sizes are not rounded up and every returned cell has exactly the
/// requested size.
pub uninterp spec fn alloc_unit_aligned(a: guillotiere::AtlasAllocator) -> bool;

/// The cells currently handed out by the allocator, each written
/// `(min_x, min_y, max_x, max_y)`.
pub uninterp spec fn alloc_regions(a: guillotiere::AtlasAllocator) -> Set<(int, int, int, int)>;

/// What one allocation request returns, as a function of the allocator value
/// and the requested size alone: the allocator draws on no randomness, clock
/// or address, so equal states and sizes give equal outcomes.
pub uninterp spec fn alloc_outcome(
    a: guillotiere::AtlasAllocator,
    width: i32,
    height: i32,
) -> Option<(i32, i32, i32, i32)>;

/// Relies on guillotiere::AtlasAllocator::new: builds an allocator over the
/// given canvas with the default options (no rounding of requested sizes)
/// and with no cell handed out yet; it panics unless both dimensions are
/// positive.
#[verifier::external_body]
pub(crate) fn allocator_new(width: i32, height: i32) -> (a: guillotiere::AtlasAllocator)
    requires
        1 <= width,
        1 <= height,
    ensures
        alloc_canvas(a) == (width as int, height as int),
        alloc_unit_aligned(a),
        alloc_regions(a) == Set::<(int, int, int, int)>::empty(),
{
    guillotiere::AtlasAllocator::new(guillotiere::Size::new(width, height))
}

/// Relies on guillotiere::AtlasAllocator::allocate: on success it returns a
/// fresh cell that lies inside the canvas, has at least the requested size
/// (exactly the requested size under the default options), and shares no
/// pixel with any cell handed out before; a request with a non-positive side
/// always fails; on failure the set of cells is unchanged. The canvas and
/// the options never change, and the outcome is a deterministic function of
/// the allocator state and the requested size.
#[verifier::external_body]
pub(crate) fn allocator_allocate(
    a: &mut guillotiere::AtlasAllocator,
    width: i32,
    height: i32,
) -> (r: Option<(i32, i32, i32, i32)>)
    ensures
        r == alloc_outcome(*old(a), width, height),
        alloc_canvas(*final(a)) == alloc_canvas(*old(a)),
        alloc_unit_aligned(*final(a)) == alloc_unit_aligned(*old(a)),
        width <= 0 || height <= 0 ==> r is None,
        match r {
            Some(g) => {
                &&& 0 <= g.0 && g.0 <= g.2 && 0 <= g.1 && g.1 <= g.3
                &&& width <= g.2 - g.0 && height <= g.3 - g.1
                &&& alloc_unit_aligned(*old(a)) ==> g.2 - g.0 == width && g.3 - g.1 == height
                &&& g.2 <= alloc_canvas(*old(a)).0 && g.3 <= alloc_canvas(*old(a)).1
                &&& forall |q: (int, int, int, int)| alloc_regions(*old(a)).contains(q)
                    ==> regions_disjoint(q, (g.0 as int, g.1 as int, g.2 as int, g.3 as int))
                &&& alloc_regions(*final(a)) == alloc_regions(*old(a)).insert(
                    (g.0 as int, g.1 as int, g.2 as int, g.3 as int))
            },
            None => alloc_regions(*final(a)) == alloc_regions(*old(a)),
        },
{
    match a.allocate(guillotiere::Size::new(width, height)) {
        Some(allocation) => Some((
            allocation.rectangle.min.x,
            allocation.rectangle.min.y,
            allocation.rectangle.max.x,
            allocation.rectangle.max.y,
        )),
        None => None,
    }
}

} // verus!
