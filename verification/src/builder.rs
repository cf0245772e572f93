use crate::atlas_alloc::{
    alloc_canvas, alloc_outcome, alloc_regions, alloc_unit_aligned, allocator_allocate,
    allocator_new,
};
use crate::image::{
    copied_into, dest_off, in_copy_region, lemma_dest_off_distinct, lemma_dest_off_in_bounds,
    lemma_src_off_in_bounds, src_off, Image, Images,
};
use crate::layout::TextureAtlasLayout;
use crate::rect::{
    lemma_separated_regions_separate_rects, rect_in_canvas, rect_in_region, region_in_canvas,
    region_wf, rects_disjoint, regions_disjoint, URect, UVec2,
};
use vstd::pervasive::unreached;
use vstd::prelude::*;

verus! {

/// Places textures into a fixed-size atlas on the fly: each call of
/// [`Self::add_texture`] reserves a padded cell through the space allocator,
/// copies the texture's bytes into the atlas buffer, and records the
/// published rectangle in the layout registry.
pub struct DynamicTextureAtlasBuilder {
    atlas_allocator: guillotiere::AtlasAllocator,
    padding: u32,
}

impl DynamicTextureAtlasBuilder {
    /// The gap reserved to the right of and below every placed texture.
    pub closed spec fn spec_padding(self) -> u32 {
        self.padding
    }

    /// The atlas extent as `(width, height)`.
    pub closed spec fn canvas(self) -> (int, int) {
        alloc_canvas(self.atlas_allocator)
    }

    /// The padded cells reserved so far.
    pub closed spec fn regions(self) -> Set<(int, int, int, int)> {
        alloc_regions(self.atlas_allocator)
    }

    /// What the space allocator would answer to a request of the given size.
    pub closed spec fn outcome(self, width: int, height: int) -> Option<(int, int, int, int)> {
        match alloc_outcome(self.atlas_allocator, width as i32, height as i32) {
            Some(g) => Some((g.0 as int, g.1 as int, g.2 as int, g.3 as int)),
            None => None,
        }
    }

    /// The allocator hands out cells of exactly the requested size over a
    /// positive canvas that fits the signed coordinate domain.
    pub closed spec fn wf(self) -> bool {
        &&& alloc_unit_aligned(self.atlas_allocator)
        &&& 1 <= self.canvas().0 <= i32::MAX as int
        &&& 1 <= self.canvas().1 <= i32::MAX as int
    }

    /// The builder and a layout registry agree: they speak of the same
    /// canvas, every published rectangle lies inside its own reserved cell
    /// and inside the canvas, and no two published rectangles share a pixel.
    pub open spec fn consistent(self, layout: TextureAtlasLayout) -> bool {
        &&& self.canvas() == (layout.size.x as int, layout.size.y as int)
        &&& forall |i: int| 0 <= i < layout.textures@.len() ==> {
            &&& (#[trigger] layout.textures@[i]).wf()
            &&& rect_in_canvas(layout.textures@[i], layout.size)
            &&& exists |g: (int, int, int, int)|
                self.regions().contains(g) && rect_in_region(layout.textures@[i], g)
        }
        &&& forall |i: int, j: int| #![trigger layout.textures@[i], layout.textures@[j]]
            0 <= i < layout.textures@.len() && 0 <= j < layout.textures@.len() && i != j
                ==> rects_disjoint(layout.textures@[i], layout.textures@[j])
    }

    /// Create a new builder over a fixed canvas.
    ///
    /// `size` must be positive and representable in the allocator's signed
    /// coordinate domain; a canvas outside it is a configuration error, not a
    /// runtime condition, and is ruled out here rather than reported.
    pub fn new(size: UVec2, padding: u32) -> (builder: Self)
        requires
            1 <= size.x <= i32::MAX as u32,
            1 <= size.y <= i32::MAX as u32,
        ensures
            builder.wf(),
            builder.spec_padding() == padding,
            builder.canvas() == (size.x as int, size.y as int),
            builder.regions() == Set::<(int, int, int, int)>::empty(),
    {
        DynamicTextureAtlasBuilder {
            atlas_allocator: allocator_new(size.x as i32, size.y as i32),
            padding,
        }
    }

    /// Add a texture to the atlas: reserve a cell of the texture's size plus
    /// padding, copy the texture's bytes into the atlas buffer at the cell's
    /// top-left corner, record the published rectangle (the cell with the
    /// padding trimmed off its right and bottom edge) in `atlas_layout`, and
    /// return the index under which it was recorded.
    ///
    /// Returns `None`, leaving the layout, the image store and the set of
    /// reserved cells untouched, when the padded size is not representable in
    /// the allocator's coordinate domain or the allocator finds no room; in
    /// particular a request wider or taller than the canvas always fails.
    pub fn add_texture(
        &mut self,
        atlas_layout: &mut TextureAtlasLayout,
        textures: &mut Images,
        texture: &Image,
        atlas_texture_handle: usize,
    ) -> (result: Option<usize>)
        requires
            old(self).wf(),
            atlas_texture_handle < old(textures).images@.len(),
            old(textures).images@[atlas_texture_handle as int].wf(),
            old(textures).images@[atlas_texture_handle as int].main_world,
            old(textures).images@[atlas_texture_handle as int].width == old(self).canvas().0,
            old(textures).images@[atlas_texture_handle as int].height == old(self).canvas().1,
            texture.wf(),
            texture.pixel_size == old(textures).images@[atlas_texture_handle as int].pixel_size,
        ensures
            final(self).wf(),
            final(self).spec_padding() == old(self).spec_padding(),
            final(self).canvas() == old(self).canvas(),
            old(self).consistent(*old(atlas_layout)) ==> final(self).consistent(*final(atlas_layout)),
            texture.width + old(self).spec_padding() > old(self).canvas().0
                || texture.height + old(self).spec_padding() > old(self).canvas().1
                ==> result is None,
            ({
                let rw = texture.width + old(self).spec_padding();
                let rh = texture.height + old(self).spec_padding();
                if rw > (i32::MAX as int) || rh > (i32::MAX as int) {
                    &&& result is None
                    &&& *final(self) == *old(self)
                    &&& *final(atlas_layout) == *old(atlas_layout)
                    &&& *final(textures) == *old(textures)
                } else {
                    match old(self).outcome(rw, rh) {
                        None => {
                            &&& result is None
                            &&& final(self).regions() == old(self).regions()
                            &&& *final(atlas_layout) == *old(atlas_layout)
                            &&& *final(textures) == *old(textures)
                        },
                        Some(g) => {
                            let published = published_rect(g, texture.width as int,
                                texture.height as int);
                            &&& result == Some(old(atlas_layout).textures@.len() as usize)
                            &&& final(atlas_layout).size == old(atlas_layout).size
                            &&& final(atlas_layout).textures@
                                == old(atlas_layout).textures@.push(published)
                            &&& final(self).regions() == old(self).regions().insert(g)
                            &&& region_wf(g)
                            &&& region_in_canvas(g, old(self).canvas().0, old(self).canvas().1)
                            &&& g.2 - g.0 == rw && g.3 - g.1 == rh
                            &&& forall |q: (int, int, int, int)|
                                old(self).regions().contains(q) ==> regions_disjoint(q, g)
                            &&& published.wf() && rect_in_region(published, g)
                            &&& final(textures).images@.len() == old(textures).images@.len()
                            &&& forall |k: int|
                                0 <= k < old(textures).images@.len() && k != atlas_texture_handle
                                    ==> #[trigger] final(textures).images@[k]
                                        == old(textures).images@[k]
                            &&& copied_into(
                                old(textures).images@[atlas_texture_handle as int],
                                final(textures).images@[atlas_texture_handle as int],
                                *texture, g.0, g.1)
                        },
                    }
                }
            }),
    {
        let pad = self.padding;
        let padded_w = match texture.width.checked_add(pad) {
            Some(v) => v,
            None => {
                return None;
            },
        };
        let padded_h = match texture.height.checked_add(pad) {
            Some(v) => v,
            None => {
                return None;
            },
        };
        let requested = UVec2 { x: padded_w, y: padded_h };
        let (rw, rh) = match to_size2(requested) {
            Some(s) => s,
            None => {
                return None;
            },
        };
        let allocation = allocator_allocate(&mut self.atlas_allocator, rw, rh);
        match allocation {
            Some(g) => {
                let ghost gi = (g.0 as int, g.1 as int, g.2 as int, g.3 as int);
                let min_x: u32 = g.0 as u32;
                let min_y: u32 = g.1 as u32;
                let atlas_image = &mut textures.images[atlas_texture_handle];
                proof {
                    assert(min_x + texture.width <= atlas_image.width);
                    assert(min_y + texture.height <= atlas_image.height);
                }
                place_texture(atlas_image, texture, min_x, min_y);
                let mut rect = match to_rect(g) {
                    Some(rect) => rect,
                    None => unreached(),
                };
                rect.max.x = if rect.max.x >= pad { rect.max.x - pad } else { 0 };
                rect.max.y = if rect.max.y >= pad { rect.max.y - pad } else { 0 };
                proof {
                    assert(rect == published_rect(gi, texture.width as int, texture.height as int));
                }
                let index = atlas_layout.add_texture(rect);
                proof {
                    if old(self).consistent(*old(atlas_layout)) {
                        lemma_add_preserves_consistent(
                            *old(self), *self, *old(atlas_layout), *atlas_layout, gi, rect);
                    }
                }
                Some(index)
            },
            None => {
                proof {
                    if old(self).consistent(*old(atlas_layout)) {
                        lemma_consistent_same_regions(*old(self), *self, *atlas_layout);
                    }
                }
                None
            },
        }
    }
}

/// The published rectangle for a reserved cell `g` holding a texture `tw`
/// pixels wide and `th` pixels tall: the cell's top-left corner with the
/// texture's own extent, the padding trimmed off the right and bottom edge.
pub open spec fn published_rect(g: (int, int, int, int), tw: int, th: int) -> URect {
    URect {
        min: UVec2 { x: g.0 as u32, y: g.1 as u32 },
        max: UVec2 { x: (g.0 + tw) as u32, y: (g.1 + th) as u32 },
    }
}

/// Converts an unsigned extent to the allocator's signed coordinate domain,
/// or reports that it does not fit.
fn to_size2(size: UVec2) -> (r: Option<(i32, i32)>)
    ensures
        r == (if size.x <= i32::MAX as u32 && size.y <= i32::MAX as u32 {
            Some((size.x as i32, size.y as i32))
        } else {
            None::<(i32, i32)>
        }),
{
    if size.x <= i32::MAX as u32 && size.y <= i32::MAX as u32 {
        Some((size.x as i32, size.y as i32))
    } else {
        None
    }
}

/// Converts a cell from the allocator's signed coordinate domain to unsigned
/// atlas coordinates, or reports a corner outside the unsigned domain.
fn to_rect(g: (i32, i32, i32, i32)) -> (r: Option<URect>)
    ensures
        r == (if 0 <= g.0 && 0 <= g.1 && 0 <= g.2 && 0 <= g.3 {
            Some(URect {
                min: UVec2 { x: g.0 as u32, y: g.1 as u32 },
                max: UVec2 { x: g.2 as u32, y: g.3 as u32 },
            })
        } else {
            None::<URect>
        }),
{
    if 0 <= g.0 && 0 <= g.1 && 0 <= g.2 && 0 <= g.3 {
        Some(URect {
            min: UVec2 { x: g.0 as u32, y: g.1 as u32 },
            max: UVec2 { x: g.2 as u32, y: g.3 as u32 },
        })
    } else {
        None
    }
}

/// Appending a published rectangle that lies inside a fresh cell keeps a
/// builder and a layout consistent, because the fresh cell shares no pixel
/// with any cell reserved before.
proof fn lemma_add_preserves_consistent(
    b0: DynamicTextureAtlasBuilder,
    b1: DynamicTextureAtlasBuilder,
    lay0: TextureAtlasLayout,
    lay1: TextureAtlasLayout,
    g: (int, int, int, int),
    published: URect,
)
    requires
        b0.consistent(lay0),
        b1.canvas() == b0.canvas(),
        b1.regions() == b0.regions().insert(g),
        forall |q: (int, int, int, int)| b0.regions().contains(q) ==> regions_disjoint(q, g),
        region_wf(g),
        region_in_canvas(g, b0.canvas().0, b0.canvas().1),
        published.wf(),
        rect_in_region(published, g),
        lay1.size == lay0.size,
        lay1.textures@ == lay0.textures@.push(published),
    ensures
        b1.consistent(lay1),
{
    let n0 = lay0.textures@.len() as int;
    assert forall |i: int| 0 <= i < lay1.textures@.len() implies {
        &&& (#[trigger] lay1.textures@[i]).wf()
        &&& rect_in_canvas(lay1.textures@[i], lay1.size)
        &&& exists |gg: (int, int, int, int)|
            b1.regions().contains(gg) && rect_in_region(lay1.textures@[i], gg)
    } by {
        if i < n0 {
            assert(lay1.textures@[i] == lay0.textures@[i]);
            let gg = choose |gg: (int, int, int, int)|
                b0.regions().contains(gg) && rect_in_region(lay0.textures@[i], gg);
            assert(b1.regions().contains(gg));
            assert(rect_in_region(lay1.textures@[i], gg));
        } else {
            assert(lay1.textures@[i] == published);
            assert(b1.regions().contains(g));
            assert(rect_in_region(lay1.textures@[i], g));
        }
    }
    assert forall |i: int, j: int| #![trigger lay1.textures@[i], lay1.textures@[j]]
        0 <= i < lay1.textures@.len() && 0 <= j < lay1.textures@.len() && i != j
            implies rects_disjoint(lay1.textures@[i], lay1.textures@[j]) by {
        if i < n0 && j < n0 {
            assert(lay1.textures@[i] == lay0.textures@[i]);
            assert(lay1.textures@[j] == lay0.textures@[j]);
            assert(rects_disjoint(lay0.textures@[i], lay0.textures@[j]));
        } else if i < n0 && j == n0 {
            let gg = choose |gg: (int, int, int, int)|
                b0.regions().contains(gg) && rect_in_region(lay0.textures@[i], gg);
            lemma_separated_regions_separate_rects(lay0.textures@[i], published, gg, g);
        } else if i == n0 && j < n0 {
            let gg = choose |gg: (int, int, int, int)|
                b0.regions().contains(gg) && rect_in_region(lay0.textures@[j], gg);
            lemma_separated_regions_separate_rects(lay0.textures@[j], published, gg, g);
        }
    }
}

/// Consistency depends only on the canvas and on the set of reserved cells:
/// it carries over to a builder that agrees on both.
proof fn lemma_consistent_same_regions(
    b0: DynamicTextureAtlasBuilder,
    b1: DynamicTextureAtlasBuilder,
    layout: TextureAtlasLayout,
)
    requires
        b0.consistent(layout),
        b1.regions() == b0.regions(),
        b1.canvas() == b0.canvas(),
    ensures
        b1.consistent(layout),
{
    assert forall |i: int| 0 <= i < layout.textures@.len() implies {
        &&& (#[trigger] layout.textures@[i]).wf()
        &&& rect_in_canvas(layout.textures@[i], layout.size)
        &&& exists |gg: (int, int, int, int)|
            b1.regions().contains(gg) && rect_in_region(layout.textures@[i], gg)
    } by {
        let gg = choose |gg: (int, int, int, int)|
            b0.regions().contains(gg) && rect_in_region(layout.textures@[i], gg);
        assert(b1.regions().contains(gg));
    }
}

/// A fresh builder, with no cell reserved yet, is consistent with an empty
/// layout of the same canvas extent. Together with the preservation clause of
/// [`DynamicTextureAtlasBuilder::add_texture`], every sequence of successful
/// additions keeps all published rectangles inside the canvas and pairwise
/// disjoint.
pub proof fn lemma_new_builder_consistent(
    builder: DynamicTextureAtlasBuilder,
    layout: TextureAtlasLayout,
)
    requires
        builder.regions() == Set::<(int, int, int, int)>::empty(),
        layout.textures@.len() == 0,
        builder.canvas() == (layout.size.x as int, layout.size.y as int),
    ensures
        builder.consistent(layout),
{
}

/// Two distinct published rectangles of a consistent builder and layout pair
/// never share a pixel, and each lies inside the canvas.
pub proof fn lemma_consistent_rects(
    builder: DynamicTextureAtlasBuilder,
    layout: TextureAtlasLayout,
    i: int,
    j: int,
)
    requires
        builder.consistent(layout),
        0 <= i < layout.textures@.len(),
        0 <= j < layout.textures@.len(),
        i != j,
    ensures
        layout.textures@[i].wf(),
        rect_in_canvas(layout.textures@[i], layout.size),
        rects_disjoint(layout.textures@[i], layout.textures@[j]),
{
}

/// Copies the bytes of `texture` into the atlas buffer row by row, placing
/// the top-left corner at `(min_x, min_y)`; bytes outside the copied block,
/// padding included, are left untouched.
#[verifier::loop_isolation(false)]
fn place_texture(atlas_texture: &mut Image, texture: &Image, min_x: u32, min_y: u32)
    requires
        old(atlas_texture).wf(),
        texture.wf(),
        texture.pixel_size == old(atlas_texture).pixel_size,
        min_x + texture.width <= old(atlas_texture).width,
        min_y + texture.height <= old(atlas_texture).height,
    ensures
        copied_into(*old(atlas_texture), *final(atlas_texture), *texture, min_x as int, min_y as int),
{
    let ghost before = *old(atlas_texture);
    let w: usize = texture.width as usize;
    let h: usize = texture.height as usize;
    let ps: usize = atlas_texture.pixel_size;
    let aw: usize = atlas_texture.width as usize;
    let ghost wi = w as int;
    let ghost hi = h as int;
    let ghost psi = ps as int;
    let ghost awi = aw as int;
    let ghost ahi = atlas_texture.height as int;
    let ghost xi = min_x as int;
    let ghost yi = min_y as int;
    if w == 0 || h == 0 || ps == 0 {
        // Nothing to copy: the block is empty, so every byte keeps its value.
        proof {
            assert(hi == 0 || wi * psi == 0) by (nonlinear_arith)
                requires wi == 0 || hi == 0 || psi == 0
            ;
            assert(copied_into(before, *atlas_texture, *texture, xi, yi));
        }
        return;
    }
    let tlen: usize = texture.data.len();
    let alen: usize = atlas_texture.data.len();
    proof {
        assert(1 <= wi * psi && wi * psi <= wi * hi * psi) by (nonlinear_arith)
            requires 1 <= wi, 1 <= hi, 1 <= psi
        ;
        assert(awi * ahi <= awi * ahi * psi) by (nonlinear_arith)
            requires 1 <= psi, 0 <= awi, 0 <= ahi
        ;
        assert(alen as int == awi * ahi * psi);
        assert(tlen as int == wi * hi * psi);
    }
    let row_bytes: usize = w * ps;
    let mut r: usize = 0;
    while r < h
        invariant
            r <= h,
            atlas_texture.width == before.width,
            atlas_texture.height == before.height,
            atlas_texture.pixel_size == before.pixel_size,
            atlas_texture.main_world == before.main_world,
            atlas_texture.data@.len() == before.data@.len(),
            forall |rr: int, cc: int|
                0 <= rr < r && 0 <= cc < wi * psi
                    ==> atlas_texture.data@[#[trigger] dest_off(awi, psi, xi, yi, rr, cc)]
                        == texture.data@[src_off(wi, psi, rr, cc)],
            forall |i: int|
                0 <= i < before.data@.len() && !in_copy_region(i, awi, psi, xi, yi, wi, hi)
                    ==> atlas_texture.data@[i] == #[trigger] before.data@[i],
        decreases h - r,
    {
        proof {
            lemma_dest_off_in_bounds(awi, ahi, psi, xi, yi, wi, hi, r as int, 0);
            lemma_src_off_in_bounds(wi, psi, hi, r as int, 0);
        }
        let dest_base: usize = (min_y as usize + r) * aw + min_x as usize;
        let dest_base_bytes: usize = dest_base * ps;
        let src_base: usize = r * row_bytes;
        let mut c: usize = 0;
        while c < row_bytes
            invariant
                c <= row_bytes,
                atlas_texture.width == before.width,
                atlas_texture.height == before.height,
                atlas_texture.pixel_size == before.pixel_size,
                atlas_texture.main_world == before.main_world,
                atlas_texture.data@.len() == before.data@.len(),
                forall |rr: int, cc: int|
                    0 <= rr < r && 0 <= cc < wi * psi
                        ==> atlas_texture.data@[#[trigger] dest_off(awi, psi, xi, yi, rr, cc)]
                            == texture.data@[src_off(wi, psi, rr, cc)],
                forall |cc: int|
                    0 <= cc < c
                        ==> atlas_texture.data@[#[trigger] dest_off(awi, psi, xi, yi, r as int, cc)]
                            == texture.data@[src_off(wi, psi, r as int, cc)],
                forall |i: int|
                    0 <= i < before.data@.len() && !in_copy_region(i, awi, psi, xi, yi, wi, hi)
                        ==> atlas_texture.data@[i] == #[trigger] before.data@[i],
            decreases row_bytes - c,
        {
            proof {
                lemma_dest_off_in_bounds(awi, ahi, psi, xi, yi, wi, hi, r as int, c as int);
                lemma_src_off_in_bounds(wi, psi, hi, r as int, c as int);
            }
            let b: u8 = texture.data[src_base + c];
            let idx: usize = dest_base_bytes + c;
            proof {
                assert(idx as int == dest_off(awi, psi, xi, yi, r as int, c as int));
                assert((src_base + c) as int == src_off(wi, psi, r as int, c as int));
            }
            atlas_texture.data[idx] = b;
            proof {
                assert forall |rr: int, cc: int| 0 <= rr < r && 0 <= cc < wi * psi
                    implies #[trigger] dest_off(awi, psi, xi, yi, rr, cc) != idx as int
                        && 0 <= dest_off(awi, psi, xi, yi, rr, cc) < awi * ahi * psi by {
                    lemma_dest_off_distinct(awi, psi, xi, yi, wi, rr, cc, r as int, c as int);
                    lemma_dest_off_in_bounds(awi, ahi, psi, xi, yi, wi, hi, rr, cc);
                }
                assert forall |cc: int| 0 <= cc < c
                    implies #[trigger] dest_off(awi, psi, xi, yi, r as int, cc) != idx as int
                        && 0 <= dest_off(awi, psi, xi, yi, r as int, cc) < awi * ahi * psi by {
                    lemma_dest_off_distinct(awi, psi, xi, yi, wi, r as int, cc, r as int, c as int);
                    lemma_dest_off_in_bounds(awi, ahi, psi, xi, yi, wi, hi, r as int, cc);
                }
                assert(in_copy_region(idx as int, awi, psi, xi, yi, wi, hi));
            }
            c += 1;
        }
        r += 1;
    }
}

} // verus!
