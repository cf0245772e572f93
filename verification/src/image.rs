use vstd::prelude::*;

verus! {

/// A bitmap held in host memory: an extent, the byte size of one pixel, and
/// the raw bytes in row-major order.
pub struct Image {
    pub width: u32,
    pub height: u32,
    /// Bytes per pixel.
    pub pixel_size: usize,
    /// Whether the bytes are retained in host-addressable memory, as opposed
    /// to living only on the rendering device. The atlas canvas must have
    /// this set, since its bytes are read and written on the host side.
    pub main_world: bool,
    pub data: Vec<u8>,
}

impl Image {
    /// The byte buffer holds exactly one entry per pixel byte.
    pub open spec fn wf(self) -> bool {
        self.data@.len() == self.width * self.height * self.pixel_size
    }
}

/// The asset store: an ordered collection of images, addressed by the index
/// at which each was added.
pub struct Images {
    pub images: Vec<Image>,
}

/// The byte offset, inside an atlas whose rows are `atlas_w` pixels of `ps`
/// bytes each, of byte `c` of row `r` of a sub-image placed at `(x, y)`.
pub open spec fn dest_off(atlas_w: int, ps: int, x: int, y: int, r: int, c: int) -> int {
    ((y + r) * atlas_w + x) * ps + c
}

/// The byte offset of byte `c` of row `r` inside a source image `w` pixels
/// wide with `ps` bytes per pixel.
pub open spec fn src_off(w: int, ps: int, r: int, c: int) -> int {
    r * (w * ps) + c
}

/// Whether byte `i` of the atlas buffer falls inside the block of `h` rows of
/// `w * ps` bytes placed at `(x, y)`.
pub open spec fn in_copy_region(i: int, atlas_w: int, ps: int, x: int, y: int, w: int, h: int) -> bool {
    exists |r: int, c: int| 0 <= r < h && 0 <= c < w * ps && i == dest_off(atlas_w, ps, x, y, r, c)
}

/// `after` is `before` with the bytes of `texture` copied row by row at
/// `(x, y)`, and nothing else changed: each of the `texture.height` copied
/// rows matches the corresponding source row for `texture.width *
/// texture.pixel_size` bytes, and every byte outside the copied block keeps
/// its old value.
pub open spec fn copied_into(before: Image, after: Image, texture: Image, x: int, y: int) -> bool {
    &&& after.width == before.width
    &&& after.height == before.height
    &&& after.pixel_size == before.pixel_size
    &&& after.main_world == before.main_world
    &&& after.data@.len() == before.data@.len()
    &&& forall |r: int, c: int|
        0 <= r < texture.height && 0 <= c < texture.width * texture.pixel_size
            ==> after.data@[#[trigger] dest_off(before.width as int, before.pixel_size as int, x, y, r, c)]
                == texture.data@[src_off(texture.width as int, texture.pixel_size as int, r, c)]
    &&& forall |i: int|
        0 <= i < before.data@.len()
            && !in_copy_region(i, before.width as int, before.pixel_size as int, x, y,
                texture.width as int, texture.height as int)
            ==> after.data@[i] == #[trigger] before.data@[i]
}

/// Offsets of bytes inside the copied block stay inside an atlas buffer of
/// `aw * ah * ps` bytes, and every intermediate value of the offset
/// computation is bounded by that product.
pub proof fn lemma_dest_off_in_bounds(
    aw: int,
    ah: int,
    ps: int,
    x: int,
    y: int,
    w: int,
    h: int,
    r: int,
    c: int,
)
    requires
        0 <= x,
        0 <= y,
        0 <= r < h,
        0 <= c < w * ps,
        x + w <= aw,
        y + h <= ah,
        1 <= ps,
    ensures
        0 <= (y + r) * aw,
        (y + r) * aw + x + w <= aw * ah,
        ((y + r) * aw + x) * ps + w * ps <= aw * ah * ps,
        0 <= dest_off(aw, ps, x, y, r, c) < aw * ah * ps,
{
    assert(0 <= (y + r) * aw) by (nonlinear_arith)
        requires 0 <= y, 0 <= r, 0 <= x, x + w <= aw, 0 <= c < w * ps, 1 <= ps
    ;
    assert((y + r) * aw + x + w <= aw * ah) by (nonlinear_arith)
        requires 0 <= y, 0 <= r < h, y + h <= ah, 0 <= x, x + w <= aw, 0 <= c < w * ps, 1 <= ps
    ;
    assert(((y + r) * aw + x) * ps + w * ps <= aw * ah * ps) by (nonlinear_arith)
        requires (y + r) * aw + x + w <= aw * ah, 1 <= ps
    ;
    assert(0 <= dest_off(aw, ps, x, y, r, c) < aw * ah * ps) by (nonlinear_arith)
        requires
            0 <= (y + r) * aw,
            ((y + r) * aw + x) * ps + w * ps <= aw * ah * ps,
            0 <= x,
            1 <= ps,
            0 <= c < w * ps,
            dest_off(aw, ps, x, y, r, c) == ((y + r) * aw + x) * ps + c,
    ;
}

/// Two distinct cells of the copied block land on distinct atlas bytes.
pub proof fn lemma_dest_off_distinct(
    aw: int,
    ps: int,
    x: int,
    y: int,
    w: int,
    r1: int,
    c1: int,
    r2: int,
    c2: int,
)
    requires
        0 <= x,
        x + w <= aw,
        1 <= ps,
        0 <= c1 < w * ps,
        0 <= c2 < w * ps,
        0 <= r1,
        0 <= r2,
        r1 != r2 || c1 != c2,
    ensures
        dest_off(aw, ps, x, y, r1, c1) != dest_off(aw, ps, x, y, r2, c2),
{
    if r1 == r2 {
        assert(dest_off(aw, ps, x, y, r1, c1) != dest_off(aw, ps, x, y, r2, c2));
    } else {
        assert(((y + r1) * aw + x) * ps + c1 != ((y + r2) * aw + x) * ps + c2) by (nonlinear_arith)
            requires
                0 <= x,
                x + w <= aw,
                1 <= ps,
                0 <= c1 < w * ps,
                0 <= c2 < w * ps,
                r1 != r2,
        ;
    }
}

/// Offsets of source bytes stay inside a source buffer of `w * h * ps` bytes.
pub proof fn lemma_src_off_in_bounds(w: int, ps: int, h: int, r: int, c: int)
    requires
        0 <= r < h,
        0 <= c < w * ps,
    ensures
        0 <= src_off(w, ps, r, c) < w * h * ps,
        r * (w * ps) + w * ps <= w * h * ps,
{
    assert(r * (w * ps) + w * ps <= w * h * ps && 0 <= r * (w * ps)) by (nonlinear_arith)
        requires 0 <= r < h, 0 <= c < w * ps
    ;
}

} // verus!
