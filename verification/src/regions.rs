use vstd::prelude::*;
use crate::pixel::Pixel;
use crate::image_buf::Image;
use crate::image_buf::ImageView;
use crate::image_buf::lemma_flat_index;
use crate::image_buf::lemma_flat_index_bound;
use crate::image_buf::lemma_pixelwise_eq;

verus! {

/// A region mapping: one rectangular block of `width` by `height` pixels is
/// copied from `(src_x, src_y)` in a source image to `(dest_x, dest_y)` on the
/// canvas, rotated by 180 degrees when `rotated` is set.
#[derive(Clone, Copy, PartialEq, Eq, Structural, Debug)]
pub struct Region {
    pub dest_x: u32,
    pub dest_y: u32,
    pub src_x: u32,
    pub src_y: u32,
    pub width: u32,
    pub height: u32,
    pub rotated: bool,
}

/// Whether destination coordinate `(x, y)` lies inside the region's
/// destination rectangle.
pub open spec fn covers(r: Region, x: int, y: int) -> bool {
    r.dest_x <= x < r.dest_x + r.width && r.dest_y <= y < r.dest_y + r.height
}

/// The source pixel the region contributes at destination coordinate `(x, y)`:
/// the straight copy of the matching offset, or, when rotated, the offset
/// reflected about the block's center.
pub open spec fn source_pixel(r: Region, src: ImageView, x: int, y: int) -> Pixel {
    if r.rotated {
        src.pixel(
            r.src_x + (r.width - 1) - (x - r.dest_x),
            r.src_y + (r.height - 1) - (y - r.dest_y),
        )
    } else {
        src.pixel(r.src_x + (x - r.dest_x), r.src_y + (y - r.dest_y))
    }
}

/// The region's source rectangle lies within the source image.
pub open spec fn region_fits_src(r: Region, src: ImageView) -> bool {
    r.src_x + r.width <= src.width && r.src_y + r.height <= src.height
}

/// The region's destination rectangle lies within the destination image.
pub open spec fn region_fits_dest(r: Region, dest: ImageView) -> bool {
    r.dest_x + r.width <= dest.width && r.dest_y + r.height <= dest.height
}

/// The canvas after one region is applied: covered coordinates take the
/// region's source pixel, every other pixel keeps its value.
pub open spec fn applied(r: Region, src: ImageView, dest: ImageView) -> ImageView {
    ImageView {
        width: dest.width,
        height: dest.height,
        pixels: Seq::new(
            dest.pixels.len(),
            |i: int|
                if covers(r, i % dest.width as int, i / dest.width as int) {
                    source_pixel(r, src, i % dest.width as int, i / dest.width as int)
                } else {
                    dest.pixels[i]
                },
        ),
    }
}

/// The canvas after a whole table of regions is applied, in table order:
/// entry 0 first, later entries overwriting earlier ones where they overlap.
pub open spec fn applied_all(rs: Seq<Region>, src: ImageView, dest: ImageView) -> ImageView
    decreases rs.len(),
{
    if rs.len() == 0 {
        dest
    } else {
        applied(rs.last(), src, applied_all(rs.drop_last(), src, dest))
    }
}

/// Whether any region of the table covers destination coordinate `(x, y)`.
pub open spec fn covered_by(rs: Seq<Region>, x: int, y: int) -> bool {
    exists|i: int| 0 <= i < rs.len() && covers(rs[i], x, y)
}

/// The index of the last region of the table that covers `(x, y)`; that
/// region decides the final pixel there.
pub open spec fn last_cover(rs: Seq<Region>, x: int, y: int) -> int
    decreases rs.len(),
{
    if rs.len() == 0 {
        0
    } else if covers(rs.last(), x, y) {
        rs.len() - 1
    } else {
        last_cover(rs.drop_last(), x, y)
    }
}

/// Reads one pixel of `applied` back at coordinate level.
pub proof fn lemma_applied_pixel(r: Region, src: ImageView, dest: ImageView, x: int, y: int)
    requires
        dest.wf(),
        dest.in_bounds(x, y),
    ensures
        applied(r, src, dest).pixel(x, y) == if covers(r, x, y) {
            source_pixel(r, src, x, y)
        } else {
            dest.pixel(x, y)
        },
    {
    lemma_flat_index_bound(dest.width as int, dest.height as int, x, y);
    lemma_flat_index(dest.width as int, x, y);
}

/// What a whole table leaves at coordinate `(x, y)`: the pixel contributed by
/// the last covering region, or the untouched destination pixel when no
/// region covers the coordinate. Also: applying a table never changes the
/// canvas dimensions.
pub proof fn lemma_applied_all_pixel(rs: Seq<Region>, src: ImageView, dest: ImageView, x: int, y: int)
    requires
        dest.wf(),
        dest.in_bounds(x, y),
    ensures
        applied_all(rs, src, dest).width == dest.width,
        applied_all(rs, src, dest).height == dest.height,
        applied_all(rs, src, dest).wf(),
        covered_by(rs, x, y) ==> 0 <= last_cover(rs, x, y) < rs.len()
            && covers(rs[last_cover(rs, x, y)], x, y)
            && applied_all(rs, src, dest).pixel(x, y)
                == source_pixel(rs[last_cover(rs, x, y)], src, x, y),
        !covered_by(rs, x, y) ==> applied_all(rs, src, dest).pixel(x, y) == dest.pixel(x, y),
    decreases rs.len(),
    {
    if rs.len() > 0 {
        let prefix = rs.drop_last();
        lemma_applied_all_pixel(prefix, src, dest, x, y);
        let mid = applied_all(prefix, src, dest);
        lemma_applied_pixel(rs.last(), src, mid, x, y);
        assert(forall|i: int| 0 <= i < prefix.len() ==> prefix[i] == rs[i]);
        if covers(rs.last(), x, y) {
            assert(covers(rs[rs.len() - 1], x, y));
            assert(covered_by(rs, x, y));
        } else {
            if covered_by(prefix, x, y) {
                let i = choose|i: int| 0 <= i < prefix.len() && covers(prefix[i], x, y);
                assert(covers(rs[i], x, y));
                assert(covered_by(rs, x, y));
                assert(last_cover(rs, x, y) == last_cover(prefix, x, y));
            } else if covered_by(rs, x, y) {
                let i = choose|i: int| 0 <= i < rs.len() && covers(rs[i], x, y);
                assert(i < rs.len() - 1 && covers(prefix[i], x, y));
                assert(false);
            }
        }
    }
}

/// Dimensions and well-formedness survive a whole table application.
pub proof fn lemma_applied_all_dims(rs: Seq<Region>, src: ImageView, dest: ImageView)
    requires
        dest.wf(),
    ensures
        applied_all(rs, src, dest).width == dest.width,
        applied_all(rs, src, dest).height == dest.height,
        applied_all(rs, src, dest).wf(),
    decreases rs.len(),
    {
    if rs.len() > 0 {
        lemma_applied_all_dims(rs.drop_last(), src, dest);
    }
}

/// The plain region mapping described by a destination origin, a source
/// origin and a block size.
pub open spec fn plain_region(dest_pos: (u32, u32), src_pos: (u32, u32), size: (u32, u32)) -> Region {
    Region {
        dest_x: dest_pos.0,
        dest_y: dest_pos.1,
        src_x: src_pos.0,
        src_y: src_pos.1,
        width: size.0,
        height: size.1,
        rotated: false,
    }
}

/// The 180-degree-rotated region mapping with the same rectangles.
pub open spec fn rotated_region(dest_pos: (u32, u32), src_pos: (u32, u32), size: (u32, u32)) -> Region {
    Region {
        dest_x: dest_pos.0,
        dest_y: dest_pos.1,
        src_x: src_pos.0,
        src_y: src_pos.1,
        width: size.0,
        height: size.1,
        rotated: true,
    }
}

/// Rotating a block 180 degrees twice reproduces the original block: when a
/// rotated region `r1` carries a block of `src` onto a canvas, and a rotated
/// region `r2` of the same size carries that block onward from where `r1` put
/// it, the offset `(dx, dy)` of `r2`'s destination block holds the offset
/// `(dx, dy)` of `r1`'s source block, unrotated.
pub proof fn lemma_rotated_copy_involution(
    src: ImageView,
    mid0: ImageView,
    out0: ImageView,
    r1: Region,
    r2: Region,
    dx: int,
    dy: int,
)
    requires
        r1.rotated,
        r2.rotated,
        r2.width == r1.width,
        r2.height == r1.height,
        r2.src_x == r1.dest_x,
        r2.src_y == r1.dest_y,
        mid0.wf(),
        out0.wf(),
        region_fits_dest(r1, mid0),
        region_fits_dest(r2, out0),
        0 <= dx < r1.width,
        0 <= dy < r1.height,
    ensures
        applied(r2, applied(r1, src, mid0), out0).pixel(r2.dest_x + dx, r2.dest_y + dy)
            == src.pixel(r1.src_x + dx, r1.src_y + dy),
    {
    let mid = applied(r1, src, mid0);
    let x2 = r2.dest_x + dx;
    let y2 = r2.dest_y + dy;
    lemma_applied_pixel(r2, mid, out0, x2, y2);
    assert(covers(r2, x2, y2));
    let mx = r2.src_x + (r2.width - 1) - dx;
    let my = r2.src_y + (r2.height - 1) - dy;
    assert(applied(r2, mid, out0).pixel(x2, y2) == mid.pixel(mx, my));
    lemma_applied_pixel(r1, src, mid0, mx, my);
    assert(covers(r1, mx, my));
}

/// The columns of a region already copied after `cols` full columns and
/// `rows` pixels of the next column have been transcribed.
spec fn partially_covered(r: Region, cols: int, rows: int, x: int, y: int) -> bool {
    (r.dest_x <= x < r.dest_x + cols && r.dest_y <= y < r.dest_y + r.height)
    || (x == r.dest_x + cols && r.dest_y <= y < r.dest_y + rows)
}

/// Copies the `size` block at `src_pos` of `src` onto the block at
/// `dest_pos` of `dest`, pixel for pixel, without any blending.
pub fn copy_region(src: &Image, dest: &mut Image, dest_pos: (u32, u32), src_pos: (u32, u32), size: (u32, u32))
    requires
        src@.wf(),
        old(dest)@.wf(),
        src_pos.0 + size.0 <= src@.width,
        src_pos.1 + size.1 <= src@.height,
        dest_pos.0 + size.0 <= old(dest)@.width,
        dest_pos.1 + size.1 <= old(dest)@.height,
    ensures
        final(dest)@ == applied(plain_region(dest_pos, src_pos, size), src@, old(dest)@),
{
    let ghost reg = plain_region(dest_pos, src_pos, size);
    let mut dx: u32 = 0;
    while dx < size.0
        invariant
            dx <= size.0,
            src@.wf(),
            dest@.wf(),
            dest@.width == old(dest)@.width,
            dest@.height == old(dest)@.height,
            reg == plain_region(dest_pos, src_pos, size),
            src_pos.0 + size.0 <= src@.width,
            src_pos.1 + size.1 <= src@.height,
            dest_pos.0 + size.0 <= old(dest)@.width,
            dest_pos.1 + size.1 <= old(dest)@.height,
            forall|x: int, y: int| old(dest)@.in_bounds(x, y)
                ==> dest@.pixel(x, y) == (if partially_covered(reg, dx as int, 0, x, y) {
                    source_pixel(reg, src@, x, y)
                } else {
                    old(dest)@.pixel(x, y)
                }),
        decreases size.0 - dx,
    {
        let mut dy: u32 = 0;
        while dy < size.1
            invariant
                dx < size.0,
                dy <= size.1,
                src@.wf(),
                dest@.wf(),
                dest@.width == old(dest)@.width,
                dest@.height == old(dest)@.height,
                reg == plain_region(dest_pos, src_pos, size),
                src_pos.0 + size.0 <= src@.width,
                src_pos.1 + size.1 <= src@.height,
                dest_pos.0 + size.0 <= old(dest)@.width,
                dest_pos.1 + size.1 <= old(dest)@.height,
                forall|x: int, y: int| old(dest)@.in_bounds(x, y)
                    ==> dest@.pixel(x, y) == (if partially_covered(reg, dx as int, dy as int, x, y) {
                        source_pixel(reg, src@, x, y)
                    } else {
                        old(dest)@.pixel(x, y)
                    }),
            decreases size.1 - dy,
        {
            let p = src.get(src_pos.0 + dx, src_pos.1 + dy);
            dest.set(dest_pos.0 + dx, dest_pos.1 + dy, p);
            dy = dy + 1;
        }
        dx = dx + 1;
    }
    proof {
        let result = applied(reg, src@, old(dest)@);
        assert forall|x: int, y: int| dest@.in_bounds(x, y)
            implies dest@.pixel(x, y) == result.pixel(x, y) by {
            lemma_applied_pixel(reg, src@, old(dest)@, x, y);
        }
        lemma_pixelwise_eq(dest@, result);
    }
}

/// Copies the `size` block at `src_pos` of `src` onto the block at
/// `dest_pos` of `dest`, rotated 180 degrees: the destination offset
/// `(dx, dy)` receives the source offset `(width-1-dx, height-1-dy)`.
pub fn copy_region_rotated_180(src: &Image, dest: &mut Image, dest_pos: (u32, u32), src_pos: (u32, u32), size: (u32, u32))
    requires
        src@.wf(),
        old(dest)@.wf(),
        src_pos.0 + size.0 <= src@.width,
        src_pos.1 + size.1 <= src@.height,
        dest_pos.0 + size.0 <= old(dest)@.width,
        dest_pos.1 + size.1 <= old(dest)@.height,
    ensures
        final(dest)@ == applied(rotated_region(dest_pos, src_pos, size), src@, old(dest)@),
{
    let ghost reg = rotated_region(dest_pos, src_pos, size);
    let mut dx: u32 = 0;
    while dx < size.0
        invariant
            dx <= size.0,
            src@.wf(),
            dest@.wf(),
            dest@.width == old(dest)@.width,
            dest@.height == old(dest)@.height,
            reg == rotated_region(dest_pos, src_pos, size),
            src_pos.0 + size.0 <= src@.width,
            src_pos.1 + size.1 <= src@.height,
            dest_pos.0 + size.0 <= old(dest)@.width,
            dest_pos.1 + size.1 <= old(dest)@.height,
            forall|x: int, y: int| old(dest)@.in_bounds(x, y)
                ==> dest@.pixel(x, y) == (if partially_covered(reg, dx as int, 0, x, y) {
                    source_pixel(reg, src@, x, y)
                } else {
                    old(dest)@.pixel(x, y)
                }),
        decreases size.0 - dx,
    {
        let mut dy: u32 = 0;
        while dy < size.1
            invariant
                dx < size.0,
                dy <= size.1,
                src@.wf(),
                dest@.wf(),
                dest@.width == old(dest)@.width,
                dest@.height == old(dest)@.height,
                reg == rotated_region(dest_pos, src_pos, size),
                src_pos.0 + size.0 <= src@.width,
                src_pos.1 + size.1 <= src@.height,
                dest_pos.0 + size.0 <= old(dest)@.width,
                dest_pos.1 + size.1 <= old(dest)@.height,
                forall|x: int, y: int| old(dest)@.in_bounds(x, y)
                    ==> dest@.pixel(x, y) == (if partially_covered(reg, dx as int, dy as int, x, y) {
                        source_pixel(reg, src@, x, y)
                    } else {
                        old(dest)@.pixel(x, y)
                    }),
            decreases size.1 - dy,
        {
            let p = src.get(src_pos.0 + size.0 - 1 - dx, src_pos.1 + size.1 - 1 - dy);
            dest.set(dest_pos.0 + dx, dest_pos.1 + dy, p);
            dy = dy + 1;
        }
        dx = dx + 1;
    }
    proof {
        let result = applied(reg, src@, old(dest)@);
        assert forall|x: int, y: int| dest@.in_bounds(x, y)
            implies dest@.pixel(x, y) == result.pixel(x, y) by {
            lemma_applied_pixel(reg, src@, old(dest)@, x, y);
        }
        lemma_pixelwise_eq(dest@, result);
    }
}

/// Applies one region mapping, dispatching on its `rotated` flag.
pub fn apply_region(src: &Image, dest: &mut Image, r: Region)
    requires
        src@.wf(),
        old(dest)@.wf(),
        region_fits_src(r, src@),
        region_fits_dest(r, old(dest)@),
    ensures
        final(dest)@ == applied(r, src@, old(dest)@),
{
    if r.rotated {
        copy_region_rotated_180(src, dest, (r.dest_x, r.dest_y), (r.src_x, r.src_y), (r.width, r.height));
        proof {
            assert(rotated_region((r.dest_x, r.dest_y), (r.src_x, r.src_y), (r.width, r.height)) == r);
        }
    } else {
        copy_region(src, dest, (r.dest_x, r.dest_y), (r.src_x, r.src_y), (r.width, r.height));
        proof {
            assert(plain_region((r.dest_x, r.dest_y), (r.src_x, r.src_y), (r.width, r.height)) == r);
        }
    }
}

/// Applies a whole region table, in table order.
pub fn apply_regions(src: &Image, dest: &mut Image, regions: &Vec<Region>)
    requires
        src@.wf(),
        old(dest)@.wf(),
        forall|i: int| 0 <= i < regions@.len()
            ==> region_fits_src(#[trigger] regions@[i], src@)
                && region_fits_dest(regions@[i], old(dest)@),
    ensures
        final(dest)@ == applied_all(regions@, src@, old(dest)@),
{
    let n: usize = regions.len();
    let mut i: usize = 0;
    while i < n
        invariant
            i <= n,
            n == regions@.len(),
            src@.wf(),
            old(dest)@.wf(),
            dest@.wf(),
            dest@.width == old(dest)@.width,
            dest@.height == old(dest)@.height,
            forall|j: int| 0 <= j < regions@.len()
                ==> region_fits_src(#[trigger] regions@[j], src@)
                    && region_fits_dest(regions@[j], old(dest)@),
            dest@ == applied_all(regions@.take(i as int), src@, old(dest)@),
        decreases n - i,
    {
        let r = regions[i];
        apply_region(src, dest, r);
        proof {
            let taken = regions@.take(i as int + 1);
            assert(taken.drop_last() =~= regions@.take(i as int));
            assert(taken.last() == regions@[i as int]);
            lemma_applied_all_dims(regions@.take(i as int), src@, old(dest)@);
        }
        i = i + 1;
    }
    proof {
        assert(regions@.take(n as int) =~= regions@);
    }
}

} // verus!
