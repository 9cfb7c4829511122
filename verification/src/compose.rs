use vstd::prelude::*;
use crate::image_buf::Image;
use crate::image_buf::ImageView;
use crate::image_buf::blank_view;
use crate::regions::Region;
use crate::regions::applied_all;
use crate::regions::apply_regions;
use crate::regions::covered_by;
use crate::regions::covers;
use crate::regions::last_cover;
use crate::regions::lemma_applied_all_dims;
use crate::regions::lemma_applied_all_pixel;
use crate::regions::plain_region;
use crate::regions::region_fits_dest;
use crate::regions::region_fits_src;
use crate::regions::rotated_region;
use crate::regions::source_pixel;

verus! {

/// Edge length of the output canvas.
pub const CANVAS_SIZE: u32 = 64;

/// Edge length the front source is resampled to.
pub const FRONT_SIZE: u32 = 44;

/// Edge length the back source is resampled to.
pub const BACK_SIZE: u32 = 32;

/// The fixed table of regions taken from the 32-by-32 back source: the
/// backward-facing faces of head, body, arms and legs.
pub open spec fn back_table() -> Seq<Region> {
    seq![
        plain_region((24, 8), (12, 0), (8, 8)),
        plain_region((32, 20), (12, 8), (8, 12)),
        plain_region((44, 52), (8, 8), (4, 12)),
        plain_region((52, 20), (20, 8), (4, 12)),
        plain_region((28, 52), (12, 20), (4, 12)),
        plain_region((12, 20), (16, 20), (4, 12)),
    ]
}

/// The fixed table of regions taken from the 44-by-44 front source: tops,
/// bottoms and forward-facing faces, the bottoms rotated 180 degrees.
pub open spec fn front_table() -> Seq<Region> {
    seq![
        plain_region((0, 0), (10, 0), (24, 16)),
        rotated_region((16, 0), (18, 16), (8, 8)),
        plain_region((16, 20), (14, 16), (16, 12)),
        plain_region((20, 16), (18, 12), (8, 4)),
        plain_region((28, 16), (18, 28), (8, 4)),
        plain_region((40, 20), (10, 16), (12, 12)),
        plain_region((44, 16), (14, 12), (4, 4)),
        rotated_region((48, 16), (14, 28), (4, 4)),
        plain_region((32, 52), (22, 16), (12, 12)),
        plain_region((36, 48), (26, 12), (4, 4)),
        rotated_region((40, 48), (26, 28), (4, 4)),
        plain_region((0, 20), (14, 28), (12, 12)),
        rotated_region((8, 16), (18, 40), (4, 4)),
        plain_region((4, 16), (18, 24), (4, 4)),
        plain_region((16, 52), (18, 28), (12, 12)),
        rotated_region((24, 48), (22, 40), (4, 4)),
        plain_region((20, 48), (22, 24), (4, 4)),
    ]
}

/// Every back-table region reads within a 32-by-32 source and writes within
/// a 64-by-64 canvas.
pub proof fn lemma_back_table_fits(src: ImageView, dest: ImageView)
    requires
        src.width == BACK_SIZE,
        src.height == BACK_SIZE,
        dest.width == CANVAS_SIZE,
        dest.height == CANVAS_SIZE,
    ensures
        forall|i: int| 0 <= i < back_table().len()
            ==> region_fits_src(#[trigger] back_table()[i], src)
                && region_fits_dest(back_table()[i], dest),
    {
}

/// Every front-table region reads within a 44-by-44 source and writes within
/// a 64-by-64 canvas.
pub proof fn lemma_front_table_fits(src: ImageView, dest: ImageView)
    requires
        src.width == FRONT_SIZE,
        src.height == FRONT_SIZE,
        dest.width == CANVAS_SIZE,
        dest.height == CANVAS_SIZE,
    ensures
        forall|i: int| 0 <= i < front_table().len()
            ==> region_fits_src(#[trigger] front_table()[i], src)
                && region_fits_dest(front_table()[i], dest),
    {
}

fn plain(dest_pos: (u32, u32), src_pos: (u32, u32), size: (u32, u32)) -> (r: Region)
    ensures
        r == plain_region(dest_pos, src_pos, size),
{
    Region {
        dest_x: dest_pos.0,
        dest_y: dest_pos.1,
        src_x: src_pos.0,
        src_y: src_pos.1,
        width: size.0,
        height: size.1,
        rotated: false,
    }
}

fn rotated(dest_pos: (u32, u32), src_pos: (u32, u32), size: (u32, u32)) -> (r: Region)
    ensures
        r == rotated_region(dest_pos, src_pos, size),
{
    Region {
        dest_x: dest_pos.0,
        dest_y: dest_pos.1,
        src_x: src_pos.0,
        src_y: src_pos.1,
        width: size.0,
        height: size.1,
        rotated: true,
    }
}

/// Builds the back region table.
pub fn back_regions() -> (v: Vec<Region>)
    ensures
        v@ == back_table(),
{
    let mut v: Vec<Region> = Vec::new();
    v.push(plain((24, 8), (12, 0), (8, 8)));
    v.push(plain((32, 20), (12, 8), (8, 12)));
    v.push(plain((44, 52), (8, 8), (4, 12)));
    v.push(plain((52, 20), (20, 8), (4, 12)));
    v.push(plain((28, 52), (12, 20), (4, 12)));
    v.push(plain((12, 20), (16, 20), (4, 12)));
    proof {
        assert(v@ =~= back_table());
    }
    v
}

/// Builds the front region table.
pub fn front_regions() -> (v: Vec<Region>)
    ensures
        v@ == front_table(),
{
    let mut v: Vec<Region> = Vec::new();
    v.push(plain((0, 0), (10, 0), (24, 16)));
    v.push(rotated((16, 0), (18, 16), (8, 8)));
    v.push(plain((16, 20), (14, 16), (16, 12)));
    v.push(plain((20, 16), (18, 12), (8, 4)));
    v.push(plain((28, 16), (18, 28), (8, 4)));
    v.push(plain((40, 20), (10, 16), (12, 12)));
    v.push(plain((44, 16), (14, 12), (4, 4)));
    v.push(rotated((48, 16), (14, 28), (4, 4)));
    v.push(plain((32, 52), (22, 16), (12, 12)));
    v.push(plain((36, 48), (26, 12), (4, 4)));
    v.push(rotated((40, 48), (26, 28), (4, 4)));
    v.push(plain((0, 20), (14, 28), (12, 12)));
    v.push(rotated((8, 16), (18, 40), (4, 4)));
    v.push(plain((4, 16), (18, 24), (4, 4)));
    v.push(plain((16, 52), (18, 28), (12, 12)));
    v.push(rotated((24, 48), (22, 40), (4, 4)));
    v.push(plain((20, 48), (22, 24), (4, 4)));
    proof {
        assert(v@ =~= front_table());
    }
    v
}

/// Applies every back-table region, sourced from the 32-by-32 back image.
pub fn copy_back_regions(src: &Image, dest: &mut Image)
    requires
        src@.wf(),
        src@.width == BACK_SIZE,
        src@.height == BACK_SIZE,
        old(dest)@.wf(),
        old(dest)@.width == CANVAS_SIZE,
        old(dest)@.height == CANVAS_SIZE,
    ensures
        final(dest)@ == applied_all(back_table(), src@, old(dest)@),
{
    let rs = back_regions();
    proof {
        lemma_back_table_fits(src@, old(dest)@);
    }
    apply_regions(src, dest, &rs);
}

/// Applies every front-table region, sourced from the 44-by-44 front image.
pub fn copy_front_regions(src: &Image, dest: &mut Image)
    requires
        src@.wf(),
        src@.width == FRONT_SIZE,
        src@.height == FRONT_SIZE,
        old(dest)@.wf(),
        old(dest)@.width == CANVAS_SIZE,
        old(dest)@.height == CANVAS_SIZE,
    ensures
        final(dest)@ == applied_all(front_table(), src@, old(dest)@),
{
    let rs = front_regions();
    proof {
        lemma_front_table_fits(src@, old(dest)@);
    }
    apply_regions(src, dest, &rs);
}

/// The assembled skin: a fully transparent 64-by-64 canvas, the back table
/// applied from the back source, then the front table applied from the front
/// source, later writes overwriting earlier ones.
pub open spec fn skin_view(front: ImageView, back: ImageView) -> ImageView {
    applied_all(
        front_table(),
        front,
        applied_all(back_table(), back, blank_view(CANVAS_SIZE as nat, CANVAS_SIZE as nat)),
    )
}

/// Composes two sources into a fresh 64-by-64 canvas under a caller-chosen
/// pair of layout tables: the back table is applied first, the front table
/// second, so front regions overwrite back regions wherever they overlap.
pub fn compose_with_tables(
    front: &Image,
    back: &Image,
    front_layout: &Vec<Region>,
    back_layout: &Vec<Region>,
) -> (canvas: Image)
    requires
        front@.wf(),
        back@.wf(),
        forall|i: int| 0 <= i < front_layout@.len()
            ==> region_fits_src(#[trigger] front_layout@[i], front@)
                && region_fits_dest(front_layout@[i], blank_view(CANVAS_SIZE as nat, CANVAS_SIZE as nat)),
        forall|i: int| 0 <= i < back_layout@.len()
            ==> region_fits_src(#[trigger] back_layout@[i], back@)
                && region_fits_dest(back_layout@[i], blank_view(CANVAS_SIZE as nat, CANVAS_SIZE as nat)),
    ensures
        canvas@ == applied_all(
            front_layout@,
            front@,
            applied_all(back_layout@, back@, blank_view(CANVAS_SIZE as nat, CANVAS_SIZE as nat)),
        ),
        canvas@.wf(),
        canvas@.width == CANVAS_SIZE,
        canvas@.height == CANVAS_SIZE,
{
    let mut canvas = Image::blank(CANVAS_SIZE, CANVAS_SIZE);
    apply_regions(back, &mut canvas, back_layout);
    proof {
        lemma_applied_all_dims(back_layout@, back@, blank_view(CANVAS_SIZE as nat, CANVAS_SIZE as nat));
    }
    apply_regions(front, &mut canvas, front_layout);
    proof {
        lemma_applied_all_dims(
            front_layout@,
            front@,
            applied_all(back_layout@, back@, blank_view(CANVAS_SIZE as nat, CANVAS_SIZE as nat)),
        );
    }
    canvas
}

/// Composes the two resampled sources into the 64-by-64 output canvas under
/// the fixed layout tables.
pub fn compose(front: &Image, back: &Image) -> (canvas: Image)
    requires
        front@.wf(),
        front@.width == FRONT_SIZE,
        front@.height == FRONT_SIZE,
        back@.wf(),
        back@.width == BACK_SIZE,
        back@.height == BACK_SIZE,
    ensures
        canvas@ == skin_view(front@, back@),
        canvas@.wf(),
        canvas@.width == CANVAS_SIZE,
        canvas@.height == CANVAS_SIZE,
{
    let front_layout = front_regions();
    let back_layout = back_regions();
    proof {
        lemma_front_table_fits(front@, blank_view(CANVAS_SIZE as nat, CANVAS_SIZE as nat));
        lemma_back_table_fits(back@, blank_view(CANVAS_SIZE as nat, CANVAS_SIZE as nat));
    }
    compose_with_tables(front, back, &front_layout, &back_layout)
}

/// The back layer is applied first and the front layer second: at any canvas
/// coordinate that some front-table region covers, the assembled skin shows
/// exactly the pixel contributed by the last such front region, whatever the
/// back source holds, and never a blend.
pub proof fn lemma_front_overwrites_back(front: ImageView, back: ImageView, x: int, y: int)
    requires
        covered_by(front_table(), x, y),
        0 <= x < CANVAS_SIZE,
        0 <= y < CANVAS_SIZE,
    ensures
        0 <= last_cover(front_table(), x, y) < front_table().len(),
        covers(front_table()[last_cover(front_table(), x, y)], x, y),
        skin_view(front, back).pixel(x, y)
            == source_pixel(front_table()[last_cover(front_table(), x, y)], front, x, y),
    {
    let base = applied_all(back_table(), back, blank_view(CANVAS_SIZE as nat, CANVAS_SIZE as nat));
    lemma_applied_all_dims(back_table(), back, blank_view(CANVAS_SIZE as nat, CANVAS_SIZE as nat));
    lemma_applied_all_pixel(front_table(), front, base, x, y);
}

/// A canvas coordinate covered by no region of either table keeps the blank
/// canvas's value: fully transparent black.
pub proof fn lemma_uncovered_stays_transparent(front: ImageView, back: ImageView, x: int, y: int)
    requires
        !covered_by(front_table(), x, y),
        !covered_by(back_table(), x, y),
        0 <= x < CANVAS_SIZE,
        0 <= y < CANVAS_SIZE,
    ensures
        skin_view(front, back).pixel(x, y) == crate::pixel::Pixel::transparent_spec(),
    {
    let blank = blank_view(CANVAS_SIZE as nat, CANVAS_SIZE as nat);
    let base = applied_all(back_table(), back, blank);
    lemma_applied_all_pixel(back_table(), back, blank, x, y);
    lemma_applied_all_pixel(front_table(), front, base, x, y);
    crate::image_buf::lemma_flat_index_bound(blank.width as int, blank.height as int, x, y);
}

} // verus!
