use vstd::prelude::*;
use vstd::arithmetic::div_mod::lemma_div_pos_is_pos;
use vstd::arithmetic::div_mod::lemma_multiply_divide_lt;
use vstd::arithmetic::mul::lemma_mul_is_commutative;
use vstd::arithmetic::mul::lemma_mul_is_distributive_add_other_way;
use vstd::arithmetic::mul::lemma_mul_strict_inequality;
use vstd::arithmetic::mul::lemma_mul_upper_bound;
use crate::pixel::Pixel;
use crate::image_buf::Image;
use crate::image_buf::ImageView;
use crate::image_buf::lemma_flat_index;
use crate::image_buf::lemma_flat_index_bound;

verus! {

/// Nearest-neighbor choice: the source coordinate sampled for destination
/// coordinate `d`, under independent scale factors: `floor(d * source / target)`.
pub open spec fn nearest(d: int, source: nat, target: nat) -> int {
    d * source / target as int
}

/// The image resampled to `target_width` by `target_height`: each destination
/// pixel takes the single nearest source pixel, with no blending.
pub open spec fn resampled(src: ImageView, target_width: nat, target_height: nat) -> ImageView {
    ImageView {
        width: target_width,
        height: target_height,
        pixels: Seq::new(
            target_width * target_height,
            |i: int| src.pixel(
                nearest(i % target_width as int, src.width, target_width),
                nearest(i / target_width as int, src.height, target_height),
            ),
        ),
    }
}

/// The nearest source coordinate of an in-range destination coordinate lies
/// within the source extent.
pub proof fn lemma_nearest_in_range(d: int, source: int, target: int)
    requires
        0 <= d < target,
        1 <= source,
    ensures
        0 <= d * source / target < source,
    {
    lemma_mul_strict_inequality(d, target, source);
    lemma_multiply_divide_lt(d * source, target, source);
    assert(0 <= d * source) by (nonlinear_arith)
        requires
            0 <= d,
            0 <= source,
    ;
    lemma_div_pos_is_pos(d * source, target);
}

/// Resizes `src` to exactly `target_width` by `target_height` with
/// nearest-neighbor sampling. Deterministic: the result is a function of the
/// source pixels and the target size alone.
pub fn resample(src: &Image, target_width: u32, target_height: u32) -> (out: Image)
    requires
        src@.wf(),
        src@.width >= 1,
        src@.height >= 1,
        target_width >= 1,
        target_height >= 1,
        target_width * target_height <= usize::MAX,
    ensures
        out@ == resampled(src@, target_width as nat, target_height as nat),
        out@.wf(),
        out@.width == target_width,
        out@.height == target_height,
{
    let ghost goal = resampled(src@, target_width as nat, target_height as nat);
    let sw = src.width();
    let sh = src.height();
    let mut pixels: Vec<Pixel> = Vec::new();
    let mut y: u32 = 0;
    while y < target_height
        invariant
            y <= target_height,
            src@.wf(),
            src@.width == sw,
            src@.height == sh,
            sw >= 1,
            sh >= 1,
            target_width >= 1,
            target_height >= 1,
            target_width * target_height <= usize::MAX,
            goal == resampled(src@, target_width as nat, target_height as nat),
            pixels@.len() == y * target_width,
            forall|j: int| 0 <= j < pixels@.len() ==> pixels@[j] == goal.pixels[j],
        decreases target_height - y,
    {
        let mut x: u32 = 0;
        while x < target_width
            invariant
                y < target_height,
                x <= target_width,
                src@.wf(),
                src@.width == sw,
                src@.height == sh,
                sw >= 1,
                sh >= 1,
                target_width >= 1,
                target_height >= 1,
                target_width * target_height <= usize::MAX,
                goal == resampled(src@, target_width as nat, target_height as nat),
                pixels@.len() == y * target_width + x,
                forall|j: int| 0 <= j < pixels@.len() ==> pixels@[j] == goal.pixels[j],
            decreases target_width - x,
        {
            proof {
                lemma_nearest_in_range(x as int, sw as int, target_width as int);
                lemma_nearest_in_range(y as int, sh as int, target_height as int);
                lemma_flat_index(target_width as int, x as int, y as int);
                lemma_flat_index_bound(target_width as int, target_height as int, x as int, y as int);
                lemma_mul_upper_bound(x as int, u32::MAX as int, sw as int, u32::MAX as int);
                lemma_mul_upper_bound(y as int, u32::MAX as int, sh as int, u32::MAX as int);
            }
            let sx = ((x as u64) * (sw as u64) / (target_width as u64)) as u32;
            let sy = ((y as u64) * (sh as u64) / (target_height as u64)) as u32;
            let p = src.get(sx, sy);
            pixels.push(p);
            x = x + 1;
        }
        proof {
            lemma_mul_is_distributive_add_other_way(target_width as int, y as int, 1);
        }
        y = y + 1;
    }
    let out = Image { width: target_width, height: target_height, pixels };
    proof {
        lemma_mul_is_commutative(target_width as int, target_height as int);
        assert(out@.pixels =~= goal.pixels);
        assert(out@ =~= goal);
    }
    out
}

} // verus!
