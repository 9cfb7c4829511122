use vstd::prelude::*;
use crate::image_buf::Image;
use crate::image_buf::ImageView;
use crate::codec::decode_of;
use crate::codec::decode_rgba;
use crate::codec::encode_png;
use crate::codec::png_of;
use crate::compose::BACK_SIZE;
use crate::compose::FRONT_SIZE;
use crate::compose::compose;
use crate::compose::skin_view;
use crate::resample::resample;
use crate::resample::resampled;

verus! {

/// Which of the two source inputs a decode failure concerns.
#[derive(Clone, Copy, PartialEq, Eq, Structural, Debug)]
pub enum SourceSlot {
    Front,
    Back,
}

/// The failures the pipeline surfaces.
#[derive(Clone, Copy, PartialEq, Eq, Structural, Debug)]
pub enum SkinError {
    /// The output path exists and overwriting was not requested, or the
    /// output path is a directory.
    PathConflict,
    /// The named source is unreadable as an image: not a recognized or
    /// decodable raster format, or without a single pixel to sample.
    DecodeError(SourceSlot),
    /// The composited output could not be encoded or written out.
    EncodeError,
}

/// Decides, before any image work, whether the output path may be written:
/// an existing path is only overwritten on request, and a directory never.
pub fn check_output_path(exists: bool, is_dir: bool, overwrite: bool) -> (r: Result<(), SkinError>)
    ensures
        (is_dir || (exists && !overwrite)) ==> r == Err::<(), SkinError>(
            SkinError::PathConflict,
        ),
        !(is_dir || (exists && !overwrite)) ==> r == Ok::<(), SkinError>(()),
{
    if is_dir || (exists && !overwrite) {
        Err(SkinError::PathConflict)
    } else {
        Ok(())
    }
}

/// An ASCII upper-case letter folded to lower case; any other byte unchanged.
pub open spec fn ascii_lower(c: u8) -> u8 {
    if 65 <= c && c <= 90 {
        (c + 32) as u8
    } else {
        c
    }
}

/// Whether an extension spells `png`, compared case-insensitively: the three
/// bytes `p`, `n`, `g` in any case.
pub open spec fn is_png_extension(ext: Seq<u8>) -> bool {
    ext.len() == 3 && ascii_lower(ext[0]) == 112 && ascii_lower(ext[1]) == 110 && ascii_lower(
        ext[2],
    ) == 103
}

fn lower_byte(c: u8) -> (r: u8)
    ensures
        r == ascii_lower(c),
{
    if 65 <= c && c <= 90 {
        c + 32
    } else {
        c
    }
}

/// Whether the output path's extension warrants the non-fatal warning that
/// the file will be PNG data regardless: an extension is present and is not
/// `png` in any case. A missing extension warrants no warning.
pub fn extension_warning_needed(ext: &Option<Vec<u8>>) -> (warn: bool)
    ensures
        warn == match *ext {
            Some(e) => !is_png_extension(e@),
            None => false,
        },
{
    match ext {
        None => false,
        Some(v) => {
            if v.len() != 3 {
                true
            } else {
                !(lower_byte(v[0]) == 112 && lower_byte(v[1]) == 110 && lower_byte(v[2]) == 103)
            }
        },
    }
}

/// Whether the bytes decode to a usable source: a recognized image with at
/// least one pixel each way.
pub open spec fn decodes_usable(bytes: Seq<u8>) -> bool {
    &&& decode_of(bytes) is Some
    &&& decode_of(bytes).unwrap().width >= 1
    &&& decode_of(bytes).unwrap().height >= 1
}

/// Decodes an in-memory image file and resamples it to exactly the target
/// size with nearest-neighbor filtering.
pub fn decode_and_resize(bytes: &[u8], target_width: u32, target_height: u32) -> (r: Option<Image>)
    requires
        target_width >= 1,
        target_height >= 1,
        target_width * target_height <= usize::MAX,
    ensures
        r is Some <==> decodes_usable(bytes@),
        r is Some ==> r.unwrap()@ == resampled(
            decode_of(bytes@).unwrap(),
            target_width as nat,
            target_height as nat,
        ),
        r is Some ==> r.unwrap()@.wf() && r.unwrap()@.width == target_width
            && r.unwrap()@.height == target_height,
{
    let img = match decode_rgba(bytes) {
        Some(i) => i,
        None => {
            return None;
        },
    };
    if img.width() == 0 || img.height() == 0 {
        return None;
    }
    Some(resample(&img, target_width, target_height))
}

/// Loading is deterministic: what `decode_and_resize` hands back is pinned,
/// by its contract, to a function of the file bytes and the target size
/// alone, so two runs over the same bytes and size yield identical pixel
/// buffers.
pub proof fn lemma_load_deterministic(
    bytes: Seq<u8>,
    target_width: nat,
    target_height: nat,
    a: ImageView,
    b: ImageView,
)
    requires
        decodes_usable(bytes),
        a == resampled(decode_of(bytes).unwrap(), target_width, target_height),
        b == resampled(decode_of(bytes).unwrap(), target_width, target_height),
    ensures
        a == b,
    {
}

/// Runs the whole compositing pipeline on in-memory bytes: decode and
/// resample the front source to 44 by 44 and the back source to 32 by 32,
/// compose the 64-by-64 canvas, back regions first, front regions second,
/// and encode the canvas as PNG.
pub fn build_skin(front_bytes: &[u8], back_bytes: &[u8]) -> (r: Result<Vec<u8>, SkinError>)
    ensures
        !decodes_usable(front_bytes@) ==> r == Err::<Vec<u8>, SkinError>(
            SkinError::DecodeError(SourceSlot::Front),
        ),
        decodes_usable(front_bytes@) && !decodes_usable(back_bytes@) ==> r == Err::<
            Vec<u8>,
            SkinError,
        >(SkinError::DecodeError(SourceSlot::Back)),
        decodes_usable(front_bytes@) && decodes_usable(back_bytes@) ==> (r matches Ok(bytes)
            && bytes@ == png_of(
            skin_view(
                resampled(decode_of(front_bytes@).unwrap(), FRONT_SIZE as nat, FRONT_SIZE as nat),
                resampled(decode_of(back_bytes@).unwrap(), BACK_SIZE as nat, BACK_SIZE as nat),
            ),
        )),
{
    let front = match decode_and_resize(front_bytes, FRONT_SIZE, FRONT_SIZE) {
        Some(i) => i,
        None => {
            return Err(SkinError::DecodeError(SourceSlot::Front));
        },
    };
    let back = match decode_and_resize(back_bytes, BACK_SIZE, BACK_SIZE) {
        Some(i) => i,
        None => {
            return Err(SkinError::DecodeError(SourceSlot::Back));
        },
    };
    let canvas = compose(&front, &back);
    match encode_png(&canvas) {
        Some(bytes) => Ok(bytes),
        None => Err(SkinError::EncodeError),
    }
}

} // verus!
