//! What the transform should do to one image: skip images at or below the
//! size floor, and otherwise derive the target dimensions from the source
//! dimensions and the captured configuration. The pixel work itself —
//! decoding, resampling, encoding — is the external image collaborator's;
//! this module fixes every decision that feeds it.
use vstd::prelude::*;

use vstd::arithmetic::div_mod::{lemma_div_is_ordered, lemma_div_multiples_vanish};
use vstd::arithmetic::mul::lemma_mul_inequality;

use crate::utils::{Dimensions, Resize};

verus! {

/// Sources at or below this many pixels on either side are left alone.
pub const MIN_SHRINK_DIMENSION: usize = 100;

/// What a worker should do with one image of the given source dimensions.
#[derive(Clone, Copy, PartialEq, Eq, Structural, Debug)]
pub enum ShrinkDecision {
    /// The source is at or below the size floor: write nothing.
    Skip,
    /// Resample the source to these target dimensions.
    Resample(Dimensions),
}

/// The target width or height for one source extent: the configured
/// extent under absolute resizing, the percentage of the source extent
/// (rounded down) under relative resizing.
pub open spec fn spec_target_extent(src: int, configured: int, method: Resize, rel: int) -> int {
    match method {
        Resize::Absolute => configured,
        Resize::Relative => src * rel / 100,
    }
}

/// Scales one extent to `rel` percent, rounding down.
fn scale_extent(src: usize, rel: u32) -> (r: usize)
    requires
        1 <= rel <= 100,
    ensures
        r == (src as int) * (rel as int) / 100,
        r <= src,
{
    proof {
        lemma_mul_inequality(rel as int, 100, src as int);
        lemma_div_multiples_vanish(src as int, 100);
        lemma_div_is_ordered((src as int) * (rel as int), (src as int) * 100, 100);
        assert((src as int) * (rel as int) <= (src as int) * 100);
        assert((src as int) * 100 == 100 * (src as int));
        assert((src as int) * (rel as int) / 100 <= src as int);
    }
    let wide: u128 = (src as u128) * (rel as u128) / 100;
    wide as usize
}

/// Decides what to do with one image: sources at or below
/// [`MIN_SHRINK_DIMENSION`] on either side are skipped, anything larger is
/// resampled to the configured dimensions (absolute mode) or to
/// `dims_relative` percent of its own dimensions, rounded down (relative
/// mode).
pub fn shrink_decision(
    src_width: usize,
    src_height: usize,
    resize_method: Resize,
    dims: &Dimensions,
    dims_relative: u32,
) -> (r: ShrinkDecision)
    requires
        1 <= dims_relative <= 100,
    ensures
        r is Skip <==> (src_width <= MIN_SHRINK_DIMENSION || src_height <= MIN_SHRINK_DIMENSION),
        r matches ShrinkDecision::Resample(d) ==> {
            &&& d.width == spec_target_extent(
                src_width as int,
                dims.width as int,
                resize_method,
                dims_relative as int,
            )
            &&& d.height == spec_target_extent(
                src_height as int,
                dims.height as int,
                resize_method,
                dims_relative as int,
            )
        },
{
    if src_width <= MIN_SHRINK_DIMENSION || src_height <= MIN_SHRINK_DIMENSION {
        return ShrinkDecision::Skip;
    }
    match resize_method {
        Resize::Absolute => ShrinkDecision::Resample(Dimensions { width: dims.width, height: dims.height }),
        Resize::Relative => ShrinkDecision::Resample(
            Dimensions {
                width: scale_extent(src_width, dims_relative),
                height: scale_extent(src_height, dims_relative),
            },
        ),
    }
}

} // verus!
