//! Similarity Evaluator: scores a pair of frames with the root-mean-squared
//! structural metric of the `image_compare` crate, after checking that the
//! two frames have the same dimensions.

use vstd::prelude::*;
use crate::frame::{Frame, Identity};

verus! {

/// The IEEE-754 bit pattern of the score that
/// `image_compare::gray_similarity_structure` returns under
/// `Algorithm::RootMeanSquared` for two grayscale buffers of the given
/// dimensions. The score depends on the dimensions and the two buffers
/// alone: the metric is stateless and deterministic.
pub uninterp spec fn rms_score_bits(w: u32, h: u32, a: Seq<u8>, b: Seq<u8>) -> u64;

/// Bit pattern of the score a frame earns against an identical frame: the
/// metric's identity value, exactly 1.0.
pub const IDENTITY_SCORE_BITS: u64 = 0x3ff0_0000_0000_0000;

/// A similarity score, carried as the raw bit pattern of the metric's
/// floating-point value. Scores are only ever compared, never computed on,
/// so the bits are all the library needs.
#[derive(Clone, Copy, Debug, PartialEq, Eq, Structural)]
pub struct SimilarityScore {
    pub bits: u64,
}

/// A comparison that could not happen: the two named frames differ in width
/// or height.
#[derive(Debug, PartialEq, Eq)]
pub struct DimensionMismatch {
    pub left: Identity,
    pub right: Identity,
}

impl Clone for DimensionMismatch {
    fn clone(&self) -> (r: Self)
        ensures
            r == *self,
    {
        DimensionMismatch { left: self.left.clone(), right: self.right.clone() }
    }
}

/// Two frames can be scored against each other exactly when their
/// dimensions agree.
pub open spec fn compatible(a: Frame, b: Frame) -> bool {
    a.width == b.width && a.height == b.height
}

/// The score of a pair of compatible frames, as raw bits.
pub open spec fn score_of(a: Frame, b: Frame) -> u64 {
    rms_score_bits(a.width, a.height, a.pixels@, b.pixels@)
}

/// Relies on `image_compare::gray_similarity_structure` with
/// `Algorithm::RootMeanSquared`: on frames of equal non-zero dimensions it
/// returns `Ok`, the score is a pure function of the dimensions and the two
/// buffers, and a buffer against itself scores exactly 1.0 (every per-pixel
/// difference is zero, so the crate computes `1.0 - sqrt(0.0)`; its own
/// tests pin that value). Also relies on `image::ImageBuffer::from_raw`,
/// which accepts any buffer of exactly `width * height` bytes.
#[verifier::external_body]
pub(crate) fn rms_score_raw(a: &Frame, b: &Frame) -> (r: u64)
    requires
        a.wf(),
        b.wf(),
        compatible(*a, *b),
    ensures
        r == rms_score_bits(a.width, a.height, a.pixels@, b.pixels@),
        a.pixels@ == b.pixels@ ==> r == IDENTITY_SCORE_BITS,
{
    let left = image::GrayImage::from_raw(a.width, a.height, a.pixels.clone()).unwrap();
    let right = image::GrayImage::from_raw(b.width, b.height, b.pixels.clone()).unwrap();
    let sim = image_compare::gray_similarity_structure(
        &image_compare::Algorithm::RootMeanSquared,
        &left,
        &right,
    ).unwrap();
    sim.score.to_bits()
}

/// How the Best-Match Selector ranks scores. Both modes are explicit
/// because the metrics in use disagree on what "best" means: plain
/// similarity metrics want the greatest raw score, signed distance-like
/// metrics want the greatest magnitude whatever the sign.
#[derive(Clone, Copy, Debug, PartialEq, Eq, Structural)]
pub enum Policy {
    /// Prefer the greatest raw score.
    MaximizeRaw,
    /// Prefer the greatest absolute score.
    MaximizeAbsolute,
}

/// The sign bit of an IEEE-754 double.
pub const SIGN_BIT: u64 = 0x8000_0000_0000_0000;

/// Everything but the sign bit of an IEEE-754 double.
pub const MAGNITUDE_MASK: u64 = 0x7fff_ffff_ffff_ffff;

/// The ranking key of a score under a policy. Unsigned comparison of keys
/// agrees with the IEEE-754 total order on the encoded values
/// (`MaximizeRaw`: negative patterns are reversed below the positive ones)
/// or on their absolute values (`MaximizeAbsolute`: the sign bit is
/// cleared, and the total order on non-negative patterns is plain bit
/// order).
pub open spec fn spec_score_key(policy: Policy, bits: u64) -> u64 {
    match policy {
        Policy::MaximizeRaw => if bits >= SIGN_BIT {
            !bits
        } else {
            bits | SIGN_BIT
        },
        Policy::MaximizeAbsolute => bits & MAGNITUDE_MASK,
    }
}

/// Computes the ranking key of a score under a policy.
pub fn score_key(policy: Policy, bits: u64) -> (k: u64)
    ensures
        k == spec_score_key(policy, bits),
{
    match policy {
        Policy::MaximizeRaw => if bits >= SIGN_BIT {
            !bits
        } else {
            bits | SIGN_BIT
        },
        Policy::MaximizeAbsolute => bits & MAGNITUDE_MASK,
    }
}

/// Scores two frames, or reports which two frames were incompatible.
///
/// Identical frames earn exactly the metric's identity value.
pub fn compare_frames(a: &Frame, b: &Frame) -> (r: Result<SimilarityScore, DimensionMismatch>)
    requires
        a.wf(),
        b.wf(),
    ensures
        r is Ok <==> compatible(*a, *b),
        r matches Ok(s) ==> s.bits == score_of(*a, *b),
        compatible(*a, *b) && a.pixels@ == b.pixels@ ==> r == Ok::<
            SimilarityScore,
            DimensionMismatch,
        >(SimilarityScore { bits: IDENTITY_SCORE_BITS }),
        r matches Err(e) ==> e.left == a.identity && e.right == b.identity,
{
    if a.width == b.width && a.height == b.height {
        let bits = rms_score_raw(a, b);
        Ok(SimilarityScore { bits })
    } else {
        Err(DimensionMismatch { left: a.identity.clone(), right: b.identity.clone() })
    }
}

} // verus!
