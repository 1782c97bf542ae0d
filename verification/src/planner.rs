//! Aspect-ratio-preserving dimension clamping.
//!
//! Given the pixel dimensions of a source image, [`plan`] returns target
//! dimensions whose longer side lies in the band
//! [`MIN_DIMENSION`, `MAX_DIMENSION`]. A source whose longer side already
//! lies in the band is returned unchanged; otherwise the longer side is
//! clamped to the nearer bound and the shorter side is scaled by the same
//! ratio, rounding down.

use vstd::prelude::*;

verus! {

/// Smallest allowed value for the longer side of a planned image.
pub const MIN_DIMENSION: u32 = 480;

/// Largest allowed value for the longer side of a planned image.
pub const MAX_DIMENSION: u32 = 720;

/// The longer of the two sides (the width when they are equal).
pub open spec fn longer_side(w: int, h: int) -> int {
    if w >= h {
        w
    } else {
        h
    }
}

/// True when the longer side already lies in the clamp band, so the
/// source is kept as it is.
pub open spec fn in_band(w: int, h: int) -> bool {
    MIN_DIMENSION <= longer_side(w, h) <= MAX_DIMENSION
}

/// The value the longer side is clamped to when it lies outside the band.
pub open spec fn clamped_side(w: int, h: int) -> int {
    if longer_side(w, h) > MAX_DIMENSION {
        MAX_DIMENSION as int
    } else if longer_side(w, h) < MIN_DIMENSION {
        MIN_DIMENSION as int
    } else {
        longer_side(w, h)
    }
}

/// Target width: unchanged in the band; otherwise the clamped side when
/// the width is the longer (or equal) side, else the width scaled by the
/// clamp ratio, rounding down.
pub open spec fn plan_width(w: int, h: int) -> int {
    if in_band(w, h) {
        w
    } else if w >= h {
        clamped_side(w, h)
    } else {
        w * clamped_side(w, h) / h
    }
}

/// Target height, symmetric to [`plan_width`].
pub open spec fn plan_height(w: int, h: int) -> int {
    if in_band(w, h) {
        h
    } else if w >= h {
        h * clamped_side(w, h) / w
    } else {
        clamped_side(w, h)
    }
}

/// Compute the target dimensions for a source of `width` by `height`
/// pixels. Total on positive pairs; division truncates toward zero.
pub fn plan(width: u32, height: u32) -> (r: (u32, u32))
    requires
        width > 0,
        height > 0,
    ensures
        r.0 == plan_width(width as int, height as int),
        r.1 == plan_height(width as int, height as int),
{
    let max_dim = if width >= height {
        width
    } else {
        height
    };
    let target = if max_dim > MAX_DIMENSION {
        MAX_DIMENSION
    } else if max_dim < MIN_DIMENSION {
        MIN_DIMENSION
    } else {
        max_dim
    };
    if target == max_dim {
        (width, height)
    } else if width >= height {
        proof {
            lemma_scaled_side_bounded(height as int, target as int, width as int);
        }
        let scaled = ((height as u64) * (target as u64) / (width as u64)) as u32;
        (target, scaled)
    } else {
        proof {
            lemma_scaled_side_bounded(width as int, target as int, height as int);
        }
        let scaled = ((width as u64) * (target as u64) / (height as u64)) as u32;
        (scaled, target)
    }
}

/// Scaling the shorter side by `t / longer` keeps it between 0 and `t`.
proof fn lemma_scaled_side_bounded(shorter: int, t: int, longer: int)
    requires
        0 <= shorter <= longer,
        0 < longer,
        0 <= t,
    ensures
        0 <= shorter * t / longer <= t,
{
    vstd::arithmetic::mul::lemma_mul_inequality(shorter, longer, t);
    vstd::arithmetic::div_mod::lemma_div_is_ordered(shorter * t, longer * t, longer);
    vstd::arithmetic::div_mod::lemma_div_multiples_vanish(t, longer);
    vstd::arithmetic::mul::lemma_mul_is_commutative(longer, t);
    vstd::arithmetic::div_mod::lemma_div_pos_is_pos(shorter * t, longer);
    vstd::arithmetic::mul::lemma_mul_nonnegative(shorter, t);
}

/// Clamp identity: a source whose longer side already lies in the band
/// is planned to itself.
pub proof fn lemma_clamp_identity(w: int, h: int)
    requires
        MIN_DIMENSION <= longer_side(w, h) <= MAX_DIMENSION,
    ensures
        plan_width(w, h) == w,
        plan_height(w, h) == h,
{
}

/// A source whose longer side lies outside the band is planned so that
/// the longer side of the result sits exactly on the nearer bound, and
/// hence inside the band.
pub proof fn lemma_planned_longer_side_in_band(w: int, h: int)
    requires
        w > 0,
        h > 0,
        !in_band(w, h),
    ensures
        longer_side(plan_width(w, h), plan_height(w, h)) == clamped_side(w, h),
        MIN_DIMENSION <= longer_side(plan_width(w, h), plan_height(w, h)) <= MAX_DIMENSION,
{
    if w >= h {
        lemma_scaled_side_bounded(h, clamped_side(w, h), w);
    } else {
        lemma_scaled_side_bounded(w, clamped_side(w, h), h);
    }
}

/// Aspect ratio is preserved up to the rounding error of one truncating
/// division: the cross products of the source and target dimensions
/// differ by less than one source longer side.
pub proof fn lemma_aspect_ratio_rounding(w: int, h: int)
    requires
        w > 0,
        h > 0,
        !in_band(w, h),
    ensures
        w >= h ==> 0 <= h * plan_width(w, h) - w * plan_height(w, h) < w,
        w < h ==> 0 <= w * plan_height(w, h) - h * plan_width(w, h) < h,
{
    let t = clamped_side(w, h);
    if w >= h {
        vstd::arithmetic::div_mod::lemma_fundamental_div_mod(h * t, w);
        vstd::arithmetic::div_mod::lemma_mod_bound(h * t, w);
    } else {
        vstd::arithmetic::div_mod::lemma_fundamental_div_mod(w * t, h);
        vstd::arithmetic::div_mod::lemma_mod_bound(w * t, h);
    }
}

/// Re-planning a planned result is a no-op: the planned longer side
/// always lies in the band, so the second pass takes the identity branch.
pub proof fn lemma_plan_idempotent(w: int, h: int)
    requires
        w > 0,
        h > 0,
    ensures
        plan_width(plan_width(w, h), plan_height(w, h)) == plan_width(w, h),
        plan_height(plan_width(w, h), plan_height(w, h)) == plan_height(w, h),
{
    if in_band(w, h) {
    } else if w >= h {
        lemma_scaled_side_bounded(h, clamped_side(w, h), w);
    } else {
        lemma_scaled_side_bounded(w, clamped_side(w, h), h);
    }
}

} // verus!
