//! Easing curves, by kind, and the choice of curve for the platform
//! keyboard's show/hide animation.
//!
//! The curves map progress in `[0, 1]` to eased progress; evaluating them is
//! floating-point work done by the embedding application. This module holds
//! the curve types and the integer decision of which one applies.

use vstd::prelude::*;

verus! {

/// `t` unchanged.
#[derive(Clone, Copy, Debug, PartialEq, Eq, Structural)]
pub struct LinearCurve;

/// Slow start.
#[derive(Clone, Copy, Debug, PartialEq, Eq, Structural)]
pub struct EaseInCurve;

/// Slow end.
#[derive(Clone, Copy, Debug, PartialEq, Eq, Structural)]
pub struct EaseOutCurve;

/// Slow start and slow end.
#[derive(Clone, Copy, Debug, PartialEq, Eq, Structural)]
pub struct EaseInOutCurve;

/// One of the four standard easing curves.
#[derive(Clone, Copy, Debug, PartialEq, Eq, Structural)]
pub enum CurveKind {
    Linear,
    EaseIn,
    EaseOut,
    EaseInOut,
}

/// The curve for a UIKit animation-curve raw value: the documented values
/// are 0 = ease-in-out, 1 = ease-in, 2 = ease-out, 3 = linear, read from the
/// low two bits; the keyboard's private value 7 (the keyboard flag `0x4`
/// over ease-in-out) is rendered as ease-in-out, not linear.
pub open spec fn keyboard_curve_spec(curve_raw: u8) -> CurveKind {
    if curve_raw == 7 {
        CurveKind::EaseInOut
    } else if curve_raw % 4 == 0 {
        CurveKind::EaseInOut
    } else if curve_raw % 4 == 1 {
        CurveKind::EaseIn
    } else if curve_raw % 4 == 2 {
        CurveKind::EaseOut
    } else {
        CurveKind::Linear
    }
}

/// Map a UIKit `UIViewAnimationCurve` raw value (or the keyboard's private
/// curve raw value) to a curve.
pub fn keyboard_curve(curve_raw: u8) -> (kind: CurveKind)
    ensures
        kind == keyboard_curve_spec(curve_raw),
{
    if curve_raw == 7 {
        return CurveKind::EaseInOut;
    }
    let low = curve_raw & 0x3;
    assert(low == curve_raw % 4) by (bit_vector)
        requires
            low == curve_raw & 0x3,
    ;
    match low {
        0 => CurveKind::EaseInOut,
        1 => CurveKind::EaseIn,
        2 => CurveKind::EaseOut,
        _ => CurveKind::Linear,
    }
}

} // verus!
