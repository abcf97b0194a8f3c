//! Brightness arithmetic: the percentage formula and the clamped
//! increase/decrease policy, together with the derived
//! [`BrightnessInfo`] snapshot.

use vstd::prelude::*;

verus! {

/// Brightness capability of a backend: where its brightness attributes
/// live. Both backends expose the same two attribute files and differ
/// only in these paths; the arithmetic and parsing above them is shared.
pub trait KeyboardBrightness {
    /// The brightness attribute path, as a value contracts can speak of.
    spec fn spec_brightness_path(&self) -> Seq<char>;

    /// The maximum-brightness attribute path, as a value contracts can
    /// speak of.
    spec fn spec_max_brightness_path(&self) -> Seq<char>;

    /// The path of the attribute file that holds the current brightness.
    fn brightness_path(&self) -> (path: &'static str)
        ensures
            path@ == self.spec_brightness_path(),
    ;

    /// The path of the attribute file that holds the maximum brightness.
    fn max_brightness_path(&self) -> (path: &'static str)
        ensures
            path@ == self.spec_max_brightness_path(),
    ;
}

/// Exact percentage formula. When `max` is zero the result is zero (the
/// division-by-zero guard); otherwise it is `current * 100 / max`, reduced
/// modulo 256 because the result is carried in eight bits. When
/// `current <= max` the quotient is at most 100, so the reduction never
/// changes it; when `current > max` the unreduced quotient may exceed 100
/// and the low eight bits are reported as-is.
pub open spec fn percent_of(current: u8, max: u8) -> int {
    if max == 0 {
        0
    } else {
        (current as int * 100 / max as int) % 256
    }
}

/// Percentage of `max` that `current` represents, floored.
pub fn calculate_percent(current: u8, max: u8) -> (percent: u8)
    ensures
        percent == percent_of(current, max),
        max == 0 ==> percent == 0,
        current <= max ==> percent <= 100,
{
    if max == 0 {
        0
    } else {
        let wide: u16 = current as u16 * 100 / max as u16;
        proof {
            if current <= max {
                assert(current * 100 / max as int <= 100) by (nonlinear_arith)
                    requires
                        0 < max <= 255,
                        0 <= current <= max,
                ;
            }
        }
        let low: u16 = wide % 256;
        low as u8
    }
}

/// For `max > 0` and `current <= max` the percentage is the plain floored
/// quotient and lies between 0 and 100.
pub proof fn lemma_percent_bounds(current: u8, max: u8)
    requires
        max > 0,
        current <= max,
    ensures
        percent_of(current, max) == current * 100 / max as int,
        0 <= percent_of(current, max) <= 100,
{
    assert(current * 100 / max as int <= 100) by (nonlinear_arith)
        requires
            0 < max <= 255,
            0 <= current <= max,
    ;
    assert(current * 100 / max as int >= 0) by (nonlinear_arith)
        requires
            0 < max,
            0 <= current,
    ;
}

/// The level that an increase by `step` settles on: the saturating sum of
/// `current` and `step`, clamped to `max`.
pub open spec fn increased_level(current: u8, step: u8, max: u8) -> int {
    let sat = if current + step > 255 { 255 } else { current + step };
    if sat > max { max as int } else { sat }
}

/// New level after raising `current` by `step` on a device whose maximum
/// is `max`: never wraps past the eight-bit range and never exceeds `max`.
pub fn increase_brightness(current: u8, step: u8, max: u8) -> (level: u8)
    ensures
        level == increased_level(current, step, max),
        level <= max,
        current + step <= max ==> level == current + step,
        current <= max && current + step > max ==> level == max,
{
    let sum: u16 = current as u16 + step as u16;
    if sum > max as u16 {
        max
    } else {
        sum as u8
    }
}

/// The level that a decrease by `step` settles on: `current - step`,
/// floored at zero.
pub open spec fn decreased_level(current: u8, step: u8) -> int {
    if current >= step {
        current - step
    } else {
        0
    }
}

/// New level after lowering `current` by `step`: never wraps below zero.
pub fn decrease_brightness(current: u8, step: u8) -> (level: u8)
    ensures
        level == decreased_level(current, step),
        level <= current,
{
    if current >= step {
        current - step
    } else {
        0
    }
}

/// Read-only snapshot of the brightness state, derived from the two
/// attribute reads and recomputed on every query.
#[derive(Clone, Copy, Debug, PartialEq, Eq, Structural)]
pub struct BrightnessInfo {
    /// Brightness as read from the device.
    pub current: u8,
    /// Maximum brightness the hardware supports.
    pub max: u8,
    /// Percentage that `current` represents of `max`.
    pub percent: u8,
    /// Whether the backlight is lit at all.
    pub is_on: bool,
}

impl BrightnessInfo {
    /// The fields a snapshot must agree on: the percentage follows the
    /// exact formula and `is_on` holds exactly when `current` is positive.
    pub open spec fn wf(self) -> bool {
        &&& self.percent == percent_of(self.current, self.max)
        &&& self.is_on == (self.current > 0)
    }
}

/// Compose the two attribute reads into one well-formed snapshot.
pub fn brightness_info(current: u8, max: u8) -> (info: BrightnessInfo)
    ensures
        info.current == current,
        info.max == max,
        info.percent == percent_of(current, max),
        info.is_on == (current > 0),
        info.wf(),
{
    let percent = calculate_percent(current, max);
    BrightnessInfo { current, max, percent, is_on: current > 0 }
}

} // verus!
