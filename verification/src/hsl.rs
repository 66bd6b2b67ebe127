//! The decisions of the conversion from RGB to HSL that depend on the
//! channels alone: whether a colour has a hue at all, which channel leads,
//! which sixth of the colour wheel the hue is counted from, and which half
//! of the lightness scale the colour lies in.
//!
//! Dividing a channel by 255 keeps both order and equality of channels, so
//! these decisions are the same on the normalised channels.

use crate::codec::Color;
use vstd::prelude::*;

verus! {

/// The branch of the hue formula that a colour takes.
#[derive(Clone, Copy, Debug, PartialEq, Eq, Structural)]
pub enum HueSector {
    /// All three channels are equal: hue and saturation are zero.
    Achromatic,
    /// Red is the largest channel.
    Red,
    /// Green is the largest channel and red is not.
    Green,
    /// Blue alone is the largest channel.
    Blue,
}

/// The largest of the three channels.
pub open spec fn channel_max(rgb: Color<u8>) -> u8 {
    if rgb.0 >= rgb.1 && rgb.0 >= rgb.2 {
        rgb.0
    } else if rgb.1 >= rgb.2 {
        rgb.1
    } else {
        rgb.2
    }
}

/// The smallest of the three channels.
pub open spec fn channel_min(rgb: Color<u8>) -> u8 {
    if rgb.0 <= rgb.1 && rgb.0 <= rgb.2 {
        rgb.0
    } else if rgb.1 <= rgb.2 {
        rgb.1
    } else {
        rgb.2
    }
}

/// The sector of a colour. Where channels tie for the largest, red comes
/// before green and green before blue.
pub open spec fn sector_of(rgb: Color<u8>) -> HueSector {
    if channel_max(rgb) == channel_min(rgb) {
        HueSector::Achromatic
    } else if rgb.0 == channel_max(rgb) {
        HueSector::Red
    } else if rgb.1 == channel_max(rgb) {
        HueSector::Green
    } else {
        HueSector::Blue
    }
}

/// The sixths of a turn that the hue of a colour is counted from: none for
/// red, or six where green is below blue, so that the hue is not negative;
/// two for green; four for blue.
pub open spec fn hue_offset_of(rgb: Color<u8>) -> int {
    match sector_of(rgb) {
        HueSector::Achromatic => 0,
        HueSector::Red => if rgb.1 < rgb.2 {
            6
        } else {
            0
        },
        HueSector::Green => 2,
        HueSector::Blue => 4,
    }
}

/// The difference of the two channels that do not lead, in the order the
/// hue formula takes them: green less blue under red, blue less red under
/// green, red less green under blue.
pub open spec fn hue_difference_of(rgb: Color<u8>) -> int {
    match sector_of(rgb) {
        HueSector::Achromatic => 0,
        HueSector::Red => rgb.1 - rgb.2,
        HueSector::Green => rgb.2 - rgb.0,
        HueSector::Blue => rgb.0 - rgb.1,
    }
}

/// Whether the lightness of a colour, the mean of its largest and smallest
/// normalised channel, is above one half.
pub open spec fn is_light(rgb: Color<u8>) -> bool {
    channel_max(rgb) + channel_min(rgb) > 255
}

/// What the gap between the largest and the smallest channel is divided by
/// to give the saturation, in 255ths: the sum of the two for a colour in the
/// lower half of the lightness scale, and what the sum lacks to two for one
/// in the upper half.
pub open spec fn saturation_divisor_of(rgb: Color<u8>) -> int {
    if is_light(rgb) {
        510 - channel_max(rgb) - channel_min(rgb)
    } else {
        channel_max(rgb) + channel_min(rgb)
    }
}

/// The largest and the smallest channel of a colour.
pub fn channel_extremes(rgb: Color<u8>) -> (result: (u8, u8))
    ensures
        result.0 == channel_max(rgb),
        result.1 == channel_min(rgb),
{
    let (r, g, b) = rgb;
    let max: u8 = if r >= g && r >= b {
        r
    } else if g >= b {
        g
    } else {
        b
    };
    let min: u8 = if r <= g && r <= b {
        r
    } else if g <= b {
        g
    } else {
        b
    };
    (max, min)
}

/// Decides which branch of the hue formula a colour takes.
pub fn hue_sector(rgb: Color<u8>) -> (result: HueSector)
    ensures
        result == sector_of(rgb),
        result is Achromatic <==> rgb.0 == rgb.1 && rgb.1 == rgb.2,
{
    let (max, min) = channel_extremes(rgb);
    if max == min {
        HueSector::Achromatic
    } else if rgb.0 == max {
        HueSector::Red
    } else if rgb.1 == max {
        HueSector::Green
    } else {
        HueSector::Blue
    }
}

/// The sixths of a turn that the hue of a colour is counted from.
pub fn hue_offset(rgb: Color<u8>) -> (result: u8)
    ensures
        result as int == hue_offset_of(rgb),
{
    match hue_sector(rgb) {
        HueSector::Achromatic => 0,
        HueSector::Red => if rgb.1 < rgb.2 {
            6
        } else {
            0
        },
        HueSector::Green => 2,
        HueSector::Blue => 4,
    }
}

/// Decides whether the lightness of a colour is above one half, which
/// selects the divisor of the saturation.
pub fn in_upper_half(rgb: Color<u8>) -> (result: bool)
    ensures
        result == is_light(rgb),
{
    let (max, min) = channel_extremes(rgb);
    let sum: u16 = max as u16 + min as u16;
    sum > 255
}

/// A grey, whatever its level, has no hue: its sector is achromatic and
/// its hue is counted from zero with no difference to add.
pub proof fn lemma_grey_is_achromatic(level: u8)
    ensures
        sector_of((level, level, level)) == HueSector::Achromatic,
        hue_offset_of((level, level, level)) == 0,
        hue_difference_of((level, level, level)) == 0,
        channel_max((level, level, level)) == level,
        channel_min((level, level, level)) == level,
{
}

/// The channel that names the sector of a colour is its largest, and a
/// colour is achromatic exactly when its channels are all equal.
pub proof fn lemma_sector_leads(rgb: Color<u8>)
    ensures
        channel_min(rgb) <= rgb.0 <= channel_max(rgb),
        channel_min(rgb) <= rgb.1 <= channel_max(rgb),
        channel_min(rgb) <= rgb.2 <= channel_max(rgb),
        sector_of(rgb) is Achromatic <==> rgb.0 == rgb.1 && rgb.1 == rgb.2,
        sector_of(rgb) is Red ==> rgb.0 == channel_max(rgb),
        sector_of(rgb) is Green ==> rgb.1 == channel_max(rgb) && rgb.0 < rgb.1,
        sector_of(rgb) is Blue ==> rgb.2 == channel_max(rgb) && rgb.0 < rgb.2 && rgb.1 < rgb.2,
{
}

/// The hue of a colour that has one lies within one turn. With `range` the
/// gap between the largest and the smallest channel, the hue in sixths of
/// a turn is `hue_difference_of / range + hue_offset_of`; over the common
/// denominator `range` that quotient is at least zero and below six.
pub proof fn lemma_hue_within_turn(rgb: Color<u8>)
    requires
        !(sector_of(rgb) is Achromatic),
    ensures
        channel_max(rgb) - channel_min(rgb) > 0,
        0 <= hue_difference_of(rgb) + hue_offset_of(rgb) * (channel_max(rgb) - channel_min(rgb)),
        hue_difference_of(rgb) + hue_offset_of(rgb) * (channel_max(rgb) - channel_min(rgb)) < 6
            * (channel_max(rgb) - channel_min(rgb)),
{
}

/// The saturation of a colour that has a hue is a proper fraction: its
/// divisor is not zero, and the gap between the largest and the smallest
/// channel is above zero and does not exceed the divisor.
pub proof fn lemma_saturation_within_unit(rgb: Color<u8>)
    requires
        !(sector_of(rgb) is Achromatic),
    ensures
        0 < channel_max(rgb) - channel_min(rgb) <= saturation_divisor_of(rgb),
{
}

} // verus!
