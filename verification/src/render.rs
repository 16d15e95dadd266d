//! Integer side of the hue/lightness color lookup table: the table has 360
//! hue buckets and 256 lightness buckets, any signed hue index wraps into
//! range and any lightness index clamps into range, so a lookup can never
//! reach outside the table.

use vstd::prelude::*;

verus! {

/// Number of hue buckets in the color lookup table.
pub const HUE_BUCKETS: u64 = 360;

/// Number of lightness buckets in the color lookup table.
pub const VALUE_BUCKETS: u64 = 256;

/// Wrap a signed hue index into a table bucket: the remainder modulo 360,
/// with negative indices wrapped by magnitude. The result is always a
/// valid row of the table.
pub fn hue_bucket(i: i64) -> (h: usize)
    ensures
        h < 360,
        h == (if i >= 0 {
            i as int
        } else {
            -(i as int)
        } % 360),
{
    let m: i64 = i % 360;
    if m < 0 {
        (-m) as usize
    } else {
        m as usize
    }
}

/// Clamp a signed lightness index into a table bucket `0 ..= 255`. The
/// result is always a valid column of the table.
pub fn value_bucket(i: i64) -> (v: usize)
    ensures
        v < 256,
        v == if i < 0 {
            0int
        } else if i > 255 {
            255int
        } else {
            i as int
        },
{
    if i < 0 {
        0
    } else if i > 255 {
        255
    } else {
        i as usize
    }
}

} // verus!
