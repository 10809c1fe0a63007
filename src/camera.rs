use vstd::prelude::*;

verus! {

/// The image height for `image_width` columns at an aspect ratio of
/// `aspect_num / aspect_den` (width over height): the width divided by the
/// ratio, rounded to the nearest integer (halves up), and at least 1.
pub open spec fn image_height_spec(image_width: nat, aspect_num: nat, aspect_den: nat) -> nat
    recommends
        aspect_num > 0,
{
    let h = (2 * (image_width * aspect_den) + aspect_num) / (2 * aspect_num);
    if h < 1 {
        1
    } else {
        h
    }
}

pub fn image_height(image_width: u32, aspect_num: u32, aspect_den: u32) -> (r: u64)
    requires
        aspect_num > 0,
    ensures
        r == image_height_spec(image_width as nat, aspect_num as nat, aspect_den as nat),
        r >= 1,
{
    let w = image_width as u128;
    let n = aspect_num as u128;
    let d = aspect_den as u128;
    assert(w * d <= 0xffff_ffff * 0xffff_ffff) by (nonlinear_arith)
        requires
            w <= 0xffff_ffff,
            d <= 0xffff_ffff,
    ;
    let h = (2 * (w * d) + n) / (2 * n);
    assert(h <= w * d + 1) by (nonlinear_arith)
        requires
            n >= 1,
            h == (2 * (w * d) + n) / (2 * n),
    ;
    if h < 1 {
        1
    } else {
        h as u64
    }
}

} // verus!
