//! Decode sizes derived from the display area.
use vstd::prelude::*;

use crate::num::{capped, greatest, max_u32, saturating_mul_usize};

verus! {

/// Width requested for one page: all of the display width, or half of it, rounded up and at
/// least one pixel, where a second page shares the screen.
pub fn request_display_width_for_pair(display_w: u32, has_right_page: bool) -> (width: u32)
    ensures
        width == if has_right_page {
            greatest((display_w + 1) / 2, 1)
        } else {
            display_w as int
        },
        has_right_page ==> width >= 1 && 2 * width >= display_w,
{
    if has_right_page {
        let half: u32 = display_w / 2 + display_w % 2;
        max_u32(half, 1)
    } else {
        display_w
    }
}

/// Bytes of `page_count` still RGBA pages of the given size, each step cut off at `usize::MAX`.
pub open spec fn rgba_bytes(decode_w: nat, decode_h: nat, page_count: nat) -> nat {
    capped(capped(capped(decode_w * decode_h) * 4) * page_count)
}

pub fn static_rgba_bytes_for_decode(decode_w: u32, decode_h: u32, page_count: usize) -> (bytes:
    usize)
    ensures
        bytes == rgba_bytes(decode_w as nat, decode_h as nat, page_count as nat),
{
    let area: usize = saturating_mul_usize(decode_w as usize, decode_h as usize);
    let page: usize = saturating_mul_usize(area, 4);
    saturating_mul_usize(page, page_count)
}

/// Four bytes for each pixel of each page, as far as the number can be told.
pub proof fn law_still_pages_take_four_bytes_a_pixel(decode_w: nat, decode_h: nat, page_count: nat)
    ensures
        decode_w * decode_h * 4 * page_count <= usize::MAX && page_count > 0 ==> rgba_bytes(
            decode_w,
            decode_h,
            page_count,
        ) == decode_w * decode_h * 4 * page_count,
        rgba_bytes(decode_w, decode_h, 0) == 0,
        rgba_bytes(decode_w, decode_h, page_count) <= usize::MAX,
{
    let one = decode_w * decode_h * 4;
    assert(one * 0 == 0);
    if one * page_count <= usize::MAX && page_count > 0 {
        assert(one <= one * page_count) by (nonlinear_arith)
            requires
                page_count > 0,
                one >= 0,
        ;
    }
}

} // verus!
