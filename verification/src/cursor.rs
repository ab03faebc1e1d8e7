//! The cursor mapper: turns the logical offset of the edit cursor into a
//! (column, row) pair inside the render area, clamping an offset that
//! overflows the area to the area's last cell.
//!
//! The clamp bounds the offset by the area's capacity alone, not by the
//! end of the wrapped content: an offset far past the last character still
//! maps to a cell, possibly beyond the text. That is the splitter's
//! documented truncation policy, reproduced here rather than repaired.

use vstd::prelude::*;

use vstd::arithmetic::div_mod::lemma_div_is_ordered;
use vstd::arithmetic::div_mod::lemma_fundamental_div_mod;
use vstd::arithmetic::div_mod::lemma_fundamental_div_mod_converse;
use vstd::arithmetic::div_mod::lemma_multiply_divide_lt;

use crate::rect::Rect;

verus! {

/// The linear cell offset the cursor lands on: the logical offset itself,
/// or the area's last cell once the offset passes the capacity.
pub open spec fn spec_cursor_offset(logical: nat, w: nat, h: nat) -> nat
    recommends
        1 <= w,
        1 <= h,
{
    if logical < w * h {
        logical
    } else {
        (w * h - 1) as nat
    }
}

/// The column within the area that the cursor lands on.
pub open spec fn spec_cursor_col(logical: nat, w: nat, h: nat) -> nat
    recommends
        1 <= w,
        1 <= h,
{
    spec_cursor_offset(logical, w, h) % w
}

/// The row within the area that the cursor lands on.
pub open spec fn spec_cursor_row(logical: nat, w: nat, h: nat) -> nat
    recommends
        1 <= w,
        1 <= h,
{
    spec_cursor_offset(logical, w, h) / w
}

/// The cursor's row and column stay inside the area.
pub proof fn lemma_cursor_in_area(logical: nat, w: nat, h: nat)
    requires
        1 <= w,
        1 <= h,
    ensures
        spec_cursor_col(logical, w, h) < w,
        spec_cursor_row(logical, w, h) < h,
{
    let off = spec_cursor_offset(logical, w, h) as int;
    lemma_fundamental_div_mod(off, w as int);
    assert(w * h >= 1) by (nonlinear_arith)
        requires
            w >= 1,
            h >= 1,
    ;
    assert(off < w * h);
    lemma_multiply_divide_lt(off, w as int, h as int);
}

/// Cursor monotonicity: under a fixed positive budget, a later logical
/// offset never maps to an earlier screen cell in reading order (row
/// first, then column within the row); once the offset passes the area's
/// capacity, the mapping clamps to the last cell.
pub proof fn lemma_cursor_monotone(p1: nat, p2: nat, w: nat, h: nat)
    requires
        1 <= w,
        1 <= h,
        p1 <= p2,
    ensures
        spec_cursor_row(p1, w, h) < spec_cursor_row(p2, w, h) || (spec_cursor_row(p1, w, h)
            == spec_cursor_row(p2, w, h) && spec_cursor_col(p1, w, h) <= spec_cursor_col(
            p2,
            w,
            h,
        )),
        p2 >= w * h ==> spec_cursor_row(p2, w, h) == h - 1 && spec_cursor_col(p2, w, h) == w - 1,
{
    let o1 = spec_cursor_offset(p1, w, h) as int;
    let o2 = spec_cursor_offset(p2, w, h) as int;
    assert(o1 <= o2);
    lemma_div_is_ordered(o1, o2, w as int);
    lemma_fundamental_div_mod(o1, w as int);
    lemma_fundamental_div_mod(o2, w as int);
    if o1 / (w as int) == o2 / (w as int) {
        assert(o1 % (w as int) <= o2 % (w as int));
    }
    if p2 >= w * h {
        assert(w * h >= 1) by (nonlinear_arith)
            requires
                w >= 1,
                h >= 1,
        ;
        assert(o2 == w * h - 1);
        assert(o2 == (w as int) * ((h - 1) as int) + ((w - 1) as int)) by (nonlinear_arith)
            requires
                o2 == w * h - 1,
                w >= 1,
                h >= 1,
        ;
        lemma_fundamental_div_mod_converse(o2, w as int, (h - 1) as int, (w - 1) as int);
    }
}

/// Maps a clamped logical offset to absolute screen coordinates within
/// `area`.
pub fn map_cursor(logical: usize, area: &Rect) -> (c: (u16, u16))
    requires
        area@.width >= 1,
        area@.height >= 1,
    ensures
        c.0 == area@.x + spec_cursor_col(logical as nat, area@.width as nat, area@.height as nat),
        c.1 == area@.y + spec_cursor_row(logical as nat, area@.width as nat, area@.height as nat),
{
    let w = area.width();
    let h = area.height();
    let cap = area.area();
    proof {
        assert(area@.width * area@.height >= 1) by (nonlinear_arith)
            requires
                area@.width >= 1,
                area@.height >= 1,
        ;
    }
    let off: usize = if logical < cap {
        logical
    } else {
        cap - 1
    };
    let col = off % (w as usize);
    let row = off / (w as usize);
    proof {
        lemma_cursor_in_area(logical as nat, w as nat, h as nat);
    }
    (area.x() + col as u16, area.y() + row as u16)
}

} // verus!
