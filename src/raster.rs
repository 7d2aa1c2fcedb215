//! Row-major layout of an image of `width` by `height` pixels.
//!
//! Each pixel has one slot in the output buffer, so pixels can be rendered by
//! independent workers, each writing to its own slot only.
use vstd::prelude::*;

verus! {

/// Column of the pixel stored at slot `index` of a row-major image.
pub open spec fn column_of(index: nat, width: nat) -> nat
    recommends
        width > 0,
{
    index % width
}

/// Row of the pixel stored at slot `index` of a row-major image.
pub open spec fn row_of(index: nat, width: nat) -> nat
    recommends
        width > 0,
{
    index / width
}

/// Slot of pixel `(x, y)` in a row-major image `width` pixels wide.
pub open spec fn slot_of(x: nat, y: nat, width: nat) -> nat {
    y * width + x
}

/// The pixel `(x, y)` whose colour is stored at slot `index` of the buffer of
/// an image `width` pixels wide and `height` pixels high.
pub fn pixel_at(index: usize, width: u32, height: u32) -> (r: (u32, u32))
    requires
        width > 0,
        index < width as nat * height as nat,
    ensures
        r.0 as nat == column_of(index as nat, width as nat),
        r.1 as nat == row_of(index as nat, width as nat),
        r.0 < width,
        r.1 < height,
{
    let w = width as usize;
    let x = index % w;
    let y = index / w;
    proof {
        assert(y < height) by (nonlinear_arith)
            requires
                y == (index as int) / (w as int),
                (index as int) < (w as int) * (height as int),
                w > 0,
        ;
    }
    (x as u32, y as u32)
}

/// The slot in the buffer of an image `width` pixels wide that holds pixel
/// `(x, y)`.
pub fn pixel_index(x: u32, y: u32, width: u32, height: u32) -> (r: usize)
    requires
        x < width,
        y < height,
        width as nat * height as nat <= usize::MAX,
    ensures
        r as nat == slot_of(x as nat, y as nat, width as nat),
        r < width as nat * height as nat,
{
    proof {
        assert((y as int) * (width as int) + (x as int) < (width as int) * (height as int))
            by (nonlinear_arith)
            requires
                x < width,
                y < height,
        ;
    }
    y as usize * width as usize + x as usize
}

/// Slots and pixels are in one-to-one correspondence: the pixel stored at a
/// slot is stored at that slot again, and every pixel of the image has a slot.
pub proof fn lemma_slot_round_trip(index: nat, width: nat, height: nat)
    requires
        width > 0,
        index < width * height,
    ensures
        slot_of(column_of(index, width), row_of(index, width), width) == index,
        row_of(index, width) < height,
{
    vstd::arithmetic::div_mod::lemma_fundamental_div_mod(index as int, width as int);
    vstd::arithmetic::mul::lemma_mul_is_commutative((index / width) as int, width as int);
    assert(index / width < height) by (nonlinear_arith)
        requires
            index < width * height,
            width > 0,
    ;
}

/// Distinct slots hold distinct pixels, so workers that each fill one slot
/// never write the same pixel twice.
pub proof fn lemma_slots_disjoint(a: nat, b: nat, width: nat)
    requires
        width > 0,
        a != b,
    ensures
        column_of(a, width) != column_of(b, width) || row_of(a, width) != row_of(b, width),
{
    vstd::arithmetic::div_mod::lemma_fundamental_div_mod(a as int, width as int);
    vstd::arithmetic::div_mod::lemma_fundamental_div_mod(b as int, width as int);
}

} // verus!
