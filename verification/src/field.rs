//! The field-specification model: a pair `(L, R)` with `0 <= L, R <= 5`
//! selects a window of a word. Position 0 is the pseudo position of the sign;
//! positions 1 through 5 are the five magnitude bytes, which live at indices
//! 0 through 4 of a word's byte array.

use vstd::prelude::*;

verus! {

/// Whether the window includes the sign position.
pub open spec fn zero_included(field_specification: (usize, usize)) -> bool {
    field_specification.0 == 0
}

/// Whether the window holds nothing but the sign position.
pub open spec fn only_zero(field_specification: (usize, usize)) -> bool {
    field_specification.1 == 0
}

/// The leftmost byte-array index of the window: position 0 (the sign) and
/// position 1 both map to index 0.
pub open spec fn adjusted_left(field_specification: (usize, usize)) -> int {
    if field_specification.0 == 0 {
        0
    } else {
        field_specification.0 - 1
    }
}

/// The rightmost byte-array index of the window.
pub open spec fn adjusted_right(field_specification: (usize, usize)) -> int {
    if field_specification.1 == 0 {
        0
    } else {
        field_specification.1 - 1
    }
}

/// A field specification within the data model's range: both bounds at most 5.
pub open spec fn fs_in_range(field_specification: (usize, usize)) -> bool {
    field_specification.0 <= 5 && field_specification.1 <= 5
}

/// The number of bytes in the window, zero when the adjusted window is empty.
pub open spec fn window_len(field_specification: (usize, usize)) -> nat {
    if adjusted_left(field_specification) > adjusted_right(field_specification) {
        0
    } else {
        (adjusted_right(field_specification) - adjusted_left(field_specification) + 1) as nat
    }
}

/// Decodes a field specification `(L, R)` into `(zero_included, only_zero,
/// (left_index, right_index))`: whether the sign position is in the window,
/// whether the window is sign-only, and the 0-based byte-array window bounds.
pub fn adjusted_field_specification(field_specification: (usize, usize)) -> (r: (
    bool,
    bool,
    (usize, usize),
))
    ensures
        r.0 == zero_included(field_specification),
        r.1 == only_zero(field_specification),
        r.2.0 == adjusted_left(field_specification),
        r.2.1 == adjusted_right(field_specification),
{
    let (left, right) = field_specification;
    let l: usize = if left == 0 {
        0
    } else {
        left - 1
    };
    let r: usize = if right == 0 {
        0
    } else {
        right - 1
    };
    (left == 0, right == 0, (l, r))
}

} // verus!
