//! The machine word: a sign flag and five magnitude bytes, with the
//! field-windowed value reading that every instruction builds on.

use crate::field::{adjusted_field_specification, adjusted_left, adjusted_right, fs_in_range,
    only_zero, zero_included};
use crate::magnitude::{be_value, digits5, lemma_be_value_bounds, lemma_be_value_single,
    lemma_pow256_increases, lemma_pow256_pos, lemma_pow256_values, nth_byte, pow256};
use vstd::arithmetic::div_mod::lemma_div_denominator;
use vstd::prelude::*;

verus! {

/// A five-byte sign-magnitude word. `positive` is the sign flag; `bytes`
/// holds the magnitude big-endian, index 0 most significant.
#[derive(Clone, Copy, Debug, PartialEq, Eq)]
pub struct Word {
    pub positive: bool,
    pub bytes: [u8; 5],
}

/// The mathematical model of a word: the sign flag and the byte sequence.
#[verifier::ext_equal]
pub struct WordView {
    pub positive: bool,
    pub bytes: Seq<u8>,
}

impl WordView {
    /// A well-formed word model has exactly five magnitude bytes.
    pub open spec fn wf(self) -> bool {
        self.bytes.len() == 5
    }
}

impl View for Word {
    type V = WordView;

    open spec fn view(&self) -> WordView {
        WordView { positive: self.positive, bytes: self.bytes@ }
    }
}

/// The all-zero word with a positive sign.
pub open spec fn zero_word() -> WordView {
    WordView { positive: true, bytes: Seq::new(5, |i: int| 0u8) }
}

/// The value of the field window of a word: the bytes of the window read
/// big-endian, negated exactly when the window includes the sign position
/// and the word is negative. A sign-only window has value 0. When the
/// adjusted window is reversed, only its left byte is read.
pub open spec fn spec_field_value(w: WordView, field_specification: (usize, usize)) -> int {
    if only_zero(field_specification) {
        0
    } else {
        let l = adjusted_left(field_specification);
        let r = adjusted_right(field_specification);
        let magnitude = if l > r {
            w.bytes[l] as int
        } else {
            be_value(w.bytes.subrange(l, r + 1))
        };
        if zero_included(field_specification) && !w.positive {
            -magnitude
        } else {
            magnitude
        }
    }
}

/// The word encoding an integer: the sign of the value, and the low five
/// bytes of its absolute value.
pub open spec fn spec_from_value(value: int) -> WordView {
    WordView { positive: value >= 0, bytes: digits5(vstd::math::abs(value) as int) }
}

/// Any field value fits in five magnitude bytes.
pub proof fn lemma_field_value_bounds(w: WordView, field_specification: (usize, usize))
    requires
        w.wf(),
        fs_in_range(field_specification),
    ensures
        -pow256(5) < spec_field_value(w, field_specification) < pow256(5),
        !zero_included(field_specification) ==> spec_field_value(w, field_specification) >= 0,
{
    lemma_pow256_values();
    if !only_zero(field_specification) {
        let l = adjusted_left(field_specification);
        let r = adjusted_right(field_specification);
        if l > r {
        } else {
            let s = w.bytes.subrange(l, r + 1);
            lemma_be_value_bounds(s);
            lemma_pow256_increases(s.len(), 5);
        }
    }
}

/// A sign-only field specification always reads the value 0.
pub proof fn lemma_field_value_sign_only(w: WordView, field_specification: (usize, usize))
    requires
        only_zero(field_specification),
    ensures
        spec_field_value(w, field_specification) == 0,
{
}

impl Word {
    pub fn new(positive: bool, b: [u8; 5]) -> (r: Word)
        ensures
            r@ == (WordView { positive, bytes: b@ }),
    {
        Word { positive, bytes: b }
    }

    pub fn default() -> (r: Word)
        ensures
            r@ == zero_word(),
    {
        let r = Word::new(true, [0, 0, 0, 0, 0]);
        proof {
            assert(r@.bytes =~= zero_word().bytes);
            assert(r@ =~= zero_word());
        }
        r
    }

    /// Encodes `value` as a word: the sign of `value`, and the low five
    /// bytes of its absolute value, big-endian.
    pub fn from_value(value: i64) -> (r: Word)
        ensures
            r@ == spec_from_value(value as int),
    {
        let positive = value >= 0;
        let mut magnitude: u64 = if value >= 0 {
            value as u64
        } else {
            (-(value as i128)) as u64
        };
        let ghost mag0 = magnitude as int;
        proof {
            assert(mag0 == vstd::math::abs(value as int));
        }
        let mut bytes: [u8; 5] = [0, 0, 0, 0, 0];
        let mut i: usize = 0;
        while i < 5
            invariant
                0 <= i <= 5,
                mag0 >= 0,
                magnitude == mag0 / pow256(i as nat),
                forall|idx: int|
                    5 - i <= idx < 5 ==> bytes@[idx] == nth_byte(mag0, (4 - idx) as nat),
            decreases 5 - i,
        {
            proof {
                lemma_pow256_pos(i as nat);
            }
            bytes[4 - i] = (magnitude % 256) as u8;
            magnitude = magnitude / 256;
            proof {
                lemma_div_denominator(mag0, pow256(i as nat), 256);
                assert(pow256(i as nat) * 256 == 256 * pow256(i as nat));
                assert(pow256((i + 1) as nat) == 256 * pow256(i as nat));
            }
            i = i + 1;
        }
        let r = Word { positive, bytes };
        proof {
            assert(r@.bytes =~= spec_from_value(value as int).bytes);
            assert(r@ =~= spec_from_value(value as int));
        }
        r
    }

    /// The address bound in an instruction word: its first two bytes read
    /// big-endian, ignoring the sign.
    pub fn address(&self) -> (r: usize)
        ensures
            r == spec_field_value(self@, (1usize, 2usize)),
            0 <= r < 0x10000,
    {
        proof {
            lemma_field_value_bounds(self@, (1usize, 2usize));
            lemma_be_value_bounds(self@.bytes.subrange(0, 2));
            lemma_pow256_values();
        }
        let v = self.field_value((1, 2));
        v as usize
    }

    /// The index-register selector of an instruction word.
    pub fn index(&self) -> (r: u8)
        ensures
            r == self@.bytes[2],
    {
        self.bytes[2]
    }

    /// The raw field byte of an instruction word, encoding `8 * L + R`.
    pub fn field(&self) -> (r: u8)
        ensures
            r == self@.bytes[3],
    {
        self.bytes[3]
    }

    /// The operation code byte of an instruction word.
    pub fn opcode(&self) -> (r: u8)
        ensures
            r == self@.bytes[4],
    {
        self.bytes[4]
    }

    /// The same magnitude under the opposite sign.
    pub fn negate(&self) -> (r: Word)
        ensures
            r@ == (WordView { positive: !self@.positive, ..self@ }),
    {
        let mut new_word = self.clone();
        new_word.positive = !new_word.positive;
        new_word
    }

    /// Reads the field window of this word as a signed value.
    pub fn field_value(&self, field_specification: (usize, usize)) -> (r: i64)
        requires
            fs_in_range(field_specification),
        ensures
            r == spec_field_value(self@, field_specification),
            -pow256(5) < r < pow256(5),
    {
        proof {
            lemma_field_value_bounds(self@, field_specification);
        }
        let (zero_is_included, is_only_zero, (l, r)) = adjusted_field_specification(
            field_specification,
        );
        if is_only_zero {
            return 0;
        }
        let ghost li = l as int;
        let mut result: i64 = self.bytes[l] as i64;
        proof {
            lemma_be_value_single(self@.bytes.subrange(li, li + 1));
            lemma_pow256_values();
        }
        let mut i: usize = l + 1;
        while i <= r
            invariant
                fs_in_range(field_specification),
                li == adjusted_left(field_specification),
                r == adjusted_right(field_specification),
                r <= 4,
                li + 1 <= i <= 5,
                li <= r ==> i <= r + 1,
                li > r ==> i == li + 1,
                result == be_value(self@.bytes.subrange(li, i as int)),
                0 <= result < pow256((i - li) as nat),
            decreases 5 - i,
        {
            proof {
                let s_next = self@.bytes.subrange(li, i + 1);
                assert(s_next.drop_last() =~= self@.bytes.subrange(li, i as int));
                assert(s_next.last() == self@.bytes[i as int]);
                lemma_pow256_increases((i - li) as nat, 4);
                lemma_pow256_values();
            }
            result = result * 256 + (self.bytes[i] as i64);
            i = i + 1;
        }
        if zero_is_included && !self.positive {
            -result
        } else {
            result
        }
    }
}

} // verus!
