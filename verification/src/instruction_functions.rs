//! The field-windowed primitives the instructions are built from: copying
//! and storing byte windows between words, field-windowed add and compare,
//! the double-word multiply and divide, byte-granular shifts, and the
//! jump-address save.

use crate::computer::{Computer, ComparisonFlag, ComputerView, MEMORY_SIZE};
use crate::fault::Fault;
use crate::field::{adjusted_field_specification, adjusted_left, adjusted_right, fs_in_range,
    only_zero, window_len, zero_included};
use crate::magnitude::{digits5, lemma_pow256_pos, lemma_pow256_values, nth_byte, pow256};
use crate::word::{spec_field_value, spec_from_value, Word, WordView};
use vstd::arithmetic::div_mod::lemma_div_denominator;
use vstd::prelude::*;

verus! {

/// The result of copying the window of `from` over `to`: the sign is taken
/// from `from` exactly when the window includes the sign position, and the
/// window's bytes are copied in place unless the window is sign-only,
/// which has no magnitude bytes to copy.
pub open spec fn spec_copy_word_fields(
    from: WordView,
    to: WordView,
    field_specification: (usize, usize),
) -> WordView {
    let l = adjusted_left(field_specification);
    let r = adjusted_right(field_specification);
    WordView {
        positive: if zero_included(field_specification) {
            from.positive
        } else {
            to.positive
        },
        bytes: if only_zero(field_specification) {
            to.bytes
        } else {
            Seq::new(5, |i: int| if l <= i <= r {
                from.bytes[i]
            } else {
                to.bytes[i]
            })
        },
    }
}

/// Copying the full window, sign position included, is the identity
/// transform: the destination becomes the source.
pub proof fn lemma_copy_word_fields_full_is_identity(from: WordView, to: WordView)
    requires
        from.wf(),
        to.wf(),
    ensures
        spec_copy_word_fields(from, to, (0usize, 5usize)) == from,
{
    assert(spec_copy_word_fields(from, to, (0usize, 5usize)).bytes =~= from.bytes);
    assert(spec_copy_word_fields(from, to, (0usize, 5usize)) =~= from);
}

/// Copies the bytes of the field window from one word to another, and the
/// sign when the window includes the sign position; a sign-only window
/// copies no bytes at all.
pub fn copy_word_fields(
    from_word: &Word,
    to_word: &mut Word,
    field_specification: (usize, usize),
)
    requires
        fs_in_range(field_specification),
    ensures
        final(to_word)@ == spec_copy_word_fields(from_word@, old(to_word)@, field_specification),
{
    let ghost target = spec_copy_word_fields(from_word@, old(to_word)@, field_specification);
    let (zero_is_included, is_only_zero, (l, r)) = adjusted_field_specification(
        field_specification,
    );
    if zero_is_included {
        to_word.positive = from_word.positive;
    }
    if is_only_zero {
        proof {
            assert(final(to_word)@ =~= target);
        }
        return ;
    }
    let mut i: usize = l;
    while i <= r
        invariant
            fs_in_range(field_specification),
            l == adjusted_left(field_specification),
            r == adjusted_right(field_specification),
            r <= 4,
            l <= i <= 5,
            l > r ==> i == l,
            l <= r ==> i <= r + 1,
            !only_zero(field_specification),
            to_word@.positive == target.positive,
            forall|j: int| 0 <= j < 5 && l <= j < i ==> to_word@.bytes[j] == from_word@.bytes[j],
            forall|j: int| 0 <= j < 5 && !(l <= j < i) ==> to_word@.bytes[j] == old(
                to_word,
            )@.bytes[j],
        decreases 5 - i,
    {
        to_word.bytes[i] = from_word.bytes[i];
        i = i + 1;
    }
    proof {
        assert(final(to_word)@.bytes =~= target.bytes);
        assert(final(to_word)@ =~= target);
    }
}

/// Whether an index-register copy must be rejected: the window touches
/// neither the sign position nor byte 3 nor byte 4.
pub open spec fn index_copy_rejected(field_specification: (usize, usize)) -> bool {
    adjusted_left(field_specification) <= 2 && adjusted_right(field_specification) <= 2
        && !zero_included(field_specification)
}

/// The result of an index-register copy: as `spec_copy_word_fields`, but
/// only bytes 3 and 4 of the window are copied, index registers having two
/// significant magnitude bytes.
pub open spec fn spec_copy_word_fields_i(
    from: WordView,
    to: WordView,
    field_specification: (usize, usize),
) -> WordView {
    let l = adjusted_left(field_specification);
    let r = adjusted_right(field_specification);
    WordView {
        positive: if zero_included(field_specification) {
            from.positive
        } else {
            to.positive
        },
        bytes: if zero_included(field_specification) && only_zero(field_specification) {
            to.bytes
        } else {
            Seq::new(5, |i: int| if l <= i <= r && 3 <= i <= 4 {
                from.bytes[i]
            } else {
                to.bytes[i]
            })
        },
    }
}

/// Copies a field window into an index register's word: only the sign and
/// the two significant magnitude bytes take part. Fails, leaving the
/// destination unchanged, when the window touches none of them.
pub fn copy_word_fields_i(
    from_word: &Word,
    to_word: &mut Word,
    field_specification: (usize, usize),
) -> (result: Result<(), Fault>)
    ensures
        result is Err <==> index_copy_rejected(field_specification),
        index_copy_rejected(field_specification) ==> result == Err::<(), Fault>(
            Fault::InvalidFieldSpec,
        ) && *final(to_word) == *old(to_word),
        !index_copy_rejected(field_specification) ==> final(to_word)@ == spec_copy_word_fields_i(
            from_word@,
            old(to_word)@,
            field_specification,
        ),
{
    let ghost target = spec_copy_word_fields_i(from_word@, old(to_word)@, field_specification);
    let (zero_is_included, is_only_zero, (l, r)) = adjusted_field_specification(
        field_specification,
    );
    if l <= 2 && r <= 2 && !zero_is_included {
        return Err(Fault::InvalidFieldSpec);
    }
    if zero_is_included {
        to_word.positive = from_word.positive;
        if is_only_zero {
            proof {
                assert(final(to_word)@ =~= target);
            }
            return Ok(());
        }
    }
    let start: usize = if l < 3 {
        3
    } else {
        l
    };
    let stop: usize = if r > 4 {
        4
    } else {
        r
    };
    let mut i: usize = start;
    while i <= stop
        invariant
            l == adjusted_left(field_specification),
            r == adjusted_right(field_specification),
            start == vstd::math::max(l as int, 3),
            stop == vstd::math::min(r as int, 4),
            start <= i,
            start > stop ==> i == start,
            start <= stop ==> i <= stop + 1,
            !(zero_included(field_specification) && only_zero(field_specification)),
            !index_copy_rejected(field_specification),
            to_word@.positive == target.positive,
            forall|j: int|
                0 <= j < 5 && start <= j < i ==> to_word@.bytes[j] == from_word@.bytes[j],
            forall|j: int|
                0 <= j < 5 && !(start <= j < i) ==> to_word@.bytes[j] == old(to_word)@.bytes[j],
        decreases 5 - i,
    {
        to_word.bytes[i] = from_word.bytes[i];
        i = i + 1;
    }
    proof {
        assert(final(to_word)@.bytes =~= target.bytes);
        assert(final(to_word)@ =~= target);
    }
    Ok(())
}

/// The result of a store: the low-order bytes of `from` land right-justified
/// in the window of `to`, with the same sign rule as a copy.
pub open spec fn spec_store_operation(
    from: WordView,
    to: WordView,
    field_specification: (usize, usize),
) -> WordView {
    let l = adjusted_left(field_specification);
    let r = adjusted_right(field_specification);
    WordView {
        positive: if zero_included(field_specification) {
            from.positive
        } else {
            to.positive
        },
        bytes: if zero_included(field_specification) && only_zero(field_specification) {
            to.bytes
        } else {
            Seq::new(5, |i: int| if l <= i <= r {
                from.bytes[i + 4 - r]
            } else {
                to.bytes[i]
            })
        },
    }
}

/// Stores a register's low-order bytes into the field window of a memory
/// word: the `r - l + 1` least-significant bytes of `from` are written into
/// window positions `l` through `r`, and the sign is copied when the window
/// includes the sign position.
pub fn store_operation(from_word: &Word, to_word: &mut Word, field_specification: (usize, usize))
    requires
        fs_in_range(field_specification),
        adjusted_left(field_specification) <= adjusted_right(field_specification),
    ensures
        final(to_word)@ == spec_store_operation(from_word@, old(to_word)@, field_specification),
{
    let ghost target = spec_store_operation(from_word@, old(to_word)@, field_specification);
    let (zero_is_included, is_only_zero, (l, r)) = adjusted_field_specification(
        field_specification,
    );
    if zero_is_included {
        to_word.positive = from_word.positive;
        if is_only_zero {
            proof {
                assert(final(to_word)@ =~= target);
            }
            return ;
        }
    }
    let offset_l: usize = 4 - (r - l);
    let count: usize = r - l + 1;
    let mut i: usize = 0;
    while i < count
        invariant
            fs_in_range(field_specification),
            l == adjusted_left(field_specification),
            r == adjusted_right(field_specification),
            l <= r <= 4,
            offset_l == 4 - (r - l),
            count == r - l + 1,
            i <= count,
            !(zero_included(field_specification) && only_zero(field_specification)),
            to_word@.positive == target.positive,
            forall|j: int|
                0 <= j < 5 && l <= j < l + i ==> to_word@.bytes[j] == from_word@.bytes[j + 4 - r],
            forall|j: int|
                0 <= j < 5 && !(l <= j < l + i) ==> to_word@.bytes[j] == old(to_word)@.bytes[j],
        decreases count - i,
    {
        let ghost prev = to_word@.bytes;
        to_word.bytes[l + i] = from_word.bytes[offset_l + i];
        proof {
            assert(to_word@.bytes == prev.update(
                (l + i) as int,
                from_word@.bytes[(offset_l + i) as int],
            ));
            assert(prev.len() == 5);
            assert forall|j: int| 0 <= j < 5 && l <= j < l + i + 1 implies to_word@.bytes[j]
                == from_word@.bytes[j + 4 - r] by {
                if j == l + i {
                    assert(to_word@.bytes[j] == from_word@.bytes[(offset_l + i) as int]);
                    assert((offset_l + i) as int == j + 4 - r);
                } else {
                    assert(0 <= j < 5 && l <= j < l + i);
                    assert(to_word@.bytes[j] == prev[j]);
                    assert(prev[j] == from_word@.bytes[j + 4 - r]);
                }
            }
        }
        i = i + 1;
    }
    proof {
        assert(final(to_word)@.bytes =~= target.bytes);
        assert(final(to_word)@ =~= target);
    }
}

/// A copy of the index register selected by `index`, which must be 1
/// through 6.
pub fn register_for_index(computer: &Computer, index: u8) -> (r: Word)
    requires
        1 <= index <= 6,
    ensures
        r@ == crate::computer::spec_index_register(computer@, index),
{
    if index == 1 {
        computer.ri1
    } else if index == 2 {
        computer.ri2
    } else if index == 3 {
        computer.ri3
    } else if index == 4 {
        computer.ri4
    } else if index == 5 {
        computer.ri5
    } else {
        computer.ri6
    }
}

/// Saves the address of the next instruction into the jump-save register.
pub fn save_jump(computer: &mut Computer)
    requires
        old(computer).pc < MEMORY_SIZE,
    ensures
        final(computer)@ == (ComputerView {
            rj: spec_from_value(old(computer)@.pc + 1),
            ..old(computer)@
        }),
{
    let old_address = Word::from_value((computer.pc + 1) as i64);
    computer.rj = old_address;
}

/// Writes the five least-significant bytes of `value`, big-endian.
fn encode_low_bytes(value: u64) -> (r: [u8; 5])
    ensures
        r@ == digits5(value as int),
{
    let mut bytes: [u8; 5] = [0, 0, 0, 0, 0];
    let mut magnitude: u64 = value;
    let mut i: usize = 0;
    proof {
        lemma_pow256_values();
    }
    while i < 5
        invariant
            i <= 5,
            magnitude == value as int / pow256(i as nat),
            forall|idx: int|
                5 - i <= idx < 5 ==> bytes@[idx] == nth_byte(value as int, (4 - idx) as nat),
        decreases 5 - i,
    {
        proof {
            lemma_pow256_pos(i as nat);
        }
        bytes[4 - i] = (magnitude % 256) as u8;
        magnitude = magnitude / 256;
        proof {
            lemma_div_denominator(value as int, pow256(i as nat), 256);
            assert(pow256(i as nat) * 256 == 256 * pow256(i as nat));
            assert(pow256((i + 1) as nat) == 256 * pow256(i as nat));
        }
        i = i + 1;
    }
    proof {
        assert(bytes@ =~= digits5(value as int));
    }
    bytes
}

/// The absolute value of the sum of the two field values.
pub open spec fn spec_add_magnitude(
    w1: WordView,
    w2: WordView,
    field_specification: (usize, usize),
) -> int {
    vstd::math::abs(
        spec_field_value(w1, field_specification) + spec_field_value(w2, field_specification),
    ) as int
}

/// The word an add produces: the absolute sum of the two field values is
/// written big-endian into the window and every byte outside the window is
/// zero; the sign is that of the sum when the window includes the sign
/// position, else positive.
pub open spec fn spec_add_result(
    w1: WordView,
    w2: WordView,
    field_specification: (usize, usize),
) -> WordView {
    let sum = spec_field_value(w1, field_specification) + spec_field_value(
        w2,
        field_specification,
    );
    let l = adjusted_left(field_specification);
    let r = adjusted_right(field_specification);
    WordView {
        positive: if zero_included(field_specification) {
            sum >= 0
        } else {
            true
        },
        bytes: Seq::new(5, |i: int| if l <= i <= r {
            nth_byte(spec_add_magnitude(w1, w2, field_specification), (r - i) as nat)
        } else {
            0u8
        }),
    }
}

/// Whether the absolute sum does not fit in the window: the magnitude left
/// over after the window's bytes are written is nonzero.
pub open spec fn spec_add_overflow(
    w1: WordView,
    w2: WordView,
    field_specification: (usize, usize),
) -> bool {
    spec_add_magnitude(w1, w2, field_specification) / pow256(window_len(field_specification))
        != 0
}

/// Adds the field values of two words. The absolute sum lands big-endian in
/// the window of a fresh word; magnitude that does not fit the window is
/// discarded and reported through the overflow flag. Fails when the field
/// specification is sign-only.
pub fn add_words(
    word1: &Word,
    word2: &Word,
    field_specification: (usize, usize),
) -> (result: Result<(Word, bool), Fault>)
    requires
        fs_in_range(field_specification),
    ensures
        result is Err <==> only_zero(field_specification),
        only_zero(field_specification) ==> result == Err::<(Word, bool), Fault>(
            Fault::ArithmeticDomainFault,
        ),
        !only_zero(field_specification) ==> (result matches Ok(p) && p.0@ == spec_add_result(
            word1@,
            word2@,
            field_specification,
        ) && p.1 == spec_add_overflow(word1@, word2@, field_specification)),
{
    let (zero_is_included, is_only_zero, (l, r)) = adjusted_field_specification(
        field_specification,
    );
    if is_only_zero {
        return Err(Fault::ArithmeticDomainFault);
    }
    let word1_value = word1.field_value(field_specification);
    let word2_value = word2.field_value(field_specification);
    proof {
        lemma_pow256_values();
    }
    let sum: i64 = word1_value + word2_value;
    let mut word = Word::default();
    if zero_is_included {
        word.positive = sum >= 0;
    }
    let ghost target = spec_add_result(word1@, word2@, field_specification);
    let mut magnitude: u64 = if sum >= 0 {
        sum as u64
    } else {
        (-sum) as u64
    };
    let ghost mag0 = magnitude as int;
    proof {
        assert(mag0 == spec_add_magnitude(word1@, word2@, field_specification));
        vstd::arithmetic::div_mod::lemma_div_basics(mag0);
    }
    let mut i: usize = r + 1;
    while i > l
        invariant
            fs_in_range(field_specification),
            l == adjusted_left(field_specification),
            r == adjusted_right(field_specification),
            r <= 4,
            i <= r + 1,
            l <= r ==> l <= i,
            l > r ==> i == r + 1,
            mag0 >= 0,
            magnitude == mag0 / pow256((r + 1 - i) as nat),
            word@.positive == target.positive,
            forall|j: int| i <= j <= r ==> word@.bytes[j] == nth_byte(mag0, (r - j) as nat),
            forall|j: int| 0 <= j < 5 && !(i <= j <= r) ==> word@.bytes[j] == 0,
        decreases i,
    {
        i = i - 1;
        let ghost prev = word@.bytes;
        word.bytes[i] = (magnitude % 256) as u8;
        proof {
            assert(word@.bytes == prev.update(i as int, (magnitude % 256) as u8));
            assert forall|j: int| i <= j <= r implies word@.bytes[j] == nth_byte(
                mag0,
                (r - j) as nat,
            ) by {
                if j != i {
                    assert(word@.bytes[j] == prev[j]);
                }
            }
            assert forall|j: int| 0 <= j < 5 && !(i <= j <= r) implies word@.bytes[j] == 0 by {
                assert(word@.bytes[j] == prev[j]);
            }
        }
        magnitude = magnitude / 256;
        proof {
            lemma_pow256_pos((r - i) as nat);
            lemma_div_denominator(mag0, pow256((r - i) as nat), 256);
            assert(pow256((r - i) as nat) * 256 == 256 * pow256((r - i) as nat));
            assert(pow256((r + 1 - i) as nat) == 256 * pow256((r - i) as nat));
        }
    }
    proof {
        assert(magnitude == mag0 / pow256(window_len(field_specification)));
        assert(word@.bytes =~= target.bytes);
        assert(word@ =~= target);
    }
    Ok((word, magnitude != 0))
}

/// The full value of the first word times the field value of the second.
pub open spec fn spec_multiply_product(
    w1: WordView,
    w2: WordView,
    field_specification: (usize, usize),
) -> int {
    spec_field_value(w1, (0usize, 5usize)) * spec_field_value(w2, field_specification)
}

/// The double-word a multiply produces: the absolute product's ten bytes,
/// big-endian, split into an upper and a lower word. Both words carry the
/// product's sign when the window includes the sign position, else both are
/// positive.
pub open spec fn spec_multiply_words(
    w1: WordView,
    w2: WordView,
    field_specification: (usize, usize),
) -> (WordView, WordView) {
    let product = spec_multiply_product(w1, w2, field_specification);
    let magnitude = vstd::math::abs(product) as int;
    let sign = if zero_included(field_specification) {
        product >= 0
    } else {
        true
    };
    (
        WordView {
            positive: sign,
            bytes: Seq::new(5, |i: int| nth_byte(magnitude, (9 - i) as nat)),
        },
        WordView {
            positive: sign,
            bytes: Seq::new(5, |i: int| nth_byte(magnitude, (4 - i) as nat)),
        },
    )
}

/// Multiplies the full value of the first word by the field value of the
/// second, producing the upper and lower halves of the ten-byte product.
/// Fails when the field specification is sign-only.
pub fn multiply_words(
    word1: &Word,
    word2: &Word,
    field_specification: (usize, usize),
) -> (result: Result<(Word, Word), Fault>)
    requires
        fs_in_range(field_specification),
    ensures
        result is Err <==> only_zero(field_specification),
        only_zero(field_specification) ==> result == Err::<(Word, Word), Fault>(
            Fault::ArithmeticDomainFault,
        ),
        !only_zero(field_specification) ==> (result matches Ok(p) && p.0@ == spec_multiply_words(
            word1@,
            word2@,
            field_specification,
        ).0 && p.1@ == spec_multiply_words(word1@, word2@, field_specification).1),
{
    let (zero_is_included, is_only_zero, _) = adjusted_field_specification(field_specification);
    if is_only_zero {
        return Err(Fault::ArithmeticDomainFault);
    }
    let word1_value = word1.field_value((0, 5));
    let word2_value = word2.field_value(field_specification);
    proof {
        lemma_pow256_values();
        crate::magnitude::lemma_product_fits_ten_bytes(word1_value as int, word2_value as int);
    }
    let product: i128 = (word1_value as i128) * (word2_value as i128);
    let positive = if zero_is_included {
        product >= 0
    } else {
        true
    };
    let magnitude: u128 = if product >= 0 {
        product as u128
    } else {
        (-product) as u128
    };
    let ghost mag0 = magnitude as int;
    let lower_bytes = encode_low_bytes((magnitude % 0x10000000000) as u64);
    let upper_bytes = encode_low_bytes((magnitude / 0x10000000000) as u64);
    let word_upper = Word { positive, bytes: upper_bytes };
    let word_lower = Word { positive, bytes: lower_bytes };
    proof {
        let ghost target = spec_multiply_words(word1@, word2@, field_specification);
        assert(mag0 == vstd::math::abs(spec_multiply_product(word1@, word2@, field_specification)));
        assert forall|i: int| 0 <= i < 5 implies lower_bytes@[i] == target.1.bytes[i] by {
            crate::magnitude::lemma_nth_byte_mod(mag0, 5, (4 - i) as nat);
        }
        assert forall|i: int| 0 <= i < 5 implies upper_bytes@[i] == target.0.bytes[i] by {
            crate::magnitude::lemma_nth_byte_div5(mag0, (4 - i) as nat);
        }
        assert(word_lower@.bytes =~= target.1.bytes);
        assert(word_upper@.bytes =~= target.0.bytes);
        assert(word_upper@ =~= target.0);
        assert(word_lower@ =~= target.1);
    }
    Ok((word_upper, word_lower))
}

/// The ten-byte dividend: the magnitude of the upper word shifted five
/// bytes up, joined with the magnitude of the lower word.
pub open spec fn spec_dividend_value(hi: WordView, lo: WordView) -> int {
    spec_field_value(hi, (1usize, 5usize)) * pow256(5) + spec_field_value(lo, (1usize, 5usize))
}

/// What a divide produces: on a zero divisor, two zero words and the
/// divide-by-zero flag. Otherwise the quotient word holds the low five
/// magnitude bytes of the dividend divided by the divisor's magnitude, its
/// sign positive exactly when the window includes the sign position and
/// the operand signs agree; the remainder word holds the remainder's bytes
/// under the sign of the upper dividend word.
pub open spec fn spec_divide_words(
    hi: WordView,
    lo: WordView,
    divisor: WordView,
    field_specification: (usize, usize),
) -> (WordView, WordView, bool) {
    let divisor_value = spec_field_value(divisor, field_specification);
    if divisor_value == 0 {
        (crate::word::zero_word(), crate::word::zero_word(), true)
    } else {
        let dividend = spec_dividend_value(hi, lo);
        let divisor_magnitude = vstd::math::abs(divisor_value) as int;
        let quotient = dividend / divisor_magnitude;
        let remainder = dividend % divisor_magnitude;
        let quotient_low = quotient % pow256(5);
        (
            WordView {
                positive: if zero_included(field_specification) {
                    hi.positive == divisor.positive
                } else {
                    true
                },
                bytes: digits5(quotient_low),
            },
            WordView { positive: hi.positive, bytes: digits5(remainder) },
            false,
        )
    }
}

/// Divides the ten-byte dividend built from two words by the field value of
/// the divisor. A zero divisor yields zero words and the divide-by-zero
/// flag rather than a fault; a sign-only field specification fails.
pub fn divide_words(
    word1: &Word,
    word2: &Word,
    word3: &Word,
    field_specification: (usize, usize),
) -> (result: Result<(Word, Word, bool), Fault>)
    requires
        fs_in_range(field_specification),
    ensures
        result is Err <==> only_zero(field_specification),
        only_zero(field_specification) ==> result == Err::<(Word, Word, bool), Fault>(
            Fault::ArithmeticDomainFault,
        ),
        !only_zero(field_specification) ==> (result matches Ok(t) && t.0@ == spec_divide_words(
            word1@,
            word2@,
            word3@,
            field_specification,
        ).0 && t.1@ == spec_divide_words(word1@, word2@, word3@, field_specification).1 && t.2
            == spec_divide_words(word1@, word2@, word3@, field_specification).2),
{
    let (zero_is_included, is_only_zero, _) = adjusted_field_specification(field_specification);
    if is_only_zero {
        return Err(Fault::ArithmeticDomainFault);
    }
    let divisor_value = word3.field_value(field_specification);
    if divisor_value == 0 {
        return Ok((Word::default(), Word::default(), true));
    }
    proof {
        lemma_pow256_values();
    }
    let divisor_magnitude: u64 = if divisor_value >= 0 {
        divisor_value as u64
    } else {
        (-divisor_value) as u64
    };
    let hi_value = word1.field_value((1, 5));
    let lo_value = word2.field_value((1, 5));
    proof {
        crate::word::lemma_field_value_bounds(word1@, (1usize, 5usize));
        crate::word::lemma_field_value_bounds(word2@, (1usize, 5usize));
    }
    let dividend: u128 = (hi_value as u128) * 0x10000000000 + (lo_value as u128);
    let quotient: u128 = dividend / (divisor_magnitude as u128);
    let remainder: u64 = (dividend % (divisor_magnitude as u128)) as u64;
    let quotient_low: u64 = (quotient % 0x10000000000) as u64;
    let quotient_positive = if zero_is_included {
        word1.positive == word3.positive
    } else {
        true
    };
    let word_div = Word { positive: quotient_positive, bytes: encode_low_bytes(quotient_low) };
    let word_rem = Word { positive: word1.positive, bytes: encode_low_bytes(remainder) };
    proof {
        let target = spec_divide_words(word1@, word2@, word3@, field_specification);
        assert(quotient_low as int == (quotient as int) % pow256(5));
        assert(word_div@.bytes =~= target.0.bytes);
        assert(word_rem@.bytes =~= target.1.bytes);
        assert(word_div@ =~= target.0);
        assert(word_rem@ =~= target.1);
    }
    Ok((word_div, word_rem, false))
}

/// The first byte difference in the window decides; a window with no
/// difference compares equal.
pub open spec fn compare_window(s1: Seq<u8>, s2: Seq<u8>, i: int, r: int) -> ComparisonFlag
    decreases r + 1 - i,
{
    if i > r {
        ComparisonFlag::equal
    } else if s1[i] > s2[i] {
        ComparisonFlag::greater
    } else if s1[i] < s2[i] {
        ComparisonFlag::less
    } else {
        compare_window(s1, s2, i + 1, r)
    }
}

/// The outcome of a field-windowed compare: a sign-only window compares
/// equal; when the window includes the sign position and the signs differ,
/// the sign alone decides; otherwise the window's bytes decide left to
/// right.
pub open spec fn spec_compare_words(
    w1: WordView,
    w2: WordView,
    field_specification: (usize, usize),
) -> ComparisonFlag {
    if only_zero(field_specification) {
        ComparisonFlag::equal
    } else if zero_included(field_specification) && w1.positive != w2.positive {
        if w1.positive {
            ComparisonFlag::greater
        } else {
            ComparisonFlag::less
        }
    } else {
        compare_window(
            w1.bytes,
            w2.bytes,
            adjusted_left(field_specification),
            adjusted_right(field_specification),
        )
    }
}

pub proof fn lemma_compare_window_refl(s: Seq<u8>, i: int, r: int)
    ensures
        compare_window(s, s, i, r) == ComparisonFlag::equal,
    decreases r + 1 - i,
{
    if i <= r {
        lemma_compare_window_refl(s, i + 1, r);
    }
}

/// Every word compares equal to itself over the full window.
pub proof fn lemma_compare_words_refl(w: WordView)
    ensures
        spec_compare_words(w, w, (0usize, 5usize)) == ComparisonFlag::equal,
{
    lemma_compare_window_refl(w.bytes, 0, 4);
}

/// The result of a byte-granular left shift of one word: cyclic mode
/// rotates the five magnitude bytes; non-cyclic mode zero-fills from the
/// right, so a shift by five or more clears every magnitude byte. The sign
/// is never altered.
pub open spec fn spec_single_word_left_shift(w: WordView, amount: nat, cycle: bool) -> WordView {
    WordView {
        positive: w.positive,
        bytes: if cycle {
            Seq::new(5, |i: int| w.bytes[(i + amount) % 5])
        } else {
            Seq::new(5, |i: int| if i + amount < 5 {
                w.bytes[i + amount]
            } else {
                0u8
            })
        },
    }
}

/// The result of a byte-granular right shift of one word, the mirror image
/// of the left shift.
pub open spec fn spec_single_word_right_shift(w: WordView, amount: nat, cycle: bool) -> WordView {
    WordView {
        positive: w.positive,
        bytes: if cycle {
            Seq::new(5, |i: int| w.bytes[(i - amount) % 5])
        } else {
            Seq::new(5, |i: int| if amount <= i {
                w.bytes[i - amount]
            } else {
                0u8
            })
        },
    }
}

/// A non-cyclic left shift by five clears every magnitude byte and leaves
/// the sign unchanged.
pub proof fn lemma_left_shift_five_clears(w: WordView)
    ensures
        spec_single_word_left_shift(w, 5, false) == (WordView {
            positive: w.positive,
            bytes: Seq::new(5, |i: int| 0u8),
        }),
{
    assert(spec_single_word_left_shift(w, 5, false).bytes =~= Seq::new(5, |i: int| 0u8));
    assert(spec_single_word_left_shift(w, 5, false) =~= (WordView {
        positive: w.positive,
        bytes: Seq::new(5, |i: int| 0u8),
    }));
}

/// Shifts the magnitude bytes left by `amount` positions: bytes cycle back
/// in from the right in cyclic mode and zeros come in otherwise.
pub fn single_word_left_shift(word: &Word, amount: usize, cycle: bool) -> (r: Word)
    ensures
        r@ == spec_single_word_left_shift(word@, amount as nat, cycle),
{
    let ghost target = spec_single_word_left_shift(word@, amount as nat, cycle);
    let mut bytes: [u8; 5] = [0, 0, 0, 0, 0];
    if cycle {
        let a: usize = amount % 5;
        let mut i: usize = 0;
        while i < 5
            invariant
                a == amount % 5,
                i <= 5,
                word@.bytes.len() == 5,
                forall|j: int|
                    0 <= j < i ==> bytes@[j] == word@.bytes[(j + amount as int) % 5],
            decreases 5 - i,
        {
            bytes[i] = word.bytes[(i + a) % 5];
            proof {
                vstd::arithmetic::div_mod::lemma_fundamental_div_mod(amount as int, 5);
                vstd::arithmetic::div_mod::lemma_mod_multiples_vanish(
                    amount as int / 5,
                    i + a,
                    5,
                );
                assert(i + amount == 5 * (amount as int / 5) + (i + a));
            }
            i = i + 1;
        }
    } else {
        let mut i: usize = 0;
        while i < 5
            invariant
                i <= 5,
                forall|j: int|
                    0 <= j < i ==> bytes@[j] == (if j + amount < 5 {
                        word@.bytes[j + amount]
                    } else {
                        0u8
                    }),
                forall|j: int| i <= j < 5 ==> bytes@[j] == 0,
            decreases 5 - i,
        {
            if amount < 5 && i < 5 - amount {
                bytes[i] = word.bytes[i + amount];
            }
            i = i + 1;
        }
    }
    let r = Word { positive: word.positive, bytes };
    proof {
        assert(r@.bytes =~= target.bytes);
        assert(r@ =~= target);
    }
    r
}

/// Shifts the magnitude bytes right by `amount` positions: bytes cycle back
/// in from the left in cyclic mode and zeros come in otherwise.
pub fn single_word_right_shift(word: &Word, amount: usize, cycle: bool) -> (r: Word)
    ensures
        r@ == spec_single_word_right_shift(word@, amount as nat, cycle),
{
    let ghost target = spec_single_word_right_shift(word@, amount as nat, cycle);
    let mut bytes: [u8; 5] = [0, 0, 0, 0, 0];
    if cycle {
        let a: usize = amount % 5;
        let mut i: usize = 0;
        while i < 5
            invariant
                a == amount % 5,
                i <= 5,
                word@.bytes.len() == 5,
                forall|j: int|
                    0 <= j < i ==> bytes@[j] == word@.bytes[(j - amount as int) % 5],
            decreases 5 - i,
        {
            bytes[i] = word.bytes[(i + 5 - a) % 5];
            proof {
                vstd::arithmetic::div_mod::lemma_fundamental_div_mod(amount as int, 5);
                vstd::arithmetic::div_mod::lemma_mod_multiples_vanish(
                    -(amount as int / 5) - 1,
                    i + 5 - a,
                    5,
                );
                assert(i - amount == 5 * (-(amount as int / 5) - 1) + (i + 5 - a));
            }
            i = i + 1;
        }
    } else {
        let mut i: usize = 0;
        while i < 5
            invariant
                i <= 5,
                forall|j: int|
                    0 <= j < i ==> bytes@[j] == (if amount <= j {
                        word@.bytes[j - amount]
                    } else {
                        0u8
                    }),
                forall|j: int| i <= j < 5 ==> bytes@[j] == 0,
            decreases 5 - i,
        {
            if amount <= i {
                bytes[i] = word.bytes[i - amount];
            }
            i = i + 1;
        }
    }
    let r = Word { positive: word.positive, bytes };
    proof {
        assert(r@.bytes =~= target.bytes);
        assert(r@ =~= target);
    }
    r
}

/// The result of shifting the ten magnitude bytes of two words left as one
/// contiguous run, zero-filling from the right; both signs are preserved.
pub open spec fn spec_double_word_left_shift(hi: WordView, lo: WordView, amount: nat) -> (
    WordView,
    WordView,
) {
    let combined = hi.bytes + lo.bytes;
    let shifted = Seq::new(10, |i: int| if i + amount < 10 {
        combined[i + amount]
    } else {
        0u8
    });
    (
        WordView { positive: hi.positive, bytes: shifted.subrange(0, 5) },
        WordView { positive: lo.positive, bytes: shifted.subrange(5, 10) },
    )
}

/// The result of shifting the ten magnitude bytes of two words right as one
/// contiguous run, zero-filling from the left; both signs are preserved.
pub open spec fn spec_double_word_right_shift(hi: WordView, lo: WordView, amount: nat) -> (
    WordView,
    WordView,
) {
    let combined = hi.bytes + lo.bytes;
    let shifted = Seq::new(10, |i: int| if amount <= i {
        combined[i - amount]
    } else {
        0u8
    });
    (
        WordView { positive: hi.positive, bytes: shifted.subrange(0, 5) },
        WordView { positive: lo.positive, bytes: shifted.subrange(5, 10) },
    )
}

/// A double-word left shift by ten clears every magnitude byte of both
/// words and leaves both signs unchanged.
pub proof fn lemma_double_left_shift_ten_clears(hi: WordView, lo: WordView)
    ensures
        spec_double_word_left_shift(hi, lo, 10).0 == (WordView {
            positive: hi.positive,
            bytes: Seq::new(5, |i: int| 0u8),
        }),
        spec_double_word_left_shift(hi, lo, 10).1 == (WordView {
            positive: lo.positive,
            bytes: Seq::new(5, |i: int| 0u8),
        }),
{
    let zeroes = Seq::new(5, |i: int| 0u8);
    assert(spec_double_word_left_shift(hi, lo, 10).0.bytes =~= zeroes);
    assert(spec_double_word_left_shift(hi, lo, 10).1.bytes =~= zeroes);
    assert(spec_double_word_left_shift(hi, lo, 10).0 =~= (WordView {
        positive: hi.positive,
        bytes: zeroes,
    }));
    assert(spec_double_word_left_shift(hi, lo, 10).1 =~= (WordView {
        positive: lo.positive,
        bytes: zeroes,
    }));
}

/// Shifts the ten magnitude bytes of two words left as one contiguous run.
pub fn double_word_left_shift(word1: &Word, word2: &Word, amount: usize) -> (r: (Word, Word))
    ensures
        r.0@ == spec_double_word_left_shift(word1@, word2@, amount as nat).0,
        r.1@ == spec_double_word_left_shift(word1@, word2@, amount as nat).1,
{
    let ghost target = spec_double_word_left_shift(word1@, word2@, amount as nat);
    let ghost combined = word1@.bytes + word2@.bytes;
    let mut shifted: [u8; 10] = [0, 0, 0, 0, 0, 0, 0, 0, 0, 0];
    let mut i: usize = 0;
    while i < 10
        invariant
            i <= 10,
            combined == word1@.bytes + word2@.bytes,
            word1@.bytes.len() == 5,
            word2@.bytes.len() == 5,
            forall|j: int|
                0 <= j < i ==> shifted@[j] == (if j + amount < 10 {
                    combined[j + amount]
                } else {
                    0u8
                }),
            forall|j: int| i <= j < 10 ==> shifted@[j] == 0,
        decreases 10 - i,
    {
        let incoming: u8 = if amount < 10 && i < 10 - amount {
            if i + amount < 5 {
                word1.bytes[i + amount]
            } else {
                word2.bytes[i + amount - 5]
            }
        } else {
            0
        };
        let ghost prev = shifted@;
        shifted[i] = incoming;
        proof {
            assert(shifted@ == prev.update(i as int, incoming));
            assert forall|j: int| 0 <= j < i + 1 implies shifted@[j] == (if j + amount < 10 {
                combined[j + amount]
            } else {
                0u8
            }) by {
                if j == i {
                    if i + amount < 10 {
                        if i + amount < 5 {
                            assert(combined[i + amount as int] == word1@.bytes[i + amount as int]);
                        } else {
                            assert(combined[i + amount as int] == word2@.bytes[i + amount as int - 5]);
                        }
                    }
                } else {
                    assert(shifted@[j] == prev[j]);
                }
            }
            assert forall|j: int| i + 1 <= j < 10 implies shifted@[j] == 0 by {
                assert(shifted@[j] == prev[j]);
            }
        }
        i = i + 1;
    }
    let mut bytes1: [u8; 5] = [0, 0, 0, 0, 0];
    let mut bytes2: [u8; 5] = [0, 0, 0, 0, 0];
    let mut k: usize = 0;
    while k < 5
        invariant
            k <= 5,
            combined == word1@.bytes + word2@.bytes,
            word1@.bytes.len() == 5,
            word2@.bytes.len() == 5,
            forall|j: int|
                0 <= j < 10 ==> shifted@[j] == (if j + amount < 10 {
                    combined[j + amount]
                } else {
                    0u8
                }),
            forall|j: int| 0 <= j < k ==> bytes1@[j] == shifted@[j],
            forall|j: int| 0 <= j < k ==> bytes2@[j] == shifted@[j + 5],
        decreases 5 - k,
    {
        bytes1[k] = shifted[k];
        bytes2[k] = shifted[k + 5];
        k = k + 1;
    }
    let r = (
        Word { positive: word1.positive, bytes: bytes1 },
        Word { positive: word2.positive, bytes: bytes2 },
    );
    proof {
        assert(r.0@.bytes =~= target.0.bytes);
        assert(r.1@.bytes =~= target.1.bytes);
        assert(r.0@ =~= target.0);
        assert(r.1@ =~= target.1);
    }
    r
}

/// Shifts the ten magnitude bytes of two words right as one contiguous run.
pub fn double_word_right_shift(word1: &Word, word2: &Word, amount: usize) -> (r: (Word, Word))
    ensures
        r.0@ == spec_double_word_right_shift(word1@, word2@, amount as nat).0,
        r.1@ == spec_double_word_right_shift(word1@, word2@, amount as nat).1,
{
    let ghost target = spec_double_word_right_shift(word1@, word2@, amount as nat);
    let ghost combined = word1@.bytes + word2@.bytes;
    let mut shifted: [u8; 10] = [0, 0, 0, 0, 0, 0, 0, 0, 0, 0];
    let mut i: usize = 0;
    while i < 10
        invariant
            i <= 10,
            combined == word1@.bytes + word2@.bytes,
            word1@.bytes.len() == 5,
            word2@.bytes.len() == 5,
            forall|j: int|
                0 <= j < i ==> shifted@[j] == (if amount <= j {
                    combined[j - amount]
                } else {
                    0u8
                }),
            forall|j: int| i <= j < 10 ==> shifted@[j] == 0,
        decreases 10 - i,
    {
        let incoming: u8 = if amount <= i {
            if i - amount < 5 {
                word1.bytes[i - amount]
            } else {
                word2.bytes[i - amount - 5]
            }
        } else {
            0
        };
        let ghost prev = shifted@;
        shifted[i] = incoming;
        proof {
            assert(shifted@ == prev.update(i as int, incoming));
            assert forall|j: int| 0 <= j < i + 1 implies shifted@[j] == (if amount <= j {
                combined[j - amount]
            } else {
                0u8
            }) by {
                if j == i {
                    if amount <= i {
                        if i - amount < 5 {
                            assert(combined[i - amount as int] == word1@.bytes[i - amount as int]);
                        } else {
                            assert(combined[i - amount as int] == word2@.bytes[i - amount as int - 5]);
                        }
                    }
                } else {
                    assert(shifted@[j] == prev[j]);
                }
            }
            assert forall|j: int| i + 1 <= j < 10 implies shifted@[j] == 0 by {
                assert(shifted@[j] == prev[j]);
            }
        }
        i = i + 1;
    }
    let mut bytes1: [u8; 5] = [0, 0, 0, 0, 0];
    let mut bytes2: [u8; 5] = [0, 0, 0, 0, 0];
    let mut k: usize = 0;
    while k < 5
        invariant
            k <= 5,
            combined == word1@.bytes + word2@.bytes,
            word1@.bytes.len() == 5,
            word2@.bytes.len() == 5,
            forall|j: int|
                0 <= j < 10 ==> shifted@[j] == (if amount <= j {
                    combined[j - amount]
                } else {
                    0u8
                }),
            forall|j: int| 0 <= j < k ==> bytes1@[j] == shifted@[j],
            forall|j: int| 0 <= j < k ==> bytes2@[j] == shifted@[j + 5],
        decreases 5 - k,
    {
        bytes1[k] = shifted[k];
        bytes2[k] = shifted[k + 5];
        k = k + 1;
    }
    let r = (
        Word { positive: word1.positive, bytes: bytes1 },
        Word { positive: word2.positive, bytes: bytes2 },
    );
    proof {
        assert(r.0@.bytes =~= target.0.bytes);
        assert(r.1@.bytes =~= target.1.bytes);
        assert(r.0@ =~= target.0);
        assert(r.1@ =~= target.1);
    }
    r
}

/// Compares the field windows of two words.
pub fn compare_words(
    word1: &Word,
    word2: &Word,
    field_specification: (usize, usize),
) -> (r: ComparisonFlag)
    requires
        fs_in_range(field_specification),
    ensures
        r == spec_compare_words(word1@, word2@, field_specification),
{
    let (zero_is_included, is_only_zero, (left, right)) = adjusted_field_specification(
        field_specification,
    );
    if is_only_zero {
        return ComparisonFlag::equal;
    }
    if zero_is_included && word1.positive != word2.positive {
        if word1.positive {
            return ComparisonFlag::greater;
        } else {
            return ComparisonFlag::less;
        }
    }
    let mut i: usize = left;
    while i <= right
        invariant
            fs_in_range(field_specification),
            left == adjusted_left(field_specification),
            right == adjusted_right(field_specification),
            right <= 4,
            left <= i <= 5,
            !only_zero(field_specification),
            zero_included(field_specification) ==> word1@.positive == word2@.positive,
            compare_window(word1@.bytes, word2@.bytes, left as int, right as int)
                == compare_window(word1@.bytes, word2@.bytes, i as int, right as int),
        decreases 5 - i,
    {
        if word1.bytes[i] > word2.bytes[i] {
            return ComparisonFlag::greater;
        } else if word1.bytes[i] < word2.bytes[i] {
            return ComparisonFlag::less;
        }
        i = i + 1;
    }
    ComparisonFlag::equal
}

} // verus!
