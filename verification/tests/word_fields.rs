use mix_machine::fault::Fault;
use mix_machine::instruction_functions::{copy_word_fields, copy_word_fields_i};
use mix_machine::word::Word;

#[test]
fn copy_word_fields_full() {
    let word1 = Word::new(true, [1, 1, 1, 1, 1]);
    let mut word2 = Word::default();
    let left = 0;
    let right = 5;
    copy_word_fields(&word1, &mut word2, (left, right));
    println!("[{:?}] [{:?}]", word1, word2);
    assert_eq!(word1, word2);
}

#[test]
fn copy_word_fields_partial() {
    let word1 = Word::new(true, [1, 1, 1, 1, 1]);
    let mut word2 = Word::default();
    let left = 0;
    let right = 2;
    copy_word_fields(&word1, &mut word2, (left, right));

    assert_eq!(word1.positive, word2.positive);
    for i in 0..=1 {
        assert_eq!(word1.bytes[i], word2.bytes[i]);
    }
    for i in 2..=4 {
        assert_ne!(word1.bytes[i], word2.bytes[i]);
    }
}

#[test]
fn copy_word_fields_single() {
    let word1 = Word::new(false, [1, 1, 1, 1, 1]);
    let mut word2 = Word::default();
    let left = 2;
    let right = 2;
    copy_word_fields(&word1, &mut word2, (left, right));

    assert_ne!(word1.positive, word2.positive);
    for i in 0..=0 {
        assert_ne!(word1.bytes[i], word2.bytes[i]);
    }
    assert_eq!(word1.bytes[1], word2.bytes[1]);
    for i in 2..=4 {
        assert_ne!(word1.bytes[i], word2.bytes[i]);
    }
}

#[test]
fn copy_word_fields_sign_only_window_copies_no_bytes() {
    let word1 = Word::new(false, [1, 2, 3, 4, 5]);

    // Sign excluded and no magnitude position: nothing changes at all.
    let mut word2 = Word::default();
    copy_word_fields(&word1, &mut word2, (1, 0));
    assert_eq!(word2, Word::default());

    // Sign included and no magnitude position: only the sign is copied.
    let mut word3 = Word::default();
    copy_word_fields(&word1, &mut word3, (0, 0));
    assert_eq!(word3, Word::new(false, [0, 0, 0, 0, 0]));
}

#[test]
fn copy_word_fields_i_rejects_magnitude_only_window() {
    let word1 = Word::new(false, [1, 2, 3, 4, 5]);
    let mut word2 = Word::default();
    let before = word2;
    let result = copy_word_fields_i(&word1, &mut word2, (1, 3));
    assert_eq!(result, Err(Fault::InvalidFieldSpec));
    assert_eq!(word2, before);
}

#[test]
fn field_value_sign_only_is_zero() {
    let word = Word::new(false, [255, 255, 255, 255, 255]);
    assert_eq!(word.field_value((0, 0)), 0);
    assert_eq!(word.field_value((3, 0)), 0);
}

#[test]
fn field_value_reads_window_big_endian() {
    let word = Word::new(false, [1, 2, 3, 4, 5]);
    assert_eq!(word.field_value((1, 2)), 0x0102);
    assert_eq!(word.field_value((4, 5)), 0x0405);
    assert_eq!(word.field_value((1, 5)), 0x0102030405);
    assert_eq!(word.field_value((0, 5)), -0x0102030405);
}

#[test]
fn from_value_encodes_sign_and_low_bytes() {
    let positive = Word::from_value(1000);
    assert_eq!(positive, Word::new(true, [0, 0, 0, 3, 232]));
    let negative = Word::from_value(-1000);
    assert_eq!(negative, Word::new(false, [0, 0, 0, 3, 232]));
    assert_eq!(Word::from_value(0), Word::new(true, [0, 0, 0, 0, 0]));
}

#[test]
fn negate_flips_only_the_sign() {
    let word = Word::new(true, [9, 8, 7, 6, 5]);
    let negated = word.negate();
    assert_eq!(negated, Word::new(false, [9, 8, 7, 6, 5]));
    assert_eq!(negated.negate(), word);
}

#[test]
fn instruction_word_accessors() {
    let word = Word::new(true, [7, 208, 3, 5, 8]);
    assert_eq!(word.address(), 7 * 256 + 208);
    assert_eq!(word.index(), 3);
    assert_eq!(word.field(), 5);
    assert_eq!(word.opcode(), 8);
}
