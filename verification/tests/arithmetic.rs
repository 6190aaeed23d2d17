use mix_machine::computer::{ComparisonFlag, Computer};
use mix_machine::fault::Fault;
use mix_machine::instruction::Instruction;
use mix_machine::instruction_functions::{add_words, compare_words, divide_words, multiply_words};
use mix_machine::word::Word;

const ADDRESS: usize = 2000;

fn sample_mem() -> Word {
    Word::new(false, [1, 2, 3, 4, 5])
}

fn sample_reg() -> Word {
    Word::new(true, [0, 0, 0, 9, 1])
}

fn make_add_with_range(begin: usize, end: usize) -> Instruction {
    Instruction::Add { address: ADDRESS, field_specification: (begin, end) }
}

fn add_test_setup(begin: usize, end: usize) -> Computer {
    let mut computer = Computer::default();
    computer.ra = sample_reg();
    computer.memory[ADDRESS] = sample_mem();
    let store = make_add_with_range(begin, end);
    store.execute_on(&mut computer).unwrap();
    computer
}

#[test]
fn add_full() {
    let computer = add_test_setup(0, 5);
    let should_be = Word::new(false, [1, 2, 2, 251, 4]);
    println!(
        "{:?} {:?} {:?} {:?}",
        computer.ra,
        should_be,
        computer.ra.field_value((0, 5)),
        should_be.field_value((0, 5))
    );
    assert_eq!(computer.ra, should_be);
}

#[test]
fn add_1_5() {
    let computer = add_test_setup(1, 5);
    let should_be = Word::new(true, [1, 2, 3, 13, 6]);
    println!("{:?} {:?}", computer.ra, should_be);
    assert_eq!(computer.ra, should_be);
}

#[test]
fn add_0_3() {
    let computer = add_test_setup(0, 3);
    let should_be = Word::new(false, [1, 2, 3, 9, 1]);
    println!("{:?} {:?}", computer.ra, should_be);
    assert_eq!(computer.ra, should_be);
}

#[test]
fn add_4_5() {
    let computer = add_test_setup(4, 5);
    let should_be = Word::new(true, [0, 0, 0, 13, 6]);
    println!("{:?} {:?}", computer.ra, should_be);
    assert_eq!(computer.ra, should_be);
}

#[test]
fn add_sign_only_window_faults() {
    let mut computer = Computer::default();
    computer.ra = sample_reg();
    computer.memory[ADDRESS] = sample_mem();
    let add = make_add_with_range(0, 0);
    assert_eq!(add.execute_on(&mut computer), Err(Fault::ArithmeticDomainFault));
    assert_eq!(computer.ra, sample_reg());
    assert_eq!(
        add_words(&sample_reg(), &sample_mem(), (0, 0)),
        Err(Fault::ArithmeticDomainFault)
    );
}

#[test]
fn add_reports_window_overflow() {
    let (word, overflow) =
        add_words(&Word::new(true, [0, 0, 0, 255, 255]), &Word::new(true, [0, 0, 0, 0, 1]), (4, 5))
            .unwrap();
    assert_eq!(word, Word::new(true, [0, 0, 0, 0, 0]));
    assert!(overflow);
}

#[test]
fn mult_full() {
    let word1 = Word::new(true, [1, 1, 1, 1, 1]);
    let word2 = Word::new(true, [1, 1, 1, 1, 1]);
    let output = multiply_words(&word1, &word2, (0, 5)).unwrap();
    let should_be = (Word::new(true, [0, 1, 2, 3, 4]), Word::new(true, [5, 4, 3, 2, 1]));
    println!("{:#?} {:#?}", output, should_be);
    assert_eq!(output, should_be);
}

#[test]
fn mult_neg() {
    let word1 = Word::new(true, [1, 1, 1, 1, 1]);
    let word2 = Word::new(false, [1, 1, 1, 1, 1]);
    let output = multiply_words(&word1, &word2, (0, 5)).unwrap();
    let should_be = (Word::new(false, [0, 1, 2, 3, 4]), Word::new(false, [5, 4, 3, 2, 1]));
    println!("{:#?} {:#?}", output, should_be);
    assert_eq!(output, should_be);
}

#[test]
fn mult_2_2() {
    let word1 = Word::new(true, [1, 1, 1, 1, 1]);
    let word2 = Word::new(true, [1, 2, 1, 1, 1]);
    let output = multiply_words(&word1, &word2, (2, 2)).unwrap();
    let should_be = (Word::new(true, [0, 0, 0, 0, 0]), Word::new(true, [2, 2, 2, 2, 2]));
    println!("{:#?} {:#?}", output, should_be);
    assert_eq!(output, should_be);
}

#[test]
fn mult_sign_only_window_faults() {
    let word1 = Word::new(true, [1, 1, 1, 1, 1]);
    let word2 = Word::new(true, [1, 1, 1, 1, 1]);
    assert_eq!(multiply_words(&word1, &word2, (0, 0)), Err(Fault::ArithmeticDomainFault));
}

#[test]
fn mult_instruction_negates_memory_operand() {
    let mut computer = Computer::default();
    computer.ra = Word::new(true, [0, 0, 0, 0, 2]);
    computer.memory[ADDRESS] = Word::new(true, [0, 0, 0, 0, 3]);
    let mult = Instruction::Mult { address: ADDRESS, field_specification: (0, 5) };
    mult.execute_on(&mut computer).unwrap();
    assert_eq!(computer.ra, Word::new(false, [0, 0, 0, 0, 0]));
    assert_eq!(computer.rx, Word::new(false, [0, 0, 0, 0, 6]));
}

#[test]
fn div_full() {
    let word_a = Word::new(true, [0, 0, 0, 0, 0]);
    let word_x = Word::new(false, [0, 0, 0, 0, 17]);
    let word_div = Word::new(true, [0, 0, 0, 0, 3]);
    let output = divide_words(&word_a, &word_x, &word_div, (0, 5)).unwrap();
    let should_be = (Word::new(true, [0, 0, 0, 0, 5]), Word::new(true, [0, 0, 0, 0, 2]), false);
    println!("{:#?} {:#?}", output, should_be);
    assert_eq!(output, should_be);
}

#[test]
fn div_negative_divisor_keeps_magnitude_digits() {
    let word_a = Word::new(true, [0, 0, 0, 0, 0]);
    let word_x = Word::new(true, [0, 0, 0, 0, 17]);
    let word_div = Word::new(false, [0, 0, 0, 0, 3]);
    let output = divide_words(&word_a, &word_x, &word_div, (0, 5)).unwrap();
    let should_be = (Word::new(false, [0, 0, 0, 0, 5]), Word::new(true, [0, 0, 0, 0, 2]), false);
    assert_eq!(output, should_be);
}

#[test]
fn div_sign_only_window_faults() {
    let word_a = Word::new(true, [0, 0, 0, 0, 0]);
    let word_x = Word::new(false, [0, 0, 0, 0, 17]);
    let word_div = Word::new(true, [0, 0, 0, 0, 0]);
    assert_eq!(
        divide_words(&word_a, &word_x, &word_div, (2, 0)),
        Err(Fault::ArithmeticDomainFault)
    );
}

#[test]
fn div_by_zero_sets_flag_and_zeroes_results() {
    let word_a = Word::new(true, [0, 0, 0, 0, 1]);
    let word_x = Word::new(true, [0, 0, 0, 0, 17]);
    let zero_divisor = Word::new(true, [0, 0, 0, 0, 0]);
    let output = divide_words(&word_a, &word_x, &zero_divisor, (0, 5)).unwrap();
    assert_eq!(output, (Word::default(), Word::default(), true));

    let mut computer = Computer::default();
    computer.memory[ADDRESS] = zero_divisor;
    let div = Instruction::Div { address: ADDRESS, field_specification: (0, 5) };
    div.execute_on(&mut computer).unwrap();
    assert!(computer.overflow_flag);
}

#[test]
fn enta_1000() {
    let mut computer = Computer::default();
    let instruction = Instruction::EntA { value: 1000, entry_is_positive: true, should_negate: false };
    instruction.execute_on(&mut computer).unwrap();
    println!("{:#?} {:#?}", Word::new(true, [0, 0, 0, 3, 232]), computer.ra);
    assert_eq!(Word::new(true, [0, 0, 0, 3, 232]), computer.ra);
}

#[test]
fn enta_neg_0() {
    let mut computer = Computer::default();
    let instruction = Instruction::EntA { value: 0, entry_is_positive: false, should_negate: false };
    instruction.execute_on(&mut computer).unwrap();
    println!("{:#?} {:#?}", Word::new(false, [0, 0, 0, 0, 0]), computer.ra);
    assert_eq!(Word::new(false, [0, 0, 0, 0, 0]), computer.ra);
}

#[test]
fn inc_1_1() {
    let mut computer = Computer::default();
    let instruction = Instruction::IncI {
        index: 1,
        value: 1,
        entry_is_positive: true,
        should_negate: false,
    };
    instruction.execute_on(&mut computer).unwrap();
    println!("{:#?} {:#?}", Word::new(true, [0, 0, 0, 0, 1]), computer.ri1);
    assert_eq!(Word::new(true, [0, 0, 0, 0, 1]), computer.ri1);
}

#[test]
fn dec_1_1() {
    let mut computer = Computer::default();
    let instruction = Instruction::IncI {
        index: 1,
        value: 1,
        entry_is_positive: true,
        should_negate: true,
    };
    instruction.execute_on(&mut computer).unwrap();
    println!("{:#?} {:#?}", Word::new(false, [0, 0, 0, 0, 1]), computer.ri1);
    assert_eq!(Word::new(false, [0, 0, 0, 0, 1]), computer.ri1);
}

#[test]
fn cmpa_0_0() {
    let word1 = Word::new(true, [1, 1, 1, 1, 1]);
    let word2 = Word::new(false, [1, 1, 1, 1, 1]);
    let output = compare_words(&word1, &word2, (0, 0));
    let should_be = ComparisonFlag::equal;
    println!("{:?} {:?}", output, should_be);
    assert_eq!(output, should_be);
}

#[test]
fn cmpa_full() {
    let word1 = Word::new(true, [1, 1, 1, 1, 1]);
    let word2 = Word::new(false, [1, 1, 1, 1, 1]);
    let output = compare_words(&word1, &word2, (0, 5));
    let should_be = ComparisonFlag::greater;
    println!("{:?} {:?}", output, should_be);
    assert_eq!(output, should_be);
}

#[test]
fn cmpa_full_less() {
    let word2 = Word::new(true, [1, 1, 1, 1, 1]);
    let word1 = Word::new(false, [1, 1, 1, 1, 1]);
    let output = compare_words(&word1, &word2, (0, 5));
    let should_be = ComparisonFlag::less;
    println!("{:?} {:?}", output, should_be);
    assert_eq!(output, should_be);
}

#[test]
fn cmpa_1_5() {
    let word1 = Word::new(false, [1, 1, 1, 1, 1]);
    let word2 = Word::new(true, [1, 1, 1, 1, 1]);
    let output = compare_words(&word1, &word2, (1, 5));
    let should_be = ComparisonFlag::equal;
    println!("{:?} {:?}", output, should_be);
    assert_eq!(output, should_be);
}

#[test]
fn compare_word_with_itself_is_equal() {
    let word = Word::new(false, [200, 3, 0, 77, 255]);
    assert_eq!(compare_words(&word, &word, (0, 5)), ComparisonFlag::equal);
    let zero = Word::default();
    assert_eq!(compare_words(&zero, &zero, (0, 5)), ComparisonFlag::equal);
}
