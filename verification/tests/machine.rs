use mix_machine::computer::{ComparisonFlag, Computer, MachineState};
use mix_machine::fault::Fault;
use mix_machine::instruction::{condition_match, Instruction};
use mix_machine::instruction_functions::save_jump;
use mix_machine::peripherals::disk_drum::DiskDrumUnit;
use mix_machine::peripherals::magnetic_tape::MagneticTapeUnit;
use mix_machine::word::Word;

#[test]
fn save_jump_test() {
    let mut computer = Computer::default();
    computer.pc = 20;
    save_jump(&mut computer);
    assert_eq!(Word::new(true, [0, 0, 0, 0, 21]), computer.rj);
}

#[test]
fn condition_match_table() {
    let is_less = ComparisonFlag::less;
    let is_equal = ComparisonFlag::equal;
    let is_greater = ComparisonFlag::greater;
    assert!(condition_match(0, is_less));
    assert!(!condition_match(0, is_equal));
    assert!(condition_match(1, is_equal));
    assert!(!condition_match(1, is_greater));
    assert!(condition_match(2, is_greater));
    assert!(!condition_match(2, is_less));
    assert!(condition_match(3, is_equal) && condition_match(3, is_greater));
    assert!(!condition_match(3, is_less));
    assert!(condition_match(4, is_less) && condition_match(4, is_greater));
    assert!(!condition_match(4, is_equal));
    assert!(condition_match(5, is_less) && condition_match(5, is_equal));
    assert!(!condition_match(5, is_greater));
    assert!(!condition_match(6, is_less) && !condition_match(6, is_equal));
}

#[test]
fn computer_new_initial_state() {
    let mut image = [Word::default(); 4000];
    image[7] = Word::new(false, [1, 2, 3, 4, 5]);
    let computer = Computer::new(image, 7);
    assert_eq!(computer.pc, 7);
    assert_eq!(computer.ra, Word::default());
    assert_eq!(computer.rj, Word::default());
    assert!(!computer.overflow_flag);
    assert_eq!(computer.comparison_flag, ComparisonFlag::equal);
    assert_eq!(computer.memory[7], Word::new(false, [1, 2, 3, 4, 5]));
}

#[test]
fn jmp_saves_return_address() {
    let mut computer = Computer::default();
    computer.pc = 5;
    let jump = Instruction::Jmp { address: 20, save_address: true };
    jump.execute_on(&mut computer).unwrap();
    assert_eq!(computer.pc, 20);
    assert_eq!(computer.rj, Word::new(true, [0, 0, 0, 0, 6]));
}

#[test]
fn jmp_without_save_keeps_jump_register() {
    let mut computer = Computer::default();
    computer.pc = 5;
    let jump = Instruction::Jmp { address: 20, save_address: false };
    jump.execute_on(&mut computer).unwrap();
    assert_eq!(computer.pc, 20);
    assert_eq!(computer.rj, Word::default());
}

#[test]
fn jmpo_clears_overflow_whether_or_not_taken() {
    let mut computer = Computer::default();
    computer.pc = 5;
    computer.overflow_flag = true;
    let jump = Instruction::JmpO { address: 30, should_negate: false };
    jump.execute_on(&mut computer).unwrap();
    assert_eq!(computer.pc, 30);
    assert!(!computer.overflow_flag);

    let mut other = Computer::default();
    other.pc = 5;
    other.overflow_flag = true;
    let untaken = Instruction::JmpO { address: 30, should_negate: true };
    untaken.execute_on(&mut other).unwrap();
    assert_eq!(other.pc, 5);
    assert!(!other.overflow_flag);
}

#[test]
fn jmpc_consults_comparison_flag() {
    let mut computer = Computer::default();
    computer.pc = 5;
    computer.comparison_flag = ComparisonFlag::less;
    let jump = Instruction::JmpC { address: 40, operation: 4 };
    jump.execute_on(&mut computer).unwrap();
    assert_eq!(computer.pc, 40);

    computer.comparison_flag = ComparisonFlag::greater;
    computer.pc = 5;
    let untaken = Instruction::JmpC { address: 50, operation: 4 };
    untaken.execute_on(&mut computer).unwrap();
    assert_eq!(computer.pc, 5);
}

#[test]
fn jmpa_compares_accumulator_with_zero() {
    let mut computer = Computer::default();
    computer.pc = 5;
    computer.ra = Word::new(false, [0, 0, 0, 0, 1]);
    let jump = Instruction::JmpA { address: 60, operation: 0 };
    jump.execute_on(&mut computer).unwrap();
    assert_eq!(computer.pc, 60);
}

#[test]
fn sla_instruction_shifts_accumulator() {
    let mut computer = Computer::default();
    computer.ra = Word::new(false, [1, 2, 3, 4, 5]);
    let shift = Instruction::SLA { amount: 1, cycle: false };
    shift.execute_on(&mut computer).unwrap();
    assert_eq!(computer.ra, Word::new(false, [2, 3, 4, 5, 0]));
}

#[test]
fn srax_instruction_shifts_both_registers() {
    let mut computer = Computer::default();
    computer.ra = Word::new(true, [1, 2, 3, 4, 5]);
    computer.rx = Word::new(false, [6, 7, 8, 9, 0]);
    let shift = Instruction::SRAX { amount: 3 };
    shift.execute_on(&mut computer).unwrap();
    assert_eq!(computer.ra, Word::new(true, [0, 0, 0, 1, 2]));
    assert_eq!(computer.rx, Word::new(false, [3, 4, 5, 6, 7]));
}

#[test]
fn run_halts_on_halt_instruction() {
    let mut computer = Computer::default();
    computer.memory[0] = Word::new(true, [0, 0, 0, 2, 5]);
    let outcome = computer.run(10);
    assert_eq!(outcome, Ok(MachineState::Halted));
    assert_eq!(computer.pc, 4000);
}

#[test]
fn run_executes_a_small_program() {
    let mut computer = Computer::default();
    // Enter 7 into the accumulator, store it at cell 100, halt.
    computer.memory[0] = Word::new(true, [0, 7, 0, 2, 48]);
    computer.memory[1] = Word::new(true, [0, 100, 0, 5, 24]);
    computer.memory[2] = Word::new(true, [0, 0, 0, 2, 5]);
    let outcome = computer.run(10);
    assert_eq!(outcome, Ok(MachineState::Halted));
    assert_eq!(computer.memory[100], Word::new(true, [0, 0, 0, 0, 7]));
    assert_eq!(computer.pc, 4000);
}

#[test]
fn run_resolves_index_register_offsets() {
    let mut computer = Computer::default();
    // Load the accumulator from address 10 offset by index register 1.
    computer.ri1 = Word::new(true, [0, 0, 7, 198, 0]);
    computer.memory[0] = Word::new(true, [0, 10, 1, 5, 8]);
    computer.memory[2000] = Word::new(false, [1, 2, 3, 4, 5]);
    let outcome = computer.run(1);
    assert_eq!(outcome, Ok(MachineState::Running));
    assert_eq!(computer.ra, Word::new(false, [1, 2, 3, 4, 5]));
    assert_eq!(computer.pc, 1);
}

#[test]
fn run_out_of_steps_reports_running() {
    let mut computer = Computer::default();
    let outcome = computer.run(3);
    assert_eq!(outcome, Ok(MachineState::Running));
    assert_eq!(computer.pc, 3);
}

#[test]
fn run_faults_on_invalid_index_selector() {
    let mut computer = Computer::default();
    computer.memory[0] = Word::new(true, [0, 0, 7, 5, 8]);
    let outcome = computer.run(5);
    assert_eq!(outcome, Err(Fault::InvalidIndex));
    assert_eq!(computer.pc, 0);
}

#[test]
fn run_faults_when_pc_leaves_memory() {
    let mut computer = Computer::default();
    computer.pc = 3999;
    let outcome = computer.run(2);
    assert_eq!(outcome, Err(Fault::AddressOutOfRange));
    assert_eq!(computer.pc, 4000);
}

#[test]
fn disk_drum_unit_new_builds() {
    let block = [Word::default(); 100];
    let _unit = DiskDrumUnit::new(3, block);
}

#[test]
fn magnetic_tape_unit_new_builds() {
    let block = [Word::new(false, [1, 0, 0, 0, 2]); 100];
    let _unit = MagneticTapeUnit::new(5, block);
}
