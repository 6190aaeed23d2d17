//! The decoded instruction set: one variant per operation with its bound
//! operands, the six-way jump condition table, and the execution semantics
//! of every instruction against the machine state.

use crate::computer::{spec_index_register, Computer, ComparisonFlag, ComputerView, MEMORY_SIZE};
use crate::fault::Fault;
use crate::field::{adjusted_left, adjusted_right, fs_in_range, only_zero};
use crate::instruction_functions::{add_words, compare_words, copy_word_fields,
    copy_word_fields_i, divide_words, double_word_left_shift, double_word_right_shift,
    index_copy_rejected, multiply_words, register_for_index, save_jump, single_word_left_shift,
    single_word_right_shift, spec_add_overflow, spec_add_result, spec_compare_words,
    spec_copy_word_fields, spec_copy_word_fields_i, spec_divide_words,
    spec_double_word_left_shift, spec_double_word_right_shift, spec_multiply_words,
    spec_single_word_left_shift, spec_single_word_right_shift, spec_store_operation,
    store_operation};
use crate::word::{spec_from_value, zero_word, Word, WordView};
use vstd::prelude::*;

verus! {

/// One decoded instruction with its bound operands: the already-offset
/// address, the decoded field specification, the instruction word's sign
/// bit for the address-transfer family, and the raw sub-operation code for
/// the conditional jumps.
#[derive(Clone, Copy, Debug)]
pub enum Instruction {
    NoOperation,
    Halt,
    LoadA { address: usize, field_specification: (usize, usize), negative: bool },
    LoadX { address: usize, field_specification: (usize, usize), negative: bool },
    LoadI { index: u8, address: usize, field_specification: (usize, usize), negative: bool },
    StoreA { address: usize, field_specification: (usize, usize) },
    StoreX { address: usize, field_specification: (usize, usize) },
    StoreI { index: u8, address: usize, field_specification: (usize, usize) },
    StoreJ { address: usize, field_specification: (usize, usize) },
    StoreZ { address: usize, field_specification: (usize, usize) },
    Add { address: usize, field_specification: (usize, usize) },
    Sub { address: usize, field_specification: (usize, usize) },
    Mult { address: usize, field_specification: (usize, usize) },
    Div { address: usize, field_specification: (usize, usize) },
    EntA { value: usize, entry_is_positive: bool, should_negate: bool },
    EntX { value: usize, entry_is_positive: bool, should_negate: bool },
    EntI { index: u8, value: usize, entry_is_positive: bool, should_negate: bool },
    IncA { value: usize, entry_is_positive: bool, should_negate: bool },
    IncX { value: usize, entry_is_positive: bool, should_negate: bool },
    IncI { index: u8, value: usize, entry_is_positive: bool, should_negate: bool },
    CmpA { address: usize, field_specification: (usize, usize) },
    CmpX { address: usize, field_specification: (usize, usize) },
    CmpI { index: u8, address: usize, field_specification: (usize, usize) },
    Jmp { address: usize, save_address: bool },
    JmpO { address: usize, should_negate: bool },
    JmpC { address: usize, operation: u8 },
    JmpA { address: usize, operation: u8 },
    JmpX { address: usize, operation: u8 },
    JmpI { index: u8, address: usize, operation: u8 },
    SLA { amount: usize, cycle: bool },
    SRA { amount: usize, cycle: bool },
    SLAX { amount: usize },
    SRAX { amount: usize },
}

/// The six-way condition table of the register jumps: 0 jumps on less,
/// 1 on equal, 2 on greater, 3 on greater-or-equal, 4 on not-equal,
/// 5 on less-or-equal; any other code never jumps.
pub open spec fn spec_condition_match(op: u8, condition: ComparisonFlag) -> bool {
    if op == 0 {
        condition == ComparisonFlag::less
    } else if op == 1 {
        condition == ComparisonFlag::equal
    } else if op == 2 {
        condition == ComparisonFlag::greater
    } else if op == 3 {
        condition != ComparisonFlag::less
    } else if op == 4 {
        condition != ComparisonFlag::equal
    } else if op == 5 {
        condition != ComparisonFlag::greater
    } else {
        false
    }
}

/// Evaluates the six-way jump condition table.
pub fn condition_match(op: u8, condition: ComparisonFlag) -> (r: bool)
    ensures
        r == spec_condition_match(op, condition),
{
    match op {
        0 => condition == ComparisonFlag::less,
        1 => condition == ComparisonFlag::equal,
        2 => condition == ComparisonFlag::greater,
        3 => condition != ComparisonFlag::less,
        4 => condition != ComparisonFlag::equal,
        5 => condition != ComparisonFlag::greater,
        _ => false,
    }
}

/// The machine with the next instruction's address saved in the jump-save
/// register.
pub open spec fn with_saved_jump(c: ComputerView) -> ComputerView {
    ComputerView { rj: spec_from_value(c.pc + 1), ..c }
}

/// The machine with the selected index register replaced; `index` must be
/// 1 through 6.
pub open spec fn with_index_register(c: ComputerView, index: u8, w: WordView) -> ComputerView
    recommends
        1 <= index <= 6,
{
    if index == 1 {
        ComputerView { ri1: w, ..c }
    } else if index == 2 {
        ComputerView { ri2: w, ..c }
    } else if index == 3 {
        ComputerView { ri3: w, ..c }
    } else if index == 4 {
        ComputerView { ri4: w, ..c }
    } else if index == 5 {
        ComputerView { ri5: w, ..c }
    } else {
        ComputerView { ri6: w, ..c }
    }
}

/// A word under the opposite sign.
pub open spec fn spec_negated(w: WordView) -> WordView {
    WordView { positive: !w.positive, ..w }
}

/// The word the address-transfer family builds: the magnitude of `value`
/// under an explicit sign, negated for the decrement and enter-negative
/// variants.
pub open spec fn spec_entry_word(value: usize, entry_is_positive: bool, should_negate: bool) -> WordView {
    WordView {
        positive: if should_negate {
            !entry_is_positive
        } else {
            entry_is_positive
        },
        bytes: spec_from_value(value as int).bytes,
    }
}

/// The largest address decoding can bind: a two-byte base plus a two-byte
/// index-register offset.
pub const MAX_DECODED_ADDRESS: usize = 0x1fffe;

impl Instruction {
    /// Operand bounds that decoding guarantees: an address-transfer value
    /// that fits a signed 64-bit magnitude, a conditional-jump code of at
    /// least 4 (the table position its sub-field starts at), and a jump
    /// target within the decoder's address range.
    pub open spec fn wf(self) -> bool {
        match self {
            Instruction::EntA { value, .. } => value <= i64::MAX,
            Instruction::EntX { value, .. } => value <= i64::MAX,
            Instruction::EntI { value, .. } => value <= i64::MAX,
            Instruction::IncA { value, .. } => value <= i64::MAX,
            Instruction::IncX { value, .. } => value <= i64::MAX,
            Instruction::IncI { value, .. } => value <= i64::MAX,
            Instruction::Jmp { address, .. } => address <= MAX_DECODED_ADDRESS,
            Instruction::JmpO { address, .. } => address <= MAX_DECODED_ADDRESS,
            Instruction::JmpC { address, operation } => operation >= 4 && address
                <= MAX_DECODED_ADDRESS,
            Instruction::JmpA { address, .. } => address <= MAX_DECODED_ADDRESS,
            Instruction::JmpX { address, .. } => address <= MAX_DECODED_ADDRESS,
            Instruction::JmpI { address, .. } => address <= MAX_DECODED_ADDRESS,
            _ => true,
        }
    }
}

/// Executing a well-formed instruction from a running state leaves the
/// program counter within the decoder's address range.
pub proof fn lemma_execute_pc_bound(inst: Instruction, c: ComputerView)
    requires
        inst.wf(),
        0 <= c.pc < MEMORY_SIZE,
    ensures
        spec_execute(inst, c) matches Ok(c2) ==> 0 <= c2.pc <= MAX_DECODED_ADDRESS,
{
}

/// The fault checks shared by every instruction that reads or writes a
/// memory operand through a field window: the resolved address must lie in
/// memory and the field specification within the data model's range.
pub open spec fn spec_memory_field_fault(
    address: usize,
    field_specification: (usize, usize),
) -> Option<Fault> {
    if address >= MEMORY_SIZE {
        Some(Fault::AddressOutOfRange)
    } else if !fs_in_range(field_specification) {
        Some(Fault::InvalidFieldSpec)
    } else {
        None
    }
}

/// What executing one decoded instruction does to the machine: the new
/// machine state, or the fault that rejects the instruction and leaves the
/// machine unchanged.
pub open spec fn spec_execute(inst: Instruction, c: ComputerView) -> Result<ComputerView, Fault> {
    match inst {
        Instruction::NoOperation => Ok(c),
        Instruction::Halt => Ok(ComputerView { pc: MEMORY_SIZE as int, ..c }),
        Instruction::LoadA { address, field_specification, negative } => match
            spec_memory_field_fault(address, field_specification) {
            Some(fault) => Err(fault),
            None => {
                let loaded = spec_copy_word_fields(
                    c.memory[address as int],
                    c.ra,
                    field_specification,
                );
                Ok(
                    ComputerView {
                        ra: if negative {
                            spec_negated(loaded)
                        } else {
                            loaded
                        },
                        ..c
                    },
                )
            },
        },
        Instruction::LoadX { address, field_specification, negative } => match
            spec_memory_field_fault(address, field_specification) {
            Some(fault) => Err(fault),
            None => {
                let loaded = spec_copy_word_fields(
                    c.memory[address as int],
                    c.rx,
                    field_specification,
                );
                Ok(
                    ComputerView {
                        rx: if negative {
                            spec_negated(loaded)
                        } else {
                            loaded
                        },
                        ..c
                    },
                )
            },
        },
        Instruction::LoadI { index, address, field_specification, negative } => if address
            >= MEMORY_SIZE {
            Err(Fault::AddressOutOfRange)
        } else if !(1 <= index <= 6) {
            Err(Fault::InvalidIndex)
        } else if index_copy_rejected(field_specification) {
            Err(Fault::InvalidFieldSpec)
        } else {
            let loaded = spec_copy_word_fields_i(
                c.memory[address as int],
                spec_index_register(c, index),
                field_specification,
            );
            Ok(
                with_index_register(
                    c,
                    index,
                    if negative {
                        spec_negated(loaded)
                    } else {
                        loaded
                    },
                ),
            )
        },
        Instruction::StoreA { address, field_specification } => spec_store_to_memory(
            c,
            c.ra,
            address,
            field_specification,
        ),
        Instruction::StoreX { address, field_specification } => spec_store_to_memory(
            c,
            c.rx,
            address,
            field_specification,
        ),
        Instruction::StoreI { index, address, field_specification } => if !(1 <= index <= 6) {
            Err(Fault::InvalidIndex)
        } else {
            spec_store_to_memory(c, spec_index_register(c, index), address, field_specification)
        },
        Instruction::StoreJ { address, field_specification } => spec_store_to_memory(
            c,
            c.rj,
            address,
            field_specification,
        ),
        Instruction::StoreZ { address, field_specification } => spec_store_to_memory(
            c,
            zero_word(),
            address,
            field_specification,
        ),
        Instruction::Add { address, field_specification } => match spec_memory_field_fault(
            address,
            field_specification,
        ) {
            Some(fault) => Err(fault),
            None => if only_zero(field_specification) {
                Err(Fault::ArithmeticDomainFault)
            } else {
                Ok(spec_accumulator_add(c, c.memory[address as int], field_specification))
            },
        },
        Instruction::Sub { address, field_specification } => match spec_memory_field_fault(
            address,
            field_specification,
        ) {
            Some(fault) => Err(fault),
            None => if only_zero(field_specification) {
                Err(Fault::ArithmeticDomainFault)
            } else {
                Ok(
                    spec_accumulator_add(
                        c,
                        spec_negated(c.memory[address as int]),
                        field_specification,
                    ),
                )
            },
        },
        Instruction::Mult { address, field_specification } => match spec_memory_field_fault(
            address,
            field_specification,
        ) {
            Some(fault) => Err(fault),
            None => if only_zero(field_specification) {
                Err(Fault::ArithmeticDomainFault)
            } else {
                let operand = spec_negated(c.memory[address as int]);
                let product = spec_multiply_words(c.ra, operand, field_specification);
                Ok(ComputerView { ra: product.0, rx: product.1, ..c })
            },
        },
        Instruction::Div { address, field_specification } => match spec_memory_field_fault(
            address,
            field_specification,
        ) {
            Some(fault) => Err(fault),
            None => if only_zero(field_specification) {
                Err(Fault::ArithmeticDomainFault)
            } else {
                let operand = spec_negated(c.memory[address as int]);
                let outcome = spec_divide_words(c.ra, c.rx, operand, field_specification);
                Ok(ComputerView { ra: outcome.0, rx: outcome.1, overflow_flag: outcome.2, ..c })
            },
        },
        Instruction::EntA { value, entry_is_positive, should_negate } => Ok(
            ComputerView { ra: spec_entry_word(value, entry_is_positive, should_negate), ..c },
        ),
        Instruction::EntX { value, entry_is_positive, should_negate } => Ok(
            ComputerView { rx: spec_entry_word(value, entry_is_positive, should_negate), ..c },
        ),
        Instruction::EntI { index, value, entry_is_positive, should_negate } => if !(1 <= index
            <= 6) {
            Err(Fault::InvalidIndex)
        } else {
            let loaded = spec_copy_word_fields_i(
                spec_entry_word(value, entry_is_positive, should_negate),
                spec_index_register(c, index),
                (0usize, 5usize),
            );
            Ok(with_index_register(c, index, loaded))
        },
        Instruction::IncA { value, entry_is_positive, should_negate } => Ok(
            spec_accumulator_add(
                c,
                spec_entry_word(value, entry_is_positive, should_negate),
                (0usize, 5usize),
            ),
        ),
        Instruction::IncX { value, entry_is_positive, should_negate } => {
            let w = spec_entry_word(value, entry_is_positive, should_negate);
            Ok(
                ComputerView {
                    rx: spec_add_result(c.rx, w, (0usize, 5usize)),
                    overflow_flag: spec_add_overflow(c.rx, w, (0usize, 5usize)),
                    ..c
                },
            )
        },
        Instruction::IncI { index, value, entry_is_positive, should_negate } => if !(1 <= index
            <= 6) {
            Err(Fault::InvalidIndex)
        } else {
            let w = spec_entry_word(value, entry_is_positive, should_negate);
            let register = spec_index_register(c, index);
            let incremented = spec_add_result(register, w, (0usize, 5usize));
            Ok(
                ComputerView {
                    overflow_flag: spec_add_overflow(register, w, (0usize, 5usize)),
                    ..with_index_register(c, index, incremented)
                },
            )
        },
        Instruction::CmpA { address, field_specification } => match spec_memory_field_fault(
            address,
            field_specification,
        ) {
            Some(fault) => Err(fault),
            None => Ok(
                ComputerView {
                    comparison_flag: spec_compare_words(
                        c.ra,
                        c.memory[address as int],
                        field_specification,
                    ),
                    ..c
                },
            ),
        },
        Instruction::CmpX { address, field_specification } => match spec_memory_field_fault(
            address,
            field_specification,
        ) {
            Some(fault) => Err(fault),
            None => Ok(
                ComputerView {
                    comparison_flag: spec_compare_words(
                        c.rx,
                        c.memory[address as int],
                        field_specification,
                    ),
                    ..c
                },
            ),
        },
        Instruction::CmpI { index, address, field_specification } => if address >= MEMORY_SIZE {
            Err(Fault::AddressOutOfRange)
        } else if !(1 <= index <= 6) {
            Err(Fault::InvalidIndex)
        } else if !fs_in_range(field_specification) {
            Err(Fault::InvalidFieldSpec)
        } else {
            Ok(
                ComputerView {
                    comparison_flag: spec_compare_words(
                        spec_index_register(c, index),
                        c.memory[address as int],
                        field_specification,
                    ),
                    ..c
                },
            )
        },
        Instruction::Jmp { address, save_address } => {
            let c1 = if save_address {
                with_saved_jump(c)
            } else {
                c
            };
            Ok(ComputerView { pc: address as int, ..c1 })
        },
        Instruction::JmpO { address, should_negate } => if c.overflow_flag != should_negate {
            Ok(ComputerView { pc: address as int, overflow_flag: false, ..with_saved_jump(c) })
        } else {
            Ok(ComputerView { overflow_flag: false, ..c })
        },
        Instruction::JmpC { address, operation } => if spec_condition_match(
            (operation - 4) as u8,
            c.comparison_flag,
        ) {
            Ok(ComputerView { pc: address as int, ..with_saved_jump(c) })
        } else {
            Ok(c)
        },
        Instruction::JmpA { address, operation } => spec_register_jump(
            c,
            c.ra,
            address,
            operation,
        ),
        Instruction::JmpX { address, operation } => spec_register_jump(
            c,
            c.rx,
            address,
            operation,
        ),
        Instruction::JmpI { index, address, operation } => if !(1 <= index <= 6) {
            Err(Fault::InvalidIndex)
        } else {
            spec_register_jump(c, spec_index_register(c, index), address, operation)
        },
        Instruction::SLA { amount, cycle } => Ok(
            ComputerView { ra: spec_single_word_left_shift(c.ra, amount as nat, cycle), ..c },
        ),
        Instruction::SRA { amount, cycle } => Ok(
            ComputerView { ra: spec_single_word_right_shift(c.ra, amount as nat, cycle), ..c },
        ),
        Instruction::SLAX { amount } => {
            let shifted = spec_double_word_left_shift(c.ra, c.rx, amount as nat);
            Ok(ComputerView { ra: shifted.0, rx: shifted.1, ..c })
        },
        Instruction::SRAX { amount } => {
            let shifted = spec_double_word_right_shift(c.ra, c.rx, amount as nat);
            Ok(ComputerView { ra: shifted.0, rx: shifted.1, ..c })
        },
    }
}

/// A store into the memory cell at `address`: the addressed word's window
/// is overwritten from the register under the store rule.
pub open spec fn spec_store_to_memory(
    c: ComputerView,
    from: WordView,
    address: usize,
    field_specification: (usize, usize),
) -> Result<ComputerView, Fault> {
    if address >= MEMORY_SIZE {
        Err(Fault::AddressOutOfRange)
    } else if !(fs_in_range(field_specification) && adjusted_left(field_specification)
        <= adjusted_right(field_specification)) {
        Err(Fault::InvalidFieldSpec)
    } else {
        Ok(
            ComputerView {
                memory: c.memory.update(
                    address as int,
                    spec_store_operation(from, c.memory[address as int], field_specification),
                ),
                ..c
            },
        )
    }
}

/// A field-windowed add into the accumulator: the windowed sum lands in the
/// accumulator's window and the overflow flag records the truncation.
pub open spec fn spec_accumulator_add(
    c: ComputerView,
    operand: WordView,
    field_specification: (usize, usize),
) -> ComputerView {
    let sum = spec_add_result(c.ra, operand, field_specification);
    ComputerView {
        ra: spec_copy_word_fields(sum, c.ra, field_specification),
        overflow_flag: spec_add_overflow(c.ra, operand, field_specification),
        ..c
    }
}

/// A register-sign/zero jump: the register is compared against the zero
/// word over the full window and the six-way condition table decides.
pub open spec fn spec_register_jump(
    c: ComputerView,
    register: WordView,
    address: usize,
    operation: u8,
) -> Result<ComputerView, Fault> {
    if spec_condition_match(operation, spec_compare_words(register, zero_word(), (0usize, 5usize))) {
        Ok(ComputerView { pc: address as int, ..with_saved_jump(c) })
    } else {
        Ok(c)
    }
}

/// Replaces the index register selected by `index`.
fn set_index_register(computer: &mut Computer, index: u8, w: Word)
    requires
        1 <= index <= 6,
    ensures
        final(computer)@ == with_index_register(old(computer)@, index, w@),
{
    if index == 1 {
        computer.ri1 = w;
    } else if index == 2 {
        computer.ri2 = w;
    } else if index == 3 {
        computer.ri3 = w;
    } else if index == 4 {
        computer.ri4 = w;
    } else if index == 5 {
        computer.ri5 = w;
    } else {
        computer.ri6 = w;
    }
    proof {
        assert(final(computer)@ =~= with_index_register(old(computer)@, index, w@));
    }
}

/// Whether a field specification is within the data model's range; the
/// execution fault check for windowed memory operands.
fn field_in_range(field_specification: (usize, usize)) -> (r: bool)
    ensures
        r == fs_in_range(field_specification),
{
    field_specification.0 <= 5 && field_specification.1 <= 5
}

impl Instruction {
    /// Executes this instruction against the machine state. A fault leaves
    /// the machine untouched and is returned for the host to handle.
    pub fn execute_on(&self, computer: &mut Computer) -> (result: Result<(), Fault>)
        requires
            self.wf(),
            old(computer).pc < MEMORY_SIZE,
        ensures
            spec_execute(*self, old(computer)@) matches Ok(c) ==> result == Ok::<(), Fault>(())
                && final(computer)@ == c,
            spec_execute(*self, old(computer)@) matches Err(e) ==> result == Err::<(), Fault>(e)
                && *final(computer) == *old(computer),
    {
        let ghost c0 = old(computer)@;
        match *self {
            Instruction::NoOperation => Ok(()),
            Instruction::Halt => {
                computer.pc = MEMORY_SIZE;
                proof {
                    assert(computer@ =~= spec_execute(*self, c0)->Ok_0);
                }
                Ok(())
            },
            Instruction::LoadA { .. } | Instruction::LoadX { .. } | Instruction::LoadI { .. } => self.execute_load(computer),
            Instruction::StoreA { .. } | Instruction::StoreX { .. } | Instruction::StoreI { .. } | Instruction::StoreJ { .. } | Instruction::StoreZ { .. } => self.execute_store(computer),
            Instruction::Add { .. } | Instruction::Sub { .. } | Instruction::Mult { .. } | Instruction::Div { .. } => self.execute_arithmetic(computer),
            Instruction::EntA { .. } | Instruction::EntX { .. } | Instruction::EntI { .. } | Instruction::IncA { .. } | Instruction::IncX { .. } | Instruction::IncI { .. } => self.execute_transfer(computer),
            Instruction::CmpA { .. } | Instruction::CmpX { .. } | Instruction::CmpI { .. } => self.execute_compare(computer),
            Instruction::Jmp { .. } | Instruction::JmpO { .. } | Instruction::JmpC { .. } | Instruction::JmpA { .. } | Instruction::JmpX { .. } | Instruction::JmpI { .. } => self.execute_jump(computer),
            Instruction::SLA { .. } | Instruction::SRA { .. } | Instruction::SLAX { .. } | Instruction::SRAX { .. } => self.execute_shift(computer),
        }
    }

    /// Executes the load family; see `execute_on`.
    #[verifier::spinoff_prover]
    fn execute_load(&self, computer: &mut Computer) -> (result: Result<(), Fault>)
        requires
            self.wf(),
            old(computer).pc < MEMORY_SIZE,
            self is LoadA || self is LoadX || self is LoadI,
        ensures
            spec_execute(*self, old(computer)@) matches Ok(c) ==> result == Ok::<(), Fault>(())
                && final(computer)@ == c,
            spec_execute(*self, old(computer)@) matches Err(e) ==> result == Err::<(), Fault>(e)
                && *final(computer) == *old(computer),
    {
        let ghost c0 = old(computer)@;
        match *self {
            Instruction::LoadA { address, field_specification, negative } => {
                if address >= MEMORY_SIZE {
                    return Err(Fault::AddressOutOfRange);
                }
                if !field_in_range(field_specification) {
                    return Err(Fault::InvalidFieldSpec);
                }
                let mem = computer.memory[address];
                copy_word_fields(&mem, &mut computer.ra, field_specification);
                if negative {
                    computer.ra.positive = !computer.ra.positive;
                }
                proof {
                    assert(computer@ =~= spec_execute(*self, c0)->Ok_0);
                }
                Ok(())
            },
            Instruction::LoadX { address, field_specification, negative } => {
                if address >= MEMORY_SIZE {
                    return Err(Fault::AddressOutOfRange);
                }
                if !field_in_range(field_specification) {
                    return Err(Fault::InvalidFieldSpec);
                }
                let mem = computer.memory[address];
                copy_word_fields(&mem, &mut computer.rx, field_specification);
                if negative {
                    computer.rx.positive = !computer.rx.positive;
                }
                proof {
                    assert(computer@ =~= spec_execute(*self, c0)->Ok_0);
                }
                Ok(())
            },
            Instruction::LoadI { index, address, field_specification, negative } => {
                if address >= MEMORY_SIZE {
                    return Err(Fault::AddressOutOfRange);
                }
                if !(1 <= index && index <= 6) {
                    return Err(Fault::InvalidIndex);
                }
                let mem = computer.memory[address];
                let mut register = register_for_index(computer, index);
                match copy_word_fields_i(&mem, &mut register, field_specification) {
                    Ok(()) => {},
                    Err(fault) => {
                        return Err(fault);
                    },
                }
                if negative {
                    register.positive = !register.positive;
                }
                set_index_register(computer, index, register);
                proof {
                    assert(computer@ =~= spec_execute(*self, c0)->Ok_0);
                }
                Ok(())
            },
            _ => Ok(()),
        }
    }

    /// Executes the store family; see `execute_on`.
    #[verifier::spinoff_prover]
    fn execute_store(&self, computer: &mut Computer) -> (result: Result<(), Fault>)
        requires
            self.wf(),
            old(computer).pc < MEMORY_SIZE,
            self is StoreA || self is StoreX || self is StoreI || self is StoreJ || self is StoreZ,
        ensures
            spec_execute(*self, old(computer)@) matches Ok(c) ==> result == Ok::<(), Fault>(())
                && final(computer)@ == c,
            spec_execute(*self, old(computer)@) matches Err(e) ==> result == Err::<(), Fault>(e)
                && *final(computer) == *old(computer),
    {
        let ghost c0 = old(computer)@;
        match *self {
            Instruction::StoreA { address, field_specification } => {
                let from = computer.ra;
                self.store_from(computer, &from, address, field_specification)
            },
            Instruction::StoreX { address, field_specification } => {
                let from = computer.rx;
                self.store_from(computer, &from, address, field_specification)
            },
            Instruction::StoreI { index, address, field_specification } => {
                if !(1 <= index && index <= 6) {
                    return Err(Fault::InvalidIndex);
                }
                let from = register_for_index(computer, index);
                self.store_from(computer, &from, address, field_specification)
            },
            Instruction::StoreJ { address, field_specification } => {
                let from = computer.rj;
                self.store_from(computer, &from, address, field_specification)
            },
            Instruction::StoreZ { address, field_specification } => {
                let from = Word::default();
                self.store_from(computer, &from, address, field_specification)
            },
            _ => Ok(()),
        }
    }

    /// Executes the arithmetic family; see `execute_on`.
    #[verifier::spinoff_prover]
    fn execute_arithmetic(&self, computer: &mut Computer) -> (result: Result<(), Fault>)
        requires
            self.wf(),
            old(computer).pc < MEMORY_SIZE,
            self is Add || self is Sub || self is Mult || self is Div,
        ensures
            spec_execute(*self, old(computer)@) matches Ok(c) ==> result == Ok::<(), Fault>(())
                && final(computer)@ == c,
            spec_execute(*self, old(computer)@) matches Err(e) ==> result == Err::<(), Fault>(e)
                && *final(computer) == *old(computer),
    {
        let ghost c0 = old(computer)@;
        match *self {
            Instruction::Add { address, field_specification } => {
                if address >= MEMORY_SIZE {
                    return Err(Fault::AddressOutOfRange);
                }
                if !field_in_range(field_specification) {
                    return Err(Fault::InvalidFieldSpec);
                }
                if field_specification.1 == 0 {
                    return Err(Fault::ArithmeticDomainFault);
                }
                let mem = computer.memory[address];
                self.accumulator_add(computer, &mem, field_specification)
            },
            Instruction::Sub { address, field_specification } => {
                if address >= MEMORY_SIZE {
                    return Err(Fault::AddressOutOfRange);
                }
                if !field_in_range(field_specification) {
                    return Err(Fault::InvalidFieldSpec);
                }
                if field_specification.1 == 0 {
                    return Err(Fault::ArithmeticDomainFault);
                }
                let mem = computer.memory[address].negate();
                self.accumulator_add(computer, &mem, field_specification)
            },
            Instruction::Mult { address, field_specification } => {
                if address >= MEMORY_SIZE {
                    return Err(Fault::AddressOutOfRange);
                }
                if !field_in_range(field_specification) {
                    return Err(Fault::InvalidFieldSpec);
                }
                let operand = computer.memory[address].negate();
                let (upper_value, lower_value) = match multiply_words(
                    &computer.ra,
                    &operand,
                    field_specification,
                ) {
                    Ok(product) => product,
                    Err(fault) => {
                        return Err(fault);
                    },
                };
                copy_word_fields(&lower_value, &mut computer.rx, (0, 5));
                copy_word_fields(&upper_value, &mut computer.ra, (0, 5));
                proof {
                    crate::instruction_functions::lemma_copy_word_fields_full_is_identity(
                        lower_value@,
                        old(computer)@.rx,
                    );
                    crate::instruction_functions::lemma_copy_word_fields_full_is_identity(
                        upper_value@,
                        old(computer)@.ra,
                    );
                    assert(computer@ =~= spec_execute(*self, c0)->Ok_0);
                }
                Ok(())
            },
            Instruction::Div { address, field_specification } => {
                if address >= MEMORY_SIZE {
                    return Err(Fault::AddressOutOfRange);
                }
                if !field_in_range(field_specification) {
                    return Err(Fault::InvalidFieldSpec);
                }
                let operand = computer.memory[address].negate();
                let (dividend, remainder, divide_by_zero) = match divide_words(
                    &computer.ra,
                    &computer.rx,
                    &operand,
                    field_specification,
                ) {
                    Ok(outcome) => outcome,
                    Err(fault) => {
                        return Err(fault);
                    },
                };
                copy_word_fields(&remainder, &mut computer.rx, (0, 5));
                copy_word_fields(&dividend, &mut computer.ra, (0, 5));
                computer.overflow_flag = divide_by_zero;
                proof {
                    crate::instruction_functions::lemma_copy_word_fields_full_is_identity(
                        remainder@,
                        old(computer)@.rx,
                    );
                    crate::instruction_functions::lemma_copy_word_fields_full_is_identity(
                        dividend@,
                        old(computer)@.ra,
                    );
                    assert(computer@ =~= spec_execute(*self, c0)->Ok_0);
                }
                Ok(())
            },
            _ => Ok(()),
        }
    }

    /// Executes the address-transfer family; see `execute_on`.
    #[verifier::spinoff_prover]
    fn execute_transfer(&self, computer: &mut Computer) -> (result: Result<(), Fault>)
        requires
            self.wf(),
            old(computer).pc < MEMORY_SIZE,
            self is EntA || self is EntX || self is EntI || self is IncA || self is IncX || self is IncI,
        ensures
            spec_execute(*self, old(computer)@) matches Ok(c) ==> result == Ok::<(), Fault>(())
                && final(computer)@ == c,
            spec_execute(*self, old(computer)@) matches Err(e) ==> result == Err::<(), Fault>(e)
                && *final(computer) == *old(computer),
    {
        let ghost c0 = old(computer)@;
        match *self {
            Instruction::EntA { value, entry_is_positive, should_negate } => {
                let word = entry_word(value, entry_is_positive, should_negate);
                copy_word_fields(&word, &mut computer.ra, (0, 5));
                proof {
                    crate::instruction_functions::lemma_copy_word_fields_full_is_identity(
                        word@,
                        old(computer)@.ra,
                    );
                    assert(computer@ =~= spec_execute(*self, c0)->Ok_0);
                }
                Ok(())
            },
            Instruction::EntX { value, entry_is_positive, should_negate } => {
                let word = entry_word(value, entry_is_positive, should_negate);
                copy_word_fields(&word, &mut computer.rx, (0, 5));
                proof {
                    crate::instruction_functions::lemma_copy_word_fields_full_is_identity(
                        word@,
                        old(computer)@.rx,
                    );
                    assert(computer@ =~= spec_execute(*self, c0)->Ok_0);
                }
                Ok(())
            },
            Instruction::EntI { index, value, entry_is_positive, should_negate } => {
                if !(1 <= index && index <= 6) {
                    return Err(Fault::InvalidIndex);
                }
                let word = entry_word(value, entry_is_positive, should_negate);
                let mut register = register_for_index(computer, index);
                match copy_word_fields_i(&word, &mut register, (0, 5)) {
                    Ok(()) => {},
                    Err(fault) => {
                        return Err(fault);
                    },
                }
                set_index_register(computer, index, register);
                proof {
                    assert(computer@ =~= spec_execute(*self, c0)->Ok_0);
                }
                Ok(())
            },
            Instruction::IncA { value, entry_is_positive, should_negate } => {
                let word = entry_word(value, entry_is_positive, should_negate);
                let (value_word, overflow) = match add_words(&computer.ra, &word, (0, 5)) {
                    Ok(sum) => sum,
                    Err(fault) => {
                        return Err(fault);
                    },
                };
                copy_word_fields(&value_word, &mut computer.ra, (0, 5));
                computer.overflow_flag = overflow;
                proof {
                    assert(computer@ =~= spec_execute(*self, c0)->Ok_0);
                }
                Ok(())
            },
            Instruction::IncX { value, entry_is_positive, should_negate } => {
                let word = entry_word(value, entry_is_positive, should_negate);
                let (value_word, overflow) = match add_words(&computer.rx, &word, (0, 5)) {
                    Ok(sum) => sum,
                    Err(fault) => {
                        return Err(fault);
                    },
                };
                copy_word_fields(&value_word, &mut computer.rx, (0, 5));
                computer.overflow_flag = overflow;
                proof {
                    crate::instruction_functions::lemma_copy_word_fields_full_is_identity(
                        value_word@,
                        old(computer)@.rx,
                    );
                    assert(computer@ =~= spec_execute(*self, c0)->Ok_0);
                }
                Ok(())
            },
            Instruction::IncI { index, value, entry_is_positive, should_negate } => {
                if !(1 <= index && index <= 6) {
                    return Err(Fault::InvalidIndex);
                }
                let word = entry_word(value, entry_is_positive, should_negate);
                let mut register = register_for_index(computer, index);
                let (value_word, overflow) = match add_words(&register, &word, (0, 5)) {
                    Ok(sum) => sum,
                    Err(fault) => {
                        return Err(fault);
                    },
                };
                copy_word_fields(&value_word, &mut register, (0, 5));
                set_index_register(computer, index, register);
                computer.overflow_flag = overflow;
                proof {
                    crate::instruction_functions::lemma_copy_word_fields_full_is_identity(
                        value_word@,
                        spec_index_register(c0, index),
                    );
                    assert(computer@ =~= spec_execute(*self, c0)->Ok_0);
                }
                Ok(())
            },
            _ => Ok(()),
        }
    }

    /// Executes the compare family; see `execute_on`.
    #[verifier::spinoff_prover]
    fn execute_compare(&self, computer: &mut Computer) -> (result: Result<(), Fault>)
        requires
            self.wf(),
            old(computer).pc < MEMORY_SIZE,
            self is CmpA || self is CmpX || self is CmpI,
        ensures
            spec_execute(*self, old(computer)@) matches Ok(c) ==> result == Ok::<(), Fault>(())
                && final(computer)@ == c,
            spec_execute(*self, old(computer)@) matches Err(e) ==> result == Err::<(), Fault>(e)
                && *final(computer) == *old(computer),
    {
        let ghost c0 = old(computer)@;
        match *self {
            Instruction::CmpA { address, field_specification } => {
                if address >= MEMORY_SIZE {
                    return Err(Fault::AddressOutOfRange);
                }
                if !field_in_range(field_specification) {
                    return Err(Fault::InvalidFieldSpec);
                }
                let mem = computer.memory[address];
                let outcome = compare_words(&computer.ra, &mem, field_specification);
                computer.comparison_flag = outcome;
                proof {
                    assert(computer@ =~= spec_execute(*self, c0)->Ok_0);
                }
                Ok(())
            },
            Instruction::CmpX { address, field_specification } => {
                if address >= MEMORY_SIZE {
                    return Err(Fault::AddressOutOfRange);
                }
                if !field_in_range(field_specification) {
                    return Err(Fault::InvalidFieldSpec);
                }
                let mem = computer.memory[address];
                let outcome = compare_words(&computer.rx, &mem, field_specification);
                computer.comparison_flag = outcome;
                proof {
                    assert(computer@ =~= spec_execute(*self, c0)->Ok_0);
                }
                Ok(())
            },
            Instruction::CmpI { index, address, field_specification } => {
                if address >= MEMORY_SIZE {
                    return Err(Fault::AddressOutOfRange);
                }
                if !(1 <= index && index <= 6) {
                    return Err(Fault::InvalidIndex);
                }
                if !field_in_range(field_specification) {
                    return Err(Fault::InvalidFieldSpec);
                }
                let mem = computer.memory[address];
                let register = register_for_index(computer, index);
                let outcome = compare_words(&register, &mem, field_specification);
                computer.comparison_flag = outcome;
                proof {
                    assert(computer@ =~= spec_execute(*self, c0)->Ok_0);
                }
                Ok(())
            },
            _ => Ok(()),
        }
    }

    /// Executes the jump family; see `execute_on`.
    #[verifier::spinoff_prover]
    fn execute_jump(&self, computer: &mut Computer) -> (result: Result<(), Fault>)
        requires
            self.wf(),
            old(computer).pc < MEMORY_SIZE,
            self is Jmp || self is JmpO || self is JmpC || self is JmpA || self is JmpX || self is JmpI,
        ensures
            spec_execute(*self, old(computer)@) matches Ok(c) ==> result == Ok::<(), Fault>(())
                && final(computer)@ == c,
            spec_execute(*self, old(computer)@) matches Err(e) ==> result == Err::<(), Fault>(e)
                && *final(computer) == *old(computer),
    {
        let ghost c0 = old(computer)@;
        match *self {
            Instruction::Jmp { address, save_address } => {
                if save_address {
                    save_jump(computer);
                }
                computer.pc = address;
                proof {
                    assert(computer@ =~= spec_execute(*self, c0)->Ok_0);
                }
                Ok(())
            },
            Instruction::JmpO { address, should_negate } => {
                if computer.overflow_flag != should_negate {
                    save_jump(computer);
                    computer.pc = address;
                }
                computer.overflow_flag = false;
                proof {
                    assert(computer@ =~= spec_execute(*self, c0)->Ok_0);
                }
                Ok(())
            },
            Instruction::JmpC { address, operation } => {
                let condition = condition_match(operation - 4, computer.comparison_flag);
                if condition {
                    save_jump(computer);
                    computer.pc = address;
                }
                proof {
                    assert(computer@ =~= spec_execute(*self, c0)->Ok_0);
                }
                Ok(())
            },
            Instruction::JmpA { address, operation } => {
                let register = computer.ra;
                self.register_jump(computer, &register, address, operation)
            },
            Instruction::JmpX { address, operation } => {
                let register = computer.rx;
                self.register_jump(computer, &register, address, operation)
            },
            Instruction::JmpI { index, address, operation } => {
                if !(1 <= index && index <= 6) {
                    return Err(Fault::InvalidIndex);
                }
                let register = register_for_index(computer, index);
                self.register_jump(computer, &register, address, operation)
            },
            _ => Ok(()),
        }
    }

    /// Executes the shift family; see `execute_on`.
    #[verifier::spinoff_prover]
    fn execute_shift(&self, computer: &mut Computer) -> (result: Result<(), Fault>)
        requires
            self.wf(),
            old(computer).pc < MEMORY_SIZE,
            self is SLA || self is SRA || self is SLAX || self is SRAX,
        ensures
            spec_execute(*self, old(computer)@) matches Ok(c) ==> result == Ok::<(), Fault>(())
                && final(computer)@ == c,
            spec_execute(*self, old(computer)@) matches Err(e) ==> result == Err::<(), Fault>(e)
                && *final(computer) == *old(computer),
    {
        let ghost c0 = old(computer)@;
        match *self {
            Instruction::SLA { amount, cycle } => {
                let shifted = single_word_left_shift(&computer.ra, amount, cycle);
                computer.ra = shifted;
                proof {
                    assert(computer@ =~= spec_execute(*self, c0)->Ok_0);
                }
                Ok(())
            },
            Instruction::SRA { amount, cycle } => {
                let shifted = single_word_right_shift(&computer.ra, amount, cycle);
                computer.ra = shifted;
                proof {
                    assert(computer@ =~= spec_execute(*self, c0)->Ok_0);
                }
                Ok(())
            },
            Instruction::SLAX { amount } => {
                let (shifted_a, shifted_x) = double_word_left_shift(
                    &computer.ra,
                    &computer.rx,
                    amount,
                );
                computer.ra = shifted_a;
                computer.rx = shifted_x;
                proof {
                    assert(computer@ =~= spec_execute(*self, c0)->Ok_0);
                }
                Ok(())
            },
            Instruction::SRAX { amount } => {
                let (shifted_a, shifted_x) = double_word_right_shift(
                    &computer.ra,
                    &computer.rx,
                    amount,
                );
                computer.ra = shifted_a;
                computer.rx = shifted_x;
                proof {
                    assert(computer@ =~= spec_execute(*self, c0)->Ok_0);
                }
                Ok(())
            },
            _ => Ok(()),
        }
    }

    /// The shared body of the store family: writes the source word's
    /// low-order bytes into the addressed memory cell's window.
    fn store_from(
        &self,
        computer: &mut Computer,
        from: &Word,
        address: usize,
        field_specification: (usize, usize),
    ) -> (result: Result<(), Fault>)
        ensures
            spec_store_to_memory(old(computer)@, from@, address, field_specification) matches Ok(c)
                ==> result == Ok::<(), Fault>(()) && final(computer)@ == c,
            spec_store_to_memory(old(computer)@, from@, address, field_specification) matches Err(
                e,
            ) ==> result == Err::<(), Fault>(e) && *final(computer) == *old(computer),
    {
        if address >= MEMORY_SIZE {
            return Err(Fault::AddressOutOfRange);
        }
        let (_, _, (l, r)) = crate::field::adjusted_field_specification(field_specification);
        if !(field_in_range(field_specification) && l <= r) {
            return Err(Fault::InvalidFieldSpec);
        }
        let ghost memory0 = computer.memory@;
        let mut cell = computer.memory[address];
        store_operation(from, &mut cell, field_specification);
        computer.memory[address] = cell;
        proof {
            crate::computer::lemma_memory_view_update(memory0, address as int, cell);
            assert(computer@ =~= spec_store_to_memory(
                old(computer)@,
                from@,
                address,
                field_specification,
            )->Ok_0);
        }
        Ok(())
    }

    /// The shared body of the add and subtract instructions: the windowed
    /// sum of the accumulator and the operand lands in the accumulator's
    /// window, and the overflow flag records the truncation.
    fn accumulator_add(
        &self,
        computer: &mut Computer,
        operand: &Word,
        field_specification: (usize, usize),
    ) -> (result: Result<(), Fault>)
        requires
            fs_in_range(field_specification),
            !only_zero(field_specification),
        ensures
            result == Ok::<(), Fault>(()),
            final(computer)@ == spec_accumulator_add(
                old(computer)@,
                operand@,
                field_specification,
            ),
    {
        let (value_word, overflow) = match add_words(
            &computer.ra,
            operand,
            field_specification,
        ) {
            Ok(sum) => sum,
            Err(fault) => {
                return Err(fault);
            },
        };
        copy_word_fields(&value_word, &mut computer.ra, field_specification);
        computer.overflow_flag = overflow;
        proof {
            assert(computer@ =~= spec_accumulator_add(
                old(computer)@,
                operand@,
                field_specification,
            ));
        }
        Ok(())
    }

    /// The shared body of the register-sign/zero jumps: compares the
    /// register against zero and jumps when the condition code matches.
    fn register_jump(
        &self,
        computer: &mut Computer,
        register: &Word,
        address: usize,
        operation: u8,
    ) -> (result: Result<(), Fault>)
        requires
            old(computer).pc < MEMORY_SIZE,
        ensures
            spec_register_jump(old(computer)@, register@, address, operation) matches Ok(c)
                ==> result == Ok::<(), Fault>(()) && final(computer)@ == c,
    {
        let zero = Word::default();
        let outcome = compare_words(register, &zero, (0, 5));
        let condition = condition_match(operation, outcome);
        if condition {
            save_jump(computer);
            computer.pc = address;
        }
        proof {
            assert(computer@ =~= spec_register_jump(
                old(computer)@,
                register@,
                address,
                operation,
            )->Ok_0);
        }
        Ok(())
    }
}

/// Builds the word the address-transfer family loads or adds: the
/// magnitude of `value` under an explicit sign.
fn entry_word(value: usize, entry_is_positive: bool, should_negate: bool) -> (r: Word)
    requires
        value <= i64::MAX,
    ensures
        r@ == spec_entry_word(value, entry_is_positive, should_negate),
{
    let mut word = Word::from_value(value as i64);
    word.positive = if should_negate {
        !entry_is_positive
    } else {
        entry_is_positive
    };
    word
}

} // verus!
