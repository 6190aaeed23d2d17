//! The machine state: nine registers, the flags, the flat memory, the
//! peripheral status area and the program counter, together with the
//! fetch-decode-execute run loop.

use crate::fault::Fault;
use crate::instruction::{lemma_execute_pc_bound, spec_execute, Instruction, MAX_DECODED_ADDRESS};
use crate::word::{spec_field_value, zero_word, Word, WordView};
use vstd::prelude::*;

verus! {

/// Whether the run loop is still fetching instructions or has reached the
/// halt sentinel.
#[derive(Clone, Copy, Debug, PartialEq, Eq, Structural)]
pub enum MachineState {
    Running,
    Halted,
}

/// Number of memory cells; a program counter equal to this value is the
/// halt sentinel.
pub const MEMORY_SIZE: usize = 4000;

/// Number of bytes in the peripheral status area.
pub const PERIPHERAL_AREA_SIZE: usize = 20;

/// The tri-state outcome of the last compare instruction.
#[allow(non_camel_case_types)]
#[derive(Clone, Copy, Debug, PartialEq, Eq, Structural)]
pub enum ComparisonFlag {
    less,
    equal,
    greater,
}

/// The machine: accumulator `ra`, extension register `rx`, six index
/// registers, jump-save register `rj`, the two flags, the memory, the
/// peripheral status area (inert today) and the program counter.
#[derive(Clone, Copy)]
pub struct Computer {
    pub ra: Word,
    pub rx: Word,
    pub ri1: Word,
    pub ri2: Word,
    pub ri3: Word,
    pub ri4: Word,
    pub ri5: Word,
    pub ri6: Word,
    pub rj: Word,
    pub overflow_flag: bool,
    pub comparison_flag: ComparisonFlag,
    pub memory: [Word; MEMORY_SIZE],
    pub peripherals: [u8; PERIPHERAL_AREA_SIZE],
    pub pc: usize,
}

/// The mathematical model of the machine state.
#[verifier::ext_equal]
pub struct ComputerView {
    pub ra: WordView,
    pub rx: WordView,
    pub ri1: WordView,
    pub ri2: WordView,
    pub ri3: WordView,
    pub ri4: WordView,
    pub ri5: WordView,
    pub ri6: WordView,
    pub rj: WordView,
    pub overflow_flag: bool,
    pub comparison_flag: ComparisonFlag,
    pub memory: Seq<WordView>,
    pub peripherals: Seq<u8>,
    pub pc: int,
}

impl View for Computer {
    type V = ComputerView;

    open spec fn view(&self) -> ComputerView {
        ComputerView {
            ra: self.ra@,
            rx: self.rx@,
            ri1: self.ri1@,
            ri2: self.ri2@,
            ri3: self.ri3@,
            ri4: self.ri4@,
            ri5: self.ri5@,
            ri6: self.ri6@,
            rj: self.rj@,
            overflow_flag: self.overflow_flag,
            comparison_flag: self.comparison_flag,
            memory: self.memory@.map_values(|w: Word| w@),
            peripherals: self.peripherals@,
            pc: self.pc as int,
        }
    }
}

/// The index register selected by `index`, which must be 1 through 6.
pub open spec fn spec_index_register(c: ComputerView, index: u8) -> WordView
    recommends
        1 <= index <= 6,
{
    if index == 1 {
        c.ri1
    } else if index == 2 {
        c.ri2
    } else if index == 3 {
        c.ri3
    } else if index == 4 {
        c.ri4
    } else if index == 5 {
        c.ri5
    } else {
        c.ri6
    }
}

/// The index-register offset decoding adds to the base address: zero for
/// selector 0, the low two bytes of the selected register for 1 through 6,
/// and a fault otherwise.
pub open spec fn spec_decode_index(c: ComputerView, index: u8) -> Result<usize, Fault> {
    if index == 0 {
        Ok(0usize)
    } else if index <= 6 {
        Ok(spec_field_value(spec_index_register(c, index), (3usize, 4usize)) as usize)
    } else {
        Err(Fault::InvalidIndex)
    }
}

/// The field byte decoded as `(L, R)` out of `8 * L + R`.
pub open spec fn spec_decode_field(field: u8) -> (usize, usize) {
    ((field / 8) as usize, (field % 8) as usize)
}

/// What decoding a fetched word yields: the dispatch table from the
/// operation code byte (and, for several codes, the raw field byte as a
/// sub-selector) to a concrete instruction bound with the index-offset
/// address, the decoded field window, the word's sign bit, or the raw
/// sub-operation code. Any unmapped combination decodes to a no-operation.
pub open spec fn spec_decode(c: ComputerView, w: WordView) -> Result<Instruction, Fault> {
    match spec_decode_index(c, w.bytes[2]) {
        Err(fault) => Err(fault),
        Ok(offset) => {
            let address = (spec_field_value(w, (1usize, 2usize)) + offset) as usize;
            let field = w.bytes[3];
            let opcode = w.bytes[4];
            let field_specification = spec_decode_field(field);
            let positive = w.positive;
            Ok(spec_dispatch(opcode, field, address, field_specification, positive))
        },
    }
}

/// The decoder's fixed dispatch table.
pub open spec fn spec_dispatch(
    opcode: u8,
    field: u8,
    address: usize,
    field_specification: (usize, usize),
    positive: bool,
) -> Instruction {
    if opcode == 1 {
        Instruction::Add { address, field_specification }
    } else if opcode == 2 {
        Instruction::Sub { address, field_specification }
    } else if opcode == 3 {
        Instruction::Mult { address, field_specification }
    } else if opcode == 4 {
        Instruction::Div { address, field_specification }
    } else if opcode == 5 {
        if field == 2 {
            Instruction::Halt
        } else {
            Instruction::NoOperation
        }
    } else if opcode == 8 {
        Instruction::LoadA { address, field_specification, negative: false }
    } else if 9 <= opcode && opcode <= 14 {
        Instruction::LoadI {
            index: (opcode - 8) as u8,
            address,
            field_specification,
            negative: false,
        }
    } else if opcode == 15 {
        Instruction::LoadX { address, field_specification, negative: false }
    } else if opcode == 16 {
        Instruction::LoadA { address, field_specification, negative: true }
    } else if 17 <= opcode && opcode <= 22 {
        Instruction::LoadI {
            index: (opcode - 16) as u8,
            address,
            field_specification,
            negative: true,
        }
    } else if opcode == 23 {
        Instruction::LoadX { address, field_specification, negative: true }
    } else if opcode == 24 {
        Instruction::StoreA { address, field_specification }
    } else if 25 <= opcode && opcode <= 30 {
        Instruction::StoreI { index: (opcode - 24) as u8, address, field_specification }
    } else if opcode == 31 {
        Instruction::StoreX { address, field_specification }
    } else if opcode == 32 {
        Instruction::StoreJ { address, field_specification }
    } else if opcode == 33 {
        Instruction::StoreZ { address, field_specification }
    } else if opcode == 39 {
        if field == 0 {
            Instruction::Jmp { address, save_address: true }
        } else if field == 1 {
            Instruction::Jmp { address, save_address: false }
        } else if field == 2 {
            Instruction::JmpO { address, should_negate: false }
        } else if field == 3 {
            Instruction::JmpO { address, should_negate: true }
        } else if 4 <= field && field <= 9 {
            Instruction::JmpC { address, operation: field }
        } else {
            Instruction::NoOperation
        }
    } else if opcode == 48 {
        if field == 0 {
            Instruction::IncA { value: address, entry_is_positive: positive, should_negate: false }
        } else if field == 1 {
            Instruction::IncA { value: address, entry_is_positive: positive, should_negate: true }
        } else if field == 2 {
            Instruction::EntA { value: address, entry_is_positive: positive, should_negate: false }
        } else if field == 3 {
            Instruction::EntA { value: address, entry_is_positive: positive, should_negate: true }
        } else {
            Instruction::NoOperation
        }
    } else if 49 <= opcode && opcode <= 54 {
        let index = (opcode - 48) as u8;
        if field == 0 {
            Instruction::IncI {
                index,
                value: address,
                entry_is_positive: positive,
                should_negate: false,
            }
        } else if field == 1 {
            Instruction::IncI {
                index,
                value: address,
                entry_is_positive: positive,
                should_negate: true,
            }
        } else if field == 2 {
            Instruction::EntI {
                index,
                value: address,
                entry_is_positive: positive,
                should_negate: false,
            }
        } else if field == 3 {
            Instruction::EntI {
                index,
                value: address,
                entry_is_positive: positive,
                should_negate: true,
            }
        } else {
            Instruction::NoOperation
        }
    } else if opcode == 55 {
        if field == 0 {
            Instruction::IncX { value: address, entry_is_positive: positive, should_negate: false }
        } else if field == 1 {
            Instruction::IncX { value: address, entry_is_positive: positive, should_negate: true }
        } else if field == 2 {
            Instruction::EntX { value: address, entry_is_positive: positive, should_negate: false }
        } else if field == 3 {
            Instruction::EntX { value: address, entry_is_positive: positive, should_negate: true }
        } else {
            Instruction::NoOperation
        }
    } else if opcode == 56 {
        Instruction::CmpA { address, field_specification }
    } else if 57 <= opcode && opcode <= 62 {
        Instruction::CmpI { index: (opcode - 56) as u8, address, field_specification }
    } else if opcode == 63 {
        Instruction::CmpX { address, field_specification }
    } else {
        Instruction::NoOperation
    }
}

/// One transition of the run loop: fetch the word under the program
/// counter, decode it, execute it, then halt if the program counter has
/// reached the sentinel and otherwise advance it by one. A program counter
/// outside memory at fetch time is a fault.
#[verifier::opaque]
pub open spec fn spec_step(c: ComputerView) -> Result<(MachineState, ComputerView), Fault> {
    if !(0 <= c.pc < MEMORY_SIZE) {
        Err(Fault::AddressOutOfRange)
    } else {
        match spec_decode(c, c.memory[c.pc]) {
            Err(fault) => Err(fault),
            Ok(inst) => match spec_execute(inst, c) {
                Err(fault) => Err(fault),
                Ok(c2) => if c2.pc == MEMORY_SIZE {
                    Ok((MachineState::Halted, c2))
                } else {
                    Ok((MachineState::Running, ComputerView { pc: c2.pc + 1, ..c2 }))
                },
            },
        }
    }
}

/// Up to `fuel` transitions of the run loop: stops early at the halt
/// sentinel or at the first fault, and reports a still-running machine when
/// the fuel runs out first.
pub open spec fn spec_run(c: ComputerView, fuel: nat) -> Result<(MachineState, ComputerView), Fault>
    decreases fuel,
{
    if fuel == 0 {
        Ok((MachineState::Running, c))
    } else {
        match spec_step(c) {
            Err(fault) => Err(fault),
            Ok((MachineState::Halted, c2)) => Ok((MachineState::Halted, c2)),
            Ok((MachineState::Running, c2)) => spec_run(c2, (fuel - 1) as nat),
        }
    }
}

/// Running `a + b` steps is running `a` steps and, if still running,
/// `b` more from where they left off.
pub proof fn lemma_spec_run_splits(c: ComputerView, a: nat, b: nat)
    ensures
        spec_run(c, a + b) == (match spec_run(c, a) {
            Ok((MachineState::Running, d)) => spec_run(d, b),
            other => other,
        }),
    decreases a,
{
    if a > 0 {
        match spec_step(c) {
            Err(fault) => {},
            Ok((MachineState::Halted, c2)) => {},
            Ok((MachineState::Running, c2)) => {
                lemma_spec_run_splits(c2, (a - 1) as nat, b);
                assert(a + b - 1 == (a - 1) as nat + b);
            },
        }
    }
}

/// Decoding only ever binds operands within the bounds `Instruction::wf`
/// promises: addresses and values of at most two bytes plus a two-byte
/// offset, and conditional-jump codes of at least 4.
pub proof fn lemma_decode_wf(c: ComputerView, w: WordView)
    requires
        w.wf(),
        c.ri1.wf(),
        c.ri2.wf(),
        c.ri3.wf(),
        c.ri4.wf(),
        c.ri5.wf(),
        c.ri6.wf(),
    ensures
        spec_decode(c, w) matches Ok(i) ==> i.wf(),
{
    crate::magnitude::lemma_pow256_values();
    crate::magnitude::lemma_be_value_bounds(w.bytes.subrange(0, 2));
    let index = w.bytes[2];
    if 1 <= index <= 6 {
        crate::magnitude::lemma_be_value_bounds(
            spec_index_register(c, index).bytes.subrange(2, 4),
        );
    }
}

/// Mapping one word of a memory image to its model commutes with updating
/// one cell.
pub proof fn lemma_memory_view_update(s: Seq<Word>, i: int, w: Word)
    requires
        0 <= i < s.len(),
    ensures
        s.update(i, w).map_values(|x: Word| x@) =~= s.map_values(|x: Word| x@).update(i, w@),
{
}

impl Computer {
    /// A machine over the given memory image, all registers zero, flags
    /// clear, and the program counter at `start`.
    pub fn new(mem: [Word; MEMORY_SIZE], start: usize) -> (r: Computer)
        ensures
            r@.ra == zero_word(),
            r@.rx == zero_word(),
            r@.ri1 == zero_word(),
            r@.ri2 == zero_word(),
            r@.ri3 == zero_word(),
            r@.ri4 == zero_word(),
            r@.ri5 == zero_word(),
            r@.ri6 == zero_word(),
            r@.rj == zero_word(),
            r@.overflow_flag == false,
            r@.comparison_flag == ComparisonFlag::equal,
            r@.memory == mem@.map_values(|w: Word| w@),
            r@.peripherals == Seq::new(PERIPHERAL_AREA_SIZE as nat, |i: int| 0u8),
            r@.pc == start,
    {
        let r = Computer {
            ra: Word::default(),
            rx: Word::default(),
            ri1: Word::default(),
            ri2: Word::default(),
            ri3: Word::default(),
            ri4: Word::default(),
            ri5: Word::default(),
            ri6: Word::default(),
            rj: Word::default(),
            overflow_flag: false,
            comparison_flag: ComparisonFlag::equal,
            memory: mem,
            peripherals: [0; PERIPHERAL_AREA_SIZE],
            pc: start,
        };
        proof {
            assert(r@.peripherals =~= Seq::new(PERIPHERAL_AREA_SIZE as nat, |i: int| 0u8));
        }
        r
    }

    /// The word under the program counter.
    fn fetch(&self) -> (r: Word)
        requires
            self.pc < MEMORY_SIZE,
        ensures
            r@ == self@.memory[self@.pc],
    {
        self.memory[self.pc]
    }

    /// Resolves the index-register selector of a fetched word into an
    /// address offset.
    fn decode_index(&self, index: u8) -> (r: Result<usize, Fault>)
        ensures
            r == spec_decode_index(self@, index),
            r matches Ok(offset) ==> offset <= 0xffff,
    {
        if index == 0 {
            return Ok(0);
        }
        if index > 6 {
            return Err(Fault::InvalidIndex);
        }
        let register = crate::instruction_functions::register_for_index(self, index);
        proof {
            let bytes = spec_index_register(self@, index).bytes;
            crate::magnitude::lemma_be_value_bounds(bytes.subrange(2, 4));
            crate::magnitude::lemma_pow256_values();
        }
        let value = register.field_value((3, 4));
        Ok(value as usize)
    }

    /// Splits the field byte into the `(L, R)` pair it encodes.
    fn decode_field(&self, field: u8) -> (r: (usize, usize))
        ensures
            r == spec_decode_field(field),
    {
        let right = field % 8;
        let left = field / 8;
        (left as usize, right as usize)
    }

    /// Decodes a fetched word into a bound instruction, resolving the
    /// index-register offset; fails on a selector outside 0 through 6.
    fn decode(&self, instruction: &Word) -> (r: Result<Instruction, Fault>)
        ensures
            r == spec_decode(self@, instruction@),
    {
        let (address, index, field, opcode) = (
            instruction.address(),
            instruction.index(),
            instruction.field(),
            instruction.opcode(),
        );
        let offset = match self.decode_index(index) {
            Ok(offset) => offset,
            Err(fault) => {
                return Err(fault);
            },
        };
        let offset_address = address + offset;
        let field_specification = self.decode_field(field);
        let positive = instruction.positive;
        let decoded: Instruction = if opcode == 1 {
            Instruction::Add { address: offset_address, field_specification }
        } else if opcode == 2 {
            Instruction::Sub { address: offset_address, field_specification }
        } else if opcode == 3 {
            Instruction::Mult { address: offset_address, field_specification }
        } else if opcode == 4 {
            Instruction::Div { address: offset_address, field_specification }
        } else if opcode == 5 {
            if field == 2 {
                Instruction::Halt
            } else {
                Instruction::NoOperation
            }
        } else if opcode == 8 {
            Instruction::LoadA { address: offset_address, field_specification, negative: false }
        } else if 9 <= opcode && opcode <= 14 {
            Instruction::LoadI {
                index: opcode - 8,
                address: offset_address,
                field_specification,
                negative: false,
            }
        } else if opcode == 15 {
            Instruction::LoadX { address: offset_address, field_specification, negative: false }
        } else if opcode == 16 {
            Instruction::LoadA { address: offset_address, field_specification, negative: true }
        } else if 17 <= opcode && opcode <= 22 {
            Instruction::LoadI {
                index: opcode - 16,
                address: offset_address,
                field_specification,
                negative: true,
            }
        } else if opcode == 23 {
            Instruction::LoadX { address: offset_address, field_specification, negative: true }
        } else if opcode == 24 {
            Instruction::StoreA { address: offset_address, field_specification }
        } else if 25 <= opcode && opcode <= 30 {
            Instruction::StoreI { index: opcode - 24, address: offset_address, field_specification }
        } else if opcode == 31 {
            Instruction::StoreX { address: offset_address, field_specification }
        } else if opcode == 32 {
            Instruction::StoreJ { address: offset_address, field_specification }
        } else if opcode == 33 {
            Instruction::StoreZ { address: offset_address, field_specification }
        } else if opcode == 39 {
            if field == 0 {
                Instruction::Jmp { address: offset_address, save_address: true }
            } else if field == 1 {
                Instruction::Jmp { address: offset_address, save_address: false }
            } else if field == 2 {
                Instruction::JmpO { address: offset_address, should_negate: false }
            } else if field == 3 {
                Instruction::JmpO { address: offset_address, should_negate: true }
            } else if 4 <= field && field <= 9 {
                Instruction::JmpC { address: offset_address, operation: field }
            } else {
                Instruction::NoOperation
            }
        } else if opcode == 48 {
            if field == 0 {
                Instruction::IncA {
                    value: offset_address,
                    entry_is_positive: positive,
                    should_negate: false,
                }
            } else if field == 1 {
                Instruction::IncA {
                    value: offset_address,
                    entry_is_positive: positive,
                    should_negate: true,
                }
            } else if field == 2 {
                Instruction::EntA {
                    value: offset_address,
                    entry_is_positive: positive,
                    should_negate: false,
                }
            } else if field == 3 {
                Instruction::EntA {
                    value: offset_address,
                    entry_is_positive: positive,
                    should_negate: true,
                }
            } else {
                Instruction::NoOperation
            }
        } else if 49 <= opcode && opcode <= 54 {
            let index = opcode - 48;
            if field == 0 {
                Instruction::IncI {
                    index,
                    value: offset_address,
                    entry_is_positive: positive,
                    should_negate: false,
                }
            } else if field == 1 {
                Instruction::IncI {
                    index,
                    value: offset_address,
                    entry_is_positive: positive,
                    should_negate: true,
                }
            } else if field == 2 {
                Instruction::EntI {
                    index,
                    value: offset_address,
                    entry_is_positive: positive,
                    should_negate: false,
                }
            } else if field == 3 {
                Instruction::EntI {
                    index,
                    value: offset_address,
                    entry_is_positive: positive,
                    should_negate: true,
                }
            } else {
                Instruction::NoOperation
            }
        } else if opcode == 55 {
            if field == 0 {
                Instruction::IncX {
                    value: offset_address,
                    entry_is_positive: positive,
                    should_negate: false,
                }
            } else if field == 1 {
                Instruction::IncX {
                    value: offset_address,
                    entry_is_positive: positive,
                    should_negate: true,
                }
            } else if field == 2 {
                Instruction::EntX {
                    value: offset_address,
                    entry_is_positive: positive,
                    should_negate: false,
                }
            } else if field == 3 {
                Instruction::EntX {
                    value: offset_address,
                    entry_is_positive: positive,
                    should_negate: true,
                }
            } else {
                Instruction::NoOperation
            }
        } else if opcode == 56 {
            Instruction::CmpA { address: offset_address, field_specification }
        } else if 57 <= opcode && opcode <= 62 {
            Instruction::CmpI { index: opcode - 56, address: offset_address, field_specification }
        } else if opcode == 63 {
            Instruction::CmpX { address: offset_address, field_specification }
        } else {
            Instruction::NoOperation
        };
        Ok(decoded)
    }

    /// One fetch-decode-execute transition; see `spec_step`.
    fn step(&mut self) -> (result: Result<MachineState, Fault>)
        ensures
            spec_step(old(self)@) matches Ok(outcome) ==> result == Ok::<MachineState, Fault>(
                outcome.0,
            ) && final(self)@ == outcome.1,
            spec_step(old(self)@) matches Err(e) ==> result == Err::<MachineState, Fault>(e)
                && *final(self) == *old(self),
    {
        proof {
            reveal(spec_step);
        }
        if self.pc >= MEMORY_SIZE {
            return Err(Fault::AddressOutOfRange);
        }
        let instruction = self.fetch();
        let decoded = match self.decode(&instruction) {
            Ok(decoded) => decoded,
            Err(fault) => {
                return Err(fault);
            },
        };
        proof {
            lemma_decode_wf(self@, instruction@);
        }
        match decoded.execute_on(self) {
            Ok(()) => {},
            Err(fault) => {
                return Err(fault);
            },
        }
        proof {
            lemma_execute_pc_bound(decoded, old(self)@);
        }
        if self.pc == MEMORY_SIZE {
            Ok(MachineState::Halted)
        } else {
            self.pc = self.pc + 1;
            proof {
                assert(self@ =~= (ComputerView {
                    pc: spec_execute(decoded, old(self)@)->Ok_0.pc + 1,
                    ..spec_execute(decoded, old(self)@)->Ok_0
                }));
            }
            Ok(MachineState::Running)
        }
    }

    /// Drives fetch, decode and execute until the halt sentinel, a fault,
    /// or `max_steps` transitions, whichever comes first; see `spec_run`.
    /// On a fault the machine is left as it stood before the faulting
    /// transition.
    pub fn run(&mut self, max_steps: u64) -> (result: Result<MachineState, Fault>)
        ensures
            spec_run(old(self)@, max_steps as nat) matches Ok(outcome) ==> result == Ok::<
                MachineState,
                Fault,
            >(outcome.0) && final(self)@ == outcome.1,
            spec_run(old(self)@, max_steps as nat) matches Err(e) ==> result == Err::<
                MachineState,
                Fault,
            >(e),
            result matches Err(e) ==> exists|n: nat|
                n <= max_steps && spec_run(old(self)@, n) == Ok::<
                    (MachineState, ComputerView),
                    Fault,
                >((MachineState::Running, final(self)@)) && spec_step(final(self)@) == Err::<
                    (MachineState, ComputerView),
                    Fault,
                >(e),
    {
        let ghost c0 = old(self)@;
        let mut steps: u64 = 0;
        while steps < max_steps
            invariant
                steps <= max_steps,
                spec_run(c0, steps as nat) == Ok::<(MachineState, ComputerView), Fault>((
                    MachineState::Running,
                    self@,
                )),
                c0 == old(self)@,
            decreases max_steps - steps,
        {
            let ghost before = self@;
            let outcome = self.step();
            proof {
                reveal_with_fuel(spec_run, 3);
                lemma_spec_run_splits(c0, steps as nat, (max_steps - steps) as nat);
                lemma_spec_run_splits(c0, steps as nat, 1);
            }
            match outcome {
                Ok(MachineState::Halted) => {
                    return Ok(MachineState::Halted);
                },
                Ok(MachineState::Running) => {},
                Err(fault) => {
                    return Err(fault);
                },
            }
            steps = steps + 1;
        }
        Ok(MachineState::Running)
    }

    /// A machine with an all-zero memory image and the program counter at 0.
    pub fn default() -> (r: Computer)
        ensures
            r@.ra == zero_word(),
            r@.rx == zero_word(),
            r@.ri1 == zero_word(),
            r@.ri2 == zero_word(),
            r@.ri3 == zero_word(),
            r@.ri4 == zero_word(),
            r@.ri5 == zero_word(),
            r@.ri6 == zero_word(),
            r@.rj == zero_word(),
            r@.overflow_flag == false,
            r@.comparison_flag == ComparisonFlag::equal,
            r@.memory == Seq::new(MEMORY_SIZE as nat, |i: int| zero_word()),
            r@.pc == 0,
    {
        let r = Computer::new([Word::default(); MEMORY_SIZE], 0);
        proof {
            assert(r@.memory =~= Seq::new(MEMORY_SIZE as nat, |i: int| zero_word()));
        }
        r
    }
}

} // verus!
