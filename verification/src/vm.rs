//! The interpreter core: machine state, the mathematical transition
//! function, and the executable interpreter proved against it.
//!
//! The machine's behaviour is defined once, by [`spec_step`]: a total
//! function from one [`MachineView`] to the next. The executable
//! [`VM::run_instruction`] is proved to compute exactly that function, and
//! [`VM::run`] to compute an iterate of it.

use vstd::prelude::*;

use crate::instruction::Opcode;
use crate::instruction::opcode_of;
use vstd::arithmetic::div_mod::lemma_div_basics;
use vstd::arithmetic::div_mod::lemma_div_decreases;
use vstd::arithmetic::div_mod::lemma_div_basics_2;
use vstd::arithmetic::div_mod::lemma_div_nonincreasing;
use vstd::arithmetic::div_mod::lemma_div_pos_is_pos;
use vstd::arithmetic::div_mod::lemma_mod_division_less_than_divisor;
use vstd::arithmetic::div_mod::lemma_small_mod;

verus! {

/// Why the machine halted. Reported to the caller instead of being
/// printed, so the core stays embeddable.
#[derive(Clone, Copy, Debug, PartialEq, Eq, Structural)]
pub enum HaltCause {
    /// An explicit `HLT` instruction was executed.
    Hlt,
    /// The program counter stood at or past the end of the program when a
    /// new instruction was to be decoded: the program fell off the end.
    EndOfProgram,
    /// The leading byte of the instruction is not a defined opcode.
    IllegalOpcode,
    /// The byte stream ended in the middle of an instruction's operands.
    TruncatedInstruction,
    /// An operand named a register index outside the register file.
    RegisterOutOfRange,
    /// A `DIV` instruction met a zero divisor.
    DivideByZero,
    /// An arithmetic instruction overflowed the signed 32-bit range.
    ArithmeticOverflow,
    /// A jump would have moved the program counter below zero or past the
    /// largest representable index.
    JumpOutOfRange,
}

/// The mathematical state of the machine: the abstraction that every
/// contract of [`VM`] speaks of.
#[verifier::ext_equal]
pub struct MachineView {
    /// The register file: always exactly 32 signed 32-bit values.
    pub registers: Seq<i32>,
    /// The program bytes.
    pub program: Seq<u8>,
    /// The index of the next byte to decode.
    pub pc: int,
    /// The remainder of the most recent division, held as the unsigned
    /// 32-bit bit pattern of the truncating remainder.
    pub remainder: u32,
    /// The outcome of the most recent comparison instruction.
    pub equal_flag: bool,
    /// Whether the machine has halted. Halting is permanent until a new
    /// program is loaded.
    pub halted: bool,
    /// Why the machine halted, if it has.
    pub cause: Option<HaltCause>,
}

impl MachineView {
    /// Well-formedness: the register file has its fixed size and the
    /// program counter and program length are representable as machine
    /// indices.
    pub open spec fn wf(self) -> bool {
        &&& self.registers.len() == 32
        &&& 0 <= self.pc <= usize::MAX
        &&& self.program.len() <= usize::MAX
    }
}

/// The state `s` brought to a permanent stop at program counter `pc`, with
/// the reported cause `cause`; registers, remainder and flag keep their
/// values.
pub open spec fn halt_at(s: MachineView, pc: int, cause: HaltCause) -> MachineView {
    MachineView { pc, halted: true, cause: Some(cause), ..s }
}

/// Truncating (round-toward-zero) integer division, as the `DIV`
/// instruction performs it.
pub open spec fn div_trunc(a: int, b: int) -> int
    recommends
        b != 0,
{
    if a >= 0 && b > 0 {
        a / b
    } else if a < 0 && b < 0 {
        (-a) / (-b)
    } else if a < 0 {
        -((-a) / b)
    } else {
        -(a / (-b))
    }
}

/// The remainder matching [`div_trunc`]: its sign follows the dividend.
pub open spec fn rem_trunc(a: int, b: int) -> int
    recommends
        b != 0,
{
    let m = if b < 0 { -b } else { b };
    if a >= 0 {
        a % m
    } else {
        -((-a) % m)
    }
}

/// The unsigned 32-bit bit pattern of a value in the open interval
/// (-2^32, 2^32): how the remainder register stores a possibly negative
/// remainder.
pub open spec fn remainder_bits(r: int) -> u32
    recommends
        -0x1_0000_0000 < r < 0x1_0000_0000,
{
    if r < 0 {
        (r + 0x1_0000_0000) as u32
    } else {
        r as u32
    }
}

/// The value an arithmetic instruction computes, before the signed 32-bit
/// range check.
pub open spec fn arith_value(op: Opcode, a: i32, b: i32) -> int
    recommends
        op == Opcode::ADD || op == Opcode::SUB || op == Opcode::MUL || op == Opcode::DIV,
{
    match op {
        Opcode::ADD => a + b,
        Opcode::SUB => a - b,
        Opcode::MUL => a * b,
        Opcode::DIV => div_trunc(a as int, b as int),
        _ => 0,
    }
}

/// The outcome of one comparison instruction on two register values.
pub open spec fn comparison_result(op: Opcode, a: i32, b: i32) -> bool
    recommends
        op.is_comparison(),
{
    match op {
        Opcode::EQ => a == b,
        Opcode::NEQ => a != b,
        Opcode::GT => a > b,
        Opcode::LT => a < b,
        Opcode::GTQ => a >= b,
        Opcode::LTQ => a <= b,
        _ => false,
    }
}

/// `LOAD reg, imm16`: `s.pc` points at the first operand byte. The 16-bit
/// immediate is read big-endian and zero-extended into the register.
pub open spec fn step_load(s: MachineView) -> MachineView {
    if s.pc + 3 > s.program.len() {
        halt_at(s, s.pc, HaltCause::TruncatedInstruction)
    } else {
        let r = s.program[s.pc] as int;
        let imm = s.program[s.pc + 1] * 256 + s.program[s.pc + 2];
        if r >= 32 {
            halt_at(s, s.pc + 3, HaltCause::RegisterOutOfRange)
        } else {
            MachineView { pc: s.pc + 3, registers: s.registers.update(r, imm as i32), ..s }
        }
    }
}

/// `ADD`/`SUB`/`MUL`/`DIV reg1, reg2, dest`: `s.pc` points at the first
/// operand byte. `DIV` also writes the remainder register.
pub open spec fn step_arith(s: MachineView, op: Opcode) -> MachineView {
    if s.pc + 3 > s.program.len() {
        halt_at(s, s.pc, HaltCause::TruncatedInstruction)
    } else {
        let r1 = s.program[s.pc] as int;
        let r2 = s.program[s.pc + 1] as int;
        let rd = s.program[s.pc + 2] as int;
        if r1 >= 32 || r2 >= 32 || rd >= 32 {
            halt_at(s, s.pc + 3, HaltCause::RegisterOutOfRange)
        } else {
            let a = s.registers[r1];
            let b = s.registers[r2];
            if op == Opcode::DIV && b == 0 {
                halt_at(s, s.pc + 3, HaltCause::DivideByZero)
            } else {
                let v = arith_value(op, a, b);
                if v < i32::MIN || v > i32::MAX {
                    halt_at(s, s.pc + 3, HaltCause::ArithmeticOverflow)
                } else {
                    let rem = if op == Opcode::DIV {
                        remainder_bits(rem_trunc(a as int, b as int))
                    } else {
                        s.remainder
                    };
                    MachineView {
                        pc: s.pc + 3,
                        registers: s.registers.update(rd, v as i32),
                        remainder: rem,
                        ..s
                    }
                }
            }
        }
    }
}

/// `JMP reg`: `s.pc` points at the operand byte. The program counter is
/// overwritten with the value held in the register; a negative target
/// halts with a reported error.
pub open spec fn step_jmp(s: MachineView) -> MachineView {
    if s.pc + 1 > s.program.len() {
        halt_at(s, s.pc, HaltCause::TruncatedInstruction)
    } else {
        let r = s.program[s.pc] as int;
        if r >= 32 {
            halt_at(s, s.pc + 1, HaltCause::RegisterOutOfRange)
        } else {
            let t = s.registers[r] as int;
            if t < 0 {
                halt_at(s, s.pc + 1, HaltCause::JumpOutOfRange)
            } else {
                MachineView { pc: t, ..s }
            }
        }
    }
}

/// `JMPF reg` / `JMPB reg`: `s.pc` points at the operand byte. The target
/// is relative to the address of the next instruction, that is to the
/// position after the operand byte has been consumed. A target below zero
/// or past the largest representable index halts with a reported error.
pub open spec fn step_jmp_rel(s: MachineView, backward: bool) -> MachineView {
    if s.pc + 1 > s.program.len() {
        halt_at(s, s.pc, HaltCause::TruncatedInstruction)
    } else {
        let r = s.program[s.pc] as int;
        if r >= 32 {
            halt_at(s, s.pc + 1, HaltCause::RegisterOutOfRange)
        } else {
            let off = s.registers[r] as int;
            let t = if backward { s.pc + 1 - off } else { s.pc + 1 + off };
            if t < 0 || t > usize::MAX {
                halt_at(s, s.pc + 1, HaltCause::JumpOutOfRange)
            } else {
                MachineView { pc: t, ..s }
            }
        }
    }
}

/// A comparison instruction: `s.pc` points at the first operand byte. The
/// third operand byte is consumed and discarded; the equality flag takes
/// the comparison's outcome.
pub open spec fn step_comparison(s: MachineView, op: Opcode) -> MachineView {
    if s.pc + 3 > s.program.len() {
        halt_at(s, s.pc, HaltCause::TruncatedInstruction)
    } else {
        let r1 = s.program[s.pc] as int;
        let r2 = s.program[s.pc + 1] as int;
        if r1 >= 32 || r2 >= 32 {
            halt_at(s, s.pc + 3, HaltCause::RegisterOutOfRange)
        } else {
            MachineView {
                pc: s.pc + 3,
                equal_flag: comparison_result(op, s.registers[r1], s.registers[r2]),
                ..s
            }
        }
    }
}

/// `JEQ reg` (`jump_when == true`) / `JNEQ reg` (`jump_when == false`):
/// `s.pc` points at the operand byte. When the equality flag matches, the
/// program counter is overwritten with the register's value and the
/// trailing 16-bit field is not consumed; otherwise that field is skipped
/// and execution falls through.
pub open spec fn step_cond_jump(s: MachineView, jump_when: bool) -> MachineView {
    if s.pc + 1 > s.program.len() {
        halt_at(s, s.pc, HaltCause::TruncatedInstruction)
    } else {
        let r = s.program[s.pc] as int;
        if r >= 32 {
            halt_at(s, s.pc + 1, HaltCause::RegisterOutOfRange)
        } else if s.equal_flag == jump_when {
            let t = s.registers[r] as int;
            if t < 0 {
                halt_at(s, s.pc + 1, HaltCause::JumpOutOfRange)
            } else {
                MachineView { pc: t, ..s }
            }
        } else {
            if s.pc + 3 > s.program.len() {
                halt_at(s, s.pc + 1, HaltCause::TruncatedInstruction)
            } else {
                MachineView { pc: s.pc + 3, ..s }
            }
        }
    }
}

/// The transition function of the machine: decode and execute exactly one
/// instruction of `s`. Total: every state has a successor, and a halted
/// state is its own successor.
pub open spec fn spec_step(s: MachineView) -> MachineView {
    if s.halted {
        s
    } else if s.pc >= s.program.len() {
        halt_at(s, s.pc, HaltCause::EndOfProgram)
    } else {
        let op = opcode_of(s.program[s.pc]);
        let s1 = MachineView { pc: s.pc + 1, ..s };
        match op {
            Opcode::LOAD => step_load(s1),
            Opcode::ADD => step_arith(s1, op),
            Opcode::SUB => step_arith(s1, op),
            Opcode::MUL => step_arith(s1, op),
            Opcode::DIV => step_arith(s1, op),
            Opcode::HLT => halt_at(s, s.pc + 1, HaltCause::Hlt),
            Opcode::JMP => step_jmp(s1),
            Opcode::JMPF => step_jmp_rel(s1, false),
            Opcode::JMPB => step_jmp_rel(s1, true),
            Opcode::EQ => step_comparison(s1, op),
            Opcode::NEQ => step_comparison(s1, op),
            Opcode::GT => step_comparison(s1, op),
            Opcode::LT => step_comparison(s1, op),
            Opcode::GTQ => step_comparison(s1, op),
            Opcode::LTQ => step_comparison(s1, op),
            Opcode::JEQ => step_cond_jump(s1, true),
            Opcode::JNEQ => step_cond_jump(s1, false),
            Opcode::IGL => halt_at(s, s.pc + 1, HaltCause::IllegalOpcode),
        }
    }
}

/// `n` iterations of [`spec_step`] from `s`.
pub open spec fn step_n(s: MachineView, n: nat) -> MachineView
    decreases n,
{
    if n == 0 {
        s
    } else {
        spec_step(step_n(s, (n - 1) as nat))
    }
}

/// Once the one overflowing pair of signed 32-bit operands is excluded,
/// the truncating quotient and remainder of two such values stay in the
/// signed 32-bit range.
proof fn lemma_div_trunc_range(a: int, b: int)
    requires
        i32::MIN <= a <= i32::MAX,
        i32::MIN <= b <= i32::MAX,
        b != 0,
        !(a == i32::MIN && b == -1),
    ensures
        i32::MIN <= div_trunc(a, b) <= i32::MAX,
        -0x8000_0000 < rem_trunc(a, b) < 0x8000_0000,
{
    let x: int = if a < 0 { -a } else { a };
    let d: int = if b < 0 { -b } else { b };
    lemma_div_pos_is_pos(x, d);
    lemma_div_nonincreasing(x, d);
    lemma_mod_division_less_than_divisor(x, d);
    lemma_div_basics_2(x);
    if x > 0 && d > 1 {
        lemma_div_decreases(x, d);
    }
}

/// The interpreter: a register file, a byte program, a program counter, a
/// remainder register and an equality flag, mutated in place as
/// instructions execute.
pub struct VM {
    registers: Vec<i32>,
    program: Vec<u8>,
    pc: usize,
    remainder: u32,
    equal_flag: bool,
    halted: bool,
    halt_cause: Option<HaltCause>,
}

impl View for VM {
    type V = MachineView;

    closed spec fn view(&self) -> MachineView {
        MachineView {
            registers: self.registers@,
            program: self.program@,
            pc: self.pc as int,
            remainder: self.remainder,
            equal_flag: self.equal_flag,
            halted: self.halted,
            cause: self.halt_cause,
        }
    }
}

impl VM {
    /// A fresh machine: all registers zero, empty program, program counter
    /// zero, remainder zero, equality flag clear, not halted.
    pub fn new() -> (vm: VM)
        ensures
            vm@.wf(),
            vm@.registers =~= Seq::new(32, |i: int| 0i32),
            vm@.program =~= Seq::<u8>::empty(),
            vm@.pc == 0,
            vm@.remainder == 0,
            vm@.equal_flag == false,
            vm@.halted == false,
            vm@.cause is None,
    {
        let mut registers: Vec<i32> = Vec::new();
        let mut i: usize = 0;
        while i < 32
            invariant
                i <= 32,
                registers@ =~= Seq::new(i as nat, |j: int| 0i32),
            decreases 32 - i,
        {
            registers.push(0);
            i = i + 1;
        }
        VM {
            registers,
            program: Vec::new(),
            pc: 0,
            remainder: 0,
            equal_flag: false,
            halted: false,
            halt_cause: None,
        }
    }

    /// Replace the program. The program counter is deliberately not reset:
    /// the caller is responsible for its validity against the new program.
    /// A halted machine becomes runnable again: loading a new program is
    /// the only way out of the halted state.
    pub fn load(&mut self, program: Vec<u8>)
        requires
            old(self)@.wf(),
        ensures
            final(self)@.wf(),
            final(self)@ == (MachineView {
                program: program@,
                halted: false,
                cause: None,
                ..old(self)@
            }),
    {
        self.program = program;
        // Reading the length as a machine word pins the new program's
        // length into the index range that well-formedness records.
        let n: usize = self.program.len();
        proof {
            assert(self@.program.len() == n);
        }
        self.halted = false;
        self.halt_cause = None;
    }

    /// The value held in one register.
    pub fn register(&self, index: usize) -> (value: i32)
        requires
            self@.wf(),
            index < 32,
        ensures
            value == self@.registers[index as int],
    {
        self.registers[index]
    }

    /// Overwrite one register, as instruction execution would.
    pub fn set_register(&mut self, index: usize, value: i32)
        requires
            old(self)@.wf(),
            index < 32,
        ensures
            final(self)@.wf(),
            final(self)@ == (MachineView {
                registers: old(self)@.registers.update(index as int, value),
                ..old(self)@
            }),
    {
        self.registers[index] = value;
    }

    /// The program counter.
    pub fn pc(&self) -> (pc: usize)
        ensures
            pc == self@.pc,
    {
        self.pc
    }

    /// The remainder register.
    pub fn remainder(&self) -> (remainder: u32)
        ensures
            remainder == self@.remainder,
    {
        self.remainder
    }

    /// The equality flag.
    pub fn equal_flag(&self) -> (flag: bool)
        ensures
            flag == self@.equal_flag,
    {
        self.equal_flag
    }

    /// Whether the machine has halted.
    pub fn is_halted(&self) -> (halted: bool)
        ensures
            halted == self@.halted,
    {
        self.halted
    }

    /// Why the machine halted, if it has: the structured diagnostic that
    /// replaces console output.
    pub fn halt_cause(&self) -> (cause: Option<HaltCause>)
        ensures
            cause == self@.cause,
    {
        self.halt_cause
    }

    /// Read the opcode byte at the program counter and advance past it.
    pub fn decode_opcode(&mut self) -> (op: Opcode)
        requires
            old(self)@.wf(),
            old(self)@.pc < old(self)@.program.len(),
        ensures
            final(self)@.wf(),
            final(self)@ == (MachineView { pc: old(self)@.pc + 1, ..old(self)@ }),
            op == opcode_of(old(self)@.program[old(self)@.pc]),
    {
        let opcode = Opcode::from_byte(self.program[self.pc]);
        self.pc = self.pc + 1;
        opcode
    }

    /// Read one 8-bit operand at the program counter and advance past it.
    pub fn next_8_bits(&mut self) -> (b: u8)
        requires
            old(self)@.wf(),
            old(self)@.pc < old(self)@.program.len(),
        ensures
            final(self)@.wf(),
            final(self)@ == (MachineView { pc: old(self)@.pc + 1, ..old(self)@ }),
            b == old(self)@.program[old(self)@.pc],
    {
        let result = self.program[self.pc];
        self.pc = self.pc + 1;
        result
    }

    /// Read one 16-bit big-endian operand at the program counter and
    /// advance past it.
    pub fn next_16_bits(&mut self) -> (v: u16)
        requires
            old(self)@.wf(),
            old(self)@.pc + 2 <= old(self)@.program.len(),
        ensures
            final(self)@.wf(),
            final(self)@ == (MachineView { pc: old(self)@.pc + 2, ..old(self)@ }),
            v == old(self)@.program[old(self)@.pc] * 256 + old(self)@.program[old(self)@.pc + 1],
    {
        let hi = self.program[self.pc];
        let lo = self.program[self.pc + 1];
        self.pc = self.pc + 2;
        (hi as u16) * 256 + (lo as u16)
    }

    /// Stop permanently at the current program counter, recording why.
    fn halt_with(&mut self, cause: HaltCause)
        ensures
            final(self)@ == halt_at(old(self)@, old(self)@.pc, cause),
    {
        self.halted = true;
        self.halt_cause = Some(cause);
    }

    /// Execute the operand phase of `LOAD`.
    fn op_load(&mut self) -> (halted: bool)
        requires
            old(self)@.wf(),
            !old(self)@.halted,
            old(self)@.pc <= old(self)@.program.len(),
        ensures
            final(self)@.wf(),
            final(self)@ == step_load(old(self)@),
            halted == final(self)@.halted,
    {
        if self.program.len() - self.pc < 3 {
            self.halt_with(HaltCause::TruncatedInstruction);
            return true;
        }
        let register = self.next_8_bits() as usize;
        let number = self.next_16_bits();
        if register >= 32 {
            self.halt_with(HaltCause::RegisterOutOfRange);
            return true;
        }
        self.registers[register] = number as i32;
        false
    }

    /// Execute the operand phase of `ADD`, `SUB`, `MUL` or `DIV`.
    fn op_arith(&mut self, op: Opcode) -> (halted: bool)
        requires
            old(self)@.wf(),
            !old(self)@.halted,
            old(self)@.pc <= old(self)@.program.len(),
            op == Opcode::ADD || op == Opcode::SUB || op == Opcode::MUL || op == Opcode::DIV,
        ensures
            final(self)@.wf(),
            final(self)@ == step_arith(old(self)@, op),
            halted == final(self)@.halted,
    {
        if self.program.len() - self.pc < 3 {
            self.halt_with(HaltCause::TruncatedInstruction);
            return true;
        }
        let r1 = self.next_8_bits() as usize;
        let r2 = self.next_8_bits() as usize;
        let rd = self.next_8_bits() as usize;
        if r1 >= 32 || r2 >= 32 || rd >= 32 {
            self.halt_with(HaltCause::RegisterOutOfRange);
            return true;
        }
        let a = self.registers[r1];
        let b = self.registers[r2];
        match op {
            Opcode::ADD => {
                match a.checked_add(b) {
                    Some(v) => { self.registers[rd] = v; },
                    None => {
                        self.halt_with(HaltCause::ArithmeticOverflow);
                        return true;
                    },
                }
            },
            Opcode::SUB => {
                match a.checked_sub(b) {
                    Some(v) => { self.registers[rd] = v; },
                    None => {
                        self.halt_with(HaltCause::ArithmeticOverflow);
                        return true;
                    },
                }
            },
            Opcode::MUL => {
                match a.checked_mul(b) {
                    Some(v) => { self.registers[rd] = v; },
                    None => {
                        self.halt_with(HaltCause::ArithmeticOverflow);
                        return true;
                    },
                }
            },
            _ => {
                if b == 0 {
                    self.halt_with(HaltCause::DivideByZero);
                    return true;
                }
                if a == i32::MIN && b == -1 {
                    self.halt_with(HaltCause::ArithmeticOverflow);
                    return true;
                }
                proof {
                    lemma_div_trunc_range(a as int, b as int);
                    let m: int = if b < 0 { -(b as int) } else { b as int };
                    lemma_div_basics(m);
                    lemma_small_mod(0nat, m as nat);
                }
                let q = a.checked_div(b).unwrap();
                let rem = a.checked_rem(b).unwrap();
                self.registers[rd] = q;
                self.remainder = if rem >= 0 {
                    rem as u32
                } else {
                    (0x1_0000_0000i64 + rem as i64) as u32
                };
            },
        }
        false
    }

    /// Execute the operand phase of `JMP`.
    fn op_jmp(&mut self) -> (halted: bool)
        requires
            old(self)@.wf(),
            !old(self)@.halted,
            old(self)@.pc <= old(self)@.program.len(),
        ensures
            final(self)@.wf(),
            final(self)@ == step_jmp(old(self)@),
            halted == final(self)@.halted,
    {
        if self.program.len() - self.pc < 1 {
            self.halt_with(HaltCause::TruncatedInstruction);
            return true;
        }
        let register = self.next_8_bits() as usize;
        if register >= 32 {
            self.halt_with(HaltCause::RegisterOutOfRange);
            return true;
        }
        let target = self.registers[register];
        if target < 0 {
            self.halt_with(HaltCause::JumpOutOfRange);
            return true;
        }
        self.pc = target as usize;
        false
    }

    /// Move `base` by the signed offset `offset`, negated when `backward`;
    /// `None` when the result falls outside the representable indices.
    fn offset_pc(base: usize, offset: i32, backward: bool) -> (r: Option<usize>)
        ensures
            ({
                let t = if backward { base - offset } else { base + offset };
                r == (if 0 <= t <= usize::MAX { Some(t as usize) } else { None::<usize> })
            }),
    {
        let magnitude: usize = if offset >= 0 {
            offset as usize
        } else if offset == i32::MIN {
            0x8000_0000usize
        } else {
            (-offset) as usize
        };
        let forward = (offset >= 0) != backward;
        if forward {
            base.checked_add(magnitude)
        } else {
            if magnitude > base {
                None
            } else {
                Some(base - magnitude)
            }
        }
    }

    /// Execute the operand phase of `JMPF` or `JMPB`.
    fn op_jmp_rel(&mut self, backward: bool) -> (halted: bool)
        requires
            old(self)@.wf(),
            !old(self)@.halted,
            old(self)@.pc <= old(self)@.program.len(),
        ensures
            final(self)@.wf(),
            final(self)@ == step_jmp_rel(old(self)@, backward),
            halted == final(self)@.halted,
    {
        if self.program.len() - self.pc < 1 {
            self.halt_with(HaltCause::TruncatedInstruction);
            return true;
        }
        let register = self.next_8_bits() as usize;
        if register >= 32 {
            self.halt_with(HaltCause::RegisterOutOfRange);
            return true;
        }
        let offset = self.registers[register];
        match Self::offset_pc(self.pc, offset, backward) {
            Some(target) => {
                self.pc = target;
                false
            },
            None => {
                self.halt_with(HaltCause::JumpOutOfRange);
                true
            },
        }
    }

    /// Execute the operand phase of a comparison instruction.
    fn op_compare(&mut self, op: Opcode) -> (halted: bool)
        requires
            old(self)@.wf(),
            !old(self)@.halted,
            old(self)@.pc <= old(self)@.program.len(),
            op.is_comparison(),
        ensures
            final(self)@.wf(),
            final(self)@ == step_comparison(old(self)@, op),
            halted == final(self)@.halted,
    {
        if self.program.len() - self.pc < 3 {
            self.halt_with(HaltCause::TruncatedInstruction);
            return true;
        }
        let r1 = self.next_8_bits() as usize;
        let r2 = self.next_8_bits() as usize;
        let _ = self.next_8_bits();
        if r1 >= 32 || r2 >= 32 {
            self.halt_with(HaltCause::RegisterOutOfRange);
            return true;
        }
        let a = self.registers[r1];
        let b = self.registers[r2];
        self.equal_flag = match op {
            Opcode::EQ => a == b,
            Opcode::NEQ => a != b,
            Opcode::GT => a > b,
            Opcode::LT => a < b,
            Opcode::GTQ => a >= b,
            _ => a <= b,
        };
        false
    }

    /// Execute the operand phase of `JEQ` or `JNEQ`.
    fn op_cond_jump(&mut self, jump_when: bool) -> (halted: bool)
        requires
            old(self)@.wf(),
            !old(self)@.halted,
            old(self)@.pc <= old(self)@.program.len(),
        ensures
            final(self)@.wf(),
            final(self)@ == step_cond_jump(old(self)@, jump_when),
            halted == final(self)@.halted,
    {
        if self.program.len() - self.pc < 1 {
            self.halt_with(HaltCause::TruncatedInstruction);
            return true;
        }
        let register = self.next_8_bits() as usize;
        if register >= 32 {
            self.halt_with(HaltCause::RegisterOutOfRange);
            return true;
        }
        if self.equal_flag == jump_when {
            let target = self.registers[register];
            if target < 0 {
                self.halt_with(HaltCause::JumpOutOfRange);
                return true;
            }
            self.pc = target as usize;
        } else {
            if self.program.len() - self.pc < 2 {
                self.halt_with(HaltCause::TruncatedInstruction);
                return true;
            }
            let _ = self.next_16_bits();
        }
        false
    }

    /// Decode and execute exactly one instruction: one application of
    /// [`spec_step`]. Returns `true` exactly when the machine is halted
    /// afterwards; on an already halted machine nothing changes and `true`
    /// is returned again.
    pub fn run_instruction(&mut self) -> (halted: bool)
        requires
            old(self)@.wf(),
        ensures
            final(self)@.wf(),
            final(self)@ == spec_step(old(self)@),
            halted == final(self)@.halted,
    {
        if self.halted {
            return true;
        }
        if self.pc >= self.program.len() {
            self.halt_with(HaltCause::EndOfProgram);
            return true;
        }
        let op = self.decode_opcode();
        match op {
            Opcode::LOAD => self.op_load(),
            Opcode::ADD => self.op_arith(op),
            Opcode::SUB => self.op_arith(op),
            Opcode::MUL => self.op_arith(op),
            Opcode::DIV => self.op_arith(op),
            Opcode::HLT => {
                self.halt_with(HaltCause::Hlt);
                true
            },
            Opcode::JMP => self.op_jmp(),
            Opcode::JMPF => self.op_jmp_rel(false),
            Opcode::JMPB => self.op_jmp_rel(true),
            Opcode::EQ => self.op_compare(op),
            Opcode::NEQ => self.op_compare(op),
            Opcode::GT => self.op_compare(op),
            Opcode::LT => self.op_compare(op),
            Opcode::GTQ => self.op_compare(op),
            Opcode::LTQ => self.op_compare(op),
            Opcode::JEQ => self.op_cond_jump(true),
            Opcode::JNEQ => self.op_cond_jump(false),
            Opcode::IGL => {
                self.halt_with(HaltCause::IllegalOpcode);
                true
            },
        }
    }

    /// Repeatedly execute instructions until the machine halts, up to a
    /// step budget so large it cannot be spent in practice. On return the
    /// machine's state is an iterate of [`spec_step`], and it is halted
    /// unless the whole budget was consumed.
    pub fn run(&mut self)
        requires
            old(self)@.wf(),
        ensures
            final(self)@.wf(),
            exists|n: nat|
                n <= u64::MAX && #[trigger] step_n(old(self)@, n) == final(self)@
                    && (final(self)@.halted || n == u64::MAX),
    {
        let ghost s0 = self@;
        let ghost mut steps: nat = 0nat;
        let mut fuel: u64 = u64::MAX;
        let mut is_done = false;
        while !is_done && fuel > 0
            invariant
                self@.wf(),
                step_n(s0, steps) == self@,
                steps == u64::MAX - fuel,
                is_done ==> self@.halted,
            decreases fuel,
        {
            is_done = self.run_instruction();
            fuel = fuel - 1;
            proof {
                steps = steps + 1;
            }
        }
        proof {
            assert(step_n(s0, steps) == self@);
            assert(self@.halted || steps == u64::MAX);
        }
    }
}

} // verus!
