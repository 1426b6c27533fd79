//! General properties of the machine's transition function, stated and
//! proved over [`spec_step`] and its iterates. Together with the exact
//! contracts of [`crate::vm::VM::run_instruction`] and
//! [`crate::vm::VM::run`], they carry over to the executable interpreter.

use vstd::prelude::*;

use crate::instruction::Opcode;
use crate::instruction::opcode_of;
use crate::vm::HaltCause;
use crate::vm::MachineView;
use crate::vm::comparison_result;
use crate::vm::halt_at;
use crate::vm::spec_step;
use crate::vm::step_n;

verus! {

/// A halted machine is a fixed point: stepping it any number of times
/// changes nothing — no register, not the program counter, not the
/// remainder, not the flag — and it stays halted.
pub proof fn lemma_halted_is_fixed(s: MachineView, n: nat)
    requires
        s.halted,
    ensures
        step_n(s, n) == s,
    decreases n,
{
    if n > 0 {
        lemma_halted_is_fixed(s, (n - 1) as nat);
    }
}

/// A program consisting solely of a single `HLT` instruction, run from the
/// start, halts after the first step with the program counter at 1 and
/// everything else untouched; further steps change nothing.
pub proof fn lemma_single_hlt_program(s: MachineView, n: nat)
    requires
        !s.halted,
        s.pc == 0,
        s.program == seq![5u8],
        n >= 1,
    ensures
        step_n(s, n) == (MachineView { pc: 1, halted: true, cause: Some(HaltCause::Hlt), ..s }),
    decreases n,
{
    let h = MachineView { pc: 1, halted: true, cause: Some(HaltCause::Hlt), ..s };
    if n == 1 {
        assert(s.program[0] == 5);
        assert(spec_step(s) =~= h);
    } else {
        lemma_single_hlt_program(s, (n - 1) as nat);
        assert(spec_step(h) == h);
    }
}

/// An unrecognized opcode byte halts the machine with the program counter
/// advanced exactly one past that byte, whatever the byte and wherever it
/// stands; further steps change nothing.
pub proof fn lemma_illegal_opcode_halts(s: MachineView, n: nat)
    requires
        !s.halted,
        0 <= s.pc < s.program.len(),
        opcode_of(s.program[s.pc]) == Opcode::IGL,
        n >= 1,
    ensures
        step_n(s, n) == halt_at(s, s.pc + 1, HaltCause::IllegalOpcode),
    decreases n,
{
    let h = halt_at(s, s.pc + 1, HaltCause::IllegalOpcode);
    if n == 1 {
        assert(spec_step(s) =~= h);
    } else {
        lemma_illegal_opcode_halts(s, (n - 1) as nat);
        assert(spec_step(h) == h);
    }
}

/// `JMP` overwrites the program counter with the value held in the named
/// register — an absolute jump, independent of the prior program counter.
pub proof fn lemma_jmp_sets_pc(s: MachineView)
    requires
        s.wf(),
        !s.halted,
        s.pc + 2 <= s.program.len(),
        opcode_of(s.program[s.pc]) == Opcode::JMP,
        s.program[s.pc + 1] < 32,
        s.registers[s.program[s.pc + 1] as int] >= 0,
    ensures
        spec_step(s) == (MachineView {
            pc: s.registers[s.program[s.pc + 1] as int] as int,
            ..s
        }),
{
    assert(spec_step(s) =~= (MachineView {
        pc: s.registers[s.program[s.pc + 1] as int] as int,
        ..s
    }));
}

/// `JMP` through a register holding zero resets the program counter to
/// zero, regardless of where the jump instruction stood.
pub proof fn lemma_jmp_to_zero(s: MachineView)
    requires
        s.wf(),
        !s.halted,
        s.pc + 2 <= s.program.len(),
        opcode_of(s.program[s.pc]) == Opcode::JMP,
        s.program[s.pc + 1] < 32,
        s.registers[s.program[s.pc + 1] as int] == 0,
    ensures
        spec_step(s).pc == 0,
        !spec_step(s).halted,
        spec_step(s).registers == s.registers,
{
    lemma_jmp_sets_pc(s);
}

/// Every comparison instruction sets the equality flag to exactly the
/// comparison of the two named register values, advances the program
/// counter past its three operand bytes, and changes nothing else.
pub proof fn lemma_comparison_sets_flag(s: MachineView)
    requires
        s.wf(),
        !s.halted,
        s.pc + 4 <= s.program.len(),
        opcode_of(s.program[s.pc]).is_comparison(),
        s.program[s.pc + 1] < 32,
        s.program[s.pc + 2] < 32,
    ensures
        spec_step(s) == (MachineView {
            pc: s.pc + 4,
            equal_flag: comparison_result(
                opcode_of(s.program[s.pc]),
                s.registers[s.program[s.pc + 1] as int],
                s.registers[s.program[s.pc + 2] as int],
            ),
            ..s
        }),
{
    assert(spec_step(s) =~= (MachineView {
        pc: s.pc + 4,
        equal_flag: comparison_result(
            opcode_of(s.program[s.pc]),
            s.registers[s.program[s.pc + 1] as int],
            s.registers[s.program[s.pc + 2] as int],
        ),
        ..s
    }));
}

/// A conditional jump whose condition holds overwrites the program counter
/// with the named register's value without consuming the trailing 16-bit
/// field: only the opcode and the register byte are read. Covers `JEQ`
/// (`jump_when == true`) and `JNEQ` (`jump_when == false`).
pub proof fn lemma_cond_jump_taken(s: MachineView, jump_when: bool)
    requires
        s.wf(),
        !s.halted,
        s.pc + 2 <= s.program.len(),
        opcode_of(s.program[s.pc]) == (if jump_when {
            Opcode::JEQ
        } else {
            Opcode::JNEQ
        }),
        s.program[s.pc + 1] < 32,
        s.equal_flag == jump_when,
        s.registers[s.program[s.pc + 1] as int] >= 0,
    ensures
        spec_step(s) == (MachineView {
            pc: s.registers[s.program[s.pc + 1] as int] as int,
            ..s
        }),
{
    assert(spec_step(s) =~= (MachineView {
        pc: s.registers[s.program[s.pc + 1] as int] as int,
        ..s
    }));
}

/// A conditional jump whose condition fails consumes the trailing 16-bit
/// field and falls through: the program counter lands exactly four past
/// the opcode, and nothing else changes.
pub proof fn lemma_cond_jump_fallthrough(s: MachineView, jump_when: bool)
    requires
        s.wf(),
        !s.halted,
        s.pc + 4 <= s.program.len(),
        opcode_of(s.program[s.pc]) == (if jump_when {
            Opcode::JEQ
        } else {
            Opcode::JNEQ
        }),
        s.program[s.pc + 1] < 32,
        s.equal_flag != jump_when,
    ensures
        spec_step(s) == (MachineView { pc: s.pc + 4, ..s }),
{
    assert(spec_step(s) =~= (MachineView { pc: s.pc + 4, ..s }));
}

} // verus!
