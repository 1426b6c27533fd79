//! The interactive shell's state: a command history and a machine. The
//! line-reading loop itself is I/O and lives outside the library; the
//! dispatch on the fixed literal commands is verified here.

use vstd::prelude::*;

use crate::vm::VM;
use crate::vm::MachineView;

verus! {

/// What the shell should do with one line of input.
#[derive(Clone, Copy, Debug, PartialEq, Eq, Structural)]
pub enum ReplAction {
    /// The quit command: terminate, with a farewell.
    Quit,
    /// The history command: print every previously entered line, oldest
    /// first.
    PrintHistory,
    /// Anything else: report the input as invalid and ignore it.
    Invalid,
}

/// The action a line of input calls for: exactly two literal commands are
/// recognized.
pub open spec fn classify_line(line: Seq<char>) -> ReplAction {
    if line == ".quit"@ {
        ReplAction::Quit
    } else if line == ".history"@ {
        ReplAction::PrintHistory
    } else {
        ReplAction::Invalid
    }
}

/// The abstract state of the shell.
pub struct ReplView {
    /// Every line entered so far, oldest first, command lines included.
    pub history: Seq<String>,
    /// The machine the shell owns.
    pub vm: MachineView,
}

/// REPL is:
/// - Read
/// - Evaluate
/// - Print
/// - Loop
pub struct REPL {
    command_history: Vec<String>,
    vm: VM,
}

impl View for REPL {
    type V = ReplView;

    closed spec fn view(&self) -> ReplView {
        ReplView { history: self.command_history@, vm: self.vm@ }
    }
}

impl REPL {
    /// A fresh shell: empty history, and a fresh machine — all registers
    /// zero, empty program, program counter zero, remainder zero, equality
    /// flag clear, not halted.
    pub fn new() -> (repl: REPL)
        ensures
            repl@.history =~= Seq::<String>::empty(),
            repl@.vm.wf(),
            repl@.vm.registers =~= Seq::new(32, |i: int| 0i32),
            repl@.vm.program =~= Seq::<u8>::empty(),
            repl@.vm.pc == 0,
            repl@.vm.remainder == 0,
            repl@.vm.equal_flag == false,
            repl@.vm.halted == false,
            repl@.vm.cause is None,
    {
        REPL { vm: VM::new(), command_history: Vec::new() }
    }

    /// Record one entered line in the history and say which action it
    /// calls for.
    pub fn process_line(&mut self, line: String) -> (action: ReplAction)
        ensures
            final(self)@.history == old(self)@.history.push(line),
            final(self)@.vm == old(self)@.vm,
            action == classify_line(line@),
    {
        let action = if line == ".quit".to_owned() {
            ReplAction::Quit
        } else if line == ".history".to_owned() {
            ReplAction::PrintHistory
        } else {
            ReplAction::Invalid
        };
        self.command_history.push(line);
        action
    }

    /// The lines entered so far, oldest first.
    pub fn history(&self) -> (lines: &Vec<String>)
        ensures
            lines@ == self@.history,
    {
        &self.command_history
    }
}

} // verus!
