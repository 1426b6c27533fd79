use iridium::vm::HaltCause;
use iridium::vm::VM;

#[test]
fn test_div_remainder_truncates() {
    let mut test_vm = VM::new();
    let program = vec![0, 0, 0, 15, 0, 1, 0, 10, 4, 0, 1, 2];

    test_vm.load(program);
    test_vm.run();

    assert_eq!(test_vm.register(2), 1);
    assert_eq!(test_vm.remainder(), 5);
}

#[test]
fn test_hlt_reports_cause() {
    let mut test_vm = VM::new();

    test_vm.load(vec![5]);
    test_vm.run();

    assert_eq!(test_vm.pc(), 1);
    assert!(test_vm.is_halted());
    assert_eq!(test_vm.halt_cause(), Some(HaltCause::Hlt));
}

#[test]
fn test_step_after_halt_changes_nothing() {
    let mut test_vm = VM::new();

    test_vm.set_register(3, 42);
    test_vm.load(vec![5]);
    test_vm.run();

    assert!(test_vm.is_halted());
    assert_eq!(test_vm.pc(), 1);

    let halted_again = test_vm.run_instruction();

    assert!(halted_again);
    assert!(test_vm.is_halted());
    assert_eq!(test_vm.pc(), 1);
    assert_eq!(test_vm.register(3), 42);
    assert_eq!(test_vm.halt_cause(), Some(HaltCause::Hlt));
}

#[test]
fn test_empty_program_falls_off_the_end() {
    let mut test_vm = VM::new();

    test_vm.run();

    assert!(test_vm.is_halted());
    assert_eq!(test_vm.pc(), 0);
    assert_eq!(test_vm.halt_cause(), Some(HaltCause::EndOfProgram));
}

#[test]
fn test_illegal_opcode_reports_cause() {
    let mut test_vm = VM::new();

    test_vm.load(vec![200, 0, 0, 0]);
    test_vm.run();

    assert!(test_vm.is_halted());
    assert_eq!(test_vm.pc(), 1);
    assert_eq!(test_vm.halt_cause(), Some(HaltCause::IllegalOpcode));
}

#[test]
fn test_divide_by_zero_halts() {
    let mut test_vm = VM::new();

    test_vm.load(vec![4, 0, 1, 2]);
    test_vm.run();

    assert!(test_vm.is_halted());
    assert_eq!(test_vm.pc(), 4);
    assert_eq!(test_vm.halt_cause(), Some(HaltCause::DivideByZero));
    assert_eq!(test_vm.register(2), 0);
}

#[test]
fn test_register_index_out_of_range_halts() {
    let mut test_vm = VM::new();

    test_vm.load(vec![1, 40, 0, 0]);
    test_vm.run();

    assert!(test_vm.is_halted());
    assert_eq!(test_vm.pc(), 4);
    assert_eq!(test_vm.halt_cause(), Some(HaltCause::RegisterOutOfRange));
}

#[test]
fn test_truncated_instruction_halts() {
    let mut test_vm = VM::new();

    test_vm.load(vec![0, 0]);
    test_vm.run();

    assert!(test_vm.is_halted());
    assert_eq!(test_vm.pc(), 1);
    assert_eq!(test_vm.halt_cause(), Some(HaltCause::TruncatedInstruction));
    assert_eq!(test_vm.register(0), 0);
}

#[test]
fn test_backward_jump_underflow_halts() {
    let mut test_vm = VM::new();

    test_vm.set_register(0, 5);
    test_vm.load(vec![8, 0]);
    test_vm.run_instruction();

    assert!(test_vm.is_halted());
    assert_eq!(test_vm.pc(), 2);
    assert_eq!(test_vm.halt_cause(), Some(HaltCause::JumpOutOfRange));
}

#[test]
fn test_negative_jump_target_halts() {
    let mut test_vm = VM::new();

    test_vm.set_register(0, -1);
    test_vm.load(vec![6, 0]);
    test_vm.run_instruction();

    assert!(test_vm.is_halted());
    assert_eq!(test_vm.halt_cause(), Some(HaltCause::JumpOutOfRange));
}

#[test]
fn test_multiplication_overflow_halts() {
    let mut test_vm = VM::new();

    let program = vec![0, 0, 255, 255, 0, 1, 255, 255, 3, 0, 1, 2];
    test_vm.load(program);
    test_vm.run();

    assert!(test_vm.is_halted());
    assert_eq!(test_vm.halt_cause(), Some(HaltCause::ArithmeticOverflow));
    assert_eq!(test_vm.register(2), 0);
}

#[test]
fn test_jmpf_with_negative_offset_moves_back() {
    let mut test_vm = VM::new();

    test_vm.set_register(0, -1);
    test_vm.load(vec![7, 0, 0, 0]);
    test_vm.run_instruction();

    assert_eq!(test_vm.pc(), 1);
    assert!(!test_vm.is_halted());
}

#[test]
fn test_load_clears_halt() {
    let mut test_vm = VM::new();

    test_vm.load(vec![5]);
    test_vm.run();

    assert!(test_vm.is_halted());
    assert_eq!(test_vm.pc(), 1);

    test_vm.load(vec![5, 5]);

    assert!(!test_vm.is_halted());
    assert_eq!(test_vm.halt_cause(), None);

    test_vm.run();

    assert!(test_vm.is_halted());
    assert_eq!(test_vm.pc(), 2);
    assert_eq!(test_vm.halt_cause(), Some(HaltCause::Hlt));
}

#[test]
fn test_comparison_discards_third_byte() {
    let mut test_vm = VM::new();

    test_vm.set_register(0, 7);
    test_vm.set_register(1, 7);
    test_vm.load(vec![9, 0, 1, 99]);
    test_vm.run_instruction();

    assert_eq!(test_vm.pc(), 4);
    assert_eq!(test_vm.equal_flag(), true);
    assert!(!test_vm.is_halted());
}

#[test]
fn test_load_immediate_is_big_endian() {
    let mut test_vm = VM::new();

    test_vm.load(vec![0, 7, 1, 244]);
    test_vm.run_instruction();

    assert_eq!(test_vm.register(7), 500);
    assert_eq!(test_vm.pc(), 4);
}
