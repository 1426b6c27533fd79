use iridium::vm::VM;

#[test]
fn test_create_vm() {
    let test_vm = VM::new();

    assert_eq!(test_vm.register(0), 0)
}

#[test]
fn test_opcode_hlt() {
    let mut test_vm = VM::new();
    let program = vec![5, 0, 0, 0];

    test_vm.load(program);
    test_vm.run();

    assert_eq!(test_vm.pc(), 1);
}

#[test]
fn test_opcode_igl() {
    let mut test_vm = VM::new();
    let program = vec![200, 0, 0, 0];

    test_vm.load(program);
    test_vm.run();

    assert_eq!(test_vm.pc(), 1);
}

#[test]
fn test_load_opcode() {
    let mut test_vm = VM::new();
    let program = vec![0, 0, (500 >> 8) as u8, (500 & 0xFF) as u8];

    test_vm.load(program);
    test_vm.run();

    assert_eq!(test_vm.register(0), 500);
}

#[test]
fn test_add_opcode() {
    let mut test_vm = VM::new();
    let program = vec![0, 0, 0, 10, 0, 1, 0, 15, 1, 0, 1, 2];

    test_vm.load(program);
    test_vm.run();

    assert_eq!(test_vm.register(2), 25);
}

#[test]
fn test_sub_opcode() {
    let mut test_vm = VM::new();
    let program = vec![0, 0, 0, 15, 0, 1, 0, 10, 2, 0, 1, 2];

    test_vm.load(program);
    test_vm.run();

    assert_eq!(test_vm.register(2), 5);
}

#[test]
fn test_mul_opcode() {
    let mut test_vm = VM::new();
    let program = vec![0, 0, 0, 15, 0, 1, 0, 10, 3, 0, 1, 2];

    test_vm.load(program);
    test_vm.run();

    assert_eq!(test_vm.register(2), 150);
}

#[test]
fn test_div_opcode() {
    let mut test_vm = VM::new();
    let program = vec![0, 0, 0, 8, 0, 1, 0, 5, 4, 0, 1, 2];

    test_vm.load(program);
    test_vm.run();

    assert_eq!(test_vm.register(2), 1);
    assert_eq!(test_vm.remainder(), 3);
}

#[test]
fn test_jmp_opcode() {
    let mut test_vm = VM::new();

    test_vm.set_register(0, 1);
    test_vm.load(vec![6, 0, 0, 0]);
    test_vm.run_instruction();

    assert_eq!(test_vm.pc(), 1);
}

#[test]
fn test_jmpf_opcode() {
    let mut test_vm = VM::new();

    test_vm.set_register(0, 10);
    test_vm.load(vec![7, 0, 0, 0]);
    test_vm.run_instruction();

    assert_eq!(test_vm.pc(), 12);
}

#[test]
fn test_jmpb_opcode() {
    let mut test_vm = VM::new();

    test_vm.load(vec![0, 0, 0, 0, 8, 0, 0, 0]);

    test_vm.run_instruction();

    test_vm.set_register(0, 5);

    test_vm.run_instruction();

    assert_eq!(test_vm.pc(), 1);
}

#[test]
fn test_eq_opcode() {
    let mut test_vm = VM::new();

    test_vm.load(vec![9, 0, 1, 0, 9, 0, 1, 0, 0]);

    test_vm.set_register(0, 10);
    test_vm.set_register(1, 10);

    test_vm.run_instruction();

    assert_eq!(test_vm.equal_flag(), true);

    test_vm.set_register(1, 16);
    test_vm.run_instruction();

    assert_eq!(test_vm.equal_flag(), false);
}

#[test]
fn test_neq_opcode() {
    let mut test_vm = VM::new();

    test_vm.load(vec![12, 0, 1, 0, 12, 0, 1, 0, 0]);

    test_vm.set_register(0, 11);
    test_vm.set_register(1, 10);

    test_vm.run_instruction();

    assert_eq!(test_vm.equal_flag(), true);

    test_vm.set_register(1, 11);
    test_vm.run_instruction();

    assert_eq!(test_vm.equal_flag(), false);
}

#[test]
fn test_gt_opcode() {
    let mut test_vm = VM::new();

    test_vm.load(vec![13, 0, 1, 0, 13, 0, 1, 0, 13, 0, 1, 0]);

    test_vm.set_register(0, 9);
    test_vm.set_register(1, 10);

    test_vm.run_instruction();

    assert_eq!(test_vm.equal_flag(), false);

    test_vm.set_register(0, 10);
    test_vm.run_instruction();

    assert_eq!(test_vm.equal_flag(), false);

    test_vm.set_register(0, 11);
    test_vm.run_instruction();

    assert_eq!(test_vm.equal_flag(), true);
}

#[test]
fn test_lt_opcode() {
    let mut test_vm = VM::new();

    test_vm.load(vec![14, 0, 1, 0, 14, 0, 1, 0, 14, 0, 1, 0]);

    test_vm.set_register(0, 9);
    test_vm.set_register(1, 10);

    test_vm.run_instruction();

    assert_eq!(test_vm.equal_flag(), true);

    test_vm.set_register(0, 10);
    test_vm.run_instruction();

    assert_eq!(test_vm.equal_flag(), false);

    test_vm.set_register(0, 11);
    test_vm.run_instruction();

    assert_eq!(test_vm.equal_flag(), false);
}

#[test]
fn test_gtq_opcode() {
    let mut test_vm = VM::new();

    test_vm.load(vec![15, 0, 1, 0, 15, 0, 1, 0, 15, 0, 1, 0]);

    test_vm.set_register(0, 9);
    test_vm.set_register(1, 10);

    test_vm.run_instruction();

    assert_eq!(test_vm.equal_flag(), false);

    test_vm.set_register(0, 10);
    test_vm.run_instruction();

    assert_eq!(test_vm.equal_flag(), true);

    test_vm.set_register(0, 11);
    test_vm.run_instruction();

    assert_eq!(test_vm.equal_flag(), true);
}

#[test]
fn test_ltq_opcode() {
    let mut test_vm = VM::new();

    test_vm.load(vec![16, 0, 1, 0, 16, 0, 1, 0, 16, 0, 1, 0]);

    test_vm.set_register(0, 9);
    test_vm.set_register(1, 10);

    test_vm.run_instruction();

    assert_eq!(test_vm.equal_flag(), true);

    test_vm.set_register(0, 10);
    test_vm.run_instruction();

    assert_eq!(test_vm.equal_flag(), true);

    test_vm.set_register(0, 11);
    test_vm.run_instruction();

    assert_eq!(test_vm.equal_flag(), false);
}

#[test]
fn test_jeq_opcode() {
    let mut test_vm = VM::new();

    test_vm.load(vec![9, 0, 1, 0, 10, 2, 0, 0]);

    test_vm.set_register(0, 10);
    test_vm.set_register(1, 10);
    test_vm.set_register(2, 0);

    test_vm.run_instruction();
    test_vm.run_instruction();

    assert_eq!(test_vm.pc(), 0);

    test_vm.set_register(0, 10);
    test_vm.set_register(1, 11);

    test_vm.run_instruction();
    test_vm.run_instruction();

    assert_eq!(test_vm.pc(), 8);
}

#[test]
fn test_jneq_opcode() {
    let mut test_vm = VM::new();

    test_vm.load(vec![9, 0, 1, 0, 11, 2, 0, 0]);

    test_vm.set_register(0, 10);
    test_vm.set_register(1, 11);
    test_vm.set_register(2, 0);

    test_vm.run_instruction();
    test_vm.run_instruction();

    assert_eq!(test_vm.pc(), 0);

    test_vm.set_register(0, 10);
    test_vm.set_register(1, 10);

    test_vm.run_instruction();
    test_vm.run_instruction();

    assert_eq!(test_vm.pc(), 8);
}
