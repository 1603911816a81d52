use epievm::vm::VirtualMachine;

#[test]
fn create_virtual_machine() {
    let vm = VirtualMachine::new();
    assert_eq!(vm.registers[0], 0);
    assert_eq!(vm.pc, 0);
}

#[test]
fn opcode_hlt() {
    let mut vm = VirtualMachine::new();
    let bytes = vec![5, 0, 0, 0];
    vm.program = bytes;
    vm.run_once();
    assert_eq!(vm.pc, 1);
}

#[test]
fn opcode_igl() {
    let mut vm = VirtualMachine::new();
    let bytes = vec![200, 0, 0, 0];
    vm.program = bytes;
    vm.run_once();
    assert_eq!(vm.pc, 1);
}

#[test]
fn opcode_load() {
    let mut vm = VirtualMachine::new();
    vm.program = vec![0, 0, 1, 244];
    vm.run_once();
    assert_eq!(vm.registers[0], 500);
}

#[test]
fn opcode_jmp() {
    let mut vm = VirtualMachine::new();
    vm.registers[0] = 1;
    vm.program = vec![6, 0, 0, 0];
    vm.run_once();
    assert_eq!(vm.pc, 1);
}

#[test]
fn opcode_jmpf() {
    let mut vm = VirtualMachine::new();
    vm.registers[0] = 2;
    vm.program = vec![7, 0, 0, 0, 5, 0, 0, 0];
    vm.run_once();
    assert_eq!(vm.pc, 4);
}

#[test]
fn opcode_jmpb() {
    let mut vm = VirtualMachine::new();
    vm.registers[0] = 2;
    vm.program = vec![8, 0, 0, 0, 5, 0, 0, 0];
    vm.run_once();
    assert_eq!(vm.pc, 0);
}

#[test]
fn opcode_eq() {
    let mut vm = VirtualMachine::new();
    vm.registers[0] = 10;
    vm.registers[1] = 10;
    vm.program = vec![9, 0, 1, 0, 9, 0, 1, 0];
    vm.run_once();
    assert_eq!(vm.equal_flag, true);
    vm.registers[1] = 20;
    vm.run_once();
    assert_eq!(vm.equal_flag, false);
}

#[test]
fn opcode_neq() {
    let mut vm = VirtualMachine::new();
    vm.registers[0] = 10;
    vm.registers[1] = 20;
    vm.program = vec![10, 0, 1, 0, 10, 0, 1, 0];
    vm.run_once();
    assert_eq!(vm.equal_flag, true);
    vm.registers[1] = 10;
    vm.run_once();
    assert_eq!(vm.equal_flag, false);
}

#[test]
fn opcode_gt() {
    let mut vm = VirtualMachine::new();
    vm.registers[0] = 20;
    vm.registers[1] = 10;
    vm.program = vec![11, 0, 1, 0, 11, 0, 1, 0, 11, 0, 1, 0];
    vm.run_once();
    assert_eq!(vm.equal_flag, true);
    vm.registers[0] = 10;
    vm.run_once();
    assert_eq!(vm.equal_flag, false);
    vm.registers[0] = 5;
    vm.run_once();
    assert_eq!(vm.equal_flag, false);
}

#[test]
fn opcode_jeq() {
    let mut vm = VirtualMachine::new();
    vm.registers[0] = 7;
    vm.equal_flag = true;
    vm.program = vec![15, 0, 0, 0, 17, 0, 0, 0, 17, 0, 0, 0];
    vm.run_once();
    assert_eq!(vm.pc, 7);
}

#[test]
fn opcode_jneq() {
    let mut vm = VirtualMachine::new();
    vm.registers[0] = 7;
    vm.equal_flag = false;
    vm.program = vec![16, 0, 0, 0, 17, 0, 0, 0, 17, 0, 0, 0];
    vm.run_once();
    assert_eq!(vm.pc, 7);
}

#[test]
fn opcode_aloc() {
    let mut vm = VirtualMachine::new();
    vm.registers[0] = 1024;
    vm.program = vec![17, 0, 0, 0];
    vm.run_once();
    assert_eq!(vm.heap.len(), 1024);
}

#[test]
fn opcode_inc() {
    let mut vm = VirtualMachine::new();
    vm.registers[0] = 1;
    vm.program = vec![18, 0, 0, 0];
    vm.run_once();
    assert_eq!(vm.registers[0], 2);
}

#[test]
fn opcode_dec() {
    let mut vm = VirtualMachine::new();
    vm.registers[0] = 1;
    vm.program = vec![19, 0, 0, 0];
    vm.run_once();
    assert_eq!(vm.registers[0], 0);
}

#[test]
fn opcode_mul() {
    let mut vm = VirtualMachine::get_test_vm();
    vm.program = vec![3, 0, 1, 2];
    vm.program = VirtualMachine::prepend_header(vm.program);
    vm.run();
    assert_eq!(vm.registers[2], 50);
}
