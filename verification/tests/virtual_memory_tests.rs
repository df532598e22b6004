use vm_translator::virtual_memory::VirtualRAM;

#[test]
fn virtual_memory_push_value_from_segment_test_in_the_stack() {
    let mut vm = VirtualRAM::new();
    vm.memory[5] = 7;
    vm.push("temp", 0);
    assert_eq!(vm.memory[256], 7);
    assert_eq!(vm.sp, 257);
}

#[test]
fn virtual_memory_pop_stack_to_push_it_in_the_test_segment() {
    let mut vm = VirtualRAM::new();
    vm.memory[5] = 42;
    vm.push("temp", 0);
    let mut segment = "temp";
    vm.pop(&mut segment, 3);
    assert_eq!(vm.memory[8], 42);
    assert_eq!(vm.sp, 256);
}

#[test]
fn virtual_memory_add_x2_and_y7_from_the_stack() {
    let mut vm = VirtualRAM::new();
    vm.memory[255] = 2;
    vm.memory[256] = 7;
    vm.add();
    assert_eq!(vm.memory[255], 9);
    assert_eq!(vm.memory[256], 0);
    assert_eq!(vm.sp, 255);
}

#[test]
fn virtual_memory_sub_x2_and_y7_from_the_stack() {
    let mut vm = VirtualRAM::new();
    vm.memory[255] = 2;
    vm.memory[256] = 7;
    vm.sub();
    assert_eq!(vm.memory[255], -5);
    assert_eq!(vm.memory[256], 0);
    assert_eq!(vm.sp, 255);
}

#[test]
fn virtual_memory_neg_value_from_the_stack() {
    let mut vm = VirtualRAM::new();
    vm.memory[256] = 5;
    vm.neg();
    assert_eq!(vm.memory[256], -5);
    assert_eq!(vm.sp, 256);
}

#[test]
fn stack_push_value_from_segment_test_in_the_stack() {
    let mut vm = VirtualRAM::new();
    vm.memory[1] = 11;
    vm.push("local", 0);
    assert_eq!(vm.memory[256], 11);
    assert_eq!(vm.sp, 257);
}

#[test]
fn stack_pop_stack_to_push_it_in_the_test_segment() {
    let mut vm = VirtualRAM::new();
    vm.memory[255] = 9;
    let mut segment = "static";
    vm.pop(&mut segment, 2);
    assert_eq!(vm.memory[18], 9);
    assert_eq!(vm.sp, 255);
}

#[test]
fn stack_add_x2_and_y7_from_the_stack() {
    let mut vm = VirtualRAM::new();
    vm.memory[255] = 2;
    vm.memory[256] = 7;
    vm.add();
    assert_eq!(vm.memory[255], 9);
    assert_eq!(vm.sp, 255);
}

#[test]
fn stack_sub_x2_and_y7_from_the_stack() {
    let mut vm = VirtualRAM::new();
    vm.memory[255] = 2;
    vm.memory[256] = 7;
    vm.sub();
    assert_eq!(vm.memory[255], -5);
    assert_eq!(vm.sp, 255);
}

#[test]
fn stack_neg_value_from_the_stack() {
    let mut vm = VirtualRAM::new();
    vm.memory[256] = -3;
    vm.neg();
    assert_eq!(vm.memory[256], 3);
    assert_eq!(vm.sp, 256);
}

#[test]
fn eq_pushes_all_ones_for_equal_values_and_zero_otherwise() {
    let mut vm = VirtualRAM::new();
    vm.memory[255] = 7;
    vm.memory[256] = 7;
    vm.eq();
    assert_eq!(vm.memory[255], -1);
    assert_eq!(vm.memory[256], 0);
    assert_eq!(vm.sp, 255);

    let mut vm = VirtualRAM::new();
    vm.memory[255] = 7;
    vm.memory[256] = 8;
    vm.eq();
    assert_eq!(vm.memory[255], 0);
    assert_eq!(vm.sp, 255);
}

#[test]
fn gt_and_lt_push_all_ones_when_the_comparison_holds() {
    let mut vm = VirtualRAM::new();
    vm.memory[255] = 9;
    vm.memory[256] = 2;
    vm.gt();
    assert_eq!(vm.memory[255], -1);
    assert_eq!(vm.sp, 255);

    let mut vm = VirtualRAM::new();
    vm.memory[255] = 9;
    vm.memory[256] = 2;
    vm.lt();
    assert_eq!(vm.memory[255], 0);
    assert_eq!(vm.sp, 255);

    let mut vm = VirtualRAM::new();
    vm.memory[255] = -3;
    vm.memory[256] = 2;
    vm.lt();
    assert_eq!(vm.memory[255], -1);
    assert_eq!(vm.sp, 255);
}

#[test]
fn resolve_segment_follows_the_register_map() {
    let vm = VirtualRAM::new();
    assert_eq!(vm.resolve_segment("local", 4), 1);
    assert_eq!(vm.resolve_segment("argument", 0), 2);
    assert_eq!(vm.resolve_segment("pointer", 0), 3);
    assert_eq!(vm.resolve_segment("pointer", 1), 4);
    assert_eq!(vm.resolve_segment("temp", 6), 11);
    assert_eq!(vm.resolve_segment("constant", 3), 256);
    assert_eq!(vm.resolve_segment("static", 7), 23);
}
