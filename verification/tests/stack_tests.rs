use vm_translator::stack::Stack;

#[test]
fn should_push_x_in_the_stack() {
    let mut stack = Stack::new();
    let _ = stack.push(16);
    let _ = stack.push(2);

    assert_eq!(stack, Stack { memory: vec![16, 2], sp: 2 })
}

#[test]
fn should_pop_last_value_in_the_stack() {
    let mut stack = Stack::new();
    let _ = stack.push(16);
    let _ = stack.push(2);
    let _ = stack.push(7);
    let _ = stack.pop();

    assert_eq!(stack, Stack { memory: vec![16, 2], sp: 2 })
}

#[test]
fn should_add_x_and_y_in_the_stack() {
    let mut stack = Stack::new();
    let _ = stack.push(16);
    let _ = stack.push(2);
    let _ = stack.add();

    assert_eq!(stack, Stack { memory: vec![18], sp: 1 })
}

#[test]
fn should_sub_x_and_y_in_the_stack() {
    let mut stack = Stack::new();
    let _ = stack.push(16);
    let _ = stack.push(16);
    let _ = stack.push(2);
    let _ = stack.sub();

    assert_eq!(stack, Stack { memory: vec![16, 14], sp: 2 })
}

#[test]
fn should_neg_last_value_in_the_stack() {
    let mut stack = Stack::new();
    let _ = stack.push(16);
    let _ = stack.push(16);
    let _ = stack.push(2);
    let _ = stack.neg();

    assert_eq!(stack, Stack { memory: vec![16, 16, -2], sp: 3 })
}

#[test]
fn should_verify_x_equal_y_in_the_stack() {
    let mut stack = Stack::new();
    let _ = stack.push(16);
    let _ = stack.push(16);
    let _ = stack.push(15);
    let _ = stack.push(15);
    let _ = stack.equal();

    assert_eq!(stack, Stack { memory: vec![16, 16, 1], sp: 3 })
}

#[test]
fn should_verify_x_greater_than_y_in_the_stack() {
    let mut stack = Stack::new();
    let _ = stack.push(16);
    let _ = stack.push(15);
    let _ = stack.push(15);
    let _ = stack.gt();

    assert_eq!(stack, Stack { memory: vec![16, 0], sp: 2 })
}

#[test]
fn should_verify_x_less_than_y_in_the_stack() {
    let mut stack = Stack::new();
    let _ = stack.push(16);
    let _ = stack.push(15);
    let _ = stack.push(17);
    let _ = stack.lt();

    assert_eq!(stack, Stack { memory: vec![16, 1], sp: 2 })
}

#[test]
fn should_verify_x_bitwise_and_than_y_in_the_stack() {
    let mut stack = Stack::new();
    let _ = stack.push(16);
    let _ = stack.push(15);
    let _ = stack.push(17);
    let _ = stack.and();

    assert_eq!(stack, Stack { memory: vec![16, 1], sp: 2 })
}

#[test]
fn and_pushes_the_bitwise_value() {
    let mut stack = Stack::new();
    let _ = stack.push(12);
    let _ = stack.push(10);
    let _ = stack.and();

    assert_eq!(stack, Stack { memory: vec![8], sp: 1 })
}

#[test]
fn or_pushes_the_bitwise_value() {
    let mut stack = Stack::new();
    let _ = stack.push(2);
    let _ = stack.push(1);
    let _ = stack.or();

    assert_eq!(stack, Stack { memory: vec![3], sp: 1 })
}

#[test]
fn should_not_x_in_the_stack() {
    let mut stack = Stack::new();
    let _ = stack.push(5);
    let _ = stack.not();

    assert_eq!(stack, Stack { memory: vec![-6], sp: 1 })
}
