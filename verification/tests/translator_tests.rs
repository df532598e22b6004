use vm_translator::code::{
    write_arithmetic, write_bootstrap, write_call, write_function, write_goto, write_if,
    write_label, write_push_pop, write_return,
};
use vm_translator::command::{ArithmeticOp, CommandType, MemorySegment};
use vm_translator::errors::HVMError;
use vm_translator::labels::LabelGenerator;
use vm_translator::parser::{parse_file, SourceModule};
use std::cmp::Ordering;
use vm_translator::translator::{module_order, translate};

fn module(name: &str, lines: &[&str]) -> SourceModule {
    SourceModule {
        name: name.to_string(),
        lines: lines.iter().map(|l| l.to_string()).collect(),
    }
}

#[test]
fn add_fragment_is_exact() {
    let mut gen = LabelGenerator::new();
    let text = write_arithmetic(ArithmeticOp::Add, &mut gen);
    assert_eq!(text, "// add\n@SP\nA=M-1\nD=M\n@SP\nM=M-1\n@SP\nA=M-1\nD=D+M\nM=D\n\n");
}

#[test]
fn comparison_fragment_draws_two_fresh_labels() {
    let mut gen = LabelGenerator::new();
    let text = write_arithmetic(ArithmeticOp::Eq, &mut gen);
    assert_eq!(
        text,
        "// eq\n@SP\nAM=M-1\nD=M\nA=A-1\nD=M-D\n@COUNT_0\nD;JEQ\nD=0\n@COUNT_1\n0;JMP\n(COUNT_0)\nD=-1\n(COUNT_1)\n@SP\nA=M-1\nM=D\n\n"
    );
    let second = write_arithmetic(ArithmeticOp::Gt, &mut gen);
    assert!(second.contains("@COUNT_2"));
    assert!(second.contains("(COUNT_3)"));
    assert!(!second.contains("COUNT_0"));
    assert!(!second.contains("COUNT_1"));
}

#[test]
fn push_constant_fragment_is_exact() {
    let cmd = CommandType::Push(MemorySegment::Constant, 7);
    let text = write_push_pop(&cmd, "Main").unwrap();
    assert_eq!(text, "// push constant 7\n@7\nD=A\n@SP\nA=M\nM=D\n@SP\nM=M+1\n\n");
}

#[test]
fn push_local_uses_base_plus_index_addressing() {
    let cmd = CommandType::Push(MemorySegment::Local, 2);
    let text = write_push_pop(&cmd, "Main").unwrap();
    assert_eq!(text, "// push local 2\n@2\nD=A\n@LCL\nA=D+M\nD=M\n@SP\nA=M\nM=D\n@SP\nM=M+1\n\n");
}

#[test]
fn pop_that_walks_the_index_in_steps() {
    let cmd = CommandType::Pop(MemorySegment::That, 3);
    let text = write_push_pop(&cmd, "Main").unwrap();
    assert_eq!(
        text,
        "// pop that 3\n@SP\nM=M-1\nA=M\nD=M\n@THAT\nA=M+1\nA=A+1\nA=A+1\nM=D\n\n"
    );
}

#[test]
fn static_slots_are_namespaced_by_module() {
    let cmd = CommandType::Push(MemorySegment::Static, 4);
    let in_main = write_push_pop(&cmd, "Main").unwrap();
    let in_other = write_push_pop(&cmd, "Other").unwrap();
    assert!(in_main.contains("@Main.4"));
    assert!(in_other.contains("@Other.4"));
    assert_ne!(in_main, in_other);
}

#[test]
fn temp_index_out_of_range_is_rejected() {
    let cmd = CommandType::Push(MemorySegment::Temp, 8);
    match write_push_pop(&cmd, "Main") {
        Err(HVMError::SegmentRange { segment: MemorySegment::Temp, index: 8 }) => {}
        other => panic!("expected a segment range error, got {:?}", other),
    }
}

#[test]
fn pointer_index_beyond_one_is_rejected() {
    let cmd = CommandType::Pop(MemorySegment::Pointer, 2);
    assert!(matches!(
        write_push_pop(&cmd, "Main"),
        Err(HVMError::SegmentRange { segment: MemorySegment::Pointer, index: 2 })
    ));
}

#[test]
fn pop_of_the_constant_segment_is_rejected() {
    let cmd = CommandType::Pop(MemorySegment::Constant, 0);
    assert!(matches!(
        write_push_pop(&cmd, "Main"),
        Err(HVMError::SegmentRange { segment: MemorySegment::Constant, index: 0 })
    ));
}

#[test]
fn scoped_labels_keep_functions_apart() {
    assert_eq!(write_label("Foo.a", "LOOP"), "(Foo.a$LOOP)\n");
    assert_eq!(write_label("Foo.b", "LOOP"), "(Foo.b$LOOP)\n");
    assert_eq!(write_goto("Foo.a", "LOOP"), "@Foo.a$LOOP\n0;JMP\n\n");
    assert_eq!(
        write_if("Foo.a", "LOOP"),
        "// if-goto\n@SP\nM=M-1\nA=M\nD=M\n@Foo.a$LOOP\nD;JNE\n\n"
    );
}

#[test]
fn function_fragment_zero_initializes_each_local() {
    assert_eq!(write_function("Foo.none", 0), "(Foo.none)\n\n");
    assert_eq!(
        write_function("Foo.two", 2),
        "(Foo.two)\n@SP\nA=M\nM=0\n@SP\nM=M+1\n@SP\nA=M\nM=0\n@SP\nM=M+1\n\n"
    );
}

#[test]
fn call_fragment_builds_the_frame_in_order() {
    let mut gen = LabelGenerator::new();
    let text = write_call("Foo.bar", 2, &mut gen);
    let mut expected = String::new();
    expected.push_str("// call Foo.bar\n");
    expected.push_str("@Foo.bar$ret0\nD=A\n@SP\nA=M\nM=D\n@SP\nM=M+1\n");
    expected.push_str("@LCL\nD=M\n@SP\nA=M\nM=D\n@SP\nM=M+1\n");
    expected.push_str("@ARG\nD=M\n@SP\nA=M\nM=D\n@SP\nM=M+1\n");
    expected.push_str("@THIS\nD=M\n@SP\nA=M\nM=D\n@SP\nM=M+1\n");
    expected.push_str("@THAT\nD=M\n@SP\nA=M\nM=D\n@SP\nM=M+1\n");
    expected.push_str("@SP\nD=M\n@7\nD=D-A\n@ARG\nM=D\n");
    expected.push_str("@SP\nD=M\n@LCL\nM=D\n");
    expected.push_str("@Foo.bar\n0;JMP\n");
    expected.push_str("(Foo.bar$ret0)\n\n\n");
    assert_eq!(text, expected);
}

#[test]
fn two_call_sites_get_distinct_return_labels() {
    let mut gen = LabelGenerator::new();
    let first = write_call("Foo.bar", 1, &mut gen);
    let second = write_call("Foo.bar", 1, &mut gen);
    assert!(first.contains("(Foo.bar$ret0)"));
    assert!(second.contains("(Foo.bar$ret1)"));
    assert_ne!(first, second);
}

#[test]
fn return_fragment_is_one_atomic_sequence() {
    let text = write_return();
    assert!(text.starts_with("// return\n@LCL\nD=M\n@R13\nM=D\n@5\nA=D-A\nD=M\n@R14\nM=D\n"));
    assert!(text.ends_with("@R14\nA=M\n0;JMP\n"));
}

#[test]
fn bootstrap_sets_the_stack_pointer_and_calls_the_entry() {
    let mut gen = LabelGenerator::new();
    let text = write_bootstrap(&mut gen);
    assert!(text.starts_with("// Bootstrap Code\n@256\nD=A\n@SP\nM=D\n// call Sys.init\n"));
    assert!(text.contains("@Sys.init\n0;JMP\n"));
}

#[test]
fn parser_strips_comments_and_blank_lines() {
    let m = module("Main", &["", "  // nothing", "push constant 3 // a value", "   add  "]);
    let cmds = parse_file(&vec![m]).unwrap();
    assert_eq!(cmds.len(), 3);
    assert!(matches!(cmds[0], CommandType::NewFile(_)));
    assert!(matches!(cmds[1], CommandType::Push(MemorySegment::Constant, 3)));
    assert!(matches!(cmds[2], CommandType::Arithmetic(ArithmeticOp::Add)));
}

#[test]
fn parser_scopes_labels_to_the_current_function() {
    let m = module(
        "Main",
        &["function Main.run 0", "label TOP", "goto TOP", "function Main.other 1", "if-goto TOP"],
    );
    let cmds = parse_file(&vec![m]).unwrap();
    match &cmds[2] {
        CommandType::Label(scope, label) => {
            assert_eq!(scope, "Main.run");
            assert_eq!(label, "TOP");
        }
        other => panic!("unexpected command {:?}", other),
    }
    match &cmds[5] {
        CommandType::If(scope, label) => {
            assert_eq!(scope, "Main.other");
            assert_eq!(label, "TOP");
        }
        other => panic!("unexpected command {:?}", other),
    }
}

#[test]
fn unknown_keyword_is_a_hard_error() {
    let m = module("Main", &["push constant 1", "frobnicate 3"]);
    match parse_file(&vec![m]) {
        Err(HVMError::UnknownCommand { module, line }) => {
            assert_eq!(module, "Main");
            assert_eq!(line, "frobnicate 3");
        }
        other => panic!("expected an unknown command error, got {:?}", other),
    }
}

#[test]
fn wrong_argument_count_is_a_parse_error() {
    let m = module("Main", &["push constant"]);
    assert!(matches!(parse_file(&vec![m]), Err(HVMError::ParseError { .. })));
}

#[test]
fn non_numeric_index_is_a_parse_error() {
    let m = module("Main", &["push constant seven"]);
    assert!(matches!(parse_file(&vec![m]), Err(HVMError::ParseError { .. })));
}

#[test]
fn unknown_segment_is_a_parse_error() {
    let m = module("Main", &["pop heap 0"]);
    assert!(matches!(parse_file(&vec![m]), Err(HVMError::ParseError { .. })));
}

#[test]
fn arithmetic_with_an_operand_is_a_parse_error() {
    let m = module("Main", &["add 1"]);
    assert!(matches!(parse_file(&vec![m]), Err(HVMError::ParseError { .. })));
}

#[test]
fn translate_emits_bootstrap_then_module_code() {
    let m = module("Main", &["push constant 7", "push constant 8", "add"]);
    let text = translate(&vec![m]).unwrap();
    assert!(text.starts_with("// Bootstrap Code\n@256\nD=A\n@SP\nM=D\n"));
    assert!(text.contains("// push constant 7\n"));
    assert!(text.contains("// push constant 8\n"));
    assert!(text.ends_with("// add\n@SP\nA=M-1\nD=M\n@SP\nM=M-1\n@SP\nA=M-1\nD=D+M\nM=D\n\n"));
}

#[test]
fn translate_twice_gives_identical_text() {
    let mods = || {
        vec![
            module("Foo", &["function Foo.f 1", "push constant 1", "push constant 2", "eq", "return"]),
            module("Sys", &["function Sys.init 0", "call Foo.f 0", "label END", "goto END"]),
        ]
    };
    let first = translate(&mods()).unwrap();
    let second = translate(&mods()).unwrap();
    assert_eq!(first, second);
}

#[test]
fn translate_threads_the_module_name_for_statics() {
    let mods = vec![
        module("A", &["push static 0"]),
        module("B", &["push static 0"]),
    ];
    let text = translate(&mods).unwrap();
    assert!(text.contains("@A.0"));
    assert!(text.contains("@B.0"));
}

#[test]
fn translate_surfaces_the_first_error() {
    let mods = vec![
        module("A", &["push constant 1"]),
        module("B", &["push temp 9"]),
    ];
    assert!(matches!(
        translate(&mods),
        Err(HVMError::SegmentRange { segment: MemorySegment::Temp, index: 9 })
    ));
    let e = translate(&vec![module("C", &["bogus"])]).unwrap_err();
    assert_eq!(e.message(), "Error: unknown command in C: bogus");
}

#[test]
fn translating_nothing_emits_only_the_bootstrap() {
    let text = translate(&vec![]).unwrap();
    let mut gen = LabelGenerator::new();
    assert_eq!(text, write_bootstrap(&mut gen));
}

#[test]
fn an_empty_module_emits_no_code_of_its_own() {
    let empty = module("Empty", &["", "// nothing here"]);
    let text = translate(&vec![empty]).unwrap();
    let mut gen = LabelGenerator::new();
    assert_eq!(text, write_bootstrap(&mut gen));
}

#[test]
fn module_order_puts_the_entry_module_last() {
    assert_eq!(module_order("Sys.vm", "Array.vm"), Ordering::Greater);
    assert_eq!(module_order("Array.vm", "Sys.vm"), Ordering::Less);
    assert_eq!(module_order("Array.vm", "Ball.vm"), Ordering::Less);
    assert_eq!(module_order("Ball.vm", "Array.vm"), Ordering::Greater);
    assert_eq!(module_order("Array.vm", "Array.vm"), Ordering::Equal);
    assert_eq!(module_order("Ab.vm", "Abc.vm"), Ordering::Less);
}

#[test]
fn comparison_labels_never_collide_within_a_module() {
    let m = module(
        "Main",
        &[
            "push constant 1", "push constant 2", "eq",
            "push constant 3", "push constant 4", "lt",
            "push constant 5", "push constant 6", "gt",
        ],
    );
    let text = translate(&vec![m]).unwrap();
    let mut defined: Vec<&str> = text
        .lines()
        .filter(|l| l.starts_with("(COUNT_") && l.ends_with(")"))
        .collect();
    assert_eq!(defined.len(), 6);
    defined.sort();
    defined.dedup();
    assert_eq!(defined.len(), 6, "a comparison label was reused across call sites");
}
