//! End-to-end checks: the emitted assembly is executed on a small
//! interpreter of the target machine, and the resulting memory is checked
//! against the stack discipline and the calling convention.

use std::collections::HashMap;

use vm_translator::code::write_push_pop;
use vm_translator::command::{CommandType, MemorySegment};
use vm_translator::parser::SourceModule;
use vm_translator::translator::translate;

enum Instr {
    At(u16),
    Compute { dest: String, comp: String, jump: String },
}

fn assemble(program: &str) -> Vec<Instr> {
    let mut rom_lines: Vec<&str> = Vec::new();
    let mut labels: HashMap<String, u16> = HashMap::new();
    for raw in program.lines() {
        let line = raw.split("//").next().unwrap().trim();
        if line.is_empty() {
            continue;
        }
        if line.starts_with('(') && line.ends_with(')') {
            labels.insert(line[1..line.len() - 1].to_string(), rom_lines.len() as u16);
        } else {
            rom_lines.push(line);
        }
    }
    let mut symbols: HashMap<String, u16> = labels;
    for (i, name) in ["SP", "LCL", "ARG", "THIS", "THAT"].iter().enumerate() {
        symbols.entry(name.to_string()).or_insert(i as u16);
    }
    for r in 0..16 {
        symbols.entry(format!("R{}", r)).or_insert(r);
    }
    symbols.entry("SCREEN".to_string()).or_insert(16384);
    symbols.entry("KBD".to_string()).or_insert(24576);
    let mut next_var = 16u16;
    let mut rom: Vec<Instr> = Vec::new();
    for line in rom_lines {
        if let Some(sym) = line.strip_prefix('@') {
            let value = if let Ok(n) = sym.parse::<u16>() {
                n
            } else if let Some(&a) = symbols.get(sym) {
                a
            } else {
                let a = next_var;
                symbols.insert(sym.to_string(), a);
                next_var += 1;
                a
            };
            rom.push(Instr::At(value));
        } else {
            let (dest, rest) = match line.split_once('=') {
                Some((d, r)) => (d.to_string(), r),
                None => (String::new(), line),
            };
            let (comp, jump) = match rest.split_once(';') {
                Some((c, j)) => (c.to_string(), j.to_string()),
                None => (rest.to_string(), String::new()),
            };
            rom.push(Instr::Compute { dest, comp, jump });
        }
    }
    rom
}

fn eval_comp(comp: &str, a: i16, d: i16, m: i16) -> i16 {
    match comp {
        "0" => 0,
        "1" => 1,
        "-1" => -1,
        "D" => d,
        "A" => a,
        "M" => m,
        "!D" => !d,
        "!A" => !a,
        "!M" => !m,
        "-D" => d.wrapping_neg(),
        "-A" => a.wrapping_neg(),
        "-M" => m.wrapping_neg(),
        "D+1" => d.wrapping_add(1),
        "A+1" => a.wrapping_add(1),
        "M+1" => m.wrapping_add(1),
        "D-1" => d.wrapping_sub(1),
        "A-1" => a.wrapping_sub(1),
        "M-1" => m.wrapping_sub(1),
        "D+A" => d.wrapping_add(a),
        "D+M" => d.wrapping_add(m),
        "D-A" => d.wrapping_sub(a),
        "D-M" => d.wrapping_sub(m),
        "A-D" => a.wrapping_sub(d),
        "M-D" => m.wrapping_sub(d),
        "D&A" => d & a,
        "D&M" => d & m,
        "D|A" => d | a,
        "D|M" => d | m,
        other => panic!("unknown computation {}", other),
    }
}

fn jumps(jump: &str, value: i16) -> bool {
    match jump {
        "" => false,
        "JGT" => value > 0,
        "JEQ" => value == 0,
        "JGE" => value >= 0,
        "JLT" => value < 0,
        "JNE" => value != 0,
        "JLE" => value <= 0,
        "JMP" => true,
        other => panic!("unknown jump {}", other),
    }
}

fn run(program: &str, ram: &mut Vec<i16>, steps: usize) {
    let rom = assemble(program);
    let mut a: i16 = 0;
    let mut d: i16 = 0;
    let mut pc: usize = 0;
    for _ in 0..steps {
        if pc >= rom.len() {
            break;
        }
        match &rom[pc] {
            Instr::At(v) => {
                a = *v as i16;
                pc += 1;
            }
            Instr::Compute { dest, comp, jump } => {
                let addr = (a as u16 as usize) % ram.len();
                let value = eval_comp(comp, a, d, ram[addr]);
                if dest.contains('M') {
                    ram[addr] = value;
                }
                if dest.contains('A') {
                    a = value;
                }
                if dest.contains('D') {
                    d = value;
                }
                if jumps(jump, value) {
                    pc = (a as u16 as usize) % rom.len().max(1);
                } else {
                    pc += 1;
                }
            }
        }
    }
}

fn fresh_ram() -> Vec<i16> {
    let mut ram = vec![0i16; 32768];
    ram[0] = 256;
    ram
}

fn module(name: &str, lines: &[&str]) -> SourceModule {
    SourceModule {
        name: name.to_string(),
        lines: lines.iter().map(|l| l.to_string()).collect(),
    }
}

#[test]
fn push_then_pop_is_a_stack_neutral_no_op() {
    let cases: Vec<(MemorySegment, u16, usize)> = vec![
        (MemorySegment::Local, 2, 302),
        (MemorySegment::Temp, 4, 9),
        (MemorySegment::Pointer, 1, 4),
        (MemorySegment::Argument, 0, 400),
    ];
    for (seg, index, cell) in cases {
        let mut program = write_push_pop(&CommandType::Push(seg, index), "Main").unwrap();
        program.push_str(&write_push_pop(&CommandType::Pop(seg, index), "Main").unwrap());
        let mut ram = fresh_ram();
        ram[1] = 300;
        ram[2] = 400;
        ram[cell] = 1234;
        let before = ram.clone();
        run(&program, &mut ram, 10_000);
        assert_eq!(ram[0], 256, "stack pointer moved for {:?} {}", seg, index);
        for i in 0..ram.len() {
            if i == 256 {
                continue; // the vacated stack cell is scratch space
            }
            assert_eq!(ram[i], before[i], "cell {} changed for {:?} {}", i, seg, index);
        }
    }
}

#[test]
fn seven_plus_eight_leaves_fifteen_on_the_stack() {
    let m = module("Main", &["push constant 7", "push constant 8", "add"]);
    let text = translate(&vec![m]).unwrap();
    // Run only the module's code: cut the bootstrap, which would call an
    // entry function this program does not define.
    let body = &text[text.find("// push constant 7").unwrap()..];
    let mut ram = fresh_ram();
    run(body, &mut ram, 10_000);
    assert_eq!(ram[0], 257, "exactly one cell should remain on the stack");
    assert_eq!(ram[256], 15);
}

#[test]
fn call_and_return_collapse_the_arguments_to_one_result() {
    let sys = module(
        "Sys",
        &[
            "function Sys.init 0",
            "push constant 3",
            "push constant 4",
            "call Foo.plus 2",
            "label END",
            "goto END",
        ],
    );
    let foo = module(
        "Foo",
        &["function Foo.plus 0", "push argument 0", "push argument 1", "add", "return"],
    );
    let text = translate(&vec![foo, sys]).unwrap();
    let mut ram = vec![0i16; 32768];
    run(&text, &mut ram, 100_000);
    // Inside Sys.init the stack begins at 261; two arguments were pushed
    // and consumed, one result came back: the pointer lands one above.
    assert_eq!(ram[0], 262);
    assert_eq!(ram[261], 7);
}

#[test]
fn locals_are_zero_initialized_and_the_frame_is_restored() {
    let sys = module(
        "Sys",
        &[
            "function Sys.init 0",
            "push constant 9",
            "call Foo.bar 1",
            "label END",
            "goto END",
        ],
    );
    let foo = module("Foo", &["function Foo.bar 2", "return"]);
    let text = translate(&vec![foo, sys]).unwrap();
    let mut ram = vec![0i16; 32768];
    ram[267] = 21; // stale data where the two local slots will sit
    ram[268] = 22;
    run(&text, &mut ram, 100_000);
    // The result is the second local slot, which must have been zeroed.
    assert_eq!(ram[261], 0);
    assert_eq!(ram[0], 262);
    // The caller's frame pointers are fully restored.
    assert_eq!(ram[1], 261, "LCL of Sys.init");
    assert_eq!(ram[2], 256, "ARG of Sys.init");
}

#[test]
fn recursive_calls_return_through_their_own_labels() {
    let sys = module(
        "Sys",
        &[
            "function Sys.init 0",
            "push constant 3",
            "call Foo.sum 1",
            "label END",
            "goto END",
        ],
    );
    let foo = module(
        "Foo",
        &[
            "function Foo.sum 0",
            "push argument 0",
            "if-goto recurse",
            "push constant 0",
            "return",
            "label recurse",
            "push argument 0",
            "push argument 0",
            "push constant 1",
            "sub",
            "call Foo.sum 1",
            "add",
            "return",
        ],
    );
    let text = translate(&vec![foo, sys]).unwrap();
    // Label uniqueness is a static property of the text: every return
    // label is defined exactly once.
    let mut ret_labels: Vec<&str> = text
        .lines()
        .filter(|l| l.starts_with('(') && l.contains("$ret"))
        .collect();
    let count = ret_labels.len();
    ret_labels.sort();
    ret_labels.dedup();
    assert_eq!(ret_labels.len(), count, "a return label was defined twice");
    // And the recursion computes 3 + 2 + 1 + 0.
    let mut ram = vec![0i16; 32768];
    run(&text, &mut ram, 1_000_000);
    assert_eq!(ram[261], 6);
    assert_eq!(ram[0], 262);
}
