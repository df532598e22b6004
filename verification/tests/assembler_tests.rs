use vm_translator::assembler::{
    assemble, comp_to_bin, dest_to_bin, first_pass, jump_to_bin, Instruction,
};
use vm_translator::ram::Ram;
use vm_translator::symbol_table::SymbolTable;
use vm_translator::utils::{contains_alphabetic, is_not_uppercase};

#[test]
fn comp_table_encodes_exactly() {
    assert_eq!(comp_to_bin("0"), "0101010");
    assert_eq!(comp_to_bin("D+M"), "1000010");
    assert_eq!(comp_to_bin("M-D"), "1000111");
    assert_eq!(comp_to_bin("!A"), "0110001");
    assert_eq!(comp_to_bin("D|M"), "1010101");
}

#[test]
fn dest_table_encodes_exactly() {
    assert_eq!(dest_to_bin(&None), "000");
    assert_eq!(dest_to_bin(&Some("M".to_string())), "001");
    assert_eq!(dest_to_bin(&Some("AMD".to_string())), "111");
}

#[test]
fn jump_table_encodes_exactly() {
    assert_eq!(jump_to_bin(&None), "000");
    assert_eq!(jump_to_bin(&Some("JEQ".to_string())), "010");
    assert_eq!(jump_to_bin(&Some("JMP".to_string())), "111");
}

#[test]
fn symbol_table_predefines_registers_and_devices() {
    let mut table = SymbolTable::new();
    assert_eq!(table.get_address("R0"), 0);
    assert_eq!(table.get_address("R15"), 15);
    assert_eq!(table.get_address("SCREEN"), 16384);
    assert_eq!(table.get_address("KBD"), 24576);
    assert_eq!(table.get_last_ram_address(), 16);
}

#[test]
fn symbol_table_allocates_fresh_variables_from_sixteen() {
    let mut table = SymbolTable::new();
    assert_eq!(table.get_address("i"), 16);
    assert_eq!(table.get_address("sum"), 17);
    assert_eq!(table.get_address("i"), 16);
    assert_eq!(table.get_last_ram_address(), 18);
}

#[test]
fn add_label_overwrites_an_earlier_binding() {
    let mut table = SymbolTable::new();
    table.add_label("LOOP", 4);
    table.add_label("LOOP", 9);
    assert_eq!(table.get_address("LOOP"), 9);
}

#[test]
fn first_pass_records_labels_at_the_following_instruction() {
    let instructions = vec![
        Instruction::A("2".to_string()),
        Instruction::C { dest: Some("D".to_string()), comp: "A".to_string(), jump: None },
        Instruction::Label("LOOP".to_string()),
        Instruction::A("LOOP".to_string()),
        Instruction::Label("END".to_string()),
    ];
    let mut table = SymbolTable::new();
    first_pass(&instructions, &mut table);
    assert_eq!(table.get_address("LOOP"), 2);
    assert_eq!(table.get_address("END"), 3);
    assert_eq!(table.get_last_ram_address(), 16);
}

#[test]
fn assemble_encodes_a_small_program_exactly() {
    let instructions = vec![
        Instruction::A("2".to_string()),
        Instruction::C { dest: Some("D".to_string()), comp: "A".to_string(), jump: None },
        Instruction::A("3".to_string()),
        Instruction::C { dest: Some("D".to_string()), comp: "D+A".to_string(), jump: None },
        Instruction::A("0".to_string()),
        Instruction::C { dest: Some("M".to_string()), comp: "D".to_string(), jump: None },
    ];
    let lines = assemble(&instructions);
    assert_eq!(
        lines,
        vec![
            "0000000000000010",
            "1110110000010000",
            "0000000000000011",
            "1110000010010000",
            "0000000000000000",
            "1110001100001000",
        ]
    );
}

#[test]
fn assemble_resolves_labels_and_allocates_variables() {
    let instructions = vec![
        Instruction::A("i".to_string()),
        Instruction::C { dest: Some("M".to_string()), comp: "1".to_string(), jump: None },
        Instruction::Label("LOOP".to_string()),
        Instruction::A("LOOP".to_string()),
        Instruction::C { dest: None, comp: "0".to_string(), jump: Some("JMP".to_string()) },
    ];
    let lines = assemble(&instructions);
    assert_eq!(
        lines,
        vec![
            "0000000000010000", // the variable i, allocated at 16
            "1110111111001000",
            "0000000000000010", // the LOOP label, at instruction 2
            "1110101010000111",
        ]
    );
}

#[test]
fn contains_alphabetic_sees_one_letter() {
    assert!(contains_alphabetic("R0"));
    assert!(contains_alphabetic("7a7"));
    assert!(!contains_alphabetic("1234"));
    assert!(!contains_alphabetic(""));
}

#[test]
fn is_not_uppercase_sees_one_lowercase_letter() {
    assert!(is_not_uppercase("ABc"));
    assert!(!is_not_uppercase("ABC"));
    assert!(!is_not_uppercase("123"));
}

#[test]
fn ram_starts_zeroed_and_keeps_writes() {
    let mut ram = Ram::new();
    assert_eq!(ram.read(0), 0);
    assert_eq!(ram.read(32767), 0);
    ram.write(5, 77);
    assert_eq!(ram.read(5), 77);
    assert_eq!(ram.read(6), 0);
}
