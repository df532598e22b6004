use vm_translator::symbols::SymbolTable;

#[test]
fn should_create_and_symbol_table() {
    let symbol_table = SymbolTable::new();
    println!("{:#?}", symbol_table)
}

#[test]
fn should_return_true_if_the_symboltable_contains_the_given_symbol() {
    let symbol_table = SymbolTable::new();
    assert_eq!(symbol_table.contains("R0"), true);
    assert_eq!(symbol_table.contains("LCL"), true);
    assert_eq!(symbol_table.contains("KBD"), true);
}

#[test]
fn should_return_the_address_1_of_the_given_symbol() {
    let symbol_table = SymbolTable::new();
    assert_eq!(symbol_table.get_address("KBD"), Some(24576));
    assert_eq!(symbol_table.get_address("R0"), Some(0));
    assert_eq!(symbol_table.get_address("LCL"), Some(1));
}

#[test]
fn add_entry_keeps_the_first_binding() {
    let mut symbol_table = SymbolTable::new();
    symbol_table.add_entry("LOOP", 6);
    symbol_table.add_entry("LOOP", 99);
    assert_eq!(symbol_table.get_address("LOOP"), Some(6));
    assert_eq!(symbol_table.contains("STOP"), false);
    assert_eq!(symbol_table.get_address("STOP"), None);
}
