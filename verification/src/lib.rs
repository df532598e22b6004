//! Tools for the Hack platform: a translator from the stack-oriented VM
//! instruction set to Hack assembly with a verified procedure-call ABI,
//! together with the symbol tables and encoding tables of the assembler,
//! a tokenizer for the Jack language, and small machine models used to
//! simulate stack behaviour.

pub mod assembler;
pub mod code;
pub mod command;
pub mod errors;
pub mod labels;
pub mod memory_segment;
pub mod parser;
pub mod ram;
pub mod semantics;
pub mod stack;
pub mod symbol_table;
pub mod symbols;
pub mod text;
pub mod tokenizer;
pub mod translator;
pub mod utils;
pub mod virtual_memory;
pub mod vm_parser;
