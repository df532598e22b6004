//! The assembler's instruction model, its fixed encoding tables, and the
//! first pass that records label addresses.

use vstd::prelude::*;
use crate::symbol_table::{initial_symbols, SymbolTable};
use crate::text::{bin_pad, dec_val, is_digits, parse_u16, to_binary};
use crate::utils::{contains_alphabetic, is_alphabetic_char};

verus! {

/// One assembly instruction: an address load, a compute instruction, or a
/// label definition.
#[derive(Debug)]
pub enum Instruction {
    A(String),
    C { dest: Option<String>, comp: String, jump: Option<String> },
    Label(String),
}

/// The mathematical view of an instruction.
pub enum InstrView {
    A(Seq<char>),
    C { dest: Option<Seq<char>>, comp: Seq<char>, jump: Option<Seq<char>> },
    Label(Seq<char>),
}

impl View for Instruction {
    type V = InstrView;

    open spec fn view(&self) -> InstrView {
        match self {
            Instruction::A(v) => InstrView::A(v@),
            Instruction::C { dest, comp, jump } => InstrView::C {
                dest: match dest {
                    Some(d) => Some(d@),
                    None => None,
                },
                comp: comp@,
                jump: match jump {
                    Some(j) => Some(j@),
                    None => None,
                },
            },
            Instruction::Label(l) => InstrView::Label(l@),
        }
    }
}

impl DeepView for Instruction {
    type V = InstrView;

    open spec fn deep_view(&self) -> InstrView {
        self.view()
    }
}

/// The three instruction shapes an assembly line can have.
#[derive(Debug, PartialEq, Eq, Structural)]
pub enum InstructionType {
    AInstruction,
    CInstruction,
    LInstruction,
}

/// The encoding of a compute mnemonic, if it is one of the table.
pub open spec fn comp_bin(comp: Seq<char>) -> Option<Seq<char>> {
    if comp == "0"@ {
        Some("0101010"@)
    } else if comp == "1"@ {
        Some("0111111"@)
    } else if comp == "-1"@ {
        Some("0111010"@)
    } else if comp == "D"@ {
        Some("0001100"@)
    } else if comp == "A"@ {
        Some("0110000"@)
    } else if comp == "M"@ {
        Some("1110000"@)
    } else if comp == "!D"@ {
        Some("0001101"@)
    } else if comp == "!A"@ {
        Some("0110001"@)
    } else if comp == "!M"@ {
        Some("1110001"@)
    } else if comp == "-D"@ {
        Some("0001111"@)
    } else if comp == "-A"@ {
        Some("0110011"@)
    } else if comp == "-M"@ {
        Some("1110011"@)
    } else if comp == "D+1"@ {
        Some("0011111"@)
    } else if comp == "A+1"@ {
        Some("0110111"@)
    } else if comp == "M+1"@ {
        Some("1110111"@)
    } else if comp == "D-1"@ {
        Some("0001110"@)
    } else if comp == "A-1"@ {
        Some("0110010"@)
    } else if comp == "M-1"@ {
        Some("1110010"@)
    } else if comp == "D+A"@ {
        Some("0000010"@)
    } else if comp == "D+M"@ {
        Some("1000010"@)
    } else if comp == "D-A"@ {
        Some("0010011"@)
    } else if comp == "D-M"@ {
        Some("1010011"@)
    } else if comp == "A-D"@ {
        Some("0000111"@)
    } else if comp == "M-D"@ {
        Some("1000111"@)
    } else if comp == "D&A"@ {
        Some("0000000"@)
    } else if comp == "D&M"@ {
        Some("1000000"@)
    } else if comp == "D|A"@ {
        Some("0010101"@)
    } else if comp == "D|M"@ {
        Some("1010101"@)
    } else {
        None
    }
}

/// Encodes a compute mnemonic as its seven instruction bits.
pub fn comp_to_bin(comp: &str) -> (r: &'static str)
    requires
        comp_bin(comp@) is Some,
    ensures
        Some(r@) == comp_bin(comp@),
{
    if crate::text::str_eq(comp, "0") {
        "0101010"
    } else if crate::text::str_eq(comp, "1") {
        "0111111"
    } else if crate::text::str_eq(comp, "-1") {
        "0111010"
    } else if crate::text::str_eq(comp, "D") {
        "0001100"
    } else if crate::text::str_eq(comp, "A") {
        "0110000"
    } else if crate::text::str_eq(comp, "M") {
        "1110000"
    } else if crate::text::str_eq(comp, "!D") {
        "0001101"
    } else if crate::text::str_eq(comp, "!A") {
        "0110001"
    } else if crate::text::str_eq(comp, "!M") {
        "1110001"
    } else if crate::text::str_eq(comp, "-D") {
        "0001111"
    } else if crate::text::str_eq(comp, "-A") {
        "0110011"
    } else if crate::text::str_eq(comp, "-M") {
        "1110011"
    } else if crate::text::str_eq(comp, "D+1") {
        "0011111"
    } else if crate::text::str_eq(comp, "A+1") {
        "0110111"
    } else if crate::text::str_eq(comp, "M+1") {
        "1110111"
    } else if crate::text::str_eq(comp, "D-1") {
        "0001110"
    } else if crate::text::str_eq(comp, "A-1") {
        "0110010"
    } else if crate::text::str_eq(comp, "M-1") {
        "1110010"
    } else if crate::text::str_eq(comp, "D+A") {
        "0000010"
    } else if crate::text::str_eq(comp, "D+M") {
        "1000010"
    } else if crate::text::str_eq(comp, "D-A") {
        "0010011"
    } else if crate::text::str_eq(comp, "D-M") {
        "1010011"
    } else if crate::text::str_eq(comp, "A-D") {
        "0000111"
    } else if crate::text::str_eq(comp, "M-D") {
        "1000111"
    } else if crate::text::str_eq(comp, "D&A") {
        "0000000"
    } else if crate::text::str_eq(comp, "D&M") {
        "1000000"
    } else if crate::text::str_eq(comp, "D|A") {
        "0010101"
    } else {
        "1010101"
    }
}

/// The encoding of a destination field, if it is one of the table; no
/// destination encodes as three zero bits.
pub open spec fn dest_bin(dest: Option<Seq<char>>) -> Option<Seq<char>> {
    match dest {
        None => Some("000"@),
        Some(d) => if d == "M"@ {
            Some("001"@)
        } else if d == "D"@ {
            Some("010"@)
        } else if d == "MD"@ {
            Some("011"@)
        } else if d == "A"@ {
            Some("100"@)
        } else if d == "AM"@ {
            Some("101"@)
        } else if d == "AD"@ {
            Some("110"@)
        } else if d == "AMD"@ {
            Some("111"@)
        } else {
            None
        },
    }
}

/// Encodes a destination field as its three instruction bits.
pub fn dest_to_bin(dest: &Option<String>) -> (r: &'static str)
    requires
        dest_bin(match dest {
            Some(d) => Some(d@),
            None => None,
        }) is Some,
    ensures
        Some(r@) == dest_bin(
            match dest {
                Some(d) => Some(d@),
                None => None,
            },
        ),
{
    match dest {
        None => "000",
        Some(d) => {
            if crate::text::str_eq(d.as_str(), "M") {
                "001"
            } else if crate::text::str_eq(d.as_str(), "D") {
                "010"
            } else if crate::text::str_eq(d.as_str(), "MD") {
                "011"
            } else if crate::text::str_eq(d.as_str(), "A") {
                "100"
            } else if crate::text::str_eq(d.as_str(), "AM") {
                "101"
            } else if crate::text::str_eq(d.as_str(), "AD") {
                "110"
            } else {
                "111"
            }
        },
    }
}

/// The encoding of a jump field, if it is one of the table; no jump
/// encodes as three zero bits.
pub open spec fn jump_bin(jump: Option<Seq<char>>) -> Option<Seq<char>> {
    match jump {
        None => Some("000"@),
        Some(j) => if j == "JGT"@ {
            Some("001"@)
        } else if j == "JEQ"@ {
            Some("010"@)
        } else if j == "JGE"@ {
            Some("011"@)
        } else if j == "JLT"@ {
            Some("100"@)
        } else if j == "JNE"@ {
            Some("101"@)
        } else if j == "JLE"@ {
            Some("110"@)
        } else if j == "JMP"@ {
            Some("111"@)
        } else {
            None
        },
    }
}

/// Encodes a jump field as its three instruction bits.
pub fn jump_to_bin(jump: &Option<String>) -> (r: &'static str)
    requires
        jump_bin(match jump {
            Some(j) => Some(j@),
            None => None,
        }) is Some,
    ensures
        Some(r@) == jump_bin(
            match jump {
                Some(j) => Some(j@),
                None => None,
            },
        ),
{
    match jump {
        None => "000",
        Some(j) => {
            if crate::text::str_eq(j.as_str(), "JGT") {
                "001"
            } else if crate::text::str_eq(j.as_str(), "JEQ") {
                "010"
            } else if crate::text::str_eq(j.as_str(), "JGE") {
                "011"
            } else if crate::text::str_eq(j.as_str(), "JLT") {
                "100"
            } else if crate::text::str_eq(j.as_str(), "JNE") {
                "101"
            } else if crate::text::str_eq(j.as_str(), "JLE") {
                "110"
            } else {
                "111"
            }
        },
    }
}

/// The symbol table after recording every label of the instructions from
/// index `i` on, with `count` instructions already emitted before them.
pub open spec fn first_pass_spec(
    instrs: Seq<InstrView>,
    i: nat,
    count: nat,
    m: Map<Seq<char>, u16>,
) -> Map<Seq<char>, u16>
    decreases instrs.len() - i,
{
    if i >= instrs.len() {
        m
    } else {
        match instrs[i as int] {
            InstrView::Label(l) => first_pass_spec(instrs, i + 1, count, m.insert(l, count as u16)),
            _ => first_pass_spec(instrs, i + 1, count + 1, m),
        }
    }
}

/// Records every label with the address of the instruction that follows
/// it: labels take no address of their own, every other instruction
/// counts one.
pub fn first_pass(instructions: &Vec<Instruction>, symbol_table: &mut SymbolTable)
    requires
        instructions@.len() <= u16::MAX,
    ensures
        final(symbol_table)@ == first_pass_spec(instructions.deep_view(), 0, 0, old(symbol_table)@),
        final(symbol_table).next_address() == old(symbol_table).next_address(),
{
    let ghost iv = instructions.deep_view();
    let mut count: u16 = 0;
    let mut i: usize = 0;
    while i < instructions.len()
        invariant
            i <= instructions@.len(),
            instructions@.len() <= u16::MAX,
            iv == instructions.deep_view(),
            iv.len() == instructions@.len(),
            forall|k: int| 0 <= k < iv.len() ==> iv[k] == #[trigger] instructions@[k]@,
            count <= i,
            first_pass_spec(iv, 0, 0, old(symbol_table)@) == first_pass_spec(
                iv,
                i as nat,
                count as nat,
                symbol_table@,
            ),
            symbol_table.next_address() == old(symbol_table).next_address(),
        decreases instructions@.len() - i,
    {
        let instruction = &instructions[i];
        proof {
            assert(instruction@ == iv[i as int]);
        }
        match instruction {
            Instruction::Label(label) => {
                symbol_table.add_label(label.as_str(), count);
            },
            _ => {
                count += 1;
            },
        }
        i += 1;
    }
}

/// Whether one instruction can be encoded: a numeric address must be a
/// 16-bit decimal number, the three fields of a compute instruction must
/// be in their tables, and a label always can.
pub open spec fn instr_ok(instr: InstrView) -> bool {
    match instr {
        InstrView::A(v) => (exists|j: int| 0 <= j < v.len() && is_alphabetic_char(v[j])) || (
        is_digits(v) && dec_val(v) <= u16::MAX),
        InstrView::C { dest, comp, jump } => comp_bin(comp) is Some && dest_bin(dest) is Some
            && jump_bin(jump) is Some,
        InstrView::Label(_) => true,
    }
}

/// The binary lines of the instructions from index `i` on, under symbol
/// map `m`, allocating fresh variable symbols from address `next` up.
pub open spec fn assemble_from(
    instrs: Seq<InstrView>,
    i: nat,
    m: Map<Seq<char>, u16>,
    next: nat,
) -> Seq<Seq<char>>
    decreases instrs.len() - i,
{
    if i >= instrs.len() {
        Seq::empty()
    } else {
        match instrs[i as int] {
            InstrView::Label(_) => assemble_from(instrs, i + 1, m, next),
            InstrView::A(v) => if exists|j: int| 0 <= j < v.len() && is_alphabetic_char(v[j]) {
                if m.contains_key(v) {
                    seq![seq!['0'] + bin_pad(m[v] as nat, 15)] + assemble_from(instrs, i + 1, m, next)
                } else {
                    seq![seq!['0'] + bin_pad(next, 15)] + assemble_from(
                        instrs,
                        i + 1,
                        m.insert(v, next as u16),
                        next + 1,
                    )
                }
            } else {
                seq![seq!['0'] + bin_pad(dec_val(v), 15)] + assemble_from(instrs, i + 1, m, next)
            },
            InstrView::C { dest, comp, jump } => seq![
                "111"@ + comp_bin(comp)->0 + dest_bin(dest)->0 + jump_bin(jump)->0
            ] + assemble_from(instrs, i + 1, m, next),
        }
    }
}

/// The binary lines of a whole program: labels recorded by the first
/// pass over the predefined symbols, then every instruction encoded in
/// order, with variables allocated from address 16.
pub open spec fn spec_assemble(instrs: Seq<InstrView>) -> Seq<Seq<char>> {
    assemble_from(instrs, 0, first_pass_spec(instrs, 0, 0, initial_symbols()), 16)
}

/// Encodes the instructions as 16-character binary lines: a first pass
/// records the labels, the second encodes each address or compute
/// instruction, looking symbolic addresses up and allocating an address
/// for each new variable symbol.
pub fn assemble(instructions: &Vec<Instruction>) -> (r: Vec<String>)
    requires
        instructions@.len() + 16 <= u16::MAX,
        forall|k: int| 0 <= k < instructions@.len() ==> instr_ok(#[trigger] instructions@[k]@),
    ensures
        r.deep_view() == spec_assemble(instructions.deep_view()),
{
    let ghost iv = instructions.deep_view();
    let mut symbol_table = SymbolTable::new();
    first_pass(instructions, &mut symbol_table);
    let ghost m0 = symbol_table@;
    let mut out: Vec<String> = Vec::new();
    let mut i: usize = 0;
    proof {
        assert(out.deep_view() =~= Seq::<Seq<char>>::empty());
    }
    while i < instructions.len()
        invariant
            i <= instructions@.len(),
            instructions@.len() + 16 <= u16::MAX,
            iv == instructions.deep_view(),
            iv.len() == instructions@.len(),
            forall|k: int| 0 <= k < iv.len() ==> iv[k] == #[trigger] instructions@[k]@,
            forall|k: int| 0 <= k < instructions@.len() ==> instr_ok(#[trigger] instructions@[k]@),
            m0 == first_pass_spec(iv, 0, 0, initial_symbols()),
            symbol_table.next_address() <= 16 + i,
            assemble_from(iv, 0, m0, 16) == out.deep_view() + assemble_from(
                iv,
                i as nat,
                symbol_table@,
                symbol_table.next_address() as nat,
            ),
        decreases instructions@.len() - i,
    {
        let instruction = &instructions[i];
        proof {
            assert(instruction@ == iv[i as int]);
            assert(instr_ok(instruction@));
        }
        let ghost pre = out.deep_view();
        match instruction {
            Instruction::Label(_) => {},
            Instruction::A(value) => {
                let mut line = String::new();
                line.push('0');
                if contains_alphabetic(value.as_str()) {
                    let addr = symbol_table.get_address(value.as_str());
                    line.append(to_binary(addr, 15).as_str());
                    proof {
                        assert(line@ =~= seq!['0'] + bin_pad(addr as nat, 15));
                    }
                } else {
                    let n = match parse_u16(value.as_str()) {
                        Some(n) => n,
                        None => {
                            proof {
                                assert(false);
                            }
                            0
                        },
                    };
                    line.append(to_binary(n, 15).as_str());
                    proof {
                        assert(line@ =~= seq!['0'] + bin_pad(dec_val(value@), 15));
                    }
                }
                let ghost lv = line@;
                out.push(line);
                proof {
                    assert(out.deep_view() =~= pre.push(lv));
                    let rest1 = assemble_from(
                        iv,
                        (i + 1) as nat,
                        symbol_table@,
                        symbol_table.next_address() as nat,
                    );
                    assert(pre + (seq![lv] + rest1) =~= pre.push(lv) + rest1);
                }
            },
            Instruction::C { dest, comp, jump } => {
                let mut line = String::from_str("111");
                line.append(comp_to_bin(comp.as_str()));
                line.append(dest_to_bin(dest));
                line.append(jump_to_bin(jump));
                proof {
                    assert(line@ =~= "111"@ + comp_bin(comp@)->0 + dest_bin(
                        match dest {
                            Some(d) => Some(d@),
                            None => None,
                        },
                    )->0 + jump_bin(
                        match jump {
                            Some(j) => Some(j@),
                            None => None,
                        },
                    )->0);
                }
                let ghost lv = line@;
                out.push(line);
                proof {
                    assert(out.deep_view() =~= pre.push(lv));
                    let rest1 = assemble_from(
                        iv,
                        (i + 1) as nat,
                        symbol_table@,
                        symbol_table.next_address() as nat,
                    );
                    assert(pre + (seq![lv] + rest1) =~= pre.push(lv) + rest1);
                }
            },
        }
        i += 1;
    }
    proof {
        assert(out.deep_view() + Seq::<Seq<char>>::empty() =~= out.deep_view());
    }
    out
}

} // verus!
