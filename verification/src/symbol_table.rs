//! The assembler's symbol table: the predefined register symbols, labels
//! recorded by the first pass, and variables allocated from address 16 on.

use vstd::prelude::*;
use crate::text::{dec_str, str_eq, u16_to_string};

verus! {

/// The map that an entry list denotes; a later entry for the same symbol
/// wins.
pub open spec fn map_of(entries: Seq<(String, u16)>) -> Map<Seq<char>, u16>
    decreases entries.len(),
{
    if entries.len() == 0 {
        Map::empty()
    } else {
        map_of(entries.drop_last()).insert(entries.last().0@, entries.last().1)
    }
}

/// The register symbols R0 to R(n-1), each at its own address.
pub open spec fn r_registers(n: nat) -> Map<Seq<char>, u16>
    decreases n,
{
    if n == 0 {
        Map::empty()
    } else {
        r_registers((n - 1) as nat).insert("R"@ + dec_str((n - 1) as nat), (n - 1) as u16)
    }
}

/// The table a fresh symbol table holds: R0 to R15, the screen and the
/// keyboard, with variable allocation starting at address 16.
pub open spec fn initial_symbols() -> Map<Seq<char>, u16> {
    r_registers(16).insert("SCREEN"@, 16384).insert("KBD"@, 24576)
}

proof fn lemma_map_of_last_wins(entries: Seq<(String, u16)>, i: int)
    requires
        0 <= i < entries.len(),
        forall|j: int| i < j < entries.len() ==> entries[j].0@ != entries[i].0@,
    ensures
        map_of(entries).contains_key(entries[i].0@),
        map_of(entries)[entries[i].0@] == entries[i].1,
    decreases entries.len(),
{
    if i + 1 < entries.len() {
        assert(entries.drop_last()[i] == entries[i]);
        lemma_map_of_last_wins(entries.drop_last(), i);
    }
}

proof fn lemma_map_of_absent(entries: Seq<(String, u16)>, k: Seq<char>)
    requires
        forall|j: int| 0 <= j < entries.len() ==> entries[j].0@ != k,
    ensures
        !map_of(entries).contains_key(k),
    decreases entries.len(),
{
    if entries.len() > 0 {
        lemma_map_of_absent(entries.drop_last(), k);
    }
}

/// A symbol table mapping assembly symbols to addresses.
#[derive(Debug)]
pub struct SymbolTable {
    table: Vec<(String, u16)>,
    next_var_address: u16,
}

impl View for SymbolTable {
    type V = Map<Seq<char>, u16>;

    closed spec fn view(&self) -> Map<Seq<char>, u16> {
        map_of(self.table@)
    }
}

impl SymbolTable {
    /// The address the next fresh variable symbol will get.
    pub closed spec fn next_address(self) -> u16 {
        self.next_var_address
    }

    /// A fresh table holding the predefined symbols, with variable
    /// allocation starting at address 16.
    pub fn new() -> (r: SymbolTable)
        ensures
            r@ == initial_symbols(),
            r.next_address() == 16,
    {
        let mut table: Vec<(String, u16)> = Vec::new();
        let mut i: u16 = 0;
        proof {
            assert(map_of(table@) =~= r_registers(0));
        }
        while i < 16
            invariant
                i <= 16,
                map_of(table@) == r_registers(i as nat),
            decreases 16 - i,
        {
            let mut name = String::from_str("R");
            name.append(u16_to_string(i).as_str());
            let ghost pre = table@;
            table.push((name, i));
            proof {
                assert(table@.drop_last() =~= pre);
            }
            i += 1;
        }
        let ghost pre = table@;
        table.push((String::from_str("SCREEN"), 16384));
        proof {
            assert(table@.drop_last() =~= pre);
            assert(map_of(table@) == map_of(pre).insert("SCREEN"@, 16384u16));
        }
        let ghost pre2 = table@;
        table.push((String::from_str("KBD"), 24576));
        proof {
            assert(table@.drop_last() =~= pre2);
            assert(map_of(table@) == map_of(pre2).insert("KBD"@, 24576u16));
            assert(map_of(table@) == initial_symbols());
        }
        SymbolTable { table, next_var_address: 16 }
    }

    /// Records `label` at `address`, replacing any earlier binding.
    pub fn add_label(&mut self, label: &str, address: u16)
        ensures
            final(self)@ == old(self)@.insert(label@, address),
            final(self).next_address() == old(self).next_address(),
    {
        let ghost pre = self.table@;
        self.table.push((String::from_str(label), address));
        proof {
            assert(self.table@.drop_last() =~= pre);
        }
    }

    fn find(&self, symbol: &str) -> (r: Option<u16>)
        ensures
            match r {
                Some(v) => self@.contains_key(symbol@) && v == self@[symbol@],
                None => !self@.contains_key(symbol@),
            },
    {
        let mut i = self.table.len();
        while i > 0
            invariant
                i <= self.table@.len(),
                forall|j: int| i <= j < self.table@.len() ==> self.table@[j].0@ != symbol@,
            decreases i,
        {
            i -= 1;
            let entry = &self.table[i];
            if str_eq(entry.0.as_str(), symbol) {
                proof {
                    lemma_map_of_last_wins(self.table@, i as int);
                }
                return Some(entry.1);
            }
        }
        proof {
            lemma_map_of_absent(self.table@, symbol@);
        }
        None
    }

    /// The address of `symbol`, allocating the next variable address for a
    /// symbol not seen before.
    pub fn get_address(&mut self, symbol: &str) -> (r: u16)
        requires
            old(self).next_address() < u16::MAX,
        ensures
            old(self)@.contains_key(symbol@) ==> r == old(self)@[symbol@] && final(self)@ == old(
                self,
            )@ && final(self).next_address() == old(self).next_address(),
            !old(self)@.contains_key(symbol@) ==> r == old(self).next_address() && final(self)@
                == old(self)@.insert(symbol@, r) && final(self).next_address() == old(
                self,
            ).next_address() + 1,
    {
        if let Some(addr) = self.find(symbol) {
            return addr;
        }
        let addr = self.next_var_address;
        let ghost pre = self.table@;
        self.table.push((String::from_str(symbol), addr));
        proof {
            assert(self.table@.drop_last() =~= pre);
        }
        self.next_var_address = self.next_var_address + 1;
        addr
    }

    /// The next free variable address.
    pub fn get_last_ram_address(&self) -> (r: u16)
        ensures
            r == self.next_address(),
    {
        self.next_var_address
    }
}

} // verus!
