//! A symbol table over borrowed symbol names: the predefined register and
//! device symbols of the target machine, extended once per new symbol.

use vstd::prelude::*;
use crate::text::str_eq;

verus! {

/// The map that an entry list denotes; a later entry for the same symbol
/// wins.
pub open spec fn map_of_entries(entries: Seq<(&str, usize)>) -> Map<Seq<char>, usize>
    decreases entries.len(),
{
    if entries.len() == 0 {
        Map::empty()
    } else {
        map_of_entries(entries.drop_last()).insert(entries.last().0@, entries.last().1)
    }
}

proof fn lemma_entries_last_wins(entries: Seq<(&str, usize)>, i: int)
    requires
        0 <= i < entries.len(),
        forall|j: int| i < j < entries.len() ==> entries[j].0@ != entries[i].0@,
    ensures
        map_of_entries(entries).contains_key(entries[i].0@),
        map_of_entries(entries)[entries[i].0@] == entries[i].1,
    decreases entries.len(),
{
    if i + 1 < entries.len() {
        assert(entries.drop_last()[i] == entries[i]);
        lemma_entries_last_wins(entries.drop_last(), i);
    }
}

proof fn lemma_entries_absent(entries: Seq<(&str, usize)>, k: Seq<char>)
    requires
        forall|j: int| 0 <= j < entries.len() ==> entries[j].0@ != k,
    ensures
        !map_of_entries(entries).contains_key(k),
    decreases entries.len(),
{
    if entries.len() > 0 {
        lemma_entries_absent(entries.drop_last(), k);
    }
}

/// The predefined symbols: the sixteen registers, the five pointer
/// aliases, the screen and the keyboard.
pub open spec fn predefined_entries() -> Seq<(&'static str, usize)> {
    seq![
        ("R0", 0usize),
        ("R1", 1usize),
        ("R2", 2usize),
        ("R3", 3usize),
        ("R4", 4usize),
        ("R5", 5usize),
        ("R6", 6usize),
        ("R7", 7usize),
        ("R8", 8usize),
        ("R9", 9usize),
        ("R10", 10usize),
        ("R11", 11usize),
        ("R12", 12usize),
        ("R13", 13usize),
        ("R14", 14usize),
        ("R15", 15usize),
        ("SP", 0usize),
        ("LCL", 1usize),
        ("ARG", 2usize),
        ("THIS", 3usize),
        ("THAT", 4usize),
        ("SCREEN", 16384usize),
        ("KBD", 24576usize),
    ]
}

/// A table of assembly symbols and their addresses.
#[derive(Debug, PartialEq, Eq)]
pub struct SymbolTable<'a> {
    entries: Vec<(&'a str, usize)>,
}

impl<'a> View for SymbolTable<'a> {
    type V = Map<Seq<char>, usize>;

    closed spec fn view(&self) -> Map<Seq<char>, usize> {
        map_of_entries(self.entries@)
    }
}

impl<'a> SymbolTable<'a> {
    /// A fresh table holding the predefined symbols.
    pub fn new() -> (r: SymbolTable<'a>)
        ensures
            r@ == map_of_entries(predefined_entries()),
    {
        let entries: Vec<(&'a str, usize)> = vec![
            ("R0", 0usize),
            ("R1", 1usize),
            ("R2", 2usize),
            ("R3", 3usize),
            ("R4", 4usize),
            ("R5", 5usize),
            ("R6", 6usize),
            ("R7", 7usize),
            ("R8", 8usize),
            ("R9", 9usize),
            ("R10", 10usize),
            ("R11", 11usize),
            ("R12", 12usize),
            ("R13", 13usize),
            ("R14", 14usize),
            ("R15", 15usize),
            ("SP", 0usize),
            ("LCL", 1usize),
            ("ARG", 2usize),
            ("THIS", 3usize),
            ("THAT", 4usize),
            ("SCREEN", 16384usize),
            ("KBD", 24576usize),
        ];
        proof {
            assert(entries@ =~= predefined_entries());
        }
        SymbolTable { entries }
    }

    fn find(&self, given_symbol: &str) -> (r: Option<usize>)
        ensures
            match r {
                Some(v) => self@.contains_key(given_symbol@) && v == self@[given_symbol@],
                None => !self@.contains_key(given_symbol@),
            },
    {
        let mut i = self.entries.len();
        while i > 0
            invariant
                i <= self.entries@.len(),
                forall|j: int| i <= j < self.entries@.len() ==> self.entries@[j].0@
                    != given_symbol@,
            decreases i,
        {
            i -= 1;
            let entry = &self.entries[i];
            if str_eq(entry.0, given_symbol) {
                proof {
                    lemma_entries_last_wins(self.entries@, i as int);
                }
                return Some(entry.1);
            }
        }
        proof {
            lemma_entries_absent(self.entries@, given_symbol@);
        }
        None
    }

    /// Records `symbol` at `address` unless the table already holds it.
    pub fn add_entry(&mut self, symbol: &'a str, address: usize)
        ensures
            old(self)@.contains_key(symbol@) ==> final(self)@ == old(self)@,
            !old(self)@.contains_key(symbol@) ==> final(self)@ == old(self)@.insert(
                symbol@,
                address,
            ),
    {
        if !self.contains(symbol) {
            let ghost pre = self.entries@;
            self.entries.push((symbol, address));
            proof {
                assert(self.entries@.drop_last() =~= pre);
            }
        }
    }

    /// Whether the table holds `given_symbol`.
    pub fn contains(&self, given_symbol: &str) -> (r: bool)
        ensures
            r == self@.contains_key(given_symbol@),
    {
        self.find(given_symbol).is_some()
    }

    /// The address of `given_symbol`, if the table holds it.
    pub fn get_address(&self, given_symbol: &str) -> (r: Option<usize>)
        ensures
            match r {
                Some(v) => self@.contains_key(given_symbol@) && v == self@[given_symbol@],
                None => !self@.contains_key(given_symbol@),
            },
    {
        self.find(given_symbol)
    }
}

} // verus!
