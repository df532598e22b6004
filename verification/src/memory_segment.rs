//! A keyed store per memory segment, with one map of index to value for
//! each segment name; an unknown segment keyword falls back to the temp
//! store.

use std::collections::HashMap;
use vstd::prelude::*;
use crate::text::str_eq;

verus! {

broadcast use vstd::std_specs::hash::group_hash_axioms;

proof fn lemma_segment_names_distinct()
    ensures
        "argument"@ != "local"@ && "argument"@ != "static"@ && "argument"@ != "this"@
            && "argument"@ != "that"@ && "argument"@ != "pointer"@ && "argument"@ != "temp"@,
        "local"@ != "static"@ && "local"@ != "this"@ && "local"@ != "that"@ && "local"@
            != "pointer"@ && "local"@ != "temp"@,
        "static"@ != "this"@ && "static"@ != "that"@ && "static"@ != "pointer"@ && "static"@
            != "temp"@,
        "this"@ != "that"@ && "this"@ != "temp"@ && "this"@ != "pointer"@,
        "that"@ != "pointer"@ && "that"@ != "temp"@,
        "pointer"@ != "temp"@,
{
    reveal_strlit("argument");
    reveal_strlit("local");
    reveal_strlit("static");
    reveal_strlit("this");
    reveal_strlit("that");
    reveal_strlit("pointer");
    reveal_strlit("temp");
    assert("argument"@[0] == 'a' && "local"@[0] == 'l' && "static"@[0] == 's' && "pointer"@[0]
        == 'p');
    assert("this"@[0] == 't' && "that"@[0] == 't' && "temp"@[0] == 't');
    assert("this"@[1] == 'h' && "that"@[1] == 'h' && "temp"@[1] == 'e');
    assert("this"@[2] == 'i' && "that"@[2] == 'a' && "temp"@[2] == 'm');
}

/// One key/value store per segment.
pub struct MemorySegment {
    argument: HashMap<i16, i16>,
    local: HashMap<i16, i16>,
    statiq: HashMap<i16, i16>,
    this: HashMap<i16, i16>,
    that: HashMap<i16, i16>,
    pointer: HashMap<i16, i16>,
    temp: HashMap<i16, i16>,
}

impl MemorySegment {
    /// The segment name that a keyword selects: itself when it is one of
    /// the seven stores, the temp store otherwise.
    pub open spec fn canonical(name: Seq<char>) -> Seq<char> {
        if name == "argument"@ || name == "local"@ || name == "static"@ || name == "this"@ || name
            == "that"@ || name == "pointer"@ {
            name
        } else {
            "temp"@
        }
    }

    /// The store that `name` selects.
    pub closed spec fn seg_map(self, name: Seq<char>) -> Map<i16, i16> {
        if name == "argument"@ {
            self.argument@
        } else if name == "local"@ {
            self.local@
        } else if name == "static"@ {
            self.statiq@
        } else if name == "this"@ {
            self.this@
        } else if name == "that"@ {
            self.that@
        } else if name == "pointer"@ {
            self.pointer@
        } else {
            self.temp@
        }
    }

    /// Seven fresh, empty stores.
    pub fn new() -> (r: MemorySegment)
        ensures
            forall|n: Seq<char>| #[trigger] r.seg_map(n) == Map::<i16, i16>::empty(),
    {
        MemorySegment {
            argument: HashMap::new(),
            local: HashMap::new(),
            statiq: HashMap::new(),
            this: HashMap::new(),
            that: HashMap::new(),
            pointer: HashMap::new(),
            temp: HashMap::new(),
        }
    }

    /// Stores `value` at `index` of the segment that `segment` selects;
    /// every other store is left alone.
    pub fn push(&mut self, segment: &str, index: i16, value: i16)
        ensures
            forall|n: Seq<char>| #[trigger] final(self).seg_map(n) == if Self::canonical(n)
                == Self::canonical(segment@) {
                old(self).seg_map(n).insert(index, value)
            } else {
                old(self).seg_map(n)
            },
    {
        if str_eq(segment, "argument") {
            self.argument.insert(index, value);
        } else if str_eq(segment, "local") {
            self.local.insert(index, value);
        } else if str_eq(segment, "static") {
            self.statiq.insert(index, value);
        } else if str_eq(segment, "this") {
            self.this.insert(index, value);
        } else if str_eq(segment, "that") {
            self.that.insert(index, value);
        } else if str_eq(segment, "pointer") {
            self.pointer.insert(index, value);
        } else {
            self.temp.insert(index, value);
        }
        proof {
            lemma_segment_names_distinct();
            assert(vstd::std_specs::hash::obeys_key_model::<i16>());
            assert(vstd::std_specs::hash::builds_valid_hashers::<
                std::collections::hash_map::RandomState,
            >());
            assert forall|n: Seq<char>| #[trigger] self.seg_map(n) == (if Self::canonical(n)
                == Self::canonical(segment@) {
                old(self).seg_map(n).insert(index, value)
            } else {
                old(self).seg_map(n)
            }) by {
                assert(Self::canonical(n) == Self::canonical(segment@) ==> self.seg_map(n)
                    == old(self).seg_map(n).insert(index, value));
            }
        }
    }

    /// The value at `index` of the segment that `segment` selects, if one
    /// was stored there.
    pub fn get(&self, segment: &str, index: i16) -> (r: Option<i16>)
        ensures
            match r {
                Some(v) => self.seg_map(MemorySegment::canonical(segment@)).contains_key(index)
                    && v == self.seg_map(MemorySegment::canonical(segment@))[index],
                None => !self.seg_map(MemorySegment::canonical(segment@)).contains_key(index),
            },
    {
        let store = if str_eq(segment, "argument") {
            &self.argument
        } else if str_eq(segment, "local") {
            &self.local
        } else if str_eq(segment, "static") {
            &self.statiq
        } else if str_eq(segment, "this") {
            &self.this
        } else if str_eq(segment, "that") {
            &self.that
        } else if str_eq(segment, "pointer") {
            &self.pointer
        } else {
            &self.temp
        };
        proof {
            lemma_segment_names_distinct();
            assert(vstd::std_specs::hash::obeys_key_model::<i16>());
            assert(vstd::std_specs::hash::builds_valid_hashers::<
                std::collections::hash_map::RandomState,
            >());
        }
        let r = match store.get(&index) {
            Some(v) => Some(*v),
            None => None,
        };
        proof {
            assert(store@ == self.seg_map(MemorySegment::canonical(segment@)));
        }
        r
    }
}

} // verus!
