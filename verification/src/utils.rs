//! Character-class helpers. The Unicode character properties themselves
//! come from std and are named, not restated: each is a fixed function of
//! the character alone.

use vstd::prelude::*;

verus! {

/// What `char::is_alphabetic` returns for `c`.
pub uninterp spec fn is_alphabetic_char(c: char) -> bool;

/// What `char::is_alphanumeric` returns for `c`.
pub uninterp spec fn is_alphanumeric_char(c: char) -> bool;

/// What `char::is_lowercase` returns for `c`.
pub uninterp spec fn is_lowercase_char(c: char) -> bool;

/// Relies on std's `char::is_alphabetic`: a property of the character
/// alone.
pub assume_specification[ char::is_alphabetic ](c: char) -> (r: bool)
    ensures
        r == is_alphabetic_char(c),
;

/// Relies on std's `char::is_alphanumeric`: a property of the character
/// alone.
pub assume_specification[ char::is_alphanumeric ](c: char) -> (r: bool)
    ensures
        r == is_alphanumeric_char(c),
;

/// Relies on std's `char::is_lowercase`: a property of the character
/// alone.
pub assume_specification[ char::is_lowercase ](c: char) -> (r: bool)
    ensures
        r == is_lowercase_char(c),
;

/// Whether `word` holds at least one alphabetic character.
pub fn contains_alphabetic(word: &str) -> (r: bool)
    ensures
        r == exists|i: int| 0 <= i < word@.len() && is_alphabetic_char(word@[i]),
{
    let n = word.unicode_len();
    let mut has_letter = false;
    let mut i: usize = 0;
    while i < n
        invariant
            i <= n,
            n == word@.len(),
            has_letter == exists|j: int| 0 <= j < i && is_alphabetic_char(word@[j]),
        decreases n - i,
    {
        let c = word.get_char(i);
        if c.is_alphabetic() {
            has_letter = true;
        }
        i += 1;
    }
    has_letter
}

/// Whether `s` holds at least one lowercase character.
pub fn is_not_uppercase(s: &str) -> (r: bool)
    ensures
        r == exists|i: int| 0 <= i < s@.len() && is_lowercase_char(s@[i]),
{
    let n = s.unicode_len();
    let mut i: usize = 0;
    while i < n
        invariant
            i <= n,
            n == s@.len(),
            forall|j: int| 0 <= j < i ==> !is_lowercase_char(s@[j]),
        decreases n - i,
    {
        let c = s.get_char(i);
        if c.is_lowercase() {
            return true;
        }
        i += 1;
    }
    false
}

} // verus!
