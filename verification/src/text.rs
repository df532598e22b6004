//! Small text utilities shared by the translator, the assembler tables and
//! the tokenizer: character-exact string comparison, decimal and binary
//! rendering of numbers, and decimal parsing.

use vstd::prelude::*;

verus! {

/// Relies on std's `String::push`: appends exactly the given character.
pub assume_specification[ String::push ](s: &mut String, c: char)
    ensures
        final(s)@ == old(s)@.push(c),
;

/// Character-exact equality of two string slices.
pub fn str_eq(a: &str, b: &str) -> (r: bool)
    ensures
        r == (a@ == b@),
{
    let n = a.unicode_len();
    let m = b.unicode_len();
    if n != m {
        assert(a@ != b@) by {
            assert(a@.len() != b@.len());
        }
        return false;
    }
    let mut i: usize = 0;
    while i < n
        invariant
            i <= n,
            n == a@.len(),
            n == b@.len(),
            forall|j: int| 0 <= j < i ==> a@[j] == b@[j],
        decreases n - i,
    {
        if a.get_char(i) != b.get_char(i) {
            return false;
        }
        i += 1;
    }
    assert(a@ =~= b@);
    true
}

/// The decimal digit character standing for `d`.
pub open spec fn dec_digit(d: nat) -> char {
    if d == 0 {
        '0'
    } else if d == 1 {
        '1'
    } else if d == 2 {
        '2'
    } else if d == 3 {
        '3'
    } else if d == 4 {
        '4'
    } else if d == 5 {
        '5'
    } else if d == 6 {
        '6'
    } else if d == 7 {
        '7'
    } else if d == 8 {
        '8'
    } else {
        '9'
    }
}

/// Decimal text of `n`, most significant digit first, no leading zeros.
pub open spec fn dec_str(n: nat) -> Seq<char>
    decreases n,
{
    if n < 10 {
        seq![dec_digit(n)]
    } else {
        dec_str(n / 10).push(dec_digit(n % 10))
    }
}

fn digit_char(d: u128) -> (c: char)
    requires
        d < 10,
    ensures
        c == dec_digit(d as nat),
{
    if d == 0 {
        '0'
    } else if d == 1 {
        '1'
    } else if d == 2 {
        '2'
    } else if d == 3 {
        '3'
    } else if d == 4 {
        '4'
    } else if d == 5 {
        '5'
    } else if d == 6 {
        '6'
    } else if d == 7 {
        '7'
    } else if d == 8 {
        '8'
    } else {
        '9'
    }
}

/// Renders `n` in decimal.
pub fn u128_to_string(n: u128) -> (s: String)
    ensures
        s@ == dec_str(n as nat),
    decreases n,
{
    if n < 10 {
        let mut s = String::new();
        s.push(digit_char(n));
        s
    } else {
        let mut s = u128_to_string(n / 10);
        s.push(digit_char(n % 10));
        s
    }
}

/// Renders `n` in decimal.
pub fn u16_to_string(n: u16) -> (s: String)
    ensures
        s@ == dec_str(n as nat),
{
    u128_to_string(n as u128)
}

/// Binary text of `n`, zero-padded on the left to at least `w` characters.
pub open spec fn bin_pad(n: nat, w: nat) -> Seq<char>
    decreases n, w,
{
    if n < 2 && w <= 1 {
        if n == 0 {
            seq!['0']
        } else {
            seq!['1']
        }
    } else {
        bin_pad(
            n / 2,
            if w == 0 {
                0
            } else {
                (w - 1) as nat
            },
        ).push(
            if n % 2 == 0 {
                '0'
            } else {
                '1'
            },
        )
    }
}

/// Renders `n` in binary, zero-padded on the left to at least `width`
/// characters.
pub fn to_binary(n: u16, width: usize) -> (s: String)
    ensures
        s@ == bin_pad(n as nat, width as nat),
    decreases n, width,
{
    if n < 2 && width <= 1 {
        let mut s = String::new();
        s.push(if n == 0 {
            '0'
        } else {
            '1'
        });
        s
    } else {
        let mut s = to_binary(
            n / 2,
            if width == 0 {
                0
            } else {
                width - 1
            },
        );
        s.push(
            if n % 2 == 0 {
                '0'
            } else {
                '1'
            },
        );
        s
    }
}

/// Whether `c` is a decimal digit.
pub open spec fn is_digit_char(c: char) -> bool {
    c == '0' || c == '1' || c == '2' || c == '3' || c == '4' || c == '5' || c == '6' || c == '7'
        || c == '8' || c == '9'
}

/// The value of a decimal digit character; 0 for any other character.
pub open spec fn digit_val(c: char) -> nat {
    if c == '1' {
        1
    } else if c == '2' {
        2
    } else if c == '3' {
        3
    } else if c == '4' {
        4
    } else if c == '5' {
        5
    } else if c == '6' {
        6
    } else if c == '7' {
        7
    } else if c == '8' {
        8
    } else if c == '9' {
        9
    } else {
        0
    }
}

/// Whether `s` is a non-empty run of decimal digits.
pub open spec fn is_digits(s: Seq<char>) -> bool {
    s.len() > 0 && forall|i: int| 0 <= i < s.len() ==> is_digit_char(s[i])
}

/// The number whose decimal text `s` is, reading non-digits as 0.
pub open spec fn dec_val(s: Seq<char>) -> nat
    decreases s.len(),
{
    if s.len() == 0 {
        0
    } else {
        dec_val(s.drop_last()) * 10 + digit_val(s.last())
    }
}

/// Extending a digit string never lowers its value.
proof fn lemma_dec_val_prefix(s: Seq<char>, i: int)
    requires
        0 <= i <= s.len(),
    ensures
        dec_val(s) >= dec_val(s.subrange(0, i)),
    decreases s.len() - i,
{
    if i < s.len() {
        lemma_dec_val_prefix(s, i + 1);
        let t = s.subrange(0, i + 1);
        assert(t.drop_last() =~= s.subrange(0, i));
        assert(dec_val(t) == dec_val(s.subrange(0, i)) * 10 + digit_val(t.last()));
    } else {
        assert(s.subrange(0, i) =~= s);
    }
}

/// Parses `s` as a decimal number of at most 16 bits. Returns `None` exactly
/// when `s` is not a non-empty digit run or its value exceeds `u16::MAX`.
pub fn parse_u16(s: &str) -> (r: Option<u16>)
    ensures
        match r {
            Some(v) => is_digits(s@) && v == dec_val(s@) && v <= u16::MAX,
            None => !is_digits(s@) || dec_val(s@) > u16::MAX,
        },
{
    let n = s.unicode_len();
    if n == 0 {
        return None;
    }
    let mut acc: u32 = 0;
    let mut i: usize = 0;
    while i < n
        invariant
            0 <= i <= n,
            n == s@.len(),
            forall|j: int| 0 <= j < i ==> is_digit_char(s@[j]),
            acc == dec_val(s@.subrange(0, i as int)),
            acc <= u16::MAX,
        decreases n - i,
    {
        let c = s.get_char(i);
        let u = c as u32;
        if u < 48 || u > 57 {
            assert(!is_digit_char(s@[i as int])) by {
                assert(c as u32 != 48 ==> c != '0');
                assert(c as u32 != 49 ==> c != '1');
                assert(c as u32 != 50 ==> c != '2');
                assert(c as u32 != 51 ==> c != '3');
                assert(c as u32 != 52 ==> c != '4');
                assert(c as u32 != 53 ==> c != '5');
                assert(c as u32 != 54 ==> c != '6');
                assert(c as u32 != 55 ==> c != '7');
                assert(c as u32 != 56 ==> c != '8');
                assert(c as u32 != 57 ==> c != '9');
            }
            return None;
        }
        let d = u - 48;
        assert(is_digit_char(c) && d == digit_val(c)) by {
            assert(c as u32 == 48 ==> c == '0');
            assert(c as u32 == 49 ==> c == '1');
            assert(c as u32 == 50 ==> c == '2');
            assert(c as u32 == 51 ==> c == '3');
            assert(c as u32 == 52 ==> c == '4');
            assert(c as u32 == 53 ==> c == '5');
            assert(c as u32 == 54 ==> c == '6');
            assert(c as u32 == 55 ==> c == '7');
            assert(c as u32 == 56 ==> c == '8');
            assert(c as u32 == 57 ==> c == '9');
        }
        let next = acc * 10 + d;
        assert(s@.subrange(0, i + 1).drop_last() =~= s@.subrange(0, i as int));
        assert(next == dec_val(s@.subrange(0, i + 1)));
        if next > 65535 {
            proof {
                lemma_dec_val_prefix(s@, i + 1);
            }
            return None;
        }
        acc = next;
        i += 1;
    }
    assert(s@.subrange(0, n as int) =~= s@);
    Some(acc as u16)
}

} // verus!
