//! The label-uniqueness service: a counter-backed generator for the branch
//! labels of comparison operators and the return-site labels of calls, with
//! proofs that distinct counter values can never produce colliding labels
//! and that scoped labels from distinct scopes never collide.

use vstd::prelude::*;
use crate::text::{dec_str, dec_digit, u128_to_string};

verus! {

/// Hands out strictly increasing counter values; one translation run owns
/// one generator, so every branch label and return label it mints is fresh.
pub struct LabelGenerator {
    pub next: u128,
}

impl LabelGenerator {
    pub fn new() -> (r: LabelGenerator)
        ensures
            r.next == 0,
    {
        LabelGenerator { next: 0 }
    }

    /// Mints one fresh counter value.
    pub fn fresh(&mut self) -> (c: u128)
        requires
            old(self).next < u128::MAX,
        ensures
            c == old(self).next,
            final(self).next == old(self).next + 1,
    {
        let c = self.next;
        self.next = self.next + 1;
        c
    }
}

/// The branch label minted for counter value `c`.
pub open spec fn count_label(c: nat) -> Seq<char> {
    "COUNT_"@ + dec_str(c)
}

/// The return-site label minted for a call of `f` at counter value `c`.
pub open spec fn return_label(f: Seq<char>, c: nat) -> Seq<char> {
    f + "$ret"@ + dec_str(c)
}

/// The label text of `label` scoped to the enclosing function `scope`.
pub open spec fn scoped_label(scope: Seq<char>, label: Seq<char>) -> Seq<char> {
    scope + "$"@ + label
}

/// The assembly symbol standing for static slot `i` of module `module`.
pub open spec fn static_symbol(module: Seq<char>, i: nat) -> Seq<char> {
    module + "."@ + dec_str(i)
}

/// Renders the branch label for counter value `c`.
pub fn count_label_text(c: u128) -> (s: String)
    ensures
        s@ == count_label(c as nat),
{
    let mut s = String::from_str("COUNT_");
    s.append(u128_to_string(c).as_str());
    s
}

/// Renders the return-site label for a call of `f` at counter value `c`.
pub fn return_label_text(f: &str, c: u128) -> (s: String)
    ensures
        s@ == return_label(f@, c as nat),
{
    let mut s = String::from_str(f);
    s.append("$ret");
    s.append(u128_to_string(c).as_str());
    s
}

/// Renders the scoped form of `label` inside the function `scope`.
pub fn scoped_label_text(scope: &str, label: &str) -> (s: String)
    ensures
        s@ == scoped_label(scope@, label@),
{
    let mut s = String::from_str(scope);
    s.append("$");
    s.append(label);
    s
}

/// Renders the assembly symbol for static slot `i` of `module`.
pub fn static_symbol_text(module: &str, i: u16) -> (s: String)
    ensures
        s@ == static_symbol(module@, i as nat),
{
    let mut s = String::from_str(module);
    s.append(".");
    s.append(u128_to_string(i as u128).as_str());
    s
}

/// Decimal text has at least one character, and at least two for n >= 10.
proof fn lemma_dec_str_len(n: nat)
    ensures
        dec_str(n).len() >= 1,
        n >= 10 ==> dec_str(n).len() >= 2,
    decreases n,
{
    if n >= 10 {
        lemma_dec_str_len(n / 10);
    }
}

/// Every character of decimal text is a decimal digit.
proof fn lemma_dec_str_digits(n: nat)
    ensures
        forall|k: int|
            0 <= k < dec_str(n).len() ==> crate::text::is_digit_char(#[trigger] dec_str(n)[k]),
    decreases n,
{
    if n < 10 {
        assert(dec_str(n)[0] == dec_digit(n));
    } else {
        lemma_dec_str_digits(n / 10);
        assert forall|k: int|
            0 <= k < dec_str(n).len() implies crate::text::is_digit_char(
            #[trigger] dec_str(n)[k],
        ) by {
            if k < dec_str(n / 10).len() {
                assert(dec_str(n)[k] == dec_str(n / 10)[k]);
            } else {
                assert(dec_str(n)[k] == dec_digit(n % 10));
            }
        }
    }
}

/// Two distinct numbers have distinct decimal texts.
proof fn lemma_dec_str_injective(a: nat, b: nat)
    requires
        dec_str(a) == dec_str(b),
    ensures
        a == b,
    decreases a + b,
{
    lemma_dec_str_len(a);
    lemma_dec_str_len(b);
    if a < 10 && b < 10 {
        assert(dec_str(a)[0] == dec_digit(a));
        assert(dec_str(b)[0] == dec_digit(b));
    } else if a >= 10 && b >= 10 {
        assert(dec_str(a).last() == dec_digit(a % 10));
        assert(dec_str(b).last() == dec_digit(b % 10));
        assert(dec_str(a).drop_last() =~= dec_str(a / 10));
        assert(dec_str(b).drop_last() =~= dec_str(b / 10));
        lemma_dec_str_injective(a / 10, b / 10);
        assert(a == 10 * (a / 10) + a % 10);
        assert(b == 10 * (b / 10) + b % 10);
    } else {
        assert(dec_str(a).len() != dec_str(b).len());
    }
}

/// Equal concatenations with equally long left parts have equal parts.
proof fn lemma_concat_cancel(a: Seq<char>, b: Seq<char>, c: Seq<char>, d: Seq<char>)
    requires
        a + b == c + d,
        a.len() == c.len(),
    ensures
        a == c,
        b == d,
{
    assert((a + b).len() == a.len() + b.len());
    assert((c + d).len() == c.len() + d.len());
    assert(b.len() == d.len());
    assert(a =~= c) by {
        assert(forall|k: int| 0 <= k < a.len() ==> a[k] == (a + b)[k] && c[k] == (c + d)[k]);
    }
    assert(b =~= d) by {
        assert forall|k: int| 0 <= k < b.len() implies b[k] == d[k] by {
            assert((a + b)[a.len() + k] == b[k]);
            assert((c + d)[c.len() + k] == d[k]);
        }
    }
}

/// Branch labels minted at distinct counter values are distinct strings:
/// two comparison sites never share a jump target.
pub proof fn lemma_count_labels_distinct(c1: nat, c2: nat)
    requires
        c1 != c2,
    ensures
        count_label(c1) != count_label(c2),
{
    if count_label(c1) == count_label(c2) {
        lemma_dec_str_len(c1);
        lemma_dec_str_len(c2);
        if dec_str(c1).len() == dec_str(c2).len() {
            lemma_concat_cancel("COUNT_"@, dec_str(c1), "COUNT_"@, dec_str(c2));
            lemma_dec_str_injective(c1, c2);
        } else {
            assert(count_label(c1).len() != count_label(c2).len());
        }
    }
}

/// One comparison site draws two labels, at `c` and `c + 1`, and they are
/// distinct: its true-branch target never coincides with its end target.
pub proof fn lemma_site_labels_distinct(c: nat)
    ensures
        count_label(c) != count_label(c + 1),
{
    lemma_count_labels_distinct(c, c + 1);
}

/// Return-site labels of the same function minted at distinct counter values
/// are distinct strings: every call site, recursive ones included, resumes
/// at its own label.
pub proof fn lemma_return_labels_distinct(f: Seq<char>, c1: nat, c2: nat)
    requires
        c1 != c2,
    ensures
        return_label(f, c1) != return_label(f, c2),
{
    if return_label(f, c1) == return_label(f, c2) {
        lemma_dec_str_len(c1);
        lemma_dec_str_len(c2);
        if dec_str(c1).len() == dec_str(c2).len() {
            lemma_concat_cancel(f + "$ret"@, dec_str(c1), f + "$ret"@, dec_str(c2));
            lemma_dec_str_injective(c1, c2);
        } else {
            assert(return_label(f, c1).len() != return_label(f, c2).len());
        }
    }
}

/// One label name declared in two distinct functions yields two distinct
/// scoped labels: label namespaces of different functions are isolated.
pub proof fn lemma_scoped_labels_distinct(s1: Seq<char>, s2: Seq<char>, label: Seq<char>)
    requires
        s1 != s2,
    ensures
        scoped_label(s1, label) != scoped_label(s2, label),
{
    if scoped_label(s1, label) == scoped_label(s2, label) {
        assert((s1 + "$"@) + label =~= scoped_label(s1, label));
        assert((s2 + "$"@) + label =~= scoped_label(s2, label));
        assert((s1 + "$"@).len() == (s2 + "$"@).len());
        lemma_concat_cancel(s1 + "$"@, label, s2 + "$"@, label);
        lemma_concat_cancel(s1, "$"@, s2, "$"@);
    }
}

/// Static slots are namespaced per module: the symbols of two distinct
/// (module, index) pairs are distinct strings, for every module name. The
/// index tail holds only digits, so when the module names differ in
/// length, the longer side's dot separator would have to stand on a digit
/// of the shorter side's tail for the symbols to agree.
pub proof fn lemma_static_symbols_disjoint(m1: Seq<char>, i1: nat, m2: Seq<char>, i2: nat)
    requires
        m1 != m2 || i1 != i2,
    ensures
        static_symbol(m1, i1) != static_symbol(m2, i2),
    decreases m1.len(),
{
    reveal_strlit(".");
    if static_symbol(m1, i1) == static_symbol(m2, i2) {
        lemma_dec_str_len(i1);
        lemma_dec_str_len(i2);
        assert((m1 + "."@) + dec_str(i1) =~= static_symbol(m1, i1));
        assert((m2 + "."@) + dec_str(i2) =~= static_symbol(m2, i2));
        if m1.len() == m2.len() {
            lemma_concat_cancel(m1 + "."@, dec_str(i1), m2 + "."@, dec_str(i2));
            lemma_concat_cancel(m1, "."@, m2, "."@);
            lemma_dec_str_injective(i1, i2);
        } else if m1.len() < m2.len() {
            let k = m2.len() as int;
            assert(static_symbol(m2, i2)[k] == "."@[0]);
            lemma_dec_str_digits(i1);
            assert(static_symbol(m1, i1).len() == m1.len() + 1 + dec_str(i1).len());
            assert(static_symbol(m2, i2).len() == m2.len() + 1 + dec_str(i2).len());
            assert(k < static_symbol(m1, i1).len());
            assert(static_symbol(m1, i1)[k] == dec_str(i1)[k - m1.len() - 1]);
            assert(crate::text::is_digit_char(dec_str(i1)[k - m1.len() - 1]));
            assert(!crate::text::is_digit_char('.'));
        } else {
            lemma_static_symbols_disjoint(m2, i2, m1, i1);
        }
    }
}

} // verus!
