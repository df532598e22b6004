//! The Jack-language tokenizer's classification helpers: keyword, symbol,
//! identifier, integer and string-constant recognition, the line splitter,
//! and the XML escaping of symbol characters.

use vstd::prelude::*;
use crate::parser::{is_space, is_space_char};
use crate::text::{dec_val, is_digits, parse_u16};
use crate::utils::{is_alphabetic_char, is_alphanumeric_char};

verus! {

/// One Jack token kind.
#[derive(Debug, Clone, Copy)]
pub enum Token {
    Keyword(Keyword),
    Symbol,
    Identifier,
    IntConst,
    StringConst,
}

/// The reserved words of the Jack language.
#[derive(Debug, Clone, Copy, PartialEq, Eq, Structural)]
pub enum Keyword {
    Class,
    Method,
    Function,
    Constructor,
    Int,
    Boolean,
    Char,
    Void,
    Var,
    Static,
    Field,
    Let,
    Do,
    If,
    Else,
    While,
    Return,
    True,
    False,
    Null,
    This,
}

/// The keyword a token names, if any; exact match, never a prefix.
pub open spec fn keyword_of(tok: Seq<char>) -> Option<Keyword> {
    if tok == "class"@ {
        Some(Keyword::Class)
    } else if tok == "method"@ {
        Some(Keyword::Method)
    } else if tok == "function"@ {
        Some(Keyword::Function)
    } else if tok == "constructor"@ {
        Some(Keyword::Constructor)
    } else if tok == "int"@ {
        Some(Keyword::Int)
    } else if tok == "boolean"@ {
        Some(Keyword::Boolean)
    } else if tok == "char"@ {
        Some(Keyword::Char)
    } else if tok == "void"@ {
        Some(Keyword::Void)
    } else if tok == "var"@ {
        Some(Keyword::Var)
    } else if tok == "static"@ {
        Some(Keyword::Static)
    } else if tok == "field"@ {
        Some(Keyword::Field)
    } else if tok == "let"@ {
        Some(Keyword::Let)
    } else if tok == "do"@ {
        Some(Keyword::Do)
    } else if tok == "if"@ {
        Some(Keyword::If)
    } else if tok == "else"@ {
        Some(Keyword::Else)
    } else if tok == "while"@ {
        Some(Keyword::While)
    } else if tok == "return"@ {
        Some(Keyword::Return)
    } else if tok == "true"@ {
        Some(Keyword::True)
    } else if tok == "false"@ {
        Some(Keyword::False)
    } else if tok == "null"@ {
        Some(Keyword::Null)
    } else if tok == "this"@ {
        Some(Keyword::This)
    } else {
        None
    }
}

/// Names the keyword a token is, by exact match.
pub fn keyword_type(token: &str) -> (r: Option<Keyword>)
    ensures
        r == keyword_of(token@),
{
    if crate::text::str_eq(token, "class") {
        Some(Keyword::Class)
    } else if crate::text::str_eq(token, "method") {
        Some(Keyword::Method)
    } else if crate::text::str_eq(token, "function") {
        Some(Keyword::Function)
    } else if crate::text::str_eq(token, "constructor") {
        Some(Keyword::Constructor)
    } else if crate::text::str_eq(token, "int") {
        Some(Keyword::Int)
    } else if crate::text::str_eq(token, "boolean") {
        Some(Keyword::Boolean)
    } else if crate::text::str_eq(token, "char") {
        Some(Keyword::Char)
    } else if crate::text::str_eq(token, "void") {
        Some(Keyword::Void)
    } else if crate::text::str_eq(token, "var") {
        Some(Keyword::Var)
    } else if crate::text::str_eq(token, "static") {
        Some(Keyword::Static)
    } else if crate::text::str_eq(token, "field") {
        Some(Keyword::Field)
    } else if crate::text::str_eq(token, "let") {
        Some(Keyword::Let)
    } else if crate::text::str_eq(token, "do") {
        Some(Keyword::Do)
    } else if crate::text::str_eq(token, "if") {
        Some(Keyword::If)
    } else if crate::text::str_eq(token, "else") {
        Some(Keyword::Else)
    } else if crate::text::str_eq(token, "while") {
        Some(Keyword::While)
    } else if crate::text::str_eq(token, "return") {
        Some(Keyword::Return)
    } else if crate::text::str_eq(token, "true") {
        Some(Keyword::True)
    } else if crate::text::str_eq(token, "false") {
        Some(Keyword::False)
    } else if crate::text::str_eq(token, "null") {
        Some(Keyword::Null)
    } else if crate::text::str_eq(token, "this") {
        Some(Keyword::This)
    } else {
        None
    }
}

/// The source spelling of a keyword.
pub open spec fn keyword_str(keyword: Keyword) -> Seq<char> {
    match keyword {
        Keyword::Class => "class"@,
        Keyword::Method => "method"@,
        Keyword::Function => "function"@,
        Keyword::Constructor => "constructor"@,
        Keyword::Int => "int"@,
        Keyword::Boolean => "boolean"@,
        Keyword::Char => "char"@,
        Keyword::Void => "void"@,
        Keyword::Var => "var"@,
        Keyword::Static => "static"@,
        Keyword::Field => "field"@,
        Keyword::Let => "let"@,
        Keyword::Do => "do"@,
        Keyword::If => "if"@,
        Keyword::Else => "else"@,
        Keyword::While => "while"@,
        Keyword::Return => "return"@,
        Keyword::True => "true"@,
        Keyword::False => "false"@,
        Keyword::Null => "null"@,
        Keyword::This => "this"@,
    }
}

/// Spells a keyword as it appears in source.
pub fn keyword_to_string(keyword: &Keyword) -> (r: &'static str)
    ensures
        r@ == keyword_str(*keyword),
{
    match keyword {
        Keyword::Class => "class",
        Keyword::Method => "method",
        Keyword::Function => "function",
        Keyword::Constructor => "constructor",
        Keyword::Int => "int",
        Keyword::Boolean => "boolean",
        Keyword::Char => "char",
        Keyword::Void => "void",
        Keyword::Var => "var",
        Keyword::Static => "static",
        Keyword::Field => "field",
        Keyword::Let => "let",
        Keyword::Do => "do",
        Keyword::If => "if",
        Keyword::Else => "else",
        Keyword::While => "while",
        Keyword::Return => "return",
        Keyword::True => "true",
        Keyword::False => "false",
        Keyword::Null => "null",
        Keyword::This => "this",
    }
}

/// Whether `c` is one of the Jack symbol characters.
pub open spec fn is_symbol_char(c: char) -> bool {
    c == '{' || c == '}' || c == '(' || c == ')' || c == '[' || c == ']' || c == '.' || c == ','
        || c == ';' || c == '+' || c == '-' || c == '*' || c == '/' || c == '&' || c == '|' || c
        == '<' || c == '>' || c == '=' || c == '~'
}

fn symbol_char(c: char) -> (r: bool)
    ensures
        r == is_symbol_char(c),
{
    c == '{' || c == '}' || c == '(' || c == ')' || c == '[' || c == ']' || c == '.' || c == ','
        || c == ';' || c == '+' || c == '-' || c == '*' || c == '/' || c == '&' || c == '|' || c
        == '<' || c == '>' || c == '=' || c == '~'
}

/// Whether `tok` is a valid Jack identifier: non-empty, opening with a
/// letter or an underscore, continuing with letters, digits or
/// underscores.
pub open spec fn valid_identifier(tok: Seq<char>) -> bool {
    tok.len() > 0 && (is_alphabetic_char(tok[0]) || tok[0] == '_') && (forall|i: int|
        1 <= i < tok.len() ==> is_alphanumeric_char(#[trigger] tok[i]) || tok[i] == '_')
}

/// Decides whether `token` is a valid Jack identifier.
pub fn is_valid_identifier(token: &str) -> (r: bool)
    ensures
        r == valid_identifier(token@),
{
    let n = token.unicode_len();
    if n == 0 {
        return false;
    }
    let first_char = token.get_char(0);
    if !first_char.is_alphabetic() && first_char != '_' {
        return false;
    }
    let mut i: usize = 1;
    while i < n
        invariant
            1 <= i <= n,
            n == token@.len(),
            forall|j: int| 1 <= j < i ==> is_alphanumeric_char(#[trigger] token@[j]) || token@[j]
                == '_',
        decreases n - i,
    {
        let ch = token.get_char(i);
        if !ch.is_alphanumeric() && ch != '_' {
            return false;
        }
        i += 1;
    }
    true
}

/// Whether `tok` is a decimal integer in the Jack range: an optional
/// leading plus sign, then digits, with a value of at most 32767.
pub open spec fn valid_integer(tok: Seq<char>) -> bool {
    let body = if tok.len() > 0 && tok[0] == '+' {
        tok.subrange(1, tok.len() as int)
    } else {
        tok
    };
    is_digits(body) && dec_val(body) <= 32767
}

/// Decides whether `token` is a decimal integer of at most 32767.
pub fn is_valid_integer(token: &str) -> (r: bool)
    ensures
        r == valid_integer(token@),
{
    let n = token.unicode_len();
    let body: &str = if n > 0 && token.get_char(0) == '+' {
        token.substring_char(1, n)
    } else {
        token
    };
    match parse_u16(body) {
        Some(v) => v <= 32767,
        None => false,
    }
}

/// The token kind of one word: keywords first, then runs of symbol
/// characters, identifiers, integers, and double-quoted strings.
pub open spec fn token_of(tok: Seq<char>) -> Option<Token> {
    if keyword_of(tok) is Some {
        Some(Token::Keyword(keyword_of(tok)->0))
    } else if forall|i: int| 0 <= i < tok.len() ==> is_symbol_char(#[trigger] tok[i]) {
        Some(Token::Symbol)
    } else if valid_identifier(tok) {
        Some(Token::Identifier)
    } else if valid_integer(tok) {
        Some(Token::IntConst)
    } else if tok.len() > 0 && tok[0] == '"' && tok[tok.len() - 1] == '"' {
        Some(Token::StringConst)
    } else {
        None
    }
}

/// Classifies one word of a Jack source line.
pub fn token_type(token: &str) -> (r: Option<Token>)
    ensures
        match r {
            Some(t) => token_of(token@) == Some(t),
            None => token_of(token@) is None,
        },
{
    if let Some(key) = keyword_type(token) {
        return Some(Token::Keyword(key));
    }
    let n = token.unicode_len();
    let mut all_symbols = true;
    let mut i: usize = 0;
    while i < n
        invariant
            i <= n,
            n == token@.len(),
            all_symbols == forall|j: int| 0 <= j < i ==> is_symbol_char(#[trigger] token@[j]),
        decreases n - i,
    {
        if !symbol_char(token.get_char(i)) {
            all_symbols = false;
        }
        i += 1;
    }
    if all_symbols {
        return Some(Token::Symbol);
    }
    if is_valid_identifier(token) {
        return Some(Token::Identifier);
    }
    if is_valid_integer(token) {
        return Some(Token::IntConst);
    }
    if n > 0 && token.get_char(0) == '"' && token.get_char(n - 1) == '"' {
        return Some(Token::StringConst);
    }
    None
}

/// The index just past the closing marker of a block comment scanned from
/// `j`, or the end of the line if it never closes.
pub open spec fn block_end(s: Seq<char>, j: nat) -> nat
    decreases s.len() - j,
{
    if j >= s.len() {
        s.len()
    } else if s[j as int] == '*' && j + 1 < s.len() && s[j as int + 1] == '/' {
        j + 2
    } else {
        block_end(s, j + 1)
    }
}

pub proof fn lemma_block_end_ge(s: Seq<char>, j: nat)
    requires
        j <= s.len(),
    ensures
        j <= block_end(s, j) <= s.len(),
    decreases s.len() - j,
{
    if j < s.len() && !(s[j as int] == '*' && j + 1 < s.len() && s[j as int + 1] == '/') {
        lemma_block_end_ge(s, j + 1);
    }
}

/// Whether `c` splits tokens and stands alone as one.
pub open spec fn is_separator(c: char) -> bool {
    c == '(' || c == ')' || c == '{' || c == '}' || c == ',' || c == '=' || c == '.' || c == ';'
        || c == '[' || c == ']' || c == '-'
}

fn separator_char(c: char) -> (r: bool)
    ensures
        r == is_separator(c),
{
    c == '(' || c == ')' || c == '{' || c == '}' || c == ',' || c == '=' || c == '.' || c == ';'
        || c == '[' || c == ']' || c == '-'
}

/// One left-to-right scan of a Jack source line: skips line and block
/// comments, keeps string constants whole with their quotes, emits
/// separator characters as one-character tokens, and gathers runs of
/// letters and digits.
pub open spec fn jack_scan(
    s: Seq<char>,
    i: nat,
    inside_string: bool,
    cur: Seq<char>,
    acc: Seq<Seq<char>>,
) -> Seq<Seq<char>>
    decreases s.len() - i,
{
    if i >= s.len() {
        if cur.len() > 0 {
            acc.push(cur)
        } else {
            acc
        }
    } else {
        let c = s[i as int];
        if c == '/' && i + 1 < s.len() && s[i as int + 1] == '/' {
            if cur.len() > 0 {
                acc.push(cur)
            } else {
                acc
            }
        } else if c == '/' && i + 1 < s.len() && s[i as int + 1] == '*' {
            proof {
                lemma_block_end_ge(s, i + 1);
            }
            jack_scan(s, block_end(s, i + 1), inside_string, cur, acc)
        } else if inside_string {
            if c == '"' {
                jack_scan(s, i + 1, false, Seq::empty(), acc.push(cur.push('"')))
            } else {
                jack_scan(s, i + 1, true, cur.push(c), acc)
            }
        } else if c == '"' {
            jack_scan(
                s,
                i + 1,
                true,
                seq!['"'],
                if cur.len() > 0 {
                    acc.push(cur)
                } else {
                    acc
                },
            )
        } else if is_separator(c) {
            jack_scan(
                s,
                i + 1,
                false,
                Seq::empty(),
                (if cur.len() > 0 {
                    acc.push(cur)
                } else {
                    acc
                }).push(seq![c]),
            )
        } else if is_alphanumeric_char(c) {
            jack_scan(s, i + 1, false, cur.push(c), acc)
        } else if c == ' ' {
            jack_scan(
                s,
                i + 1,
                false,
                Seq::empty(),
                if cur.len() > 0 {
                    acc.push(cur)
                } else {
                    acc
                },
            )
        } else {
            jack_scan(
                s,
                i + 1,
                false,
                Seq::empty(),
                (if cur.len() > 0 {
                    acc.push(cur)
                } else {
                    acc
                }).push(seq![c]),
            )
        }
    }
}

fn skip_block(line: &str, j0: usize) -> (r: usize)
    requires
        j0 <= line@.len(),
    ensures
        r == block_end(line@, j0 as nat),
        j0 <= r <= line@.len(),
{
    let n = line.unicode_len();
    let mut j = j0;
    while j < n
        invariant
            j0 <= j <= n,
            n == line@.len(),
            block_end(line@, j0 as nat) == block_end(line@, j as nat),
        decreases n - j,
    {
        if line.get_char(j) == '*' && j + 1 < n && line.get_char(j + 1) == '/' {
            return j + 2;
        }
        j += 1;
    }
    n
}

fn push_token(result: &mut Vec<String>, token: String)
    ensures
        final(result)@.len() == old(result)@.len() + 1,
        final(result).deep_view() == old(result).deep_view().push(token@),
{
    let ghost pre = result.deep_view();
    let ghost tv = token@;
    result.push(token);
    proof {
        assert(result.deep_view() =~= pre.push(tv));
    }
}

fn char_token(c: char) -> (r: String)
    ensures
        r@ == seq![c],
{
    let mut s = String::new();
    s.push(c);
    proof {
        assert(s@ =~= seq![c]);
    }
    s
}

/// Splits one Jack source line into tokens, skipping comments and keeping
/// string constants whole.
pub fn split_line_into_tokens(line: &str) -> (r: Vec<String>)
    ensures
        r.deep_view() == jack_scan(line@, 0, false, Seq::empty(), Seq::empty()),
{
    let n = line.unicode_len();
    let mut result: Vec<String> = Vec::new();
    let mut current_token = String::new();
    let mut inside_string = false;
    let mut i: usize = 0;
    proof {
        assert(current_token@ =~= Seq::<char>::empty());
        assert(result.deep_view() =~= Seq::<Seq<char>>::empty());
    }
    loop
        invariant
            i <= n,
            n == line@.len(),
            jack_scan(line@, 0, false, Seq::empty(), Seq::empty()) == jack_scan(
                line@,
                i as nat,
                inside_string,
                current_token@,
                result.deep_view(),
            ),
        ensures
            i <= n,
            n == line@.len(),
            jack_scan(line@, 0, false, Seq::empty(), Seq::empty()) == jack_scan(
                line@,
                i as nat,
                inside_string,
                current_token@,
                result.deep_view(),
            ),
            i >= n || (i + 1 < n && line@[i as int] == '/' && line@[i as int + 1] == '/'),
        decreases n - i,
    {
        if i >= n {
            break;
        }
        let ch = line.get_char(i);
        if ch == '/' && i + 1 < n && line.get_char(i + 1) == '/' {
            break;
        }
        if ch == '/' && i + 1 < n && line.get_char(i + 1) == '*' {
            i = skip_block(line, i + 1);
        } else if inside_string {
            current_token.push(ch);
            if ch == '"' {
                push_token(&mut result, current_token);
                current_token = String::new();
                inside_string = false;
                assert(current_token@ =~= Seq::<char>::empty());
            }
            i += 1;
        } else if ch == '"' {
            if current_token.unicode_len() > 0 {
                push_token(&mut result, current_token);
                current_token = String::new();
            } else {
                assert(current_token@ =~= Seq::<char>::empty());
            }
            inside_string = true;
            current_token = char_token('"');
            i += 1;
        } else if separator_char(ch) {
            if current_token.unicode_len() > 0 {
                push_token(&mut result, current_token);
                current_token = String::new();
            } else {
                assert(current_token@ =~= Seq::<char>::empty());
            }
            push_token(&mut result, char_token(ch));
            i += 1;
        } else if ch.is_alphanumeric() {
            current_token.push(ch);
            i += 1;
        } else if ch == ' ' {
            if current_token.unicode_len() > 0 {
                push_token(&mut result, current_token);
                current_token = String::new();
            } else {
                assert(current_token@ =~= Seq::<char>::empty());
            }
            assert(current_token@ =~= Seq::<char>::empty());
            i += 1;
        } else {
            if current_token.unicode_len() > 0 {
                push_token(&mut result, current_token);
                current_token = String::new();
            } else {
                assert(current_token@ =~= Seq::<char>::empty());
            }
            push_token(&mut result, char_token(ch));
            i += 1;
        }
    }
    if current_token.unicode_len() > 0 {
        push_token(&mut result, current_token);
    } else {
        assert(current_token@ =~= Seq::<char>::empty());
    }
    result
}

/// The XML escaping of one character.
pub open spec fn esc_char(c: char) -> Seq<char> {
    if c == '&' {
        "&amp;"@
    } else if c == '<' {
        "&lt;"@
    } else if c == '>' {
        "&gt;"@
    } else if c == '"' {
        "&quot;"@
    } else {
        seq![c]
    }
}

/// The XML escaping of `s` from index `i` on.
pub open spec fn esc_from(s: Seq<char>, i: nat) -> Seq<char>
    decreases s.len() - i,
{
    if i >= s.len() {
        Seq::empty()
    } else {
        esc_char(s[i as int]) + esc_from(s, i + 1)
    }
}

/// Replaces &, <, > and the double quote by their XML entities.
pub fn escape_special_chars(input: &str) -> (r: String)
    ensures
        r@ == esc_from(input@, 0),
{
    let n = input.unicode_len();
    let mut out = String::new();
    let mut i: usize = 0;
    proof {
        assert(out@ + esc_from(input@, 0) =~= esc_from(input@, 0));
    }
    while i < n
        invariant
            i <= n,
            n == input@.len(),
            esc_from(input@, 0) == out@ + esc_from(input@, i as nat),
        decreases n - i,
    {
        let c = input.get_char(i);
        let ghost pre = out@;
        if c == '&' {
            out.append("&amp;");
        } else if c == '<' {
            out.append("&lt;");
        } else if c == '>' {
            out.append("&gt;");
        } else if c == '"' {
            out.append("&quot;");
        } else {
            out.push(c);
            proof {
                assert(out@ =~= pre + seq![c]);
            }
        }
        proof {
            assert(pre + (esc_char(c) + esc_from(input@, (i + 1) as nat)) =~= (pre + esc_char(c))
                + esc_from(input@, (i + 1) as nat));
        }
        i += 1;
    }
    out
}

/// The first index at or after `i` whose character is not whitespace.
pub open spec fn trim_start_idx(s: Seq<char>, i: nat) -> nat
    decreases s.len() - i,
{
    if i >= s.len() {
        s.len()
    } else if is_space(s[i as int]) {
        trim_start_idx(s, i + 1)
    } else {
        i
    }
}

proof fn lemma_trim_start_idx_le(s: Seq<char>, i: nat)
    requires
        i <= s.len(),
    ensures
        i <= trim_start_idx(s, i) <= s.len(),
    decreases s.len() - i,
{
    if i < s.len() && is_space(s[i as int]) {
        lemma_trim_start_idx_le(s, i + 1);
    }
}

/// `s` with its leading whitespace removed.
pub open spec fn trimmed_start(s: Seq<char>) -> Seq<char> {
    s.subrange(trim_start_idx(s, 0) as int, s.len() as int)
}

fn trim_start_text(line: &str) -> (r: String)
    ensures
        r@ == trimmed_start(line@),
{
    let n = line.unicode_len();
    let mut i: usize = 0;
    while i < n && is_space_char(line.get_char(i))
        invariant
            i <= n,
            n == line@.len(),
            trim_start_idx(line@, 0) == trim_start_idx(line@, i as nat),
        decreases n - i,
    {
        i += 1;
    }
    proof {
        lemma_trim_start_idx_le(line@, i as nat);
        assert(trim_start_idx(line@, i as nat) == i);
    }
    String::from_str(line.substring_char(i, n))
}

/// Whether `s` opens with `p`.
pub open spec fn seq_starts_with(s: Seq<char>, p: Seq<char>) -> bool {
    s.len() >= p.len() && s.subrange(0, p.len() as int) == p
}

/// Whether `s` closes with `p`.
pub open spec fn seq_ends_with(s: Seq<char>, p: Seq<char>) -> bool {
    s.len() >= p.len() && s.subrange(s.len() - p.len(), s.len() as int) == p
}

fn starts_with_text(s: &str, p: &str) -> (r: bool)
    ensures
        r == seq_starts_with(s@, p@),
{
    let n = s.unicode_len();
    let m = p.unicode_len();
    if n < m {
        return false;
    }
    let mut i: usize = 0;
    while i < m
        invariant
            i <= m,
            m <= n,
            n == s@.len(),
            m == p@.len(),
            forall|j: int| 0 <= j < i ==> s@[j] == p@[j],
        decreases m - i,
    {
        if s.get_char(i) != p.get_char(i) {
            assert(s@.subrange(0, m as int)[i as int] != p@[i as int]);
            return false;
        }
        i += 1;
    }
    assert(s@.subrange(0, m as int) =~= p@);
    true
}

fn ends_with_text(s: &str, p: &str) -> (r: bool)
    ensures
        r == seq_ends_with(s@, p@),
{
    let n = s.unicode_len();
    let m = p.unicode_len();
    if n < m {
        return false;
    }
    let base = n - m;
    let mut i: usize = 0;
    while i < m
        invariant
            i <= m,
            m <= n,
            base == n - m,
            n == s@.len(),
            m == p@.len(),
            forall|j: int| 0 <= j < i ==> s@[base + j] == p@[j],
        decreases m - i,
    {
        if s.get_char(base + i) != p.get_char(i) {
            assert(s@.subrange(base as int, n as int)[i as int] != p@[i as int]);
            return false;
        }
        i += 1;
    }
    assert(s@.subrange(base as int, n as int) =~= p@);
    true
}

/// The first index at or after `i` whose character is not a double quote.
pub open spec fn lead_quotes(s: Seq<char>, i: nat) -> nat
    decreases s.len() - i,
{
    if i >= s.len() {
        s.len()
    } else if s[i as int] == '"' {
        lead_quotes(s, i + 1)
    } else {
        i
    }
}

/// The last index at or before `j` with no double quote right before it.
pub open spec fn trail_quotes(s: Seq<char>, j: nat) -> nat
    decreases j,
{
    if j == 0 {
        0
    } else if s[j - 1] == '"' {
        trail_quotes(s, (j - 1) as nat)
    } else {
        j
    }
}

/// `s` with every leading and trailing double quote removed.
pub open spec fn trim_quotes(s: Seq<char>) -> Seq<char> {
    let a = lead_quotes(s, 0);
    let b = trail_quotes(s, s.len());
    if a >= b {
        Seq::empty()
    } else {
        s.subrange(a as int, b as int)
    }
}

proof fn lemma_lead_quotes_le(s: Seq<char>, i: nat)
    requires
        i <= s.len(),
    ensures
        i <= lead_quotes(s, i) <= s.len(),
    decreases s.len() - i,
{
    if i < s.len() && s[i as int] == '"' {
        lemma_lead_quotes_le(s, i + 1);
    }
}

proof fn lemma_trail_quotes_le(s: Seq<char>, j: nat)
    ensures
        trail_quotes(s, j) <= j,
    decreases j,
{
    if j > 0 && s[j - 1] == '"' {
        lemma_trail_quotes_le(s, (j - 1) as nat);
    }
}

fn trim_quotes_text(s: &str) -> (r: String)
    ensures
        r@ == trim_quotes(s@),
{
    let n = s.unicode_len();
    let mut a: usize = 0;
    while a < n && s.get_char(a) == '"'
        invariant
            a <= n,
            n == s@.len(),
            lead_quotes(s@, 0) == lead_quotes(s@, a as nat),
        decreases n - a,
    {
        a += 1;
    }
    proof {
        lemma_lead_quotes_le(s@, a as nat);
        assert(lead_quotes(s@, a as nat) == a);
    }
    let mut b: usize = n;
    while b > 0 && s.get_char(b - 1) == '"'
        invariant
            b <= n,
            n == s@.len(),
            trail_quotes(s@, n as nat) == trail_quotes(s@, b as nat),
        decreases b,
    {
        b -= 1;
    }
    proof {
        lemma_trail_quotes_le(s@, b as nat);
        assert(trail_quotes(s@, b as nat) == b);
    }
    if a >= b {
        let r = String::new();
        proof {
            assert(r@ =~= trim_quotes(s@));
        }
        r
    } else {
        String::from_str(s.substring_char(a, b))
    }
}

/// The XML element of one word, if the word is a token.
pub open spec fn xml_of(word: Seq<char>) -> Option<Seq<char>> {
    match token_of(word) {
        Some(Token::Keyword(k)) => Some("<keyword> "@ + keyword_str(k) + " </keyword>"@),
        Some(Token::Symbol) => Some("<symbol> "@ + esc_from(word, 0) + " </symbol>"@),
        Some(Token::Identifier) => Some("<identifier> "@ + word + " </identifier>"@),
        Some(Token::IntConst) => Some(
            "<integerConstant> "@ + word + " </integerConstant>"@,
        ),
        Some(Token::StringConst) => Some(
            "<stringConstant> "@ + trim_quotes(word) + " </stringConstant>"@,
        ),
        None => None,
    }
}

fn xml_of_word(word: &str) -> (r: Option<String>)
    ensures
        match r {
            Some(s) => xml_of(word@) == Some(s@),
            None => xml_of(word@) is None,
        },
{
    match token_type(word) {
        Some(Token::Keyword(keyword)) => {
            let mut s = String::from_str("<keyword> ");
            s.append(keyword_to_string(&keyword));
            s.append(" </keyword>");
            assert(s@ =~= "<keyword> "@ + keyword_str(keyword) + " </keyword>"@);
            Some(s)
        },
        Some(Token::Symbol) => {
            let mut s = String::from_str("<symbol> ");
            s.append(escape_special_chars(word).as_str());
            s.append(" </symbol>");
            assert(s@ =~= "<symbol> "@ + esc_from(word@, 0) + " </symbol>"@);
            Some(s)
        },
        Some(Token::Identifier) => {
            let mut s = String::from_str("<identifier> ");
            s.append(word);
            s.append(" </identifier>");
            assert(s@ =~= "<identifier> "@ + word@ + " </identifier>"@);
            Some(s)
        },
        Some(Token::IntConst) => {
            let mut s = String::from_str("<integerConstant> ");
            s.append(word);
            s.append(" </integerConstant>");
            assert(s@ =~= "<integerConstant> "@ + word@ + " </integerConstant>"@);
            Some(s)
        },
        Some(Token::StringConst) => {
            let mut s = String::from_str("<stringConstant> ");
            s.append(trim_quotes_text(word).as_str());
            s.append(" </stringConstant>");
            assert(s@ =~= "<stringConstant> "@ + trim_quotes(word@) + " </stringConstant>"@);
            Some(s)
        },
        None => None,
    }
}

/// The XML elements of the words from index `w` on, words that are no
/// token skipped.
pub open spec fn xml_words(words: Seq<Seq<char>>, w: nat) -> Seq<Seq<char>>
    decreases words.len() - w,
{
    if w >= words.len() {
        Seq::empty()
    } else {
        match xml_of(words[w as int]) {
            Some(x) => seq![x] + xml_words(words, w + 1),
            None => xml_words(words, w + 1),
        }
    }
}

/// The XML elements of the lines from index `i` on. A line opening with
/// the line-comment marker is skipped; a line opening with the block
/// marker starts a comment block that runs, lines included, until a line
/// closing with its end marker.
pub open spec fn tokenize_lines(lines: Seq<Seq<char>>, i: nat, inside: bool) -> Seq<Seq<char>>
    decreases lines.len() - i,
{
    if i >= lines.len() {
        Seq::empty()
    } else {
        let t = trimmed_start(lines[i as int]);
        if seq_starts_with(t, "//"@) {
            tokenize_lines(lines, i + 1, inside)
        } else if inside || seq_starts_with(t, "/**"@) {
            tokenize_lines(lines, i + 1, !seq_ends_with(t, "*/"@))
        } else {
            xml_words(jack_scan(t, 0, false, Seq::empty(), Seq::empty()), 0) + tokenize_lines(
                lines,
                i + 1,
                false,
            )
        }
    }
}

/// The whole token stream of a Jack source: the opening tag, one XML
/// element per token, the closing tag.
pub open spec fn spec_tokenize(lines: Seq<Seq<char>>) -> Seq<Seq<char>> {
    seq!["<tokens>"@] + tokenize_lines(lines, 0, false) + seq!["</tokens>"@]
}

/// Turns the lines of one Jack source into its XML token stream.
pub fn tokenize(lines: &Vec<String>) -> (r: Vec<String>)
    ensures
        r.deep_view() == spec_tokenize(lines.deep_view()),
{
    let ghost lv = lines.deep_view();
    let mut tokens: Vec<String> = Vec::new();
    push_token(&mut tokens, String::from_str("<tokens>"));
    let mut inside_comment_block = false;
    let mut i: usize = 0;
    proof {
        assert(tokens.deep_view() =~= Seq::<Seq<char>>::empty().push("<tokens>"@));
        assert(Seq::<Seq<char>>::empty().push("<tokens>"@) =~= seq!["<tokens>"@]);
    }
    while i < lines.len()
        invariant
            i <= lines@.len(),
            lv == lines.deep_view(),
            lv.len() == lines@.len(),
            forall|k: int| 0 <= k < lv.len() ==> lv[k] == #[trigger] lines@[k]@,
            seq!["<tokens>"@] + tokenize_lines(lv, 0, false) == tokens.deep_view()
                + tokenize_lines(lv, i as nat, inside_comment_block),
        decreases lines@.len() - i,
    {
        let line = &lines[i];
        proof {
            assert(lv[i as int] == line@);
        }
        let trimmed = trim_start_text(line.as_str());
        if starts_with_text(trimmed.as_str(), "//") {
            i += 1;
            continue;
        }
        if inside_comment_block || starts_with_text(trimmed.as_str(), "/**") {
            inside_comment_block = !ends_with_text(trimmed.as_str(), "*/");
            i += 1;
            continue;
        }
        let words = split_line_into_tokens(trimmed.as_str());
        let ghost wv = words.deep_view();
        let mut w: usize = 0;
        while w < words.len()
            invariant
                w <= words@.len(),
                lv == lines.deep_view(),
                wv == words.deep_view(),
                wv.len() == words@.len(),
                forall|k: int| 0 <= k < wv.len() ==> wv[k] == #[trigger] words@[k]@,
                i < lv.len(),
                seq!["<tokens>"@] + tokenize_lines(lv, 0, false) == tokens.deep_view() + xml_words(
                    wv,
                    w as nat,
                ) + tokenize_lines(lv, (i + 1) as nat, false),
            decreases words@.len() - w,
        {
            let word = &words[w];
            proof {
                assert(wv[w as int] == word@);
            }
            if let Some(x) = xml_of_word(word.as_str()) {
                let ghost pre = tokens.deep_view();
                let ghost xv = x@;
                push_token(&mut tokens, x);
                proof {
                    let rest = xml_words(wv, (w + 1) as nat);
                    let tail = tokenize_lines(lv, (i + 1) as nat, false);
                    assert(pre + (seq![xv] + rest) + tail =~= pre.push(xv) + rest + tail);
                }
            }
            w += 1;
        }
        i += 1;
    }
    push_token(&mut tokens, String::from_str("</tokens>"));
    proof {
        assert(tokens.deep_view() =~= (seq!["<tokens>"@] + tokenize_lines(lv, 0, false)).push(
            "</tokens>"@,
        ));
        assert((seq!["<tokens>"@] + tokenize_lines(lv, 0, false)).push("</tokens>"@)
            =~= spec_tokenize(lv));
    }
    tokens
}

} // verus!
