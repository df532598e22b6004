use vm_translator::tokenizer::{
    escape_special_chars, is_valid_identifier, is_valid_integer, keyword_to_string, keyword_type,
    split_line_into_tokens, token_type, tokenize, Keyword, Token,
};

fn lines(source: &[&str]) -> Vec<String> {
    source.iter().map(|l| l.to_string()).collect()
}

#[test]
fn keywords_match_exactly_never_by_prefix() {
    assert_eq!(keyword_type("class"), Some(Keyword::Class));
    assert_eq!(keyword_type("classes"), None);
    assert_eq!(keyword_type("clas"), None);
    assert_eq!(keyword_type("return"), Some(Keyword::Return));
}

#[test]
fn keyword_spelling_round_trips() {
    assert_eq!(keyword_to_string(&Keyword::Constructor), "constructor");
    assert_eq!(keyword_type(keyword_to_string(&Keyword::While)), Some(Keyword::While));
}

#[test]
fn identifiers_follow_the_jack_rules() {
    assert!(is_valid_identifier("counter"));
    assert!(is_valid_identifier("_x1"));
    assert!(!is_valid_identifier("1x"));
    assert!(!is_valid_identifier(""));
    assert!(!is_valid_identifier("a-b"));
}

#[test]
fn integers_stop_at_the_jack_maximum() {
    assert!(is_valid_integer("0"));
    assert!(is_valid_integer("32767"));
    assert!(is_valid_integer("+12"));
    assert!(!is_valid_integer("32768"));
    assert!(!is_valid_integer("12a"));
    assert!(!is_valid_integer(""));
}

#[test]
fn token_kinds_are_recognized() {
    assert!(matches!(token_type("let"), Some(Token::Keyword(Keyword::Let))));
    assert!(matches!(token_type(";"), Some(Token::Symbol)));
    assert!(matches!(token_type("x1"), Some(Token::Identifier)));
    assert!(matches!(token_type("42"), Some(Token::IntConst)));
    assert!(matches!(token_type("\"hi\""), Some(Token::StringConst)));
}

#[test]
fn lines_split_on_symbols_and_spaces() {
    let tokens = split_line_into_tokens("let x = y + 1;");
    assert_eq!(tokens, vec!["let", "x", "=", "y", "+", "1", ";"]);
}

#[test]
fn line_comments_and_block_comments_are_skipped() {
    assert_eq!(split_line_into_tokens("do run(); // start"), vec!["do", "run", "(", ")", ";"]);
    assert_eq!(split_line_into_tokens("a /* gone */ b"), vec!["a", "b"]);
}

#[test]
fn string_constants_stay_whole() {
    let tokens = split_line_into_tokens("let s = \"a b\";");
    assert_eq!(tokens, vec!["let", "s", "=", "\"a b\"", ";"]);
}

#[test]
fn tokenize_produces_the_xml_stream() {
    let source = lines(&[
        "// header comment",
        "let x = 1;",
        "/** documentation",
        "   still inside */",
        "do f(\"hi\");",
    ]);
    let tokens = tokenize(&source);
    assert_eq!(
        tokens,
        vec![
            "<tokens>",
            "<keyword> let </keyword>",
            "<identifier> x </identifier>",
            "<symbol> = </symbol>",
            "<integerConstant> 1 </integerConstant>",
            "<symbol> ; </symbol>",
            "<keyword> do </keyword>",
            "<identifier> f </identifier>",
            "<symbol> ( </symbol>",
            "<stringConstant> hi </stringConstant>",
            "<symbol> ) </symbol>",
            "<symbol> ; </symbol>",
            "</tokens>",
        ]
    );
}

#[test]
fn tokenize_escapes_comparison_symbols() {
    let tokens = tokenize(&lines(&["if (x < 3) {"]));
    assert!(tokens.contains(&"<symbol> &lt; </symbol>".to_string()));
    assert_eq!(tokens.first().map(String::as_str), Some("<tokens>"));
    assert_eq!(tokens.last().map(String::as_str), Some("</tokens>"));
}

#[test]
fn xml_entities_replace_special_characters() {
    assert_eq!(escape_special_chars("a<b"), "a&lt;b");
    assert_eq!(escape_special_chars("&\">"), "&amp;&quot;&gt;");
    assert_eq!(escape_special_chars("plain"), "plain");
}
