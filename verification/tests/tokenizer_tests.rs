use tsparser::tokenizer::{LexError, Token, Tokenizer};

fn chars_of(source: &str) -> Vec<char> {
    source.chars().collect()
}

fn all_tokens(source: &str) -> Vec<(Token, String)> {
    let mut tokenizer = Tokenizer::new(chars_of(source));
    let mut out = Vec::new();
    loop {
        match tokenizer.next_token() {
            Ok(Some(token)) => out.push((token, tokenizer.slice())),
            Ok(None) => break,
            Err(e) => panic!("unexpected lexical error on `{}`", e.character),
        }
    }
    out
}

#[test]
fn const_is_one_keyword_token() {
    let toks = all_tokens("const");
    assert_eq!(toks.len(), 1);
    assert_eq!(toks[0].0, Token::ConstKeyword);
    assert_eq!(toks[0].1, "const");
}

#[test]
fn constant_is_one_identifier_token() {
    let toks = all_tokens("constant");
    assert_eq!(toks.len(), 1);
    assert_eq!(toks[0].0, Token::IdentifierName);
    assert_eq!(toks[0].1, "constant");
}

#[test]
fn all_keywords_recognized() {
    let toks = all_tokens("const let var import other");
    let kinds: Vec<Token> = toks.iter().map(|t| t.0).collect();
    assert_eq!(
        kinds,
        vec![
            Token::ConstKeyword,
            Token::LetKeyword,
            Token::VarKeyword,
            Token::ImportKeyword,
            Token::IdentifierName,
        ]
    );
}

#[test]
fn unsigned_right_shift_assignment_longest_match() {
    let toks = all_tokens(">>>=");
    assert_eq!(toks.len(), 1);
    assert_eq!(toks[0].0, Token::UnsignedRightShiftAssignment);
    assert_eq!(toks[0].1, ">>>=");
}

#[test]
fn right_shift_assignment_longest_match() {
    let toks = all_tokens(">>=");
    assert_eq!(toks.len(), 1);
    assert_eq!(toks[0].0, Token::RightShiftAssignment);
    assert_eq!(toks[0].1, ">>=");
}

#[test]
fn right_shift_longest_match() {
    let toks = all_tokens(">>");
    assert_eq!(toks.len(), 1);
    assert_eq!(toks[0].0, Token::RightShift);
    assert_eq!(toks[0].1, ">>");
}

#[test]
fn unsigned_right_shift_consumes_no_more() {
    let toks = all_tokens(">>> =");
    assert_eq!(toks.len(), 2);
    assert_eq!(toks[0].0, Token::UnsignedRightShift);
    assert_eq!(toks[0].1, ">>>");
    assert_eq!(toks[1].0, Token::Assignment);
}

#[test]
fn bare_greater_than_quirk() {
    // The long-standing quirk: a bare `>` comes out as the
    // right-square-bracket token kind.
    let toks = all_tokens(">");
    assert_eq!(toks.len(), 1);
    assert_eq!(toks[0].0, Token::RightSquareBracket);
    assert_eq!(toks[0].1, ">");
}

#[test]
fn string_literal_with_escaped_quote() {
    let toks = all_tokens("\"a\\\"b\"");
    assert_eq!(toks.len(), 1);
    assert_eq!(toks[0].0, Token::StringLiteral);
    assert_eq!(toks[0].1, "\"a\\\"b\"");
}

#[test]
fn single_quote_string_literal() {
    let toks = all_tokens("'hi there'");
    assert_eq!(toks.len(), 1);
    assert_eq!(toks[0].0, Token::StringLiteral);
    assert_eq!(toks[0].1, "'hi there'");
}

#[test]
fn empty_string_literal() {
    let toks = all_tokens("\"\"");
    assert_eq!(toks.len(), 1);
    assert_eq!(toks[0].0, Token::StringLiteral);
    assert_eq!(toks[0].1, "\"\"");
}

#[test]
fn unterminated_string_literal_extends_to_end() {
    let toks = all_tokens("\"abc");
    assert_eq!(toks.len(), 1);
    assert_eq!(toks[0].0, Token::StringLiteral);
    assert_eq!(toks[0].1, "\"abc");
}

#[test]
fn numeric_literal_with_separators() {
    let toks = all_tokens("1_000");
    assert_eq!(toks.len(), 1);
    assert_eq!(toks[0].0, Token::NumericLiteral);
    assert_eq!(toks[0].1, "1_000");
}

#[test]
fn comment_runs_to_newline() {
    let toks = all_tokens("// hi\nlet");
    assert_eq!(toks.len(), 2);
    assert_eq!(toks[0].0, Token::SingleLineComment);
    assert_eq!(toks[0].1, "// hi");
    assert_eq!(toks[1].0, Token::LetKeyword);
}

#[test]
fn comment_at_end_of_input() {
    let toks = all_tokens("//hi");
    assert_eq!(toks.len(), 1);
    assert_eq!(toks[0].0, Token::SingleLineComment);
    assert_eq!(toks[0].1, "//hi");
}

#[test]
fn assorted_operators_longest_match() {
    let toks = all_tokens("&&= ?. ... => === **= ??=");
    let kinds: Vec<Token> = toks.iter().map(|t| t.0).collect();
    assert_eq!(
        kinds,
        vec![
            Token::LogicalAndAssignment,
            Token::OptionalChaining,
            Token::Spread,
            Token::Arrow,
            Token::StrictEquality,
            Token::ExponentationAssignment,
            Token::LogicalNullishAssignment,
        ]
    );
}

#[test]
fn two_dots_are_two_tokens() {
    let toks = all_tokens("..");
    assert_eq!(toks.len(), 2);
    assert_eq!(toks[0].0, Token::Dot);
    assert_eq!(toks[1].0, Token::Dot);
}

#[test]
fn slices_reconstruct_input_without_whitespace() {
    let source = "let x=\"a b\"//tail";
    let joined: String = all_tokens(source).iter().map(|t| t.1.clone()).collect();
    // The only whitespace outside a token is the blank after `let`, so the
    // concatenated slices restore everything but that blank; whitespace
    // inside the string literal is kept.
    assert_eq!(joined, "letx=\"a b\"//tail");
}

#[test]
fn each_slice_matches_consumed_text() {
    let source = "import {a} from \"m\"";
    let toks = all_tokens(source);
    let expected = vec![
        (Token::ImportKeyword, "import"),
        (Token::LeftBrace, "{"),
        (Token::IdentifierName, "a"),
        (Token::RightBrace, "}"),
        (Token::IdentifierName, "from"),
        (Token::StringLiteral, "\"m\""),
    ];
    assert_eq!(toks.len(), expected.len());
    for (got, want) in toks.iter().zip(expected.iter()) {
        assert_eq!(got.0, want.0);
        assert_eq!(got.1, want.1);
    }
}

#[test]
fn whitespace_only_input_has_no_tokens() {
    let mut tokenizer = Tokenizer::new(chars_of(" \t\r\n "));
    assert_eq!(tokenizer.next_token(), Ok(None));
}

#[test]
fn empty_input_has_no_tokens() {
    let mut tokenizer = Tokenizer::new(Vec::new());
    assert_eq!(tokenizer.next_token(), Ok(None));
}

#[test]
fn unrecognized_character_is_a_lexical_error() {
    let mut tokenizer = Tokenizer::new(chars_of("  #"));
    assert_eq!(tokenizer.next_token(), Err(LexError { character: '#' }));
}

#[test]
fn punctuation_single_characters() {
    let toks = all_tokens("( ) [ ] { } ; : , ~ ^ % ?");
    let kinds: Vec<Token> = toks.iter().map(|t| t.0).collect();
    assert_eq!(
        kinds,
        vec![
            Token::LeftParenthesis,
            Token::RightParenthesis,
            Token::LeftSquareBracket,
            Token::RightSquareBracket,
            Token::LeftBrace,
            Token::RightBrace,
            Token::Semicolon,
            Token::Colon,
            Token::Comma,
            Token::Tilde,
            Token::Caret,
            Token::Percent,
            Token::QuestionMark,
        ]
    );
}

#[test]
fn position_reports_line_and_column() {
    let mut tokenizer = Tokenizer::new(chars_of("let\n  x"));
    assert_eq!(tokenizer.next_token(), Ok(Some(Token::LetKeyword)));
    assert_eq!(tokenizer.position(), (0, 0));
    assert_eq!(tokenizer.next_token(), Ok(Some(Token::IdentifierName)));
    assert_eq!(tokenizer.position(), (1, 2));
}
