//! The tokenizer.
//!
//! The tokenizer turns a sequence of Unicode scalar values into a stream of
//! classified tokens, one token per call. Each call first skips whitespace,
//! then consumes the longest sequence of characters that still forms one
//! token (maximal munch). The exact text consumed for the most recent token
//! is available through [`Tokenizer::slice`] until the next token is
//! requested.
//!
//! The whole behaviour of one tokenization step is captured by the spec
//! function [`next_token_spec`], and every scanning routine is verified
//! against it.

use vstd::prelude::*;
use vstd::string::StringExecFns;

use crate::chars::{is_alphabetic_char, is_numeric_char, is_whitespace_char};
use crate::chars::{char_is_alphabetic, char_is_alphanumeric, char_is_numeric, char_is_whitespace};
use crate::chars::push_char;

verus! {

/// ECMAScript token enumeration.
#[derive(Clone, Copy, Debug, PartialEq, Eq, Structural)]
pub enum Token {
    AdditionAssignment,           // +=
    Ampersand,                    // &
    Arrow,                        // =>
    Assignment,                   // =
    Asterisk,                     // *
    BitwiseAndAssignment,         // &=
    BitwiseOrAssignment,          // |=
    BitwiseXorAssignment,         // ^=
    Caret,                        // ^
    Colon,                        // :
    Comma,                        // ,
    ConstKeyword,                 // const
    Decrement,                    // --
    DivisonAssignment,            // /=
    Dot,                          // .
    Equality,                     // ==
    ExclamationMark,              // !
    Exponentation,                // **
    ExponentationAssignment,      // **=
    GreaterThanOrEqual,           // >=
    IdentifierName,               // Identifier.
    ImportKeyword,                // import
    Increment,                    // ++
    Inequality,                   // !=
    LeftAngleBracket,             // <
    LeftBrace,                    // {
    LeftParenthesis,              // (
    LeftShift,                    // <<
    LeftShiftAssignment,          // <<=
    LeftSquareBracket,            // [
    LessThanOrEqual,              // <=
    LetKeyword,                   // let
    LogicalAnd,                   // &&
    LogicalAndAssignment,         // &&=
    LogicalNullishAssignment,     // ??=
    LogicalOr,                    // ||
    LogicalOrAssignment,          // ||=
    Minus,                        // -
    MultiLineComment,             // /* [...] */
    MultiplicationAssignment,     // *=
    NullishCoalescingOperator,    // ??
    NumericLiteral,               // Numeric literal
    OptionalChaining,             // ?.
    Percent,                      // %
    Pipe,                         // |
    Plus,                         // +
    QuestionMark,                 // ?
    RemainderAssignment,          // %=
    RightAngleBracket,            // >
    RightBrace,                   // }
    RightParenthesis,             // )
    RightShift,                   // >>
    RightShiftAssignment,         // >>=
    RightSquareBracket,           // ]
    Semicolon,                    // ;
    SingleLineComment,            // // [...]
    Slash,                        // /
    Spread,                       // ...
    StrictEquality,               // ===
    StrictInequality,             // !==
    StringLiteral,                // String literal. For example, "hello, world"
    SubtractionAssignment,        // -=
    TemplateLiteral,              // Template literal. For example: `hello, world`
    Tilde,                        // ~
    UnsignedRightShift,           // >>>
    UnsignedRightShiftAssignment, // >>>=
    VarKeyword,                   // var
}


/// The name of a token kind, as the diagnostic messages spell it.
pub open spec fn token_name_spec(t: Token) -> Seq<char> {
    match t {
        Token::AdditionAssignment => "AdditionAssignment"@,
        Token::Ampersand => "Ampersand"@,
        Token::Arrow => "Arrow"@,
        Token::Assignment => "Assignment"@,
        Token::Asterisk => "Asterisk"@,
        Token::BitwiseAndAssignment => "BitwiseAndAssignment"@,
        Token::BitwiseOrAssignment => "BitwiseOrAssignment"@,
        Token::BitwiseXorAssignment => "BitwiseXorAssignment"@,
        Token::Caret => "Caret"@,
        Token::Colon => "Colon"@,
        Token::Comma => "Comma"@,
        Token::ConstKeyword => "ConstKeyword"@,
        Token::Decrement => "Decrement"@,
        Token::DivisonAssignment => "DivisonAssignment"@,
        Token::Dot => "Dot"@,
        Token::Equality => "Equality"@,
        Token::ExclamationMark => "ExclamationMark"@,
        Token::Exponentation => "Exponentation"@,
        Token::ExponentationAssignment => "ExponentationAssignment"@,
        Token::GreaterThanOrEqual => "GreaterThanOrEqual"@,
        Token::IdentifierName => "IdentifierName"@,
        Token::ImportKeyword => "ImportKeyword"@,
        Token::Increment => "Increment"@,
        Token::Inequality => "Inequality"@,
        Token::LeftAngleBracket => "LeftAngleBracket"@,
        Token::LeftBrace => "LeftBrace"@,
        Token::LeftParenthesis => "LeftParenthesis"@,
        Token::LeftShift => "LeftShift"@,
        Token::LeftShiftAssignment => "LeftShiftAssignment"@,
        Token::LeftSquareBracket => "LeftSquareBracket"@,
        Token::LessThanOrEqual => "LessThanOrEqual"@,
        Token::LetKeyword => "LetKeyword"@,
        Token::LogicalAnd => "LogicalAnd"@,
        Token::LogicalAndAssignment => "LogicalAndAssignment"@,
        Token::LogicalNullishAssignment => "LogicalNullishAssignment"@,
        Token::LogicalOr => "LogicalOr"@,
        Token::LogicalOrAssignment => "LogicalOrAssignment"@,
        Token::Minus => "Minus"@,
        Token::MultiLineComment => "MultiLineComment"@,
        Token::MultiplicationAssignment => "MultiplicationAssignment"@,
        Token::NullishCoalescingOperator => "NullishCoalescingOperator"@,
        Token::NumericLiteral => "NumericLiteral"@,
        Token::OptionalChaining => "OptionalChaining"@,
        Token::Percent => "Percent"@,
        Token::Pipe => "Pipe"@,
        Token::Plus => "Plus"@,
        Token::QuestionMark => "QuestionMark"@,
        Token::RemainderAssignment => "RemainderAssignment"@,
        Token::RightAngleBracket => "RightAngleBracket"@,
        Token::RightBrace => "RightBrace"@,
        Token::RightParenthesis => "RightParenthesis"@,
        Token::RightShift => "RightShift"@,
        Token::RightShiftAssignment => "RightShiftAssignment"@,
        Token::RightSquareBracket => "RightSquareBracket"@,
        Token::Semicolon => "Semicolon"@,
        Token::SingleLineComment => "SingleLineComment"@,
        Token::Slash => "Slash"@,
        Token::Spread => "Spread"@,
        Token::StrictEquality => "StrictEquality"@,
        Token::StrictInequality => "StrictInequality"@,
        Token::StringLiteral => "StringLiteral"@,
        Token::SubtractionAssignment => "SubtractionAssignment"@,
        Token::TemplateLiteral => "TemplateLiteral"@,
        Token::Tilde => "Tilde"@,
        Token::UnsignedRightShift => "UnsignedRightShift"@,
        Token::UnsignedRightShiftAssignment => "UnsignedRightShiftAssignment"@,
        Token::VarKeyword => "VarKeyword"@,
    }
}

/// Returns the name of a token kind for diagnostic messages.
pub(crate) fn token_name(t: Token) -> (r: String)
    ensures
        r@ == token_name_spec(t),
{
    match t {
        Token::AdditionAssignment => String::from_str("AdditionAssignment"),
        Token::Ampersand => String::from_str("Ampersand"),
        Token::Arrow => String::from_str("Arrow"),
        Token::Assignment => String::from_str("Assignment"),
        Token::Asterisk => String::from_str("Asterisk"),
        Token::BitwiseAndAssignment => String::from_str("BitwiseAndAssignment"),
        Token::BitwiseOrAssignment => String::from_str("BitwiseOrAssignment"),
        Token::BitwiseXorAssignment => String::from_str("BitwiseXorAssignment"),
        Token::Caret => String::from_str("Caret"),
        Token::Colon => String::from_str("Colon"),
        Token::Comma => String::from_str("Comma"),
        Token::ConstKeyword => String::from_str("ConstKeyword"),
        Token::Decrement => String::from_str("Decrement"),
        Token::DivisonAssignment => String::from_str("DivisonAssignment"),
        Token::Dot => String::from_str("Dot"),
        Token::Equality => String::from_str("Equality"),
        Token::ExclamationMark => String::from_str("ExclamationMark"),
        Token::Exponentation => String::from_str("Exponentation"),
        Token::ExponentationAssignment => String::from_str("ExponentationAssignment"),
        Token::GreaterThanOrEqual => String::from_str("GreaterThanOrEqual"),
        Token::IdentifierName => String::from_str("IdentifierName"),
        Token::ImportKeyword => String::from_str("ImportKeyword"),
        Token::Increment => String::from_str("Increment"),
        Token::Inequality => String::from_str("Inequality"),
        Token::LeftAngleBracket => String::from_str("LeftAngleBracket"),
        Token::LeftBrace => String::from_str("LeftBrace"),
        Token::LeftParenthesis => String::from_str("LeftParenthesis"),
        Token::LeftShift => String::from_str("LeftShift"),
        Token::LeftShiftAssignment => String::from_str("LeftShiftAssignment"),
        Token::LeftSquareBracket => String::from_str("LeftSquareBracket"),
        Token::LessThanOrEqual => String::from_str("LessThanOrEqual"),
        Token::LetKeyword => String::from_str("LetKeyword"),
        Token::LogicalAnd => String::from_str("LogicalAnd"),
        Token::LogicalAndAssignment => String::from_str("LogicalAndAssignment"),
        Token::LogicalNullishAssignment => String::from_str("LogicalNullishAssignment"),
        Token::LogicalOr => String::from_str("LogicalOr"),
        Token::LogicalOrAssignment => String::from_str("LogicalOrAssignment"),
        Token::Minus => String::from_str("Minus"),
        Token::MultiLineComment => String::from_str("MultiLineComment"),
        Token::MultiplicationAssignment => String::from_str("MultiplicationAssignment"),
        Token::NullishCoalescingOperator => String::from_str("NullishCoalescingOperator"),
        Token::NumericLiteral => String::from_str("NumericLiteral"),
        Token::OptionalChaining => String::from_str("OptionalChaining"),
        Token::Percent => String::from_str("Percent"),
        Token::Pipe => String::from_str("Pipe"),
        Token::Plus => String::from_str("Plus"),
        Token::QuestionMark => String::from_str("QuestionMark"),
        Token::RemainderAssignment => String::from_str("RemainderAssignment"),
        Token::RightAngleBracket => String::from_str("RightAngleBracket"),
        Token::RightBrace => String::from_str("RightBrace"),
        Token::RightParenthesis => String::from_str("RightParenthesis"),
        Token::RightShift => String::from_str("RightShift"),
        Token::RightShiftAssignment => String::from_str("RightShiftAssignment"),
        Token::RightSquareBracket => String::from_str("RightSquareBracket"),
        Token::Semicolon => String::from_str("Semicolon"),
        Token::SingleLineComment => String::from_str("SingleLineComment"),
        Token::Slash => String::from_str("Slash"),
        Token::Spread => String::from_str("Spread"),
        Token::StrictEquality => String::from_str("StrictEquality"),
        Token::StrictInequality => String::from_str("StrictInequality"),
        Token::StringLiteral => String::from_str("StringLiteral"),
        Token::SubtractionAssignment => String::from_str("SubtractionAssignment"),
        Token::TemplateLiteral => String::from_str("TemplateLiteral"),
        Token::Tilde => String::from_str("Tilde"),
        Token::UnsignedRightShift => String::from_str("UnsignedRightShift"),
        Token::UnsignedRightShiftAssignment => String::from_str("UnsignedRightShiftAssignment"),
        Token::VarKeyword => String::from_str("VarKeyword"),
    }
}

/// A lexical error: the source holds a character that starts no token.
#[derive(Clone, Copy, Debug, PartialEq, Eq, Structural)]
pub struct LexError {
    /// The character that no token starts with.
    pub character: char,
}

/// The outcome of one tokenization step, starting at a given position:
/// either only whitespace remains, or the leading significant character
/// starts no token, or one token is consumed.
pub enum Step {
    /// Only whitespace remains before the end of the input.
    Eof,
    /// The character at the given position starts no token.
    Unrecognized(char, int),
    /// A token, the position of its first character, and the position one
    /// past its last character.
    Tok(Token, int, int),
}

/// Whether a character continues an identifier: alphanumeric or `_`.
pub open spec fn is_ident_continue(c: char) -> bool {
    is_alphabetic_char(c) || is_numeric_char(c) || c == '_'
}

/// Whether a character continues a numeric literal: numeric or `_`.
pub open spec fn is_numeric_continue(c: char) -> bool {
    is_numeric_char(c) || c == '_'
}

/// The first position at or after `i` holding a non-whitespace character, or
/// the length of the input if there is none.
pub open spec fn skip_ws(s: Seq<char>, i: int) -> int
    decreases s.len() - i,
{
    if 0 <= i < s.len() && is_whitespace_char(s[i]) {
        skip_ws(s, i + 1)
    } else {
        i
    }
}

/// The end of an identifier whose continuation begins at `i`: the first
/// position at or after `i` that does not continue an identifier.
pub open spec fn ident_end(s: Seq<char>, i: int) -> int
    decreases s.len() - i,
{
    if 0 <= i < s.len() && is_ident_continue(s[i]) {
        ident_end(s, i + 1)
    } else {
        i
    }
}

/// The end of a numeric literal whose continuation begins at `i`.
pub open spec fn numeric_end(s: Seq<char>, i: int) -> int
    decreases s.len() - i,
{
    if 0 <= i < s.len() && is_numeric_continue(s[i]) {
        numeric_end(s, i + 1)
    } else {
        i
    }
}

/// The position one past the closing quote of a string literal, scanning
/// from `i` with `prev` the character before `i`. A quote counts as closing
/// only when the character before it is not `\`. An unterminated literal
/// extends to the end of the input.
pub open spec fn string_end(s: Seq<char>, quote: char, prev: char, i: int) -> int
    decreases s.len() - i,
{
    if 0 <= i < s.len() {
        if prev != '\\' && s[i] == quote {
            i + 1
        } else {
            string_end(s, quote, s[i], i + 1)
        }
    } else {
        i
    }
}

/// The end of a single-line comment scanned from `i`: the position of the
/// terminating newline (which is not part of the comment), or the length of
/// the input.
pub open spec fn comment_end(s: Seq<char>, i: int) -> int
    decreases s.len() - i,
{
    if 0 <= i < s.len() && s[i] != '\n' {
        comment_end(s, i + 1)
    } else {
        i
    }
}

/// The characters of the keyword `const`.
pub open spec fn kw_const() -> Seq<char> {
    seq!['c', 'o', 'n', 's', 't']
}

/// The characters of the keyword `import`.
pub open spec fn kw_import() -> Seq<char> {
    seq!['i', 'm', 'p', 'o', 'r', 't']
}

/// The characters of the keyword `let`.
pub open spec fn kw_let() -> Seq<char> {
    seq!['l', 'e', 't']
}

/// The characters of the keyword `var`.
pub open spec fn kw_var() -> Seq<char> {
    seq!['v', 'a', 'r']
}

/// The characters of the word `from`, which introduces a module specifier.
pub open spec fn kw_from() -> Seq<char> {
    seq!['f', 'r', 'o', 'm']
}

/// The classification of a maximal-munch identifier: one of the fixed
/// keywords, or an identifier name.
pub open spec fn ident_token(sl: Seq<char>) -> Token {
    if sl == kw_const() {
        Token::ConstKeyword
    } else if sl == kw_import() {
        Token::ImportKeyword
    } else if sl == kw_let() {
        Token::LetKeyword
    } else if sl == kw_var() {
        Token::VarKeyword
    } else {
        Token::IdentifierName
    }
}

/// The character at position `j`, if `j` is within the input.
pub open spec fn ch_at(s: Seq<char>, j: int) -> Option<char> {
    if 0 <= j < s.len() {
        Some(s[j])
    } else {
        None
    }
}

/// One token step starting exactly at position `i`, where the character at
/// `i` is significant and not alphabetic or numeric: string literals,
/// comments, and the greedy longest-match punctuation and operator forms.
pub open spec fn punct_step(s: Seq<char>, i: int) -> Step {
    let c = s[i];
    if c == '!' {
        if ch_at(s, i + 1) == Some('=') {
            if ch_at(s, i + 2) == Some('=') {
                Step::Tok(Token::StrictInequality, i, i + 3)
            } else {
                Step::Tok(Token::Inequality, i, i + 2)
            }
        } else {
            Step::Tok(Token::ExclamationMark, i, i + 1)
        }
    } else if c == '"' {
        Step::Tok(Token::StringLiteral, i, string_end(s, '"', '"', i + 1))
    } else if c == '%' {
        if ch_at(s, i + 1) == Some('=') {
            Step::Tok(Token::RemainderAssignment, i, i + 2)
        } else {
            Step::Tok(Token::Percent, i, i + 1)
        }
    } else if c == '&' {
        if ch_at(s, i + 1) == Some('&') {
            if ch_at(s, i + 2) == Some('=') {
                Step::Tok(Token::LogicalAndAssignment, i, i + 3)
            } else {
                Step::Tok(Token::LogicalAnd, i, i + 2)
            }
        } else if ch_at(s, i + 1) == Some('=') {
            Step::Tok(Token::BitwiseAndAssignment, i, i + 2)
        } else {
            Step::Tok(Token::Ampersand, i, i + 1)
        }
    } else if c == '\'' {
        Step::Tok(Token::StringLiteral, i, string_end(s, '\'', '\'', i + 1))
    } else if c == '(' {
        Step::Tok(Token::LeftParenthesis, i, i + 1)
    } else if c == ')' {
        Step::Tok(Token::RightParenthesis, i, i + 1)
    } else if c == '*' {
        if ch_at(s, i + 1) == Some('*') {
            if ch_at(s, i + 2) == Some('=') {
                Step::Tok(Token::ExponentationAssignment, i, i + 3)
            } else {
                Step::Tok(Token::Exponentation, i, i + 2)
            }
        } else if ch_at(s, i + 1) == Some('=') {
            Step::Tok(Token::MultiplicationAssignment, i, i + 2)
        } else {
            Step::Tok(Token::Asterisk, i, i + 1)
        }
    } else if c == '+' {
        if ch_at(s, i + 1) == Some('+') {
            Step::Tok(Token::Increment, i, i + 2)
        } else if ch_at(s, i + 1) == Some('=') {
            Step::Tok(Token::AdditionAssignment, i, i + 2)
        } else {
            Step::Tok(Token::Plus, i, i + 1)
        }
    } else if c == ',' {
        Step::Tok(Token::Comma, i, i + 1)
    } else if c == '-' {
        if ch_at(s, i + 1) == Some('-') {
            Step::Tok(Token::Decrement, i, i + 2)
        } else if ch_at(s, i + 1) == Some('=') {
            Step::Tok(Token::SubtractionAssignment, i, i + 2)
        } else {
            Step::Tok(Token::Minus, i, i + 1)
        }
    } else if c == '.' {
        if ch_at(s, i + 1) == Some('.') && ch_at(s, i + 2) == Some('.') {
            Step::Tok(Token::Spread, i, i + 3)
        } else {
            Step::Tok(Token::Dot, i, i + 1)
        }
    } else if c == '/' {
        if ch_at(s, i + 1) == Some('/') {
            Step::Tok(Token::SingleLineComment, i, comment_end(s, i + 2))
        } else if ch_at(s, i + 1) == Some('=') {
            Step::Tok(Token::DivisonAssignment, i, i + 2)
        } else {
            Step::Tok(Token::Slash, i, i + 1)
        }
    } else if c == ':' {
        Step::Tok(Token::Colon, i, i + 1)
    } else if c == ';' {
        Step::Tok(Token::Semicolon, i, i + 1)
    } else if c == '<' {
        if ch_at(s, i + 1) == Some('<') {
            if ch_at(s, i + 2) == Some('=') {
                Step::Tok(Token::LeftShiftAssignment, i, i + 3)
            } else {
                Step::Tok(Token::LeftShift, i, i + 2)
            }
        } else if ch_at(s, i + 1) == Some('=') {
            Step::Tok(Token::LessThanOrEqual, i, i + 2)
        } else {
            Step::Tok(Token::LeftAngleBracket, i, i + 1)
        }
    } else if c == '=' {
        if ch_at(s, i + 1) == Some('=') {
            if ch_at(s, i + 2) == Some('=') {
                Step::Tok(Token::StrictEquality, i, i + 3)
            } else {
                Step::Tok(Token::Equality, i, i + 2)
            }
        } else if ch_at(s, i + 1) == Some('>') {
            Step::Tok(Token::Arrow, i, i + 2)
        } else {
            Step::Tok(Token::Assignment, i, i + 1)
        }
    } else if c == '>' {
        if ch_at(s, i + 1) == Some('=') {
            Step::Tok(Token::GreaterThanOrEqual, i, i + 2)
        } else if ch_at(s, i + 1) == Some('>') {
            if ch_at(s, i + 2) == Some('=') {
                Step::Tok(Token::RightShiftAssignment, i, i + 3)
            } else if ch_at(s, i + 2) == Some('>') {
                if ch_at(s, i + 3) == Some('=') {
                    Step::Tok(Token::UnsignedRightShiftAssignment, i, i + 4)
                } else {
                    Step::Tok(Token::UnsignedRightShift, i, i + 3)
                }
            } else {
                Step::Tok(Token::RightShift, i, i + 2)
            }
        } else {
            // A bare `>` is reported as a right-square-bracket token. This is
            // a long-standing quirk of the grammar, kept deliberately so that
            // existing consumers of the token stream see the same stream.
            Step::Tok(Token::RightSquareBracket, i, i + 1)
        }
    } else if c == '}' {
        Step::Tok(Token::RightBrace, i, i + 1)
    } else if c == '?' {
        if ch_at(s, i + 1) == Some('?') {
            if ch_at(s, i + 2) == Some('=') {
                Step::Tok(Token::LogicalNullishAssignment, i, i + 3)
            } else {
                Step::Tok(Token::NullishCoalescingOperator, i, i + 2)
            }
        } else if ch_at(s, i + 1) == Some('.') {
            Step::Tok(Token::OptionalChaining, i, i + 2)
        } else {
            Step::Tok(Token::QuestionMark, i, i + 1)
        }
    } else if c == '[' {
        Step::Tok(Token::LeftSquareBracket, i, i + 1)
    } else if c == ']' {
        Step::Tok(Token::RightSquareBracket, i, i + 1)
    } else if c == '^' {
        if ch_at(s, i + 1) == Some('=') {
            Step::Tok(Token::BitwiseXorAssignment, i, i + 2)
        } else {
            Step::Tok(Token::Caret, i, i + 1)
        }
    } else if c == '{' {
        Step::Tok(Token::LeftBrace, i, i + 1)
    } else if c == '|' {
        if ch_at(s, i + 1) == Some('|') {
            if ch_at(s, i + 2) == Some('=') {
                Step::Tok(Token::LogicalOrAssignment, i, i + 3)
            } else {
                Step::Tok(Token::LogicalOr, i, i + 2)
            }
        } else if ch_at(s, i + 1) == Some('=') {
            Step::Tok(Token::BitwiseOrAssignment, i, i + 2)
        } else {
            Step::Tok(Token::Pipe, i, i + 1)
        }
    } else if c == '~' {
        Step::Tok(Token::Tilde, i, i + 1)
    } else {
        Step::Unrecognized(c, i)
    }
}

/// One full tokenization step from position `pos`: skip whitespace, then
/// classify by the first significant character. Alphabetic characters start
/// identifiers and keywords, numeric characters start numeric literals, and
/// everything else is a string literal, a comment, punctuation, or an
/// unrecognized character.
pub open spec fn next_token_spec(s: Seq<char>, pos: int) -> Step {
    let i = skip_ws(s, pos);
    if i >= s.len() {
        Step::Eof
    } else if is_alphabetic_char(s[i]) {
        Step::Tok(ident_token(s.subrange(i, ident_end(s, i + 1))), i, ident_end(s, i + 1))
    } else if is_numeric_char(s[i]) {
        Step::Tok(Token::NumericLiteral, i, numeric_end(s, i + 1))
    } else {
        punct_step(s, i)
    }
}

/// Whitespace skipping never moves backwards, stops within the input, stops
/// only on a non-whitespace character, and skips only whitespace.
pub proof fn lemma_skip_ws(s: Seq<char>, i: int)
    requires
        0 <= i <= s.len(),
    ensures
        i <= skip_ws(s, i) <= s.len(),
        skip_ws(s, i) < s.len() ==> !is_whitespace_char(s[skip_ws(s, i)]),
        forall|k: int| i <= k < skip_ws(s, i) ==> is_whitespace_char(s[k]),
    decreases s.len() - i,
{
    if i < s.len() && is_whitespace_char(s[i]) {
        lemma_skip_ws(s, i + 1);
    }
}

/// The end of an identifier lies between its start and the end of the input.
pub proof fn lemma_ident_end(s: Seq<char>, i: int)
    requires
        0 <= i <= s.len(),
    ensures
        i <= ident_end(s, i) <= s.len(),
    decreases s.len() - i,
{
    if i < s.len() && is_ident_continue(s[i]) {
        lemma_ident_end(s, i + 1);
    }
}

/// The end of a numeric literal lies between its start and the end of the
/// input.
pub proof fn lemma_numeric_end(s: Seq<char>, i: int)
    requires
        0 <= i <= s.len(),
    ensures
        i <= numeric_end(s, i) <= s.len(),
    decreases s.len() - i,
{
    if i < s.len() && is_numeric_continue(s[i]) {
        lemma_numeric_end(s, i + 1);
    }
}

/// The end of a string literal lies between its scan position and the end of
/// the input.
pub proof fn lemma_string_end(s: Seq<char>, quote: char, prev: char, i: int)
    requires
        0 <= i <= s.len(),
    ensures
        i <= string_end(s, quote, prev, i) <= s.len(),
    decreases s.len() - i,
{
    if i < s.len() && !(prev != '\\' && s[i] == quote) {
        lemma_string_end(s, quote, s[i], i + 1);
    }
}

/// The end of a single-line comment lies between its scan position and the
/// end of the input.
pub proof fn lemma_comment_end(s: Seq<char>, i: int)
    requires
        0 <= i <= s.len(),
    ensures
        i <= comment_end(s, i) <= s.len(),
    decreases s.len() - i,
{
    if i < s.len() && s[i] != '\n' {
        lemma_comment_end(s, i + 1);
    }
}

/// A punctuation step starting at `i` consumes at least one character and
/// stays within the input; an unrecognized character is reported at `i`.
pub proof fn lemma_punct_step_bounds(s: Seq<char>, i: int)
    requires
        0 <= i < s.len(),
    ensures
        match punct_step(s, i) {
            Step::Eof => false,
            Step::Unrecognized(c, j) => j == i && c == s[i],
            Step::Tok(t, start, end) => start == i && i < end <= s.len(),
        },
{
    if s[i] == '"' {
        lemma_string_end(s, '"', '"', i + 1);
    } else if s[i] == '\'' {
        lemma_string_end(s, '\'', '\'', i + 1);
    } else if s[i] == '/' && ch_at(s, i + 1) == Some('/') {
        lemma_comment_end(s, i + 2);
    }
}

/// One tokenization step never moves backwards: a token starts at the first
/// significant character, ends within the input after at least one consumed
/// character, and everything between the starting position and the token is
/// whitespace.
pub proof fn lemma_next_token_spec_bounds(s: Seq<char>, pos: int)
    requires
        0 <= pos <= s.len(),
    ensures
        match next_token_spec(s, pos) {
            Step::Eof => true,
            Step::Unrecognized(c, i) => pos <= i < s.len() && c == s[i] && i == skip_ws(s, pos),
            Step::Tok(t, start, end) => {
                &&& pos <= start < end <= s.len()
                &&& start == skip_ws(s, pos)
                &&& forall|k: int| pos <= k < start ==> is_whitespace_char(s[k])
            },
        },
{
    lemma_skip_ws(s, pos);
    let i = skip_ws(s, pos);
    if i < s.len() {
        if is_alphabetic_char(s[i]) {
            lemma_ident_end(s, i + 1);
        } else if is_numeric_char(s[i]) {
            lemma_numeric_end(s, i + 1);
        } else {
            lemma_punct_step_bounds(s, i);
        }
    }
}

/// Law: slice fidelity. One tokenization step consumes whitespace and then
/// exactly the token's slice: the substring consumed from the starting
/// position is the skipped whitespace followed by the reported slice. So
/// concatenating the slices of all tokens, with the whitespace between
/// tokens, restores the consumed input exactly.
pub proof fn lemma_slice_fidelity(s: Seq<char>, pos: int)
    requires
        0 <= pos <= s.len(),
    ensures
        match next_token_spec(s, pos) {
            Step::Tok(t, start, end) => {
                &&& pos <= start < end <= s.len()
                &&& s.subrange(pos, end) == s.subrange(pos, start) + s.subrange(start, end)
                &&& forall|k: int| pos <= k < start ==> is_whitespace_char(s[k])
            },
            _ => true,
        },
{
    lemma_next_token_spec_bounds(s, pos);
    match next_token_spec(s, pos) {
        Step::Tok(t, start, end) => {
            assert(s.subrange(pos, end) =~= s.subrange(pos, start) + s.subrange(start, end));
        },
        _ => {},
    }
}

/// The extents of all tokens from `pos` on: each produced token with the
/// position of its first character and the position one past its last, in
/// order, or nothing when a character that starts no token is met first.
pub open spec fn token_extents(s: Seq<char>, pos: int) -> Option<Seq<(Token, int, int)>>
    decreases s.len() - pos,
{
    match next_token_spec(s, pos) {
        Step::Eof => Some(Seq::empty()),
        Step::Unrecognized(c, i) => None,
        Step::Tok(t, st, end) => if !(pos < end <= s.len()) {
            arbitrary()
        } else {
            match token_extents(s, end) {
                Some(rest) => Some(seq![(t, st, end)] + rest),
                None => None,
            }
        },
    }
}

/// Token extents tile the input: each token lies after the previous one,
/// only whitespace stands before it, and only whitespace follows the last
/// one.
pub open spec fn extents_tile(s: Seq<char>, pos: int, toks: Seq<(Token, int, int)>) -> bool
    decreases toks.len(),
{
    if toks.len() == 0 {
        forall|k: int| pos <= k < s.len() ==> is_whitespace_char(s[k])
    } else {
        &&& pos <= toks[0].1 < toks[0].2 <= s.len()
        &&& (forall|k: int| pos <= k < toks[0].1 ==> is_whitespace_char(s[k]))
        &&& extents_tile(s, toks[0].2, toks.drop_first())
    }
}

/// The input rebuilt from token extents: the whitespace gap before each
/// token, then the token's exact slice, and the whitespace tail after the
/// last token.
pub open spec fn reconstruct(s: Seq<char>, pos: int, toks: Seq<(Token, int, int)>) -> Seq<char>
    decreases toks.len(),
{
    if toks.len() == 0 {
        s.subrange(pos, s.len() as int)
    } else {
        s.subrange(pos, toks[0].1) + s.subrange(toks[0].1, toks[0].2) + reconstruct(
            s,
            toks[0].2,
            toks.drop_first(),
        )
    }
}

/// Law: round trip. When the whole input tokenizes, the token extents tile
/// it, and the concatenation of each token's whitespace gap and exact slice,
/// with the trailing whitespace, rebuilds the input from the starting
/// position exactly.
pub proof fn lemma_tokenization_round_trip(s: Seq<char>, pos: int)
    requires
        0 <= pos <= s.len(),
    ensures
        match token_extents(s, pos) {
            Some(toks) => extents_tile(s, pos, toks) && s.subrange(pos, s.len() as int)
                == reconstruct(s, pos, toks),
            None => true,
        },
    decreases s.len() - pos,
{
    lemma_next_token_spec_bounds(s, pos);
    lemma_skip_ws(s, pos);
    match next_token_spec(s, pos) {
        Step::Eof => {
        },
        Step::Unrecognized(c, i) => {
        },
        Step::Tok(t, st, end) => {
            lemma_tokenization_round_trip(s, end);
            match token_extents(s, end) {
                Some(rest) => {
                    let toks = seq![(t, st, end)] + rest;
                    assert(toks.drop_first() =~= rest);
                    assert(s.subrange(pos, s.len() as int) =~= s.subrange(pos, st) + s.subrange(
                        st,
                        end,
                    ) + s.subrange(end, s.len() as int));
                },
                None => {
                },
            }
        },
    }
}

/// The number of line terminators among the first `i` characters: the
/// zero-based line on which position `i` stands.
pub open spec fn line_of(s: Seq<char>, i: int) -> int
    decreases i,
{
    if i <= 0 {
        0
    } else if 0 <= i - 1 < s.len() && s[i - 1] == '\n' {
        line_of(s, i - 1) + 1
    } else {
        line_of(s, i - 1)
    }
}

/// The number of characters between the last line terminator before position
/// `i` and `i` itself: the zero-based column of position `i`.
pub open spec fn column_of(s: Seq<char>, i: int) -> int
    decreases i,
{
    if i <= 0 {
        0
    } else if 0 <= i - 1 < s.len() && s[i - 1] == '\n' {
        0
    } else {
        column_of(s, i - 1) + 1
    }
}

/// The tokenizer: it owns the whole character sequence and advances through
/// it one token at a time. `tok_start .. tok_end` delimit the most recently
/// produced token, whose exact text [`Tokenizer::slice`] returns.
pub struct Tokenizer {
    /// The characters being tokenized.
    pub input: Vec<char>,
    /// The position of the next character not yet consumed.
    pub pos: usize,
    /// The position of the first character of the most recent token.
    pub tok_start: usize,
    /// The position one past the last character of the most recent token.
    pub tok_end: usize,
}

impl Tokenizer {
    /// The positions delimit the most recent token and lie within the input.
    pub open spec fn wf(self) -> bool {
        self.tok_start <= self.tok_end <= self.pos <= self.input@.len()
    }

    /// The exact text of the most recent token.
    pub open spec fn cur_slice(self) -> Seq<char> {
        self.input@.subrange(self.tok_start as int, self.tok_end as int)
    }

    /// What one call of [`Tokenizer::next_token`] does: the step that
    /// [`next_token_spec`] describes from the pre-state position, with the
    /// token's exact extent recorded for [`Tokenizer::slice`].
    pub open spec fn step_result(
        pre: Tokenizer,
        post: Tokenizer,
        r: Result<Option<Token>, LexError>,
    ) -> bool {
        &&& post.input == pre.input
        &&& match next_token_spec(pre.input@, pre.pos as int) {
            Step::Eof => {
                &&& r == Ok::<Option<Token>, LexError>(None)
                &&& post.pos == post.input@.len()
                &&& post.tok_start == post.pos
                &&& post.tok_end == post.pos
            },
            Step::Unrecognized(c, i) => {
                &&& r == Err::<Option<Token>, LexError>(LexError { character: c })
                &&& post.pos == i
                &&& post.tok_start == i
                &&& post.tok_end == i
            },
            Step::Tok(t, start, end) => {
                &&& r == Ok::<Option<Token>, LexError>(Some(t))
                &&& post.tok_start == start
                &&& post.tok_end == end
                &&& post.pos == end
            },
        }
    }

    /// Makes a tokenizer over the given characters, positioned at the start.
    pub fn new(input: Vec<char>) -> (t: Tokenizer)
        ensures
            t.wf(),
            t.input == input,
            t.pos == 0,
            t.tok_start == 0,
            t.tok_end == 0,
    {
        Tokenizer { input, pos: 0, tok_start: 0, tok_end: 0 }
    }

    /// Returns the next token in the token stream, `None` at the end of the
    /// input, or the offending character when no token starts with it.
    ///
    /// Whitespace between tokens is skipped.
    pub fn next_token(&mut self) -> (r: Result<Option<Token>, LexError>)
        requires
            old(self).wf(),
        ensures
            final(self).wf(),
            Self::step_result(*old(self), *final(self), r),
    {
        self.get_next_token()
    }

    fn get_next_token(&mut self) -> (r: Result<Option<Token>, LexError>)
        requires
            old(self).wf(),
        ensures
            final(self).wf(),
            Self::step_result(*old(self), *final(self), r),
    {
        let ghost inp = self.input;
        let ghost s = self.input@;
        let ghost p0 = self.pos as int;
        proof {
            lemma_skip_ws(s, p0);
        }
        loop
            invariant
                self.input == inp,
                inp@ == s,
                p0 <= self.pos <= s.len(),
                skip_ws(s, p0) == skip_ws(s, self.pos as int),
            ensures
                self.input == inp,
                self.pos == skip_ws(s, p0),
            decreases s.len() - self.pos,
        {
            if self.pos == self.input.len() {
                break;
            }
            let c = self.input[self.pos];
            if !char_is_whitespace(c) {
                break;
            }
            self.pos = self.pos + 1;
        }
        if self.pos == self.input.len() {
            self.tok_start = self.pos;
            self.tok_end = self.pos;
            return Ok(None);
        }
        let c = self.input[self.pos];
        if char_is_alphabetic(c) {
            return Ok(Some(self.consume_identifier()));
        }
        if char_is_numeric(c) {
            return Ok(Some(self.consume_numeric_literal()));
        }
        match c {
            '!' => {
                if self.peek_is(1, '=') {
                    if self.peek_is(2, '=') {
                        Ok(Some(self.take(Token::StrictInequality, 3)))
                    } else {
                        Ok(Some(self.take(Token::Inequality, 2)))
                    }
                } else {
                    Ok(Some(self.take(Token::ExclamationMark, 1)))
                }
            },
            '"' => Ok(Some(self.consume_double_quote_string_literal())),
            '%' => {
                if self.peek_is(1, '=') {
                    Ok(Some(self.take(Token::RemainderAssignment, 2)))
                } else {
                    Ok(Some(self.take(Token::Percent, 1)))
                }
            },
            '&' => {
                if self.peek_is(1, '&') {
                    if self.peek_is(2, '=') {
                        Ok(Some(self.take(Token::LogicalAndAssignment, 3)))
                    } else {
                        Ok(Some(self.take(Token::LogicalAnd, 2)))
                    }
                } else if self.peek_is(1, '=') {
                    Ok(Some(self.take(Token::BitwiseAndAssignment, 2)))
                } else {
                    Ok(Some(self.take(Token::Ampersand, 1)))
                }
            },
            '\'' => Ok(Some(self.consume_single_quote_string_literal())),
            '(' => Ok(Some(self.take(Token::LeftParenthesis, 1))),
            ')' => Ok(Some(self.take(Token::RightParenthesis, 1))),
            '*' => {
                if self.peek_is(1, '*') {
                    if self.peek_is(2, '=') {
                        Ok(Some(self.take(Token::ExponentationAssignment, 3)))
                    } else {
                        Ok(Some(self.take(Token::Exponentation, 2)))
                    }
                } else if self.peek_is(1, '=') {
                    Ok(Some(self.take(Token::MultiplicationAssignment, 2)))
                } else {
                    Ok(Some(self.take(Token::Asterisk, 1)))
                }
            },
            '+' => {
                if self.peek_is(1, '+') {
                    Ok(Some(self.take(Token::Increment, 2)))
                } else if self.peek_is(1, '=') {
                    Ok(Some(self.take(Token::AdditionAssignment, 2)))
                } else {
                    Ok(Some(self.take(Token::Plus, 1)))
                }
            },
            ',' => Ok(Some(self.take(Token::Comma, 1))),
            '-' => {
                if self.peek_is(1, '-') {
                    Ok(Some(self.take(Token::Decrement, 2)))
                } else if self.peek_is(1, '=') {
                    Ok(Some(self.take(Token::SubtractionAssignment, 2)))
                } else {
                    Ok(Some(self.take(Token::Minus, 1)))
                }
            },
            '.' => {
                if self.peek_is(1, '.') && self.peek_is(2, '.') {
                    Ok(Some(self.take(Token::Spread, 3)))
                } else {
                    Ok(Some(self.take(Token::Dot, 1)))
                }
            },
            '/' => {
                if self.peek_is(1, '/') {
                    Ok(Some(self.consume_single_line_comment()))
                } else if self.peek_is(1, '=') {
                    Ok(Some(self.take(Token::DivisonAssignment, 2)))
                } else {
                    Ok(Some(self.take(Token::Slash, 1)))
                }
            },
            ':' => Ok(Some(self.take(Token::Colon, 1))),
            ';' => Ok(Some(self.take(Token::Semicolon, 1))),
            '<' => {
                if self.peek_is(1, '<') {
                    if self.peek_is(2, '=') {
                        Ok(Some(self.take(Token::LeftShiftAssignment, 3)))
                    } else {
                        Ok(Some(self.take(Token::LeftShift, 2)))
                    }
                } else if self.peek_is(1, '=') {
                    Ok(Some(self.take(Token::LessThanOrEqual, 2)))
                } else {
                    Ok(Some(self.take(Token::LeftAngleBracket, 1)))
                }
            },
            '=' => {
                if self.peek_is(1, '=') {
                    if self.peek_is(2, '=') {
                        Ok(Some(self.take(Token::StrictEquality, 3)))
                    } else {
                        Ok(Some(self.take(Token::Equality, 2)))
                    }
                } else if self.peek_is(1, '>') {
                    Ok(Some(self.take(Token::Arrow, 2)))
                } else {
                    Ok(Some(self.take(Token::Assignment, 1)))
                }
            },
            '>' => {
                if self.peek_is(1, '=') {
                    Ok(Some(self.take(Token::GreaterThanOrEqual, 2)))
                } else if self.peek_is(1, '>') {
                    if self.peek_is(2, '=') {
                        Ok(Some(self.take(Token::RightShiftAssignment, 3)))
                    } else if self.peek_is(2, '>') {
                        if self.peek_is(3, '=') {
                            Ok(Some(self.take(Token::UnsignedRightShiftAssignment, 4)))
                        } else {
                            Ok(Some(self.take(Token::UnsignedRightShift, 3)))
                        }
                    } else {
                        Ok(Some(self.take(Token::RightShift, 2)))
                    }
                } else {
                    // The quirk that punct_step records: a bare `>` comes out
                    // as a right-square-bracket token.
                    Ok(Some(self.take(Token::RightSquareBracket, 1)))
                }
            },
            '}' => Ok(Some(self.take(Token::RightBrace, 1))),
            '?' => {
                if self.peek_is(1, '?') {
                    if self.peek_is(2, '=') {
                        Ok(Some(self.take(Token::LogicalNullishAssignment, 3)))
                    } else {
                        Ok(Some(self.take(Token::NullishCoalescingOperator, 2)))
                    }
                } else if self.peek_is(1, '.') {
                    Ok(Some(self.take(Token::OptionalChaining, 2)))
                } else {
                    Ok(Some(self.take(Token::QuestionMark, 1)))
                }
            },
            '[' => Ok(Some(self.take(Token::LeftSquareBracket, 1))),
            ']' => Ok(Some(self.take(Token::RightSquareBracket, 1))),
            '^' => {
                if self.peek_is(1, '=') {
                    Ok(Some(self.take(Token::BitwiseXorAssignment, 2)))
                } else {
                    Ok(Some(self.take(Token::Caret, 1)))
                }
            },
            '{' => Ok(Some(self.take(Token::LeftBrace, 1))),
            '|' => {
                if self.peek_is(1, '|') {
                    if self.peek_is(2, '=') {
                        Ok(Some(self.take(Token::LogicalOrAssignment, 3)))
                    } else {
                        Ok(Some(self.take(Token::LogicalOr, 2)))
                    }
                } else if self.peek_is(1, '=') {
                    Ok(Some(self.take(Token::BitwiseOrAssignment, 2)))
                } else {
                    Ok(Some(self.take(Token::Pipe, 1)))
                }
            },
            '~' => Ok(Some(self.take(Token::Tilde, 1))),
            _ => {
                self.tok_start = self.pos;
                self.tok_end = self.pos;
                Err(LexError { character: c })
            },
        }
    }

    /// Returns the exact source text consumed to produce the most recently
    /// returned token; valid until the next call to
    /// [`Tokenizer::next_token`].
    pub fn slice(&self) -> (r: String)
        requires
            self.wf(),
        ensures
            r@ == self.cur_slice(),
    {
        let mut r = String::new();
        let mut k = self.tok_start;
        loop
            invariant
                self.wf(),
                self.tok_start <= k <= self.tok_end,
                r@ == self.input@.subrange(self.tok_start as int, k as int),
            ensures
                k == self.tok_end,
                r@ == self.input@.subrange(self.tok_start as int, k as int),
            decreases self.tok_end - k,
        {
            if k == self.tok_end {
                break;
            }
            push_char(&mut r, self.input[k]);
            k = k + 1;
            proof {
                assert(r@ =~= self.input@.subrange(self.tok_start as int, k as int));
            }
        }
        r
    }

    /// Returns the zero-based line and column at which the most recently
    /// returned token starts, so that a diagnostic can carry a position
    /// alongside its reason.
    pub fn position(&self) -> (p: (usize, usize))
        requires
            self.wf(),
        ensures
            p.0 == line_of(self.input@, self.tok_start as int),
            p.1 == column_of(self.input@, self.tok_start as int),
    {
        let mut line: usize = 0;
        let mut column: usize = 0;
        let mut k: usize = 0;
        loop
            invariant
                self.wf(),
                k <= self.tok_start,
                line <= k,
                column <= k,
                line == line_of(self.input@, k as int),
                column == column_of(self.input@, k as int),
            ensures
                k == self.tok_start,
                line == line_of(self.input@, k as int),
                column == column_of(self.input@, k as int),
            decreases self.tok_start - k,
        {
            if k == self.tok_start {
                break;
            }
            if self.input[k] == '\n' {
                line = line + 1;
                column = 0;
            } else {
                column = column + 1;
            }
            k = k + 1;
        }
        (line, column)
    }

    /// Whether the character `k` places past the current position is `c`.
    fn peek_is(&self, k: usize, c: char) -> (b: bool)
        requires
            self.pos <= self.input@.len(),
        ensures
            b == (ch_at(self.input@, self.pos + k) == Some(c)),
    {
        if k < self.input.len() - self.pos {
            self.input[self.pos + k] == c
        } else {
            false
        }
    }

    /// Consumes the next `n` characters as one token.
    fn take(&mut self, t: Token, n: usize) -> (tok: Token)
        requires
            old(self).pos + n <= old(self).input@.len(),
        ensures
            tok == t,
            final(self).input == old(self).input,
            final(self).tok_start == old(self).pos,
            final(self).tok_end == old(self).pos + n,
            final(self).pos == final(self).tok_end,
    {
        let len = self.input.len();
        self.tok_start = self.pos;
        self.pos = self.pos + n;
        self.tok_end = self.pos;
        t
    }

    /// Scans an identifier by maximal munch and classifies it against the
    /// keyword set.
    fn consume_identifier(&mut self) -> (t: Token)
        requires
            old(self).pos < old(self).input@.len(),
            is_alphabetic_char(old(self).input@[old(self).pos as int]),
        ensures
            final(self).wf(),
            final(self).input == old(self).input,
            final(self).tok_start == old(self).pos,
            final(self).tok_end == ident_end(old(self).input@, old(self).pos + 1),
            final(self).pos == final(self).tok_end,
            t == ident_token(final(self).cur_slice()),
    {
        let ghost inp = self.input;
        let ghost s = self.input@;
        let len = self.input.len();
        let start = self.pos;
        self.tok_start = start;
        let mut j = start + 1;
        loop
            invariant
                self.input == inp,
                inp@ == s,
                self.tok_start == start,
                self.pos == start,
                start + 1 <= j <= s.len(),
                ident_end(s, start + 1) == ident_end(s, j as int),
            ensures
                self.input == inp,
                self.tok_start == start,
                self.pos == start,
                j == ident_end(s, start + 1),
                j <= s.len(),
            decreases s.len() - j,
        {
            if j == self.input.len() {
                break;
            }
            let c = self.input[j];
            if !(char_is_alphanumeric(c) || c == '_') {
                break;
            }
            j = j + 1;
        }
        self.pos = j;
        self.tok_end = j;
        let n = j - start;
        let v = &self.input;
        if n == 5 && v[start] == 'c' && v[start + 1] == 'o' && v[start + 2] == 'n' && v[start + 3]
            == 's' && v[start + 4] == 't' {
            proof {
                assert(self.cur_slice() =~= kw_const());
            }
            Token::ConstKeyword
        } else if n == 6 && v[start] == 'i' && v[start + 1] == 'm' && v[start + 2] == 'p' && v[start
            + 3] == 'o' && v[start + 4] == 'r' && v[start + 5] == 't' {
            proof {
                assert(self.cur_slice() =~= kw_import());
            }
            Token::ImportKeyword
        } else if n == 3 && v[start] == 'l' && v[start + 1] == 'e' && v[start + 2] == 't' {
            proof {
                assert(self.cur_slice() =~= kw_let());
            }
            Token::LetKeyword
        } else if n == 3 && v[start] == 'v' && v[start + 1] == 'a' && v[start + 2] == 'r' {
            proof {
                assert(self.cur_slice() =~= kw_var());
            }
            Token::VarKeyword
        } else {
            proof {
                let sl = self.cur_slice();
                assert(sl.len() == n);
                assert(forall|k: int| 0 <= k < n ==> sl[k] == s[start + k]);
                assert(sl != kw_const());
                assert(sl != kw_import());
                assert(sl != kw_let());
                assert(sl != kw_var());
            }
            Token::IdentifierName
        }
    }

    /// Scans a numeric literal by maximal munch. Fractional and exponent
    /// notation is not supported: the scan takes digits and `_` only.
    fn consume_numeric_literal(&mut self) -> (t: Token)
        requires
            old(self).pos < old(self).input@.len(),
        ensures
            final(self).wf(),
            final(self).input == old(self).input,
            final(self).tok_start == old(self).pos,
            final(self).tok_end == numeric_end(old(self).input@, old(self).pos + 1),
            final(self).pos == final(self).tok_end,
            t == Token::NumericLiteral,
    {
        let ghost inp = self.input;
        let ghost s = self.input@;
        let len = self.input.len();
        let start = self.pos;
        self.tok_start = start;
        let mut j = start + 1;
        loop
            invariant
                self.input == inp,
                inp@ == s,
                self.tok_start == start,
                self.pos == start,
                start + 1 <= j <= s.len(),
                numeric_end(s, start + 1) == numeric_end(s, j as int),
            ensures
                self.input == inp,
                self.tok_start == start,
                self.pos == start,
                j == numeric_end(s, start + 1),
                j <= s.len(),
            decreases s.len() - j,
        {
            if j == self.input.len() {
                break;
            }
            let c = self.input[j];
            if !(char_is_numeric(c) || c == '_') {
                break;
            }
            j = j + 1;
        }
        self.pos = j;
        self.tok_end = j;
        Token::NumericLiteral
    }

    /// Scans a double-quoted string literal.
    fn consume_double_quote_string_literal(&mut self) -> (t: Token)
        requires
            old(self).pos < old(self).input@.len(),
            old(self).input@[old(self).pos as int] == '"',
        ensures
            final(self).wf(),
            final(self).input == old(self).input,
            final(self).tok_start == old(self).pos,
            final(self).tok_end == string_end(old(self).input@, '"', '"', old(self).pos + 1),
            final(self).pos == final(self).tok_end,
            t == Token::StringLiteral,
    {
        self.consume_string_literal('"')
    }

    /// Scans a single-quoted string literal.
    fn consume_single_quote_string_literal(&mut self) -> (t: Token)
        requires
            old(self).pos < old(self).input@.len(),
            old(self).input@[old(self).pos as int] == '\'',
        ensures
            final(self).wf(),
            final(self).input == old(self).input,
            final(self).tok_start == old(self).pos,
            final(self).tok_end == string_end(old(self).input@, '\'', '\'', old(self).pos + 1),
            final(self).pos == final(self).tok_end,
            t == Token::StringLiteral,
    {
        self.consume_string_literal('\'')
    }

    /// Scans a string literal to its matching quote. A quote preceded by `\`
    /// does not close the literal; no other escape semantics is interpreted.
    /// An unterminated literal extends to the end of the input.
    fn consume_string_literal(&mut self, quote: char) -> (t: Token)
        requires
            old(self).pos < old(self).input@.len(),
            old(self).input@[old(self).pos as int] == quote,
        ensures
            final(self).wf(),
            final(self).input == old(self).input,
            final(self).tok_start == old(self).pos,
            final(self).tok_end == string_end(old(self).input@, quote, quote, old(self).pos + 1),
            final(self).pos == final(self).tok_end,
            t == Token::StringLiteral,
    {
        let ghost inp = self.input;
        let ghost s = self.input@;
        let len = self.input.len();
        let start = self.pos;
        self.tok_start = start;
        let mut j = start + 1;
        let mut prev = quote;
        loop
            invariant
                self.input == inp,
                inp@ == s,
                self.tok_start == start,
                self.pos == start,
                start + 1 <= j <= s.len(),
                string_end(s, quote, quote, start + 1) == string_end(s, quote, prev, j as int),
            ensures
                self.input == inp,
                self.tok_start == start,
                self.pos == start,
                start + 1 <= j <= s.len(),
                string_end(s, quote, quote, start + 1) == string_end(s, quote, prev, j as int),
                j == s.len() || (prev != '\\' && s[j as int] == quote),
            decreases s.len() - j,
        {
            if j == self.input.len() {
                break;
            }
            let c = self.input[j];
            if prev != '\\' && c == quote {
                break;
            }
            prev = c;
            j = j + 1;
        }
        if j < self.input.len() {
            j = j + 1;
        }
        self.pos = j;
        self.tok_end = j;
        Token::StringLiteral
    }

    /// Scans a single-line comment to the end of the line. The terminating
    /// newline is not part of the comment and is not consumed.
    fn consume_single_line_comment(&mut self) -> (t: Token)
        requires
            old(self).pos + 1 < old(self).input@.len(),
            old(self).input@[old(self).pos as int] == '/',
            old(self).input@[old(self).pos + 1] == '/',
        ensures
            final(self).wf(),
            final(self).input == old(self).input,
            final(self).tok_start == old(self).pos,
            final(self).tok_end == comment_end(old(self).input@, old(self).pos + 2),
            final(self).pos == final(self).tok_end,
            t == Token::SingleLineComment,
    {
        let ghost inp = self.input;
        let ghost s = self.input@;
        let len = self.input.len();
        let start = self.pos;
        self.tok_start = start;
        let mut j = start + 2;
        loop
            invariant
                self.input == inp,
                inp@ == s,
                self.tok_start == start,
                self.pos == start,
                start + 2 <= j <= s.len(),
                comment_end(s, start + 2) == comment_end(s, j as int),
            ensures
                self.input == inp,
                self.tok_start == start,
                self.pos == start,
                j == comment_end(s, start + 2),
                j <= s.len(),
            decreases s.len() - j,
        {
            if j == self.input.len() {
                break;
            }
            let c = self.input[j];
            if c == '\n' {
                break;
            }
            j = j + 1;
        }
        self.pos = j;
        self.tok_end = j;
        Token::SingleLineComment
    }
}

} // verus!
