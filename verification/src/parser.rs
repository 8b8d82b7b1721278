//! The parser.
//!
//! A recursive-descent parser over the tokenizer's token stream, with one
//! token of lookahead. It parses statements until the input is exhausted and
//! collects them into a [`Script`], or stops at the first malformed construct
//! with a [`ParseError`] carrying a diagnostic reason.
//!
//! The whole behaviour of a parse is captured by the spec functions
//! [`parse_script_spec`] and its helpers, stated over the character sequence
//! and the views of the syntax tree; every parsing routine is verified
//! against them.

use vstd::prelude::*;
use vstd::string::StringExecFns;

use crate::ast::{
    BlockStatement, DeclarationKind, Identifier, ImportClause, ImportClauseV, ImportDeclaration,
    ImportDeclarationV, ModuleSpecifier, Script, Statement, StatementV, VariableStatement,
    VariableStatementV, clause_view, stmt_view, stmts_view_upto,
};
use crate::chars::push_char;
use crate::tokenizer::{
    LexError, Step, Token, Tokenizer, kw_from, lemma_next_token_spec_bounds, lemma_skip_ws,
    next_token_spec, skip_ws, token_name, token_name_spec,
};
use crate::ast::Expression;

verus! {

/// A parse error: a diagnostic reason for the first malformed construct.
#[derive(Debug)]
pub struct ParseError {
    pub reason: String,
}

/// The spec-level outcome of one parsing routine: a value together with the
/// position from which parsing continues, or the reason of the first error.
pub enum Parsed<V> {
    Value(V, int),
    Error(Seq<char>),
}

/// Prefixes a sequence onto the value of a successful parse.
pub open spec fn prepend<A>(prefix: Seq<A>, rest: Parsed<Seq<A>>) -> Parsed<Seq<A>> {
    match rest {
        Parsed::Value(vs, p) => Parsed::Value(prefix + vs, p),
        Parsed::Error(e) => Parsed::Error(e),
    }
}

/// The reason reported for a token that no statement starts with: the
/// offending lexeme follows the fixed prefix.
pub open spec fn unexpected_token_reason(sl: Seq<char>) -> Seq<char> {
    "Unexpected token: "@ + sl
}

/// The reason reported when the tokenizer meets a character that starts no
/// token.
pub open spec fn lex_reason(c: char) -> Seq<char> {
    "Unrecognized character: "@.push(c)
}

/// The reason reported when named imports are not followed by a module
/// specifier.
pub open spec fn expression_expected_reason() -> Seq<char> {
    "Expression expected."@
}

/// The reason reported when `import` is followed by neither an import clause
/// nor a module specifier.
pub open spec fn declaration_expected_reason() -> Seq<char> {
    "Declaration or statement expected."@
}

/// The reason reported when an identifier is required and missing.
pub open spec fn identifier_expected_reason() -> Seq<char> {
    "Identifier expected"@
}

/// The reason reported when named imports are not followed by the word
/// `from`.
pub open spec fn from_expected_reason() -> Seq<char> {
    "`from` expected"@
}

/// The reason reported when a demanded token is not the one that came: it
/// names the expected token kind and the actual one, or the end of the
/// stream.
pub open spec fn expected_token_reason(expected: Token, actual: Option<Token>) -> Seq<char> {
    "Expected token `"@ + token_name_spec(expected) + "`, but was `"@ + (match actual {
        Some(t) => "Some("@ + token_name_spec(t) + ")"@,
        None => "None"@,
    }) + "`"@
}

/// The reason reported for an initializer expression, whose parsing is a
/// planned extension.
pub open spec fn unsupported_expression_reason() -> Seq<char> {
    "Assignment expressions are not supported."@
}

/// Parsing a module specifier: a string-literal token is consumed and its
/// text (quotes included) is the specifier; any other upcoming token is left
/// unconsumed and no specifier is produced.
pub open spec fn parse_module_specifier_spec(s: Seq<char>, pos: int) -> Parsed<Option<Seq<char>>> {
    match next_token_spec(s, pos) {
        Step::Tok(t, st, end) => if t == Token::StringLiteral {
            Parsed::Value(Some(s.subrange(st, end)), end)
        } else {
            Parsed::Value(None, skip_ws(s, pos))
        },
        Step::Eof => Parsed::Value(None, skip_ws(s, pos)),
        Step::Unrecognized(c, i) => Parsed::Error(lex_reason(c)),
    }
}

/// Parsing a from clause: the next token's text must be exactly `from`, and
/// a module specifier may follow.
pub open spec fn parse_from_clause_spec(s: Seq<char>, pos: int) -> Parsed<Option<Seq<char>>> {
    match next_token_spec(s, pos) {
        Step::Eof => Parsed::Error(from_expected_reason()),
        Step::Unrecognized(c, i) => Parsed::Error(lex_reason(c)),
        Step::Tok(t, st, end) => if s.subrange(st, end) == kw_from() {
            parse_module_specifier_spec(s, end)
        } else {
            Parsed::Error(from_expected_reason())
        },
    }
}

/// Parsing the items of a named-import list, after the opening brace:
/// identifiers are collected in source order, commas are skipped (so
/// trailing and repeated commas are tolerated), and the closing brace ends
/// the list. Anything else is an error.
pub open spec fn parse_named_imports_items_spec(s: Seq<char>, pos: int) -> Parsed<Seq<Seq<char>>>
    decreases s.len() - pos,
{
    match next_token_spec(s, pos) {
        Step::Eof => Parsed::Error(identifier_expected_reason()),
        Step::Unrecognized(c, i) => Parsed::Error(lex_reason(c)),
        Step::Tok(t, st, end) => if !(pos < end <= s.len()) {
            arbitrary()
        } else {
            match t {
                Token::IdentifierName => prepend(
                    seq![s.subrange(st, end)],
                    parse_named_imports_items_spec(s, end),
                ),
                Token::Comma => parse_named_imports_items_spec(s, end),
                Token::RightBrace => Parsed::Value(Seq::empty(), end),
                _ => Parsed::Error(identifier_expected_reason()),
            }
        },
    }
}

/// Parsing an import clause: a brace-delimited named-import list if an
/// opening brace is next, otherwise no clause and nothing consumed.
pub open spec fn parse_import_clause_spec(s: Seq<char>, pos: int) -> Parsed<Option<Seq<Seq<char>>>> {
    match next_token_spec(s, pos) {
        Step::Tok(Token::LeftBrace, st, end) => match parse_named_imports_items_spec(s, end) {
            Parsed::Value(names, p) => Parsed::Value(Some(names), p),
            Parsed::Error(e) => Parsed::Error(e),
        },
        Step::Unrecognized(c, i) => Parsed::Error(lex_reason(c)),
        _ => Parsed::Value(None, skip_ws(s, pos)),
    }
}

/// Parsing an import declaration, after the `import` keyword: either an
/// import clause followed by a mandatory from clause, or a bare module
/// specifier.
pub open spec fn parse_import_declaration_spec(s: Seq<char>, pos: int) -> Parsed<
    ImportDeclarationV,
> {
    match parse_import_clause_spec(s, pos) {
        Parsed::Error(e) => Parsed::Error(e),
        Parsed::Value(Some(names), p1) => match parse_from_clause_spec(s, p1) {
            Parsed::Error(e) => Parsed::Error(e),
            Parsed::Value(Some(m), p2) => Parsed::Value(
                ImportDeclarationV {
                    import_clause: Some(ImportClauseV::NamedImports(names)),
                    module_specifier: m,
                },
                p2,
            ),
            Parsed::Value(None, p2) => Parsed::Error(expression_expected_reason()),
        },
        Parsed::Value(None, p0) => match parse_module_specifier_spec(s, p0) {
            Parsed::Error(e) => Parsed::Error(e),
            Parsed::Value(Some(m), p) => Parsed::Value(
                ImportDeclarationV { import_clause: None, module_specifier: m },
                p,
            ),
            Parsed::Value(None, p) => Parsed::Error(declaration_expected_reason()),
        },
    }
}

/// The declared kind that a declaring keyword token selects. It is asked
/// only of the three declaring keywords.
pub open spec fn declaration_kind(t: Token) -> DeclarationKind {
    match t {
        Token::ConstKeyword => DeclarationKind::Const,
        Token::LetKeyword => DeclarationKind::Let,
        _ => DeclarationKind::Var,
    }
}

/// Parsing a variable declaration, after its `const`/`let`/`var` keyword: a
/// binding identifier is required; an upcoming `=` would introduce an
/// initializer expression, whose parsing is a planned extension and is
/// reported as unsupported; otherwise the declaration ends after the
/// identifier with no initializer.
pub open spec fn parse_variable_declaration_spec(
    s: Seq<char>,
    pos: int,
    kind: DeclarationKind,
) -> Parsed<VariableStatementV> {
    match next_token_spec(s, pos) {
        Step::Tok(Token::IdentifierName, st, end) => match next_token_spec(s, end) {
            Step::Tok(Token::Assignment, st2, end2) => Parsed::Error(
                unsupported_expression_reason(),
            ),
            Step::Unrecognized(c, i) => Parsed::Error(lex_reason(c)),
            _ => Parsed::Value(
                VariableStatementV {
                    kind: kind,
                    binding_identifier: s.subrange(st, end),
                    initializer: None,
                },
                skip_ws(s, end),
            ),
        },
        Step::Unrecognized(c, i) => Parsed::Error(lex_reason(c)),
        _ => Parsed::Error(identifier_expected_reason()),
    }
}

/// Parsing one statement: comments are skipped (or surfaced, when comments
/// are preserved), `import` starts an import declaration, `const`/`let`/
/// `var` start a variable declaration, the end of the input ends parsing,
/// and any other leading token is an error naming its lexeme.
pub open spec fn parse_statement_spec(s: Seq<char>, pos: int, keep: bool) -> Parsed<
    Option<StatementV>,
>
    decreases s.len() - pos,
{
    match next_token_spec(s, pos) {
        Step::Eof => Parsed::Value(None, s.len() as int),
        Step::Unrecognized(c, i) => Parsed::Error(lex_reason(c)),
        Step::Tok(t, st, end) => if !(pos < end <= s.len()) {
            arbitrary()
        } else {
            match t {
                Token::SingleLineComment => if keep {
                    Parsed::Value(Some(StatementV::Comment), end)
                } else {
                    parse_statement_spec(s, end, keep)
                },
                Token::ImportKeyword => match parse_import_declaration_spec(s, end) {
                    Parsed::Value(d, p) => Parsed::Value(Some(StatementV::Import(d)), p),
                    Parsed::Error(e) => Parsed::Error(e),
                },
                Token::ConstKeyword | Token::LetKeyword | Token::VarKeyword => match
                    parse_variable_declaration_spec(s, end, declaration_kind(t)) {
                    Parsed::Value(v, p) => Parsed::Value(Some(StatementV::Variable(v)), p),
                    Parsed::Error(e) => Parsed::Error(e),
                },
                _ => Parsed::Error(unexpected_token_reason(s.subrange(st, end))),
            }
        },
    }
}

/// Parsing a script: statements in source order until the end of the input,
/// stopping at the first error.
pub open spec fn parse_script_spec(s: Seq<char>, pos: int, keep: bool) -> Parsed<Seq<StatementV>>
    decreases s.len() - pos,
{
    match parse_statement_spec(s, pos, keep) {
        Parsed::Error(e) => Parsed::Error(e),
        Parsed::Value(None, p) => Parsed::Value(Seq::empty(), p),
        Parsed::Value(Some(v), p) => if pos < p <= s.len() {
            prepend(seq![v], parse_script_spec(s, p, keep))
        } else {
            arbitrary()
        },
    }
}

/// A successful module-specifier parse ends within the input, strictly
/// forward when a specifier was found.
pub proof fn lemma_parse_module_specifier_spec_bounds(s: Seq<char>, pos: int)
    requires
        0 <= pos <= s.len(),
    ensures
        match parse_module_specifier_spec(s, pos) {
            Parsed::Value(m, p) => pos <= p <= s.len() && (m is Some ==> pos < p),
            Parsed::Error(e) => true,
        },
{
    lemma_next_token_spec_bounds(s, pos);
    lemma_skip_ws(s, pos);
}

/// A successful from-clause parse moves strictly forward and ends within
/// the input.
pub proof fn lemma_parse_from_clause_spec_bounds(s: Seq<char>, pos: int)
    requires
        0 <= pos <= s.len(),
    ensures
        match parse_from_clause_spec(s, pos) {
            Parsed::Value(m, p) => pos < p <= s.len(),
            Parsed::Error(e) => true,
        },
{
    lemma_next_token_spec_bounds(s, pos);
    match next_token_spec(s, pos) {
        Step::Tok(t, st, end) => {
            lemma_parse_module_specifier_spec_bounds(s, end);
            lemma_skip_ws(s, end);
        },
        _ => {},
    }
}

/// A successful named-import-list parse moves strictly forward and ends
/// within the input.
pub proof fn lemma_parse_named_imports_items_spec_bounds(s: Seq<char>, pos: int)
    requires
        0 <= pos <= s.len(),
    ensures
        match parse_named_imports_items_spec(s, pos) {
            Parsed::Value(names, p) => pos < p <= s.len(),
            Parsed::Error(e) => true,
        },
    decreases s.len() - pos,
{
    lemma_next_token_spec_bounds(s, pos);
    match next_token_spec(s, pos) {
        Step::Tok(t, st, end) => {
            if t == Token::IdentifierName || t == Token::Comma {
                lemma_parse_named_imports_items_spec_bounds(s, end);
            }
        },
        _ => {},
    }
}

/// A successful import-clause parse ends within the input, strictly forward
/// when a clause was found.
pub proof fn lemma_parse_import_clause_spec_bounds(s: Seq<char>, pos: int)
    requires
        0 <= pos <= s.len(),
    ensures
        match parse_import_clause_spec(s, pos) {
            Parsed::Value(m, p) => pos <= p <= s.len() && (m is Some ==> pos < p),
            Parsed::Error(e) => true,
        },
{
    lemma_next_token_spec_bounds(s, pos);
    lemma_skip_ws(s, pos);
    match next_token_spec(s, pos) {
        Step::Tok(t, st, end) => {
            if t == Token::LeftBrace {
                lemma_parse_named_imports_items_spec_bounds(s, end);
            }
        },
        _ => {},
    }
}

/// A successful import-declaration parse moves strictly forward and ends
/// within the input.
pub proof fn lemma_parse_import_declaration_spec_bounds(s: Seq<char>, pos: int)
    requires
        0 <= pos <= s.len(),
    ensures
        match parse_import_declaration_spec(s, pos) {
            Parsed::Value(d, p) => pos < p <= s.len(),
            Parsed::Error(e) => true,
        },
{
    lemma_parse_import_clause_spec_bounds(s, pos);
    match parse_import_clause_spec(s, pos) {
        Parsed::Value(Some(names), p1) => {
            lemma_parse_from_clause_spec_bounds(s, p1);
        },
        Parsed::Value(None, p0) => {
            lemma_parse_module_specifier_spec_bounds(s, p0);
        },
        Parsed::Error(e) => {},
    }
}

/// A successful variable-declaration parse moves strictly forward and ends
/// within the input.
pub proof fn lemma_parse_variable_declaration_spec_bounds(
    s: Seq<char>,
    pos: int,
    kind: DeclarationKind,
)
    requires
        0 <= pos <= s.len(),
    ensures
        match parse_variable_declaration_spec(s, pos, kind) {
            Parsed::Value(v, p) => pos < p <= s.len(),
            Parsed::Error(e) => true,
        },
{
    lemma_next_token_spec_bounds(s, pos);
    match next_token_spec(s, pos) {
        Step::Tok(t, st, end) => {
            lemma_next_token_spec_bounds(s, end);
            lemma_skip_ws(s, end);
        },
        _ => {},
    }
}

/// A successful statement parse moves strictly forward when a statement was
/// produced, and reaches the end of the input when none was.
pub proof fn lemma_parse_statement_spec_bounds(s: Seq<char>, pos: int, keep: bool)
    requires
        0 <= pos <= s.len(),
    ensures
        match parse_statement_spec(s, pos, keep) {
            Parsed::Value(ov, p) => {
                &&& pos <= p <= s.len()
                &&& (ov is Some ==> pos < p)
                &&& (ov is None ==> p == s.len())
            },
            Parsed::Error(e) => true,
        },
    decreases s.len() - pos,
{
    lemma_next_token_spec_bounds(s, pos);
    match next_token_spec(s, pos) {
        Step::Tok(t, st, end) => {
            match t {
                Token::SingleLineComment => {
                    if !keep {
                        lemma_parse_statement_spec_bounds(s, end, keep);
                    }
                },
                Token::ImportKeyword => {
                    lemma_parse_import_declaration_spec_bounds(s, end);
                },
                Token::ConstKeyword | Token::LetKeyword | Token::VarKeyword => {
                    lemma_parse_variable_declaration_spec_bounds(s, end, declaration_kind(t));
                },
                _ => {},
            }
        },
        _ => {},
    }
}

/// The parser: the tokenizer it drains, a single-slot token lookahead, and
/// the flag that controls whether comments are surfaced as statements or
/// silently skipped.
pub struct Parser {
    /// Whether comments are surfaced as statements.
    pub preserve_comments: bool,
    /// The token source.
    pub tokenizer: Tokenizer,
    /// The single-slot cached lookahead token, not yet consumed from the
    /// logical token stream.
    pub lookahead: Option<Token>,
}

impl Parser {
    /// The tokenizer is well formed, and a cached lookahead token is exactly
    /// the token that one step from its own start produces, with the
    /// tokenizer stopped right after it.
    pub open spec fn wf(self) -> bool {
        &&& self.tokenizer.wf()
        &&& match self.lookahead {
            Some(t) => {
                &&& next_token_spec(self.tokenizer.input@, self.tokenizer.tok_start as int)
                    == Step::Tok(
                    t,
                    self.tokenizer.tok_start as int,
                    self.tokenizer.tok_end as int,
                )
                &&& self.tokenizer.pos == self.tokenizer.tok_end
            },
            None => true,
        }
    }

    /// The characters being parsed.
    pub open spec fn src(self) -> Seq<char> {
        self.tokenizer.input@
    }

    /// The position of the logical token stream: the start of the cached
    /// lookahead token if one is held, else the tokenizer's position.
    pub open spec fn lpos(self) -> int {
        if self.lookahead is Some {
            self.tokenizer.tok_start as int
        } else {
            self.tokenizer.pos as int
        }
    }

    /// Makes a parser over the given tokenizer. Comments are skipped; see
    /// [`Parser::set_preserve_comments`].
    pub fn new(tokenizer: Tokenizer) -> (p: Parser)
        requires
            tokenizer.wf(),
        ensures
            p.wf(),
            p.tokenizer == tokenizer,
            p.lookahead is None,
            p.src() == tokenizer.input@,
            p.lpos() == tokenizer.pos,
            p.preserve_comments == false,
    {
        Parser { preserve_comments: false, tokenizer, lookahead: None }
    }

    /// Chooses whether comments are surfaced as statements (`true`) or
    /// silently skipped (`false`).
    pub fn set_preserve_comments(&mut self, preserve: bool)
        ensures
            final(self).preserve_comments == preserve,
            final(self).tokenizer == old(self).tokenizer,
            final(self).lookahead == old(self).lookahead,
    {
        self.preserve_comments = preserve;
    }

    /// Parses a script: statements in source order until the end of the
    /// input, collected into one block. Stops at the first malformed
    /// construct with the error that [`parse_script_spec`] gives.
    pub fn parse_script(&mut self) -> (r: Result<Script, ParseError>)
        requires
            old(self).wf(),
        ensures
            final(self).wf(),
            final(self).src() == old(self).src(),
            match parse_script_spec(old(self).src(), old(self).lpos(), old(
                self,
            ).preserve_comments) {
                Parsed::Value(vs, p) => r matches Ok(sc) && sc@ == vs,
                Parsed::Error(e) => r matches Err(pe) && pe.reason@ == e,
            },
    {
        let ghost s = self.src();
        let ghost lpos0 = self.lpos();
        let ghost keep = self.preserve_comments;
        let mut stmts: Vec<Statement> = Vec::new();
        proof {
            match parse_script_spec(s, lpos0, keep) {
                Parsed::Value(vs, p) => {
                    assert(Seq::<StatementV>::empty() + vs =~= vs);
                },
                Parsed::Error(e) => {},
            }
        }
        loop
            invariant
                self.wf(),
                s == old(self).src(),
                lpos0 == old(self).lpos(),
                keep == old(self).preserve_comments,
                self.src() == s,
                self.preserve_comments == keep,
                0 <= self.lpos() <= s.len(),
                parse_script_spec(s, lpos0, keep) == prepend(
                    stmts_view_upto(stmts, stmts@.len() as int),
                    parse_script_spec(s, self.lpos(), keep),
                ),
            ensures
                self.wf(),
                self.src() == s,
                match parse_script_spec(s, lpos0, keep) {
                    Parsed::Value(vs, p) => stmts_view_upto(stmts, stmts@.len() as int) == vs,
                    Parsed::Error(e) => false,
                },
            decreases s.len() - self.lpos(),
        {
            let ghost cur = self.lpos();
            let ghost prefix = stmts_view_upto(stmts, stmts@.len() as int);
            proof {
                lemma_parse_statement_spec_bounds(s, cur, keep);
            }
            match self.parse_statement() {
                Err(e) => {
                    return Err(e);
                },
                Ok(None) => {
                    proof {
                        match parse_script_spec(s, cur, keep) {
                            Parsed::Value(vs, p) => {
                                assert(prefix + Seq::<StatementV>::empty() =~= prefix);
                            },
                            Parsed::Error(e) => {},
                        }
                    }
                    break ;
                },
                Ok(Some(stmt)) => {
                    let ghost v = stmt_view(stmt);
                    let ghost old_stmts = stmts;
                    stmts.push(stmt);
                    proof {
                        lemma_stmts_view_upto_agree(stmts, old_stmts, old_stmts@.len() as int);
                        assert(stmts_view_upto(stmts, stmts@.len() as int) == prefix.push(v));
                        match parse_script_spec(s, self.lpos(), keep) {
                            Parsed::Value(rest, q) => {
                                assert(prefix + (seq![v] + rest) =~= prefix.push(v) + rest);
                            },
                            Parsed::Error(e) => {},
                        }
                    }
                },
            }
        }
        Ok(Script::new(BlockStatement { stmts }))
    }

    /// Parses a statement or a declaration, `None` at the end of the input.
    fn parse_statement(&mut self) -> (r: Result<Option<Statement>, ParseError>)
        requires
            old(self).wf(),
        ensures
            final(self).wf(),
            final(self).src() == old(self).src(),
            final(self).preserve_comments == old(self).preserve_comments,
            match parse_statement_spec(old(self).src(), old(self).lpos(), old(
                self,
            ).preserve_comments) {
                Parsed::Value(ov, p) => final(self).lpos() == p && (match ov {
                    Some(v) => r matches Ok(Some(stmt)) && stmt_view(stmt) == v,
                    None => r == Ok::<Option<Statement>, ParseError>(None),
                }),
                Parsed::Error(e) => r matches Err(pe) && pe.reason@ == e,
            },
    {
        let ghost s = self.src();
        let ghost lpos0 = self.lpos();
        let ghost keep = self.preserve_comments;
        loop
            invariant
                self.wf(),
                s == old(self).src(),
                lpos0 == old(self).lpos(),
                keep == old(self).preserve_comments,
                self.src() == s,
                self.preserve_comments == keep,
                0 <= self.lpos() <= s.len(),
                parse_statement_spec(s, lpos0, keep) == parse_statement_spec(
                    s,
                    self.lpos(),
                    keep,
                ),
            decreases s.len() - self.lpos(),
        {
            let ghost cur = self.lpos();
            proof {
                lemma_next_token_spec_bounds(s, cur);
            }
            match self.next_token() {
                Err(le) => {
                    return Err(lex_parse_error(le));
                },
                Ok(None) => {
                    return Ok(None);
                },
                Ok(Some(token)) => {
                    match token {
                        Token::SingleLineComment => {
                            if self.preserve_comments {
                                return self.parse_comment();
                            }
                        },
                        Token::ImportKeyword => {
                            return self.parse_import_declaration();
                        },
                        Token::ConstKeyword | Token::LetKeyword | Token::VarKeyword => {
                            let kind = if token == Token::ConstKeyword {
                                DeclarationKind::Const
                            } else if token == Token::LetKeyword {
                                DeclarationKind::Let
                            } else {
                                DeclarationKind::Var
                            };
                            return self.parse_variable_declaration(kind);
                        },
                        _ => {
                            let mut reason = String::from_str("Unexpected token: ");
                            let sl = self.tokenizer.slice();
                            reason.append(sl.as_str());
                            return Err(ParseError { reason });
                        },
                    }
                },
            }
        }
    }

    /// Surfaces the comment that was just consumed as a statement.
    fn parse_comment(&mut self) -> (r: Result<Option<Statement>, ParseError>)
        ensures
            *final(self) == *old(self),
            r matches Ok(Some(stmt)) && stmt_view(stmt) == StatementV::Comment,
    {
        Ok(Some(Statement::Comment))
    }

    /// Parses an import declaration, after the `import` keyword: an import
    /// clause followed by its mandatory from clause, or a bare module
    /// specifier.
    fn parse_import_declaration(&mut self) -> (r: Result<Option<Statement>, ParseError>)
        requires
            old(self).wf(),
        ensures
            final(self).wf(),
            final(self).src() == old(self).src(),
            final(self).preserve_comments == old(self).preserve_comments,
            match parse_import_declaration_spec(old(self).src(), old(self).lpos()) {
                Parsed::Value(d, p) => final(self).lpos() == p && (r matches Ok(Some(stmt))
                    && stmt_view(stmt) == StatementV::Import(d)),
                Parsed::Error(e) => r matches Err(pe) && pe.reason@ == e,
            },
    {
        match self.parse_import_clause() {
            Err(e) => Err(e),
            Ok(Some(import_clause)) => {
                match self.parse_from_clause() {
                    Err(e) => Err(e),
                    Ok(Some(from_clause)) => Ok(
                        Some(
                            Statement::ImportDeclaration(
                                ImportDeclaration {
                                    import_clause: Some(import_clause),
                                    module_specifier: from_clause,
                                },
                            ),
                        ),
                    ),
                    Ok(None) => Err(
                        ParseError { reason: String::from_str("Expression expected.") },
                    ),
                }
            },
            Ok(None) => {
                match self.parse_module_specifier() {
                    Err(e) => Err(e),
                    Ok(Some(module_specifier)) => Ok(
                        Some(
                            Statement::ImportDeclaration(
                                ImportDeclaration { import_clause: None, module_specifier },
                            ),
                        ),
                    ),
                    Ok(None) => Err(
                        ParseError {
                            reason: String::from_str("Declaration or statement expected."),
                        },
                    ),
                }
            },
        }
    }

    /// Parses an import clause if an opening brace is next, else leaves the
    /// upcoming token unconsumed.
    fn parse_import_clause(&mut self) -> (r: Result<Option<ImportClause>, ParseError>)
        requires
            old(self).wf(),
        ensures
            final(self).wf(),
            final(self).src() == old(self).src(),
            final(self).preserve_comments == old(self).preserve_comments,
            match parse_import_clause_spec(old(self).src(), old(self).lpos()) {
                Parsed::Value(m, p) => final(self).lpos() == p && (match m {
                    Some(names) => r matches Ok(Some(c)) && clause_view(c)
                        == ImportClauseV::NamedImports(names),
                    None => r == Ok::<Option<ImportClause>, ParseError>(None),
                }),
                Parsed::Error(e) => r matches Err(pe) && pe.reason@ == e,
            },
    {
        let ghost s = self.src();
        let ghost lpos0 = self.lpos();
        proof {
            lemma_next_token_spec_bounds(s, lpos0);
            lemma_skip_ws(s, lpos0);
        }
        match self.peek_token() {
            Err(le) => Err(lex_parse_error(le)),
            Ok(Some(Token::LeftBrace)) => self.parse_named_imports(),
            _ => Ok(None),
        }
    }

    /// Parses a brace-delimited, comma-separated list of identifiers as
    /// named imports; expects the opening brace as the next token.
    fn parse_named_imports(&mut self) -> (r: Result<Option<ImportClause>, ParseError>)
        requires
            old(self).wf(),
            next_token_spec(old(self).src(), old(self).lpos()) matches Step::Tok(
                Token::LeftBrace,
                _,
                _,
            ),
        ensures
            final(self).wf(),
            final(self).src() == old(self).src(),
            final(self).preserve_comments == old(self).preserve_comments,
            match next_token_spec(old(self).src(), old(self).lpos()) {
                Step::Tok(t, st, end) => match parse_named_imports_items_spec(
                    old(self).src(),
                    end,
                ) {
                    Parsed::Value(names, p) => final(self).lpos() == p && (r matches Ok(Some(c))
                        && clause_view(c) == ImportClauseV::NamedImports(names)),
                    Parsed::Error(e) => r matches Err(pe) && pe.reason@ == e,
                },
                _ => false,
            },
    {
        let ghost s = self.src();
        let ghost lpos0 = self.lpos();
        let ghost start0 = match next_token_spec(s, lpos0) {
            Step::Tok(t, st, end) => end,
            _ => 0,
        };
        match self.expect_token(Token::LeftBrace) {
            Err(e) => {
                proof {
                    assert(false);
                }
                Err(e)
            },
            Ok(()) => {
                let mut import_specifiers: Vec<String> = Vec::new();
                proof {
                    match parse_named_imports_items_spec(s, start0) {
                        Parsed::Value(names, p) => {
                            assert(Seq::<Seq<char>>::empty() + names =~= names);
                            assert(import_specifiers.deep_view() =~= Seq::<Seq<char>>::empty());
                        },
                        Parsed::Error(e) => {},
                    }
                }
                loop
                    invariant
                        self.wf(),
                        s == old(self).src(),
                        lpos0 == old(self).lpos(),
                        (match next_token_spec(s, lpos0) {
                            Step::Tok(t, st, end) => end == start0,
                            _ => false,
                        }),
                        self.src() == s,
                        self.preserve_comments == old(self).preserve_comments,
                        0 <= self.lpos() <= s.len(),
                        parse_named_imports_items_spec(s, start0) == prepend(
                            import_specifiers.deep_view(),
                            parse_named_imports_items_spec(s, self.lpos()),
                        ),
                    decreases s.len() - self.lpos(),
                {
                    let ghost cur = self.lpos();
                    let ghost prefix = import_specifiers.deep_view();
                    proof {
                        lemma_next_token_spec_bounds(s, cur);
                    }
                    match self.next_token() {
                        Err(le) => {
                            return Err(lex_parse_error(le));
                        },
                        Ok(None) => {
                            return Err(
                                ParseError { reason: String::from_str("Identifier expected") },
                            );
                        },
                        Ok(Some(token)) => {
                            match token {
                                Token::IdentifierName => {
                                    let import_specifier = self.tokenizer.slice();
                                    let ghost old_specifiers = import_specifiers;
                                    import_specifiers.push(import_specifier);
                                    proof {
                                        assert(import_specifiers.deep_view() =~= prefix.push(
                                            import_specifiers@[prefix.len() as int]@,
                                        ));
                                        match parse_named_imports_items_spec(s, self.lpos()) {
                                            Parsed::Value(rest, q) => {
                                                assert(prefix + (seq![
                                                    import_specifiers@[prefix.len() as int]@,
                                                ] + rest) =~= import_specifiers.deep_view() + rest);
                                            },
                                            Parsed::Error(e) => {},
                                        }
                                    }
                                },
                                Token::Comma => {
                                },
                                Token::RightBrace => {
                                    proof {
                                        match parse_named_imports_items_spec(s, start0) {
                                            Parsed::Value(names, p) => {
                                                assert(prefix + Seq::<Seq<char>>::empty()
                                                    =~= prefix);
                                            },
                                            Parsed::Error(e) => {},
                                        }
                                    }
                                    return Ok(
                                        Some(ImportClause::NamedImports(import_specifiers)),
                                    );
                                },
                                _ => {
                                    return Err(
                                        ParseError {
                                            reason: String::from_str("Identifier expected"),
                                        },
                                    );
                                },
                            }
                        },
                    }
                }
            },
        }
    }

    /// Parses the from clause that must follow an import clause: the next
    /// token's text must be exactly `from`, then a module specifier may
    /// follow.
    fn parse_from_clause(&mut self) -> (r: Result<Option<ModuleSpecifier>, ParseError>)
        requires
            old(self).wf(),
        ensures
            final(self).wf(),
            final(self).src() == old(self).src(),
            final(self).preserve_comments == old(self).preserve_comments,
            match parse_from_clause_spec(old(self).src(), old(self).lpos()) {
                Parsed::Value(m, p) => final(self).lpos() == p && (match m {
                    Some(v) => r matches Ok(Some(ms)) && ms.value@ == v,
                    None => r == Ok::<Option<ModuleSpecifier>, ParseError>(None),
                }),
                Parsed::Error(e) => r matches Err(pe) && pe.reason@ == e,
            },
    {
        let ghost s = self.src();
        let ghost lpos0 = self.lpos();
        match self.next_token() {
            Err(le) => Err(lex_parse_error(le)),
            Ok(None) => Err(ParseError { reason: String::from_str("`from` expected") }),
            Ok(Some(_token)) => {
                let sl = self.tokenizer.slice();
                let from_word = String::from_str("from");
                proof {
                    reveal_strlit("from");
                    assert("from"@ =~= kw_from());
                }
                if sl == from_word {
                    self.parse_module_specifier()
                } else {
                    Err(ParseError { reason: String::from_str("`from` expected") })
                }
            },
        }
    }

    /// Parses a module specifier: a string-literal token whose exact text,
    /// quotes included, names the module. Any other upcoming token is left
    /// unconsumed.
    fn parse_module_specifier(&mut self) -> (r: Result<Option<ModuleSpecifier>, ParseError>)
        requires
            old(self).wf(),
        ensures
            final(self).wf(),
            final(self).src() == old(self).src(),
            final(self).preserve_comments == old(self).preserve_comments,
            match parse_module_specifier_spec(old(self).src(), old(self).lpos()) {
                Parsed::Value(m, p) => final(self).lpos() == p && (match m {
                    Some(v) => r matches Ok(Some(ms)) && ms.value@ == v,
                    None => r == Ok::<Option<ModuleSpecifier>, ParseError>(None),
                }),
                Parsed::Error(e) => r matches Err(pe) && pe.reason@ == e,
            },
    {
        let ghost s = self.src();
        let ghost lpos0 = self.lpos();
        proof {
            lemma_next_token_spec_bounds(s, lpos0);
            lemma_skip_ws(s, lpos0);
        }
        match self.peek_token() {
            Err(le) => Err(lex_parse_error(le)),
            Ok(Some(Token::StringLiteral)) => {
                match self.expect_token(Token::StringLiteral) {
                    Err(e) => {
                        proof {
                            assert(false);
                        }
                        Err(e)
                    },
                    Ok(()) => {
                        let value = self.tokenizer.slice();
                        Ok(Some(ModuleSpecifier { value }))
                    },
                }
            },
            _ => Ok(None),
        }
    }

    /// Parses a variable declaration, after its keyword: the binding
    /// identifier is required, and an optional initializer would follow.
    fn parse_variable_declaration(&mut self, kind: DeclarationKind) -> (r: Result<
        Option<Statement>,
        ParseError,
    >)
        requires
            old(self).wf(),
        ensures
            final(self).wf(),
            final(self).src() == old(self).src(),
            final(self).preserve_comments == old(self).preserve_comments,
            match parse_variable_declaration_spec(old(self).src(), old(self).lpos(), kind) {
                Parsed::Value(v, p) => final(self).lpos() == p && (r matches Ok(Some(stmt))
                    && stmt_view(stmt) == StatementV::Variable(v)),
                Parsed::Error(e) => r matches Err(pe) && pe.reason@ == e,
            },
    {
        match self.parser_binding_identifier() {
            Err(e) => Err(e),
            Ok(Some(binding_identifier)) => {
                match self.parse_initializer() {
                    Err(e) => Err(e),
                    Ok(initializer) => Ok(
                        Some(
                            Statement::VariableStatement(
                                VariableStatement { kind, binding_identifier, initializer },
                            ),
                        ),
                    ),
                }
            },
            Ok(None) => Err(ParseError { reason: String::from_str("Identifier expected") }),
        }
    }

    /// Parses the binding identifier of a variable declaration, if the next
    /// token is an identifier; leaves any other token unconsumed.
    fn parser_binding_identifier(&mut self) -> (r: Result<Option<Identifier>, ParseError>)
        requires
            old(self).wf(),
        ensures
            final(self).wf(),
            final(self).src() == old(self).src(),
            final(self).preserve_comments == old(self).preserve_comments,
            match next_token_spec(old(self).src(), old(self).lpos()) {
                Step::Tok(t, st, end) => if t == Token::IdentifierName {
                    r matches Ok(Some(id)) && id.value@ == old(self).src().subrange(st, end)
                        && final(self).lpos() == end
                } else {
                    r == Ok::<Option<Identifier>, ParseError>(None) && final(self).lpos()
                        == skip_ws(old(self).src(), old(self).lpos())
                },
                Step::Eof => r == Ok::<Option<Identifier>, ParseError>(None) && final(self).lpos()
                    == skip_ws(old(self).src(), old(self).lpos()),
                Step::Unrecognized(c, i) => r matches Err(pe) && pe.reason@ == lex_reason(c),
            },
    {
        let ghost s = self.src();
        let ghost lpos0 = self.lpos();
        proof {
            lemma_next_token_spec_bounds(s, lpos0);
            lemma_skip_ws(s, lpos0);
        }
        match self.peek_token() {
            Err(le) => Err(lex_parse_error(le)),
            Ok(Some(Token::IdentifierName)) => {
                match self.next_token() {
                    Err(le) => {
                        proof {
                            assert(false);
                        }
                        Err(lex_parse_error(le))
                    },
                    Ok(_) => {
                        let value = self.tokenizer.slice();
                        Ok(Some(Identifier { value }))
                    },
                }
            },
            _ => Ok(None),
        }
    }

    /// Parses an initializer if an `=` is next. Parsing the initializer
    /// expression itself is a planned extension and is reported as
    /// unsupported; any other upcoming token is left unconsumed and there is
    /// no initializer.
    fn parse_initializer(&mut self) -> (r: Result<Option<Expression>, ParseError>)
        requires
            old(self).wf(),
        ensures
            final(self).wf(),
            final(self).src() == old(self).src(),
            final(self).preserve_comments == old(self).preserve_comments,
            match next_token_spec(old(self).src(), old(self).lpos()) {
                Step::Tok(t, st, end) => if t == Token::Assignment {
                    r matches Err(pe) && pe.reason@ == unsupported_expression_reason()
                } else {
                    r == Ok::<Option<Expression>, ParseError>(None) && final(self).lpos()
                        == skip_ws(old(self).src(), old(self).lpos())
                },
                Step::Eof => r == Ok::<Option<Expression>, ParseError>(None) && final(self).lpos()
                    == skip_ws(old(self).src(), old(self).lpos()),
                Step::Unrecognized(c, i) => r matches Err(pe) && pe.reason@ == lex_reason(c),
            },
    {
        let ghost s = self.src();
        let ghost lpos0 = self.lpos();
        proof {
            lemma_next_token_spec_bounds(s, lpos0);
            lemma_skip_ws(s, lpos0);
        }
        match self.peek_token() {
            Err(le) => Err(lex_parse_error(le)),
            Ok(Some(Token::Assignment)) => {
                match self.next_token() {
                    Err(le) => {
                        proof {
                            assert(false);
                        }
                        Err(lex_parse_error(le))
                    },
                    Ok(_) => self.parse_assignment_expression(),
                }
            },
            _ => Ok(None),
        }
    }

    /// Parses an assignment expression. This is the unfinished extension
    /// point of the grammar: the data model already holds the expression
    /// tree, and until an operator-precedence parser builds it, every
    /// initializer is reported as unsupported rather than stopping the whole
    /// process.
    fn parse_assignment_expression(&mut self) -> (r: Result<Option<Expression>, ParseError>)
        ensures
            *final(self) == *old(self),
            r matches Err(pe) && pe.reason@ == unsupported_expression_reason(),
    {
        Err(ParseError { reason: String::from_str("Assignment expressions are not supported.") })
    }

    /// Fetches the next token without consuming it from the logical stream,
    /// caching it in the lookahead slot.
    fn peek_token(&mut self) -> (r: Result<Option<Token>, LexError>)
        requires
            old(self).wf(),
        ensures
            final(self).wf(),
            final(self).src() == old(self).src(),
            final(self).preserve_comments == old(self).preserve_comments,
            match next_token_spec(old(self).src(), old(self).lpos()) {
                Step::Eof => r == Ok::<Option<Token>, LexError>(None) && final(self).lookahead
                    is None && final(self).lpos() == old(self).src().len(),
                Step::Unrecognized(c, i) => r == Err::<Option<Token>, LexError>(
                    LexError { character: c },
                ) && final(self).lookahead is None && final(self).lpos() == i,
                Step::Tok(t, st, end) => {
                    &&& r == Ok::<Option<Token>, LexError>(Some(t))
                    &&& final(self).lookahead == Some(t)
                    &&& final(self).tokenizer.tok_start == st
                    &&& final(self).tokenizer.tok_end == end
                    &&& final(self).tokenizer.pos == end
                },
            },
    {
        let ghost s = self.src();
        let ghost lpos0 = self.lpos();
        match self.lookahead {
            Some(t) => Ok(Some(t)),
            None => {
                proof {
                    lemma_step_at_start(s, lpos0);
                    lemma_next_token_spec_bounds(s, lpos0);
                    lemma_skip_ws(s, lpos0);
                }
                let r = self.tokenizer.next_token();
                match r {
                    Ok(Some(t)) => {
                        self.lookahead = Some(t);
                        Ok(Some(t))
                    },
                    Ok(None) => Ok(None),
                    Err(le) => Err(le),
                }
            },
        }
    }

    /// Consumes the next token of the logical stream: the cached lookahead
    /// token if one is held, else a fresh token from the tokenizer. After a
    /// token is returned, the tokenizer's slice is that token's text.
    fn next_token(&mut self) -> (r: Result<Option<Token>, LexError>)
        requires
            old(self).wf(),
        ensures
            final(self).wf(),
            final(self).src() == old(self).src(),
            final(self).preserve_comments == old(self).preserve_comments,
            final(self).lookahead is None,
            match next_token_spec(old(self).src(), old(self).lpos()) {
                Step::Eof => r == Ok::<Option<Token>, LexError>(None) && final(self).lpos() == old(
                    self,
                ).src().len() && final(self).tokenizer.cur_slice() == Seq::<char>::empty(),
                Step::Unrecognized(c, i) => r == Err::<Option<Token>, LexError>(
                    LexError { character: c },
                ) && final(self).lpos() == i,
                Step::Tok(t, st, end) => {
                    &&& r == Ok::<Option<Token>, LexError>(Some(t))
                    &&& final(self).tokenizer.tok_start == st
                    &&& final(self).tokenizer.tok_end == end
                    &&& final(self).tokenizer.pos == end
                    &&& final(self).lpos() == end
                },
            },
    {
        let ghost s = self.src();
        let ghost lpos0 = self.lpos();
        match self.lookahead {
            Some(t) => {
                self.lookahead = None;
                Ok(Some(t))
            },
            None => {
                let r = self.tokenizer.next_token();
                proof {
                    if r matches Ok(o) && o is None {
                        assert(self.tokenizer.cur_slice() =~= Seq::<char>::empty());
                    }
                }
                r
            },
        }
    }

    /// Consumes the next token and demands that it be the expected one;
    /// anything else is an error naming the expected token and the token
    /// that actually came (or the end of the stream).
    fn expect_token(&mut self, expected: Token) -> (r: Result<(), ParseError>)
        requires
            old(self).wf(),
        ensures
            final(self).wf(),
            final(self).src() == old(self).src(),
            final(self).preserve_comments == old(self).preserve_comments,
            match next_token_spec(old(self).src(), old(self).lpos()) {
                Step::Tok(t, st, end) => if t == expected {
                    &&& r matches Ok(u)
                    &&& final(self).lpos() == end
                    &&& final(self).tokenizer.tok_start == st
                    &&& final(self).tokenizer.tok_end == end
                } else {
                    r matches Err(pe) && pe.reason@ == expected_token_reason(expected, Some(t))
                },
                Step::Eof => r matches Err(pe) && pe.reason@ == expected_token_reason(
                    expected,
                    None,
                ),
                Step::Unrecognized(c, i) => r matches Err(pe) && pe.reason@ == lex_reason(c),
            },
    {
        match self.next_token() {
            Err(le) => Err(lex_parse_error(le)),
            Ok(None) => Err(expected_token_error(expected, None)),
            Ok(Some(actual)) => {
                if actual == expected {
                    Ok(())
                } else {
                    Err(expected_token_error(expected, Some(actual)))
                }
            },
        }
    }
}

/// The parse error reporting a demanded token that did not come: it names
/// the expected token kind and the actual one, or the end of the stream.
fn expected_token_error(expected: Token, actual: Option<Token>) -> (pe: ParseError)
    ensures
        pe.reason@ == expected_token_reason(expected, actual),
{
    let mut reason = String::from_str("Expected token `");
    let expected_name = token_name(expected);
    reason.append(expected_name.as_str());
    reason.append("`, but was `");
    match actual {
        Some(t) => {
            reason.append("Some(");
            let actual_name = token_name(t);
            reason.append(actual_name.as_str());
            reason.append(")");
        },
        None => {
            reason.append("None");
        },
    }
    reason.append("`");
    proof {
        assert(reason@ =~= expected_token_reason(expected, actual));
    }
    ParseError { reason }
}

/// The parse error reporting a character that starts no token.
fn lex_parse_error(le: LexError) -> (pe: ParseError)
    ensures
        pe.reason@ == lex_reason(le.character),
{
    let mut reason = String::from_str("Unrecognized character: ");
    push_char(&mut reason, le.character);
    ParseError { reason }
}

/// Two statement vectors that agree on their first `n` statements have the
/// same views of those statements.
pub proof fn lemma_stmts_view_upto_agree(u: Vec<Statement>, v: Vec<Statement>, n: int)
    requires
        n <= u@.len(),
        n <= v@.len(),
        forall|i: int| 0 <= i < n ==> u@[i] == v@[i],
    ensures
        stmts_view_upto(u, n) == stmts_view_upto(v, n),
    decreases n,
{
    if n > 0 {
        lemma_stmts_view_upto_agree(u, v, n - 1);
    }
}

/// A token step is reproduced when taken from the very start of the token it
/// yields, and an unrecognized character is reported again from its own
/// position.
pub proof fn lemma_step_at_start(s: Seq<char>, p: int)
    requires
        0 <= p <= s.len(),
    ensures
        match next_token_spec(s, p) {
            Step::Tok(t, st, end) => next_token_spec(s, st) == Step::Tok(t, st, end),
            Step::Unrecognized(c, i) => next_token_spec(s, i) == Step::Unrecognized(c, i),
            Step::Eof => true,
        },
{
    lemma_skip_ws(s, p);
    lemma_next_token_spec_bounds(s, p);
}

} // verus!
