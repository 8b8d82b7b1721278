use tsparser::ast::{BlockStatement, DeclarationKind, ImportClause, Script, Statement};
use tsparser::parser::Parser;
use tsparser::tokenizer::Tokenizer;

fn parser_for(source: &str) -> Parser {
    Parser::new(Tokenizer::new(source.chars().collect()))
}

fn parse(source: &str) -> Result<Script, String> {
    match parser_for(source).parse_script() {
        Ok(script) => Ok(script),
        Err(e) => Err(e.reason),
    }
}

#[test]
fn named_import_parse() {
    let script = parse("import { a, b } from \"m\"").unwrap();
    assert_eq!(script.body.stmts.len(), 1);
    match &script.body.stmts[0] {
        Statement::ImportDeclaration(decl) => {
            match &decl.import_clause {
                Some(ImportClause::NamedImports(names)) => {
                    assert_eq!(names.len(), 2);
                    assert_eq!(names[0], "a");
                    assert_eq!(names[1], "b");
                },
                None => panic!("expected a named-import clause"),
            }
            assert_eq!(decl.module_specifier.value, "\"m\"");
        },
        other => panic!("expected an import declaration, got {:?}", other),
    }
}

#[test]
fn bare_import_parse() {
    let script = parse("import \"m\"").unwrap();
    assert_eq!(script.body.stmts.len(), 1);
    match &script.body.stmts[0] {
        Statement::ImportDeclaration(decl) => {
            assert!(decl.import_clause.is_none());
            assert_eq!(decl.module_specifier.value, "\"m\"");
        },
        other => panic!("expected an import declaration, got {:?}", other),
    }
}

#[test]
fn variable_declaration_without_initializer() {
    let script = parse("let x").unwrap();
    assert_eq!(script.body.stmts.len(), 1);
    match &script.body.stmts[0] {
        Statement::VariableStatement(var) => {
            assert_eq!(var.kind, DeclarationKind::Let);
            assert_eq!(var.binding_identifier.value, "x");
            assert!(var.initializer.is_none());
        },
        other => panic!("expected a variable statement, got {:?}", other),
    }
}

#[test]
fn unexpected_leading_token_names_lexeme() {
    let reason = parse("}").unwrap_err();
    assert_eq!(reason, "Unexpected token: }");
}

#[test]
fn unexpected_leading_identifier_names_lexeme() {
    let reason = parse("foo").unwrap_err();
    assert_eq!(reason, "Unexpected token: foo");
}

#[test]
fn const_and_var_also_declare() {
    let script = parse("const c\nvar v").unwrap();
    assert_eq!(script.body.stmts.len(), 2);
    match &script.body.stmts[0] {
        Statement::VariableStatement(var) => {
            assert_eq!(var.kind, DeclarationKind::Const);
            assert_eq!(var.binding_identifier.value, "c");
        },
        other => panic!("expected a variable statement, got {:?}", other),
    }
    match &script.body.stmts[1] {
        Statement::VariableStatement(var) => {
            assert_eq!(var.kind, DeclarationKind::Var);
            assert_eq!(var.binding_identifier.value, "v");
        },
        other => panic!("expected a variable statement, got {:?}", other),
    }
}

#[test]
fn empty_input_parses_to_empty_script() {
    let script = parse("").unwrap();
    assert_eq!(script.body.stmts.len(), 0);
}

#[test]
fn comments_are_skipped_by_default() {
    let script = parse("// leading\nlet x // trailing").unwrap();
    assert_eq!(script.body.stmts.len(), 1);
    assert!(matches!(script.body.stmts[0], Statement::VariableStatement(_)));
}

#[test]
fn comments_are_preserved_on_request() {
    let mut parser = parser_for("// leading\nlet x");
    parser.set_preserve_comments(true);
    let script = parser.parse_script().unwrap();
    assert_eq!(script.body.stmts.len(), 2);
    assert!(matches!(script.body.stmts[0], Statement::Comment));
    assert!(matches!(script.body.stmts[1], Statement::VariableStatement(_)));
}

#[test]
fn named_imports_tolerate_extra_commas() {
    let script = parse("import { a, , b, } from \"m\"").unwrap();
    match &script.body.stmts[0] {
        Statement::ImportDeclaration(decl) => match &decl.import_clause {
            Some(ImportClause::NamedImports(names)) => {
                assert_eq!(names.len(), 2);
                assert_eq!(names[0], "a");
                assert_eq!(names[1], "b");
            },
            None => panic!("expected a named-import clause"),
        },
        other => panic!("expected an import declaration, got {:?}", other),
    }
}

#[test]
fn named_imports_demand_identifiers() {
    let reason = parse("import { 1 } from \"m\"").unwrap_err();
    assert_eq!(reason, "Identifier expected");
}

#[test]
fn unclosed_named_imports_demand_identifiers() {
    let reason = parse("import { a").unwrap_err();
    assert_eq!(reason, "Identifier expected");
}

#[test]
fn named_imports_demand_from() {
    let reason = parse("import { a } x").unwrap_err();
    assert_eq!(reason, "`from` expected");
}

#[test]
fn from_demands_module_specifier() {
    let reason = parse("import { a } from").unwrap_err();
    assert_eq!(reason, "Expression expected.");
}

#[test]
fn bare_import_demands_module_specifier() {
    let reason = parse("import let").unwrap_err();
    assert_eq!(reason, "Declaration or statement expected.");
}

#[test]
fn declaration_demands_binding_identifier() {
    let reason = parse("let 5").unwrap_err();
    assert_eq!(reason, "Identifier expected");
}

#[test]
fn initializer_expressions_are_unsupported() {
    let reason = parse("let x = 1").unwrap_err();
    assert_eq!(reason, "Assignment expressions are not supported.");
}

#[test]
fn unrecognized_character_stops_the_parse() {
    let reason = parse("let @").unwrap_err();
    assert_eq!(reason, "Unrecognized character: @");
}

#[test]
fn statements_keep_source_order() {
    let script = parse("import \"m\"\nlet x\nconst y").unwrap();
    assert_eq!(script.body.stmts.len(), 3);
    assert!(matches!(script.body.stmts[0], Statement::ImportDeclaration(_)));
    assert!(matches!(script.body.stmts[1], Statement::VariableStatement(_)));
    assert!(matches!(script.body.stmts[2], Statement::VariableStatement(_)));
}

#[test]
fn script_new_wraps_its_body() {
    let script = Script::new(BlockStatement { stmts: Vec::new() });
    assert_eq!(script.body.stmts.len(), 0);
}

#[test]
fn offending_token_position_is_available_after_an_error() {
    let mut parser = parser_for("let x\n}");
    let result = parser.parse_script();
    assert!(result.is_err());
    assert_eq!(parser.tokenizer.position(), (1, 0));
}
