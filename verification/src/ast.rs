//! The abstract syntax tree.
//!
//! Every node exclusively owns its children: the tree has no sharing and no
//! cycles. Each node type has a mathematical view (`StatementV` and friends)
//! over which the parser's contracts are stated; text is viewed as
//! `Seq<char>`.

use vstd::prelude::*;

verus! {

broadcast use vstd::std_specs::vec::axiom_vec_index_decreases;

/// A script: the root node of a parsed program.
#[derive(Debug)]
pub struct Script {
    pub body: BlockStatement,
}

impl Script {
    pub fn new(body: BlockStatement) -> (s: Self)
        ensures
            s.body == body,
    {
        Self { body }
    }
}

impl View for Script {
    type V = Seq<StatementV>;

    open spec fn view(&self) -> Seq<StatementV> {
        block_view(self.body)
    }
}

/// An identifier.
#[derive(Debug)]
pub struct Identifier {
    pub value: String,
}

impl View for Identifier {
    type V = Seq<char>;

    open spec fn view(&self) -> Seq<char> {
        self.value@
    }
}

/// An expression.
///
/// Only the data model exists so far: the parser does not yet build
/// expressions, since assignment-expression parsing is a planned extension.
#[derive(Debug)]
pub enum Expression {
    /// A lone identifier.
    Identifier(Identifier),
    /// A binary expression.
    BinaryExpression(Box<BinaryExpression>),
}

/// A binary expression, such as `x + y`: a left operand, a binary operator,
/// and a right operand.
#[derive(Debug)]
pub struct BinaryExpression {
    /// Left side of this binary expression.
    pub left: Expression,
    /// Binary operator of this expression.
    pub op: BinaryOp,
    /// Right side of this binary expression.
    pub right: Expression,
}

/// A binary operator.
#[derive(Clone, Copy, Debug, PartialEq, Eq, Structural)]
pub enum BinaryOp {
    Addition,
    BitwiseAnd,
    BitwiseOr,
    BitwiseXor,
    Division,
    Equality,
    Exponentiation,
    GreaterThan,
    GreaterThanOrEqual,
    Inequality,
    LeftShift,
    LessThan,
    LessThanOrEqual,
    LogicalAnd,
    LogicalOr,
    Multiplication,
    Remainder,
    RightSift,
    StrictEquality,
    StrictInequality,
    Subtraction,
    UnsignedRightShift,
}

/// A statement or a declaration.
#[derive(Debug)]
pub enum Statement {
    BlockStatement(BlockStatement),
    BreakStatement,
    Comment,
    ContinueStatement,
    Expressiontatement,
    ForStatement,
    FunctionDeclaration,
    IfStatement,
    ImportDeclaration(ImportDeclaration),
    VariableStatement(VariableStatement),
}

impl View for Statement {
    type V = StatementV;

    open spec fn view(&self) -> StatementV {
        stmt_view(*self)
    }
}

/// A block statement: an ordered sequence of statements in source order.
#[derive(Debug)]
pub struct BlockStatement {
    pub stmts: Vec<Statement>,
}

impl View for BlockStatement {
    type V = Seq<StatementV>;

    open spec fn view(&self) -> Seq<StatementV> {
        block_view(*self)
    }
}

/// An import declaration: an optional import clause and the module specifier
/// that names the imported module.
#[derive(Debug)]
pub struct ImportDeclaration {
    pub import_clause: Option<ImportClause>,
    pub module_specifier: ModuleSpecifier,
}

impl View for ImportDeclaration {
    type V = ImportDeclarationV;

    open spec fn view(&self) -> ImportDeclarationV {
        ImportDeclarationV {
            import_clause: match self.import_clause {
                Some(c) => Some(clause_view(c)),
                None => None,
            },
            module_specifier: self.module_specifier.value@,
        }
    }
}

/// A module specifier: the string literal naming a module, kept exactly as
/// written, quote characters included.
#[derive(Debug)]
pub struct ModuleSpecifier {
    pub value: String,
}

impl View for ModuleSpecifier {
    type V = Seq<char>;

    open spec fn view(&self) -> Seq<char> {
        self.value@
    }
}

/// An import clause.
#[derive(Debug)]
pub enum ImportClause {
    /// Named imports: the imported names in source order; duplicates are kept
    /// as written.
    NamedImports(Vec<String>),
}

impl View for ImportClause {
    type V = ImportClauseV;

    open spec fn view(&self) -> ImportClauseV {
        clause_view(*self)
    }
}

/// The declared kind of a variable statement: which of the three declaring
/// keywords introduced it.
#[derive(Clone, Copy, Debug, PartialEq, Eq, Structural)]
pub enum DeclarationKind {
    Const,
    Let,
    Var,
}

/// A variable statement: the declared kind, the binding identifier and an
/// optional initializer.
#[derive(Debug)]
pub struct VariableStatement {
    pub kind: DeclarationKind,
    pub binding_identifier: Identifier,
    pub initializer: Option<Expression>,
}

impl View for VariableStatement {
    type V = VariableStatementV;

    open spec fn view(&self) -> VariableStatementV {
        var_stmt_view(*self)
    }
}

/// The view of a statement.
pub enum StatementV {
    Block(Seq<StatementV>),
    Break,
    Comment,
    Continue,
    ExpressionStmt,
    For,
    FunctionDecl,
    If,
    Import(ImportDeclarationV),
    Variable(VariableStatementV),
}

/// The view of an import declaration.
pub struct ImportDeclarationV {
    pub import_clause: Option<ImportClauseV>,
    pub module_specifier: Seq<char>,
}

/// The view of an import clause.
pub enum ImportClauseV {
    NamedImports(Seq<Seq<char>>),
}

/// The view of a variable statement.
pub struct VariableStatementV {
    pub kind: DeclarationKind,
    pub binding_identifier: Seq<char>,
    pub initializer: Option<ExpressionV>,
}

/// The view of an expression.
pub enum ExpressionV {
    Identifier(Seq<char>),
    Binary(Box<ExpressionV>, BinaryOp, Box<ExpressionV>),
}

/// The view of an import clause as a sequence of names.
pub open spec fn clause_view(c: ImportClause) -> ImportClauseV {
    match c {
        ImportClause::NamedImports(names) => ImportClauseV::NamedImports(names.deep_view()),
    }
}

/// The view of an expression.
pub open spec fn expr_view(e: Expression) -> ExpressionV
    decreases e,
{
    match e {
        Expression::Identifier(id) => ExpressionV::Identifier(id.value@),
        Expression::BinaryExpression(b) => ExpressionV::Binary(
            Box::new(expr_view(b.left)),
            b.op,
            Box::new(expr_view(b.right)),
        ),
    }
}

/// The view of a variable statement.
pub open spec fn var_stmt_view(v: VariableStatement) -> VariableStatementV {
    VariableStatementV {
        kind: v.kind,
        binding_identifier: v.binding_identifier.value@,
        initializer: match v.initializer {
            Some(e) => Some(expr_view(e)),
            None => None,
        },
    }
}

/// The view of a statement.
pub open spec fn stmt_view(s: Statement) -> StatementV
    decreases s, 0int,
{
    match s {
        Statement::BlockStatement(b) => StatementV::Block(stmts_view_upto(b.stmts, b.stmts@.len() as int)),
        Statement::BreakStatement => StatementV::Break,
        Statement::Comment => StatementV::Comment,
        Statement::ContinueStatement => StatementV::Continue,
        Statement::Expressiontatement => StatementV::ExpressionStmt,
        Statement::ForStatement => StatementV::For,
        Statement::FunctionDeclaration => StatementV::FunctionDecl,
        Statement::IfStatement => StatementV::If,
        Statement::ImportDeclaration(d) => StatementV::Import(
            ImportDeclarationV {
                import_clause: match d.import_clause {
                    Some(c) => Some(clause_view(c)),
                    None => None,
                },
                module_specifier: d.module_specifier.value@,
            },
        ),
        Statement::VariableStatement(v) => StatementV::Variable(var_stmt_view(v)),
    }
}

/// The views of the first `n` statements of a vector, in order.
pub open spec fn stmts_view_upto(v: Vec<Statement>, n: int) -> Seq<StatementV>
    decreases v, n,
{
    if n <= 0 || v@.len() < n {
        Seq::empty()
    } else {
        stmts_view_upto(v, n - 1).push(stmt_view(v@[n - 1]))
    }
}

/// The view of a block statement: the views of its statements, in order.
pub open spec fn block_view(b: BlockStatement) -> Seq<StatementV> {
    stmts_view_upto(b.stmts, b.stmts@.len() as int)
}

} // verus!
