//! The syntax tree: statements and expressions that report the literal of
//! their leading token and render themselves back to source text.

use crate::token::{Token, TokenView};
use vstd::prelude::*;
use vstd::string::StringExecFns;

verus! {

/// What every node of the tree can do.
pub trait Node {
    /// The invariant of the node, which its constructor establishes.
    spec fn well_formed(&self) -> bool;

    /// The literal of the node's leading token.
    spec fn literal(&self) -> Seq<char>;

    /// The source text that the node stands for.
    spec fn source(&self) -> Seq<char>;

    /// Returns the literal of the node's leading token.
    ///
    /// A node whose stored token is not of the kind that the node stands
    /// for has no literal to report; the precondition leaves it out.
    fn token_literal(&self) -> (text: String)
        requires
            self.well_formed(),
        ensures
            text@ == self.literal(),
    ;

    /// Renders the node back to source text.
    fn to_source_text(&self) -> (text: String)
        ensures
            text@ == self.source(),
    ;
}

// ======================================================
// Identifier Node
/// A name used as an expression, or bound by a `let`.
pub struct Identifier {
    pub token: Token,
    pub value: String,
}

impl Identifier {
    /// The identifier of the given name, with the token that carries it.
    pub fn new(name: String) -> (identifier: Self)
        ensures
            identifier.well_formed(),
            identifier.value@ == name@,
            identifier.token@ == TokenView::Ident(name@),
    {
        Identifier { token: Token::Ident(name.clone()), value: name }
    }
}

impl Node for Identifier {
    /// The stored name is the payload of the identifier token.
    open spec fn well_formed(&self) -> bool {
        self.token@ == TokenView::Ident(self.value@)
    }

    open spec fn literal(&self) -> Seq<char> {
        self.token@.literal()
    }

    open spec fn source(&self) -> Seq<char> {
        self.value@
    }

    fn token_literal(&self) -> (text: String) {
        match &self.token {
            Token::Ident(value) => value.clone(),
            _ => vstd::pervasive::unreached(),
        }
    }

    fn to_source_text(&self) -> (text: String) {
        self.value.clone()
    }
}

// ======================================================
// Expression nodes (produce a value -- ex: add(5, 5) or 5)
/// The expressions of the language.
pub enum Expression {
    Identifier(Identifier),
}

impl Node for Expression {
    open spec fn well_formed(&self) -> bool {
        match self {
            Expression::Identifier(identifier) => identifier.well_formed(),
        }
    }

    open spec fn literal(&self) -> Seq<char> {
        match self {
            Expression::Identifier(identifier) => identifier.literal(),
        }
    }

    open spec fn source(&self) -> Seq<char> {
        match self {
            Expression::Identifier(identifier) => identifier.source(),
        }
    }

    fn token_literal(&self) -> (text: String) {
        match self {
            Expression::Identifier(identifier) => identifier.token_literal(),
        }
    }

    fn to_source_text(&self) -> (text: String) {
        match self {
            Expression::Identifier(identifier) => identifier.to_source_text(),
        }
    }
}

// ======================================================
// Let Statement Node
/// `let <name> = <value>;`
pub struct LetStatement {
    pub token: Token,
    pub identifier: Identifier,
    pub value: Box<Expression>,
}

impl LetStatement {
    /// The statement that binds `identifier` to `value`.
    pub fn new(identifier: Identifier, value: Expression) -> (statement: Self)
        ensures
            statement.token@ == TokenView::Let,
            statement.identifier == identifier,
            *statement.value == value,
            statement.well_formed() == (identifier.well_formed() && value.well_formed()),
    {
        LetStatement { token: Token::Let, identifier, value: Box::new(value) }
    }
}

impl Node for LetStatement {
    open spec fn well_formed(&self) -> bool {
        &&& self.token@ == TokenView::Let
        &&& self.identifier.well_formed()
        &&& self.value.well_formed()
    }

    open spec fn literal(&self) -> Seq<char> {
        self.token@.literal()
    }

    open spec fn source(&self) -> Seq<char> {
        "let "@ + self.identifier.source() + " = "@ + self.value.source() + ";"@
    }

    fn token_literal(&self) -> (text: String) {
        self.token.literal()
    }

    fn to_source_text(&self) -> (text: String) {
        let mut text = "let ".to_string();
        text.append(self.identifier.to_source_text().as_str());
        text.append(" = ");
        text.append(self.value.to_source_text().as_str());
        text.append(";");
        text
    }
}

// ======================================================
// Return Statement Node
/// `return <value>;`
pub struct ReturnStatement {
    pub token: Token,
    pub return_value: Box<Expression>,
}

impl ReturnStatement {
    /// The statement that returns `value`.
    pub fn new(value: Expression) -> (statement: Self)
        ensures
            statement.token@ == TokenView::Return,
            *statement.return_value == value,
            statement.well_formed() == value.well_formed(),
    {
        ReturnStatement { token: Token::Return, return_value: Box::new(value) }
    }
}

impl Node for ReturnStatement {
    open spec fn well_formed(&self) -> bool {
        &&& self.token@ == TokenView::Return
        &&& self.return_value.well_formed()
    }

    open spec fn literal(&self) -> Seq<char> {
        self.token@.literal()
    }

    open spec fn source(&self) -> Seq<char> {
        "return "@ + self.return_value.source() + ";"@
    }

    fn token_literal(&self) -> (text: String) {
        self.token.literal()
    }

    fn to_source_text(&self) -> (text: String) {
        let mut text = "return ".to_string();
        text.append(self.return_value.to_source_text().as_str());
        text.append(";");
        text
    }
}

// ======================================================
// Expression Statement Node
/// A bare expression used as a statement.
pub struct ExpressionStatement {
    pub token: Token,
    pub expression: Box<Expression>,
}

impl ExpressionStatement {
    /// The statement made of `expression`, whose first token is `token`.
    pub fn new(token: Token, expression: Expression) -> (statement: Self)
        ensures
            statement.token == token,
            *statement.expression == expression,
            statement.well_formed() == expression.well_formed(),
    {
        ExpressionStatement { token, expression: Box::new(expression) }
    }
}

impl Node for ExpressionStatement {
    open spec fn well_formed(&self) -> bool {
        self.expression.well_formed()
    }

    open spec fn literal(&self) -> Seq<char> {
        self.token@.literal()
    }

    open spec fn source(&self) -> Seq<char> {
        self.expression.source()
    }

    fn token_literal(&self) -> (text: String) {
        self.token.literal()
    }

    fn to_source_text(&self) -> (text: String) {
        self.expression.to_source_text()
    }
}

// ======================================================
// Statement nodes (don't produce a value)
/// The statements of the language.
pub enum Statement {
    Let(LetStatement),
    Return(ReturnStatement),
    Expression(ExpressionStatement),
}

impl Node for Statement {
    open spec fn well_formed(&self) -> bool {
        match self {
            Statement::Let(statement) => statement.well_formed(),
            Statement::Return(statement) => statement.well_formed(),
            Statement::Expression(statement) => statement.well_formed(),
        }
    }

    open spec fn literal(&self) -> Seq<char> {
        match self {
            Statement::Let(statement) => statement.literal(),
            Statement::Return(statement) => statement.literal(),
            Statement::Expression(statement) => statement.literal(),
        }
    }

    open spec fn source(&self) -> Seq<char> {
        match self {
            Statement::Let(statement) => statement.source(),
            Statement::Return(statement) => statement.source(),
            Statement::Expression(statement) => statement.source(),
        }
    }

    fn token_literal(&self) -> (text: String) {
        match self {
            Statement::Let(statement) => statement.token_literal(),
            Statement::Return(statement) => statement.token_literal(),
            Statement::Expression(statement) => statement.token_literal(),
        }
    }

    fn to_source_text(&self) -> (text: String) {
        match self {
            Statement::Let(statement) => statement.to_source_text(),
            Statement::Return(statement) => statement.to_source_text(),
            Statement::Expression(statement) => statement.to_source_text(),
        }
    }
}

// ======================================================
// Root Program Node
/// A whole program: its statements in source order.
pub struct Program {
    pub statements: Vec<Statement>,
}

/// The source texts of a sequence of statements, one for each, in order.
pub open spec fn sources(statements: Seq<Statement>) -> Seq<Seq<char>> {
    statements.map_values(|statement: Statement| statement.source())
}

impl Node for Program {
    open spec fn well_formed(&self) -> bool {
        forall|i: int|
            0 <= i < self.statements@.len() ==> #[trigger] self.statements@[i].well_formed()
    }

    open spec fn literal(&self) -> Seq<char> {
        if self.statements@.len() > 0 {
            self.statements@[0].literal()
        } else {
            Seq::empty()
        }
    }

    /// The source texts of the statements, one after the other.
    open spec fn source(&self) -> Seq<char> {
        sources(self.statements@).flatten()
    }

    fn token_literal(&self) -> (text: String) {
        if self.statements.len() > 0 {
            self.statements[0].token_literal()
        } else {
            String::new()
        }
    }

    fn to_source_text(&self) -> (text: String) {
        let mut text = String::new();
        let mut i: usize = 0;
        while i < self.statements.len()
            invariant
                i <= self.statements@.len(),
                text@ == sources(self.statements@.take(i as int)).flatten(),
            decreases self.statements@.len() - i,
        {
            let rendered = self.statements[i].to_source_text();
            proof {
                let done = self.statements@.take(i as int);
                assert(self.statements@.take(i + 1) == done.push(self.statements@[i as int]));
                assert(sources(done.push(self.statements@[i as int])) == sources(done).push(
                    rendered@,
                ));
                sources(done).lemma_flatten_push(rendered@);
            }
            text.append(rendered.as_str());
            i += 1;
        }
        assert(self.statements@.take(i as int) == self.statements@);
        text
    }
}

/// What a well-formed node reports as its leading literal: an identifier its
/// name, a binding `let`, a return `return`, an expression statement the
/// literal of its token, and a program what its first statement reports, or
/// nothing where it has no statement.
pub proof fn lemma_leading_literals(program: Program)
    requires
        program.well_formed(),
    ensures
        program.statements@.len() == 0 ==> program.literal() == Seq::<char>::empty(),
        program.statements@.len() > 0 ==> program.literal() == match program.statements@[0] {
            Statement::Let(_) => "let"@,
            Statement::Return(_) => "return"@,
            Statement::Expression(bare) => bare.token@.literal(),
        },
        forall|identifier: Identifier| #[trigger]
            identifier.well_formed() ==> identifier.literal() == identifier.value@,
{
    if program.statements@.len() > 0 {
        assert(program.statements@[0].well_formed());
    }
}

/// Each statement renders by its template: a binding as `let <name> =
/// <value>;`, a return as `return <value>;`, and an expression statement as
/// the expression itself.
pub proof fn lemma_statement_templates(statement: Statement)
    ensures
        match statement {
            Statement::Let(binding) => statement.source() == "let "@ + binding.identifier.value@
                + " = "@ + binding.value.source() + ";"@,
            Statement::Return(returning) => statement.source() == "return "@
                + returning.return_value.source() + ";"@,
            Statement::Expression(bare) => statement.source() == bare.expression.source(),
        },
{
}

/// A program renders statement by statement: a program without statements
/// as the empty text, and a program with one statement more as the shorter
/// program followed by that statement.
pub proof fn lemma_program_source_appends(shorter: Program, longer: Program)
    requires
        longer.statements@.len() > 0,
        shorter.statements@ == longer.statements@.drop_last(),
    ensures
        shorter.statements@.len() == 0 ==> shorter.source() == Seq::<char>::empty(),
        longer.source() == shorter.source() + longer.statements@.last().source(),
{
    let last = longer.statements@.last();
    assert(sources(longer.statements@) == sources(shorter.statements@).push(last.source()));
    sources(shorter.statements@).lemma_flatten_push(last.source());
}

} // verus!
