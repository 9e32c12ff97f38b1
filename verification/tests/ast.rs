use monkey::ast::{
    Expression, ExpressionStatement, Identifier, LetStatement, Node, Program, ReturnStatement,
    Statement,
};
use monkey::token::Token;

fn name(text: &str) -> Identifier {
    Identifier::new(text.to_string())
}

fn variable(text: &str) -> Expression {
    Expression::Identifier(name(text))
}

fn bare(text: &str) -> ExpressionStatement {
    ExpressionStatement::new(Token::Ident(text.to_string()), variable(text))
}

#[test]
fn let_statement_renders_as_source() {
    let program = Program {
        statements: vec![Statement::Let(LetStatement::new(
            name("my_var"),
            variable("another_var"),
        ))],
    };
    assert_eq!(program.to_source_text(), "let my_var = another_var;");
}

#[test]
fn let_statement_written_field_by_field_renders_the_same() {
    let program = Program {
        statements: vec![Statement::Let(LetStatement {
            token: Token::Let,
            identifier: Identifier {
                token: Token::Ident("my_var".to_string()),
                value: "my_var".to_string(),
            },
            value: Box::new(Expression::Identifier(Identifier {
                token: Token::Ident("another_var".to_string()),
                value: "another_var".to_string(),
            })),
        })],
    };
    assert_eq!(program.to_source_text(), "let my_var = another_var;");
    assert_eq!(program.token_literal(), "let");
}

#[test]
fn return_statement_renders_as_source() {
    let statement = ReturnStatement::new(variable("result"));
    assert_eq!(statement.to_source_text(), "return result;");
    assert_eq!(statement.token_literal(), "return");
    assert_eq!(statement.token, Token::Return);
}

#[test]
fn expression_statement_renders_as_its_expression() {
    let statement = bare("counter");
    assert_eq!(statement.to_source_text(), "counter");
    assert_eq!(statement.token_literal(), "counter");
}

#[test]
fn identifier_renders_as_its_name() {
    let identifier = name("foo_bar");
    assert_eq!(identifier.to_source_text(), "foo_bar");
    assert_eq!(identifier.token_literal(), "foo_bar");
    assert_eq!(identifier.value, "foo_bar");
    assert_eq!(identifier.token, Token::Ident("foo_bar".to_string()));
    let expression = variable("x");
    assert_eq!(expression.to_source_text(), "x");
    assert_eq!(expression.token_literal(), "x");
}

#[test]
fn let_statement_reports_its_leading_token() {
    let statement = LetStatement::new(name("a"), variable("b"));
    assert_eq!(statement.token, Token::Let);
    assert_eq!(statement.token_literal(), "let");
    assert_eq!(statement.to_source_text(), "let a = b;");
    assert_eq!(statement.identifier.value, "a");
    assert_eq!(statement.value.to_source_text(), "b");
}

#[test]
fn program_renders_statement_by_statement() {
    let program = Program {
        statements: vec![
            Statement::Let(LetStatement::new(name("x"), variable("y"))),
            Statement::Return(ReturnStatement::new(variable("x"))),
            Statement::Expression(bare("z")),
            Statement::Let(LetStatement::new(name("foo"), variable("bar"))),
        ],
    };
    let templates = ["let x = y;", "return x;", "z", "let foo = bar;"];
    for (statement, template) in program.statements.iter().zip(templates) {
        assert_eq!(statement.to_source_text(), template);
    }
    assert_eq!(program.to_source_text(), templates.concat());
    assert_eq!(program.to_source_text(), "let x = y;return x;zlet foo = bar;");
}

#[test]
fn program_reports_the_literal_of_its_first_statement() {
    let program = Program {
        statements: vec![
            Statement::Return(ReturnStatement::new(variable("x"))),
            Statement::Let(LetStatement::new(name("x"), variable("y"))),
        ],
    };
    assert_eq!(program.token_literal(), "return");
    let program = Program { statements: vec![Statement::Expression(bare("first"))] };
    assert_eq!(program.token_literal(), "first");
}

#[test]
fn empty_program_has_no_text() {
    let program = Program { statements: vec![] };
    assert_eq!(program.token_literal(), "");
    assert_eq!(program.to_source_text(), "");
}

#[test]
fn statement_reports_what_its_variant_reports() {
    let statement = Statement::Let(LetStatement::new(name("a"), variable("b")));
    assert_eq!(statement.token_literal(), "let");
    let statement = Statement::Return(ReturnStatement::new(variable("a")));
    assert_eq!(statement.token_literal(), "return");
    let statement = Statement::Expression(bare("a"));
    assert_eq!(statement.token_literal(), "a");
}
