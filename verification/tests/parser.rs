use lang_frontend::ast::{Expression, Node, Program, Statement};
use lang_frontend::lexer::Lexer;
use lang_frontend::parser::Parser;
use lang_frontend::token::TokenType;

fn parse(input: &str) -> (Program, Vec<String>) {
    let lexer = Lexer::new(input.to_string());
    let mut parser = Parser::new(lexer);
    let program = parser.parse_program().unwrap();
    (program, parser.errors())
}

fn text_of(expression: &Expression) -> (&'static str, String) {
    match expression {
        Expression::Identifier(identifier) => ("identifier", identifier.name.clone()),
        Expression::Literal(literal) => ("literal", literal.value.clone()),
    }
}

fn describe(statement: &Statement) -> String {
    match statement {
        Statement::Let(statement) => {
            let (kind, text) = text_of(&statement.value);
            format!("let {} = {} {}", statement.name.name, kind, text)
        }
        Statement::Return(statement) => {
            let (kind, text) = text_of(&statement.return_value);
            format!("return {} {}", kind, text)
        }
        Statement::Expression(statement) => {
            let (kind, text) = text_of(&statement.expression);
            format!("{} {}", kind, text)
        }
    }
}

fn described(input: &str) -> (Vec<String>, Vec<String>) {
    let (program, errors) = parse(input);
    (program.statements.iter().map(describe).collect(), errors)
}

#[test]
fn test_let_statements() {
    let input = r#"let x = 5;
        let y = 10;
        let foobar = 838383;
        "#;

    let lexer = Lexer::new(input.to_string());
    let mut parser = Parser::new(lexer);

    let program = parser.parse_program();
    assert!(program.is_some(), "Parsing error: Program is has no nodes");

    assert!(
        parser.errors().is_empty(),
        "Parser has {} errors:\n\t{}",
        parser.errors().len(),
        parser.errors().join("\n\t")
    );

    let program = program.unwrap();
    assert_eq!(
        program.statements.len(),
        3,
        "Found {} statements, expected 3",
        program.statements.len()
    );

    let expected_identifiers = vec![("x", "5"), ("y", "10"), ("foobar", "838383")];

    for (i, (exp_ident, _exp_value)) in expected_identifiers.iter().enumerate() {
        let stmt = &program.statements[i];

        match stmt {
            Statement::Let(l_stmt) => {
                assert_eq!(l_stmt.name.name, *exp_ident);
            }
            _ => panic!("Expected LetStatement, got {:?}", stmt),
        }
    }
}

#[test]
fn test_return_statements() {
    let input = r#"return 5;
        return 10;
        return 993322;
        "#;

    let lexer = Lexer::new(input.to_string());
    let mut parser = Parser::new(lexer);

    let program = parser.parse_program();
    assert!(program.is_some(), "Parsing error: Program is has no nodes");

    assert!(
        parser.errors().is_empty(),
        "Parser has {} errors:\n\t{}",
        parser.errors().len(),
        parser.errors().join("\n\t")
    );

    let program = program.unwrap();
    assert_eq!(
        program.statements.len(),
        3,
        "Found {} statements, expected 3",
        program.statements.len()
    );

    for (_i, statement) in program.statements.iter().enumerate() {
        match statement {
            Statement::Return(stmt) => {
                assert_eq!(
                    stmt.token.kind,
                    TokenType::RETURN,
                    "Expected Return token, got {:?}",
                    stmt.token.kind
                );
            }
            _ => {
                panic!("Expected ReturnStatement, got {:?}", statement);
            }
        }
    }
}

#[test]
fn let_statements_on_three_lines() {
    let (statements, errors) = described("let x = 5;\nlet y = 10;\nlet foobar = 838383;");
    assert_eq!(
        statements,
        vec!["let x = literal 5", "let y = literal 10", "let foobar = literal 838383"]
    );
    assert!(errors.is_empty());
}

#[test]
fn return_statements_on_three_lines() {
    let (statements, errors) = described("return 5;\nreturn 10;\nreturn 993322;");
    assert_eq!(
        statements,
        vec!["return literal 5", "return literal 10", "return literal 993322"]
    );
    assert!(errors.is_empty());
}

#[test]
fn a_let_without_a_name_is_reported_and_dropped() {
    let (statements, errors) = described("let = 5;");
    assert!(statements.is_empty());
    assert_eq!(errors, vec!["expected next token to be IDENT, got ASSIGN instead"]);
}

#[test]
fn parsing_goes_on_after_a_broken_statement() {
    let (statements, errors) = described("let = 5; let y = 10; let 7; return x;");
    assert_eq!(statements, vec!["let y = literal 10", "return identifier x"]);
    assert_eq!(
        errors,
        vec![
            "expected next token to be IDENT, got ASSIGN instead",
            "expected next token to be IDENT, got INT instead",
        ]
    );
}

#[test]
fn a_let_without_an_assignment_is_reported() {
    let (statements, errors) = described("let x 5; let z = w;");
    assert_eq!(statements, vec!["let z = identifier w"]);
    assert_eq!(errors, vec!["expected next token to be ASSIGN, got INT instead"]);

    let (statements, errors) = described("let x;");
    assert!(statements.is_empty());
    assert_eq!(errors, vec!["expected next token to be ASSIGN, got SEMICOLON instead"]);
}

#[test]
fn a_let_without_a_value_is_reported() {
    let (statements, errors) = described("let x = ; let y = true;");
    assert_eq!(statements, vec!["let y = literal true"]);
    assert_eq!(errors, vec!["expected an expression, got SEMICOLON instead"]);
}

#[test]
fn a_statement_without_a_semicolon_is_reported() {
    let (statements, errors) = described("let x = 5");
    assert!(statements.is_empty());
    assert_eq!(errors, vec!["expected next token to be SEMICOLON, got EOF instead"]);

    let (statements, errors) = described("return 5 let y = 1;");
    assert!(statements.is_empty());
    assert_eq!(errors, vec!["expected next token to be SEMICOLON, got LET instead"]);
}

#[test]
fn what_follows_the_first_expression_token_is_reported() {
    let (statements, errors) = described("let x = 5 + 5; let y = 2;");
    assert_eq!(statements, vec!["let y = literal 2"]);
    assert_eq!(errors, vec!["expected next token to be SEMICOLON, got PLUS instead"]);
}

#[test]
fn a_return_without_a_value_is_reported() {
    let (statements, errors) = described("return; return false;");
    assert_eq!(statements, vec!["return literal false"]);
    assert_eq!(errors, vec!["expected an expression, got SEMICOLON instead"]);

    let (statements, errors) = described("return");
    assert!(statements.is_empty());
    assert_eq!(errors, vec!["expected an expression, got EOF instead"]);
}

#[test]
fn an_integer_that_does_not_fit_is_no_expression() {
    let (statements, errors) = described("let x = 99999999999999999999999999999999999; 1;");
    assert_eq!(statements, vec!["literal 1"]);
    assert_eq!(errors, vec!["expected an expression, got ILLEGAL instead"]);
}

#[test]
fn expression_statements_may_lack_the_semicolon() {
    let (statements, errors) = described("x; 5 true; false");
    assert_eq!(
        statements,
        vec!["identifier x", "literal 5", "literal true", "literal false"]
    );
    assert!(errors.is_empty());
}

#[test]
fn a_token_that_begins_no_statement_is_reported() {
    let (statements, errors) = described(") x; y;");
    assert_eq!(statements, vec!["identifier y"]);
    assert_eq!(errors, vec!["expected an expression, got RPAREN instead"]);

    let (statements, errors) = described(";");
    assert!(statements.is_empty());
    assert_eq!(errors, vec!["expected an expression, got SEMICOLON instead"]);
}

#[test]
fn an_empty_source_is_an_empty_program() {
    for input in ["", "  \n\t "] {
        let (statements, errors) = described(input);
        assert!(statements.is_empty());
        assert!(errors.is_empty());
    }
}

#[test]
fn a_second_parse_finds_nothing_more() {
    let lexer = Lexer::new("let x = 5; let = 1; return y;".to_string());
    let mut parser = Parser::new(lexer);

    let first = parser.parse_program().unwrap();
    assert_eq!(first.statements.len(), 2);
    let errors = parser.errors();
    assert_eq!(errors.len(), 1);

    let second = parser.parse_program().unwrap();
    assert!(second.statements.is_empty());
    assert_eq!(parser.errors(), errors);

    let third = parser.parse_program().unwrap();
    assert!(third.statements.is_empty());
    assert_eq!(parser.errors(), errors);
}

#[test]
fn a_parser_begins_where_the_lexer_stands() {
    let mut lexer = Lexer::new("let x = 5; return x;".to_string());
    for _ in 0..5 {
        lexer.next_token();
    }
    let mut parser = Parser::new(lexer);
    let program = parser.parse_program().unwrap();
    let statements: Vec<String> = program.statements.iter().map(describe).collect();
    assert_eq!(statements, vec!["return identifier x"]);
    assert!(parser.errors().is_empty());
}

#[test]
fn statements_keep_their_first_token() {
    let (program, errors) = parse("let x = 5; return y; z;");
    assert!(errors.is_empty());
    assert_eq!(program.statements.len(), 3);
    match &program.statements[0] {
        Statement::Let(statement) => {
            assert_eq!(statement.token.kind, TokenType::LET);
            assert_eq!(statement.token.literal, "let");
        }
        other => panic!("expected a let statement, got {:?}", other),
    }
    match &program.statements[1] {
        Statement::Return(statement) => {
            assert_eq!(statement.token.kind, TokenType::RETURN);
            assert_eq!(statement.token.literal, "return");
        }
        other => panic!("expected a return statement, got {:?}", other),
    }
    match &program.statements[2] {
        Statement::Expression(statement) => {
            assert_eq!(statement.token.kind, TokenType::IDENT("z".to_string()));
            assert_eq!(statement.token.literal, "z");
        }
        other => panic!("expected an expression statement, got {:?}", other),
    }
}

#[test]
fn nodes_give_their_token_literal_and_text() {
    let (program, errors) = parse("let x = 5; return y; 007;");
    assert!(errors.is_empty());
    assert_eq!(program.token_literal(), "let");
    assert_eq!(program.to_string(), "5y007");

    let literals: Vec<String> = program.statements.iter().map(|s| s.token_literal()).collect();
    assert_eq!(literals, vec!["let", "return", "007"]);
    let texts: Vec<String> = program.statements.iter().map(|s| s.to_string()).collect();
    assert_eq!(texts, vec!["5", "y", "007"]);

    match &program.statements[0] {
        Statement::Let(statement) => {
            assert_eq!(statement.token_literal(), "let");
            assert_eq!(statement.to_string(), "5");
            assert_eq!(statement.value.text(), "5");
        }
        other => panic!("expected a let statement, got {:?}", other),
    }
    match &program.statements[1] {
        Statement::Return(statement) => {
            assert_eq!(statement.token_literal(), "return");
            assert_eq!(statement.to_string(), "y");
        }
        other => panic!("expected a return statement, got {:?}", other),
    }
    match &program.statements[2] {
        Statement::Expression(statement) => {
            assert_eq!(statement.token_literal(), "007");
            assert_eq!(statement.to_string(), "007");
        }
        other => panic!("expected an expression statement, got {:?}", other),
    }
}

#[test]
fn an_empty_program_has_no_token_literal_and_no_text() {
    let (program, _) = parse("");
    assert_eq!(program.token_literal(), "");
    assert_eq!(program.to_string(), "");
}

#[test]
fn whitespace_between_tokens_does_not_change_the_program() {
    let tight = "let x=5;let=1;return y;z";
    let loose = "\n let\tx =\r\n5 ;\n\nlet = 1 ;  return\ty\n;\n z \n";
    assert_eq!(described(tight), described(loose));
    assert_eq!(described(tight).0.len(), 3);
    assert_eq!(described(tight).1.len(), 1);
}
