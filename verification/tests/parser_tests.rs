use monkey::ast::{Expression, Statement};
use monkey::lexer::Lexer;
use monkey::parser::Parser;

fn parse_ok(input: &str) -> monkey::ast::Program {
    let lexer = Lexer::new(input);
    let mut parser = Parser::new(lexer);
    let program = parser.parse_program();
    assert_eq!(parser.errors().len(), 0);
    program
}

#[test]
fn test_parsing_let_statement() {
    let lexer = Lexer::new("let x = 5;");
    let mut parser = Parser::new(lexer);
    let program = parser.parse_program();
    assert_eq!(program.statements.len(), 1);
    match &program.statements[0] {
        Statement::Let(stmt) => assert_eq!(stmt.token_literal(), "let"),
        other => panic!("expected a let statement, got {:?}", other),
    }
}

#[test]
fn test_parsing_integer_literal() {
    let lexer = Lexer::new("5;");
    let mut parser = Parser::new(lexer);
    let program = parser.parse_program();
    assert_eq!(program.statements.len(), 1);
    match &program.statements[0] {
        Statement::Expr(stmt) => match stmt.expression.as_ref().unwrap() {
            Expression::IntLit(value) => assert_eq!(value.value, 5),
            other => panic!("expected an integer literal, got {:?}", other),
        },
        other => panic!("expected an expression statement, got {:?}", other),
    }
}

#[test]
fn test_parsing_string_literal() {
    let lexer = Lexer::new("\"hello\";");
    let mut parser = Parser::new(lexer);
    let program = parser.parse_program();
    assert_eq!(program.statements.len(), 1);
    match &program.statements[0] {
        Statement::Expr(stmt) => match stmt.expression.as_ref().unwrap() {
            Expression::StrLit(value) => assert_eq!(value.value, "hello"),
            other => panic!("expected a string literal, got {:?}", other),
        },
        other => panic!("expected an expression statement, got {:?}", other),
    }
}

#[test]
fn test_string_concatenation_parsing() {
    let lexer = Lexer::new("\"hello\" + \"world\";");
    let mut parser = Parser::new(lexer);
    let program = parser.parse_program();
    assert_eq!(program.statements.len(), 1);
    match &program.statements[0] {
        Statement::Expr(stmt) => match stmt.expression.as_ref().unwrap() {
            Expression::Infix(infix) => {
                match infix.left.as_ref() {
                    Expression::StrLit(left) => assert_eq!(left.value, "hello"),
                    other => panic!("expected a string literal, got {:?}", other),
                }
                assert_eq!(infix.operator, "+");
                match infix.right.as_ref() {
                    Expression::StrLit(right) => assert_eq!(right.value, "world"),
                    other => panic!("expected a string literal, got {:?}", other),
                }
            },
            other => panic!("expected an infix expression, got {:?}", other),
        },
        other => panic!("expected an expression statement, got {:?}", other),
    }
}

#[test]
fn test_parsing_return_statement() {
    let lexer = Lexer::new("return 5;");
    let mut parser = Parser::new(lexer);
    let program = parser.parse_program();
    assert_eq!(program.statements.len(), 1);
    match &program.statements[0] {
        Statement::Return(stmt) => match stmt.return_value.as_ref().unwrap() {
            Expression::IntLit(value) => assert_eq!(value.value, 5),
            other => panic!("expected an integer literal, got {:?}", other),
        },
        other => panic!("expected a return statement, got {:?}", other),
    }
}

#[test]
fn test_parsing_boolean() {
    let lexer = Lexer::new("true; false;");
    let mut parser = Parser::new(lexer);
    let program = parser.parse_program();
    assert_eq!(program.statements.len(), 2);

    match &program.statements[0] {
        Statement::Expr(stmt) => match stmt.expression.as_ref().unwrap() {
            Expression::BoolLit(tru) => assert_eq!(tru.value, true),
            other => panic!("expected a boolean literal, got {:?}", other),
        },
        other => panic!("expected an expression statement, got {:?}", other),
    }

    match &program.statements[0] {
        Statement::Expr(stmt) => match stmt.expression.as_ref().unwrap() {
            Expression::BoolLit(tru) => assert_eq!(tru.value, true),
            other => panic!("expected a boolean literal, got {:?}", other),
        },
        other => panic!("expected an expression statement, got {:?}", other),
    }
}

#[test]
fn test_simple_infix_expression() {
    let lexer = Lexer::new("5 + 5;");
    let mut parser = Parser::new(lexer);
    let program = parser.parse_program();
    assert_eq!(program.statements.len(), 1);
    match &program.statements[0] {
        Statement::Expr(stmt) => match stmt.expression.as_ref().unwrap() {
            Expression::Infix(infix) => {
                match infix.left.as_ref() {
                    Expression::IntLit(left) => assert_eq!(left.value, 5),
                    other => panic!("expected an integer literal, got {:?}", other),
                }
                assert_eq!(infix.operator, "+");
                match infix.right.as_ref() {
                    Expression::IntLit(right) => assert_eq!(right.value, 5),
                    other => panic!("expected an integer literal, got {:?}", other),
                }
            },
            other => panic!("expected an infix expression, got {:?}", other),
        },
        other => panic!("expected an expression statement, got {:?}", other),
    }
}

#[test]
fn test_parsing_prefix_expression() {
    let lexer = Lexer::new("!5; -15;");
    let mut parser = Parser::new(lexer);
    let program = parser.parse_program();
    assert_eq!(program.statements.len(), 2);
    match &program.statements[0] {
        Statement::Expr(stmt) => match stmt.expression.as_ref().unwrap() {
            Expression::Prefix(prefix) => {
                assert_eq!(prefix.operator, "!");
                match prefix.right.as_ref() {
                    Expression::IntLit(right) => assert_eq!(right.value, 5),
                    other => panic!("expected an integer literal, got {:?}", other),
                }
            },
            other => panic!("expected a prefix expression, got {:?}", other),
        },
        other => panic!("expected an expression statement, got {:?}", other),
    }
    match &program.statements[1] {
        Statement::Expr(stmt) => match stmt.expression.as_ref().unwrap() {
            Expression::Prefix(prefix) => {
                assert_eq!(prefix.operator, "-");
                match prefix.right.as_ref() {
                    Expression::IntLit(right) => assert_eq!(right.value, 15),
                    other => panic!("expected an integer literal, got {:?}", other),
                }
            },
            other => panic!("expected a prefix expression, got {:?}", other),
        },
        other => panic!("expected an expression statement, got {:?}", other),
    }
}

#[test]
fn test_operator_precedence() {
    let lexer = Lexer::new("5 * 2 - 3 / 3;");
    let mut parser = Parser::new(lexer);
    let program = parser.parse_program();
    assert_eq!(program.statements.len(), 1);
    match &program.statements[0] {
        Statement::Expr(stmt) => match stmt.expression.as_ref().unwrap() {
            Expression::Infix(infix) => {
                assert_eq!(infix.to_string(), "((5 * 2) - (3 / 3))");
            },
            other => panic!("expected an infix expression, got {:?}", other),
        },
        other => panic!("expected an expression statement, got {:?}", other),
    }
}

#[test]
fn test_parsing_block_statement() {
    let lexer = Lexer::new(
        "{
           let x = 5;
           let y = 10;
           let foobar = 838383;
       }",
    );
    let mut parser = Parser::new(lexer);
    let program = parser.parse_program();
    assert_eq!(program.statements.len(), 1);
    match &program.statements[0] {
        Statement::Block(stmt) => {
            assert_eq!(stmt.statements.len(), 3);
            assert_eq!(stmt.to_string(), "{let x = 5;let y = 10;let foobar = 838383;}");
        },
        other => panic!("expected a block statement, got {:?}", other),
    }
}

#[test]
fn test_parsing_if_statement() {
    let lexer = Lexer::new(
        "if(x < y) {
           let x = 5;
           let y = 10;
           let foobar = 838383;
       } else {x}",
    );
    let mut parser = Parser::new(lexer);
    let program = parser.parse_program();
    assert_eq!(program.statements.len(), 1);
    match &program.statements[0] {
        Statement::Expr(stmt) => match stmt.expression.as_ref().unwrap() {
            Expression::If(exp) => {
                assert_eq!(exp.token_literal(), "if");
                assert_eq!(exp.condition.to_string(), "(x < y)");
                assert_eq!(exp.alternative.is_some(), true);
                assert_eq!(
                    exp.to_string(),
                    "if(x < y) {let x = 5;let y = 10;let foobar = 838383;} else {x}"
                );
            },
            other => panic!("expected an if expression, got {:?}", other),
        },
        other => panic!("expected an expression statement, got {:?}", other),
    }
}

#[test]
fn test_parsing_functions() {
    let lexer = Lexer::new(
        "fn (x, y) {if(x < y) {
           let x = 5;
           let y = 10;
           let foobar = 838383;
       } else {x}}",
    );
    let mut parser = Parser::new(lexer);
    let program = parser.parse_program();
    assert_eq!(program.statements.len(), 1);
    match &program.statements[0] {
        Statement::Expr(stmt) => match stmt.expression.as_ref().unwrap() {
            Expression::Func(exp) => {
                assert_eq!(
                    exp.to_string(),
                    "fn(x, y) {if(x < y) {let x = 5;let y = 10;let foobar = 838383;} else {x}}"
                );
            },
            other => panic!("expected a function literal, got {:?}", other),
        },
        other => panic!("expected an expression statement, got {:?}", other),
    }
}

#[test]
fn test_parsing_call_expresssions_0_args() {
    let lexer = Lexer::new("add();");
    let mut parser = Parser::new(lexer);
    let program = parser.parse_program();
    assert_eq!(program.statements.len(), 1);
    match &program.statements[0] {
        Statement::Expr(stmt) => match stmt.expression.as_ref().unwrap() {
            Expression::Call(exp) => {
                assert_eq!(exp.arguments.len(), 0);
                assert_eq!(exp.function.token_literal(), "add");
                assert_eq!(exp.to_string(), "add()");
            },
            other => panic!("expected a call expression, got {:?}", other),
        },
        other => panic!("expected an expression statement, got {:?}", other),
    }
}

#[test]
fn test_parsing_call_expresssions_2_args() {
    let lexer = Lexer::new("add(x, y);");
    let mut parser = Parser::new(lexer);
    let program = parser.parse_program();
    assert_eq!(program.statements.len(), 1);
    match &program.statements[0] {
        Statement::Expr(stmt) => match stmt.expression.as_ref().unwrap() {
            Expression::Call(exp) => {
                assert_eq!(exp.arguments.len(), 2);
                assert_eq!(exp.function.token_literal(), "add");
                assert_eq!(exp.to_string(), "add(x, y)");
            },
            other => panic!("expected a call expression, got {:?}", other),
        },
        other => panic!("expected an expression statement, got {:?}", other),
    }
}

#[test]
fn test_parsing_mixed_expression() {
    let lexer = Lexer::new("-3 + !add(x, y) * 2");
    let mut parser = Parser::new(lexer);
    let program = parser.parse_program();
    assert_eq!(program.statements.len(), 1);
    match &program.statements[0] {
        Statement::Expr(stmt) => match stmt.expression.as_ref().unwrap() {
            Expression::Infix(infix) => {
                assert_eq!(infix.to_string(), "((-3) + ((!add(x, y)) * 2))");
            },
            other => panic!("expected an infix expression, got {:?}", other),
        },
        other => panic!("expected an expression statement, got {:?}", other),
    }
}

#[test]
fn test_catching_parsing_error() {
    let lexer = Lexer::new("let x;");
    let mut parser = Parser::new(lexer);
    let _program = parser.parse_program();
    assert_eq!(parser.errors().len(), 2);
}

#[test]
fn test_let_without_assign_yields_no_let_statement() {
    let lexer = Lexer::new("let x;");
    let mut parser = Parser::new(lexer);
    let program = parser.parse_program();
    let errors = parser.errors();
    assert_eq!(errors.len(), 2);
    assert_eq!(errors[0], "expected next token to be ASSIGN, got SEMICOLON instead");
    assert_eq!(errors[1], "no prefix parse function for SEMICOLON found");
    for stmt in &program.statements {
        assert!(!matches!(stmt, Statement::Let(_)));
    }
}

#[test]
fn test_unmatched_open_paren_is_an_error() {
    let lexer = Lexer::new("(5 + 3");
    let mut parser = Parser::new(lexer);
    let _program = parser.parse_program();
    let errors = parser.errors();
    assert!(errors.len() >= 1);
    assert_eq!(errors[0], "expected next token to be RPAREN, got EOF instead");
}

#[test]
fn test_unmatched_close_paren_is_an_error() {
    let lexer = Lexer::new(") 5;");
    let mut parser = Parser::new(lexer);
    let _program = parser.parse_program();
    let errors = parser.errors();
    assert!(errors.len() >= 1);
    assert_eq!(errors[0], "no prefix parse function for RPAREN found");
}

#[test]
fn test_integer_literal_too_large_is_an_error() {
    let lexer = Lexer::new("99999999999999999999;");
    let mut parser = Parser::new(lexer);
    let _program = parser.parse_program();
    let errors = parser.errors();
    assert!(errors.len() >= 1);
    assert_eq!(errors[0], "could not parse 99999999999999999999 as integer");
}

#[test]
fn test_print_parse_round_trip() {
    let sources = vec![
        "let x = 5;",
        "5 * 2 - 3 / 3;",
        "-3 + !add(x, y) * 2",
        "if(x < y) {let a = 1;} else {x}",
        "fn (x, y) {return x + y;}",
        "let add = fn(x, y) { x + y; }; add(2, 3);",
        "\"hello\" + \"world\";",
        "!!true == false;",
    ];
    for source in sources {
        let first = parse_ok(source);
        let printed = first.to_string();
        let second = parse_ok(printed.as_str());
        assert_eq!(second.to_string(), printed);
    }
}
