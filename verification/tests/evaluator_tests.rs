use monkey::evaluator::evaluate_program;
use monkey::lexer::Lexer;
use monkey::object::{Environment, Integer, Object};
use monkey::parser::Parser;

fn eval_source(input: &str) -> Object {
    let lexer = Lexer::new(input);
    let mut parser = Parser::new(lexer);
    let program = parser.parse_program();
    assert_eq!(parser.errors().len(), 0);
    let mut env = Environment::new();
    evaluate_program(&program, &mut env).unwrap()
}

fn eval_inspect(input: &str) -> String {
    eval_source(input).inspect()
}

#[test]
fn test_let_bindings_and_addition() {
    assert_eq!(eval_inspect("let a = 5; let b = 10; a + b;"), "15");
}

#[test]
fn test_if_else_takes_the_truthy_branch() {
    assert_eq!(eval_inspect("if (1 < 2) { 10 } else { 20 };"), "10");
}

#[test]
fn test_function_application_with_return() {
    assert_eq!(eval_inspect("let add = fn(x, y) { return x + y; }; add(2, 3);"), "5");
}

#[test]
fn test_closure_captures_definition_environment() {
    assert_eq!(
        eval_inspect(
            "let newAdder = fn(x) { fn(y) { x + y } }; let addTwo = newAdder(2); addTwo(7);"
        ),
        "9"
    );
}

#[test]
fn test_string_concatenation() {
    assert_eq!(eval_inspect("\"hello\" + \" \" + \"world\""), "hello world");
}

#[test]
fn test_type_mismatch_error() {
    assert_eq!(eval_inspect("5 + true;"), "type mismatch: INTEGER + BOOLEAN");
}

#[test]
fn test_unbound_identifier_error() {
    assert_eq!(eval_inspect("foobar;"), "identifier not found: foobar");
}

#[test]
fn test_bang_operator_truthiness() {
    assert_eq!(eval_inspect("!!5"), "true");
    assert_eq!(eval_inspect("!true"), "false");
    assert_eq!(eval_inspect("!(if (false) { 1 })"), "true");
}

#[test]
fn test_prefix_minus_and_boolean_comparison() {
    assert_eq!(eval_inspect("-5 + 10"), "5");
    assert_eq!(eval_inspect("(1 < 2) == true"), "true");
}

#[test]
fn test_literal_inspect_equals_literal() {
    assert_eq!(eval_inspect("5"), "5");
    assert_eq!(eval_inspect("true"), "true");
    assert_eq!(eval_inspect("\"x\""), "x");
}

#[test]
fn test_error_propagates_through_expression() {
    assert_eq!(eval_inspect("5 + missing * 2;"), "identifier not found: missing");
    assert_eq!(eval_inspect("if (missing) { 1 } else { 2 };"), "identifier not found: missing");
    assert_eq!(
        eval_inspect("let f = fn(x) { x }; f(1 + nope);"),
        "identifier not found: nope"
    );
}

#[test]
fn test_integer_arithmetic_and_modulo() {
    assert_eq!(eval_inspect("5 * 2 - 3 / 3;"), "9");
    assert_eq!(eval_inspect("17 % 5;"), "2");
    assert_eq!(eval_inspect("0 - 7;"), "-7");
}

#[test]
fn test_division_by_zero_is_an_error_value() {
    assert_eq!(eval_inspect("5 / 0;"), "division by zero");
    assert_eq!(eval_inspect("5 % 0;"), "division by zero");
}

#[test]
fn test_unknown_operator_errors() {
    assert_eq!(eval_inspect("-true"), "unknown operator: -BOOLEAN");
    assert_eq!(eval_inspect("true + false;"), "unknown operator: BOOLEAN + BOOLEAN");
    assert_eq!(eval_inspect("\"a\" - \"b\";"), "unknown operator: STRING - STRING");
}

#[test]
fn test_calling_a_non_function_is_an_error() {
    assert_eq!(eval_inspect("5(1);"), "not a function: INTEGER");
}

#[test]
fn test_too_few_arguments_is_an_error() {
    assert_eq!(eval_inspect("let f = fn(x) { x }; f();"), "wrong number of arguments");
}

#[test]
fn test_unbounded_recursion_reports_stack_overflow() {
    assert_eq!(eval_inspect("let f = fn() { f(); }; f();"), "stack overflow");
}

#[test]
fn test_return_stops_the_program() {
    assert_eq!(eval_inspect("return 42; 7;"), "42");
    assert_eq!(eval_inspect("{ return 3; } 7;"), "3");
}

#[test]
fn test_nested_return_bubbles_to_the_call() {
    assert_eq!(
        eval_inspect("let f = fn() { if (true) { return 11; } return 22; }; f();"),
        "11"
    );
}

#[test]
fn test_if_without_alternative_is_null() {
    assert_eq!(eval_inspect("if (false) { 1 };"), "null");
    assert_eq!(eval_inspect("{}"), "null");
}

#[test]
fn test_rebinding_in_the_same_scope() {
    assert_eq!(eval_inspect("let x = 5; let x = x + 1; x;"), "6");
}

#[test]
fn test_block_opens_a_child_scope() {
    assert_eq!(eval_inspect("let x = 5; { let x = 10; } x;"), "5");
}

#[test]
fn test_empty_program_evaluates_to_nothing() {
    let lexer = Lexer::new("");
    let mut parser = Parser::new(lexer);
    let program = parser.parse_program();
    assert_eq!(parser.errors().len(), 0);
    let mut env = Environment::new();
    assert!(evaluate_program(&program, &mut env).is_none());
}

#[test]
fn test_environment_persists_across_programs() {
    let mut env = Environment::new();

    let lexer = Lexer::new("let a = 40;");
    let mut parser = Parser::new(lexer);
    let program = parser.parse_program();
    assert_eq!(parser.errors().len(), 0);
    let _ = evaluate_program(&program, &mut env);

    let lexer = Lexer::new("a + 2;");
    let mut parser = Parser::new(lexer);
    let program = parser.parse_program();
    assert_eq!(parser.errors().len(), 0);
    let result = evaluate_program(&program, &mut env).unwrap();
    assert_eq!(result.inspect(), "42");
}

#[test]
fn test_function_inspect_renders_body() {
    assert_eq!(eval_inspect("fn(x) { x + 1 }"), "fn(x, ) {\n{(x + 1)}\n}");
}

#[test]
fn test_integer_rendering_edges() {
    assert_eq!(eval_inspect("0"), "0");
    assert_eq!(eval_inspect("0 - 9223372036854775807;"), "-9223372036854775807");
    assert_eq!(eval_inspect("9223372036854775807;"), "9223372036854775807");
}

#[test]
fn test_environment_get_and_set() {
    let mut env = Environment::new();
    assert!(env.get(0, "x").is_none());
    let old = env.set(0, "x".to_string(), Object::Integer(Integer { value: 1 }));
    assert!(old.is_none());
    let old = env.set(0, "x".to_string(), Object::Integer(Integer { value: 2 }));
    match old {
        Some(Object::Integer(n)) => assert_eq!(n.value, 1),
        other => panic!("expected the replaced value, got {:?}", other),
    }
    let inner = env.new_enclosed(0);
    match env.get(inner, "x") {
        Some(Object::Integer(n)) => assert_eq!(n.value, 2),
        other => panic!("expected the outer binding, got {:?}", other),
    }
}

#[test]
fn test_integer_wrapping_choices() {
    assert_eq!(eval_inspect("0 - 9223372036854775807 - 1;"), "-9223372036854775808");
    assert_eq!(eval_inspect("-(0 - 9223372036854775807 - 1);"), "-9223372036854775808");
    assert_eq!(eval_inspect("9223372036854775807 + 1;"), "-9223372036854775808");
    assert_eq!(
        eval_inspect("(0 - 9223372036854775807 - 1) / (0 - 1);"),
        "-9223372036854775808"
    );
}
