use lib::expr::Expr;
use lib::grammar::{FunctionKind, ParseErrorKind};
use lib::lexer::Lexer;
use lib::parser::{next_expr_id, ParseError, Parser};
use lib::pipeline::{parse_source, parse_source_from, LoxError};
use lib::stmt::Stmt;
use lib::token::{Literal, Token, TokenType};

fn literal(value: &Literal) -> String {
    match value {
        Literal::Number(text) => text.clone(),
        Literal::String(text) => format!("\"{text}\""),
        Literal::Boolean(b) => format!("{b}"),
        Literal::Nil => "nil".to_string(),
    }
}

fn show(expr: &Expr) -> String {
    match expr {
        Expr::Binary { left, operator, right } => {
            format!("({} {} {})", operator.lexeme, show(left), show(right))
        }
        Expr::Grouping { expression } => format!("(group {})", show(expression)),
        Expr::Literal { value } => literal(value),
        Expr::Unary { operator, right } => format!("({} {})", operator.lexeme, show(right)),
        Expr::Variable { id, name } => format!("{}#{id}", name.lexeme),
        Expr::Assign { id, name, value } => format!("(= {}#{id} {})", name.lexeme, show(value)),
        Expr::Logical { left, operator, right } => {
            let op = if *operator == TokenType::And { "and" } else { "or" };
            format!("({op} {} {})", show(left), show(right))
        }
        Expr::Call { callee, arguments, .. } => {
            let mut text = format!("(call {}", show(callee));
            for a in arguments {
                text.push(' ');
                text.push_str(&show(a));
            }
            text.push(')');
            text
        }
        Expr::Get { object, name } => format!("(. {} {})", show(object), name.lexeme),
        Expr::SetProperty { object, name, value } => {
            format!("(.= {} {} {})", show(object), name.lexeme, show(value))
        }
        Expr::This { id, .. } => format!("this#{id}"),
        Expr::Super { id, method, .. } => format!("super#{id}.{}", method.lexeme),
        Expr::Array { elements } => {
            let parts: Vec<String> = elements.iter().map(show).collect();
            format!("[{}]", parts.join(", "))
        }
        Expr::Index { object, index, .. } => format!("(idx {} {})", show(object), show(index)),
        Expr::SetIndex { object, index, value, .. } => {
            format!("(idx= {} {} {})", show(object), show(index), show(value))
        }
    }
}

fn show_stmt(stmt: &Stmt) -> String {
    match stmt {
        Stmt::Expression(e) => format!("{};", show(e)),
        Stmt::Print(e) => format!("print {};", show(e)),
        Stmt::Var { name, initializer: Some(e) } => format!("var {} = {};", name.lexeme, show(e)),
        Stmt::Var { name, initializer: None } => format!("var {};", name.lexeme),
        Stmt::Block(stmts) => format!("{{ {}}}", show_all(stmts)),
        Stmt::Class { name, superclass, methods } => {
            let sup = match superclass {
                Some(e) => format!(" < {}", show(e)),
                None => String::new(),
            };
            format!("class {}{sup} {{ {}}}", name.lexeme, show_all(methods))
        }
        Stmt::Function { name, params, body } => {
            let names: Vec<String> = params.iter().map(|p| p.lexeme.clone()).collect();
            format!("fun {}({}) {{ {}}}", name.lexeme, names.join(", "), show_all(body))
        }
        Stmt::If { condition, then_branch, else_branch } => match else_branch {
            Some(e) => format!(
                "if {} {} else {}",
                show(condition),
                show_stmt(then_branch),
                show_stmt(e)
            ),
            None => format!("if {} {}", show(condition), show_stmt(then_branch)),
        },
        Stmt::While { condition: Some(c), body } => format!("while {} {}", show(c), show_stmt(body)),
        Stmt::While { condition: None, body } => format!("while {}", show_stmt(body)),
        Stmt::Return { value: Some(e), .. } => format!("return {};", show(e)),
        Stmt::Return { value: None, .. } => "return;".to_string(),
    }
}

fn show_all(stmts: &[Stmt]) -> String {
    let mut text = String::new();
    for s in stmts {
        text.push_str(&show_stmt(s));
        text.push(' ');
    }
    text
}

fn program(source: &str) -> Vec<String> {
    match parse_source(source.to_string()) {
        Ok(stmts) => stmts.iter().map(show_stmt).collect(),
        Err(e) => panic!("unexpected error {e:?}"),
    }
}

fn parse_errors(source: &str) -> Vec<(ParseErrorKind, String)> {
    match parse_source(source.to_string()) {
        Err(LoxError::Parse(errors)) => {
            errors.iter().map(|e| (e.kind, e.token.lexeme.clone())).collect()
        }
        other => panic!("expected parse errors, got {other:?}"),
    }
}

#[test]
fn arithmetic_follows_precedence() {
    assert_eq!(program("print 1 + 2 * 3 - 4 / 2;"), vec!["print (- (+ 1 (* 2 3)) (/ 4 2));"]);
}

#[test]
fn unary_and_grouping() {
    assert_eq!(program("-(1 + 2) * !true;"), vec!["(* (- (group (+ 1 2))) (! true));"]);
}

#[test]
fn logic_binds_looser_than_equality() {
    assert_eq!(
        program("x == 1 or y < 2 and !z;"),
        vec!["(or (== x#0 1) (and (< y#1 2) (! z#2)));"]
    );
}

#[test]
fn array_demo_from_the_readme() {
    let source = "var array = [1, 2, 3];\n\
                  print array[1];\n\
                  array[2] = 1;\n\
                  print len(array);\n\
                  push(array, 5);\n\
                  print array;";
    assert_eq!(
        program(source),
        vec![
            "var array = [1, 2, 3];",
            "print (idx array#0 1);",
            "(idx= array#1 2 1);",
            "print (call len#2 array#3);",
            "(call push#4 array#5 5);",
            "print array#6;",
        ]
    );
}

#[test]
fn string_demo_from_the_readme() {
    let source = "var string = \"Hello\";\nprint push(string, \" world!\");\nprint len(string);";
    assert_eq!(
        program(source),
        vec![
            "var string = \"Hello\";",
            "print (call push#0 string#1 \" world!\");",
            "print (call len#2 string#3);",
        ]
    );
}

#[test]
fn empty_and_nested_arrays() {
    assert_eq!(program("[];"), vec!["[];"]);
    assert_eq!(program("[[1], [nil, false]];"), vec!["[[1], [nil, false]];"]);
}

#[test]
fn assignment_is_right_associative() {
    assert_eq!(program("a = b = 3;"), vec!["(= a#3 (= b#2 3));"]);
}

#[test]
fn property_access_and_calls() {
    assert_eq!(
        program("obj.field = 1; obj.method(2, 3)(); f();"),
        vec![
            "(.= obj#0 field 1);",
            "(call (call (. obj#1 method) 2 3));",
            "(call f#2);",
        ]
    );
}

#[test]
fn this_and_super() {
    assert_eq!(program("this; super.method;"), vec!["this#0;", "super#1.method;"]);
}

#[test]
fn control_flow_statements() {
    assert_eq!(
        program("if (a) print 1; else { print 2; } while (b) b = false;"),
        vec!["if a#0 print 1; else { print 2; }", "while b#1 (= b#3 false);"]
    );
}

#[test]
fn for_loop_is_desugared_into_while() {
    assert_eq!(
        program("for (var i = 0; i < 3; i = i + 1) print i;"),
        vec!["{ var i = 0; while (< i#0 3) { print i#4; (= i#3 (+ i#2 1)); } }"]
    );
}

#[test]
fn for_loop_without_clauses() {
    assert_eq!(program("for (;;) print 1;"), vec!["while print 1;"]);
    assert_eq!(program("for (x = 0; ; ) print x;"), vec!["{ (= x#1 0); while print x#2; }"]);
}

#[test]
fn functions_and_returns() {
    assert_eq!(
        program("fun add(a, b) { return a + b; } fun nothing() { return; }"),
        vec!["fun add(a, b) { return (+ a#0 b#1); }", "fun nothing() { return; }"]
    );
}

#[test]
fn classes_with_superclass_and_methods() {
    assert_eq!(
        program("class A < B { m() { return this; } n(x) {} } class C {}"),
        vec!["class A < B#0 { fun m() { return this#1; } fun n(x) { } }", "class C { }"]
    );
}

#[test]
fn invalid_assignment_target_is_reported() {
    assert_eq!(parse_errors("1 = 2;"), vec![(ParseErrorKind::InvalidAssignmentTarget, "=".to_string())]);
}

#[test]
fn missing_expression_is_reported() {
    assert_eq!(
        parse_errors("print ;"),
        vec![
            (ParseErrorKind::ExpressionExpected, ";".to_string()),
            (ParseErrorKind::UnknownError, "".to_string()),
        ]
    );
}

#[test]
fn missing_semicolon_is_reported_and_parsing_goes_on() {
    assert_eq!(
        parse_errors("print 1 print 2;"),
        vec![(ParseErrorKind::SemicolonAfterValue, "print".to_string())]
    );
}

#[test]
fn array_errors() {
    assert_eq!(
        parse_errors("[1, 2;"),
        vec![(ParseErrorKind::ElementsNotSeparated, ";".to_string())]
    );
    assert_eq!(parse_errors("[1,;"), vec![(ParseErrorKind::UnterminatedBracket, ";".to_string())]);
}

#[test]
fn call_errors() {
    assert_eq!(
        parse_errors("f(1;"),
        vec![
            (ParseErrorKind::ExpectParenAfterArguments, ";".to_string()),
            (ParseErrorKind::ExpectParenAfterArguments, ";".to_string()),
        ]
    );
    assert_eq!(
        parse_errors("a.1;"),
        vec![
            (ParseErrorKind::ExpectPropertyName, "1".to_string()),
            (ParseErrorKind::SemicolonAfterValue, "1".to_string()),
        ]
    );
}

#[test]
fn too_many_arguments() {
    let args: Vec<String> = (0..256).map(|i| i.to_string()).collect();
    let source = format!("f({});", args.join(", "));
    let errors = parse_errors(&source);
    assert_eq!(errors.len(), 1);
    assert_eq!(errors[0].0, ParseErrorKind::TooManyArguments);
    assert_eq!(errors[0].1, "255");
}

#[test]
fn function_errors_name_their_kind() {
    assert_eq!(
        parse_errors("fun (a) {}"),
        vec![
            (ParseErrorKind::ExpectedName(FunctionKind::Function), "(".to_string()),
            (ParseErrorKind::ExpectedName(FunctionKind::Function), "(".to_string()),
        ]
    );
    assert_eq!(
        parse_errors("class A { 1 }"),
        vec![
            (ParseErrorKind::ExpectedName(FunctionKind::Method), "1".to_string()),
            (ParseErrorKind::ExpectedName(FunctionKind::Method), "1".to_string()),
        ]
    );
}

#[test]
fn a_failed_declaration_inside_a_block_stops_the_parse() {
    assert_eq!(
        parse_errors("{ print ; } print 1;"),
        vec![
            (ParseErrorKind::ExpressionExpected, ";".to_string()),
            (ParseErrorKind::Aborted, "}".to_string()),
        ]
    );
}

#[test]
fn a_variable_without_a_name_stops_the_parse() {
    assert_eq!(
        parse_errors("var 1;"),
        vec![
            (ParseErrorKind::ExpectedIdentifier, "1".to_string()),
            (ParseErrorKind::SemicolonAfterVarDeclaration, "1".to_string()),
            (ParseErrorKind::Aborted, "1".to_string()),
        ]
    );
}

#[test]
fn a_class_without_a_name_stops_the_parse() {
    assert_eq!(
        parse_errors("class {"),
        vec![
            (ParseErrorKind::ExpectClassName, "{".to_string()),
            (ParseErrorKind::Aborted, "{".to_string()),
        ]
    );
}

#[test]
fn error_messages_read_as_before() {
    assert_eq!(ParseErrorKind::ExpressionExpected.message(), "expression expected");
    assert_eq!(ParseErrorKind::InvalidAssignmentTarget.message(), "invalid assignment target");
    assert_eq!(
        ParseErrorKind::ExpectBraceBeforeBody(FunctionKind::Method).message(),
        "expect '{' before method body"
    );
    assert_eq!(
        ParseErrorKind::ExpectedName(FunctionKind::Function).message(),
        "expected function name"
    );
    assert_eq!(
        ParseErrorKind::ElementsNotSeparated.message(),
        "array elements not separated by commas"
    );
}

#[test]
fn scanning_errors_come_before_parsing() {
    match parse_source("print @;".to_string()) {
        Err(LoxError::Lex(errors)) => assert_eq!(errors.len(), 1),
        other => panic!("expected scanning errors, got {other:?}"),
    }
}

#[test]
fn exit_codes_tell_compile_from_runtime_errors() {
    let lex = parse_source("@".to_string()).unwrap_err();
    assert_eq!(lex.exit_code(), 65);
    let parse = parse_source("1 = 2;".to_string()).unwrap_err();
    assert_eq!(parse.exit_code(), 65);
    let token = Token { kind: TokenType::Identifier, lexeme: "x".to_string(), literal: None, line: 1 };
    let runtime = LoxError::Runtime(lib::environment::RuntimeError {
        token,
        message: "undefined variable \"x\"".to_string(),
    });
    assert_eq!(runtime.exit_code(), 70);
}

#[test]
fn parser_can_be_driven_directly() {
    let tokens = Lexer::new("print nil;".to_string()).scan_tokens().unwrap();
    let stmts = Parser::new(tokens).parse().unwrap();
    assert_eq!(stmts.len(), 1);
    assert_eq!(show_stmt(&stmts[0]), "print nil;");
}

#[test]
fn parse_errors_carry_their_token() {
    let tokens = Lexer::new("1 = 2;".to_string()).scan_tokens().unwrap();
    let errors: Vec<ParseError> = Parser::new(tokens).parse().unwrap_err();
    assert_eq!(errors[0].token.kind, TokenType::Equal);
    assert_eq!(errors[0].token.line, 1);
}

#[test]
fn expression_numbers_wrap_around() {
    let mut counter = 7usize;
    assert_eq!(next_expr_id(&mut counter), 7);
    assert_eq!(counter, 8);
    let mut top = usize::MAX;
    assert_eq!(next_expr_id(&mut top), usize::MAX);
    assert_eq!(top, 0);
}

#[test]
fn expression_numbers_continue_across_programs() {
    let (first, next) = parse_source_from("a = b;".to_string(), 0);
    assert_eq!(first.unwrap().iter().map(show_stmt).collect::<Vec<_>>(), vec!["(= a#2 b#1);"]);
    assert_eq!(next, 3);
    let (second, next) = parse_source_from("print a;".to_string(), next);
    assert_eq!(second.unwrap().iter().map(show_stmt).collect::<Vec<_>>(), vec!["print a#3;"]);
    assert_eq!(next, 4);
    let (failed, next) = parse_source_from("@".to_string(), 9);
    assert!(failed.is_err());
    assert_eq!(next, 9);
    let tokens = Lexer::new("x; y;".to_string()).scan_tokens().unwrap();
    let (stmts, next) = Parser::starting_at(tokens, 40).parse_numbered();
    assert_eq!(stmts.unwrap().iter().map(show_stmt).collect::<Vec<_>>(), vec!["x#40;", "y#41;"]);
    assert_eq!(next, 42);
}
