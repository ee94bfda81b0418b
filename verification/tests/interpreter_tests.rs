use lib::errors::{lexer_error_text, parse_error_text, runtime_error_text};
use lib::interpreter::{
    binary_action, call_outcome, check_call, concatenate, function_text, index_slot, is_truthy,
    property_target, property_value,
    short_circuit, top_level_result, unary_action, BinaryAction, ExecSignal, Interpreter,
    UnaryAction, ValueKind,
};
use lib::natives::{LenArgument, PushTarget};
use lib::pipeline::parse_source;
use lib::text::push_decimal;
use lib::token::{Token, TokenType};

fn token(kind: TokenType, lexeme: &str) -> Token {
    Token { kind, lexeme: lexeme.to_string(), literal: None, line: 4 }
}

fn name(text: &str) -> Token {
    token(TokenType::Identifier, text)
}

#[test]
fn only_false_and_nil_are_false() {
    assert!(!is_truthy(ValueKind::Boolean(false)));
    assert!(!is_truthy(ValueKind::Nil));
    assert!(is_truthy(ValueKind::Boolean(true)));
    assert!(is_truthy(ValueKind::Number));
    assert!(is_truthy(ValueKind::Str));
    assert!(is_truthy(ValueKind::Callable));
    assert!(is_truthy(ValueKind::Array));
    assert!(is_truthy(ValueKind::Class));
    assert!(is_truthy(ValueKind::Instance));
}

#[test]
fn unary_operators() {
    let minus = token(TokenType::Minus, "-");
    let bang = token(TokenType::Bang, "!");
    assert_eq!(unary_action(&minus, ValueKind::Number).unwrap(), UnaryAction::Negate);
    let err = unary_action(&minus, ValueKind::Str).unwrap_err();
    assert_eq!(err.message, "operand must be number");
    assert_eq!(err.token.lexeme, "-");
    assert_eq!(unary_action(&bang, ValueKind::Nil).unwrap(), UnaryAction::Not(true));
    assert_eq!(unary_action(&bang, ValueKind::Number).unwrap(), UnaryAction::Not(false));
    let plus = token(TokenType::Plus, "+");
    assert_eq!(unary_action(&plus, ValueKind::Number).unwrap_err().message, "invalid unary operator");
}

#[test]
fn binary_operators_on_numbers() {
    let table = [
        (TokenType::Minus, BinaryAction::Subtract),
        (TokenType::Slash, BinaryAction::Divide),
        (TokenType::Star, BinaryAction::Multiply),
        (TokenType::Plus, BinaryAction::Add),
        (TokenType::Greater, BinaryAction::Greater),
        (TokenType::GreaterEqual, BinaryAction::GreaterEqual),
        (TokenType::Less, BinaryAction::Less),
        (TokenType::LessEqual, BinaryAction::LessEqual),
        (TokenType::EqualEqual, BinaryAction::Equal),
        (TokenType::BangEqual, BinaryAction::NotEqual),
    ];
    for (kind, action) in table {
        let op = token(kind, "op");
        assert_eq!(binary_action(&op, ValueKind::Number, ValueKind::Number).unwrap(), action);
    }
}

#[test]
fn binary_operand_errors() {
    let minus = token(TokenType::Minus, "-");
    let err = binary_action(&minus, ValueKind::Number, ValueKind::Str).unwrap_err();
    assert_eq!(err.message, "operand must be number");
    let less = token(TokenType::Less, "<");
    assert_eq!(
        binary_action(&less, ValueKind::Nil, ValueKind::Number).unwrap_err().message,
        "operand must be number"
    );
    let plus = token(TokenType::Plus, "+");
    assert_eq!(
        binary_action(&plus, ValueKind::Str, ValueKind::Str).unwrap(),
        BinaryAction::Concatenate
    );
    assert_eq!(
        binary_action(&plus, ValueKind::Str, ValueKind::Number).unwrap_err().message,
        "operand must be two numbers or two strings"
    );
    let eq = token(TokenType::EqualEqual, "==");
    assert_eq!(binary_action(&eq, ValueKind::Str, ValueKind::Nil).unwrap(), BinaryAction::Equal);
    let dot = token(TokenType::Dot, ".");
    assert_eq!(
        binary_action(&dot, ValueKind::Number, ValueKind::Number).unwrap_err().message,
        "invalid binary operator"
    );
}

#[test]
fn indexing_picks_an_element_of_an_array() {
    let bracket = token(TokenType::LeftBracket, "[");
    assert_eq!(index_slot(ValueKind::Array, 3, Some(2), &bracket).unwrap(), 2);
    assert_eq!(
        index_slot(ValueKind::Array, 3, Some(3), &bracket).unwrap_err().message,
        "index out of range"
    );
    assert_eq!(
        index_slot(ValueKind::Array, 3, None, &bracket).unwrap_err().message,
        "index must be a whole number"
    );
    let err = index_slot(ValueKind::Str, 3, Some(0), &bracket).unwrap_err();
    assert_eq!(err.message, "only arrays can be indexed");
    assert_eq!(err.token.lexeme, "[");
}

#[test]
fn only_instances_have_properties() {
    assert!(property_target(ValueKind::Instance, &name("x")).is_ok());
    let err = property_target(ValueKind::Class, &name("x")).unwrap_err();
    assert_eq!(err.message, "only instances have properties");
    assert_eq!(err.token.lexeme, "x");
}

#[test]
fn missing_properties_are_errors() {
    assert_eq!(property_value(Some(3), &name("x")).unwrap(), 3);
    let err = property_value::<i32>(None, &name("size")).unwrap_err();
    assert_eq!(err.message, "undefined property \"size\"");
    assert_eq!(err.token.lexeme, "size");
}

#[test]
fn strings_are_concatenated() {
    assert_eq!(concatenate("Hello".to_string(), &" world!".to_string()), "Hello world!");
}

#[test]
fn logical_operators_short_circuit() {
    // `"hi" or 2` gives "hi"; `nil or 2` gives 2
    assert_eq!(short_circuit(TokenType::Or, "hi", ValueKind::Str), Some("hi"));
    assert_eq!(short_circuit(TokenType::Or, "nil", ValueKind::Nil), None);
    // `nil and 1` gives nil; `false and 1` gives false; `"a" and 1` gives 1
    assert_eq!(short_circuit(TokenType::And, "nil", ValueKind::Nil), Some("nil"));
    assert_eq!(short_circuit(TokenType::And, "false", ValueKind::Boolean(false)), Some("false"));
    assert_eq!(short_circuit(TokenType::And, "a", ValueKind::Str), None);
}

#[test]
fn calls_are_checked() {
    let paren = token(TokenType::RightParen, ")");
    assert!(check_call(Some(2), 2, &paren).is_ok());
    let err = check_call(Some(2), 3, &paren).unwrap_err();
    assert_eq!(err.message, "expected 2 arguments but got 3");
    let err = check_call(Some(10), 0, &paren).unwrap_err();
    assert_eq!(err.message, "expected 10 arguments but got 0");
    let err = check_call(None, 0, &paren).unwrap_err();
    assert_eq!(err.message, "only able to call functions and classes");
    assert_eq!(err.token.lexeme, ")");
}

#[test]
fn decimal_notation() {
    let mut s = String::from("n=");
    push_decimal(&mut s, 0);
    s.push(',');
    push_decimal(&mut s, 7);
    s.push(',');
    push_decimal(&mut s, 1200);
    s.push(',');
    push_decimal(&mut s, 4294967295);
    assert_eq!(s, "n=0,7,1200,4294967295");
}

#[test]
fn return_at_top_level_is_an_error() {
    let ok: Result<(), ExecSignal<i32>> = Ok(());
    assert!(top_level_result(ok).is_ok());
    let ret: Result<(), ExecSignal<i32>> =
        Err(ExecSignal::Return { keyword: token(TokenType::Return, "return"), value: 1 });
    let err = top_level_result(ret).unwrap_err();
    assert_eq!(err.message, "can't return from top-level code");
    assert_eq!(err.token.lexeme, "return");
    let runtime: Result<(), ExecSignal<i32>> = Err(ExecSignal::from(lib::environment::RuntimeError {
        token: name("x"),
        message: "boom".to_string(),
    }));
    assert_eq!(top_level_result(runtime).unwrap_err().message, "boom");
}

#[test]
fn call_outcomes() {
    let ret = token(TokenType::Return, "return");
    assert_eq!(call_outcome::<i32>(Ok(()), None, 0).unwrap(), 0);
    assert_eq!(
        call_outcome(Err(ExecSignal::Return { keyword: ret.clone(), value: 5 }), None, 0).unwrap(),
        5
    );
    assert_eq!(
        call_outcome(Err(ExecSignal::Return { keyword: ret, value: 5 }), Some(9), 0).unwrap(),
        9
    );
    assert_eq!(call_outcome::<i32>(Ok(()), Some(9), 0).unwrap(), 9);
}

#[test]
fn functions_print_with_their_name() {
    assert_eq!(function_text(&name("add")), "<fn add>");
}

#[test]
fn globals_hold_the_natives() {
    let interp: Interpreter<i32> = Interpreter::new(1, 2, 3);
    assert_eq!(interp.globals(), 0);
    assert_eq!(interp.current_scope(), 0);
    assert_eq!(interp.look_up_variable(&name("clock"), 0).unwrap(), &1);
    assert_eq!(interp.look_up_variable(&name("len"), 1).unwrap(), &2);
    assert_eq!(interp.look_up_variable(&name("push"), 2).unwrap(), &3);
    let err = interp.look_up_variable(&name("nope"), 3).unwrap_err();
    assert_eq!(err.message, "undefined variable \"nope\"");
}

#[test]
fn block_bindings_stay_inside() {
    let mut interp: Interpreter<i32> = Interpreter::new(1, 2, 3);
    interp.define("a".to_string(), 10);
    let previous = interp.enter_block(None);
    assert_eq!(previous, 0);
    assert_eq!(interp.current_scope(), 1);
    interp.define("a".to_string(), 20);
    interp.define("b".to_string(), 30);
    assert!(interp.binds(1, &"a".to_string()));
    assert_eq!(interp.value_in(1, &"a".to_string()), &20);
    interp.leave_block(previous);
    assert_eq!(interp.current_scope(), 0);
    assert_eq!(interp.value_in(0, &"a".to_string()), &10);
    assert!(!interp.binds(0, &"b".to_string()));
}

#[test]
fn resolved_variables_are_read_from_their_scope() {
    let mut interp: Interpreter<i32> = Interpreter::new(1, 2, 3);
    interp.define("a".to_string(), 10);
    let previous = interp.enter_block(None);
    interp.define("a".to_string(), 20);
    interp.resolve(7, 1);
    interp.resolve(8, 0);
    assert!(interp.can_look_up(&name("a"), 7));
    assert_eq!(interp.look_up_variable(&name("a"), 7).unwrap(), &10);
    assert_eq!(interp.look_up_variable(&name("a"), 8).unwrap(), &20);
    // an unresolved expression reads the globals
    assert_eq!(interp.look_up_variable(&name("a"), 9).unwrap(), &10);
    interp.resolve(11, 5);
    assert!(!interp.can_look_up(&name("a"), 11));
    assert!(!interp.can_assign(11));
    assert!(!interp.can_look_up(&name("zzz"), 8));
    assert!(interp.assign_variable(name("a"), 8, 21).is_ok());
    assert_eq!(interp.look_up_variable(&name("a"), 8).unwrap(), &21);
    assert!(interp.assign_variable(name("a"), 9, 11).is_ok());
    assert_eq!(interp.look_up_variable(&name("a"), 7).unwrap(), &11);
    let err = interp.assign_variable(name("q"), 9, 0).unwrap_err();
    assert_eq!(err.message, "undefined variable \"q\"");
    interp.leave_block(previous);
}

#[test]
fn call_scopes_bind_parameters_to_arguments() {
    let mut interp: Interpreter<i32> = Interpreter::new(1, 2, 3);
    let params = vec![name("x"), name("y"), name("z")];
    let scope = interp.call_scope(0, &params, vec![4, 5]);
    assert_eq!(scope, 1);
    assert_eq!(interp.value_in(scope, &"x".to_string()), &4);
    assert_eq!(interp.value_in(scope, &"y".to_string()), &5);
    assert!(!interp.binds(scope, &"z".to_string()));
    let twice = vec![name("p"), name("p")];
    let scope2 = interp.call_scope(0, &twice, vec![1, 2]);
    assert_eq!(interp.value_in(scope2, &"p".to_string()), &2);
    let previous = interp.enter_block(Some(scope));
    assert_eq!(interp.current_scope(), scope);
    assert_eq!(interp.look_up_variable(&name("clock"), 0).unwrap(), &1);
    interp.leave_block(previous);
}

#[test]
fn arrays_of_a_running_program() {
    let mut interp: Interpreter<i32> = Interpreter::new(1, 2, 3);
    let paren = token(TokenType::RightParen, ")");
    let a = interp.new_array(vec![1, 2, 3]);
    assert_eq!(interp.array_count(), 1);
    assert_eq!(interp.array_len(a), 3);
    interp.array_set(a, 2, 1);
    assert_eq!(*interp.array_get(a, 2), 1);
    assert!(interp.call_push(PushTarget::Array(a), 5, &"5".to_string(), &paren).is_ok());
    assert_eq!(interp.call_len(&LenArgument::Array(a), &paren).unwrap(), 4);
    assert_eq!(*interp.array_get(a, 3), 5);
    // scopes are untouched by array work
    assert_eq!(interp.look_up_variable(&name("clock"), 0).unwrap(), &1);
}

#[test]
fn methods_see_this() {
    let mut interp: Interpreter<i32> = Interpreter::new(1, 2, 3);
    let scope = interp.this_scope(0, 42);
    assert_eq!(interp.value_in(scope, &"this".to_string()), &42);
}

#[test]
fn class_declarations_bind_the_class() {
    let mut interp: Interpreter<i32> = Interpreter::new(1, 2, 3);
    interp.declare_class(name("Point"), 0, 77);
    assert_eq!(interp.value_in(0, &"Point".to_string()), &77);
}

#[test]
fn error_reports() {
    assert_eq!(
        lexer_error_text(3, "var b = @;", "unexpected character"),
        "Lexer Error: unexpected character\n\t3 | var b = @;"
    );
    assert_eq!(
        parse_error_text(12, "=", "invalid assignment target"),
        "Parser Error: invalid assignment target\n\t12 | ="
    );
    assert_eq!(runtime_error_text("operand must be number"), "Runtime Error: operand must be number");
}

#[test]
fn lox_errors_report_every_problem() {
    let err = parse_source("var a = @;\nvar b = #;".to_string()).unwrap_err();
    assert_eq!(
        err.report(),
        vec![
            "Lexer Error: unexpected character\n\t1 | var a = @;".to_string(),
            "Lexer Error: unexpected character\n\t2 | var b = #;".to_string(),
        ]
    );
    let err = parse_source("1 = 2;".to_string()).unwrap_err();
    assert_eq!(err.report(), vec!["Parser Error: invalid assignment target\n\t1 | =".to_string()]);
}

#[test]
fn statements_can_be_copied() {
    let stmts = parse_source(
        "fun f(a) { if (a) { return [a, 1]; } else print a.b; while (a) a = a - 1; } class C < D {}"
            .to_string(),
    )
    .unwrap();
    for s in &stmts {
        let copy = s.duplicate();
        assert_eq!(format!("{copy:?}"), format!("{s:?}"));
    }
}
