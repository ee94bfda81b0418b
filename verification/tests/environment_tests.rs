use lib::arrays::Arrays;
use lib::environment::Environment;
use lib::natives::{Clock, Len, LenArgument, Push, PushOutcome, PushTarget};
use lib::token::{Token, TokenType};

fn name(text: &str) -> Token {
    Token { kind: TokenType::Identifier, lexeme: text.to_string(), literal: None, line: 3 }
}

#[test]
fn a_new_store_holds_only_the_globals() {
    let env: Environment<i32> = Environment::new();
    assert_eq!(env.len(), 1);
    assert_eq!(env.globals(), 0);
    assert_eq!(env.into_enclosing(0), None);
}

#[test]
fn get_after_define_gives_the_value() {
    let mut env: Environment<i32> = Environment::new();
    env.define(0, "a".to_string(), 1);
    assert_eq!(env.get(0, &name("a")).unwrap(), &1);
}

#[test]
fn define_replaces_an_earlier_binding() {
    let mut env: Environment<i32> = Environment::new();
    env.define(0, "a".to_string(), 1);
    env.define(0, "a".to_string(), 2);
    assert_eq!(env.get(0, &name("a")).unwrap(), &2);
}

#[test]
fn define_keeps_other_names() {
    let mut env: Environment<i32> = Environment::new();
    env.define(0, "a".to_string(), 1);
    env.define(0, "b".to_string(), 2);
    assert_eq!(env.get(0, &name("a")).unwrap(), &1);
    assert_eq!(env.get(0, &name("b")).unwrap(), &2);
}

#[test]
fn inner_scopes_see_and_shadow_the_outer_ones() {
    let mut env: Environment<i32> = Environment::new();
    env.define(0, "a".to_string(), 1);
    let inner = env.from_parent(0);
    assert_eq!(inner, 1);
    assert_eq!(env.into_enclosing(inner), Some(0));
    assert_eq!(env.get(inner, &name("a")).unwrap(), &1);
    env.define(inner, "a".to_string(), 5);
    assert_eq!(env.get(inner, &name("a")).unwrap(), &5);
    assert_eq!(env.get(0, &name("a")).unwrap(), &1);
}

#[test]
fn undefined_variable_is_an_error() {
    let env: Environment<i32> = Environment::new();
    let err = env.get(0, &name("missing")).unwrap_err();
    assert_eq!(err.message, "undefined variable \"missing\"");
    assert_eq!(err.token.lexeme, "missing");
    assert_eq!(err.token.line, 3);
}

#[test]
fn assign_changes_the_scope_that_binds_the_name() {
    let mut env: Environment<i32> = Environment::new();
    env.define(0, "a".to_string(), 1);
    let inner = env.from_parent(0);
    assert!(env.assign(inner, name("a"), 7).is_ok());
    assert_eq!(env.get(0, &name("a")).unwrap(), &7);
    assert_eq!(env.get(inner, &name("a")).unwrap(), &7);
}

#[test]
fn assign_to_an_undefined_variable_fails_and_changes_nothing() {
    let mut env: Environment<i32> = Environment::new();
    let inner = env.from_parent(0);
    let err = env.assign(inner, name("x"), 1).unwrap_err();
    assert_eq!(err.message, "undefined variable \"x\"");
    assert!(env.get(inner, &name("x")).is_err());
}

#[test]
fn ancestor_walks_out_by_distance() {
    let mut env: Environment<i32> = Environment::new();
    let one = env.from_parent(0);
    let two = env.from_parent(one);
    assert_eq!(env.ancestor(two, 0), two);
    assert_eq!(env.ancestor(two, 1), one);
    assert_eq!(env.ancestor(two, 2), 0);
}

#[test]
fn get_at_and_assign_at_use_the_scope_at_a_distance() {
    let mut env: Environment<i32> = Environment::new();
    let one = env.from_parent(0);
    let two = env.from_parent(one);
    env.define(one, "v".to_string(), 10);
    env.define(two, "v".to_string(), 20);
    assert_eq!(env.get_at(two, 1, &"v".to_string()), &10);
    assert_eq!(env.get_at(two, 0, &"v".to_string()), &20);
    env.assign_at(two, 1, &name("v"), 11);
    assert_eq!(env.get_at(two, 1, &"v".to_string()), &11);
    assert_eq!(env.get(two, &name("v")).unwrap(), &20);
    env.assign_at(two, 2, &name("w"), 3);
    assert_eq!(env.get(two, &name("w")).unwrap(), &3);
}

#[test]
fn natives_report_their_arity_and_name() {
    assert_eq!(Clock.arity(), 0);
    assert_eq!(Len.arity(), 1);
    assert_eq!(Push.arity(), 2);
    assert_eq!(Clock.name(), "<native fn>");
    assert_eq!(Len.name(), "<native fn>");
    assert_eq!(Push.name(), "<native fn>");
}

#[test]
fn len_counts_elements_and_characters() {
    let paren = Token { kind: TokenType::RightParen, lexeme: ")".to_string(), literal: None, line: 1 };
    let mut arrays: Arrays<i32> = Arrays::new();
    let a = arrays.add_array(vec![1, 2, 3]);
    assert_eq!(Len.call(&arrays, &LenArgument::Array(a), &paren).unwrap(), 3);
    assert_eq!(Len.call(&arrays, &LenArgument::Str("Hello".to_string()), &paren).unwrap(), 5);
    assert_eq!(Len.call(&arrays, &LenArgument::Str("héllo✓".to_string()), &paren).unwrap(), 6);
    let err = Len.call(&arrays, &LenArgument::Other, &paren).unwrap_err();
    assert_eq!(err.message, "unable to get len of this type");
    assert_eq!(err.token.lexeme, ")");
}

#[test]
fn push_appends_to_arrays_and_extends_strings() {
    let paren = Token { kind: TokenType::RightParen, lexeme: ")".to_string(), literal: None, line: 1 };
    let mut arrays: Arrays<i32> = Arrays::new();
    let a = arrays.add_array(vec![1, 2, 1]);
    assert!(matches!(
        Push.call(&mut arrays, PushTarget::Array(a), 5, &"5".to_string(), &paren),
        Ok(PushOutcome::AppendToArray)
    ));
    assert_eq!(arrays.len(a), 4);
    assert_eq!(*arrays.get(a, 3), 5);
    let original = "Hello".to_string();
    match Push.call(&mut arrays, PushTarget::Str(original.clone()), 0, &" world!".to_string(), &paren) {
        Ok(PushOutcome::NewString(s)) => assert_eq!(s, "Hello world!"),
        _ => panic!("expected a new string"),
    }
    assert_eq!(original, "Hello");
    assert_eq!(arrays.len(a), 4);
    match Push.call(&mut arrays, PushTarget::Other, 1, &"1".to_string(), &paren) {
        Err(err) => assert_eq!(err.message, "can only append to arrays and strings"),
        Ok(_) => panic!("expected an error"),
    }
}

#[test]
fn array_store_follows_the_readme_demo() {
    // var array = [1, 2, 3]; print array[1]; array[2] = 1; push(array, 5);
    let mut arrays: Arrays<i32> = Arrays::new();
    let array = arrays.add_array(vec![1, 2, 3]);
    assert_eq!(*arrays.get(array, 1), 2);
    arrays.set(array, 2, 1);
    assert_eq!(*arrays.get(array, 2), 1);
    assert_eq!(arrays.len(array), 3);
    arrays.push(array, 5);
    let all: Vec<i32> = (0..arrays.len(array)).map(|i| *arrays.get(array, i)).collect();
    assert_eq!(all, vec![1, 2, 1, 5]);
}

#[test]
fn writes_leave_other_arrays_alone() {
    let mut arrays: Arrays<i32> = Arrays::new();
    let a = arrays.add_array(vec![1, 2]);
    let b = arrays.add_array(vec![3]);
    assert_eq!((a, b), (0, 1));
    assert_eq!(arrays.count(), 2);
    arrays.set(a, 0, 9);
    arrays.push(a, 7);
    assert_eq!(*arrays.get(a, 0), 9);
    assert_eq!(*arrays.get(a, 1), 2);
    assert_eq!(*arrays.get(b, 0), 3);
    assert_eq!(arrays.len(b), 1);
}
