//! The decisions of the tree-walking interpreter: how each operator treats the
//! kinds of its operands, when a call may go ahead, what a condition counts as,
//! and how variables are looked up, assigned and scoped while a program runs.
//! The values themselves are the caller's: this module only needs to know what
//! kind of value each one is.
use vstd::prelude::*;

use std::collections::HashMap;

use crate::environment::{
    ancestor_of, bind, holder, law_define_keeps_outer_scopes, law_new_scope_sees_enclosing,
    lemma_bind_local, lemma_position_from, local, resolve, scopes_wf, undefined_variable_message, with_scope,
    Environment, RuntimeError, ScopeModel,
};
use crate::arrays::Arrays;
use crate::natives::{
    len_error_message, push_error_message, Len, LenArgument, Push, PushOutcome, PushTarget,
};
use crate::text::{decimal, push_decimal, push_text};
use crate::token::{Token, TokenType};

verus! {

/// What a decision needs to know of a value: its kind, and for a boolean its truth.
#[derive(Clone, Copy, Debug, PartialEq, Eq, Structural)]
pub enum ValueKind {
    Number,
    Str,
    Boolean(bool),
    Nil,
    /// A function, native or declared.
    Callable,
    Array,
    Class,
    Instance,
}

/// Only `false` and `nil` count as false in a condition.
pub open spec fn truthy(kind: ValueKind) -> bool {
    match kind {
        ValueKind::Boolean(b) => b,
        ValueKind::Nil => false,
        _ => true,
    }
}

/// Whether a value of this kind counts as true in a condition.
pub fn is_truthy(kind: ValueKind) -> (b: bool)
    ensures
        b == truthy(kind),
{
    match kind {
        ValueKind::Boolean(b) => b,
        ValueKind::Nil => false,
        _ => true,
    }
}

/// The message for an arithmetic or comparison operand that is not a number.
pub open spec fn number_operand_message() -> Seq<char> {
    "operand must be number"@
}

/// The message for `+` on operands that are not two numbers or two strings.
pub open spec fn plus_operand_message() -> Seq<char> {
    "operand must be two numbers or two strings"@
}

/// The message for a token that is no unary operator.
pub open spec fn invalid_unary_message() -> Seq<char> {
    "invalid unary operator"@
}

/// The message for a token that is no binary operator.
pub open spec fn invalid_binary_message() -> Seq<char> {
    "invalid binary operator"@
}

/// The message for a call of a value that is not a function.
pub open spec fn not_callable_message() -> Seq<char> {
    "only able to call functions and classes"@
}

/// The message for a call with the wrong number of arguments.
pub open spec fn arity_message(expected: nat, given: nat) -> Seq<char> {
    "expected "@ + decimal(expected) + " arguments but got "@ + decimal(given)
}

/// The message for a `return` outside any function.
pub open spec fn top_level_return_message() -> Seq<char> {
    "can't return from top-level code"@
}

/// `e` is the error at `token` with message `message`.
pub open spec fn error_at(e: RuntimeError, token: Token, message: Seq<char>) -> bool {
    e.token == token && e.message@ == message
}

/// The error at `token` with the text `message`.
fn make_error(token: &Token, message: &str) -> (e: RuntimeError)
    ensures
        error_at(e, *token, message@),
{
    RuntimeError { token: token.duplicate(), message: String::from_str(message) }
}

/// What a unary operator does to its operand.
#[derive(Clone, Copy, Debug, PartialEq, Eq, Structural)]
pub enum UnaryAction {
    /// The number with its sign changed.
    Negate,
    /// The boolean given.
    Not(bool),
}

/// What applying the unary `operator` to an operand of kind `operand` does: `-`
/// negates a number, `!` gives the opposite of the operand's truth; anything
/// else is an error at the operator.
pub fn unary_action(operator: &Token, operand: ValueKind) -> (r: Result<UnaryAction, RuntimeError>)
    ensures
        match operator.kind {
            TokenType::Minus => if operand == ValueKind::Number {
                r == Ok::<UnaryAction, RuntimeError>(UnaryAction::Negate)
            } else {
                r matches Err(e) && error_at(e, *operator, number_operand_message())
            },
            TokenType::Bang => r == Ok::<UnaryAction, RuntimeError>(UnaryAction::Not(!truthy(operand))),
            _ => r matches Err(e) && error_at(e, *operator, invalid_unary_message()),
        },
{
    match operator.kind {
        TokenType::Minus => match operand {
            ValueKind::Number => Ok(UnaryAction::Negate),
            _ => Err(make_error(operator, "operand must be number")),
        },
        TokenType::Bang => Ok(UnaryAction::Not(!is_truthy(operand))),
        _ => Err(make_error(operator, "invalid unary operator")),
    }
}

/// What a binary operator does with its two operands.
#[derive(Clone, Copy, Debug, PartialEq, Eq, Structural)]
pub enum BinaryAction {
    Subtract,
    Divide,
    Multiply,
    Add,
    /// The two strings one after the other.
    Concatenate,
    Greater,
    GreaterEqual,
    Less,
    LessEqual,
    Equal,
    NotEqual,
}

/// The action of an operator that takes two numbers, if `op` is one.
pub open spec fn numeric_action(op: TokenType) -> Option<BinaryAction> {
    match op {
        TokenType::Minus => Some(BinaryAction::Subtract),
        TokenType::Slash => Some(BinaryAction::Divide),
        TokenType::Star => Some(BinaryAction::Multiply),
        TokenType::Greater => Some(BinaryAction::Greater),
        TokenType::GreaterEqual => Some(BinaryAction::GreaterEqual),
        TokenType::Less => Some(BinaryAction::Less),
        TokenType::LessEqual => Some(BinaryAction::LessEqual),
        _ => None,
    }
}

/// What applying the binary `operator` to operands of kinds `left` and `right`
/// does. Arithmetic and comparisons take two numbers; `+` adds two numbers or
/// joins two strings; `==` and `!=` take anything; a wrong operand or a token
/// that is no binary operator is an error at the operator.
pub fn binary_action(operator: &Token, left: ValueKind, right: ValueKind) -> (r: Result<
    BinaryAction,
    RuntimeError,
>)
    ensures
        match numeric_action(operator.kind) {
            Some(a) => if left == ValueKind::Number && right == ValueKind::Number {
                r == Ok::<BinaryAction, RuntimeError>(a)
            } else {
                r matches Err(e) && error_at(e, *operator, number_operand_message())
            },
            None => match operator.kind {
                TokenType::Plus => if left == ValueKind::Number && right == ValueKind::Number {
                    r == Ok::<BinaryAction, RuntimeError>(BinaryAction::Add)
                } else if left == ValueKind::Str && right == ValueKind::Str {
                    r == Ok::<BinaryAction, RuntimeError>(BinaryAction::Concatenate)
                } else {
                    r matches Err(e) && error_at(e, *operator, plus_operand_message())
                },
                TokenType::BangEqual => r == Ok::<BinaryAction, RuntimeError>(BinaryAction::NotEqual),
                TokenType::EqualEqual => r == Ok::<BinaryAction, RuntimeError>(BinaryAction::Equal),
                _ => r matches Err(e) && error_at(e, *operator, invalid_binary_message()),
            },
        },
{
    let numeric = match operator.kind {
        TokenType::Minus => Some(BinaryAction::Subtract),
        TokenType::Slash => Some(BinaryAction::Divide),
        TokenType::Star => Some(BinaryAction::Multiply),
        TokenType::Greater => Some(BinaryAction::Greater),
        TokenType::GreaterEqual => Some(BinaryAction::GreaterEqual),
        TokenType::Less => Some(BinaryAction::Less),
        TokenType::LessEqual => Some(BinaryAction::LessEqual),
        _ => None,
    };
    let both_numbers = left == ValueKind::Number && right == ValueKind::Number;
    match numeric {
        Some(a) => if both_numbers {
            Ok(a)
        } else {
            Err(make_error(operator, "operand must be number"))
        },
        None => match operator.kind {
            TokenType::Plus => if both_numbers {
                Ok(BinaryAction::Add)
            } else if left == ValueKind::Str && right == ValueKind::Str {
                Ok(BinaryAction::Concatenate)
            } else {
                Err(make_error(operator, "operand must be two numbers or two strings"))
            },
            TokenType::BangEqual => Ok(BinaryAction::NotEqual),
            TokenType::EqualEqual => Ok(BinaryAction::Equal),
            _ => Err(make_error(operator, "invalid binary operator")),
        },
    }
}

/// The string `left` followed by `right`.
pub fn concatenate(left: String, right: &String) -> (s: String)
    ensures
        s@ == left@ + right@,
{
    let mut s = left;
    push_text(&mut s, right.as_str());
    s
}

/// Whether a logical operator decides on its left operand alone: `or` does
/// after a true left operand, `and` after a false one.
pub open spec fn decided_by_left(operator: TokenType, left: ValueKind) -> bool {
    if operator == TokenType::Or {
        truthy(left)
    } else {
        !truthy(left)
    }
}

/// What a logical operator gives without looking at its right operand: the left
/// operand `left`, of kind `kind`, when it decides (see [`decided_by_left`]);
/// otherwise `None`, and the operator gives its right operand.
pub fn short_circuit<V>(operator: TokenType, left: V, kind: ValueKind) -> (r: Option<V>)
    ensures
        r == (if decided_by_left(operator, kind) {
            Some(left)
        } else {
            None::<V>
        }),
{
    let decided = if operator == TokenType::Or {
        is_truthy(kind)
    } else {
        !is_truthy(kind)
    };
    if decided {
        Some(left)
    } else {
        None
    }
}

/// Only `false` and `nil` count as false. `or` goes on to its right operand
/// exactly after `false` or `nil`, and stops
/// at any other left operand; `and` does the opposite: it stops exactly at
/// `false` or `nil`. So for every left operand exactly one of the two operators
/// stops at it ([`short_circuit`] then gives back that operand).
pub proof fn law_logical_operators_stop_on_truth(kind: ValueKind)
    ensures
        truthy(kind) <==> (kind != ValueKind::Boolean(false) && kind != ValueKind::Nil),
        decided_by_left(TokenType::Or, kind) <==> (kind != ValueKind::Boolean(false) && kind
            != ValueKind::Nil),
        decided_by_left(TokenType::And, kind) <==> (kind == ValueKind::Boolean(false) || kind
            == ValueKind::Nil),
        decided_by_left(TokenType::Or, kind) != decided_by_left(TokenType::And, kind),
{
}

/// Whether a call may go ahead: `arity` is the number of parameters of the
/// callee, or `None` when it is not a function; `given` is the number of
/// arguments. Errors are at the closing parenthesis.
pub fn check_call(arity: Option<usize>, given: usize, paren: &Token) -> (r: Result<(), RuntimeError>)
    ensures
        match arity {
            None => r matches Err(e) && error_at(e, *paren, not_callable_message()),
            Some(n) => if n == given {
                r is Ok
            } else {
                r matches Err(e) && error_at(e, *paren, arity_message(n as nat, given as nat))
            },
        },
{
    match arity {
        None => Err(make_error(paren, "only able to call functions and classes")),
        Some(n) => if n == given {
            Ok(())
        } else {
            let mut message = String::from_str("expected ");
            push_decimal(&mut message, n);
            push_text(&mut message, " arguments but got ");
            push_decimal(&mut message, given);
            Err(RuntimeError { token: paren.duplicate(), message })
        },
    }
}

/// The message for indexing a value that is not an array.
pub open spec fn not_indexable_message() -> Seq<char> {
    "only arrays can be indexed"@
}

/// The message for an index that is not a whole number at least zero.
pub open spec fn bad_index_message() -> Seq<char> {
    "index must be a whole number"@
}

/// The message for an index past the last element.
pub open spec fn index_range_message() -> Seq<char> {
    "index out of range"@
}

/// The message for a property of a value that is not an instance.
pub open spec fn not_instance_message() -> Seq<char> {
    "only instances have properties"@
}

/// The element an index expression reads or writes. `object` is the kind of the
/// value indexed and `len` its number of elements when it is an array; `index`
/// is the index when it is a whole number at least zero, `None` otherwise.
/// Errors are at the bracket.
pub fn index_slot(object: ValueKind, len: usize, index: Option<usize>, bracket: &Token) -> (r:
    Result<usize, RuntimeError>)
    ensures
        object != ValueKind::Array ==> (r matches Err(e) && error_at(
            e,
            *bracket,
            not_indexable_message(),
        )),
        object == ValueKind::Array ==> match index {
            None => r matches Err(e) && error_at(e, *bracket, bad_index_message()),
            Some(i) => if i < len {
                r == Ok::<usize, RuntimeError>(i)
            } else {
                r matches Err(e) && error_at(e, *bracket, index_range_message())
            },
        },
{
    if object != ValueKind::Array {
        return Err(make_error(bracket, "only arrays can be indexed"));
    }
    match index {
        None => Err(make_error(bracket, "index must be a whole number")),
        Some(i) => if i < len {
            Ok(i)
        } else {
            Err(make_error(bracket, "index out of range"))
        },
    }
}

/// Whether a property of a value of kind `object` can be read or written: only
/// instances have properties. Errors are at the property's name.
pub fn property_target(object: ValueKind, name: &Token) -> (r: Result<(), RuntimeError>)
    ensures
        object == ValueKind::Instance ==> r is Ok,
        object != ValueKind::Instance ==> (r matches Err(e) && error_at(
            e,
            *name,
            not_instance_message(),
        )),
{
    if object == ValueKind::Instance {
        Ok(())
    } else {
        Err(make_error(name, "only instances have properties"))
    }
}

/// The message for reading a property that an instance does not have.
pub open spec fn undefined_property_message(name: Seq<char>) -> Seq<char> {
    "undefined property \""@ + name + "\""@
}

/// The value of the property `name` of an instance: `found` is the value the
/// instance holds under that name, if any; a missing property is an error at
/// the name.
pub fn property_value<V>(found: Option<V>, name: &Token) -> (r: Result<V, RuntimeError>)
    ensures
        match found {
            Some(v) => r == Ok::<V, RuntimeError>(v),
            None => r matches Err(e) && error_at(
                e,
                *name,
                undefined_property_message(name.lexeme@),
            ),
        },
{
    match found {
        Some(v) => Ok(v),
        None => {
            let mut message = String::from_str("undefined property \"");
            push_text(&mut message, name.lexeme.as_str());
            push_text(&mut message, "\"");
            Err(RuntimeError { token: name.duplicate(), message })
        },
    }
}

/// How running a statement can stop early: an error, or a `return` with its value.
#[derive(Debug)]
pub enum ExecSignal<V> {
    Runtime(RuntimeError),
    Return { keyword: Token, value: V },
}

impl<V> From<RuntimeError> for ExecSignal<V> {
    fn from(error: RuntimeError) -> (s: ExecSignal<V>) {
        ExecSignal::Runtime(error)
    }
}

impl<V> vstd::std_specs::convert::FromSpecImpl<RuntimeError> for ExecSignal<V> {
    open spec fn obeys_from_spec() -> bool {
        true
    }

    open spec fn from_spec(v: RuntimeError) -> ExecSignal<V> {
        ExecSignal::Runtime(v)
    }
}

/// The outcome of a top-level statement: an error stays an error, and a
/// `return` outside any function becomes an error at its keyword.
pub fn top_level_result<V>(r: Result<(), ExecSignal<V>>) -> (o: Result<(), RuntimeError>)
    ensures
        match r {
            Ok(()) => o is Ok,
            Err(ExecSignal::Runtime(e)) => o == Err::<(), RuntimeError>(e),
            Err(ExecSignal::Return { keyword, value: _ }) => o matches Err(e) && error_at(
                e,
                keyword,
                top_level_return_message(),
            ),
        },
{
    match r {
        Ok(()) => Ok(()),
        Err(ExecSignal::Runtime(e)) => Err(e),
        Err(ExecSignal::Return { keyword, value: _ }) => Err(
            RuntimeError {
                token: keyword,
                message: String::from_str("can't return from top-level code"),
            },
        ),
    }
}

/// What a call of a declared function gives, from how running its body ended:
/// an initializer gives its instance `this`; any other function gives the value
/// of its `return`, or `nil` when its body ran to the end; an error stays an error.
pub fn call_outcome<V>(body: Result<(), ExecSignal<V>>, this: Option<V>, nil: V) -> (r: Result<
    V,
    RuntimeError,
>)
    ensures
        match body {
            Err(ExecSignal::Runtime(e)) => r == Err::<V, RuntimeError>(e),
            Ok(()) => r == Ok::<V, RuntimeError>(
                match this {
                    Some(t) => t,
                    None => nil,
                },
            ),
            Err(ExecSignal::Return { keyword: _, value }) => r == Ok::<V, RuntimeError>(
                match this {
                    Some(t) => t,
                    None => value,
                },
            ),
        },
{
    match body {
        Err(ExecSignal::Runtime(e)) => Err(e),
        Ok(()) => match this {
            Some(t) => Ok(t),
            None => Ok(nil),
        },
        Err(ExecSignal::Return { keyword: _, value }) => match this {
            Some(t) => Ok(t),
            None => Ok(value),
        },
    }
}

/// The text that stands for a declared function when it is printed.
pub fn function_text(name: &Token) -> (s: String)
    ensures
        s@ == "<fn "@ + name.lexeme@ + ">"@,
{
    let mut s = String::from_str("<fn ");
    push_text(&mut s, name.lexeme.as_str());
    push_text(&mut s, ">");
    s
}

/// The store after scope `s` binds the first `n` of `names` to the values at the
/// same positions, in order.
pub open spec fn bind_all<V>(
    m: Seq<ScopeModel<V>>,
    s: int,
    names: Seq<Seq<char>>,
    values: Seq<V>,
    n: nat,
) -> Seq<ScopeModel<V>>
    decreases n,
{
    if n == 0 {
        m
    } else {
        bind(bind_all(m, s, names, values, (n - 1) as nat), s, names[n - 1], values[n - 1])
    }
}

/// The smaller of two counts.
pub open spec fn min_count(a: nat, b: nat) -> nat {
    if a <= b {
        a
    } else {
        b
    }
}

/// A new scope enclosed by a scope of a well-formed store keeps the store well formed.
proof fn lemma_with_scope_wf<V>(m: Seq<ScopeModel<V>>, parent: usize)
    requires
        scopes_wf(m),
        parent < m.len(),
    ensures
        scopes_wf(with_scope(m, Some(parent))),
{
    let m2 = with_scope(m, Some(parent));
    assert forall|s: int| 0 <= s < m2.len() implies {
        &&& (#[trigger] m2[s]).names.len() == m2[s].values.len()
        &&& m2[s].enclosing matches Some(p) ==> p < s
    } by {
        if s < m.len() {
            assert(m2[s] == m[s]);
        }
    }
}

/// Binding a name keeps the store well formed and as long.
proof fn lemma_bind_wf<V>(m: Seq<ScopeModel<V>>, s: int, name: Seq<char>, value: V)
    requires
        scopes_wf(m),
        0 <= s < m.len(),
    ensures
        scopes_wf(bind(m, s, name, value)),
        bind(m, s, name, value).len() == m.len(),
{
    let m2 = bind(m, s, name, value);
    assert forall|t: int| 0 <= t < m2.len() implies {
        &&& (#[trigger] m2[t]).names.len() == m2[t].values.len()
        &&& m2[t].enclosing matches Some(p) ==> p < t
    } by {
        lemma_bind_local(m, s, name, value, t, name);
        lemma_position_from(m[s].names, name, 0);
    }
}

/// Binding several names keeps the store well formed and as long.
proof fn lemma_bind_all_wf<V>(
    m: Seq<ScopeModel<V>>,
    s: int,
    names: Seq<Seq<char>>,
    values: Seq<V>,
    n: nat,
)
    requires
        scopes_wf(m),
        0 <= s < m.len(),
    ensures
        scopes_wf(bind_all(m, s, names, values, n)),
        bind_all(m, s, names, values, n).len() == m.len(),
    decreases n,
{
    if n > 0 {
        lemma_bind_all_wf(m, s, names, values, (n - 1) as nat);
        lemma_bind_wf(bind_all(m, s, names, values, (n - 1) as nat), s, names[n - 1], values[n - 1]);
    }
}

/// In the scope of a call, each parameter whose name no later parameter repeats
/// is bound to the argument at its position.
pub proof fn law_parameters_bound_to_arguments<V>(
    m: Seq<ScopeModel<V>>,
    closure: usize,
    names: Seq<Seq<char>>,
    values: Seq<V>,
    n: nat,
    i: int,
)
    requires
        scopes_wf(m),
        closure < m.len(),
        n <= names.len(),
        n <= values.len(),
        0 <= i < n,
        forall|j: int| i < j < n ==> names[j] != names[i],
    ensures
        local(
            bind_all(with_scope(m, Some(closure)), m.len() as int, names, values, n),
            m.len() as int,
            names[i],
        ) == Some(values[i]),
    decreases n,
{
    let m0 = with_scope(m, Some(closure));
    let s = m.len() as int;
    lemma_with_scope_wf(m, closure);
    lemma_bind_all_wf(m0, s, names, values, (n - 1) as nat);
    let before = bind_all(m0, s, names, values, (n - 1) as nat);
    if i == n - 1 {
        lemma_bind_local(before, s, names[i], values[i], s, names[i]);
    } else {
        law_parameters_bound_to_arguments(m, closure, names, values, (n - 1) as nat, i);
        lemma_bind_local(before, s, names[n - 1], values[n - 1], s, names[i]);
    }
}

/// What a block binds stays inside it: after a new scope enclosed by the current
/// one binds a name, every lookup from the current scope gives what it gave before.
pub proof fn law_block_bindings_stay_inside<V>(
    m: Seq<ScopeModel<V>>,
    current: usize,
    name: Seq<char>,
    value: V,
    other: Seq<char>,
)
    requires
        scopes_wf(m),
        current < m.len(),
    ensures
        resolve(bind(with_scope(m, Some(current)), m.len() as int, name, value), current as int, other)
            == resolve(m, current as int, other),
{
    let m2 = with_scope(m, Some(current));
    lemma_with_scope_wf(m, current);
    law_new_scope_sees_enclosing(m, current, current as int, other);
    law_define_keeps_outer_scopes(m2, m.len() as int, name, value, current as int, other);
}

/// The state of a running program: every scope made so far, the scope the
/// program runs in now, for each resolved expression the number of scopes out
/// from the current one where its variable lives, and every array made so far.
pub struct Interpreter<V> {
    env: Environment<V>,
    current: usize,
    locals: HashMap<usize, usize>,
    arrays: Arrays<V>,
}

impl<V> Interpreter<V> {
    /// The scopes made so far; scope 0 holds the globals.
    pub closed spec fn scopes(&self) -> Seq<ScopeModel<V>> {
        self.env@
    }

    /// The scope the program runs in now.
    pub closed spec fn current(&self) -> int {
        self.current as int
    }

    /// The arrays made so far, by index.
    pub closed spec fn arrays(&self) -> Seq<Seq<V>> {
        self.arrays@
    }

    /// The resolved expressions, by number, with their scope distance.
    pub closed spec fn locals(&self) -> Map<usize, usize> {
        self.locals@
    }

    /// The state is well formed: the scope store is, and the current scope is one of it.
    pub closed spec fn wf(&self) -> bool {
        &&& self.env.wf()
        &&& self.current < self.env@.len()
    }

    /// A well-formed state holds a well-formed store, and its current scope is one
    /// of the store's: what the laws on scopes ask of their inputs.
    pub proof fn lemma_well_formed(&self)
        requires
            self.wf(),
        ensures
            scopes_wf(self.scopes()),
            0 <= self.current() < self.scopes().len(),
    {
    }

    /// A variable of expression `id` named `name` can be read: when the expression
    /// was resolved, the scope it was resolved to exists and binds the name.
    pub open spec fn lookup_resolves(&self, name: Seq<char>, id: usize) -> bool {
        self.locals().contains_key(id) ==> (ancestor_of(
            self.scopes(),
            self.current(),
            self.locals()[id] as nat,
        ) matches Some(a) && local(self.scopes(), a, name) is Some)
    }

    /// A variable of expression `id` can be assigned: when the expression was
    /// resolved, the scope it was resolved to exists.
    pub open spec fn assignment_resolves(&self, id: usize) -> bool {
        self.locals().contains_key(id) ==> ancestor_of(
            self.scopes(),
            self.current(),
            self.locals()[id] as nat,
        ) is Some
    }

    /// The value the variable of expression `id` named `name` has: from the scope it
    /// was resolved to, or else from the globals.
    pub open spec fn variable_value(&self, name: Seq<char>, id: usize) -> Option<V> {
        if self.locals().contains_key(id) {
            local(
                self.scopes(),
                ancestor_of(self.scopes(), self.current(), self.locals()[id] as nat)->0,
                name,
            )
        } else {
            resolve(self.scopes(), 0, name)
        }
    }

    /// A fresh state whose globals are the native functions `clock`, `len` and `push`.
    pub fn new(clock: V, len: V, push: V) -> (i: Interpreter<V>)
        ensures
            i.wf(),
            i.current() == 0,
            i.locals() == Map::<usize, usize>::empty(),
            i.arrays() == Seq::<Seq<V>>::empty(),
            i.scopes() == bind(
                bind(
                    bind(with_scope(Seq::<ScopeModel<V>>::empty(), None), 0, "clock"@, clock),
                    0,
                    "len"@,
                    len,
                ),
                0,
                "push"@,
                push,
            ),
    {
        broadcast use vstd::std_specs::hash::group_hash_axioms;

        let mut env: Environment<V> = Environment::new();
        env.define(0, String::from_str("clock"), clock);
        env.define(0, String::from_str("len"), len);
        env.define(0, String::from_str("push"), push);
        Interpreter { env, current: 0, locals: HashMap::new(), arrays: Arrays::new() }
    }

    /// The scope of the globals.
    pub fn globals(&self) -> (g: usize)
        ensures
            g == 0,
    {
        0
    }

    /// The scope the program runs in now.
    pub fn current_scope(&self) -> (s: usize)
        ensures
            s == self.current(),
    {
        self.current
    }

    /// Records that the variable of expression `id` lives `depth` scopes out from
    /// the one where it is used.
    pub fn resolve(&mut self, id: usize, depth: usize)
        requires
            old(self).wf(),
        ensures
            final(self).wf(),
            final(self).arrays() == old(self).arrays(),
            final(self).scopes() == old(self).scopes(),
            final(self).current() == old(self).current(),
            final(self).locals() == old(self).locals().insert(id, depth),
    {
        broadcast use vstd::std_specs::hash::group_hash_axioms;

        self.locals.insert(id, depth);
    }

    /// The scope `distance` steps out from `scope`, if the chain is that long.
    fn scope_at(&self, distance: usize) -> (r: Option<usize>)
        requires
            self.wf(),
        ensures
            r matches Some(a) ==> ancestor_of(self.scopes(), self.current(), distance as nat)
                == Some(a as int) && a < self.scopes().len(),
            r is None ==> ancestor_of(self.scopes(), self.current(), distance as nat) is None,
    {
        self.env.try_ancestor(self.current, distance)
    }

    /// Whether the variable of expression `id` named `name` can be read; see
    /// [`Self::lookup_resolves`].
    pub fn can_look_up(&self, name: &Token, id: usize) -> (b: bool)
        requires
            self.wf(),
        ensures
            b == self.lookup_resolves(name.lexeme@, id),
    {
        broadcast use vstd::std_specs::hash::group_hash_axioms;

        match self.locals.get(&id) {
            None => true,
            Some(distance) => match self.scope_at(*distance) {
                None => false,
                Some(a) => self.env.binds(a, &name.lexeme),
            },
        }
    }

    /// Whether the variable of expression `id` can be assigned; see
    /// [`Self::assignment_resolves`].
    pub fn can_assign(&self, id: usize) -> (b: bool)
        requires
            self.wf(),
        ensures
            b == self.assignment_resolves(id),
    {
        broadcast use vstd::std_specs::hash::group_hash_axioms;

        match self.locals.get(&id) {
            None => true,
            Some(distance) => self.scope_at(*distance).is_some(),
        }
    }

    /// The value of the variable of expression `id` named `name`; an error naming
    /// the variable when it is looked up among the globals and none binds it.
    pub fn look_up_variable(&self, name: &Token, id: usize) -> (r: Result<&V, RuntimeError>)
        requires
            self.wf(),
            self.lookup_resolves(name.lexeme@, id),
        ensures
            match r {
                Ok(v) => self.variable_value(name.lexeme@, id) == Some(*v),
                Err(e) => self.variable_value(name.lexeme@, id) is None && error_at(
                    e,
                    *name,
                    undefined_variable_message(name.lexeme@),
                ),
            },
    {
        broadcast use vstd::std_specs::hash::group_hash_axioms;

        match self.locals.get(&id) {
            Some(distance) => Ok(self.env.get_at(self.current, *distance, &name.lexeme)),
            None => self.env.get(0, name),
        }
    }

    /// Gives the variable of expression `id` named `name` the value `value`: in the
    /// scope it was resolved to, or else in the global that binds it; an error
    /// naming the variable, and no change, when no global does.
    pub fn assign_variable(&mut self, name: Token, id: usize, value: V) -> (r: Result<
        (),
        RuntimeError,
    >)
        requires
            old(self).wf(),
            old(self).assignment_resolves(id),
        ensures
            final(self).wf(),
            final(self).arrays() == old(self).arrays(),
            final(self).current() == old(self).current(),
            final(self).locals() == old(self).locals(),
            if old(self).locals().contains_key(id) {
                r is Ok && final(self).scopes() == bind(
                    old(self).scopes(),
                    ancestor_of(
                        old(self).scopes(),
                        old(self).current(),
                        old(self).locals()[id] as nat,
                    )->0,
                    name.lexeme@,
                    value,
                )
            } else {
                match holder(old(self).scopes(), 0, name.lexeme@) {
                    Some(h) => r is Ok && final(self).scopes() == bind(
                        old(self).scopes(),
                        h,
                        name.lexeme@,
                        value,
                    ),
                    None => final(self).scopes() == old(self).scopes() && (r matches Err(e)
                        && error_at(e, name, undefined_variable_message(name.lexeme@))),
                }
            },
    {
        broadcast use vstd::std_specs::hash::group_hash_axioms;

        match self.locals.get(&id) {
            Some(distance) => {
                let d = *distance;
                self.env.assign_at(self.current, d, &name, value);
                Ok(())
            },
            None => self.env.assign(0, name, value),
        }
    }

    /// Binds `name` to `value` in the current scope.
    pub fn define(&mut self, name: String, value: V)
        requires
            old(self).wf(),
        ensures
            final(self).wf(),
            final(self).arrays() == old(self).arrays(),
            final(self).current() == old(self).current(),
            final(self).locals() == old(self).locals(),
            final(self).scopes() == bind(old(self).scopes(), old(self).current(), name@, value),
    {
        self.env.define(self.current, name, value);
    }

    /// Declares a class in the current scope: its name is first bound to `nil`,
    /// then assigned the class.
    pub fn declare_class(&mut self, name: Token, nil: V, class: V)
        requires
            old(self).wf(),
        ensures
            final(self).wf(),
            final(self).arrays() == old(self).arrays(),
            final(self).current() == old(self).current(),
            final(self).locals() == old(self).locals(),
            final(self).scopes() == bind(
                bind(old(self).scopes(), old(self).current(), name.lexeme@, nil),
                old(self).current(),
                name.lexeme@,
                class,
            ),
    {
        let ghost m = self.env@;
        let ghost c = self.current as int;
        let ghost n = name.lexeme@;
        self.env.define(self.current, name.lexeme.clone(), nil);
        proof {
            lemma_bind_local(m, c, n, nil, c, n);
        }
        assert(holder(self.env@, c, n) == Some(c));
        let r = self.env.assign(self.current, name, class);
    }

    /// Enters the scope a block runs in: `scope` when one is given (the scope of a
    /// call), or else a new scope enclosed by the current one. Gives the scope to
    /// go back to afterwards.
    pub fn enter_block(&mut self, scope: Option<usize>) -> (previous: usize)
        requires
            old(self).wf(),
            scope matches Some(s) ==> s < old(self).scopes().len(),
        ensures
            final(self).wf(),
            final(self).arrays() == old(self).arrays(),
            previous == old(self).current(),
            final(self).locals() == old(self).locals(),
            match scope {
                Some(s) => final(self).scopes() == old(self).scopes() && final(self).current()
                    == s,
                None => final(self).scopes() == with_scope(
                    old(self).scopes(),
                    Some(old(self).current() as usize),
                ) && final(self).current() == old(self).scopes().len(),
            },
    {
        let previous = self.current;
        match scope {
            Some(s) => {
                self.current = s;
            },
            None => {
                let s = self.env.from_parent(previous);
                self.current = s;
            },
        }
        previous
    }

    /// Goes back to the scope `previous` after a block.
    pub fn leave_block(&mut self, previous: usize)
        requires
            old(self).wf(),
            previous < old(self).scopes().len(),
        ensures
            final(self).wf(),
            final(self).arrays() == old(self).arrays(),
            final(self).current() == previous,
            final(self).scopes() == old(self).scopes(),
            final(self).locals() == old(self).locals(),
    {
        self.current = previous;
    }

    /// The scope a call of a function made in scope `closure` runs in: a new scope
    /// enclosed by `closure`, in which each parameter is bound to the argument at
    /// its position; parameters or arguments beyond the shorter list are left out.
    pub fn call_scope(&mut self, closure: usize, params: &Vec<Token>, arguments: Vec<V>) -> (s:
        usize)
        requires
            old(self).wf(),
            closure < old(self).scopes().len(),
        ensures
            final(self).wf(),
            final(self).arrays() == old(self).arrays(),
            s == old(self).scopes().len(),
            final(self).current() == old(self).current(),
            final(self).locals() == old(self).locals(),
            final(self).scopes() == bind_all(
                with_scope(old(self).scopes(), Some(closure)),
                s as int,
                params@.map_values(|t: Token| t.lexeme@),
                arguments@,
                min_count(params@.len(), arguments@.len()),
            ),
    {
        let s = self.env.from_parent(closure);
        let ghost start = self.env@;
        let ghost names = params@.map_values(|t: Token| t.lexeme@);
        let ghost values = arguments@;
        let n = if params.len() <= arguments.len() {
            params.len()
        } else {
            arguments.len()
        };
        let mut rest = arguments;
        let mut i: usize = 0;
        while i < n
            invariant
                self.env.wf(),
                self.current < self.env@.len(),
                self.current == old(self).current,
                self.locals@ == old(self).locals@,
                self.arrays@ == old(self).arrays@,
                s < self.env@.len(),
                s == start.len() - 1,
                n == min_count(params@.len(), values.len()),
                i <= n,
                rest@ == values.subrange(i as int, values.len() as int),
                names == params@.map_values(|t: Token| t.lexeme@),
                self.env@ == bind_all(start, s as int, names, values, i as nat),
            decreases n - i,
        {
            let value = rest.remove(0);
            assert(value == values[i as int]);
            self.env.define(s, params[i].lexeme.clone(), value);
            assert(names[i as int] == params@[i as int].lexeme@);
            i += 1;
            assert(rest@ =~= values.subrange(i as int, values.len() as int));
        }
        s
    }

    /// The scope a method bound to an instance runs in: a new scope enclosed by
    /// `closure` in which `this` is the instance.
    pub fn this_scope(&mut self, closure: usize, instance: V) -> (s: usize)
        requires
            old(self).wf(),
            closure < old(self).scopes().len(),
        ensures
            final(self).wf(),
            final(self).arrays() == old(self).arrays(),
            s == old(self).scopes().len(),
            final(self).current() == old(self).current(),
            final(self).locals() == old(self).locals(),
            final(self).scopes() == bind(
                with_scope(old(self).scopes(), Some(closure)),
                s as int,
                "this"@,
                instance,
            ),
    {
        let s = self.env.from_parent(closure);
        self.env.define(s, String::from_str("this"), instance);
        s
    }

    /// The number of arrays made so far; every index below it names an array.
    pub fn array_count(&self) -> (n: usize)
        ensures
            n == self.arrays().len(),
    {
        self.arrays.count()
    }

    /// Makes a new array holding `elements`; gives the index that names it.
    pub fn new_array(&mut self, elements: Vec<V>) -> (a: usize)
        requires
            old(self).wf(),
        ensures
            final(self).wf(),
            a == old(self).arrays().len(),
            final(self).arrays() == old(self).arrays().push(elements@),
            final(self).scopes() == old(self).scopes(),
            final(self).current() == old(self).current(),
            final(self).locals() == old(self).locals(),
    {
        self.arrays.add_array(elements)
    }

    /// The number of elements of array `a`.
    pub fn array_len(&self, a: usize) -> (n: usize)
        requires
            a < self.arrays().len(),
        ensures
            n == self.arrays()[a as int].len(),
    {
        self.arrays.len(a)
    }

    /// The element at position `i` of array `a`.
    pub fn array_get(&self, a: usize, i: usize) -> (v: &V)
        requires
            a < self.arrays().len(),
            i < self.arrays()[a as int].len(),
        ensures
            *v == self.arrays()[a as int][i as int],
    {
        self.arrays.get(a, i)
    }

    /// Replaces the element at position `i` of array `a` with `v`; every alias of
    /// the array sees the new element.
    pub fn array_set(&mut self, a: usize, i: usize, v: V)
        requires
            old(self).wf(),
            a < old(self).arrays().len(),
            i < old(self).arrays()[a as int].len(),
        ensures
            final(self).wf(),
            final(self).arrays() == old(self).arrays().update(
                a as int,
                old(self).arrays()[a as int].update(i as int, v),
            ),
            final(self).scopes() == old(self).scopes(),
            final(self).current() == old(self).current(),
            final(self).locals() == old(self).locals(),
    {
        self.arrays.set(a, i, v);
    }

    /// Calls the native `len` on `argument`; see [`Len::call`].
    pub fn call_len(&self, argument: &LenArgument, paren: &Token) -> (r: Result<usize, RuntimeError>)
        requires
            argument matches LenArgument::Array(a) ==> a < self.arrays().len(),
        ensures
            match argument {
                LenArgument::Array(a) => r == Ok::<usize, RuntimeError>(
                    self.arrays()[*a as int].len() as usize,
                ),
                LenArgument::Str(s) => r matches Ok(n) && n == s@.len(),
                LenArgument::Other => r matches Err(e) && e.token == *paren && e.message@
                    == len_error_message(),
            },
    {
        Len.call(&self.arrays, argument, paren)
    }

    /// Calls the native `push` on `target` with the value `value`, whose text is
    /// `text`; see [`Push::call`].
    pub fn call_push(&mut self, target: PushTarget, value: V, text: &String, paren: &Token) -> (r:
        Result<PushOutcome, RuntimeError>)
        requires
            old(self).wf(),
            target matches PushTarget::Array(a) ==> a < old(self).arrays().len(),
        ensures
            final(self).wf(),
            final(self).scopes() == old(self).scopes(),
            final(self).current() == old(self).current(),
            final(self).locals() == old(self).locals(),
            match target {
                PushTarget::Array(a) => r matches Ok(PushOutcome::AppendToArray)
                    && final(self).arrays() == old(self).arrays().update(
                    a as int,
                    old(self).arrays()[a as int].push(value),
                ),
                PushTarget::Str(s) => (r matches Ok(PushOutcome::NewString(t)) && t@ == s@
                    + text@) && final(self).arrays() == old(self).arrays(),
                PushTarget::Other => (r matches Err(e) && e.token == *paren && e.message@
                    == push_error_message()) && final(self).arrays() == old(self).arrays(),
            },
    {
        Push.call(&mut self.arrays, target, value, text, paren)
    }

    /// Whether scope `scope` itself binds `name`.
    pub fn binds(&self, scope: usize, name: &String) -> (b: bool)
        requires
            self.wf(),
            scope < self.scopes().len(),
        ensures
            b == (local(self.scopes(), scope as int, name@) is Some),
    {
        self.env.binds(scope, name)
    }

    /// The value scope `scope` itself binds to `name`.
    pub fn value_in(&self, scope: usize, name: &String) -> (r: &V)
        requires
            self.wf(),
            local(self.scopes(), scope as int, name@) is Some,
        ensures
            local(self.scopes(), scope as int, name@) == Some(*r),
    {
        proof {
            assert(ancestor_of(self.scopes(), scope as int, 0) == Some(scope as int));
        }
        self.env.get_at(scope, 0, name)
    }
}

} // verus!
