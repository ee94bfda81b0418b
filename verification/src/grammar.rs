//! The grammar of the language and its error recovery, stated as functions
//! from a token sequence and a parsing state to a result and the next state.
use vstd::prelude::*;

use crate::expr::ExprView;
use crate::stmt::StmtView;
use crate::token::{LiteralView, TokenType, TokenView};

verus! {

/// Which kind of callable a declaration introduces.
#[derive(Clone, Copy, Debug, PartialEq, Eq, Structural)]
pub enum FunctionKind {
    Function,
    Method,
}

/// What went wrong while parsing.
#[derive(Clone, Copy, Debug, PartialEq, Eq, Structural)]
pub enum ParseErrorKind {
    UnterminatedBracket,
    ElementsNotSeparated,
    ExpectDotAfterSuper,
    ExpectSuperclassMethod,
    UnterminatedParenthesis,
    ExpressionExpected,
    TooManyArguments,
    ExpectParenAfterArguments,
    UnknownError,
    ExpectPropertyName,
    ExpectBracketAfterIndex,
    InvalidAssignmentTarget,
    SemicolonAfterValue,
    ExpectBraceAfterBlock,
    ExpectParenAfterIf,
    ExpectParenAfterIfCondition,
    ExpectSemicolonAfterReturn,
    ExpectParenAfterWhile,
    ExpectParenAfterCondition,
    ExpectParenAfterFor,
    ExpectSemicolonAfterLoopCondition,
    ExpectParenAfterForClauses,
    ExpectedIdentifier,
    SemicolonAfterVarDeclaration,
    ExpectedName(FunctionKind),
    ExpectParenAfterName(FunctionKind),
    TooManyParameters,
    ParameterNameExpected,
    ExpectParenAfterParameters,
    ExpectBraceBeforeBody(FunctionKind),
    ExpectClassName,
    ExpectSuperclassName,
    ExpectBraceBeforeClassBody,
    ExpectBraceAfterClassBody,
    /// Parsing stopped without recovery: a declaration inside a block failed, or a
    /// variable or class declaration had no name.
    Aborted,
}

impl ParseErrorKind {
    /// The text of the message that reports this kind of error.
    pub open spec fn text(self) -> Seq<char> {
        match self {
            ParseErrorKind::UnterminatedBracket => "unterminated bracket"@,
            ParseErrorKind::ElementsNotSeparated => "array elements not separated by commas"@,
            ParseErrorKind::ExpectDotAfterSuper => "expect '.' after 'super'"@,
            ParseErrorKind::ExpectSuperclassMethod => "expect superclass method name"@,
            ParseErrorKind::UnterminatedParenthesis => "unterminated parenthesis"@,
            ParseErrorKind::ExpressionExpected => "expression expected"@,
            ParseErrorKind::TooManyArguments => "argument size exceeds 255"@,
            ParseErrorKind::ExpectParenAfterArguments => "expect ')' after arguments"@,
            ParseErrorKind::UnknownError => "unknown error"@,
            ParseErrorKind::ExpectPropertyName => "expect property name after '.'"@,
            ParseErrorKind::ExpectBracketAfterIndex => "expect ']' after index"@,
            ParseErrorKind::InvalidAssignmentTarget => "invalid assignment target"@,
            ParseErrorKind::SemicolonAfterValue => "semicolon expected after value"@,
            ParseErrorKind::ExpectBraceAfterBlock => "expected closing right brace for block"@,
            ParseErrorKind::ExpectParenAfterIf => "expect '(' after 'if'"@,
            ParseErrorKind::ExpectParenAfterIfCondition => "expect ')' after if condition"@,
            ParseErrorKind::ExpectSemicolonAfterReturn => "expect ';' after return value"@,
            ParseErrorKind::ExpectParenAfterWhile => "expect '(' after 'while'"@,
            ParseErrorKind::ExpectParenAfterCondition => "expect ')' after condition"@,
            ParseErrorKind::ExpectParenAfterFor => "expect '(' after 'for'"@,
            ParseErrorKind::ExpectSemicolonAfterLoopCondition => "expect ';' after loop condition"@,
            ParseErrorKind::ExpectParenAfterForClauses => "expect ')' after for clauses"@,
            ParseErrorKind::ExpectedIdentifier => "expected identifier"@,
            ParseErrorKind::SemicolonAfterVarDeclaration => "semicolon expected after variable declaration"@,
            ParseErrorKind::ExpectedName(FunctionKind::Function) => "expected function name"@,
            ParseErrorKind::ExpectedName(FunctionKind::Method) => "expected method name"@,
            ParseErrorKind::ExpectParenAfterName(FunctionKind::Function) => "expected '(' after function identifier"@,
            ParseErrorKind::ExpectParenAfterName(FunctionKind::Method) => "expected '(' after method identifier"@,
            ParseErrorKind::TooManyParameters => "255 parameter limit exceeded"@,
            ParseErrorKind::ParameterNameExpected => "parameter name expected"@,
            ParseErrorKind::ExpectParenAfterParameters => "expected ')' after parameters"@,
            ParseErrorKind::ExpectBraceBeforeBody(FunctionKind::Function) => "expect '{' before function body"@,
            ParseErrorKind::ExpectBraceBeforeBody(FunctionKind::Method) => "expect '{' before method body"@,
            ParseErrorKind::ExpectClassName => "expect class name"@,
            ParseErrorKind::ExpectSuperclassName => "expect superclass name"@,
            ParseErrorKind::ExpectBraceBeforeClassBody => "expect '{' before class body"@,
            ParseErrorKind::ExpectBraceAfterClassBody => "expect '}' after class body"@,
            ParseErrorKind::Aborted => "parsing stopped"@,
        }
    }

    /// The message that reports this kind of error.
    pub fn message(&self) -> (r: &'static str)
        ensures
            r@ == self.text(),
    {
        match self {
            ParseErrorKind::UnterminatedBracket => "unterminated bracket",
            ParseErrorKind::ElementsNotSeparated => "array elements not separated by commas",
            ParseErrorKind::ExpectDotAfterSuper => "expect '.' after 'super'",
            ParseErrorKind::ExpectSuperclassMethod => "expect superclass method name",
            ParseErrorKind::UnterminatedParenthesis => "unterminated parenthesis",
            ParseErrorKind::ExpressionExpected => "expression expected",
            ParseErrorKind::TooManyArguments => "argument size exceeds 255",
            ParseErrorKind::ExpectParenAfterArguments => "expect ')' after arguments",
            ParseErrorKind::UnknownError => "unknown error",
            ParseErrorKind::ExpectPropertyName => "expect property name after '.'",
            ParseErrorKind::ExpectBracketAfterIndex => "expect ']' after index",
            ParseErrorKind::InvalidAssignmentTarget => "invalid assignment target",
            ParseErrorKind::SemicolonAfterValue => "semicolon expected after value",
            ParseErrorKind::ExpectBraceAfterBlock => "expected closing right brace for block",
            ParseErrorKind::ExpectParenAfterIf => "expect '(' after 'if'",
            ParseErrorKind::ExpectParenAfterIfCondition => "expect ')' after if condition",
            ParseErrorKind::ExpectSemicolonAfterReturn => "expect ';' after return value",
            ParseErrorKind::ExpectParenAfterWhile => "expect '(' after 'while'",
            ParseErrorKind::ExpectParenAfterCondition => "expect ')' after condition",
            ParseErrorKind::ExpectParenAfterFor => "expect '(' after 'for'",
            ParseErrorKind::ExpectSemicolonAfterLoopCondition => "expect ';' after loop condition",
            ParseErrorKind::ExpectParenAfterForClauses => "expect ')' after for clauses",
            ParseErrorKind::ExpectedIdentifier => "expected identifier",
            ParseErrorKind::SemicolonAfterVarDeclaration => "semicolon expected after variable declaration",
            ParseErrorKind::ExpectedName(FunctionKind::Function) => "expected function name",
            ParseErrorKind::ExpectedName(FunctionKind::Method) => "expected method name",
            ParseErrorKind::ExpectParenAfterName(FunctionKind::Function) => "expected '(' after function identifier",
            ParseErrorKind::ExpectParenAfterName(FunctionKind::Method) => "expected '(' after method identifier",
            ParseErrorKind::TooManyParameters => "255 parameter limit exceeded",
            ParseErrorKind::ParameterNameExpected => "parameter name expected",
            ParseErrorKind::ExpectParenAfterParameters => "expected ')' after parameters",
            ParseErrorKind::ExpectBraceBeforeBody(FunctionKind::Function) => "expect '{' before function body",
            ParseErrorKind::ExpectBraceBeforeBody(FunctionKind::Method) => "expect '{' before method body",
            ParseErrorKind::ExpectClassName => "expect class name",
            ParseErrorKind::ExpectSuperclassName => "expect superclass name",
            ParseErrorKind::ExpectBraceBeforeClassBody => "expect '{' before class body",
            ParseErrorKind::ExpectBraceAfterClassBody => "expect '}' after class body",
            ParseErrorKind::Aborted => "parsing stopped",
        }
    }
}

/// The mathematical model of a parse error: the token where it was found and its kind.
pub struct ParseErrorView {
    pub token: TokenView,
    pub kind: ParseErrorKind,
}

/// The state of a parse: the position of the next token, the errors recorded so
/// far, the next expression number, and whether parsing has stopped.
pub struct PState {
    pub pos: int,
    pub errors: Seq<ParseErrorView>,
    pub next_id: usize,
    pub stuck: bool,
}

/// The state a parse starts in.
pub open spec fn initial_state() -> PState {
    start_state(0)
}

/// The state a parse starts in when expressions are numbered from `first_id` on.
pub open spec fn start_state(first_id: usize) -> PState {
    PState { pos: 0, errors: Seq::empty(), next_id: first_id, stuck: false }
}

/// The parse can go on from `st`.
pub open spec fn live(toks: Seq<TokenView>, st: PState) -> bool {
    !st.stuck && 0 <= st.pos < toks.len()
}

/// The next token ends the input.
pub open spec fn at_end(toks: Seq<TokenView>, st: PState) -> bool {
    toks[st.pos].kind == TokenType::EOF
}

/// The next token has kind `k` (and is not the end).
pub open spec fn check(toks: Seq<TokenView>, st: PState, k: TokenType) -> bool {
    !at_end(toks, st) && toks[st.pos].kind == k
}

/// The next token has one of the kinds `ks` (and is not the end).
pub open spec fn next_is_one_of(toks: Seq<TokenView>, st: PState, ks: Seq<TokenType>) -> bool {
    !at_end(toks, st) && ks.contains(toks[st.pos].kind)
}

/// Moving past the next token, unless it ends the input.
pub open spec fn advance(toks: Seq<TokenView>, st: PState) -> PState {
    if at_end(toks, st) {
        st
    } else {
        PState { pos: st.pos + 1, ..st }
    }
}

/// An error of kind `kind` at the next token.
pub open spec fn error_here(toks: Seq<TokenView>, st: PState, kind: ParseErrorKind) -> ParseErrorView {
    ParseErrorView { token: toks[st.pos], kind }
}

/// The state with one more recorded error.
pub open spec fn with_error(st: PState, e: ParseErrorView) -> PState {
    PState { errors: st.errors.push(e), ..st }
}

/// The error that reports a stopped parse.
pub open spec fn halted(toks: Seq<TokenView>, st: PState) -> ParseErrorView {
    error_here(toks, st, ParseErrorKind::Aborted)
}

/// The state in which parsing has stopped.
pub open spec fn abort(st: PState) -> PState {
    PState { stuck: true, ..st }
}

/// Taking the next token if it has kind `k`; otherwise recording an error of kind `kind`.
pub open spec fn consume(toks: Seq<TokenView>, st: PState, k: TokenType, kind: ParseErrorKind) -> (
    Option<TokenView>,
    PState,
) {
    if check(toks, st, k) {
        (Some(toks[st.pos]), advance(toks, st))
    } else {
        (None, with_error(st, error_here(toks, st, kind)))
    }
}

/// The expression number after `id`; numbering wraps around at the top of `usize`.
pub open spec fn next_id_after(id: usize) -> usize {
    if id == usize::MAX {
        0
    } else {
        (id + 1) as usize
    }
}

/// Drawing a fresh expression number.
pub open spec fn take_id(st: PState) -> (usize, PState) {
    (st.next_id, PState { next_id: next_id_after(st.next_id), ..st })
}

/// `b` is strictly further into the input than `a`, and within it.
pub open spec fn forward(toks: Seq<TokenView>, a: PState, b: PState) -> bool {
    a.pos < b.pos <= toks.len()
}

/// `b` is not before `a`, and within the input.
pub open spec fn not_back(toks: Seq<TokenView>, a: PState, b: PState) -> bool {
    a.pos <= b.pos <= toks.len()
}

/// The operators of the binary precedence levels, from the tightest
/// (factor, term, comparison) to the loosest (equality).
pub open spec fn binary_operators(level: int) -> Seq<TokenType> {
    if level == 0 {
        seq![TokenType::Slash, TokenType::Star]
    } else if level == 1 {
        seq![TokenType::Minus, TokenType::Plus]
    } else if level == 2 {
        seq![TokenType::Greater, TokenType::GreaterEqual, TokenType::Less, TokenType::LessEqual]
    } else {
        seq![TokenType::BangEqual, TokenType::EqualEqual]
    }
}

/// The operator of the logical levels: `and` binds tighter than `or`.
pub open spec fn logical_operator(level: int) -> TokenType {
    if level == 0 {
        TokenType::And
    } else {
        TokenType::Or
    }
}

/// The result of parsing an expression, and the state after it.
pub type ExprStep = (Result<ExprView, ParseErrorView>, PState);

/// The result of parsing a statement, and the state after it.
pub type StmtStep = (Result<StmtView, ParseErrorView>, PState);

/// primary := literal | array | `this` | `super` `.` name | name | `(` expression `)`
pub open spec fn spec_primary(toks: Seq<TokenView>, st: PState) -> (
    Result<Option<ExprView>, ParseErrorView>,
    PState,
)
    decreases toks.len() - st.pos, 1int,
{
    if !live(toks, st) {
        (Err(halted(toks, st)), st)
    } else if check(toks, st, TokenType::False) {
        (Ok(Some(ExprView::Literal { value: LiteralView::Boolean(false) })), advance(toks, st))
    } else if check(toks, st, TokenType::True) {
        (Ok(Some(ExprView::Literal { value: LiteralView::Boolean(true) })), advance(toks, st))
    } else if check(toks, st, TokenType::Nil) {
        (Ok(Some(ExprView::Literal { value: LiteralView::Nil })), advance(toks, st))
    } else if check(toks, st, TokenType::Number) || check(toks, st, TokenType::String) {
        (Ok(Some(ExprView::Literal { value: toks[st.pos].literal->0 })), advance(toks, st))
    } else if check(toks, st, TokenType::LeftBracket) {
        let (r, s1) = spec_array_elements(toks, advance(toks, st), Seq::empty());
        match r {
            Ok(e) => (Ok(Some(e)), s1),
            Err(e) => (Err(e), s1),
        }
    } else if check(toks, st, TokenType::This) {
        let (id, s1) = take_id(advance(toks, st));
        (Ok(Some(ExprView::This { id, keyword: toks[st.pos] })), s1)
    } else if check(toks, st, TokenType::Super) {
        let keyword = toks[st.pos];
        let (_, s1) = consume(
            toks,
            advance(toks, st),
            TokenType::Dot,
            ParseErrorKind::ExpectDotAfterSuper,
        );
        let (m, s2) = consume(toks, s1, TokenType::Identifier, ParseErrorKind::ExpectSuperclassMethod);
        match m {
            Some(method) => {
                let (id, s3) = take_id(s2);
                (Ok(Some(ExprView::Super { id, keyword, method })), s3)
            },
            None => (Ok(None), s2),
        }
    } else if check(toks, st, TokenType::Identifier) {
        let (id, s1) = take_id(advance(toks, st));
        (Ok(Some(ExprView::Variable { id, name: toks[st.pos] })), s1)
    } else if check(toks, st, TokenType::LeftParen) {
        let (r, s1) = spec_expression(toks, advance(toks, st));
        match r {
            Err(e) => (Err(e), s1),
            Ok(e) => {
                let (_, s2) = consume(
                    toks,
                    s1,
                    TokenType::RightParen,
                    ParseErrorKind::UnterminatedParenthesis,
                );
                (Ok(Some(ExprView::Grouping { expression: Box::new(e) })), s2)
            },
        }
    } else {
        (
            Ok(None),
            advance(toks, with_error(st, error_here(toks, st, ParseErrorKind::ExpressionExpected))),
        )
    }
}

/// The rest of an array literal, after `[` and the elements `elems`.
pub open spec fn spec_array_elements(toks: Seq<TokenView>, st: PState, elems: Seq<ExprView>) -> ExprStep
    decreases toks.len() - st.pos, 20int,
{
    if !live(toks, st) {
        (Err(halted(toks, st)), st)
    } else if toks[st.pos].kind == TokenType::RightBracket {
        (Ok(ExprView::Array { elements: elems }), advance(toks, st))
    } else if toks[st.pos].kind == TokenType::Semicolon {
        (Err(error_here(toks, st, ParseErrorKind::UnterminatedBracket)), st)
    } else {
        let (r, s1) = spec_expression(toks, st);
        match r {
            Err(e) => (Err(e), s1),
            Ok(e) => {
                if !(forward(toks, st, s1) && s1.pos < toks.len()) {
                    (Err(halted(toks, s1)), s1)
                } else if toks[s1.pos].kind == TokenType::Comma {
                    spec_array_elements(toks, advance(toks, s1), elems.push(e))
                } else if toks[s1.pos].kind == TokenType::RightBracket {
                    spec_array_elements(toks, s1, elems.push(e))
                } else {
                    (Err(error_here(toks, s1, ParseErrorKind::ElementsNotSeparated)), s1)
                }
            },
        }
    }
}

/// The arguments of a call from the current one on, after the arguments `args`.
pub open spec fn spec_call_args(toks: Seq<TokenView>, st: PState, args: Seq<ExprView>) -> (
    Result<Seq<ExprView>, ParseErrorView>,
    PState,
)
    decreases toks.len() - st.pos, 20int,
{
    if !live(toks, st) {
        (Err(halted(toks, st)), st)
    } else if args.len() >= 255 {
        (Err(error_here(toks, st, ParseErrorKind::TooManyArguments)), st)
    } else {
        let (r, s1) = spec_expression(toks, st);
        match r {
            Err(e) => (Err(e), s1),
            Ok(e) => {
                if !(forward(toks, st, s1) && s1.pos < toks.len()) {
                    (Err(halted(toks, s1)), s1)
                } else if check(toks, s1, TokenType::Comma) {
                    spec_call_args(toks, advance(toks, s1), args.push(e))
                } else {
                    (Ok(args.push(e)), s1)
                }
            },
        }
    }
}

/// The argument list of a call to `callee`, after `(`.
pub open spec fn spec_finish_call(toks: Seq<TokenView>, st: PState, callee: ExprView) -> ExprStep
    decreases toks.len() - st.pos, 21int,
{
    if !live(toks, st) {
        (Err(halted(toks, st)), st)
    } else {
        let (r, s1) = if check(toks, st, TokenType::RightParen) {
            (Ok(Seq::<ExprView>::empty()), st)
        } else {
            spec_call_args(toks, st, Seq::empty())
        };
        match r {
            Err(e) => (Err(e), s1),
            Ok(args) => {
                let (p, s2) = consume(
                    toks,
                    s1,
                    TokenType::RightParen,
                    ParseErrorKind::ExpectParenAfterArguments,
                );
                match p {
                    None => (Err(error_here(toks, s2, ParseErrorKind::ExpectParenAfterArguments)), s2),
                    Some(paren) => (
                        Ok(ExprView::Call { callee: Box::new(callee), paren, arguments: args }),
                        s2,
                    ),
                }
            },
        }
    }
}

/// The calls, property accesses and indexings that follow `expr`.
pub open spec fn spec_call_rest(toks: Seq<TokenView>, st: PState, expr: ExprView) -> ExprStep
    decreases toks.len() - st.pos, 2int,
{
    if !live(toks, st) {
        (Err(halted(toks, st)), st)
    } else if check(toks, st, TokenType::LeftParen) {
        let (r, s1) = spec_finish_call(toks, advance(toks, st), expr);
        match r {
            Err(e) => (Err(e), s1),
            Ok(e) => if forward(toks, st, s1) {
                spec_call_rest(toks, s1, e)
            } else {
                (Err(halted(toks, s1)), s1)
            },
        }
    } else if check(toks, st, TokenType::Dot) {
        let (n, s1) = consume(
            toks,
            advance(toks, st),
            TokenType::Identifier,
            ParseErrorKind::ExpectPropertyName,
        );
        match n {
            None => (Ok(expr), s1),
            Some(name) => if forward(toks, st, s1) {
                spec_call_rest(toks, s1, ExprView::Get { object: Box::new(expr), name })
            } else {
                (Err(halted(toks, s1)), s1)
            },
        }
    } else if check(toks, st, TokenType::LeftBracket) {
        let bracket = toks[st.pos];
        let (r, s1) = spec_expression(toks, advance(toks, st));
        match r {
            Err(e) => (Err(e), s1),
            Ok(index) => {
                let (_, s2) = consume(
                    toks,
                    s1,
                    TokenType::RightBracket,
                    ParseErrorKind::ExpectBracketAfterIndex,
                );
                if forward(toks, st, s2) {
                    spec_call_rest(
                        toks,
                        s2,
                        ExprView::Index { object: Box::new(expr), bracket, index: Box::new(index) },
                    )
                } else {
                    (Err(halted(toks, s2)), s2)
                }
            },
        }
    } else {
        (Ok(expr), st)
    }
}

/// call := primary ( `(` arguments `)` | `.` name | `[` expression `]` )*
pub open spec fn spec_call(toks: Seq<TokenView>, st: PState) -> ExprStep
    decreases toks.len() - st.pos, 3int,
{
    if !live(toks, st) {
        (Err(halted(toks, st)), st)
    } else {
        let (r, s1) = spec_primary(toks, st);
        match r {
            Err(e) => (Err(e), s1),
            Ok(None) => (Err(error_here(toks, s1, ParseErrorKind::UnknownError)), s1),
            Ok(Some(e)) => if not_back(toks, st, s1) {
                spec_call_rest(toks, s1, e)
            } else {
                (Err(halted(toks, s1)), s1)
            },
        }
    }
}

/// unary := ( `!` | `-` ) unary | call
pub open spec fn spec_unary(toks: Seq<TokenView>, st: PState) -> ExprStep
    decreases toks.len() - st.pos, 4int,
{
    if !live(toks, st) {
        (Err(halted(toks, st)), st)
    } else if next_is_one_of(toks, st, seq![TokenType::Bang, TokenType::Minus]) {
        let operator = toks[st.pos];
        let (r, s1) = spec_unary(toks, advance(toks, st));
        match r {
            Err(e) => (Err(e), s1),
            Ok(right) => (Ok(ExprView::Unary { operator, right: Box::new(right) }), s1),
        }
    } else {
        spec_call(toks, st)
    }
}

/// A binary level: an operand of the next tighter level, then any number of
/// operators of this level, each followed by such an operand, grouped to the left.
pub open spec fn spec_binary(toks: Seq<TokenView>, st: PState, level: int) -> ExprStep
    decreases toks.len() - st.pos, 6 + 2 * level,
{
    if !live(toks, st) || level < 0 || level > 3 {
        (Err(halted(toks, st)), st)
    } else {
        let (r, s1) = if level == 0 {
            spec_unary(toks, st)
        } else {
            spec_binary(toks, st, level - 1)
        };
        match r {
            Err(e) => (Err(e), s1),
            Ok(left) => if not_back(toks, st, s1) {
                spec_binary_rest(toks, s1, level, left)
            } else {
                (Err(halted(toks, s1)), s1)
            },
        }
    }
}

/// The operators of a binary level, and their operands, that follow `left`.
pub open spec fn spec_binary_rest(
    toks: Seq<TokenView>,
    st: PState,
    level: int,
    left: ExprView,
) -> ExprStep
    decreases toks.len() - st.pos, 5 + 2 * level,
{
    if !live(toks, st) || level < 0 || level > 3 {
        (Err(halted(toks, st)), st)
    } else if next_is_one_of(toks, st, binary_operators(level)) {
        let operator = toks[st.pos];
        let (r, s1) = if level == 0 {
            spec_unary(toks, advance(toks, st))
        } else {
            spec_binary(toks, advance(toks, st), level - 1)
        };
        match r {
            Err(e) => (Err(e), s1),
            Ok(right) => if forward(toks, st, s1) {
                spec_binary_rest(
                    toks,
                    s1,
                    level,
                    ExprView::Binary { left: Box::new(left), operator, right: Box::new(right) },
                )
            } else {
                (Err(halted(toks, s1)), s1)
            },
        }
    } else {
        (Ok(left), st)
    }
}

/// A logical level (`and`, then `or`), built like a binary level over the
/// equality level.
pub open spec fn spec_logical(toks: Seq<TokenView>, st: PState, level: int) -> ExprStep
    decreases toks.len() - st.pos, 14 + 2 * level,
{
    if !live(toks, st) || level < 0 || level > 1 {
        (Err(halted(toks, st)), st)
    } else {
        let (r, s1) = if level == 0 {
            spec_binary(toks, st, 3)
        } else {
            spec_logical(toks, st, 0)
        };
        match r {
            Err(e) => (Err(e), s1),
            Ok(left) => if not_back(toks, st, s1) {
                spec_logical_rest(toks, s1, level, left)
            } else {
                (Err(halted(toks, s1)), s1)
            },
        }
    }
}

/// The operators of a logical level, and their operands, that follow `left`.
pub open spec fn spec_logical_rest(
    toks: Seq<TokenView>,
    st: PState,
    level: int,
    left: ExprView,
) -> ExprStep
    decreases toks.len() - st.pos, 13 + 2 * level,
{
    if !live(toks, st) || level < 0 || level > 1 {
        (Err(halted(toks, st)), st)
    } else if check(toks, st, logical_operator(level)) {
        let (r, s1) = if level == 0 {
            spec_binary(toks, advance(toks, st), 3)
        } else {
            spec_logical(toks, advance(toks, st), 0)
        };
        match r {
            Err(e) => (Err(e), s1),
            Ok(right) => if forward(toks, st, s1) {
                spec_logical_rest(
                    toks,
                    s1,
                    level,
                    ExprView::Logical {
                        left: Box::new(left),
                        operator: logical_operator(level),
                        right: Box::new(right),
                    },
                )
            } else {
                (Err(halted(toks, s1)), s1)
            },
        }
    } else {
        (Ok(left), st)
    }
}

/// assignment := target `=` assignment | or; a target is a variable, a property
/// or an indexing, and any other left side is reported and kept as it is.
pub open spec fn spec_assignment(toks: Seq<TokenView>, st: PState) -> ExprStep
    decreases toks.len() - st.pos, 17int,
{
    if !live(toks, st) {
        (Err(halted(toks, st)), st)
    } else {
        let (r, s1) = spec_logical(toks, st, 1);
        match r {
            Err(e) => (Err(e), s1),
            Ok(expr) => {
                if !(not_back(toks, st, s1) && s1.pos < toks.len()) {
                    (Err(halted(toks, s1)), s1)
                } else if check(toks, s1, TokenType::Equal) {
                    let equals = toks[s1.pos];
                    let (r2, s2) = spec_assignment(toks, advance(toks, s1));
                    match r2 {
                        Err(e) => (Err(e), s2),
                        Ok(value) => match expr {
                            ExprView::Variable { id: _, name } => {
                                let (id, s3) = take_id(s2);
                                (Ok(ExprView::Assign { id, name, value: Box::new(value) }), s3)
                            },
                            ExprView::Get { object, name } => (
                                Ok(ExprView::SetProperty { object, name, value: Box::new(value) }),
                                s2,
                            ),
                            ExprView::Index { object, bracket: _, index } => (
                                Ok(
                                    ExprView::SetIndex {
                                        object,
                                        index,
                                        eq: equals,
                                        value: Box::new(value),
                                    },
                                ),
                                s2,
                            ),
                            _ => (
                                Ok(expr),
                                with_error(
                                    s2,
                                    ParseErrorView {
                                        token: equals,
                                        kind: ParseErrorKind::InvalidAssignmentTarget,
                                    },
                                ),
                            ),
                        },
                    }
                } else {
                    (Ok(expr), s1)
                }
            },
        }
    }
}

/// expression := assignment
pub open spec fn spec_expression(toks: Seq<TokenView>, st: PState) -> ExprStep
    decreases toks.len() - st.pos, 18int,
{
    spec_assignment(toks, st)
}

/// expression `;`
pub open spec fn spec_expression_statement(toks: Seq<TokenView>, st: PState) -> StmtStep
    decreases toks.len() - st.pos, 22int,
{
    if !live(toks, st) {
        (Err(halted(toks, st)), st)
    } else {
        let (r, s1) = spec_expression(toks, st);
        match r {
            Err(e) => (Err(e), s1),
            Ok(e) => {
                let (_, s2) = consume(toks, s1, TokenType::Semicolon, ParseErrorKind::SemicolonAfterValue);
                (Ok(StmtView::Expression(e)), s2)
            },
        }
    }
}

/// `print` expression `;` (after `print`)
pub open spec fn spec_print_statement(toks: Seq<TokenView>, st: PState) -> StmtStep
    decreases toks.len() - st.pos, 22int,
{
    if !live(toks, st) {
        (Err(halted(toks, st)), st)
    } else {
        let (r, s1) = spec_expression(toks, st);
        match r {
            Err(e) => (Err(e), s1),
            Ok(e) => {
                let (_, s2) = consume(toks, s1, TokenType::Semicolon, ParseErrorKind::SemicolonAfterValue);
                (Ok(StmtView::Print(e)), s2)
            },
        }
    }
}

/// `return` expression? `;` (after `return`)
pub open spec fn spec_return_statement(toks: Seq<TokenView>, st: PState) -> StmtStep
    decreases toks.len() - st.pos, 22int,
{
    if !live(toks, st) {
        (Err(halted(toks, st)), st)
    } else {
        let keyword = toks[st.pos - 1];
        let (r, s1) = if !check(toks, st, TokenType::Semicolon) {
            match spec_expression(toks, st) {
                (Ok(v), s) => (Ok(Some(v)), s),
                (Err(e), s) => (Err(e), s),
            }
        } else {
            (Ok(None), st)
        };
        match r {
            Err(e) => (Err(e), s1),
            Ok(value) => {
                let (_, s2) = consume(
                    toks,
                    s1,
                    TokenType::Semicolon,
                    ParseErrorKind::ExpectSemicolonAfterReturn,
                );
                (Ok(StmtView::Return { keyword, value }), s2)
            },
        }
    }
}

/// `var` name ( `=` expression )? `;` (after `var`); a missing name stops the parse.
pub open spec fn spec_var_declaration(toks: Seq<TokenView>, st: PState) -> StmtStep
    decreases toks.len() - st.pos, 22int,
{
    if !live(toks, st) {
        (Err(halted(toks, st)), st)
    } else {
        let (name, s1) = consume(toks, st, TokenType::Identifier, ParseErrorKind::ExpectedIdentifier);
        if !(not_back(toks, st, s1) && s1.pos < toks.len()) {
            (Err(halted(toks, s1)), s1)
        } else {
            let (r, s2) = if check(toks, s1, TokenType::Equal) {
                match spec_expression(toks, advance(toks, s1)) {
                    (Ok(v), s) => (Ok(Some(v)), s),
                    (Err(e), s) => (Err(e), s),
                }
            } else {
                (Ok(None), s1)
            };
            match r {
                Err(e) => (Err(e), s2),
                Ok(initializer) => {
                    let (_, s3) = consume(
                        toks,
                        s2,
                        TokenType::Semicolon,
                        ParseErrorKind::SemicolonAfterVarDeclaration,
                    );
                    match name {
                        None => (Err(halted(toks, s3)), abort(s3)),
                        Some(n) => (Ok(StmtView::Var { name: n, initializer }), s3),
                    }
                },
            }
        }
    }
}

/// The declarations of a block from the current one on, after `items`, up to and
/// including the closing `}`; a failed declaration stops the parse.
pub open spec fn spec_block_items(toks: Seq<TokenView>, st: PState, items: Seq<StmtView>) -> (
    Seq<StmtView>,
    PState,
)
    decreases toks.len() - st.pos, 41int,
{
    if !live(toks, st) {
        (items, st)
    } else if !check(toks, st, TokenType::RightBrace) && !at_end(toks, st) {
        let (r, s1) = spec_declaration(toks, st);
        match r {
            Err(_) => (items, abort(s1)),
            Ok(d) => if forward(toks, st, s1) {
                spec_block_items(toks, s1, items.push(d))
            } else {
                (items, s1)
            },
        }
    } else {
        let (_, s1) = consume(toks, st, TokenType::RightBrace, ParseErrorKind::ExpectBraceAfterBlock);
        (items, s1)
    }
}

/// `if` `(` expression `)` statement ( `else` statement )? (after `if`)
pub open spec fn spec_if_statement(toks: Seq<TokenView>, st: PState) -> StmtStep
    decreases toks.len() - st.pos, 31int,
{
    if !live(toks, st) {
        (Err(halted(toks, st)), st)
    } else {
        let (_, s1) = consume(toks, st, TokenType::LeftParen, ParseErrorKind::ExpectParenAfterIf);
        if !not_back(toks, st, s1) {
            (Err(halted(toks, s1)), s1)
        } else {
            let (rc, s2) = spec_expression(toks, s1);
            match rc {
                Err(e) => (Err(e), s2),
                Ok(condition) => {
                    let (_, s3) = consume(
                        toks,
                        s2,
                        TokenType::RightParen,
                        ParseErrorKind::ExpectParenAfterIfCondition,
                    );
                    if !not_back(toks, st, s3) {
                        (Err(halted(toks, s3)), s3)
                    } else {
                        let (rt, s4) = spec_statement(toks, s3);
                        match rt {
                            Err(e) => (Err(e), s4),
                            Ok(then_branch) => {
                                if !(forward(toks, st, s4) && s4.pos < toks.len()) {
                                    (Err(halted(toks, s4)), s4)
                                } else if check(toks, s4, TokenType::Else) {
                                    let (re, s5) = spec_statement(toks, advance(toks, s4));
                                    match re {
                                        Err(e) => (Err(e), s5),
                                        Ok(else_branch) => (
                                            Ok(
                                                StmtView::If {
                                                    condition,
                                                    then_branch: Box::new(then_branch),
                                                    else_branch: Some(Box::new(else_branch)),
                                                },
                                            ),
                                            s5,
                                        ),
                                    }
                                } else {
                                    (
                                        Ok(
                                            StmtView::If {
                                                condition,
                                                then_branch: Box::new(then_branch),
                                                else_branch: None,
                                            },
                                        ),
                                        s4,
                                    )
                                }
                            },
                        }
                    }
                },
            }
        }
    }
}

/// `while` `(` expression `)` statement (after `while`)
pub open spec fn spec_while_statement(toks: Seq<TokenView>, st: PState) -> StmtStep
    decreases toks.len() - st.pos, 31int,
{
    if !live(toks, st) {
        (Err(halted(toks, st)), st)
    } else {
        let (_, s1) = consume(toks, st, TokenType::LeftParen, ParseErrorKind::ExpectParenAfterWhile);
        if !not_back(toks, st, s1) {
            (Err(halted(toks, s1)), s1)
        } else {
            let (rc, s2) = spec_expression(toks, s1);
            match rc {
                Err(e) => (Err(e), s2),
                Ok(condition) => {
                    let (_, s3) = consume(
                        toks,
                        s2,
                        TokenType::RightParen,
                        ParseErrorKind::ExpectParenAfterCondition,
                    );
                    if !not_back(toks, st, s3) {
                        (Err(halted(toks, s3)), s3)
                    } else {
                        let (rb, s4) = spec_statement(toks, s3);
                        match rb {
                            Err(e) => (Err(e), s4),
                            Ok(body) => (
                                Ok(StmtView::While { condition: Some(condition), body: Box::new(body) }),
                                s4,
                            ),
                        }
                    }
                },
            }
        }
    }
}

/// The statement a `for` loop stands for: its body, followed by the increment
/// when there is one, repeated while the condition holds, after the initializer
/// when there is one.
pub open spec fn desugar_for(
    initializer: Option<StmtView>,
    condition: Option<ExprView>,
    increment: Option<ExprView>,
    body: StmtView,
) -> StmtView {
    let looped = match increment {
        Some(inc) => StmtView::Block(seq![body, StmtView::Expression(inc)]),
        None => body,
    };
    let whiled = StmtView::While { condition, body: Box::new(looped) };
    match initializer {
        Some(init) => StmtView::Block(seq![init, whiled]),
        None => whiled,
    }
}

/// `for` `(` ( `;` | var-declaration | expression-statement ) then the clauses
/// (after `for`)
pub open spec fn spec_for_statement(toks: Seq<TokenView>, st: PState) -> StmtStep
    decreases toks.len() - st.pos, 33int,
{
    if !live(toks, st) {
        (Err(halted(toks, st)), st)
    } else {
        let (_, s1) = consume(toks, st, TokenType::LeftParen, ParseErrorKind::ExpectParenAfterFor);
        if !(not_back(toks, st, s1) && s1.pos < toks.len()) {
            (Err(halted(toks, s1)), s1)
        } else {
            let (ri, s2) = if check(toks, s1, TokenType::Semicolon) {
                (Ok(None), advance(toks, s1))
            } else if check(toks, s1, TokenType::Var) {
                match spec_var_declaration(toks, advance(toks, s1)) {
                    (Ok(s), s_) => (Ok(Some(s)), s_),
                    (Err(e), s_) => (Err(e), s_),
                }
            } else {
                match spec_expression_statement(toks, s1) {
                    (Ok(s), s_) => (Ok(Some(s)), s_),
                    (Err(e), s_) => (Err(e), s_),
                }
            };
            match ri {
                Err(e) => (Err(e), s2),
                Ok(initializer) => if not_back(toks, st, s2) {
                    spec_for_clauses(toks, s2, initializer)
                } else {
                    (Err(halted(toks, s2)), s2)
                },
            }
        }
    }
}

/// expression? `;` expression? `)` statement, the rest of a `for` loop with the
/// given initializer
pub open spec fn spec_for_clauses(
    toks: Seq<TokenView>,
    st: PState,
    initializer: Option<StmtView>,
) -> StmtStep
    decreases toks.len() - st.pos, 32int,
{
    if !live(toks, st) {
        (Err(halted(toks, st)), st)
    } else {
        let (rc, s1) = if !check(toks, st, TokenType::Semicolon) {
            match spec_expression(toks, st) {
                (Ok(c), s_) => (Ok(Some(c)), s_),
                (Err(e), s_) => (Err(e), s_),
            }
        } else {
            (Ok(None), st)
        };
        match rc {
            Err(e) => (Err(e), s1),
            Ok(condition) => {
                let (_, s2) = consume(
                    toks,
                    s1,
                    TokenType::Semicolon,
                    ParseErrorKind::ExpectSemicolonAfterLoopCondition,
                );
                if !(not_back(toks, st, s2) && s2.pos < toks.len()) {
                    (Err(halted(toks, s2)), s2)
                } else {
                    let (rn, s3) = if !check(toks, s2, TokenType::RightParen) {
                        match spec_expression(toks, s2) {
                            (Ok(c), s_) => (Ok(Some(c)), s_),
                            (Err(e), s_) => (Err(e), s_),
                        }
                    } else {
                        (Ok(None), s2)
                    };
                    match rn {
                        Err(e) => (Err(e), s3),
                        Ok(increment) => {
                            let (_, s4) = consume(
                                toks,
                                s3,
                                TokenType::RightParen,
                                ParseErrorKind::ExpectParenAfterForClauses,
                            );
                            if !not_back(toks, st, s4) {
                                (Err(halted(toks, s4)), s4)
                            } else {
                                let (rb, s5) = spec_statement(toks, s4);
                                match rb {
                                    Err(e) => (Err(e), s5),
                                    Ok(body) => (
                                        Ok(desugar_for(initializer, condition, increment, body)),
                                        s5,
                                    ),
                                }
                            }
                        },
                    }
                }
            },
        }
    }
}

/// statement := if | print | return | block | while | for | expression-statement
pub open spec fn spec_statement(toks: Seq<TokenView>, st: PState) -> StmtStep
    decreases toks.len() - st.pos, 30int,
{
    if !live(toks, st) {
        (Err(halted(toks, st)), st)
    } else if check(toks, st, TokenType::If) {
        spec_if_statement(toks, advance(toks, st))
    } else if check(toks, st, TokenType::Print) {
        spec_print_statement(toks, advance(toks, st))
    } else if check(toks, st, TokenType::Return) {
        spec_return_statement(toks, advance(toks, st))
    } else if check(toks, st, TokenType::LeftBrace) {
        let (items, s1) = spec_block_items(toks, advance(toks, st), Seq::empty());
        (Ok(StmtView::Block(items)), s1)
    } else if check(toks, st, TokenType::While) {
        spec_while_statement(toks, advance(toks, st))
    } else if check(toks, st, TokenType::For) {
        spec_for_statement(toks, advance(toks, st))
    } else {
        spec_expression_statement(toks, st)
    }
}

/// The parameter names of a function from the current one on, after `params`.
pub open spec fn spec_params(toks: Seq<TokenView>, st: PState, params: Seq<TokenView>) -> (
    Seq<TokenView>,
    PState,
)
    decreases toks.len() - st.pos,
{
    if !(0 <= st.pos < toks.len()) {
        (params, st)
    } else {
        let s1 = if params.len() >= 255 {
            with_error(st, error_here(toks, st, ParseErrorKind::TooManyParameters))
        } else {
            st
        };
        let (t, s2) = consume(toks, s1, TokenType::Identifier, ParseErrorKind::ParameterNameExpected);
        let params2 = match t {
            Some(t) => params.push(t),
            None => params,
        };
        if s2.pos < toks.len() && check(toks, s2, TokenType::Comma) {
            if st.pos <= s2.pos {
                spec_params(toks, advance(toks, s2), params2)
            } else {
                (params2, s2)
            }
        } else {
            (params2, s2)
        }
    }
}

/// name `(` parameters? `)` `{` block (after `fun`, or inside a class body)
pub open spec fn spec_function(toks: Seq<TokenView>, st: PState, kind: FunctionKind) -> StmtStep
    decreases toks.len() - st.pos, 42int,
{
    if !live(toks, st) {
        (Err(halted(toks, st)), st)
    } else {
        let (name, s1) = consume(toks, st, TokenType::Identifier, ParseErrorKind::ExpectedName(kind));
        match name {
            None => (Err(error_here(toks, s1, ParseErrorKind::ExpectedName(kind))), s1),
            Some(n) => {
                let (_, s2) = consume(
                    toks,
                    s1,
                    TokenType::LeftParen,
                    ParseErrorKind::ExpectParenAfterName(kind),
                );
                let (params, s3) = if !check(toks, s2, TokenType::RightParen) {
                    spec_params(toks, s2, Seq::empty())
                } else {
                    (Seq::empty(), s2)
                };
                let (_, s4) = consume(
                    toks,
                    s3,
                    TokenType::RightParen,
                    ParseErrorKind::ExpectParenAfterParameters,
                );
                let (_, s5) = consume(
                    toks,
                    s4,
                    TokenType::LeftBrace,
                    ParseErrorKind::ExpectBraceBeforeBody(kind),
                );
                if !not_back(toks, st, s5) {
                    (Err(halted(toks, s5)), s5)
                } else {
                    let (body, s6) = spec_block_items(toks, s5, Seq::empty());
                    (Ok(StmtView::Function { name: n, params, body }), s6)
                }
            },
        }
    }
}

/// The methods of a class body from the current one on, after `methods`.
pub open spec fn spec_class_methods(toks: Seq<TokenView>, st: PState, methods: Seq<StmtView>) -> (
    Result<Seq<StmtView>, ParseErrorView>,
    PState,
)
    decreases toks.len() - st.pos, 43int,
{
    if !live(toks, st) {
        (Err(halted(toks, st)), st)
    } else if !check(toks, st, TokenType::RightBrace) && !at_end(toks, st) {
        let (r, s1) = spec_function(toks, st, FunctionKind::Method);
        match r {
            Err(e) => (Err(e), s1),
            Ok(m) => if forward(toks, st, s1) {
                spec_class_methods(toks, s1, methods.push(m))
            } else {
                (Err(halted(toks, s1)), s1)
            },
        }
    } else {
        (Ok(methods), st)
    }
}

/// `class` name ( `<` name )? `{` method* `}` (after `class`); a missing name
/// stops the parse.
pub open spec fn spec_class_declaration(toks: Seq<TokenView>, st: PState) -> StmtStep
    decreases toks.len() - st.pos, 44int,
{
    if !live(toks, st) {
        (Err(halted(toks, st)), st)
    } else {
        let (name, s1) = consume(toks, st, TokenType::Identifier, ParseErrorKind::ExpectClassName);
        match name {
            None => (Err(halted(toks, s1)), abort(s1)),
            Some(n) => {
                let (superclass, s2) = if check(toks, s1, TokenType::Less) {
                    let (sc, s2a) = consume(
                        toks,
                        advance(toks, s1),
                        TokenType::Identifier,
                        ParseErrorKind::ExpectSuperclassName,
                    );
                    match sc {
                        Some(t) => {
                            let (id, s2b) = take_id(s2a);
                            (Some(ExprView::Variable { id, name: t }), s2b)
                        },
                        None => (None, s2a),
                    }
                } else {
                    (None, s1)
                };
                let (_, s3) = consume(
                    toks,
                    s2,
                    TokenType::LeftBrace,
                    ParseErrorKind::ExpectBraceBeforeClassBody,
                );
                if !not_back(toks, st, s3) {
                    (Err(halted(toks, s3)), s3)
                } else {
                    let (rm, s4) = spec_class_methods(toks, s3, Seq::empty());
                    match rm {
                        Err(e) => (Err(e), s4),
                        Ok(methods) => {
                            let (_, s5) = consume(
                                toks,
                                s4,
                                TokenType::RightBrace,
                                ParseErrorKind::ExpectBraceAfterClassBody,
                            );
                            (Ok(StmtView::Class { name: n, superclass, methods }), s5)
                        },
                    }
                }
            },
        }
    }
}

/// declaration := var-declaration | class-declaration | function | statement
pub open spec fn spec_declaration(toks: Seq<TokenView>, st: PState) -> StmtStep
    decreases toks.len() - st.pos, 40int,
{
    if !live(toks, st) {
        (Err(halted(toks, st)), st)
    } else if check(toks, st, TokenType::Var) {
        spec_var_declaration(toks, advance(toks, st))
    } else if check(toks, st, TokenType::Class) {
        spec_class_declaration(toks, advance(toks, st))
    } else if check(toks, st, TokenType::Fun) {
        spec_function(toks, advance(toks, st), FunctionKind::Function)
    } else {
        spec_statement(toks, st)
    }
}

/// `var NAME ;` declares `NAME` with no initializer: the declaration takes its
/// three tokens and records no error.
pub proof fn law_var_without_initializer(toks: Seq<TokenView>, st: PState)
    requires
        !st.stuck,
        0 <= st.pos,
        st.pos + 2 < toks.len(),
        toks[st.pos].kind == TokenType::Var,
        toks[st.pos + 1].kind == TokenType::Identifier,
        toks[st.pos + 2].kind == TokenType::Semicolon,
    ensures
        spec_declaration(toks, st) == (
            Ok::<StmtView, ParseErrorView>(
                StmtView::Var { name: toks[st.pos + 1], initializer: None },
            ),
            PState { pos: st.pos + 3, ..st },
        ),
{
    let s1 = advance(toks, st);
    assert(s1.pos == st.pos + 1);
    let s2 = advance(toks, s1);
    assert(s2.pos == st.pos + 2);
    assert(spec_var_declaration(toks, s1) == (
        Ok::<StmtView, ParseErrorView>(
            StmtView::Var { name: toks[st.pos + 1], initializer: None },
        ),
        PState { pos: st.pos + 3, ..st },
    ));
}

/// `var NAME = VALUE ;` declares `NAME` with the expression `VALUE` as its
/// initializer, when `VALUE` parses without stopping and is followed by `;`: the
/// declaration gives the expression parsed and takes the `;`.
pub proof fn law_var_with_initializer(toks: Seq<TokenView>, st: PState)
    requires
        !st.stuck,
        0 <= st.pos,
        st.pos + 3 < toks.len(),
        toks[st.pos].kind == TokenType::Var,
        toks[st.pos + 1].kind == TokenType::Identifier,
        toks[st.pos + 2].kind == TokenType::Equal,
    ensures
        ({
            let value_start = PState { pos: st.pos + 3, ..st };
            let (rv, sv) = spec_expression(toks, value_start);
            rv is Ok && 0 <= sv.pos < toks.len() && toks[sv.pos].kind == TokenType::Semicolon
                ==> spec_declaration(toks, st) == (
                Ok::<StmtView, ParseErrorView>(
                    StmtView::Var { name: toks[st.pos + 1], initializer: Some(rv->Ok_0) },
                ),
                PState { pos: sv.pos + 1, ..sv },
            )
        }),
{
    let s1 = advance(toks, st);
    assert(s1.pos == st.pos + 1);
    let s2 = advance(toks, s1);
    assert(s2.pos == st.pos + 2);
    let s3 = advance(toks, s2);
    assert(s3 == PState { pos: st.pos + 3, ..st });
}

/// `print VALUE ;` prints the expression `VALUE`, when `VALUE` parses and is
/// followed by `;`: the statement gives the expression parsed and takes the `;`.
pub proof fn law_print_statement(toks: Seq<TokenView>, st: PState)
    requires
        !st.stuck,
        0 <= st.pos,
        st.pos + 1 < toks.len(),
        toks[st.pos].kind == TokenType::Print,
    ensures
        ({
            let (rv, sv) = spec_expression(toks, PState { pos: st.pos + 1, ..st });
            rv is Ok && 0 <= sv.pos < toks.len() && toks[sv.pos].kind == TokenType::Semicolon
                ==> spec_declaration(toks, st) == (
                Ok::<StmtView, ParseErrorView>(StmtView::Print(rv->Ok_0)),
                PState { pos: sv.pos + 1, ..sv },
            )
        }),
{
    assert(advance(toks, st) == PState { pos: st.pos + 1, ..st });
}

/// `return ;` returns no value: the statement keeps the `return` token and takes
/// both tokens, recording no error.
pub proof fn law_return_without_value(toks: Seq<TokenView>, st: PState)
    requires
        !st.stuck,
        0 <= st.pos,
        st.pos + 1 < toks.len(),
        toks[st.pos].kind == TokenType::Return,
        toks[st.pos + 1].kind == TokenType::Semicolon,
    ensures
        spec_declaration(toks, st) == (
            Ok::<StmtView, ParseErrorView>(
                StmtView::Return { keyword: toks[st.pos], value: None },
            ),
            PState { pos: st.pos + 2, ..st },
        ),
{
    assert(advance(toks, st) == PState { pos: st.pos + 1, ..st });
}

/// `{ }` is an empty block: it takes both braces and records no error.
pub proof fn law_empty_block(toks: Seq<TokenView>, st: PState)
    requires
        !st.stuck,
        0 <= st.pos,
        st.pos + 1 < toks.len(),
        toks[st.pos].kind == TokenType::LeftBrace,
        toks[st.pos + 1].kind == TokenType::RightBrace,
    ensures
        spec_declaration(toks, st) == (
            Ok::<StmtView, ParseErrorView>(StmtView::Block(Seq::empty())),
            PState { pos: st.pos + 2, ..st },
        ),
{
    let s1 = advance(toks, st);
    assert(s1 == PState { pos: st.pos + 1, ..st });
    assert(spec_block_items(toks, s1, Seq::empty()) == (
        Seq::<StmtView>::empty(),
        PState { pos: st.pos + 2, ..st },
    ));
}

/// The token at `i` is a number with its literal.
pub open spec fn number_at(toks: Seq<TokenView>, i: int) -> bool {
    0 <= i < toks.len() && toks[i].kind == TokenType::Number && toks[i].literal is Some
}

/// The literal expression of the number token at `i`.
pub open spec fn number_expr(toks: Seq<TokenView>, i: int) -> ExprView {
    ExprView::Literal { value: toks[i].literal->0 }
}

/// A number followed by a token that continues no call is a whole operand.
proof fn lemma_number_operand(toks: Seq<TokenView>, st: PState)
    requires
        !st.stuck,
        0 <= st.pos,
        st.pos + 1 < toks.len(),
        number_at(toks, st.pos),
        toks[st.pos + 1].kind != TokenType::LeftParen,
        toks[st.pos + 1].kind != TokenType::Dot,
        toks[st.pos + 1].kind != TokenType::LeftBracket,
    ensures
        spec_unary(toks, st) == (
            Ok::<ExprView, ParseErrorView>(number_expr(toks, st.pos)),
            PState { pos: st.pos + 1, ..st },
        ),
{
    let s1 = PState { pos: st.pos + 1, ..st };
    assert(advance(toks, st) == s1);
    assert(!next_is_one_of(toks, st, seq![TokenType::Bang, TokenType::Minus]));
    assert(spec_primary(toks, st) == (
        Ok::<Option<ExprView>, ParseErrorView>(Some(number_expr(toks, st.pos))),
        s1,
    ));
    assert(spec_call_rest(toks, s1, number_expr(toks, st.pos)) == (
        Ok::<ExprView, ParseErrorView>(number_expr(toks, st.pos)),
        s1,
    ));
    assert(not_back(toks, st, s1));
    assert(spec_call(toks, st) == (
        Ok::<ExprView, ParseErrorView>(number_expr(toks, st.pos)),
        s1,
    ));
}

/// An operand at `st` that is followed by a token no binary operator of level
/// `level` or below, nor a logical operator, nor `=`: every level from `level` up
/// to a whole expression gives it unchanged.
proof fn lemma_levels_above(toks: Seq<TokenView>, st: PState, s1: PState, e: ExprView, level: int)
    requires
        0 <= level <= 3,
        !s1.stuck,
        st.pos <= s1.pos < toks.len(),
        !st.stuck,
        0 <= st.pos,
        toks[s1.pos].kind == TokenType::Semicolon,
        spec_binary(toks, st, level) == (Ok::<ExprView, ParseErrorView>(e), s1),
    ensures
        spec_expression(toks, st) == (Ok::<ExprView, ParseErrorView>(e), s1),
    decreases 3 - level,
{
    if level < 3 {
        assert(!next_is_one_of(toks, s1, binary_operators(level + 1)));
        assert(spec_binary_rest(toks, s1, level + 1, e) == (Ok::<ExprView, ParseErrorView>(e), s1));
        assert(spec_binary(toks, st, level + 1) == (Ok::<ExprView, ParseErrorView>(e), s1));
        lemma_levels_above(toks, st, s1, e, level + 1);
    } else {
        assert(spec_logical_rest(toks, s1, 0, e) == (Ok::<ExprView, ParseErrorView>(e), s1));
        assert(spec_logical(toks, st, 0) == (Ok::<ExprView, ParseErrorView>(e), s1));
        assert(spec_logical_rest(toks, s1, 1, e) == (Ok::<ExprView, ParseErrorView>(e), s1));
        assert(spec_logical(toks, st, 1) == (Ok::<ExprView, ParseErrorView>(e), s1));
    }
}

/// `*` binds tighter than `+`: `X + Y * Z ;`, over numbers, groups as
/// `X + (Y * Z)`, and the expression ends before the `;`.
pub proof fn law_product_binds_tighter_than_sum(toks: Seq<TokenView>, st: PState)
    requires
        !st.stuck,
        0 <= st.pos,
        st.pos + 5 < toks.len(),
        number_at(toks, st.pos),
        toks[st.pos + 1].kind == TokenType::Plus,
        number_at(toks, st.pos + 2),
        toks[st.pos + 3].kind == TokenType::Star,
        number_at(toks, st.pos + 4),
        toks[st.pos + 5].kind == TokenType::Semicolon,
    ensures
        spec_expression(toks, st) == (
            Ok::<ExprView, ParseErrorView>(
                ExprView::Binary {
                    left: Box::new(number_expr(toks, st.pos)),
                    operator: toks[st.pos + 1],
                    right: Box::new(
                        ExprView::Binary {
                            left: Box::new(number_expr(toks, st.pos + 2)),
                            operator: toks[st.pos + 3],
                            right: Box::new(number_expr(toks, st.pos + 4)),
                        },
                    ),
                },
            ),
            PState { pos: st.pos + 5, ..st },
        ),
{
    let p = st.pos;
    let at = |i: int| PState { pos: i, ..st };
    let x = number_expr(toks, p);
    let y = number_expr(toks, p + 2);
    let z = number_expr(toks, p + 4);
    let yz = ExprView::Binary { left: Box::new(y), operator: toks[p + 3], right: Box::new(z) };
    let all = ExprView::Binary { left: Box::new(x), operator: toks[p + 1], right: Box::new(yz) };
    lemma_number_operand(toks, at(p));
    lemma_number_operand(toks, at(p + 2));
    lemma_number_operand(toks, at(p + 4));
    assert(advance(toks, at(p + 1)) == at(p + 2));
    assert(advance(toks, at(p + 3)) == at(p + 4));
    // Y * Z at the tightest level.
    assert(!next_is_one_of(toks, at(p + 5), binary_operators(0)));
    assert(spec_binary_rest(toks, at(p + 5), 0, yz) == (Ok::<ExprView, ParseErrorView>(yz), at(p + 5)));
    assert(next_is_one_of(toks, at(p + 3), binary_operators(0)));
    assert(spec_binary_rest(toks, at(p + 3), 0, y) == (Ok::<ExprView, ParseErrorView>(yz), at(p + 5)));
    assert(spec_binary(toks, at(p + 2), 0) == (Ok::<ExprView, ParseErrorView>(yz), at(p + 5)));
    // X alone at the tightest level, then X + (Y * Z) at the next.
    assert(!next_is_one_of(toks, at(p + 1), binary_operators(0)));
    assert(spec_binary_rest(toks, at(p + 1), 0, x) == (Ok::<ExprView, ParseErrorView>(x), at(p + 1)));
    assert(spec_binary(toks, at(p), 0) == (Ok::<ExprView, ParseErrorView>(x), at(p + 1)));
    assert(!next_is_one_of(toks, at(p + 5), binary_operators(1)));
    assert(spec_binary_rest(toks, at(p + 5), 1, all) == (Ok::<ExprView, ParseErrorView>(all), at(p + 5)));
    assert(next_is_one_of(toks, at(p + 1), binary_operators(1)));
    assert(spec_binary_rest(toks, at(p + 1), 1, x) == (Ok::<ExprView, ParseErrorView>(all), at(p + 5)));
    assert(spec_binary(toks, at(p), 1) == (Ok::<ExprView, ParseErrorView>(all), at(p + 5)));
    assert(at(p) == st);
    lemma_levels_above(toks, st, at(p + 5), all, 1);
}

/// Operators of one level group to the left: `X - Y - Z ;`, over numbers,
/// groups as `(X - Y) - Z`, and the expression ends before the `;`.
pub proof fn law_difference_groups_left(toks: Seq<TokenView>, st: PState)
    requires
        !st.stuck,
        0 <= st.pos,
        st.pos + 5 < toks.len(),
        number_at(toks, st.pos),
        toks[st.pos + 1].kind == TokenType::Minus,
        number_at(toks, st.pos + 2),
        toks[st.pos + 3].kind == TokenType::Minus,
        number_at(toks, st.pos + 4),
        toks[st.pos + 5].kind == TokenType::Semicolon,
    ensures
        spec_expression(toks, st) == (
            Ok::<ExprView, ParseErrorView>(
                ExprView::Binary {
                    left: Box::new(
                        ExprView::Binary {
                            left: Box::new(number_expr(toks, st.pos)),
                            operator: toks[st.pos + 1],
                            right: Box::new(number_expr(toks, st.pos + 2)),
                        },
                    ),
                    operator: toks[st.pos + 3],
                    right: Box::new(number_expr(toks, st.pos + 4)),
                },
            ),
            PState { pos: st.pos + 5, ..st },
        ),
{
    let p = st.pos;
    let at = |i: int| PState { pos: i, ..st };
    let x = number_expr(toks, p);
    let y = number_expr(toks, p + 2);
    let z = number_expr(toks, p + 4);
    let xy = ExprView::Binary { left: Box::new(x), operator: toks[p + 1], right: Box::new(y) };
    let all = ExprView::Binary { left: Box::new(xy), operator: toks[p + 3], right: Box::new(z) };
    lemma_number_operand(toks, at(p));
    lemma_number_operand(toks, at(p + 2));
    lemma_number_operand(toks, at(p + 4));
    assert(advance(toks, at(p + 1)) == at(p + 2));
    assert(advance(toks, at(p + 3)) == at(p + 4));
    // Each number alone at the tightest level.
    assert(!next_is_one_of(toks, at(p + 1), binary_operators(0)));
    assert(!next_is_one_of(toks, at(p + 3), binary_operators(0)));
    assert(!next_is_one_of(toks, at(p + 5), binary_operators(0)));
    assert(spec_binary_rest(toks, at(p + 1), 0, x) == (Ok::<ExprView, ParseErrorView>(x), at(p + 1)));
    assert(spec_binary(toks, at(p), 0) == (Ok::<ExprView, ParseErrorView>(x), at(p + 1)));
    assert(spec_binary_rest(toks, at(p + 3), 0, y) == (Ok::<ExprView, ParseErrorView>(y), at(p + 3)));
    assert(spec_binary(toks, at(p + 2), 0) == (Ok::<ExprView, ParseErrorView>(y), at(p + 3)));
    assert(spec_binary_rest(toks, at(p + 5), 0, z) == (Ok::<ExprView, ParseErrorView>(z), at(p + 5)));
    assert(spec_binary(toks, at(p + 4), 0) == (Ok::<ExprView, ParseErrorView>(z), at(p + 5)));
    // The differences, from the left.
    assert(!next_is_one_of(toks, at(p + 5), binary_operators(1)));
    assert(spec_binary_rest(toks, at(p + 5), 1, all) == (Ok::<ExprView, ParseErrorView>(all), at(p + 5)));
    assert(next_is_one_of(toks, at(p + 3), binary_operators(1)));
    assert(spec_binary_rest(toks, at(p + 3), 1, xy) == (Ok::<ExprView, ParseErrorView>(all), at(p + 5)));
    assert(next_is_one_of(toks, at(p + 1), binary_operators(1)));
    assert(spec_binary_rest(toks, at(p + 1), 1, x) == (Ok::<ExprView, ParseErrorView>(all), at(p + 5)));
    assert(spec_binary(toks, at(p), 1) == (Ok::<ExprView, ParseErrorView>(all), at(p + 5)));
    assert(at(p) == st);
    lemma_levels_above(toks, st, at(p + 5), all, 1);
}

/// The declarations of a program from the current one on, after `stmts`: all of
/// them when no error was recorded; otherwise the errors recorded, followed by
/// the one that ended the parse, if any.
pub open spec fn spec_program(toks: Seq<TokenView>, st: PState, stmts: Seq<StmtView>) -> (
    Result<Seq<StmtView>, Seq<ParseErrorView>>,
    PState,
)
    decreases toks.len() - st.pos,
{
    if st.stuck {
        (Err(st.errors.push(halted(toks, st))), st)
    } else if !(0 <= st.pos < toks.len()) {
        (Err(st.errors), st)
    } else if !at_end(toks, st) {
        let (r, s1) = spec_declaration(toks, st);
        match r {
            Err(e) => (Err(s1.errors.push(e)), s1),
            Ok(d) => if forward(toks, st, s1) {
                spec_program(toks, s1, stmts.push(d))
            } else {
                (Err(s1.errors), s1)
            },
        }
    } else if st.errors.len() > 0 {
        (Err(st.errors), st)
    } else {
        (Ok(stmts), st)
    }
}

/// The keywords that begin a statement, where recovery after an error stops.
pub open spec fn statement_start(k: TokenType) -> bool {
    ||| k == TokenType::Class
    ||| k == TokenType::Fun
    ||| k == TokenType::Var
    ||| k == TokenType::For
    ||| k == TokenType::If
    ||| k == TokenType::While
    ||| k == TokenType::Print
    ||| k == TokenType::Return
}

/// Skipping tokens from `st` on: stops at the end, just after a `;`, or just
/// before a keyword that begins a statement.
pub open spec fn spec_sync_rest(toks: Seq<TokenView>, st: PState) -> PState
    decreases toks.len() - st.pos,
{
    if !(0 < st.pos < toks.len()) || at_end(toks, st) {
        st
    } else if toks[st.pos - 1].kind == TokenType::Semicolon {
        st
    } else if statement_start(toks[st.pos].kind) {
        st
    } else {
        spec_sync_rest(toks, advance(toks, st))
    }
}

/// Recovering after an error: past the current token, then on to the start of
/// the next statement.
pub open spec fn spec_synchronize(toks: Seq<TokenView>, st: PState) -> PState {
    spec_sync_rest(toks, advance(toks, st))
}

/// What parsing a whole token sequence gives: the program, or the errors.
pub open spec fn parse_program(toks: Seq<TokenView>) -> Result<Seq<StmtView>, Seq<ParseErrorView>> {
    parse_program_from(toks, 0).0
}

/// What parsing a whole token sequence gives when expressions are numbered from
/// `first_id` on: the program or the errors, and the number the next expression
/// would get.
pub open spec fn parse_program_from(toks: Seq<TokenView>, first_id: usize) -> (
    Result<Seq<StmtView>, Seq<ParseErrorView>>,
    usize,
) {
    let (r, st) = spec_program(toks, start_state(first_id), Seq::empty());
    (r, st.next_id)
}

/// Token sequences that the parser takes: they end with the end-of-file token,
/// and every number or string token carries its literal.
pub open spec fn parser_input(toks: Seq<TokenView>) -> bool {
    &&& toks.len() > 0
    &&& toks.last().kind == TokenType::EOF
    &&& forall|i: int|
        0 <= i < toks.len() && (#[trigger] toks[i].kind == TokenType::Number || toks[i].kind
            == TokenType::String) ==> toks[i].literal is Some
}

} // verus!
