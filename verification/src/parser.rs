use vstd::prelude::*;

use crate::expr::{expr_views, lemma_array_model, lemma_call_model, Expr, ExprView};
use crate::grammar::{
    advance,
    at_end,
    binary_operators,
    check,
    consume,
    error_here,
    halted,
    initial_state,
    start_state,
    next_is_one_of,
    next_id_after,
    parser_input,
    spec_array_elements,
    spec_assignment,
    spec_binary,
    spec_binary_rest,
    spec_call,
    spec_call_args,
    spec_call_rest,
    spec_expression,
    spec_finish_call,
    spec_sync_rest,
    spec_synchronize,
    statement_start,
    spec_logical,
    spec_logical_rest,
    spec_primary,
    spec_unary,
    spec_expression_statement,
    spec_print_statement,
    spec_return_statement,
    spec_var_declaration,
    spec_block_items,
    spec_if_statement,
    spec_while_statement,
    spec_for_statement,
    spec_for_clauses,
    spec_statement,
    spec_params,
    spec_function,
    spec_class_methods,
    spec_class_declaration,
    spec_declaration,
    spec_program,
    abort,
    FunctionKind,
    take_id,
    with_error,
    PState,
    ParseErrorKind,
    ParseErrorView,
};
use crate::stmt::{
    lemma_block_model,
    lemma_class_model,
    lemma_function_model,
    stmt_views,
    Stmt,
    StmtView,
};
use crate::token::{token_views, Literal, Token, TokenType, TokenView};

pub mod program;
mod statements;

verus! {

/// An error found while parsing: the token where it was found and its kind.
#[derive(Clone, Debug)]
pub struct ParseError {
    pub token: Token,
    pub kind: ParseErrorKind,
}

impl View for ParseError {
    type V = ParseErrorView;

    open spec fn view(&self) -> ParseErrorView {
        ParseErrorView { token: self.token@, kind: self.kind }
    }
}

/// The models of a sequence of parse errors.
pub open spec fn parse_error_views(es: Seq<ParseError>) -> Seq<ParseErrorView> {
    es.map_values(|e: ParseError| e@)
}

/// The model of the result of parsing an expression.
pub open spec fn expr_result(r: Result<Expr, ParseError>) -> Result<ExprView, ParseErrorView> {
    match r {
        Ok(e) => Ok(e@),
        Err(e) => Err(e@),
    }
}

/// The model of the result of parsing a primary expression.
pub open spec fn primary_result(r: Result<Option<Expr>, ParseError>) -> Result<
    Option<ExprView>,
    ParseErrorView,
> {
    match r {
        Ok(Some(e)) => Ok(Some(e@)),
        Ok(None) => Ok(None),
        Err(e) => Err(e@),
    }
}

/// The model of the result of parsing a statement.
pub open spec fn stmt_result(r: Result<Stmt, ParseError>) -> Result<StmtView, ParseErrorView> {
    match r {
        Ok(s) => Ok(s@),
        Err(e) => Err(e@),
    }
}

/// The model of an optional token.
pub open spec fn opt_token_view(t: Option<Token>) -> Option<TokenView> {
    match t {
        Some(t) => Some(t@),
        None => None,
    }
}

/// Draws the next expression number from `counter`, wrapping around at the top of `usize`.
pub fn next_expr_id(counter: &mut usize) -> (id: usize)
    ensures
        id == *old(counter),
        *final(counter) == next_id_after(*old(counter)),
{
    let id = *counter;
    *counter = if id == usize::MAX {
        0
    } else {
        id + 1
    };
    id
}

/// The parser: turns tokens into statements.
pub struct Parser {
    tokens: Vec<Token>,
    current: usize,
    errors: Vec<ParseError>,
    next_id: usize,
    aborted: bool,
}

impl Parser {
    /// The models of the tokens being parsed.
    pub closed spec fn toks(&self) -> Seq<TokenView> {
        token_views(self.tokens@)
    }

    /// The parsing state.
    pub closed spec fn state(&self) -> PState {
        PState {
            pos: self.current as int,
            errors: parse_error_views(self.errors@),
            next_id: self.next_id,
            stuck: self.aborted,
        }
    }

    closed spec fn wf(&self) -> bool {
        &&& parser_input(self.toks())
        &&& self.current < self.tokens@.len()
    }

    /// The parser went on from `old` over the same tokens.
    closed spec fn moved(&self, old: &Parser) -> bool {
        &&& self.wf()
        &&& self.tokens == old.tokens
        &&& old.current <= self.current
    }

    /// A parser for `tokens` that numbers expressions from 0 on. Programs parsed
    /// one after another with such parsers reuse numbers; to keep them distinct,
    /// use [`Parser::starting_at`] with the number [`Parser::parse_numbered`] gave.
    pub fn new(tokens: Vec<Token>) -> (p: Parser)
        ensures
            p.toks() == token_views(tokens@),
            p.state() == initial_state(),
    {
        Parser::starting_at(tokens, 0)
    }

    /// A parser for `tokens` that numbers expressions from `first_id` on, so that
    /// programs parsed one after another get distinct numbers.
    pub fn starting_at(tokens: Vec<Token>, first_id: usize) -> (p: Parser)
        ensures
            p.toks() == token_views(tokens@),
            p.state() == start_state(first_id),
    {
        let p = Parser { tokens, current: 0, errors: Vec::new(), next_id: first_id, aborted: false };
        assert(p.state().errors =~= Seq::<ParseErrorView>::empty());
        p
    }

    /// A well-formed parser is positioned on one of its tokens.
    proof fn lemma_in_bounds(&self)
        requires
            self.wf(),
        ensures
            0 <= self.state().pos < self.toks().len(),
            self.state().stuck == self.aborted,
    {
    }

    /// The errors recorded so far, leaving none behind.
    fn take_errors(&mut self) -> (e: Vec<ParseError>)
        ensures
            parse_error_views(e@) == old(self).state().errors,
            final(self).next_id == old(self).next_id,
    {
        let mut errors: Vec<ParseError> = Vec::new();
        std::mem::swap(&mut errors, &mut self.errors);
        errors
    }

    /// Whether any error has been recorded.
    fn has_errors(&self) -> (b: bool)
        ensures
            b == (self.state().errors.len() > 0),
    {
        self.errors.len() > 0
    }

    fn peek(&self) -> (t: &Token)
        requires
            self.wf(),
        ensures
            *t == self.tokens@[self.current as int],
    {
        &self.tokens[self.current]
    }

    fn previous(&self) -> (t: &Token)
        requires
            self.wf(),
            self.current > 0,
        ensures
            *t == self.tokens@[self.current - 1],
    {
        &self.tokens[self.current - 1]
    }

    fn end(&self) -> (b: bool)
        requires
            self.wf(),
        ensures
            b == at_end(self.toks(), self.state()),
    {
        self.peek().kind == TokenType::EOF
    }

    fn advance(&mut self)
        requires
            old(self).wf(),
        ensures
            final(self).moved(old(self)),
            final(self).state() == advance(old(self).toks(), old(self).state()),
    {
        if !self.end() {
            assert(self.toks()[self.tokens@.len() - 1].kind == TokenType::EOF);
            assert(self.current + 1 < self.tokens.len());
            self.current += 1;
        }
    }

    fn check(&self, kind: TokenType) -> (b: bool)
        requires
            self.wf(),
        ensures
            b == check(self.toks(), self.state(), kind),
    {
        !self.end() && self.peek().kind == kind
    }

    fn match_next(&mut self, types: &[TokenType]) -> (b: bool)
        requires
            old(self).wf(),
        ensures
            final(self).moved(old(self)),
            b == next_is_one_of(old(self).toks(), old(self).state(), types@),
            final(self).state() == if b {
                advance(old(self).toks(), old(self).state())
            } else {
                old(self).state()
            },
    {
        let mut i: usize = 0;
        while i < types.len()
            invariant
                self.wf(),
                *self == *old(self),
                i <= types@.len(),
                forall|j: int| 0 <= j < i ==> !check(self.toks(), self.state(), #[trigger] types@[j]),
            decreases types.len() - i,
        {
            if self.check(types[i]) {
                self.advance();
                return true;
            }
            i += 1;
        }
        false
    }

    fn match_kind(&mut self, kind: TokenType) -> (b: bool)
        requires
            old(self).wf(),
        ensures
            final(self).moved(old(self)),
            b == check(old(self).toks(), old(self).state(), kind),
            final(self).state() == if b {
                advance(old(self).toks(), old(self).state())
            } else {
                old(self).state()
            },
    {
        if self.check(kind) {
            self.advance();
            true
        } else {
            false
        }
    }

    fn error_here(&self, kind: ParseErrorKind) -> (e: ParseError)
        requires
            self.wf(),
        ensures
            e@ == error_here(self.toks(), self.state(), kind),
    {
        ParseError { token: self.peek().duplicate(), kind }
    }

    fn halt_error(&self) -> (e: ParseError)
        requires
            self.wf(),
        ensures
            e@ == halted(self.toks(), self.state()),
    {
        self.error_here(ParseErrorKind::Aborted)
    }

    fn record(&mut self, e: ParseError)
        requires
            old(self).wf(),
        ensures
            final(self).moved(old(self)),
            final(self).current == old(self).current,
            final(self).state() == with_error(old(self).state(), e@),
    {
        self.errors.push(e);
        assert(parse_error_views(self.errors@) =~= parse_error_views(old(self).errors@).push(e@));
    }

    fn consume(&mut self, kind: TokenType, error: ParseErrorKind) -> (r: Option<Token>)
        requires
            old(self).wf(),
        ensures
            final(self).moved(old(self)),
            (opt_token_view(r), final(self).state()) == consume(
                old(self).toks(),
                old(self).state(),
                kind,
                error,
            ),
    {
        if self.check(kind) {
            let t = self.peek().duplicate();
            self.advance();
            return Some(t);
        }
        let e = self.error_here(error);
        self.record(e);
        None
    }

    /// Skips tokens after an error up to the start of the next statement.
    #[allow(dead_code)]
    fn synchronize(&mut self)
        requires
            old(self).wf(),
        ensures
            final(self).moved(old(self)),
            final(self).state() == spec_synchronize(old(self).toks(), old(self).state()),
    {
        let ghost toks = self.toks();
        self.advance();
        while !self.end()
            invariant
                self.moved(old(self)),
                toks == self.toks(),
                !at_end(toks, self.state()) ==> self.current > 0,
                spec_synchronize(toks, old(self).state()) == spec_sync_rest(toks, self.state()),
            decreases self.tokens@.len() - self.current,
        {
            if self.previous().kind == TokenType::Semicolon {
                return;
            }
            let k = self.peek().kind;
            if k == TokenType::Class || k == TokenType::Fun || k == TokenType::Var || k
                == TokenType::For || k == TokenType::If || k == TokenType::While || k
                == TokenType::Print || k == TokenType::Return {
                assert(statement_start(toks[self.current as int].kind));
                return;
            }
            self.advance();
        }
    }

    fn take_id(&mut self) -> (id: usize)
        requires
            old(self).wf(),
        ensures
            final(self).moved(old(self)),
            final(self).current == old(self).current,
            (id, final(self).state()) == take_id(old(self).state()),
    {
        next_expr_id(&mut self.next_id)
    }

    #[verifier::rlimit(60)]
    fn primary(&mut self) -> (r: Result<Option<Expr>, ParseError>)
        requires
            old(self).wf(),
            !old(self).aborted,
        ensures
            final(self).moved(old(self)),
            !final(self).aborted,
            (primary_result(r), final(self).state()) == spec_primary(
                old(self).toks(),
                old(self).state(),
            ),
            r matches Ok(Some(_)) ==> old(self).current < final(self).current,
        decreases old(self).tokens@.len() - old(self).current, 1int,
    {
        let ghost toks = self.toks();
        let ghost st = self.state();
        if self.match_kind(TokenType::False) {
            return Ok(Some(Expr::Literal { value: Literal::Boolean(false) }));
        }
        if self.match_kind(TokenType::True) {
            return Ok(Some(Expr::Literal { value: Literal::Boolean(true) }));
        }
        if self.match_kind(TokenType::Nil) {
            return Ok(Some(Expr::Literal { value: Literal::Nil }));
        }
        if self.match_next(&[TokenType::Number, TokenType::String]) {
            assert(toks[st.pos].kind == TokenType::Number || toks[st.pos].kind == TokenType::String);
            let value = match &self.previous().literal {
                Some(l) => l.duplicate(),
                None => Literal::Nil,
            };
            return Ok(Some(Expr::Literal { value }));
        }
        if self.match_kind(TokenType::LeftBracket) {
            let array = self.array()?;
            return Ok(Some(array));
        }
        if self.match_kind(TokenType::This) {
            let keyword = self.previous().duplicate();
            let id = self.take_id();
            return Ok(Some(Expr::This { id, keyword }));
        }
        if self.match_kind(TokenType::Super) {
            let keyword = self.previous().duplicate();
            self.consume(TokenType::Dot, ParseErrorKind::ExpectDotAfterSuper);
            let method = match self.consume(
                TokenType::Identifier,
                ParseErrorKind::ExpectSuperclassMethod,
            ) {
                Some(m) => m,
                None => return Ok(None),
            };
            let id = self.take_id();
            return Ok(Some(Expr::Super { id, keyword, method }));
        }
        if self.match_kind(TokenType::Identifier) {
            let name = self.previous().duplicate();
            let id = self.take_id();
            return Ok(Some(Expr::Variable { id, name }));
        }
        if self.match_kind(TokenType::LeftParen) {
            let expr = self.expression()?;
            self.consume(TokenType::RightParen, ParseErrorKind::UnterminatedParenthesis);
            return Ok(Some(Expr::Grouping { expression: Box::new(expr) }));
        }
        let e = self.error_here(ParseErrorKind::ExpressionExpected);
        self.record(e);
        self.advance();
        Ok(None)
    }

    /// The elements of an array literal, after `[`.
    fn array(&mut self) -> (r: Result<Expr, ParseError>)
        requires
            old(self).wf(),
            !old(self).aborted,
        ensures
            final(self).moved(old(self)),
            !final(self).aborted,
            (expr_result(r), final(self).state()) == spec_array_elements(
                old(self).toks(),
                old(self).state(),
                Seq::empty(),
            ),
            r is Ok ==> old(self).current < final(self).current,
        decreases old(self).tokens@.len() - old(self).current, 20int,
    {
        let ghost toks = self.toks();
        let mut elements: Vec<Expr> = Vec::new();
        let ghost target = spec_array_elements(toks, self.state(), Seq::empty());
        assert(expr_views(elements@) =~= Seq::<ExprView>::empty());
        loop
            invariant
                self.wf(),
                self.tokens == old(self).tokens,
                !self.aborted,
                toks == self.toks(),
                old(self).current <= self.current,
                target == spec_array_elements(toks, self.state(), expr_views(elements@)),
                target == spec_array_elements(toks, old(self).state(), Seq::empty()),
            decreases self.tokens@.len() - self.current,
        {
            let kind = self.peek().kind;
            if kind == TokenType::RightBracket {
                self.advance();
                proof {
                    lemma_array_model(elements);
                }
                return Ok(Expr::Array { elements });
            }
            if kind == TokenType::Semicolon {
                return Err(self.error_here(ParseErrorKind::UnterminatedBracket));
            }
            let element = self.expression()?;
            let ghost views = expr_views(elements@);
            elements.push(element);
            assert(expr_views(elements@) =~= views.push(element@));
            let next = self.peek().kind;
            if next == TokenType::Comma {
                self.advance();
            } else if next != TokenType::RightBracket {
                return Err(self.error_here(ParseErrorKind::ElementsNotSeparated));
            }
        }
    }

    /// The arguments of a call, from the first one on.
    fn arguments(&mut self) -> (r: Result<Vec<Expr>, ParseError>)
        requires
            old(self).wf(),
            !old(self).aborted,
        ensures
            final(self).moved(old(self)),
            !final(self).aborted,
            ((match r {
                Ok(a) => Ok(expr_views(a@)),
                Err(e) => Err(e@),
            }), final(self).state()) == spec_call_args(
                old(self).toks(),
                old(self).state(),
                Seq::empty(),
            ),
        decreases old(self).tokens@.len() - old(self).current, 20int,
    {
        let ghost toks = self.toks();
        let mut arguments: Vec<Expr> = Vec::new();
        let ghost target = spec_call_args(toks, self.state(), Seq::empty());
        assert(expr_views(arguments@) =~= Seq::<ExprView>::empty());
        loop
            invariant
                self.wf(),
                self.tokens == old(self).tokens,
                !self.aborted,
                toks == self.toks(),
                old(self).current <= self.current,
                target == spec_call_args(toks, self.state(), expr_views(arguments@)),
                target == spec_call_args(toks, old(self).state(), Seq::empty()),
            decreases self.tokens@.len() - self.current,
        {
            if arguments.len() >= 255 {
                return Err(self.error_here(ParseErrorKind::TooManyArguments));
            }
            let argument = self.expression()?;
            let ghost views = expr_views(arguments@);
            arguments.push(argument);
            assert(expr_views(arguments@) =~= views.push(argument@));
            if !self.match_kind(TokenType::Comma) {
                return Ok(arguments);
            }
        }
    }

    fn finish_call(&mut self, callee: Expr) -> (r: Result<Expr, ParseError>)
        requires
            old(self).wf(),
            !old(self).aborted,
        ensures
            final(self).moved(old(self)),
            !final(self).aborted,
            (expr_result(r), final(self).state()) == spec_finish_call(
                old(self).toks(),
                old(self).state(),
                callee@,
            ),
        decreases old(self).tokens@.len() - old(self).current, 21int,
    {
        let arguments = if self.check(TokenType::RightParen) {
            let a: Vec<Expr> = Vec::new();
            assert(expr_views(a@) =~= Seq::<ExprView>::empty());
            a
        } else {
            self.arguments()?
        };
        let paren = self.consume(TokenType::RightParen, ParseErrorKind::ExpectParenAfterArguments);
        match paren {
            None => Err(self.error_here(ParseErrorKind::ExpectParenAfterArguments)),
            Some(paren) => {
                let callee = Box::new(callee);
                proof {
                    lemma_call_model(callee, paren, arguments);
                }
                Ok(Expr::Call { callee, paren, arguments })
            },
        }
    }

    #[verifier::rlimit(50)]
    fn call(&mut self) -> (r: Result<Expr, ParseError>)
        requires
            old(self).wf(),
            !old(self).aborted,
        ensures
            final(self).moved(old(self)),
            !final(self).aborted,
            (expr_result(r), final(self).state()) == spec_call(old(self).toks(), old(self).state()),
            r is Ok ==> old(self).current < final(self).current,
        decreases old(self).tokens@.len() - old(self).current, 3int,
    {
        let ghost toks = self.toks();
        let first = self.primary()?;
        let mut expr = match first {
            None => return Err(self.error_here(ParseErrorKind::UnknownError)),
            Some(e) => e,
        };
        let ghost target = spec_call_rest(toks, self.state(), expr@);
        loop
            invariant
                self.wf(),
                self.tokens == old(self).tokens,
                !self.aborted,
                toks == self.toks(),
                old(self).current < self.current,
                target == spec_call_rest(toks, self.state(), expr@),
                target == spec_call(toks, old(self).state()),
            decreases self.tokens@.len() - self.current,
        {
            if self.match_kind(TokenType::LeftParen) {
                expr = self.finish_call(expr)?;
            } else if self.match_kind(TokenType::Dot) {
                match self.consume(TokenType::Identifier, ParseErrorKind::ExpectPropertyName) {
                    None => return Ok(expr),
                    Some(name) => {
                        expr = Expr::Get { object: Box::new(expr), name };
                    },
                }
            } else if self.match_kind(TokenType::LeftBracket) {
                let bracket = self.previous().duplicate();
                let index = self.expression()?;
                self.consume(TokenType::RightBracket, ParseErrorKind::ExpectBracketAfterIndex);
                expr = Expr::Index { object: Box::new(expr), bracket, index: Box::new(index) };
            } else {
                return Ok(expr);
            }
        }
    }

    fn unary(&mut self) -> (r: Result<Expr, ParseError>)
        requires
            old(self).wf(),
            !old(self).aborted,
        ensures
            final(self).moved(old(self)),
            !final(self).aborted,
            (expr_result(r), final(self).state()) == spec_unary(old(self).toks(), old(self).state()),
            r is Ok ==> old(self).current < final(self).current,
        decreases old(self).tokens@.len() - old(self).current, 4int,
    {
        if self.match_next(&[TokenType::Bang, TokenType::Minus]) {
            let operator = self.previous().duplicate();
            let right = self.unary()?;
            return Ok(Expr::Unary { operator, right: Box::new(right) });
        }
        self.call()
    }

    fn factor(&mut self) -> (r: Result<Expr, ParseError>)
        requires
            old(self).wf(),
            !old(self).aborted,
        ensures
            final(self).moved(old(self)),
            !final(self).aborted,
            (expr_result(r), final(self).state()) == spec_binary(
                old(self).toks(),
                old(self).state(),
                0,
            ),
            r is Ok ==> old(self).current < final(self).current,
        decreases old(self).tokens@.len() - old(self).current, 6int,
    {
        let ghost toks = self.toks();
        let operators = [TokenType::Slash, TokenType::Star];
        assert(operators@ =~= binary_operators(0));
        let mut expr = self.unary()?;
        let ghost target = spec_binary_rest(toks, self.state(), 0, expr@);
        loop
            invariant
                self.wf(),
                self.tokens == old(self).tokens,
                !self.aborted,
                toks == self.toks(),
                operators@ == binary_operators(0),
                old(self).current < self.current,
                target == spec_binary_rest(toks, self.state(), 0, expr@),
                target == spec_binary(toks, old(self).state(), 0),
            decreases self.tokens@.len() - self.current,
        {
            if !self.match_next(&operators) {
                return Ok(expr);
            }
            let operator = self.previous().duplicate();
            let right = self.unary()?;
            expr = Expr::Binary { left: Box::new(expr), operator, right: Box::new(right) };
        }
    }

    fn term(&mut self) -> (r: Result<Expr, ParseError>)
        requires
            old(self).wf(),
            !old(self).aborted,
        ensures
            final(self).moved(old(self)),
            !final(self).aborted,
            (expr_result(r), final(self).state()) == spec_binary(
                old(self).toks(),
                old(self).state(),
                1,
            ),
            r is Ok ==> old(self).current < final(self).current,
        decreases old(self).tokens@.len() - old(self).current, 8int,
    {
        let ghost toks = self.toks();
        let operators = [TokenType::Minus, TokenType::Plus];
        assert(operators@ =~= binary_operators(1));
        let mut expr = self.factor()?;
        let ghost target = spec_binary_rest(toks, self.state(), 1, expr@);
        loop
            invariant
                self.wf(),
                self.tokens == old(self).tokens,
                !self.aborted,
                toks == self.toks(),
                operators@ == binary_operators(1),
                old(self).current < self.current,
                target == spec_binary_rest(toks, self.state(), 1, expr@),
                target == spec_binary(toks, old(self).state(), 1),
            decreases self.tokens@.len() - self.current,
        {
            if !self.match_next(&operators) {
                return Ok(expr);
            }
            let operator = self.previous().duplicate();
            let right = self.factor()?;
            expr = Expr::Binary { left: Box::new(expr), operator, right: Box::new(right) };
        }
    }

    fn comparison(&mut self) -> (r: Result<Expr, ParseError>)
        requires
            old(self).wf(),
            !old(self).aborted,
        ensures
            final(self).moved(old(self)),
            !final(self).aborted,
            (expr_result(r), final(self).state()) == spec_binary(
                old(self).toks(),
                old(self).state(),
                2,
            ),
            r is Ok ==> old(self).current < final(self).current,
        decreases old(self).tokens@.len() - old(self).current, 10int,
    {
        let ghost toks = self.toks();
        let operators = [
            TokenType::Greater,
            TokenType::GreaterEqual,
            TokenType::Less,
            TokenType::LessEqual,
        ];
        assert(operators@ =~= binary_operators(2));
        let mut expr = self.term()?;
        let ghost target = spec_binary_rest(toks, self.state(), 2, expr@);
        loop
            invariant
                self.wf(),
                self.tokens == old(self).tokens,
                !self.aborted,
                toks == self.toks(),
                operators@ == binary_operators(2),
                old(self).current < self.current,
                target == spec_binary_rest(toks, self.state(), 2, expr@),
                target == spec_binary(toks, old(self).state(), 2),
            decreases self.tokens@.len() - self.current,
        {
            if !self.match_next(&operators) {
                return Ok(expr);
            }
            let operator = self.previous().duplicate();
            let right = self.term()?;
            expr = Expr::Binary { left: Box::new(expr), operator, right: Box::new(right) };
        }
    }

    fn equality(&mut self) -> (r: Result<Expr, ParseError>)
        requires
            old(self).wf(),
            !old(self).aborted,
        ensures
            final(self).moved(old(self)),
            !final(self).aborted,
            (expr_result(r), final(self).state()) == spec_binary(
                old(self).toks(),
                old(self).state(),
                3,
            ),
            r is Ok ==> old(self).current < final(self).current,
        decreases old(self).tokens@.len() - old(self).current, 12int,
    {
        let ghost toks = self.toks();
        let operators = [TokenType::BangEqual, TokenType::EqualEqual];
        assert(operators@ =~= binary_operators(3));
        let mut expr = self.comparison()?;
        let ghost target = spec_binary_rest(toks, self.state(), 3, expr@);
        loop
            invariant
                self.wf(),
                self.tokens == old(self).tokens,
                !self.aborted,
                toks == self.toks(),
                operators@ == binary_operators(3),
                old(self).current < self.current,
                target == spec_binary_rest(toks, self.state(), 3, expr@),
                target == spec_binary(toks, old(self).state(), 3),
            decreases self.tokens@.len() - self.current,
        {
            if !self.match_next(&operators) {
                return Ok(expr);
            }
            let operator = self.previous().duplicate();
            let right = self.comparison()?;
            expr = Expr::Binary { left: Box::new(expr), operator, right: Box::new(right) };
        }
    }

    fn and(&mut self) -> (r: Result<Expr, ParseError>)
        requires
            old(self).wf(),
            !old(self).aborted,
        ensures
            final(self).moved(old(self)),
            !final(self).aborted,
            (expr_result(r), final(self).state()) == spec_logical(
                old(self).toks(),
                old(self).state(),
                0,
            ),
            r is Ok ==> old(self).current < final(self).current,
        decreases old(self).tokens@.len() - old(self).current, 14int,
    {
        let ghost toks = self.toks();
        let mut expr = self.equality()?;
        let ghost target = spec_logical_rest(toks, self.state(), 0, expr@);
        loop
            invariant
                self.wf(),
                self.tokens == old(self).tokens,
                !self.aborted,
                toks == self.toks(),
                old(self).current < self.current,
                target == spec_logical_rest(toks, self.state(), 0, expr@),
                target == spec_logical(toks, old(self).state(), 0),
            decreases self.tokens@.len() - self.current,
        {
            if !self.match_kind(TokenType::And) {
                return Ok(expr);
            }
            let right = self.equality()?;
            expr = Expr::Logical {
                left: Box::new(expr),
                operator: TokenType::And,
                right: Box::new(right),
            };
        }
    }

    fn or(&mut self) -> (r: Result<Expr, ParseError>)
        requires
            old(self).wf(),
            !old(self).aborted,
        ensures
            final(self).moved(old(self)),
            !final(self).aborted,
            (expr_result(r), final(self).state()) == spec_logical(
                old(self).toks(),
                old(self).state(),
                1,
            ),
            r is Ok ==> old(self).current < final(self).current,
        decreases old(self).tokens@.len() - old(self).current, 16int,
    {
        let ghost toks = self.toks();
        let mut expr = self.and()?;
        let ghost target = spec_logical_rest(toks, self.state(), 1, expr@);
        loop
            invariant
                self.wf(),
                self.tokens == old(self).tokens,
                !self.aborted,
                toks == self.toks(),
                old(self).current < self.current,
                target == spec_logical_rest(toks, self.state(), 1, expr@),
                target == spec_logical(toks, old(self).state(), 1),
            decreases self.tokens@.len() - self.current,
        {
            if !self.match_kind(TokenType::Or) {
                return Ok(expr);
            }
            let right = self.and()?;
            expr = Expr::Logical {
                left: Box::new(expr),
                operator: TokenType::Or,
                right: Box::new(right),
            };
        }
    }

    fn assignment(&mut self) -> (r: Result<Expr, ParseError>)
        requires
            old(self).wf(),
            !old(self).aborted,
        ensures
            final(self).moved(old(self)),
            !final(self).aborted,
            (expr_result(r), final(self).state()) == spec_assignment(
                old(self).toks(),
                old(self).state(),
            ),
            r is Ok ==> old(self).current < final(self).current,
        decreases old(self).tokens@.len() - old(self).current, 17int,
    {
        let expr = self.or()?;
        if self.match_kind(TokenType::Equal) {
            let equals = self.previous().duplicate();
            let value = self.assignment()?;
            let result = match expr {
                Expr::Variable { id: _, name } => {
                    let id = self.take_id();
                    Expr::Assign { id, name, value: Box::new(value) }
                },
                Expr::Get { object, name } => Expr::SetProperty {
                    object,
                    name,
                    value: Box::new(value),
                },
                Expr::Index { object, bracket: _, index } => Expr::SetIndex {
                    object,
                    index,
                    eq: equals,
                    value: Box::new(value),
                },
                other => {
                    self.record(
                        ParseError { token: equals, kind: ParseErrorKind::InvalidAssignmentTarget },
                    );
                    other
                },
            };
            return Ok(result);
        }
        Ok(expr)
    }

    fn expression(&mut self) -> (r: Result<Expr, ParseError>)
        requires
            old(self).wf(),
            !old(self).aborted,
        ensures
            final(self).moved(old(self)),
            !final(self).aborted,
            (expr_result(r), final(self).state()) == spec_expression(
                old(self).toks(),
                old(self).state(),
            ),
            r is Ok ==> old(self).current < final(self).current,
        decreases old(self).tokens@.len() - old(self).current, 18int,
    {
        self.assignment()
    }
}

} // verus!
