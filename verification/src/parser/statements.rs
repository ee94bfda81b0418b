//! Statements and declarations, and the whole program.
use vstd::prelude::*;

use super::{parse_error_views, stmt_result, ParseError, Parser};
use crate::expr::Expr;
use crate::grammar::{
    parser_input,
    spec_block_items,
    spec_class_declaration,
    spec_class_methods,
    spec_declaration,
    spec_expression_statement,
    spec_for_clauses,
    spec_for_statement,
    spec_function,
    spec_if_statement,
    spec_params,
    spec_print_statement,
    spec_program,
    spec_return_statement,
    spec_statement,
    spec_var_declaration,
    spec_while_statement,
    FunctionKind,
    ParseErrorKind,
    ParseErrorView,
};
use crate::stmt::{lemma_block_model, lemma_class_model, lemma_function_model, stmt_views, Stmt, StmtView};
use crate::token::{Token, TokenType, TokenView};

verus! {

impl Parser {
    fn expression_statement(&mut self) -> (r: Result<Stmt, ParseError>)
        requires
            old(self).wf(),
            !old(self).aborted,
        ensures
            final(self).moved(old(self)),
            !final(self).aborted,
            (stmt_result(r), final(self).state()) == spec_expression_statement(
                old(self).toks(),
                old(self).state(),
            ),
            r is Ok ==> old(self).current < final(self).current,
        decreases old(self).tokens@.len() - old(self).current, 22int,
    {
        let expr = self.expression()?;
        self.consume(TokenType::Semicolon, ParseErrorKind::SemicolonAfterValue);
        Ok(Stmt::Expression(expr))
    }

    fn print_statement(&mut self) -> (r: Result<Stmt, ParseError>)
        requires
            old(self).wf(),
            !old(self).aborted,
        ensures
            final(self).moved(old(self)),
            !final(self).aborted,
            (stmt_result(r), final(self).state()) == spec_print_statement(
                old(self).toks(),
                old(self).state(),
            ),
            r is Ok ==> old(self).current < final(self).current,
        decreases old(self).tokens@.len() - old(self).current, 22int,
    {
        let value = self.expression()?;
        self.consume(TokenType::Semicolon, ParseErrorKind::SemicolonAfterValue);
        Ok(Stmt::Print(value))
    }

    fn return_statement(&mut self) -> (r: Result<Stmt, ParseError>)
        requires
            old(self).wf(),
            !old(self).aborted,
            old(self).current > 0,
        ensures
            final(self).moved(old(self)),
            !final(self).aborted,
            (stmt_result(r), final(self).state()) == spec_return_statement(
                old(self).toks(),
                old(self).state(),
            ),
        decreases old(self).tokens@.len() - old(self).current, 22int,
    {
        let keyword = self.previous().duplicate();
        let mut value: Option<Expr> = None;
        if !self.check(TokenType::Semicolon) {
            value = Some(self.expression()?);
        }
        self.consume(TokenType::Semicolon, ParseErrorKind::ExpectSemicolonAfterReturn);
        Ok(Stmt::Return { keyword, value })
    }

    fn var_declaration(&mut self) -> (r: Result<Stmt, ParseError>)
        requires
            old(self).wf(),
            !old(self).aborted,
        ensures
            final(self).moved(old(self)),
            (stmt_result(r), final(self).state()) == spec_var_declaration(
                old(self).toks(),
                old(self).state(),
            ),
            r is Ok ==> old(self).current < final(self).current && !final(self).aborted,
        decreases old(self).tokens@.len() - old(self).current, 22int,
    {
        let name = self.consume(TokenType::Identifier, ParseErrorKind::ExpectedIdentifier);
        let initializer: Option<Expr> = if self.match_kind(TokenType::Equal) {
            Some(self.expression()?)
        } else {
            None
        };
        self.consume(TokenType::Semicolon, ParseErrorKind::SemicolonAfterVarDeclaration);
        match name {
            None => {
                let e = self.halt_error();
                self.aborted = true;
                Err(e)
            },
            Some(name) => Ok(Stmt::Var { name, initializer }),
        }
    }

    /// The declarations of a block up to and including its closing `}`.
    fn block(&mut self) -> (r: Vec<Stmt>)
        requires
            old(self).wf(),
        ensures
            final(self).moved(old(self)),
            (stmt_views(r@), final(self).state()) == spec_block_items(
                old(self).toks(),
                old(self).state(),
                Seq::empty(),
            ),
        decreases old(self).tokens@.len() - old(self).current, 41int,
    {
        let ghost toks = self.toks();
        let mut statements: Vec<Stmt> = Vec::new();
        let ghost target = spec_block_items(toks, self.state(), Seq::empty());
        assert(stmt_views(statements@) =~= Seq::<StmtView>::empty());
        loop
            invariant
                self.wf(),
                self.tokens == old(self).tokens,
                toks == self.toks(),
                old(self).current <= self.current,
                target == spec_block_items(toks, self.state(), stmt_views(statements@)),
                target == spec_block_items(toks, old(self).state(), Seq::empty()),
            decreases self.tokens@.len() - self.current,
        {
            if self.aborted {
                return statements;
            }
            if self.check(TokenType::RightBrace) || self.end() {
                self.consume(TokenType::RightBrace, ParseErrorKind::ExpectBraceAfterBlock);
                return statements;
            }
            match self.declaration() {
                Ok(declaration) => {
                    let ghost views = stmt_views(statements@);
                    statements.push(declaration);
                    assert(stmt_views(statements@) =~= views.push(declaration@));
                },
                Err(_) => {
                    self.aborted = true;
                    return statements;
                },
            }
        }
    }

    fn if_statement(&mut self) -> (r: Result<Stmt, ParseError>)
        requires
            old(self).wf(),
            !old(self).aborted,
        ensures
            final(self).moved(old(self)),
            (stmt_result(r), final(self).state()) == spec_if_statement(
                old(self).toks(),
                old(self).state(),
            ),
            r is Ok ==> old(self).current < final(self).current,
        decreases old(self).tokens@.len() - old(self).current, 31int,
    {
        self.consume(TokenType::LeftParen, ParseErrorKind::ExpectParenAfterIf);
        let condition = self.expression()?;
        self.consume(TokenType::RightParen, ParseErrorKind::ExpectParenAfterIfCondition);
        let then_branch = self.statement()?;
        let mut else_branch: Option<Box<Stmt>> = None;
        if self.match_kind(TokenType::Else) {
            else_branch = Some(Box::new(self.statement()?));
        }
        Ok(Stmt::If { condition, then_branch: Box::new(then_branch), else_branch })
    }

    fn while_statement(&mut self) -> (r: Result<Stmt, ParseError>)
        requires
            old(self).wf(),
            !old(self).aborted,
        ensures
            final(self).moved(old(self)),
            (stmt_result(r), final(self).state()) == spec_while_statement(
                old(self).toks(),
                old(self).state(),
            ),
            r is Ok ==> old(self).current < final(self).current,
        decreases old(self).tokens@.len() - old(self).current, 31int,
    {
        self.consume(TokenType::LeftParen, ParseErrorKind::ExpectParenAfterWhile);
        let condition = self.expression()?;
        self.consume(TokenType::RightParen, ParseErrorKind::ExpectParenAfterCondition);
        let body = self.statement()?;
        Ok(Stmt::While { condition: Some(condition), body: Box::new(body) })
    }

    #[verifier::rlimit(50)]
    fn for_statement(&mut self) -> (r: Result<Stmt, ParseError>)
        requires
            old(self).wf(),
            !old(self).aborted,
        ensures
            final(self).moved(old(self)),
            (stmt_result(r), final(self).state()) == spec_for_statement(
                old(self).toks(),
                old(self).state(),
            ),
            r is Ok ==> old(self).current < final(self).current,
        decreases old(self).tokens@.len() - old(self).current, 33int,
    {
        self.consume(TokenType::LeftParen, ParseErrorKind::ExpectParenAfterFor);
        let initializer = if self.match_kind(TokenType::Semicolon) {
            None
        } else if self.match_kind(TokenType::Var) {
            Some(self.var_declaration()?)
        } else {
            Some(self.expression_statement()?)
        };
        self.for_clauses(initializer)
    }

    /// The condition, increment and body of a `for` loop, after its initializer.
    #[verifier::rlimit(50)]
    fn for_clauses(&mut self, initializer: Option<Stmt>) -> (r: Result<Stmt, ParseError>)
        requires
            old(self).wf(),
            !old(self).aborted,
        ensures
            final(self).moved(old(self)),
            (stmt_result(r), final(self).state()) == spec_for_clauses(
                old(self).toks(),
                old(self).state(),
                match initializer {
                    Some(s) => Some(s@),
                    None => None,
                },
            ),
            r is Ok ==> old(self).current < final(self).current,
        decreases old(self).tokens@.len() - old(self).current, 32int,
    {
        let condition = if !self.check(TokenType::Semicolon) {
            Some(self.expression()?)
        } else {
            None
        };
        self.consume(TokenType::Semicolon, ParseErrorKind::ExpectSemicolonAfterLoopCondition);
        let increment = if !self.check(TokenType::RightParen) {
            Some(self.expression()?)
        } else {
            None
        };
        self.consume(TokenType::RightParen, ParseErrorKind::ExpectParenAfterForClauses);
        let mut body = self.statement()?;
        if let Some(inc) = increment {
            let items = vec![body, Stmt::Expression(inc)];
            proof {
                lemma_block_model(items);
                assert(stmt_views(items@) =~= seq![items@[0]@, items@[1]@]);
            }
            body = Stmt::Block(items);
        }
        body = Stmt::While { condition, body: Box::new(body) };
        if let Some(init) = initializer {
            let items = vec![init, body];
            proof {
                lemma_block_model(items);
                assert(stmt_views(items@) =~= seq![items@[0]@, items@[1]@]);
            }
            body = Stmt::Block(items);
        }
        Ok(body)
    }

    fn statement(&mut self) -> (r: Result<Stmt, ParseError>)
        requires
            old(self).wf(),
        ensures
            final(self).moved(old(self)),
            (stmt_result(r), final(self).state()) == spec_statement(
                old(self).toks(),
                old(self).state(),
            ),
            r is Ok ==> old(self).current < final(self).current,
        decreases old(self).tokens@.len() - old(self).current, 30int,
    {
        if self.aborted {
            return Err(self.halt_error());
        }
        if self.match_kind(TokenType::If) {
            return self.if_statement();
        }
        if self.match_kind(TokenType::Print) {
            return self.print_statement();
        }
        if self.match_kind(TokenType::Return) {
            return self.return_statement();
        }
        if self.match_kind(TokenType::LeftBrace) {
            let items = self.block();
            proof {
                lemma_block_model(items);
            }
            return Ok(Stmt::Block(items));
        }
        if self.match_kind(TokenType::While) {
            return self.while_statement();
        }
        if self.match_kind(TokenType::For) {
            return self.for_statement();
        }
        self.expression_statement()
    }

    /// The parameter names of a function, from the first one on.
    fn parameters(&mut self) -> (r: Vec<Token>)
        requires
            old(self).wf(),
        ensures
            final(self).moved(old(self)),
            final(self).aborted == old(self).aborted,
            (r@.map_values(|t: Token| t@), final(self).state()) == spec_params(
                old(self).toks(),
                old(self).state(),
                Seq::empty(),
            ),
    {
        let ghost toks = self.toks();
        let mut parameters: Vec<Token> = Vec::new();
        let ghost target = spec_params(toks, self.state(), Seq::empty());
        assert(parameters@.map_values(|t: Token| t@) =~= Seq::<TokenView>::empty());
        loop
            invariant
                self.wf(),
                self.tokens == old(self).tokens,
                self.aborted == old(self).aborted,
                toks == self.toks(),
                old(self).current <= self.current,
                target == spec_params(toks, self.state(), parameters@.map_values(|t: Token| t@)),
                target == spec_params(toks, old(self).state(), Seq::empty()),
            decreases self.tokens@.len() - self.current,
        {
            if parameters.len() >= 255 {
                let e = self.error_here(ParseErrorKind::TooManyParameters);
                self.record(e);
            }
            if let Some(t) = self.consume(TokenType::Identifier, ParseErrorKind::ParameterNameExpected) {
                let ghost views = parameters@.map_values(|t: Token| t@);
                parameters.push(t);
                assert(parameters@.map_values(|t: Token| t@) =~= views.push(t@));
            }
            if !self.match_kind(TokenType::Comma) {
                return parameters;
            }
        }
    }

    fn function(&mut self, kind: FunctionKind) -> (r: Result<Stmt, ParseError>)
        requires
            old(self).wf(),
            !old(self).aborted,
        ensures
            final(self).moved(old(self)),
            (stmt_result(r), final(self).state()) == spec_function(
                old(self).toks(),
                old(self).state(),
                kind,
            ),
            r is Ok ==> old(self).current < final(self).current,
        decreases old(self).tokens@.len() - old(self).current, 42int,
    {
        let name = match self.consume(TokenType::Identifier, ParseErrorKind::ExpectedName(kind)) {
            Some(name) => name,
            None => return Err(self.error_here(ParseErrorKind::ExpectedName(kind))),
        };
        self.consume(TokenType::LeftParen, ParseErrorKind::ExpectParenAfterName(kind));
        let parameters = if !self.check(TokenType::RightParen) {
            self.parameters()
        } else {
            let p: Vec<Token> = Vec::new();
            assert(p@.map_values(|t: Token| t@) =~= Seq::<TokenView>::empty());
            p
        };
        self.consume(TokenType::RightParen, ParseErrorKind::ExpectParenAfterParameters);
        self.consume(TokenType::LeftBrace, ParseErrorKind::ExpectBraceBeforeBody(kind));
        let body = self.block();
        proof {
            lemma_function_model(name, parameters, body);
        }
        Ok(Stmt::Function { name, params: parameters, body })
    }

    /// The methods of a class body.
    fn class_methods(&mut self) -> (r: Result<Vec<Stmt>, ParseError>)
        requires
            old(self).wf(),
            !old(self).aborted,
        ensures
            final(self).moved(old(self)),
            ((match r {
                Ok(ms) => Ok(stmt_views(ms@)),
                Err(e) => Err(e@),
            }), final(self).state()) == spec_class_methods(
                old(self).toks(),
                old(self).state(),
                Seq::empty(),
            ),
        decreases old(self).tokens@.len() - old(self).current, 43int,
    {
        let ghost toks = self.toks();
        let mut methods: Vec<Stmt> = Vec::new();
        let ghost target = spec_class_methods(toks, self.state(), Seq::empty());
        assert(stmt_views(methods@) =~= Seq::<StmtView>::empty());
        loop
            invariant
                self.wf(),
                self.tokens == old(self).tokens,
                toks == self.toks(),
                old(self).current <= self.current,
                target == spec_class_methods(toks, self.state(), stmt_views(methods@)),
                target == spec_class_methods(toks, old(self).state(), Seq::empty()),
            decreases self.tokens@.len() - self.current,
        {
            if self.aborted {
                return Err(self.halt_error());
            }
            if self.check(TokenType::RightBrace) || self.end() {
                return Ok(methods);
            }
            let method = self.function(FunctionKind::Method)?;
            let ghost views = stmt_views(methods@);
            methods.push(method);
            assert(stmt_views(methods@) =~= views.push(method@));
        }
    }

    fn class_declaration(&mut self) -> (r: Result<Stmt, ParseError>)
        requires
            old(self).wf(),
            !old(self).aborted,
        ensures
            final(self).moved(old(self)),
            (stmt_result(r), final(self).state()) == spec_class_declaration(
                old(self).toks(),
                old(self).state(),
            ),
            r is Ok ==> old(self).current < final(self).current,
        decreases old(self).tokens@.len() - old(self).current, 44int,
    {
        let name = match self.consume(TokenType::Identifier, ParseErrorKind::ExpectClassName) {
            Some(name) => name,
            None => {
                let e = self.halt_error();
                self.aborted = true;
                return Err(e);
            },
        };
        let mut superclass: Option<Expr> = None;
        if self.match_kind(TokenType::Less) {
            if let Some(superclass_name) = self.consume(
                TokenType::Identifier,
                ParseErrorKind::ExpectSuperclassName,
            ) {
                let id = self.take_id();
                superclass = Some(Expr::Variable { id, name: superclass_name });
            }
        }
        self.consume(TokenType::LeftBrace, ParseErrorKind::ExpectBraceBeforeClassBody);
        let methods = self.class_methods()?;
        self.consume(TokenType::RightBrace, ParseErrorKind::ExpectBraceAfterClassBody);
        proof {
            lemma_class_model(name, superclass, methods);
        }
        Ok(Stmt::Class { name, superclass, methods })
    }

    pub(super) fn declaration(&mut self) -> (r: Result<Stmt, ParseError>)
        requires
            old(self).wf(),
            !old(self).aborted,
        ensures
            final(self).moved(old(self)),
            (stmt_result(r), final(self).state()) == spec_declaration(
                old(self).toks(),
                old(self).state(),
            ),
            r is Ok ==> old(self).current < final(self).current,
        decreases old(self).tokens@.len() - old(self).current, 40int,
    {
        if self.match_kind(TokenType::Var) {
            return self.var_declaration();
        }
        if self.match_kind(TokenType::Class) {
            return self.class_declaration();
        }
        if self.match_kind(TokenType::Fun) {
            return self.function(FunctionKind::Function);
        }
        self.statement()
    }
}

} // verus!
